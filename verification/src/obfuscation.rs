//! The RFC 8907 body obfuscation: an MD5-iterated pseudo-pad XORed over the
//! packet body. Applying the same pad twice restores the original bytes, so
//! one routine serves both directions.

use vstd::prelude::*;
use crate::header::be32;

verus! {

/// The MD5 digest of a byte sequence. Its value is supplied by the `md-5`
/// crate; the library states nothing about it beyond its length.
pub uninterp spec fn md5_of(data: Seq<u8>) -> Seq<u8>;

/// Relies on `md5::Md5::digest` of the `md-5` crate: the MD5 digest of the
/// input, 16 bytes, a function of the input bytes alone.
#[verifier::external_body]
pub(crate) fn md5_digest(data: &Vec<u8>) -> (r: Vec<u8>)
    ensures
        r@ == md5_of(data@),
        r@.len() == 16,
{
    let out = <md5::Md5 as md5::Digest>::digest(data.as_slice());
    out.as_slice().to_vec()
}

/// The pad's common hash prefix: session id (big-endian), key, version
/// byte, sequence number.
pub open spec fn pad_prefix(session_id: u32, key: Seq<u8>, version_byte: u8, seq_no: u8) -> Seq<
    u8,
> {
    be32(session_id) + key + seq![version_byte] + seq![seq_no]
}

/// The pad's `k`-th 16-byte chunk: MD5 of the prefix for the first, MD5 of
/// the prefix followed by the previous chunk after that.
pub open spec fn pad_chunk(prefix: Seq<u8>, k: nat) -> Seq<u8>
    decreases k,
{
    if k == 0 {
        md5_of(prefix)
    } else {
        md5_of(prefix + pad_chunk(prefix, (k - 1) as nat))
    }
}

/// The `i`-th byte of the pseudo-pad.
pub open spec fn pad_byte(prefix: Seq<u8>, i: int) -> u8 {
    pad_chunk(prefix, (i / 16) as nat)[i % 16]
}

/// The sequence XORed bytewise with the pseudo-pad derived from `prefix`.
pub open spec fn xor_with_pad(prefix: Seq<u8>, s: Seq<u8>) -> Seq<u8> {
    Seq::new(s.len(), |i: int| s[i] ^ pad_byte(prefix, i))
}

/// Obfuscation is an involution: with fixed key material, applying the pad
/// twice to a body yields the original bytes.
pub proof fn lemma_obfuscation_involution(prefix: Seq<u8>, s: Seq<u8>)
    ensures
        xor_with_pad(prefix, xor_with_pad(prefix, s)) == s,
{
    assert(forall|a: u8, b: u8| #[trigger] ((a ^ b) ^ b) == a) by (bit_vector);
    assert(xor_with_pad(prefix, xor_with_pad(prefix, s)) =~= s);
}

/// Builds the first `len` bytes of the pseudo-pad for `prefix_vec`.
fn build_pad(prefix_vec: &Vec<u8>, len: usize) -> (r: Vec<u8>)
    ensures
        r@.len() == len,
        forall|i: int| 0 <= i < len ==> r@[i] == pad_byte(prefix_vec@, i),
{
    let ghost prefix_s = prefix_vec@;
    let mut pad: Vec<u8> = Vec::new();
    let mut chunk = md5_digest(prefix_vec);
    let ghost mut k: nat = 0nat;
    while pad.len() < len
        invariant
            pad@.len() <= len,
            chunk@ == pad_chunk(prefix_s, k),
            chunk@.len() == 16,
            prefix_vec@ == prefix_s,
            pad@.len() < len ==> pad@.len() == 16 * k,
            forall|i: int| 0 <= i < pad@.len() ==> pad@[i] == pad_byte(prefix_s, i),
        decreases len - pad@.len(),
    {
        let mut j: usize = 0;
        while j < 16 && pad.len() < len
            invariant
                0 <= j <= 16,
                pad@.len() == 16 * k + j,
                pad@.len() <= len,
                chunk@ == pad_chunk(prefix_s, k),
                chunk@.len() == 16,
                prefix_vec@ == prefix_s,
                forall|i: int| 0 <= i < pad@.len() ==> pad@[i] == pad_byte(prefix_s, i),
            decreases 16 - j,
        {
            proof {
                assert((16 * k + j) / 16 == k && (16 * k + j) % 16 == j) by (nonlinear_arith)
                    requires
                        0 <= j < 16,
                        k >= 0,
                ;
                assert(pad_byte(prefix_s, 16 * k + j) == chunk@[j as int]);
            }
            pad.push(chunk[j]);
            j += 1;
        }
        if pad.len() < len {
            let mut next_input = prefix_vec.clone();
            let mut prev = chunk;
            next_input.append(&mut prev);
            proof {
                assert(next_input@ =~= prefix_s + pad_chunk(prefix_s, k));
                k = k + 1nat;
            }
            chunk = md5_digest(&next_input);
        }
    }
    pad
}

/// XORs the pseudo-pad for the given header material and key over `body`,
/// in place. Serialization obfuscates with it; on received packets the same
/// call removes the pad again.
pub fn apply_body_pad(session_id: u32, key: &[u8], version_byte: u8, seq_no: u8, body: &mut Vec<
    u8,
>)
    ensures
        final(body)@ == xor_with_pad(
            pad_prefix(session_id, key@, version_byte, seq_no),
            old(body)@,
        ),
{
    let ghost prefix_s = pad_prefix(session_id, key@, version_byte, seq_no);
    let mut prefix: Vec<u8> = crate::header::u32_to_be_bytes(session_id);
    let mut key_copy = vstd::slice::slice_to_vec(key);
    prefix.append(&mut key_copy);
    prefix.push(version_byte);
    prefix.push(seq_no);
    proof {
        assert(prefix@ =~= prefix_s);
    }
    let len = body.len();
    let pad = build_pad(&prefix, len);
    let mut i: usize = 0;
    while i < len
        invariant
            0 <= i <= len,
            len == body@.len() == old(body)@.len(),
            pad@.len() == len,
            forall|j: int| 0 <= j < len ==> pad@[j] == pad_byte(prefix_s, j),
            forall|j: int| 0 <= j < i ==> body@[j] == (old(body)@[j] ^ pad_byte(prefix_s, j)),
            forall|j: int| i <= j < len ==> body@[j] == old(body)@[j],
        decreases len - i,
    {
        let b = body[i];
        let p = pad[i];
        body[i] = b ^ p;
        i += 1;
    }
    proof {
        assert(body@ =~= xor_with_pad(prefix_s, old(body)@));
    }
}

} // verus!
