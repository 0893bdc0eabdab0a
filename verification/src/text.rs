//! Text fields restricted to printable ASCII, as RFC 8907 requires for most
//! string-valued packet fields.

use vstd::prelude::*;
use vstd::string::StringSliceAdditionalSpecFns;

verus! {

/// A byte is printable ASCII: below `0x7f` and not a control character.
pub open spec fn is_printable_byte(b: u8) -> bool {
    0x20 <= b && b < 0x7f
}

/// Every byte of the sequence is printable ASCII.
pub open spec fn text_bytes_ok(s: Seq<u8>) -> bool {
    forall|i: int| 0 <= i < s.len() ==> is_printable_byte(#[trigger] s[i])
}

/// A string-like field whose bytes are all printable ASCII.
///
/// Construction is fallible; every value that exists satisfies
/// [`FieldText::valid`], which constructors establish.
#[derive(Debug)]
pub struct FieldText {
    bytes: Vec<u8>,
}

/// The historical name of [`FieldText`].
pub type AsciiStr = FieldText;

impl View for FieldText {
    type V = Seq<u8>;

    closed spec fn view(&self) -> Seq<u8> {
        self.bytes@
    }
}

impl FieldText {
    /// The contents are printable ASCII.
    pub open spec fn valid(&self) -> bool {
        text_bytes_ok(self@)
    }

    /// Checks that every byte of `bytes` is printable ASCII and, if so, wraps
    /// a copy of them.
    pub fn try_from_bytes(bytes: &[u8]) -> (r: Option<FieldText>)
        ensures
            r is Some <==> text_bytes_ok(bytes@),
            r is Some ==> r.unwrap()@ == bytes@ && r.unwrap().valid(),
    {
        let n = bytes.len();
        let mut i: usize = 0;
        while i < n
            invariant
                0 <= i <= n,
                n == bytes@.len(),
                forall|j: int| 0 <= j < i ==> is_printable_byte(#[trigger] bytes@[j]),
            decreases n - i,
        {
            let b = bytes[i];
            if b < 0x20 || b >= 0x7f {
                return None;
            }
            i += 1;
        }
        Some(FieldText { bytes: vstd::slice::slice_to_vec(bytes) })
    }

    /// Checks that every byte of `s` is printable ASCII and, if so, wraps a
    /// copy of its bytes.
    pub fn try_from_str(s: &str) -> (r: Option<FieldText>)
        ensures
            r is Some <==> text_bytes_ok(s.spec_bytes()),
            r is Some ==> r.unwrap()@ == s.spec_bytes() && r.unwrap().valid(),
    {
        Self::try_from_bytes(s.as_bytes())
    }

    /// The length of the field in bytes.
    pub fn len(&self) -> (n: usize)
        ensures
            n == self@.len(),
    {
        self.bytes.len()
    }

    /// The field's bytes.
    pub fn as_bytes(&self) -> (r: &[u8])
        ensures
            r@ == self@,
    {
        self.bytes.as_slice()
    }

    /// Whether the field is empty.
    pub fn is_empty(&self) -> (r: bool)
        ensures
            r == (self@.len() == 0),
    {
        self.bytes.len() == 0
    }

    /// Whether the field contains the given byte.
    pub fn contains_byte(&self, b: u8) -> (r: bool)
        ensures
            r == exists|i: int| 0 <= i < self@.len() && self@[i] == b,
    {
        let n = self.bytes.len();
        let mut i: usize = 0;
        while i < n
            invariant
                0 <= i <= n,
                n == self@.len(),
                forall|j: int| 0 <= j < i ==> #[trigger] self@[j] != b,
            decreases n - i,
        {
            if self.bytes[i] == b {
                return true;
            }
            i += 1;
        }
        false
    }

    /// Whether the field contains any of the given bytes.
    pub fn contains_any(&self, bytes: &[u8]) -> (r: bool)
        ensures
            r == exists|i: int, j: int|
                0 <= i < self@.len() && 0 <= j < bytes@.len() && self@[i] == bytes@[j],
    {
        let n = self.bytes.len();
        let m = bytes.len();
        let mut i: usize = 0;
        while i < n
            invariant
                0 <= i <= n,
                n == self@.len(),
                m == bytes@.len(),
                forall|a: int, b: int|
                    0 <= a < i && 0 <= b < m ==> #[trigger] self@[a] != #[trigger] bytes@[b],
            decreases n - i,
        {
            let mut j: usize = 0;
            while j < m
                invariant
                    0 <= i < n,
                    0 <= j <= m,
                    n == self@.len(),
                    m == bytes@.len(),
                    forall|b: int| 0 <= b < j ==> self@[i as int] != #[trigger] bytes@[b],
                decreases m - j,
            {
                if self.bytes[i] == bytes[j] {
                    return true;
                }
                j += 1;
            }
            i += 1;
        }
        false
    }
}

impl Clone for FieldText {
    /// Clones the field, keeping its contents.
    fn clone(&self) -> (r: Self)
        ensures
            r@ == self@,
    {
        FieldText { bytes: self.bytes.clone() }
    }
}

impl PartialEq for FieldText {
    fn eq(&self, other: &Self) -> (r: bool)
    {
        let r = self.bytes == other.bytes;
        proof {
            if r {
                assert(self.bytes@ =~= other.bytes@);
            } else {
                if self.bytes@ == other.bytes@ {
                    assert(forall|i: int|
                        0 <= i < self.bytes@.len() ==> self.bytes@[i] == other.bytes@[i]);
                    assert(false);
                }
            }
        }
        r
    }
}

impl vstd::std_specs::cmp::PartialEqSpecImpl for FieldText {
    open spec fn obeys_eq_spec() -> bool {
        true
    }

    open spec fn eq_spec(&self, other: &Self) -> bool {
        self@ == other@
    }
}

impl Eq for FieldText {}

} // verus!
