//! Protocol arguments: `name=value` and `name*value` pairs carried by
//! authorization and accounting packets.

use vstd::prelude::*;
use crate::errors::{InvalidArgument, SerializeError};
use crate::text::{FieldText, text_bytes_ok, is_printable_byte};
use crate::header::copy_into_prefix;

verus! {

/// The delimiter of a required (mandatory) argument, `=`.
pub const REQUIRED_DELIMITER: u8 = 0x3d;

/// The delimiter of an optional argument, `*`.
pub const OPTIONAL_DELIMITER: u8 = 0x2a;

/// The byte is one of the two argument delimiters.
pub open spec fn is_delimiter(b: u8) -> bool {
    b == REQUIRED_DELIMITER || b == OPTIONAL_DELIMITER
}

/// The mathematical content of an argument: its name, value and whether it
/// is required.
pub ghost struct ArgumentView {
    /// The name's bytes.
    pub name: Seq<u8>,
    /// The value's bytes.
    pub value: Seq<u8>,
    /// Whether the argument is mandatory.
    pub required: bool,
}

impl ArgumentView {
    /// The invariant every argument satisfies: a nonempty printable-ASCII
    /// name free of delimiters, a printable-ASCII value, and an encoded
    /// form of at most 255 bytes.
    pub open spec fn valid(self) -> bool {
        &&& self.name.len() > 0
        &&& text_bytes_ok(self.name)
        &&& text_bytes_ok(self.value)
        &&& forall|i: int| 0 <= i < self.name.len() ==> !is_delimiter(#[trigger] self.name[i])
        &&& self.name.len() + 1 + self.value.len() <= 255
    }

    /// The delimiter byte: `=` when required, `*` when optional.
    pub open spec fn delimiter(self) -> u8 {
        if self.required {
            REQUIRED_DELIMITER
        } else {
            OPTIONAL_DELIMITER
        }
    }

    /// The wire form `name DELIM value`.
    pub open spec fn encoding(self) -> Seq<u8> {
        self.name + seq![self.delimiter()] + self.value
    }
}

/// For all valid arguments the encoded length is `name.len() + 1 +
/// value.len()`, and the byte at offset `name.len()` of the encoding is `=`
/// exactly when the argument is required, `*` otherwise.
pub proof fn lemma_argument_encoded_form(v: ArgumentView)
    requires
        v.valid(),
    ensures
        v.encoding().len() == v.name.len() + 1 + v.value.len(),
        v.encoding()[v.name.len() as int] == if v.required {
            REQUIRED_DELIMITER
        } else {
            OPTIONAL_DELIMITER
        },
{
}

/// The index of the first delimiter of `s` at or after `i`, or `s.len()`
/// when there is none.
pub open spec fn find_delimiter(s: Seq<u8>, i: int) -> int
    decreases s.len() - i,
{
    if i < 0 || i >= s.len() {
        s.len() as int
    } else if is_delimiter(s[i]) {
        i
    } else {
        find_delimiter(s, i + 1)
    }
}

/// What `find_delimiter` returns: the first delimiter position at or after
/// `i`, with no delimiter before it.
pub proof fn lemma_find_delimiter(s: Seq<u8>, i: int)
    requires
        0 <= i <= s.len(),
    ensures
        i <= find_delimiter(s, i) <= s.len(),
        find_delimiter(s, i) < s.len() ==> is_delimiter(s[find_delimiter(s, i)]),
        forall|j: int| i <= j < find_delimiter(s, i) ==> !is_delimiter(#[trigger] s[j]),
        find_delimiter(s, i) == s.len() ==> forall|j: int|
            i <= j < s.len() ==> !is_delimiter(#[trigger] s[j]),
    decreases s.len() - i,
{
    if i < s.len() && !is_delimiter(s[i]) {
        lemma_find_delimiter(s, i + 1);
    }
}

/// There is a delimiter somewhere in `s`.
pub open spec fn has_delimiter(s: Seq<u8>) -> bool {
    exists|i: int| 0 <= i < s.len() && is_delimiter(#[trigger] s[i])
}

/// The meaning of an argument's wire form, with the errors the decoder
/// reports: over 255 bytes, not printable ASCII, no delimiter at all, or a
/// leading delimiter (an empty name). The first delimiter splits name from
/// value.
pub open spec fn decode_argument(s: Seq<u8>) -> Result<ArgumentView, InvalidArgument> {
    if s.len() > 255 {
        Err(InvalidArgument::TooLong)
    } else if !text_bytes_ok(s) {
        Err(InvalidArgument::NotAscii)
    } else if !has_delimiter(s) {
        Err(InvalidArgument::NoDelimiter)
    } else if is_delimiter(s[0]) {
        Err(InvalidArgument::EmptyName)
    } else {
        let d = find_delimiter(s, 0);
        Ok(
            ArgumentView {
                name: s.take(d),
                value: s.skip(d + 1),
                required: s[d] == REQUIRED_DELIMITER,
            },
        )
    }
}

/// Whatever `decode_argument` accepts is a valid argument whose encoding is
/// the decoded bytes themselves.
pub proof fn lemma_decode_argument_exact(s: Seq<u8>)
    requires
        decode_argument(s) is Ok,
    ensures
        decode_argument(s).unwrap().valid(),
        decode_argument(s).unwrap().encoding() == s,
{
    let v = decode_argument(s).unwrap();
    lemma_find_delimiter(s, 0);
    let d = find_delimiter(s, 0);
    assert(is_delimiter(s[d]));
    assert(v.delimiter() == s[d]);
    assert(v.encoding() =~= s);
}

/// Round trip: decoding the encoding of any valid argument yields that
/// argument again.
pub proof fn lemma_argument_roundtrip(v: ArgumentView)
    requires
        v.valid(),
    ensures
        decode_argument(v.encoding()) == Ok::<ArgumentView, InvalidArgument>(v),
{
    let s = v.encoding();
    let n = v.name.len() as int;
    assert(s[n] == v.delimiter());
    assert(is_delimiter(s[n]));
    assert(has_delimiter(s));
    assert(forall|i: int| 0 <= i < n ==> s[i] == v.name[i]);
    assert(forall|i: int| n + 1 <= i < s.len() ==> s[i] == v.value[i - n - 1]);
    assert(text_bytes_ok(s)) by {
        assert(forall|i: int| 0 <= i < s.len() ==> is_printable_byte(#[trigger] s[i]));
    }
    lemma_find_delimiter(s, 0);
    let d = find_delimiter(s, 0);
    assert(d == n) by {
        if d < n {
            assert(!is_delimiter(v.name[d]));
        }
        if d > n {
            assert(!is_delimiter(s[n]));
        }
    }
    assert(s.take(d) =~= v.name);
    assert(s.skip(d + 1) =~= v.value);
    assert(v.required == (s[d] == REQUIRED_DELIMITER));
}

/// An argument: a nonempty printable-ASCII name without delimiters, a
/// printable-ASCII value, and a required/optional mark. Its wire form is
/// `name=value` when required and `name*value` when optional, at most 255
/// bytes in all.
#[derive(Debug, PartialEq, Eq)]
pub struct Argument {
    name: FieldText,
    value: FieldText,
    required: bool,
}

impl View for Argument {
    type V = ArgumentView;

    closed spec fn view(&self) -> ArgumentView {
        ArgumentView { name: self.name@, value: self.value@, required: self.required }
    }
}

impl Clone for Argument {
    /// Clones the argument, keeping its contents.
    fn clone(&self) -> (r: Self)
        ensures
            r@ == self@,
    {
        Argument { name: self.name.clone(), value: self.value.clone(), required: self.required }
    }
}

/// The outcome `Argument::new` owes for given fields: the checks of
/// `ArgumentView::valid`, applied in the order the constructor reports
/// their failure.
pub open spec fn spec_new_argument(name: Seq<u8>, value: Seq<u8>, required: bool) -> Result<
    ArgumentView,
    InvalidArgument,
> {
    if name.len() == 0 {
        Err(InvalidArgument::EmptyName)
    } else if exists|i: int| 0 <= i < name.len() && is_delimiter(#[trigger] name[i]) {
        Err(InvalidArgument::NameContainsDelimiter)
    } else if name.len() + value.len() >= 255 {
        Err(InvalidArgument::TooLong)
    } else {
        Ok(ArgumentView { name, value, required })
    }
}

impl Argument {
    /// Builds an argument from its fields, enforcing the invariant: the
    /// name must be nonempty and delimiter-free, and name, delimiter and
    /// value together must fit 255 bytes.
    pub fn new(name: FieldText, value: FieldText, required: bool) -> (r: Result<
        Argument,
        InvalidArgument,
    >)
        requires
            name.valid(),
            value.valid(),
        ensures
            match r {
                Ok(a) => spec_new_argument(name@, value@, required) == Ok::<
                    ArgumentView,
                    InvalidArgument,
                >(a@) && a@.valid(),
                Err(e) => spec_new_argument(name@, value@, required) == Err::<
                    ArgumentView,
                    InvalidArgument,
                >(e),
            },
    {
        if name.is_empty() {
            Err(InvalidArgument::EmptyName)
        } else if name.contains_byte(REQUIRED_DELIMITER) || name.contains_byte(OPTIONAL_DELIMITER) {
            Err(InvalidArgument::NameContainsDelimiter)
        } else {
            let nl = name.len();
            let vl = value.len();
            if nl >= 255 || vl >= 255 || nl + vl >= 255 {
                Err(InvalidArgument::TooLong)
            } else {
                Ok(Argument { name, value, required })
            }
        }
    }

    /// The argument's name.
    pub fn name(&self) -> (r: &FieldText)
        ensures
            r@ == self@.name,
    {
        &self.name
    }

    /// The argument's value.
    pub fn value(&self) -> (r: &FieldText)
        ensures
            r@ == self@.value,
    {
        &self.value
    }

    /// Whether the argument is mandatory.
    pub fn is_required(&self) -> (r: bool)
        ensures
            r == self@.required,
    {
        self.required
    }

    /// The length of the wire form: name, one delimiter byte, value.
    pub fn encoded_length(&self) -> (n: u8)
        requires
            self@.valid(),
        ensures
            n == self@.encoding().len(),
            n == self@.name.len() + 1 + self@.value.len(),
    {
        (self.name.len() + 1 + self.value.len()) as u8
    }

    /// Appends the wire form `name DELIM value` to `out`.
    pub fn serialize(&self, out: &mut Vec<u8>)
        requires
            self@.valid(),
        ensures
            final(out)@ == old(out)@ + self@.encoding(),
    {
        let mut name = vstd::slice::slice_to_vec(self.name.as_bytes());
        out.append(&mut name);
        if self.required {
            out.push(REQUIRED_DELIMITER);
        } else {
            out.push(OPTIONAL_DELIMITER);
        }
        let mut value = vstd::slice::slice_to_vec(self.value.as_bytes());
        out.append(&mut value);
        proof {
            assert(final(out)@ =~= old(out)@ + self@.encoding());
        }
    }

    /// Decodes an argument from its wire form, reporting the reason the
    /// bytes are no valid encoding: over 255 bytes, not printable ASCII,
    /// without any delimiter, or with a leading delimiter. The first
    /// delimiter that occurs splits name from value.
    pub fn deserialize(raw: &[u8]) -> (r: Result<Argument, InvalidArgument>)
        ensures
            match r {
                Ok(a) => decode_argument(raw@) == Ok::<ArgumentView, InvalidArgument>(a@)
                    && a@.valid(),
                Err(e) => decode_argument(raw@) == Err::<ArgumentView, InvalidArgument>(e),
            },
    {
        let len = raw.len();
        if len > 255 {
            return Err(InvalidArgument::TooLong);
        }
        let whole = FieldText::try_from_bytes(raw);
        if whole.is_none() {
            return Err(InvalidArgument::NotAscii);
        }
        let mut d: usize = 0;
        let ghost s = raw@;
        while d < len && raw[d] != REQUIRED_DELIMITER && raw[d] != OPTIONAL_DELIMITER
            invariant
                0 <= d <= len,
                len == s.len(),
                s == raw@,
                forall|j: int| 0 <= j < d ==> !is_delimiter(#[trigger] s[j]),
            decreases len - d,
        {
            d += 1;
        }
        if d == len {
            assert(!has_delimiter(s));
            return Err(InvalidArgument::NoDelimiter);
        }
        assert(is_delimiter(s[d as int]));
        assert(has_delimiter(s));
        if d == 0 {
            return Err(InvalidArgument::EmptyName);
        }
        proof {
            lemma_find_delimiter(s, 0);
            let f = find_delimiter(s, 0);
            assert(f == d) by {
                if f < d {
                    assert(!is_delimiter(s[f]));
                }
                if f > d {
                    assert(!is_delimiter(s[d as int]));
                }
            }
        }
        let name_bytes = vstd::slice::slice_subrange(raw, 0, d);
        let value_bytes = vstd::slice::slice_subrange(raw, d + 1, len);
        let name = FieldText::try_from_bytes(name_bytes).unwrap();
        let value = FieldText::try_from_bytes(value_bytes).unwrap();
        let required = raw[d] == REQUIRED_DELIMITER;
        Ok(Argument { name, value, required })
    }
}

/// The wire forms of a list of arguments, back to back.
pub open spec fn args_values_encoding(s: Seq<ArgumentView>) -> Seq<u8>
    decreases s.len(),
{
    if s.len() == 0 {
        Seq::empty()
    } else {
        s.first().encoding() + args_values_encoding(s.drop_first())
    }
}

/// The encoding of a single argument, unfolded.
pub proof fn lemma_args_values_encoding_singleton(v: ArgumentView)
    ensures
        args_values_encoding(seq![v]) == v.encoding(),
{
    reveal_with_fuel(args_values_encoding, 2);
    assert(seq![v].drop_first() =~= Seq::<ArgumentView>::empty());
    assert(args_values_encoding(seq![v]) =~= v.encoding());
}

/// Concatenating argument lists concatenates their encodings.
pub proof fn lemma_args_values_encoding_append(s1: Seq<ArgumentView>, s2: Seq<ArgumentView>)
    ensures
        args_values_encoding(s1 + s2) == args_values_encoding(s1) + args_values_encoding(s2),
    decreases s1.len(),
{
    if s1.len() == 0 {
        assert(s1 + s2 =~= s2);
        assert(args_values_encoding(s1) + args_values_encoding(s2) =~= args_values_encoding(s2));
    } else {
        assert((s1 + s2).first() == s1.first());
        assert((s1 + s2).drop_first() =~= s1.drop_first() + s2);
        lemma_args_values_encoding_append(s1.drop_first(), s2);
        assert(args_values_encoding(s1 + s2) =~= args_values_encoding(s1) + args_values_encoding(
            s2,
        ));
    }
}

/// One length byte per argument: the length of each wire form, in order.
pub open spec fn args_lengths(s: Seq<ArgumentView>) -> Seq<u8> {
    Seq::new(s.len(), |i: int| s[i].encoding().len() as u8)
}

/// The count-and-lengths prefix: the number of arguments, then one length
/// byte per argument.
pub open spec fn args_lengths_encoding(s: Seq<ArgumentView>) -> Seq<u8> {
    seq![s.len() as u8] + args_lengths(s)
}

/// Every argument list this library builds satisfies this bound on the
/// total encoded size.
pub proof fn lemma_args_values_encoding_len(s: Seq<ArgumentView>)
    requires
        forall|i: int| 0 <= i < s.len() ==> (#[trigger] s[i]).valid(),
    ensures
        args_values_encoding(s).len() <= 255 * s.len(),
    decreases s.len(),
{
    if s.len() > 0 {
        assert(s.first().valid());
        lemma_args_values_encoding_len(s.drop_first());
    }
}

/// The sum of a table of length bytes.
pub open spec fn lengths_sum(lens: Seq<u8>) -> int
    decreases lens.len(),
{
    if lens.len() == 0 {
        0
    } else {
        lens[0] + lengths_sum(lens.drop_first())
    }
}

/// Splitting a length table splits its sum.
pub proof fn lemma_lengths_sum_append(s1: Seq<u8>, s2: Seq<u8>)
    ensures
        lengths_sum(s1 + s2) == lengths_sum(s1) + lengths_sum(s2),
    decreases s1.len(),
{
    if s1.len() == 0 {
        assert(s1 + s2 =~= s2);
    } else {
        assert((s1 + s2).drop_first() =~= s1.drop_first() + s2);
        lemma_lengths_sum_append(s1.drop_first(), s2);
    }
}

/// A single length byte sums to itself.
pub proof fn lemma_lengths_sum_singleton(b: u8)
    ensures
        lengths_sum(seq![b]) == b,
{
    reveal_with_fuel(lengths_sum, 2);
    assert(seq![b].drop_first() =~= Seq::<u8>::empty());
}

/// A sum of length bytes is never negative and at most 255 per entry.
pub proof fn lemma_lengths_sum_bounds(lens: Seq<u8>)
    ensures
        0 <= lengths_sum(lens) <= 255 * lens.len(),
    decreases lens.len(),
{
    if lens.len() > 0 {
        lemma_lengths_sum_bounds(lens.drop_first());
    }
}

/// The length table of an argument list sums to the length of its encoded
/// value region.
pub proof fn lemma_lengths_sum_of_args(s: Seq<ArgumentView>)
    requires
        forall|i: int| 0 <= i < s.len() ==> (#[trigger] s[i]).valid(),
    ensures
        lengths_sum(args_lengths(s)) == args_values_encoding(s).len(),
    decreases s.len(),
{
    if s.len() > 0 {
        assert(s.first().valid());
        assert(forall|i: int|
            0 <= i < s.drop_first().len() ==> (#[trigger] s.drop_first()[i]).valid());
        lemma_lengths_sum_of_args(s.drop_first());
        assert(args_lengths(s).drop_first() =~= args_lengths(s.drop_first()));
    }
}

/// The meaning of an encoded argument region: slice the value bytes
/// according to the length table and decode each piece in order.
pub open spec fn decode_args(lengths: Seq<u8>, values: Seq<u8>) -> Result<
    Seq<ArgumentView>,
    InvalidArgument,
>
    decreases lengths.len(),
{
    if lengths.len() == 0 {
        Ok(Seq::empty())
    } else {
        let l = lengths[0] as int;
        if values.len() < l {
            Err(InvalidArgument::TooLong)
        } else {
            match decode_argument(values.take(l)) {
                Err(e) => Err(e),
                Ok(v) => match decode_args(lengths.drop_first(), values.skip(l)) {
                    Err(e) => Err(e),
                    Ok(rest) => Ok(seq![v] + rest),
                },
            }
        }
    }
}

/// Whatever `decode_args` accepts is a list of valid arguments.
pub proof fn lemma_decode_args_valid(lengths: Seq<u8>, values: Seq<u8>)
    requires
        decode_args(lengths, values) is Ok,
    ensures
        forall|i: int|
            0 <= i < decode_args(lengths, values).unwrap().len() ==> (
            #[trigger] decode_args(lengths, values).unwrap()[i]).valid(),
    decreases lengths.len(),
{
    if lengths.len() > 0 {
        let l = lengths[0] as int;
        lemma_decode_argument_exact(values.take(l));
        lemma_decode_args_valid(lengths.drop_first(), values.skip(l));
    }
}

/// Whatever `decode_args` accepts has one argument per length byte.
pub proof fn lemma_decode_args_len(lengths: Seq<u8>, values: Seq<u8>)
    requires
        decode_args(lengths, values) is Ok,
    ensures
        decode_args(lengths, values).unwrap().len() == lengths.len(),
    decreases lengths.len(),
{
    if lengths.len() > 0 {
        let l = lengths[0] as int;
        lemma_decode_args_len(lengths.drop_first(), values.skip(l));
    }
}

/// Round trip for whole argument lists: decoding the length table and the
/// value region of any list of valid arguments yields exactly those
/// arguments, in order.
pub proof fn lemma_args_roundtrip(s: Seq<ArgumentView>)
    requires
        forall|i: int| 0 <= i < s.len() ==> (#[trigger] s[i]).valid(),
    ensures
        decode_args(args_lengths(s), args_values_encoding(s)) == Ok::<
            Seq<ArgumentView>,
            InvalidArgument,
        >(s),
    decreases s.len(),
{
    if s.len() > 0 {
        let first = s.first();
        let rest = s.drop_first();
        let lengths = args_lengths(s);
        let values = args_values_encoding(s);
        assert(first.valid());
        let l = first.encoding().len() as int;
        assert(lengths[0] == l as u8);
        assert(values =~= first.encoding() + args_values_encoding(rest));
        assert(values.take(l) =~= first.encoding());
        assert(values.skip(l) =~= args_values_encoding(rest));
        lemma_argument_roundtrip(first);
        assert(forall|i: int| 0 <= i < rest.len() ==> (#[trigger] rest[i]).valid());
        lemma_args_roundtrip(rest);
        assert(lengths.drop_first() =~= args_lengths(rest));
        assert(first.encoding().len() <= 255);
        assert(lengths[0] == l as u8);
        assert(lengths[0] as int == l);
        assert(values.len() >= l);
        assert(decode_argument(values.take(l)) == Ok::<ArgumentView, InvalidArgument>(first));
        assert(decode_args(lengths.drop_first(), values.skip(l)) == Ok::<
            Seq<ArgumentView>,
            InvalidArgument,
        >(rest));
        assert(seq![first] + rest =~= s);
        assert(decode_args(lengths, values) == Ok::<Seq<ArgumentView>, InvalidArgument>(
            seq![first] + rest,
        ));
    } else {
        assert(s =~= Seq::<ArgumentView>::empty());
        assert(args_lengths(s) =~= Seq::<u8>::empty());
    }
}

/// An ordered list of at most 255 arguments; duplicates are allowed and
/// kept in order.
#[derive(Debug, Clone)]
pub struct Arguments {
    args: Vec<Argument>,
}

impl View for Arguments {
    type V = Seq<ArgumentView>;

    closed spec fn view(&self) -> Seq<ArgumentView> {
        self.args@.map_values(|a: Argument| a@)
    }
}

impl Arguments {
    /// At most 255 arguments, each valid.
    pub open spec fn valid(&self) -> bool {
        &&& self@.len() <= 255
        &&& forall|i: int| 0 <= i < self@.len() ==> (#[trigger] self@[i]).valid()
    }

    /// Copies a slice of arguments, refusing more than 255 of them.
    pub fn new(arguments: &[Argument]) -> (r: Option<Arguments>)
        requires
            forall|i: int| 0 <= i < arguments@.len() ==> (#[trigger] arguments@[i]@).valid(),
        ensures
            r is Some <==> arguments@.len() <= 255,
            r is Some ==> r.unwrap()@ == arguments@.map_values(|a: Argument| a@)
                && r.unwrap().valid(),
    {
        let n = arguments.len();
        if n > 255 {
            return None;
        }
        let mut args: Vec<Argument> = Vec::new();
        let mut i: usize = 0;
        while i < n
            invariant
                0 <= i <= n,
                n == arguments@.len(),
                args@.len() == i,
                forall|j: int| 0 <= j < i ==> #[trigger] args@[j]@ == arguments@[j]@,
            decreases n - i,
        {
            args.push(arguments[i].clone());
            i += 1;
        }
        proof {
            assert(args@.map_values(|a: Argument| a@) =~= arguments@.map_values(
                |a: Argument| a@,
            ));
        }
        Some(Arguments { args })
    }

    /// Copies a slice of arguments, refusing more than 255 of them.
    pub fn try_from_full_slice(arguments: &[Argument]) -> (r: Option<Arguments>)
        requires
            forall|i: int| 0 <= i < arguments@.len() ==> (#[trigger] arguments@[i]@).valid(),
        ensures
            r is Some <==> arguments@.len() <= 255,
            r is Some ==> r.unwrap()@ == arguments@.map_values(|a: Argument| a@)
                && r.unwrap().valid(),
    {
        Self::new(arguments)
    }

    /// The number of arguments in the list.
    pub fn argument_count(&self) -> (n: usize)
        ensures
            n == self@.len(),
    {
        self.args.len()
    }

    /// The argument at the given position.
    pub fn get(&self, i: usize) -> (r: &Argument)
        requires
            i < self@.len(),
        ensures
            r@ == self@[i as int],
    {
        &self.args[i]
    }

    /// The total wire size: one count byte, one length byte per argument,
    /// and the encoded arguments themselves.
    pub fn wire_size(&self) -> (n: usize)
        requires
            self.valid(),
        ensures
            n == 1 + self@.len() + args_values_encoding(self@).len(),
    {
        let count = self.args.len();
        let mut total: usize = 0;
        let mut i: usize = 0;
        while i < count
            invariant
                0 <= i <= count,
                count == self@.len(),
                self.valid(),
                total == args_values_encoding(self@.take(i as int)).len(),
                total <= 255 * i,
            decreases count - i,
        {
            proof {
                assert(self.args@[i as int]@ == self@[i as int]);
                assert(self@[i as int].valid());
                assert(self@.take(i + 1) =~= self@.take(i as int) + seq![self@[i as int]]);
                lemma_args_values_encoding_append(self@.take(i as int), seq![self@[i as int]]);
                lemma_args_values_encoding_singleton(self@[i as int]);
            }
            total += self.args[i].encoded_length() as usize;
            i += 1;
        }
        proof {
            assert(self@.take(count as int) =~= self@);
        }
        1 + count + total
    }

    /// Builds the count-and-lengths prefix: the argument count, then each
    /// argument's encoded length.
    fn build_lengths(&self) -> (r: Vec<u8>)
        requires
            self.valid(),
        ensures
            r@ == args_lengths_encoding(self@),
    {
        let count = self.args.len();
        let mut out: Vec<u8> = Vec::new();
        out.push(count as u8);
        let mut i: usize = 0;
        while i < count
            invariant
                0 <= i <= count,
                count == self@.len(),
                self.valid(),
                out@.len() == i + 1,
                out@[0] == count as u8,
                forall|j: int| 0 <= j < i ==> out@[j + 1] == #[trigger] self@[j].encoding().len() as u8,
            decreases count - i,
        {
            proof {
                assert(self.args@[i as int]@ == self@[i as int]);
                assert(self@[i as int].valid());
            }
            out.push(self.args[i].encoded_length());
            i += 1;
        }
        proof {
            assert(out@ =~= args_lengths_encoding(self@));
        }
        out
    }

    /// Builds the encoded arguments, back to back.
    fn build_values(&self) -> (r: Vec<u8>)
        requires
            self.valid(),
        ensures
            r@ == args_values_encoding(self@),
    {
        let count = self.args.len();
        let mut out: Vec<u8> = Vec::new();
        let mut i: usize = 0;
        while i < count
            invariant
                0 <= i <= count,
                count == self@.len(),
                self.valid(),
                out@ == args_values_encoding(self@.take(i as int)),
            decreases count - i,
        {
            proof {
                assert(self.args@[i as int]@ == self@[i as int]);
                assert(self@[i as int].valid());
                assert(self@.take(i + 1) =~= self@.take(i as int) + seq![self@[i as int]]);
                lemma_args_values_encoding_append(self@.take(i as int), seq![self@[i as int]]);
                lemma_args_values_encoding_singleton(self@[i as int]);
            }
            self.args[i].serialize(&mut out);
            i += 1;
        }
        proof {
            assert(self@.take(count as int) =~= self@);
        }
        out
    }

    /// Writes the argument count and the length table into the front of
    /// `buffer`, leaving the bytes after them unchanged.
    pub fn serialize_header(&self, buffer: &mut Vec<u8>) -> (r: Result<usize, SerializeError>)
        requires
            self.valid(),
        ensures
            match r {
                Ok(n) => {
                    &&& n == 1 + self@.len()
                    &&& old(buffer)@.len() >= n
                    &&& final(buffer)@ == args_lengths_encoding(self@) + old(buffer)@.skip(
                        n as int,
                    )
                },
                Err(e) => {
                    &&& e == SerializeError::NotEnoughSpace
                    &&& old(buffer)@.len() < 1 + self@.len()
                    &&& final(buffer)@ == old(buffer)@
                },
            },
    {
        let enc = self.build_lengths();
        copy_into_prefix(buffer, &enc)
    }

    /// Writes the encoded arguments, back to back, into the front of
    /// `buffer`, leaving the bytes after them unchanged.
    pub fn serialize_body(&self, buffer: &mut Vec<u8>) -> (r: Result<usize, SerializeError>)
        requires
            self.valid(),
        ensures
            match r {
                Ok(n) => {
                    &&& n == args_values_encoding(self@).len()
                    &&& old(buffer)@.len() >= n
                    &&& final(buffer)@ == args_values_encoding(self@) + old(buffer)@.skip(
                        n as int,
                    )
                },
                Err(e) => {
                    &&& e == SerializeError::NotEnoughSpace
                    &&& old(buffer)@.len() < args_values_encoding(self@).len()
                    &&& final(buffer)@ == old(buffer)@
                },
            },
    {
        let enc = self.build_values();
        copy_into_prefix(buffer, &enc)
    }

    /// Appends the count-and-lengths prefix to `out`.
    pub(crate) fn append_lengths(&self, out: &mut Vec<u8>)
        requires
            self.valid(),
        ensures
            final(out)@ == old(out)@ + args_lengths_encoding(self@),
    {
        let mut enc = self.build_lengths();
        out.append(&mut enc);
    }

    /// Appends the encoded arguments to `out`.
    pub(crate) fn append_values(&self, out: &mut Vec<u8>)
        requires
            self.valid(),
        ensures
            final(out)@ == old(out)@ + args_values_encoding(self@),
    {
        let mut enc = self.build_values();
        out.append(&mut enc);
    }
}

} // verus!
