//! Scalar fields of the wire format: ASCII integers and decimals, big-endian
//! binary integers, flag octets, and the splitting of a message into fields.

use crate::error::Error;
use vstd::prelude::*;
use vstd::slice::slice_subrange;

verus! {

/// Separates the fields of an ASCII message.
pub const FIELD_SEPARATOR: u8 = 0x20;

/// ASCII `+`.
pub const PLUS: u8 = 0x2B;

/// ASCII `-`.
pub const MINUS: u8 = 0x2D;

/// ASCII `.`.
pub const POINT: u8 = 0x2E;

/// ASCII `1`, the octet of a flag that is set.
pub const FLAG_SET: u8 = 0x31;

pub open spec fn is_digit(b: u8) -> bool {
    0x30 <= b <= 0x39
}

pub open spec fn all_digits(s: Seq<u8>) -> bool {
    forall|i: int| 0 <= i < s.len() ==> is_digit(#[trigger] s[i])
}

/// The number that a string of ASCII digits denotes in base ten.
pub open spec fn digits_value(s: Seq<u8>) -> nat
    decreases s.len(),
{
    if s.len() == 0 {
        0
    } else {
        (digits_value(s.drop_last()) * 10 + (s.last() - 0x30)) as nat
    }
}

/// Reading one more digit never makes the number smaller.
pub proof fn lemma_digits_value_prefix(s: Seq<u8>, n: int)
    requires
        all_digits(s),
        0 <= n <= s.len(),
    ensures
        digits_value(s.subrange(0, n)) <= digits_value(s),
    decreases s.len() - n,
{
    if n == s.len() {
        assert(s.subrange(0, n) =~= s);
    } else {
        lemma_digits_value_prefix(s, n + 1);
        assert(s.subrange(0, n + 1).drop_last() =~= s.subrange(0, n));
        assert(is_digit(s[n]));
    }
}

/// The first occurrence of a byte is the one that no equal byte precedes.
pub proof fn lemma_first_occurrence(s: Seq<u8>, needle: u8, i: int)
    requires
        0 <= i < s.len(),
        s[i] == needle,
        forall|j: int| 0 <= j < i ==> s[j] != needle,
    ensures
        s.index_of_first(needle) == Some(i),
{
    s.index_of_first_ensures(needle);
    assert(s.contains(needle));
}

/// A byte that occurs nowhere has no first occurrence.
pub proof fn lemma_no_occurrence(s: Seq<u8>, needle: u8)
    requires
        forall|j: int| 0 <= j < s.len() ==> s[j] != needle,
    ensures
        s.index_of_first(needle) is None,
{
    s.index_of_first_ensures(needle);
}

/// Finds the first occurrence of a byte.
pub fn find_byte(s: &[u8], needle: u8) -> (r: Option<usize>)
    ensures
        r is Some <==> s@.index_of_first(needle) is Some,
        r matches Some(i) ==> s@.index_of_first(needle) == Some(i as int) && i < s@.len(),
{
    let n = s.len();
    let mut i: usize = 0;
    while i < n
        invariant
            i <= n,
            n == s@.len(),
            forall|j: int| 0 <= j < i ==> s@[j] != needle,
        decreases n - i,
    {
        if s[i] == needle {
            proof {
                lemma_first_occurrence(s@, needle, i as int);
            }
            return Some(i);
        }
        i += 1;
    }
    proof {
        lemma_no_occurrence(s@, needle);
    }
    None
}

/// Compares two byte strings.
pub fn bytes_equal(a: &[u8], b: &[u8]) -> (r: bool)
    ensures
        r == (a@ == b@),
{
    let n = a.len();
    if b.len() != n {
        return false;
    }
    let mut i: usize = 0;
    while i < n
        invariant
            i <= n,
            n == a@.len(),
            n == b@.len(),
            forall|j: int| 0 <= j < i ==> a@[j] == b@[j],
        decreases n - i,
    {
        if a[i] != b[i] {
            return false;
        }
        i += 1;
    }
    assert(a@ =~= b@);
    true
}

/// Reads a run of ASCII digits onto a number that earlier digits gave.
fn read_digits(acc: u64, Ghost(prefix): Ghost<Seq<u8>>, digits: &[u8]) -> (r: Option<u64>)
    requires
        all_digits(prefix),
        acc == digits_value(prefix),
    ensures
        r is Some <==> all_digits(digits@) && digits_value(prefix + digits@) <= u64::MAX,
        r matches Some(v) ==> v == digits_value(prefix + digits@),
{
    let n = digits.len();
    let ghost whole = prefix + digits@;
    let mut acc = acc;
    let mut i: usize = 0;
    assert(prefix + digits@.subrange(0, 0) =~= prefix);
    while i < n
        invariant
            i <= n,
            n == digits@.len(),
            whole == prefix + digits@,
            all_digits(prefix),
            all_digits(digits@.subrange(0, i as int)),
            acc == digits_value(prefix + digits@.subrange(0, i as int)),
        decreases n - i,
    {
        let b = digits[i];
        if b < 0x30 || b > 0x39 {
            assert(digits@[i as int] == b);
            return None;
        }
        let ghost before = digits@.subrange(0, i as int);
        let ghost after = digits@.subrange(0, i + 1);
        assert((prefix + after).drop_last() =~= prefix + before);
        assert((prefix + after).last() == b);
        assert forall|k: int| 0 <= k < after.len() implies is_digit(#[trigger] after[k]) by {
            if k < before.len() {
                assert(after[k] == before[k]);
            }
        }
        let d: u64 = (b - 0x30) as u64;
        if acc > (u64::MAX - d) / 10 {
            proof {
                if all_digits(digits@) {
                    assert(all_digits(whole));
                    assert(whole.subrange(0, prefix.len() + i + 1) =~= prefix + after);
                    lemma_digits_value_prefix(whole, prefix.len() + i + 1);
                }
            }
            return None;
        }
        acc = acc * 10 + d;
        i += 1;
    }
    assert(digits@.subrange(0, n as int) =~= digits@);
    Some(acc)
}

/// An integer field without its optional leading plus sign.
pub open spec fn unsigned_part(s: Seq<u8>) -> Seq<u8> {
    if s.len() > 0 && s[0] == PLUS {
        s.subrange(1, s.len() as int)
    } else {
        s
    }
}

/// An integer field is an optional plus sign and at least one digit, and
/// denotes a number that fits in 32 bits.
pub open spec fn is_u32_literal(s: Seq<u8>) -> bool {
    let d = unsigned_part(s);
    d.len() > 0 && all_digits(d) && digits_value(d) <= u32::MAX
}

/// Decodes an ASCII integer field.
pub fn parse_u32(field: &[u8]) -> (r: Result<u32, Error>)
    ensures
        r is Ok <==> is_u32_literal(field@),
        r matches Ok(v) ==> v == digits_value(unsigned_part(field@)),
        r matches Err(e) ==> e == Error::IntParse,
{
    let n = field.len();
    let start: usize = if n > 0 && field[0] == PLUS { 1 } else { 0 };
    let digits = slice_subrange(field, start, n);
    assert(digits@ =~= unsigned_part(field@));
    assert(Seq::<u8>::empty() + digits@ =~= digits@);
    match read_digits(0, Ghost(Seq::empty()), digits) {
        Some(v) => {
            if start < n && v <= 0xFFFF_FFFF {
                Ok(v as u32)
            } else {
                Err(Error::IntParse)
            }
        },
        None => Err(Error::IntParse),
    }
}

/// A fixed-point decimal number: `mantissa` divided by ten to the power
/// `scale`, negated where `negative` is set.
#[derive(Debug, Clone, Copy, PartialEq, Eq, Structural)]
pub struct Decimal {
    pub negative: bool,
    pub mantissa: u64,
    pub scale: usize,
}

/// The length of the sign that a decimal field starts with, if any.
pub open spec fn sign_len(s: Seq<u8>) -> int {
    if s.len() > 0 && (s[0] == PLUS || s[0] == MINUS) {
        1
    } else {
        0
    }
}

/// A decimal field after its sign.
pub open spec fn decimal_body(s: Seq<u8>) -> Seq<u8> {
    s.subrange(sign_len(s), s.len() as int)
}

/// What stands before the first decimal point.
pub open spec fn integer_digits(body: Seq<u8>) -> Seq<u8> {
    match body.index_of_first(POINT) {
        Some(p) => body.subrange(0, p),
        None => body,
    }
}

/// What stands after the first decimal point.
pub open spec fn fraction_digits(body: Seq<u8>) -> Seq<u8> {
    match body.index_of_first(POINT) {
        Some(p) => body.subrange(p + 1, body.len() as int),
        None => Seq::empty(),
    }
}

/// The digits of a decimal field, point and sign left out.
pub open spec fn decimal_digits(s: Seq<u8>) -> Seq<u8> {
    integer_digits(decimal_body(s)) + fraction_digits(decimal_body(s))
}

/// A decimal field is an optional sign and then digits with at most one
/// decimal point among them, before them or after them. There is at least one
/// digit, and the digits read as one integer fit in 64 bits.
pub open spec fn is_decimal_literal(s: Seq<u8>) -> bool {
    let d = decimal_digits(s);
    d.len() > 0 && all_digits(d) && digits_value(d) <= u64::MAX
}

/// The number that a decimal field denotes.
pub open spec fn decimal_of(s: Seq<u8>) -> Decimal {
    Decimal {
        negative: s.len() > 0 && s[0] == MINUS,
        mantissa: digits_value(decimal_digits(s)) as u64,
        scale: fraction_digits(decimal_body(s)).len() as usize,
    }
}

/// Decodes an ASCII decimal field.
pub fn parse_decimal(field: &[u8]) -> (r: Result<Decimal, Error>)
    ensures
        r is Ok <==> is_decimal_literal(field@),
        r matches Ok(d) ==> d == decimal_of(field@),
        r matches Err(e) ==> e == Error::FloatParse,
{
    let n = field.len();
    let negative = n > 0 && field[0] == MINUS;
    let start: usize = if n > 0 && (field[0] == PLUS || field[0] == MINUS) { 1 } else { 0 };
    let body = slice_subrange(field, start, n);
    assert(body@ =~= decimal_body(field@));
    let len = body.len();
    let (int_end, frac_start) = match find_byte(body, POINT) {
        Some(p) => (p, p + 1),
        None => (len, len),
    };
    let integer = slice_subrange(body, 0, int_end);
    let fraction = slice_subrange(body, frac_start, len);
    assert(integer@ =~= integer_digits(body@));
    assert(fraction@ =~= fraction_digits(body@));
    assert(Seq::<u8>::empty() + integer@ =~= integer@);
    let whole = match read_digits(0, Ghost(Seq::empty()), integer) {
        Some(v) => v,
        None => {
            assert(!all_digits(integer@ + fraction@) || digits_value(integer@ + fraction@)
                > u64::MAX) by {
                if all_digits(integer@ + fraction@) {
                    assert forall|k: int| 0 <= k < integer@.len() implies is_digit(
                        #[trigger] integer@[k],
                    ) by {
                        assert((integer@ + fraction@)[k] == integer@[k]);
                    }
                    lemma_digits_value_prefix(integer@ + fraction@, integer@.len() as int);
                    assert((integer@ + fraction@).subrange(0, integer@.len() as int)
                        =~= integer@);
                }
            }
            return Err(Error::FloatParse);
        },
    };
    let mantissa = match read_digits(whole, Ghost(integer@), fraction) {
        Some(v) => v,
        None => {
            assert(!all_digits(integer@ + fraction@) || digits_value(integer@ + fraction@)
                > u64::MAX) by {
                if all_digits(integer@ + fraction@) {
                    assert forall|k: int| 0 <= k < fraction@.len() implies is_digit(
                        #[trigger] fraction@[k],
                    ) by {
                        assert((integer@ + fraction@)[integer@.len() + k] == fraction@[k]);
                    }
                }
            }
            return Err(Error::FloatParse);
        },
    };
    if int_end + (len - frac_start) == 0 {
        return Err(Error::FloatParse);
    }
    Ok(Decimal { negative, mantissa, scale: len - frac_start })
}

/// The number that two bytes denote, the more significant one first.
pub open spec fn be16(hi: u8, lo: u8) -> u16 {
    (hi * 256 + lo) as u16
}

/// Decodes a two-byte big-endian integer.
pub fn u16_from_be(hi: u8, lo: u8) -> (r: u16)
    ensures
        r == be16(hi, lo),
        r == hi * 256 + lo,
{
    hi as u16 * 256 + lo as u16
}

/// The number that four bytes denote, the most significant one first.
pub open spec fn be32(s: Seq<u8>) -> u32
    recommends
        s.len() == 4,
{
    (s[0] * 0x100_0000 + s[1] * 0x1_0000 + s[2] * 0x100 + s[3]) as u32
}

/// The four-byte big-endian integer that a field holds, if four bytes is
/// what the field has.
pub open spec fn u32_field(s: Seq<u8>) -> Result<u32, Error> {
    if s.len() == 4 {
        Ok(be32(s))
    } else {
        Err(Error::InvalidParameterLength)
    }
}

/// Decodes a four-byte big-endian integer.
pub fn u32_from_be(s: &[u8]) -> (r: Result<u32, Error>)
    ensures
        r == u32_field(s@),
        r matches Ok(v) ==> v == s@[0] * 0x100_0000 + s@[1] * 0x1_0000 + s@[2] * 0x100 + s@[3],
{
    if s.len() != 4 {
        return Err(Error::InvalidParameterLength);
    }
    Ok(s[0] as u32 * 0x100_0000 + s[1] as u32 * 0x1_0000 + s[2] as u32 * 0x100 + s[3] as u32)
}

/// A flag is set where its octet is the digit one, and clear for any other.
pub open spec fn flag(b: u8) -> bool {
    b == FLAG_SET
}

/// Decodes a flag octet.
pub fn read_flag(b: u8) -> (r: bool)
    ensures
        r == flag(b),
{
    b == FLAG_SET
}

/// The fields of an ASCII message: what stands between its separators. A
/// message without a separator is one field, and two separators in a row hold
/// an empty field between them.
pub open spec fn split_fields(s: Seq<u8>) -> Seq<Seq<u8>>
    decreases s.len(),
    via split_fields_decreases
{
    match s.index_of_first(FIELD_SEPARATOR) {
        Some(i) => seq![s.subrange(0, i)] + split_fields(s.subrange(i + 1, s.len() as int)),
        None => seq![s],
    }
}

#[via_fn]
proof fn split_fields_decreases(s: Seq<u8>) {
    s.index_of_first_ensures(FIELD_SEPARATOR);
}

/// Fields put together again, one separator between each two.
pub open spec fn join_fields(f: Seq<Seq<u8>>) -> Seq<u8>
    decreases f.len(),
{
    if f.len() == 0 {
        Seq::empty()
    } else if f.len() == 1 {
        f[0]
    } else {
        f[0] + seq![FIELD_SEPARATOR] + join_fields(f.drop_first())
    }
}

/// A message has at least one field, no field holds a separator, and the
/// fields with a separator between each two are the message again.
pub proof fn lemma_split_fields_joins(s: Seq<u8>)
    ensures
        split_fields(s).len() >= 1,
        forall|k: int|
            0 <= k < split_fields(s).len() ==> !(#[trigger] split_fields(s)[k]).contains(
                FIELD_SEPARATOR,
            ),
        join_fields(split_fields(s)) == s,
    decreases s.len(),
{
    s.index_of_first_ensures(FIELD_SEPARATOR);
    match s.index_of_first(FIELD_SEPARATOR) {
        Some(i) => {
            let first = s.subrange(0, i);
            let rest = s.subrange(i + 1, s.len() as int);
            let f = split_fields(s);
            lemma_split_fields_joins(rest);
            assert(f.drop_first() =~= split_fields(rest));
            assert(first + seq![FIELD_SEPARATOR] + rest =~= s);
            assert forall|k: int| 0 <= k < f.len() implies !(#[trigger] f[k]).contains(
                FIELD_SEPARATOR,
            ) by {
                if k > 0 {
                    assert(f[k] == split_fields(rest)[k - 1]);
                }
            }
        },
        None => {},
    }
}

/// The number of fields is one more than the number of separators.
pub proof fn lemma_split_fields_count(s: Seq<u8>)
    ensures
        split_fields(s).len() == 1 + s.filter(|b: u8| b == FIELD_SEPARATOR).len(),
    decreases s.len(),
{
    let is_separator = |b: u8| b == FIELD_SEPARATOR;
    s.index_of_first_ensures(FIELD_SEPARATOR);
    match s.index_of_first(FIELD_SEPARATOR) {
        Some(i) => {
            let first = s.subrange(0, i);
            let rest = s.subrange(i + 1, s.len() as int);
            lemma_split_fields_count(rest);
            lemma_no_separator_filters_to_nothing(first);
            assert(first + seq![FIELD_SEPARATOR] + rest =~= s);
            Seq::filter_distributes_over_add(first + seq![FIELD_SEPARATOR], rest, is_separator);
            Seq::filter_distributes_over_add(first, seq![FIELD_SEPARATOR], is_separator);
            reveal(Seq::filter);
            assert(seq![FIELD_SEPARATOR].drop_last() =~= Seq::<u8>::empty());
            assert(seq![FIELD_SEPARATOR].filter(is_separator) =~= seq![FIELD_SEPARATOR]);
        },
        None => {
            lemma_no_separator_filters_to_nothing(s);
        },
    }
}

proof fn lemma_no_separator_filters_to_nothing(s: Seq<u8>)
    requires
        forall|j: int| 0 <= j < s.len() ==> s[j] != FIELD_SEPARATOR,
    ensures
        s.filter(|b: u8| b == FIELD_SEPARATOR).len() == 0,
    decreases s.len(),
{
    reveal(Seq::filter);
    if s.len() > 0 {
        lemma_no_separator_filters_to_nothing(s.drop_last());
    }
}

/// Splits an ASCII message into its fields.
pub fn fields(s: &[u8]) -> (r: Vec<&[u8]>)
    ensures
        r@.len() == split_fields(s@).len(),
        forall|k: int| 0 <= k < r@.len() ==> (#[trigger] r@[k])@ == split_fields(s@)[k],
{
    let n = s.len();
    let mut out: Vec<&[u8]> = Vec::new();
    let mut start: usize = 0;
    let mut i: usize = 0;
    let ghost mut done: Seq<Seq<u8>> = Seq::empty();
    assert(s@.subrange(0, n as int) =~= s@);
    while i < n
        invariant
            start <= i <= n,
            n == s@.len(),
            out@.len() == done.len(),
            forall|k: int| 0 <= k < out@.len() ==> (#[trigger] out@[k])@ == done[k],
            split_fields(s@) == done + split_fields(s@.subrange(start as int, n as int)),
            forall|j: int| start <= j < i ==> s@[j] != FIELD_SEPARATOR,
        decreases n - i,
    {
        if s[i] == FIELD_SEPARATOR {
            let field = slice_subrange(s, start, i);
            proof {
                let rest = s@.subrange(start as int, n as int);
                lemma_first_occurrence(rest, FIELD_SEPARATOR, i - start);
                assert(rest.subrange(0, i - start) =~= field@);
                assert(rest.subrange(i - start + 1, rest.len() as int) =~= s@.subrange(
                    i + 1,
                    n as int,
                ));
                assert(done + (seq![field@] + split_fields(s@.subrange(i + 1, n as int)))
                    =~= done.push(field@) + split_fields(s@.subrange(i + 1, n as int)));
                done = done.push(field@);
            }
            out.push(field);
            start = i + 1;
        }
        i += 1;
    }
    let field = slice_subrange(s, start, n);
    proof {
        lemma_no_occurrence(field@, FIELD_SEPARATOR);
        assert(done + seq![field@] =~= done.push(field@));
    }
    out.push(field);
    out
}

} // verus!
