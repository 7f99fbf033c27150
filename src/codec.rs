use vstd::prelude::*;

use crate::error::DiskError;

verus! {

/// The little-endian 16-bit word stored at `off` and `off + 1`.
pub open spec fn le16(b: Seq<u8>, off: int) -> u16 {
    (b[off] + 256 * b[off + 1]) as u16
}

/// Reads the little-endian 16-bit word at `off`.
pub fn read_u16_le(b: &[u8], off: usize) -> (r: u16)
    requires
        off + 2 <= b@.len(),
    ensures
        r == le16(b@, off as int),
{
    let lo = b[off] as u16;
    let hi = b[off + 1] as u16;
    lo + 256 * hi
}

/// Copies `N` bytes of `b` from offset `off` into an array.
pub(crate) fn bytes_at<const N: usize>(b: &[u8], off: usize) -> (r: [u8; N])
    requires
        off + N <= b@.len(),
    ensures
        r@ == b@.subrange(off as int, off + N),
{
    let len = b.len();
    let mut r = [0u8; N];
    let mut k: usize = 0;
    while k < N
        invariant
            k <= N,
            off + N <= len,
            len == b@.len(),
            r@.len() == N,
            forall|j: int| 0 <= j < k ==> r@[j] == b@[off + j],
        decreases N - k,
    {
        r[k] = b[off + k];
        k = k + 1;
    }
    assert(r@ == b@.subrange(off as int, off + N));
    r
}

/// A length-prefixed string is well formed when its field is not empty and
/// the length byte leaves room for that many characters after it.
pub open spec fn pstring_ok(b: Seq<u8>) -> bool {
    b.len() >= 1 && b[0] < b.len()
}

/// The characters of a well-formed length-prefixed string, one per byte.
pub open spec fn pstring_chars(b: Seq<u8>) -> Seq<char> {
    b.subrange(1, 1 + b[0] as int).map_values(|c: u8| c as char)
}

/// Relies on String::push: the character is appended at the end.
#[verifier::external_body]
pub(crate) fn push_char(s: &mut String, c: char)
    ensures
        final(s)@ == old(s)@.push(c),
{
    s.push(c);
}

/// Decodes a length-prefixed string whose field is the whole of `pstring`:
/// the first byte is the length, the characters follow, one byte each.
pub fn pstring_to_string(pstring: &[u8]) -> (r: Result<String, DiskError>)
    ensures
        pstring_ok(pstring@) ==> r is Ok && r->Ok_0@ == pstring_chars(pstring@),
        !pstring_ok(pstring@) ==> r == Err::<String, DiskError>(DiskError::MalformedString),
{
    if pstring.len() == 0 || pstring[0] as usize >= pstring.len() {
        return Err(DiskError::MalformedString);
    }
    let len = pstring[0] as usize;
    let mut result = String::new();
    let mut i: usize = 1;
    while i <= len
        invariant
            1 <= i <= len + 1,
            len < pstring@.len(),
            len == pstring@[0],
            result@ == pstring@.subrange(1, i as int).map_values(|c: u8| c as char),
        decreases len + 1 - i,
    {
        let c = pstring[i] as char;
        push_char(&mut result, c);
        proof {
            assert(pstring@.subrange(1, i + 1) == pstring@.subrange(1, i as int).push(pstring@[i as int]));
        }
        i = i + 1;
    }
    Ok(result)
}

/// The year field of a packed date (bits 15 to 9).
pub open spec fn pdate_year_field(p: u16) -> int {
    p as int / 512
}

/// The day field of a packed date (bits 8 to 4).
pub open spec fn pdate_day(p: u16) -> int {
    (p as int / 16) % 32
}

/// The month field of a packed date (bits 3 to 0).
pub open spec fn pdate_month(p: u16) -> int {
    p as int % 16
}

/// The calendar year of a packed date: two-digit years below 70 fall in the
/// twenty-first century, the others in the twentieth.
pub open spec fn pdate_year(p: u16) -> int {
    if pdate_year_field(p) < 70 {
        pdate_year_field(p) + 2000
    } else {
        pdate_year_field(p) + 1900
    }
}

/// Splits a packed date into its year (century applied), month and day.
/// Month and day are the stored fields as they are, with no calendar check.
pub fn decode_pdate(pdate: u16) -> (r: (u16, u16, u16))
    ensures
        r.0 == pdate_year(pdate),
        r.1 == pdate_month(pdate),
        r.2 == pdate_day(pdate),
{
    let mut year = (pdate & 0xfe00) >> 9;
    let day = (pdate & 0x01f0) >> 4;
    let month = pdate & 0x0f;
    assert((pdate & 0xfe00) >> 9 == pdate / 512) by (bit_vector);
    assert((pdate & 0x01f0) >> 4 == (pdate / 16) % 32) by (bit_vector);
    assert(pdate & 0x0f == pdate % 16) by (bit_vector);
    if year < 70 {
        year = year + 2000;
    } else {
        year = year + 1900;
    }
    (year, month, day)
}

/// The century rule at its boundary: a year field of 69 is 2069, one of 70
/// is 1970, and an all-zero date is year 2000, month 0, day 0, the fields
/// kept as stored.
pub proof fn lemma_pdate_century_boundary(p: u16)
    ensures
        pdate_year_field(p) == 69 ==> pdate_year(p) == 2069,
        pdate_year_field(p) == 70 ==> pdate_year(p) == 1970,
        p == 0 ==> pdate_year(p) == 2000 && pdate_month(p) == 0 && pdate_day(p) == 0,
{
}

/// The decimal digit `d` as a character.
pub open spec fn digit_char(d: int) -> char {
    (48 + d) as char
}

/// The last `width` decimal digits of `n`, most significant first, with
/// leading zeros.
pub open spec fn decimal_padded(n: nat, width: nat) -> Seq<char>
    decreases width,
{
    if width == 0 {
        Seq::empty()
    } else {
        decimal_padded(n / 10, (width - 1) as nat).push(digit_char((n % 10) as int))
    }
}

/// Appends the last `width` decimal digits of `n` to `s`.
pub(crate) fn push_decimal(s: &mut String, n: u16, width: usize)
    ensures
        final(s)@ == old(s)@ + decimal_padded(n as nat, width as nat),
    decreases width,
{
    if width > 0 {
        push_decimal(s, n / 10, width - 1);
        let d = (n % 10) as u8;
        push_char(s, (48u8 + d) as char);
    }
}

/// The decimal digits of `n`, most significant first, without leading
/// zeros (a single `0` for zero).
pub open spec fn decimal(n: nat) -> Seq<char>
    decreases n,
{
    if n < 10 {
        seq![digit_char(n as int)]
    } else {
        decimal(n / 10).push(digit_char((n % 10) as int))
    }
}

/// Appends the decimal digits of `n` to `s`.
pub(crate) fn push_decimal_unpadded(s: &mut String, n: u16)
    ensures
        final(s)@ == old(s)@ + decimal(n as nat),
    decreases n,
{
    if n >= 10 {
        push_decimal_unpadded(s, n / 10);
    }
    let d = (n % 10) as u8;
    push_char(s, (48u8 + d) as char);
    proof {
        if n >= 10 {
            assert(decimal(n as nat) == decimal((n / 10) as nat).push(digit_char((n % 10) as int)));
        }
    }
}

/// A packed date written as `YYYY-MM-DD`.
pub open spec fn pdate_text(p: u16) -> Seq<char> {
    decimal_padded(pdate_year(p) as nat, 4) + seq!['-'] + decimal_padded(
        pdate_month(p) as nat,
        2,
    ) + seq!['-'] + decimal_padded(pdate_day(p) as nat, 2)
}

/// Formats a packed date as `YYYY-MM-DD`, field by field, without checking
/// that month and day name a real calendar date.
pub fn pdate_to_string(pdate: u16) -> (r: String)
    ensures
        r@ == pdate_text(pdate),
{
    let (year, month, day) = decode_pdate(pdate);
    let mut result = String::new();
    push_decimal(&mut result, year, 4);
    push_char(&mut result, '-');
    push_decimal(&mut result, month, 2);
    push_char(&mut result, '-');
    push_decimal(&mut result, day, 2);
    result
}

} // verus!
