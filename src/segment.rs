use vstd::prelude::*;
use vstd::string::StringExecFns;

use crate::codec::{decimal, push_char, push_decimal_unpadded};

verus! {

/// The characters of a space-padded name: its bytes up to the first space,
/// one character per byte.
pub open spec fn padded_name(b: Seq<u8>) -> Seq<char>
    decreases b.len(),
{
    if b.len() == 0 || b[0] == 0x20 {
        Seq::empty()
    } else {
        seq![b[0] as char] + padded_name(b.subrange(1, b.len() as int))
    }
}

/// Decodes an eight-byte segment name, padded with spaces.
pub fn string_from(pascal_string8: &[u8; 8]) -> (r: String)
    ensures
        r@ == padded_name(pascal_string8@),
{
    let mut result = String::new();
    let ghost b = pascal_string8@;
    let mut i: usize = 0;
    assert(b.subrange(0, 8) == b);
    while i < 8
        invariant
            b == pascal_string8@,
            b.len() == 8,
            i <= 8,
            padded_name(b) == result@ + padded_name(b.subrange(i as int, 8)),
        decreases 8 - i,
    {
        let c = pascal_string8[i];
        if c == 0x20 {
            assert(result@ + Seq::<char>::empty() == result@);
            return result;
        }
        let ghost before = result@;
        push_char(&mut result, c as char);
        proof {
            let rest = b.subrange(i as int, 8);
            assert(rest.subrange(1, rest.len() as int) == b.subrange(i + 1, 8));
            assert(before + (seq![c as char] + padded_name(b.subrange(i + 1, 8))) == before.push(
                c as char,
            ) + padded_name(b.subrange(i + 1, 8)));
        }
        i = i + 1;
    }
    assert(result@ + Seq::<char>::empty() == result@);
    result
}

/// The unit number of a segment information word (its low byte).
pub open spec fn segment_unit(info: u16) -> int {
    info as int % 256
}

/// The code type of a segment information word (bits 11 to 8).
pub open spec fn segment_code_type(info: u16) -> int {
    (info as int / 256) % 16
}

/// The version of a segment information word (bits 15 to 13).
pub open spec fn segment_version(info: u16) -> int {
    info as int / 8192
}

/// The name of a segment code type.
pub open spec fn code_type_name(t: int) -> Seq<char> {
    if t == 0 {
        "Unknown"@
    } else if t == 1 {
        "Pcode Big-endian"@
    } else if t == 2 {
        "Pcode Little-endian"@
    } else {
        "Native code"@
    }
}

/// A segment information word written as
/// `[unit: U, type: T, version: V]`.
pub open spec fn segment_info_text(info: u16) -> Seq<char> {
    "[unit: "@ + decimal(segment_unit(info) as nat) + ", type: "@ + code_type_name(
        segment_code_type(info),
    ) + ", version: "@ + decimal(segment_version(info) as nat) + "]"@
}

/// Describes a segment information word: its unit number, code type and
/// version.
pub fn string_from_segment_info(segment_info: u16) -> (r: String)
    ensures
        r@ == segment_info_text(segment_info),
{
    let unit = segment_info & 0xff;
    let code_type = (segment_info & 0x0f00) >> 8;
    let version = (segment_info & 0xe000) >> 13;
    assert(segment_info & 0xff == segment_info % 256) by (bit_vector);
    assert((segment_info & 0x0f00) >> 8 == (segment_info / 256) % 16) by (bit_vector);
    assert((segment_info & 0xe000) >> 13 == segment_info / 8192) by (bit_vector);
    let type_s = if code_type == 0 {
        "Unknown"
    } else if code_type == 1 {
        "Pcode Big-endian"
    } else if code_type == 2 {
        "Pcode Little-endian"
    } else {
        "Native code"
    };
    let mut result = String::new();
    result.append("[unit: ");
    push_decimal_unpadded(&mut result, unit);
    result.append(", type: ");
    result.append(type_s);
    result.append(", version: ");
    push_decimal_unpadded(&mut result, version);
    result.append("]");
    result
}

} // verus!
