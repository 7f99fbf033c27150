use vstd::prelude::*;

use crate::error::DiskError;

verus! {

/// Offset at which decoding of a text file starts: the two header blocks
/// are skipped, and one byte more.
pub const TEXT_START: usize = 1025;

/// Puts `out` in front of a decoding result; a failed decoding stays failed.
pub open spec fn prepend(out: Seq<u8>, rest: Option<Seq<u8>>) -> Option<Seq<u8>> {
    match rest {
        Some(t) => Some(out + t),
        None => None,
    }
}

/// A run of `n` space bytes.
pub open spec fn spaces(n: int) -> Seq<u8> {
    Seq::new(n as nat, |_k: int| 0x20u8)
}

/// The decoding of the bytes of `b` from position `i` to the end: a carriage
/// return becomes a line feed, an indent marker `0x10` followed by a count
/// byte `c` becomes `c - 32` spaces, nulls vanish and every other byte is
/// kept. An indent marker without a count byte, or with a count below 32,
/// makes the decoding fail.
pub open spec fn text_from(b: Seq<u8>, i: int) -> Option<Seq<u8>>
    decreases b.len() - i,
{
    if i < 0 || i >= b.len() {
        Some(Seq::empty())
    } else if b[i] == 0x0d {
        prepend(seq![0x0au8], text_from(b, i + 1))
    } else if b[i] == 0x10 {
        if i + 1 >= b.len() || b[i + 1] < 32 {
            None
        } else {
            prepend(spaces(b[i + 1] - 32), text_from(b, i + 2))
        }
    } else if b[i] == 0 {
        text_from(b, i + 1)
    } else {
        prepend(seq![b[i]], text_from(b, i + 1))
    }
}

/// The plain text held in the blocks of a text file.
pub open spec fn detokenized(b: Seq<u8>) -> Option<Seq<u8>> {
    text_from(b, TEXT_START as int)
}

proof fn lemma_prepend_twice(out: Seq<u8>, piece: Seq<u8>, rest: Option<Seq<u8>>)
    ensures
        prepend(out, prepend(piece, rest)) == prepend(out + piece, rest),
{
    if let Some(t) = rest {
        assert(out + (piece + t) == (out + piece) + t);
    }
}

/// Converts the blocks of a text file into plain text, or reports a
/// malformed indent marker.
pub fn text_from_blocks(buffer: &[u8]) -> (r: Result<Vec<u8>, DiskError>)
    ensures
        detokenized(buffer@) matches Some(t) ==> r is Ok && r->Ok_0@ == t,
        detokenized(buffer@) is None ==> r == Err::<Vec<u8>, DiskError>(DiskError::MalformedText),
{
    let n = buffer.len();
    let mut result: Vec<u8> = Vec::new();
    let mut i: usize = TEXT_START;
    while i < n
        invariant
            n == buffer@.len(),
            TEXT_START <= i,
            detokenized(buffer@) == prepend(result@, text_from(buffer@, i as int)),
        decreases n - i,
    {
        let byte = buffer[i];
        let ghost before = result@;
        if byte == 0x0d {
            result.push(0x0a);
            proof {
                lemma_prepend_twice(before, seq![0x0au8], text_from(buffer@, i + 1));
            }
            i = i + 1;
        } else if byte == 0x10 {
            if i + 1 >= n || buffer[i + 1] < 32 {
                return Err(DiskError::MalformedText);
            }
            let space_count = (buffer[i + 1] - 32) as usize;
            let mut k: usize = 0;
            while k < space_count
                invariant
                    k <= space_count,
                    result@ == before + spaces(k as int),
                decreases space_count - k,
            {
                result.push(0x20);
                proof {
                    assert(spaces(k + 1) == spaces(k as int).push(0x20u8));
                }
                k = k + 1;
            }
            proof {
                lemma_prepend_twice(before, spaces(space_count as int), text_from(buffer@, i + 2));
            }
            i = i + 2;
        } else if byte == 0 {
            i = i + 1;
        } else {
            result.push(byte);
            proof {
                lemma_prepend_twice(before, seq![byte], text_from(buffer@, i + 1));
            }
            i = i + 1;
        }
    }
    assert(result@ + Seq::<u8>::empty() == result@);
    Ok(result)
}

} // verus!
