use vstd::prelude::*;

use crate::error::DiskError;

verus! {

/// Bytes in one physical sector.
pub const SECTOR_SIZE: usize = 256;

/// Bytes in one track of sixteen sectors.
pub const TRACK_SIZE: usize = 4096;

/// The physical sector that holds logical sector `l` of a track: sector 0
/// and sector 15 stay in place, sectors 1 to 14 are stored in reverse.
pub open spec fn physical_sector(l: int) -> int {
    if l == 0 || l == 15 {
        l
    } else {
        15 - l
    }
}

/// The offset in the raw image of the byte that lands at offset `i` of the
/// deinterleaved image.
pub open spec fn source_offset(i: int) -> int {
    (i / 4096) * 4096 + physical_sector((i % 4096) / 256) * 256 + i % 256
}

/// The raw image with the sectors of each track put in logical order.
pub open spec fn deinterleaved(raw: Seq<u8>) -> Seq<u8> {
    Seq::new(raw.len(), |i: int| raw[source_offset(i)])
}

fn physical_sector_of(l: usize) -> (p: usize)
    requires
        l < 16,
    ensures
        p == physical_sector(l as int),
{
    if l == 0 || l == 15 {
        l
    } else {
        15 - l
    }
}

/// An offset lies in the same track as its source, and taking the source
/// twice comes back to the offset.
proof fn lemma_source_offset(i: int)
    requires
        0 <= i,
    ensures
        source_offset(i) / 4096 == i / 4096,
        0 <= source_offset(i),
        source_offset(source_offset(i)) == i,
{
    let t = i / 4096;
    let l = (i % 4096) / 256;
    let o = i % 256;
    let p = physical_sector(l);
    assert(0 <= l < 16);
    assert(0 <= p < 16);
    let s = source_offset(i);
    assert(s == t * 4096 + p * 256 + o);
    assert(s / 4096 == t && (s % 4096) / 256 == p && s % 256 == o) by (nonlinear_arith)
        requires
            s == t * 4096 + p * 256 + o,
            0 <= p < 16,
            0 <= o < 256,
            0 <= t,
    ;
    assert(physical_sector(p) == l);
    assert(i == t * 4096 + l * 256 + o) by (nonlinear_arith)
        requires
            t == i / 4096,
            l == (i % 4096) / 256,
            o == i % 256,
            0 <= i,
    ;
}

/// Reorders the sectors of each track of a raw image into logical order.
/// An image that is not a whole number of tracks is refused.
pub fn deinterleave(contents: &[u8]) -> (r: Result<Vec<u8>, DiskError>)
    ensures
        contents@.len() % 4096 == 0 ==> r is Ok && r->Ok_0@ == deinterleaved(contents@),
        contents@.len() % 4096 != 0 ==> r == Err::<Vec<u8>, DiskError>(DiskError::MalformedImage),
{
    let n = contents.len();
    if n % TRACK_SIZE != 0 {
        return Err(DiskError::MalformedImage);
    }
    let mut buffer: Vec<u8> = Vec::with_capacity(n);
    let mut i: usize = 0;
    while i < n
        invariant
            n == contents@.len(),
            n % 4096 == 0,
            i <= n,
            buffer@.len() == i,
            forall|k: int| 0 <= k < i ==> buffer@[k] == #[trigger] contents@[source_offset(k)],
        decreases n - i,
    {
        let track = i / TRACK_SIZE;
        let sector = (i % TRACK_SIZE) / SECTOR_SIZE;
        let src = track * TRACK_SIZE + physical_sector_of(sector) * SECTOR_SIZE + i % SECTOR_SIZE;
        proof {
            lemma_source_offset(i as int);
            assert(src == source_offset(i as int));
            assert(src / 4096 == i / 4096);
            assert(i / 4096 < n / 4096) by (nonlinear_arith)
                requires
                    i < n,
                    n % 4096 == 0,
            ;
            assert(src < n) by (nonlinear_arith)
                requires
                    src / 4096 < n / 4096,
                    n % 4096 == 0,
                    0 <= src,
            ;
        }
        buffer.push(contents[src]);
        i = i + 1;
    }
    assert(buffer@ == deinterleaved(contents@));
    Ok(buffer)
}

/// Deinterleaving permutes the bytes of a whole-track image: the output is
/// as long as the input, each output byte is the input byte at one position,
/// no two output bytes come from the same position, and each input byte
/// appears in the output (at the position its own offset maps to).
/// Deinterleaving twice gives the image back.
pub proof fn lemma_deinterleave_is_permutation(raw: Seq<u8>)
    requires
        raw.len() % 4096 == 0,
    ensures
        deinterleaved(raw).len() == raw.len(),
        forall|i: int|
            0 <= i < raw.len() ==> 0 <= #[trigger] source_offset(i) < raw.len()
                && deinterleaved(raw)[i] == raw[source_offset(i)],
        forall|i: int, j: int|
            0 <= i < raw.len() && 0 <= j < raw.len() && #[trigger] source_offset(i)
                == #[trigger] source_offset(j) ==> i == j,
        forall|k: int|
            0 <= k < raw.len() ==> deinterleaved(raw)[#[trigger] source_offset(k)] == raw[k],
        deinterleaved(deinterleaved(raw)) == raw,
{
    let n = raw.len();
    assert forall|i: int| 0 <= i < n implies 0 <= #[trigger] source_offset(i) < n by {
        lemma_source_offset(i);
        let s = source_offset(i);
        assert(s < n) by (nonlinear_arith)
            requires
                s / 4096 == i / 4096,
                0 <= i < n,
                n % 4096 == 0,
                0 <= s,
        ;
    }
    assert forall|i: int, j: int|
        0 <= i < n && 0 <= j < n && #[trigger] source_offset(i) == #[trigger] source_offset(j)
        implies i == j by {
        lemma_source_offset(i);
        lemma_source_offset(j);
    }
    assert forall|k: int| 0 <= k < n implies deinterleaved(raw)[#[trigger] source_offset(k)]
        == raw[k] by {
        lemma_source_offset(k);
        assert(0 <= source_offset(k) < n);
    }
    let once = deinterleaved(raw);
    assert forall|i: int| 0 <= i < n implies #[trigger] deinterleaved(once)[i] == raw[i] by {
        lemma_source_offset(i);
        assert(0 <= source_offset(i) < n);
    }
    assert(deinterleaved(once) =~= raw);
}

} // verus!
