use vstd::prelude::*;
use vstd::slice::{slice_subrange, slice_to_vec};

use crate::codec::{bytes_at, le16};
use crate::directory::{
    directory_at, directory_ok, entry_at, entry_named, entry_offset, find_from,
    lemma_find_from_member, Directory, DirectoryEntry,
};
use crate::error::DiskError;
use crate::sector::{deinterleave, deinterleaved};
use crate::text::{detokenized, text_from_blocks};

verus! {

/// Bytes in one logical block.
pub const BLOCK_SIZE: usize = 512;

/// Offset of the directory in the deinterleaved image (block 2).
pub const DIRECTORY_START: usize = 1024;

/// Offset just past the directory (the end of block 5).
pub const DIRECTORY_END: usize = 3072;

/// Bytes shown on one line of a block dump.
pub const DUMP_LINE: usize = 16;

/// The directory bytes of a deinterleaved image: blocks 2 to 5.
pub open spec fn directory_window(b: Seq<u8>) -> Seq<u8> {
    b.subrange(DIRECTORY_START as int, DIRECTORY_END as int)
}

/// The blocks `[first, after)` lie inside an image of `len` bytes.
pub open spec fn range_fits(first: int, after: int, len: int) -> bool {
    first <= after && after * BLOCK_SIZE <= len
}

/// Entry `i` of the directory bytes `w` names blocks inside an image of
/// `len` bytes.
pub open spec fn entry_fits(w: Seq<u8>, i: int, len: int) -> bool {
    range_fits(le16(w, entry_offset(i)) as int, le16(w, entry_offset(i) + 2) as int, len)
}

/// Every entry in use of the directory bytes `w` lies inside the image.
pub open spec fn table_fits(w: Seq<u8>, len: int) -> bool {
    forall|i: int| 0 <= i < le16(w, 16) ==> #[trigger] entry_fits(w, i, len)
}

/// What a byte looks like in the character column of a dump: printable
/// ASCII as it is, anything else as a dot.
pub open spec fn shown_byte(c: u8) -> u8 {
    if c < 32 || c > 126 {
        46
    } else {
        c
    }
}

/// One line of a block dump: its offset in the image, the sixteen bytes
/// there, and those bytes as the character column shows them.
#[derive(Debug, Clone, Copy)]
pub struct DumpLine {
    pub offset: usize,
    pub bytes: [u8; 16],
    pub shown: [u8; 16],
}

/// An open disk image: its name, its blocks in logical order and its
/// directory.
pub struct AppleDisk {
    image: String,
    blocks: Vec<u8>,
    directory: Directory,
}

fn show_byte(c: u8) -> (r: u8)
    ensures
        r == shown_byte(c),
{
    if c < 32 || c > 126 {
        46
    } else {
        c
    }
}

impl AppleDisk {
    /// The image's bytes in logical order.
    pub closed spec fn blocks_view(&self) -> Seq<u8> {
        self.blocks@
    }

    /// The number of whole blocks in the image.
    pub open spec fn block_count(&self) -> int {
        self.blocks_view().len() as int / BLOCK_SIZE as int
    }

    /// The image's name.
    pub closed spec fn image_view(&self) -> Seq<char> {
        self.image@
    }

    /// The image's directory.
    pub closed spec fn directory_view(&self) -> Directory {
        self.directory
    }

    /// The image is a whole number of tracks, the directory is the one
    /// stored in blocks 2 to 5, its count of files fits its table, and every
    /// file in use lies inside the image.
    pub open spec fn wf(&self) -> bool {
        &&& self.blocks_view().len() % 4096 == 0
        &&& self.blocks_view().len() >= DIRECTORY_END
        &&& directory_at(self.directory_view(), directory_window(self.blocks_view()))
        &&& directory_ok(directory_window(self.blocks_view()))
        &&& table_fits(directory_window(self.blocks_view()), self.blocks_view().len() as int)
    }

    /// The entries of the directory in use, in table order.
    pub open spec fn valid_entries(&self) -> Seq<DirectoryEntry> {
        self.directory_view().valid_entries()
    }

    /// The bytes of the blocks that a directory entry names.
    pub open spec fn file_bytes(&self, e: DirectoryEntry) -> Seq<u8> {
        self.blocks_view().subrange(
            e.first_block * BLOCK_SIZE as int,
            e.first_after_block * BLOCK_SIZE as int,
        )
    }

    /// Opens a raw image named `name`: deinterleaves its sectors, then
    /// decodes the directory. An image that is not whole tracks, too short
    /// for the directory, or whose directory is inconsistent is refused.
    pub fn new(name: &str, contents: &[u8]) -> (r: Result<AppleDisk, DiskError>)
        ensures
            contents@.len() % 4096 != 0 ==> r == Err::<AppleDisk, DiskError>(
                DiskError::MalformedImage,
            ),
            contents@.len() % 4096 == 0 && contents@.len() < DIRECTORY_END ==> r == Err::<
                AppleDisk,
                DiskError,
            >(DiskError::TruncatedDirectory),
            contents@.len() % 4096 == 0 && contents@.len() >= DIRECTORY_END ==> ({
                let b = deinterleaved(contents@);
                let w = directory_window(b);
                &&& (directory_ok(w) && table_fits(w, b.len() as int)) ==> r is Ok && r->Ok_0.wf()
                    && r->Ok_0.blocks_view() == b && r->Ok_0.image_view() == name@
                &&& !(directory_ok(w) && table_fits(w, b.len() as int)) ==> r == Err::<
                    AppleDisk,
                    DiskError,
                >(DiskError::CorruptDirectory)
            }),
    {
        let buffer = deinterleave(contents)?;
        if buffer.len() < DIRECTORY_END {
            return Err(DiskError::TruncatedDirectory);
        }
        let window = slice_subrange(buffer.as_slice(), DIRECTORY_START, DIRECTORY_END);
        let directory = Directory::new(window)?;
        let n = directory.volume.num_files as usize;
        let len = buffer.len();
        let mut i: usize = 0;
        while i < n
            invariant
                n == directory.volume.num_files,
                n <= directory.entries@.len(),
                len == buffer@.len(),
                len >= DIRECTORY_END,
                contents@.len() % 4096 == 0,
                buffer@ == deinterleaved(contents@),
                window@ == directory_window(buffer@),
                directory_ok(window@),
                directory_at(directory, window@),
                i <= n,
                forall|j: int| 0 <= j < i ==> #[trigger] entry_fits(window@, j, len as int),
            decreases n - i,
        {
            let e = directory.entries[i];
            assert(entry_at(directory.entries@[i as int], window@, entry_offset(i as int)));
            let first = e.first_block as usize;
            let after = e.first_after_block as usize;
            assert(after * 512 <= len <==> after <= len / 512) by (nonlinear_arith);
            if first > after || after > len / BLOCK_SIZE {
                assert(!entry_fits(window@, i as int, len as int));
                return Err(DiskError::CorruptDirectory);
            }
            i = i + 1;
        }
        Ok(AppleDisk { image: name.to_owned(), blocks: buffer, directory })
    }

    /// The bytes of `count` blocks from block `index` on.
    pub fn read_blocks(&self, index: usize, count: usize) -> (r: &[u8])
        requires
            (index + count) * BLOCK_SIZE <= self.blocks_view().len(),
        ensures
            r@ == self.blocks_view().subrange(
                index * BLOCK_SIZE as int,
                (index + count) * BLOCK_SIZE as int,
            ),
    {
        let len = self.blocks.len();
        assert(index * 512 <= (index + count) * 512 <= len) by (nonlinear_arith)
            requires
                (index + count) * 512 <= len,
        ;
        let start: usize = index * BLOCK_SIZE;
        let end: usize = (index + count) * BLOCK_SIZE;
        slice_subrange(self.blocks.as_slice(), start, end)
    }

    /// The number of whole blocks in the image.
    pub fn num_blocks(&self) -> (r: usize)
        ensures
            r == self.block_count(),
    {
        self.blocks.len() / BLOCK_SIZE
    }

    /// The image's name.
    pub fn image(&self) -> (r: &str)
        ensures
            r@ == self.image_view(),
    {
        self.image.as_str()
    }

    /// The image's directory.
    pub fn directory(&self) -> (r: &Directory)
        ensures
            *r == self.directory_view(),
    {
        &self.directory
    }

    /// The entries of the directory in use, in table order.
    pub fn list_entries(&self) -> (r: Vec<DirectoryEntry>)
        requires
            self.wf(),
        ensures
            r@ == self.valid_entries(),
            r@.len() == self.directory_view().volume.num_files,
    {
        self.directory.list_entries()
    }

    /// Copies the file `name` out of the image, as its raw blocks or, with
    /// `is_text`, as decoded plain text. Copying into the image is not
    /// supported; a name that no entry in use carries is reported.
    pub fn transfer(&self, name: &str, to_image: bool, is_text: bool) -> (r: Result<
        Vec<u8>,
        DiskError,
    >)
        requires
            self.wf(),
        ensures
            to_image ==> r == Err::<Vec<u8>, DiskError>(DiskError::NotSupported),
            !to_image ==> match find_from(self.valid_entries(), 0, name@) {
                None => r == Err::<Vec<u8>, DiskError>(DiskError::NotFound),
                Some(e) => if is_text {
                    match detokenized(self.file_bytes(e)) {
                        Some(t) => r is Ok && r->Ok_0@ == t,
                        None => r == Err::<Vec<u8>, DiskError>(DiskError::MalformedText),
                    }
                } else {
                    r is Ok && r->Ok_0@ == self.file_bytes(e)
                },
            },
    {
        if to_image {
            return Err(DiskError::NotSupported);
        }
        let found = self.directory.lookup(name);
        match found {
            None => Err(DiskError::NotFound),
            Some(entry) => {
                proof {
                    let w = directory_window(self.blocks@);
                    lemma_find_from_member(self.valid_entries(), 0, name@);
                    let j = choose|j: int|
                        0 <= j < self.valid_entries().len() && self.valid_entries()[j] == entry
                            && entry_named(entry, name@);
                    assert(entry_at(self.directory.entries@[j], w, entry_offset(j)));
                    assert(entry_fits(w, j, self.blocks@.len() as int));
                }
                let first = entry.first_block as usize;
                let count = entry.first_after_block as usize - first;
                let file_buffer = self.read_blocks(first, count);
                if is_text {
                    text_from_blocks(file_buffer)
                } else {
                    Ok(slice_to_vec(file_buffer))
                }
            },
        }
    }

    /// Lines of a dump of the blocks `from` to `to`, both included: sixteen
    /// bytes a line, each with its offset and its character column. A
    /// reversed range, or one that reaches past the last block, is refused
    /// before anything is read.
    pub fn dump(&self, from: usize, to: usize) -> (r: Result<Vec<DumpLine>, DiskError>)
        ensures
            from > to || to >= self.block_count() ==> r == Err::<
                Vec<DumpLine>,
                DiskError,
            >(DiskError::InvalidRange),
            from <= to < self.block_count() ==> r is Ok && {
                let lines = r->Ok_0;
                &&& lines@.len() == (to - from + 1) * (BLOCK_SIZE / DUMP_LINE) as int
                &&& forall|j: int|
                    0 <= j < lines@.len() ==> {
                        let off = from * BLOCK_SIZE + DUMP_LINE * j;
                        &&& (#[trigger] lines@[j]).offset == off
                        &&& lines@[j].bytes@ == self.blocks_view().subrange(off, off + DUMP_LINE)
                        &&& lines@[j].shown@ == lines@[j].bytes@.map_values(|c: u8| shown_byte(c))
                    }
            },
    {
        if from > to || to >= self.num_blocks() {
            return Err(DiskError::InvalidRange);
        }
        let len = self.blocks.len();
        assert(from * 512 + 16 * ((to - from + 1) * 32) <= len) by (nonlinear_arith)
            requires
                to < len / 512,
                from <= to,
        ;
        let start = from * BLOCK_SIZE;
        let count = (to - from + 1) * (BLOCK_SIZE / DUMP_LINE);
        let mut lines: Vec<DumpLine> = Vec::with_capacity(count);
        let mut j: usize = 0;
        while j < count
            invariant
                len == self.blocks@.len(),
                start == from * BLOCK_SIZE,
                start + DUMP_LINE * count <= len,
                j <= count,
                lines@.len() == j,
                forall|k: int|
                    0 <= k < j ==> {
                        let off = from * BLOCK_SIZE + DUMP_LINE * k;
                        &&& (#[trigger] lines@[k]).offset == off
                        &&& lines@[k].bytes@ == self.blocks@.subrange(off, off + DUMP_LINE)
                        &&& lines@[k].shown@ == lines@[k].bytes@.map_values(|c: u8| shown_byte(c))
                    },
            decreases count - j,
        {
            assert(start + DUMP_LINE * j + DUMP_LINE <= len) by (nonlinear_arith)
                requires
                    start + 16 * count <= len,
                    j < count,
            ;
            let offset = start + DUMP_LINE * j;
            let bytes: [u8; 16] = bytes_at(self.blocks.as_slice(), offset);
            let mut shown = [0u8; 16];
            let mut k: usize = 0;
            while k < DUMP_LINE
                invariant
                    k <= DUMP_LINE,
                    bytes@.len() == DUMP_LINE,
                    shown@.len() == DUMP_LINE,
                    forall|m: int| 0 <= m < k ==> shown@[m] == shown_byte(bytes@[m]),
                decreases DUMP_LINE - k,
            {
                shown[k] = show_byte(bytes[k]);
                k = k + 1;
            }
            assert(shown@ == bytes@.map_values(|c: u8| shown_byte(c)));
            lines.push(DumpLine { offset, bytes, shown });
            j = j + 1;
        }
        Ok(lines)
    }

    /// Removing a file is not supported.
    pub fn remove(&self, name: &str) -> (r: Result<(), DiskError>)
        ensures
            r == Err::<(), DiskError>(DiskError::NotSupported),
    {
        Err(DiskError::NotSupported)
    }

    /// Renaming a file is not supported.
    pub fn change(&self, from: &str, to: &str) -> (r: Result<(), DiskError>)
        ensures
            r == Err::<(), DiskError>(DiskError::NotSupported),
    {
        Err(DiskError::NotSupported)
    }

    /// Gathering the free space into one run is not supported.
    pub fn krunch(&self) -> (r: Result<(), DiskError>)
        ensures
            r == Err::<(), DiskError>(DiskError::NotSupported),
    {
        Err(DiskError::NotSupported)
    }

    /// Clearing the directory is not supported.
    pub fn zero(&self) -> (r: Result<(), DiskError>)
        ensures
            r == Err::<(), DiskError>(DiskError::NotSupported),
    {
        Err(DiskError::NotSupported)
    }
}

} // verus!
