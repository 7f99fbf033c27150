use vstd::prelude::*;

use crate::codec::{bytes_at, le16, pstring_chars, pstring_ok, pstring_to_string, read_u16_le};
use crate::error::DiskError;

verus! {

/// Bytes of the volume header at the start of the directory.
pub const HEADER_SIZE: usize = 26;

/// Bytes of one file entry of the directory.
pub const ENTRY_SIZE: usize = 26;

/// Number of file entries that the directory table has room for.
pub const MAX_ENTRIES: usize = 77;

/// Bytes that the header and the full table of entries take together.
pub const DIRECTORY_BYTES: usize = HEADER_SIZE + ENTRY_SIZE * MAX_ENTRIES;

/// The volume header: the first record of the directory.
#[derive(Debug, Clone, Copy)]
pub struct VolumeInfo {
    /// First block of the system area (zero on a well-formed volume).
    pub first_system_block: u16,
    /// First block after the directory (six on a well-formed volume).
    pub first_block_after_directory: u16,
    /// File type tag (zero for a volume header).
    pub file_type: u16,
    /// Volume name, length-prefixed, in a field of eight bytes.
    pub volume_name: [u8; 8],
    /// Number of blocks on the volume.
    pub num_blocks: u16,
    /// Number of valid entries in the file table.
    pub num_files: u16,
    /// Last access time.
    pub last_access_time: u16,
    /// Packed date set by the user.
    pub date: u16,
    /// Reserved bytes.
    pub reserved: [u8; 4],
}

/// One file of the directory table.
#[derive(Debug, Clone, Copy)]
pub struct DirectoryEntry {
    /// First block of the file.
    pub first_block: u16,
    /// First block after the file (its last block plus one).
    pub first_after_block: u16,
    /// File type tag.
    pub file_type: u16,
    /// File name, length-prefixed, in a field of sixteen bytes.
    pub name: [u8; 16],
    /// Number of bytes used in the file's last block.
    pub bytes_in_last_block: u16,
    /// Packed date of the last change.
    pub date: u16,
}

/// The directory: the volume header and the whole table of entries, of which
/// only the first `volume.num_files` are in use.
#[derive(Debug)]
pub struct Directory {
    pub volume: VolumeInfo,
    pub entries: Vec<DirectoryEntry>,
}

/// `v` holds the volume header laid out at the start of `b`.
pub open spec fn volume_at(v: VolumeInfo, b: Seq<u8>) -> bool {
    &&& v.first_system_block == le16(b, 0)
    &&& v.first_block_after_directory == le16(b, 2)
    &&& v.file_type == le16(b, 4)
    &&& v.volume_name@ == b.subrange(6, 14)
    &&& v.num_blocks == le16(b, 14)
    &&& v.num_files == le16(b, 16)
    &&& v.last_access_time == le16(b, 18)
    &&& v.date == le16(b, 20)
    &&& v.reserved@ == b.subrange(22, 26)
}

/// `e` holds the file entry laid out at offset `off` of `b`.
pub open spec fn entry_at(e: DirectoryEntry, b: Seq<u8>, off: int) -> bool {
    &&& e.first_block == le16(b, off)
    &&& e.first_after_block == le16(b, off + 2)
    &&& e.file_type == le16(b, off + 4)
    &&& e.name@ == b.subrange(off + 6, off + 22)
    &&& e.bytes_in_last_block == le16(b, off + 22)
    &&& e.date == le16(b, off + 24)
}

/// Offset of file entry `i` within the directory bytes.
pub open spec fn entry_offset(i: int) -> int {
    HEADER_SIZE + ENTRY_SIZE * i
}

/// `d` is the directory laid out at the start of `b`.
pub open spec fn directory_at(d: Directory, b: Seq<u8>) -> bool {
    &&& volume_at(d.volume, b)
    &&& d.entries@.len() == MAX_ENTRIES
    &&& forall|i: int|
        0 <= i < MAX_ENTRIES ==> #[trigger] entry_at(d.entries@[i], b, entry_offset(i))
}

/// The directory bytes can be decoded: the table is all there and its count
/// of files fits in it.
pub open spec fn directory_ok(b: Seq<u8>) -> bool {
    b.len() >= DIRECTORY_BYTES && le16(b, 16) <= MAX_ENTRIES
}

/// The entry carries the name `name`: its name field is well formed and
/// decodes to exactly those characters.
pub open spec fn entry_named(e: DirectoryEntry, name: Seq<char>) -> bool {
    pstring_ok(e.name@) && pstring_chars(e.name@) == name
}

/// The first of `entries`, from position `i` on, that carries `name`.
pub open spec fn find_from(entries: Seq<DirectoryEntry>, i: int, name: Seq<char>) -> Option<
    DirectoryEntry,
>
    decreases entries.len() - i,
{
    if i < 0 || i >= entries.len() {
        None
    } else if entry_named(entries[i], name) {
        Some(entries[i])
    } else {
        find_from(entries, i + 1, name)
    }
}

/// A found entry is one of the entries searched.
pub proof fn lemma_find_from_member(entries: Seq<DirectoryEntry>, i: int, name: Seq<char>)
    requires
        0 <= i,
    ensures
        find_from(entries, i, name) matches Some(e) ==> exists|j: int|
            i <= j < entries.len() && entries[j] == e && entry_named(e, name),
    decreases entries.len() - i,
{
    if i < entries.len() && !entry_named(entries[i], name) {
        lemma_find_from_member(entries, i + 1, name);
    }
}

fn read_entry(b: &[u8], off: usize) -> (e: DirectoryEntry)
    requires
        off + ENTRY_SIZE <= b@.len() <= usize::MAX,
    ensures
        entry_at(e, b@, off as int),
{
    DirectoryEntry {
        first_block: read_u16_le(b, off),
        first_after_block: read_u16_le(b, off + 2),
        file_type: read_u16_le(b, off + 4),
        name: bytes_at(b, off + 6),
        bytes_in_last_block: read_u16_le(b, off + 22),
        date: read_u16_le(b, off + 24),
    }
}

impl Directory {
    /// Decodes the directory from its bytes: the volume header, then the
    /// whole table of entries. Too few bytes, or a count of files larger
    /// than the table, is reported.
    pub fn new(bytes: &[u8]) -> (r: Result<Directory, DiskError>)
        ensures
            directory_ok(bytes@) ==> r is Ok && directory_at(r->Ok_0, bytes@),
            bytes@.len() < DIRECTORY_BYTES ==> r == Err::<Directory, DiskError>(
                DiskError::TruncatedDirectory,
            ),
            bytes@.len() >= DIRECTORY_BYTES && !directory_ok(bytes@) ==> r == Err::<
                Directory,
                DiskError,
            >(DiskError::CorruptDirectory),
    {
        if bytes.len() < DIRECTORY_BYTES {
            return Err(DiskError::TruncatedDirectory);
        }
        let volume = VolumeInfo {
            first_system_block: read_u16_le(bytes, 0),
            first_block_after_directory: read_u16_le(bytes, 2),
            file_type: read_u16_le(bytes, 4),
            volume_name: bytes_at(bytes, 6),
            num_blocks: read_u16_le(bytes, 14),
            num_files: read_u16_le(bytes, 16),
            last_access_time: read_u16_le(bytes, 18),
            date: read_u16_le(bytes, 20),
            reserved: bytes_at(bytes, 22),
        };
        if volume.num_files as usize > MAX_ENTRIES {
            return Err(DiskError::CorruptDirectory);
        }
        let mut entries: Vec<DirectoryEntry> = Vec::with_capacity(MAX_ENTRIES);
        let mut i: usize = 0;
        while i < MAX_ENTRIES
            invariant
                i <= MAX_ENTRIES,
                DIRECTORY_BYTES <= bytes@.len() <= usize::MAX,
                entries@.len() == i,
                forall|j: int| 0 <= j < i ==> #[trigger] entry_at(entries@[j], bytes@, entry_offset(j)),
            decreases MAX_ENTRIES - i,
        {
            let e = read_entry(bytes, HEADER_SIZE + ENTRY_SIZE * i);
            entries.push(e);
            i = i + 1;
        }
        Ok(Directory { volume, entries })
    }

    /// The entries in use, in table order.
    pub open spec fn valid_entries(&self) -> Seq<DirectoryEntry> {
        self.entries@.subrange(0, self.volume.num_files as int)
    }

    /// The count of files fits in the table.
    pub open spec fn wf(&self) -> bool {
        self.volume.num_files <= self.entries@.len()
    }

    /// The entries in use, exactly `num_files` of them, in table order;
    /// the unused slots after them are never returned.
    pub fn list_entries(&self) -> (r: Vec<DirectoryEntry>)
        requires
            self.wf(),
        ensures
            r@ == self.valid_entries(),
            r@.len() == self.volume.num_files,
    {
        let n = self.volume.num_files as usize;
        let mut r: Vec<DirectoryEntry> = Vec::with_capacity(n);
        let mut i: usize = 0;
        while i < n
            invariant
                n == self.volume.num_files,
                n <= self.entries@.len(),
                i <= n,
                r@ == self.entries@.subrange(0, i as int),
            decreases n - i,
        {
            r.push(self.entries[i]);
            proof {
                assert(self.entries@.subrange(0, i + 1) == self.entries@.subrange(0, i as int).push(
                    self.entries@[i as int],
                ));
            }
            i = i + 1;
        }
        r
    }

    /// The first entry in use whose decoded name is exactly `name` (case
    /// included), if any.
    pub fn lookup(&self, name: &str) -> (r: Option<DirectoryEntry>)
        requires
            self.wf(),
        ensures
            r == find_from(self.valid_entries(), 0, name@),
    {
        let query: String = name.to_owned();
        let n = self.volume.num_files as usize;
        let ghost valid = self.valid_entries();
        let mut i: usize = 0;
        while i < n
            invariant
                n == self.volume.num_files,
                n <= self.entries@.len(),
                valid == self.valid_entries(),
                query@ == name@,
                i <= n,
                find_from(valid, 0, name@) == find_from(valid, i as int, name@),
            decreases n - i,
        {
            let e = self.entries[i];
            assert(valid[i as int] == e);
            let decoded = pstring_to_string(&e.name);
            if let Ok(s) = decoded {
                if s == query {
                    return Some(e);
                }
            }
            i = i + 1;
        }
        None
    }
}

/// The listing depends on the header and the slots in use alone: two
/// directories decoded from bytes that agree up to the end of the last slot
/// in use list the same entries, whatever the unused slots hold.
pub proof fn lemma_listing_ignores_unused_slots(
    d1: Directory,
    b1: Seq<u8>,
    d2: Directory,
    b2: Seq<u8>,
)
    requires
        directory_ok(b1),
        directory_at(d1, b1),
        directory_at(d2, b2),
        b2.len() >= DIRECTORY_BYTES,
        forall|k: int| 0 <= k < entry_offset(le16(b1, 16) as int) ==> b1[k] == b2[k],
    ensures
        d1.valid_entries() == d2.valid_entries(),
        d1.valid_entries().len() == le16(b1, 16),
{
    let n = le16(b1, 16) as int;
    assert(b1[16] == b2[16] && b1[17] == b2[17]);
    assert(d2.volume.num_files == n);
    assert forall|i: int| 0 <= i < n implies d1.valid_entries()[i] == d2.valid_entries()[i] by {
        let off = entry_offset(i);
        assert(entry_at(d1.entries@[i], b1, off));
        assert(entry_at(d2.entries@[i], b2, off));
        assert(off + ENTRY_SIZE <= entry_offset(n)) by (nonlinear_arith)
            requires
                off == 26 + 26 * i,
                i < n,
        ;
        assert(b1.subrange(off + 6, off + 22) == b2.subrange(off + 6, off + 22));
        let e1 = d1.entries@[i];
        let e2 = d2.entries@[i];
        assert(e1.name == e2.name) by {
            broadcast use vstd::array::axiom_array_ext_equal;

            assert(e1.name@ =~= e2.name@);
        }
    }
    assert(d1.valid_entries() =~= d2.valid_entries());
}

} // verus!
