use p_filer::codec::{decode_pdate, pdate_to_string, pstring_to_string};
use p_filer::directory::Directory;
use p_filer::disk::AppleDisk;
use p_filer::error::DiskError;
use p_filer::sector::deinterleave;
use p_filer::text::text_from_blocks;

const SECTOR_MAP: [usize; 16] = [0, 14, 13, 12, 11, 10, 9, 8, 7, 6, 5, 4, 3, 2, 1, 15];

/// Lays a logical image out as it is stored on disk.
fn interleave(logical: &[u8]) -> Vec<u8> {
    let mut raw = vec![0u8; logical.len()];
    for track in 0..logical.len() / 4096 {
        for sector in 0..16 {
            let from = track * 4096 + sector * 256;
            let to = track * 4096 + SECTOR_MAP[sector] * 256;
            raw[to..to + 256].copy_from_slice(&logical[from..from + 256]);
        }
    }
    raw
}

fn put_u16(b: &mut [u8], off: usize, v: u16) {
    b[off] = (v & 0xff) as u8;
    b[off + 1] = (v >> 8) as u8;
}

fn put_pstring(b: &mut [u8], off: usize, s: &str) {
    b[off] = s.len() as u8;
    b[off + 1..off + 1 + s.len()].copy_from_slice(s.as_bytes());
}

/// A logical image of `blocks` blocks whose directory lists the given
/// files (name, first block, first block after).
fn logical_image(blocks: usize, files: &[(&str, u16, u16)]) -> Vec<u8> {
    let mut img = vec![0u8; blocks * 512];
    let dir = 1024;
    put_u16(&mut img, dir, 0);
    put_u16(&mut img, dir + 2, 6);
    put_pstring(&mut img, dir + 6, "TEST");
    put_u16(&mut img, dir + 14, blocks as u16);
    put_u16(&mut img, dir + 16, files.len() as u16);
    for (i, (name, first, after)) in files.iter().enumerate() {
        let off = dir + 26 + 26 * i;
        put_u16(&mut img, off, *first);
        put_u16(&mut img, off + 2, *after);
        put_u16(&mut img, off + 4, 3);
        put_pstring(&mut img, off + 6, name);
        put_u16(&mut img, off + 22, 512);
    }
    for b in 0..blocks {
        if b >= 6 {
            for k in 0..512 {
                img[b * 512 + k] = (b as u8).wrapping_mul(7).wrapping_add(k as u8);
            }
        }
    }
    img
}

fn hello_disk() -> (Vec<u8>, AppleDisk) {
    let logical = logical_image(64, &[("HELLO", 10, 12)]);
    let disk = AppleDisk::new("test.dsk", &interleave(&logical)).unwrap();
    (logical, disk)
}

#[test]
fn short_string_decodes_hello() {
    let b = [5u8, b'H', b'E', b'L', b'L', b'O', 0, 0];
    assert_eq!(pstring_to_string(&b).unwrap(), "HELLO");
}

#[test]
fn short_string_empty() {
    let b = [0u8, b'X', b'Y', 0, 0, 0, 0, 0];
    assert_eq!(pstring_to_string(&b).unwrap(), "");
}

#[test]
fn short_string_too_long_is_malformed() {
    let b = [8u8, b'A', b'B', b'C', b'D', b'E', b'F', b'G'];
    assert_eq!(pstring_to_string(&b), Err(DiskError::MalformedString));
    assert_eq!(pstring_to_string(&[]), Err(DiskError::MalformedString));
}

#[test]
fn short_string_bytes_map_to_chars() {
    let b = [2u8, 0xe9, b'z'];
    assert_eq!(pstring_to_string(&b).unwrap(), "\u{e9}z");
}

fn pdate(year: u16, month: u16, day: u16) -> u16 {
    (year << 9) | (day << 4) | month
}

#[test]
fn date_year_69_is_2069() {
    assert_eq!(pdate_to_string(pdate(69, 3, 14)), "2069-03-14");
    assert_eq!(decode_pdate(pdate(69, 3, 14)), (2069, 3, 14));
}

#[test]
fn date_year_70_is_1970() {
    assert_eq!(pdate_to_string(pdate(70, 12, 31)), "1970-12-31");
    assert_eq!(decode_pdate(pdate(70, 12, 31)), (1970, 12, 31));
}

#[test]
fn date_all_zero_fields_kept() {
    assert_eq!(pdate_to_string(0), "2000-00-00");
    assert_eq!(decode_pdate(0), (2000, 0, 0));
}

#[test]
fn date_largest_fields() {
    assert_eq!(pdate_to_string(0xffff), "2027-15-31");
}

fn text_blocks(body: &[u8]) -> Vec<u8> {
    let mut b = vec![0u8; 1025];
    b.extend_from_slice(body);
    b
}

#[test]
fn text_indent_expands_to_spaces() {
    let out = text_from_blocks(&text_blocks(&[0x10, 0x25, b'A'])).unwrap();
    assert_eq!(out, b"     A".to_vec());
}

#[test]
fn text_cr_becomes_lf_and_nulls_vanish() {
    let out = text_from_blocks(&text_blocks(&[b'H', b'I', 0x0d, 0, 0, b'X', 0x0d])).unwrap();
    assert_eq!(out, b"HI\nX\n".to_vec());
    assert_eq!(text_from_blocks(&text_blocks(&[0x00])).unwrap(), Vec::<u8>::new());
    assert_eq!(text_from_blocks(&text_blocks(&[0x0d])).unwrap(), vec![0x0a]);
}

#[test]
fn text_header_is_skipped() {
    let mut b = vec![b'Z'; 1025];
    b.push(b'a');
    assert_eq!(text_from_blocks(&b).unwrap(), b"a".to_vec());
    assert_eq!(text_from_blocks(&[b'Q'; 100]).unwrap(), Vec::<u8>::new());
}

#[test]
fn text_indent_without_count_is_an_error() {
    assert_eq!(text_from_blocks(&text_blocks(&[b'A', 0x10])), Err(DiskError::MalformedText));
    assert_eq!(text_from_blocks(&text_blocks(&[0x10, 0x1f])), Err(DiskError::MalformedText));
    assert_eq!(text_from_blocks(&text_blocks(&[0x10, 0x20, b'B'])).unwrap(), b"B".to_vec());
}

#[test]
fn deinterleave_refuses_partial_track() {
    assert_eq!(deinterleave(&vec![0u8; 4095]), Err(DiskError::MalformedImage));
    assert_eq!(deinterleave(&vec![0u8; 256]), Err(DiskError::MalformedImage));
    assert_eq!(deinterleave(&[]).unwrap(), Vec::<u8>::new());
}

#[test]
fn deinterleave_reorders_sectors() {
    let mut raw = vec![0u8; 8192];
    for (i, b) in raw.iter_mut().enumerate() {
        *b = ((i / 256) % 16) as u8 + 16 * (i / 4096) as u8;
    }
    let out = deinterleave(&raw).unwrap();
    assert_eq!(out.len(), raw.len());
    for t in 0..2 {
        for l in 0..16 {
            for k in 0..256 {
                assert_eq!(out[t * 4096 + l * 256 + k], SECTOR_MAP[l] as u8 + 16 * t as u8);
            }
        }
    }
}

#[test]
fn deinterleave_is_a_permutation() {
    let raw: Vec<u8> = (0..3 * 4096).map(|i| (i * 31 % 251) as u8).collect();
    let out = deinterleave(&raw).unwrap();
    let mut a = raw.clone();
    let mut b = out.clone();
    a.sort();
    b.sort();
    assert_eq!(a, b);
    assert_eq!(deinterleave(&out).unwrap(), raw);
}

#[test]
fn open_reads_volume_header() {
    let (_, disk) = hello_disk();
    assert_eq!(disk.num_blocks(), 64);
    assert_eq!(disk.image(), "test.dsk");
    let dir: &Directory = disk.directory();
    assert_eq!(dir.volume.first_block_after_directory, 6);
    assert_eq!(dir.volume.num_blocks, 64);
    assert_eq!(dir.volume.num_files, 1);
    assert_eq!(pstring_to_string(&dir.volume.volume_name).unwrap(), "TEST");
}

#[test]
fn open_refuses_bad_images() {
    assert!(matches!(AppleDisk::new("x", &vec![0u8; 5000]), Err(DiskError::MalformedImage)));
    assert!(matches!(AppleDisk::new("x", &[]), Err(DiskError::TruncatedDirectory)));
    let mut img = logical_image(64, &[]);
    put_u16(&mut img, 1024 + 16, 78);
    assert!(matches!(AppleDisk::new("x", &interleave(&img)), Err(DiskError::CorruptDirectory)));
    let img = logical_image(64, &[("BIG", 60, 65)]);
    assert!(matches!(AppleDisk::new("x", &interleave(&img)), Err(DiskError::CorruptDirectory)));
    let img = logical_image(64, &[("BACK", 12, 10)]);
    assert!(matches!(AppleDisk::new("x", &interleave(&img)), Err(DiskError::CorruptDirectory)));
    let img = logical_image(64, &[("END", 60, 64)]);
    assert!(AppleDisk::new("x", &interleave(&img)).is_ok());
}

#[test]
fn directory_window_must_hold_header_and_table() {
    let img = logical_image(64, &[("HELLO", 10, 12)]);
    let window = &img[1024..3072];
    assert!(matches!(Directory::new(&window[..2027]), Err(DiskError::TruncatedDirectory)));
    assert!(matches!(Directory::new(&window[..2026]), Err(DiskError::TruncatedDirectory)));
    assert!(Directory::new(&window[..2028]).is_ok());
}

#[test]
fn entries_follow_the_full_volume_header() {
    let mut img = logical_image(64, &[("HELLO", 10, 12)]);
    img[1024 + 22..1024 + 26].copy_from_slice(&[0xaa, 0xbb, 0xcc, 0xdd]);
    let dir = Directory::new(&img[1024..3072]).unwrap();
    assert_eq!(dir.volume.reserved, [0xaa, 0xbb, 0xcc, 0xdd]);
    assert_eq!(dir.entries[0].first_block, 10);
    assert_eq!(dir.entries[0].first_after_block, 12);
    assert_eq!(dir.entries[0].file_type, 3);
    assert_eq!(pstring_to_string(&dir.entries[0].name).unwrap(), "HELLO");
    assert_eq!(dir.entries[0].bytes_in_last_block, 512);
}

#[test]
fn list_entries_in_table_order() {
    let mut img = logical_image(64, &[("B", 10, 11), ("A", 11, 12), ("GHOST", 12, 13)]);
    put_u16(&mut img, 1024 + 16, 2);
    let disk = AppleDisk::new("x", &interleave(&img)).unwrap();
    let entries = disk.list_entries();
    assert_eq!(entries.len(), 2);
    assert_eq!(pstring_to_string(&entries[0].name).unwrap(), "B");
    assert_eq!(pstring_to_string(&entries[1].name).unwrap(), "A");
    assert_eq!(entries[0].first_block, 10);
    assert_eq!(entries[1].first_after_block, 12);
    assert_eq!(entries[1].file_type, 3);
    assert!(matches!(disk.transfer("GHOST", false, false), Err(DiskError::NotFound)));
}

#[test]
fn lookup_finds_first_match_only() {
    let img = logical_image(64, &[("DUP", 10, 11), ("DUP", 20, 21)]);
    let disk = AppleDisk::new("x", &interleave(&img)).unwrap();
    let e = disk.directory().lookup("DUP").unwrap();
    assert_eq!(e.first_block, 10);
    assert!(disk.directory().lookup("dup").is_none());
}

#[test]
fn transfer_raw_returns_file_blocks() {
    let (logical, disk) = hello_disk();
    let out = disk.transfer("HELLO", false, false).unwrap();
    assert_eq!(out.len(), 1024);
    assert_eq!(out, logical[10 * 512..12 * 512].to_vec());
}

#[test]
fn transfer_missing_is_not_found() {
    let (_, disk) = hello_disk();
    assert!(matches!(disk.transfer("MISSING", false, false), Err(DiskError::NotFound)));
    assert!(matches!(disk.transfer("MISSING", false, true), Err(DiskError::NotFound)));
    assert!(matches!(disk.transfer("hello", false, false), Err(DiskError::NotFound)));
}

#[test]
fn transfer_to_image_not_supported() {
    let (_, disk) = hello_disk();
    assert!(matches!(disk.transfer("HELLO", true, false), Err(DiskError::NotSupported)));
}

#[test]
fn transfer_text_detokenizes() {
    let mut img = logical_image(64, &[("NOTE.TEXT", 10, 13)]);
    for b in &mut img[10 * 512..13 * 512] {
        *b = 0;
    }
    let body = [b'H', b'I', 0x0d, 0x10, 0x22, b'X', 0x0d];
    img[10 * 512 + 1025..10 * 512 + 1025 + body.len()].copy_from_slice(&body);
    let disk = AppleDisk::new("x", &interleave(&img)).unwrap();
    assert_eq!(disk.transfer("NOTE.TEXT", false, true).unwrap(), b"HI\n  X\n".to_vec());
}

#[test]
fn read_blocks_slices_logical_blocks() {
    let (logical, disk) = hello_disk();
    assert_eq!(disk.read_blocks(10, 2), &logical[5120..6144]);
    assert_eq!(disk.read_blocks(63, 1), &logical[63 * 512..]);
    assert_eq!(disk.read_blocks(3, 0).len(), 0);
}

#[test]
fn dump_validates_range() {
    let (_, disk) = hello_disk();
    assert!(matches!(disk.dump(5, 3), Err(DiskError::InvalidRange)));
    assert!(matches!(disk.dump(0, 65), Err(DiskError::InvalidRange)));
    assert!(matches!(disk.dump(0, 64), Err(DiskError::InvalidRange)));
    assert!(disk.dump(63, 63).is_ok());
}

#[test]
fn dump_lines_cover_blocks() {
    let (logical, disk) = hello_disk();
    let lines = disk.dump(2, 3).unwrap();
    assert_eq!(lines.len(), 64);
    assert_eq!(lines[0].offset, 1024);
    assert_eq!(lines[63].offset, 1024 + 63 * 16);
    assert_eq!(lines[0].bytes.to_vec(), logical[1024..1040].to_vec());
    assert_eq!(&lines[0].shown[..], b".......TEST...@.");
}

#[test]
fn unsupported_operations_report_it() {
    let (_, disk) = hello_disk();
    assert_eq!(disk.remove("HELLO"), Err(DiskError::NotSupported));
    assert_eq!(disk.change("HELLO", "BYE"), Err(DiskError::NotSupported));
    assert_eq!(disk.krunch(), Err(DiskError::NotSupported));
    assert_eq!(disk.zero(), Err(DiskError::NotSupported));
}
