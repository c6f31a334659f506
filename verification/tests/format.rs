use pyinst_archive::bytes::{read_be_u32, read_le_u32};
use pyinst_archive::error::ArchiveError;
use pyinst_archive::header::parse_header;
use pyinst_archive::kind::EntryKind;
use pyinst_archive::name::decode_name;
use pyinst_archive::signature::{find_signature, is_signature_at, SIGNATURE};
use pyinst_archive::toc::{parse_entry, parse_toc, TocEntry};

fn record(rel_offset: u32, compressed: u32, uncompressed: u32, flag: u8, tag: u8, field: &[u8]) -> Vec<u8> {
    let mut out = Vec::new();
    out.extend_from_slice(&((18 + field.len()) as u32).to_be_bytes());
    out.extend_from_slice(&rel_offset.to_be_bytes());
    out.extend_from_slice(&compressed.to_be_bytes());
    out.extend_from_slice(&uncompressed.to_be_bytes());
    out.push(flag);
    out.push(tag);
    out.extend_from_slice(field);
    out
}

fn header_bytes(package_size: u32, toc_offset: u32, toc_size: u32, runtime_version: u32) -> Vec<u8> {
    let mut out = SIGNATURE.to_vec();
    out.extend_from_slice(&package_size.to_be_bytes());
    out.extend_from_slice(&toc_offset.to_be_bytes());
    out.extend_from_slice(&toc_size.to_be_bytes());
    out.extend_from_slice(&runtime_version.to_be_bytes());
    out
}

#[test]
fn big_endian_word_is_read_from_its_offset() {
    let buf = [0xFF, 0x12, 0x34, 0x56, 0x78, 0xFF];
    assert_eq!(read_be_u32(&buf, 1), Some(0x1234_5678));
    assert_eq!(read_be_u32(&[0xFF, 0xFF, 0xFF, 0xFF], 0), Some(u32::MAX));
    assert_eq!(read_be_u32(&[0, 0, 0, 1], 0), Some(1));
    assert_eq!(read_be_u32(&[1, 0, 0, 0], 0), Some(0x0100_0000));
}

#[test]
fn little_endian_word_is_read_from_its_offset() {
    let buf = [0xFF, 0x12, 0x34, 0x56, 0x78, 0xFF];
    assert_eq!(read_le_u32(&buf, 1), Some(0x7856_3412));
    assert_eq!(read_le_u32(&[1, 0, 0, 0], 0), Some(1));
    assert_eq!(read_le_u32(&[0, 0, 0, 1], 0), Some(0x0100_0000));
}

#[test]
fn word_that_runs_past_the_buffer_is_not_read() {
    let buf = [1, 2, 3, 4, 5];
    assert_eq!(read_be_u32(&buf, 1), Some(0x0203_0405));
    assert_eq!(read_be_u32(&buf, 2), None);
    assert_eq!(read_be_u32(&buf, usize::MAX), None);
    assert_eq!(read_be_u32(&buf[..3], 0), None);
    assert_eq!(read_le_u32(&buf, 2), None);
    assert_eq!(read_le_u32(&[], 0), None);
}

#[test]
fn every_tag_comes_back_from_its_kind() {
    for tag in 0..=255u8 {
        assert_eq!(EntryKind::from_tag(tag).tag(), tag);
    }
}

#[test]
fn named_tags_have_their_kinds() {
    assert_eq!(EntryKind::from_tag(b's'), EntryKind::SourceModule);
    assert_eq!(EntryKind::from_tag(b'z'), EntryKind::NestedContainer);
    assert_eq!(EntryKind::from_tag(b'x'), EntryKind::Data);
    assert_eq!(EntryKind::from_tag(b'b'), EntryKind::Binary);
    assert_eq!(EntryKind::from_tag(b'd'), EntryKind::Dependency);
    assert_eq!(EntryKind::from_tag(b'Z'), EntryKind::ZipFile);
    assert_eq!(EntryKind::from_tag(b'M'), EntryKind::Package);
    assert_eq!(EntryKind::from_tag(b'm'), EntryKind::Module);
    assert_eq!(EntryKind::from_tag(b'o'), EntryKind::RuntimeOption);
    assert_eq!(EntryKind::from_tag(b'l'), EntryKind::Splash);
    assert_eq!(EntryKind::from_tag(b'n'), EntryKind::Symlink);
    assert_eq!(EntryKind::from_tag(b'?'), EntryKind::Other(b'?'));
    assert!(EntryKind::from_tag(b's').is_source_module());
    assert!(!EntryKind::from_tag(b'x').is_source_module());
    assert!(EntryKind::from_tag(b'z').is_nested_container());
    assert!(!EntryKind::from_tag(b's').is_nested_container());
}

#[test]
fn source_module_name_gets_the_extension_even_after_one() {
    let name = decode_name(b"foo.py\0\0\0", EntryKind::SourceModule);
    assert_eq!(name.as_deref(), Some("foo.py.pyc"));
}

#[test]
fn decoding_a_name_twice_gives_the_same_name() {
    let first = decode_name(b"foo.py\0\0\0", EntryKind::SourceModule);
    let second = decode_name(b"foo.py\0\0\0", EntryKind::SourceModule);
    assert_eq!(first, second);
}

#[test]
fn other_kinds_keep_their_name() {
    assert_eq!(decode_name(b"foo.py\0\0\0", EntryKind::Data).as_deref(), Some("foo.py"));
    assert_eq!(decode_name(b"lib\\x.so\0", EntryKind::Binary).as_deref(), Some("lib\\x.so"));
}

#[test]
fn name_ends_at_the_first_nul() {
    assert_eq!(decode_name(b"ab\0cd\0", EntryKind::Data).as_deref(), Some("ab"));
    assert_eq!(decode_name(b"\0abc", EntryKind::Data).as_deref(), Some(""));
    assert_eq!(decode_name(b"\0abc", EntryKind::SourceModule).as_deref(), Some(".pyc"));
}

#[test]
fn name_without_nul_takes_the_whole_field() {
    assert_eq!(decode_name(b"abc", EntryKind::Data).as_deref(), Some("abc"));
    assert_eq!(decode_name(b"", EntryKind::Data).as_deref(), Some(""));
}

#[test]
fn name_of_several_bytes_per_character_is_decoded() {
    let field = "d\u{e9}j\u{e0}/\u{4e2d}\0".as_bytes();
    assert_eq!(decode_name(field, EntryKind::Data).as_deref(), Some("d\u{e9}j\u{e0}/\u{4e2d}"));
}

#[test]
fn name_that_is_not_utf8_is_refused() {
    assert_eq!(decode_name(&[0x66, 0xFF, 0x6F, 0], EntryKind::Data), None);
    assert_eq!(decode_name(&[0xC3], EntryKind::SourceModule), None);
    // The bytes after the first NUL are padding and are not looked at.
    assert_eq!(decode_name(&[0x61, 0, 0xFF], EntryKind::Data).as_deref(), Some("a"));
}

#[test]
fn record_is_read_field_by_field() {
    let mut buf = vec![0xAA; 3];
    buf.extend_from_slice(&record(0x0102_0304, 77, 99, 1, b's', b"mod\0\0"));
    let entry: TocEntry = parse_entry(&buf, 3).unwrap();
    assert_eq!(entry.size, 23);
    assert_eq!(entry.rel_offset, 0x0102_0304);
    assert_eq!(entry.compressed_size, 77);
    assert_eq!(entry.uncompressed_size, 99);
    assert_eq!(entry.compression_flag, 1);
    assert_eq!(entry.kind, EntryKind::SourceModule);
    assert_eq!(entry.name, "mod.pyc");
    assert!(entry.is_compressed());
}

#[test]
fn record_with_a_flag_other_than_one_is_stored() {
    let buf = record(0, 4, 4, 0, b'x', b"d\0");
    assert!(!parse_entry(&buf, 0).unwrap().is_compressed());
    let buf = record(0, 4, 4, 2, b'x', b"d\0");
    assert!(!parse_entry(&buf, 0).unwrap().is_compressed());
}

#[test]
fn record_shorter_than_its_prefix_is_corrupt() {
    for size in 0..18u32 {
        let mut buf = record(0, 0, 0, 0, b'x', b"name\0");
        buf[0..4].copy_from_slice(&size.to_be_bytes());
        assert_eq!(parse_entry(&buf, 0).unwrap_err(), ArchiveError::TocEntryCorrupt);
        assert_eq!(parse_toc(&buf, 0, 23).unwrap_err(), ArchiveError::TocEntryCorrupt);
    }
}

#[test]
fn record_of_exactly_the_prefix_has_an_empty_name() {
    let buf = record(1, 2, 3, 0, b'x', b"");
    let entry = parse_entry(&buf, 0).unwrap();
    assert_eq!(entry.size, 18);
    assert_eq!(entry.name, "");
}

#[test]
fn record_cut_off_in_the_prefix_is_corrupt() {
    let buf = record(0, 0, 0, 0, b'x', b"name\0");
    assert_eq!(parse_entry(&buf[..17], 0).unwrap_err(), ArchiveError::TocEntryCorrupt);
    assert_eq!(parse_entry(&buf, 6).unwrap_err(), ArchiveError::TocEntryCorrupt);
    assert_eq!(parse_entry(&buf, buf.len()).unwrap_err(), ArchiveError::TocEntryCorrupt);
    assert_eq!(parse_entry(&buf, usize::MAX).unwrap_err(), ArchiveError::TocEntryCorrupt);
    assert_eq!(parse_entry(&[], 0).unwrap_err(), ArchiveError::TocEntryCorrupt);
}

#[test]
fn record_cut_off_in_the_name_is_corrupt() {
    let buf = record(0, 0, 0, 0, b'x', b"name\0");
    assert_eq!(parse_entry(&buf[..22], 0).unwrap_err(), ArchiveError::TocEntryCorrupt);
    assert!(parse_entry(&buf[..23], 0).is_ok());
}

#[test]
fn record_with_a_name_that_is_not_utf8_is_corrupt() {
    let buf = record(0, 0, 0, 0, b'x', &[0xFF, 0xFE, 0]);
    assert_eq!(parse_entry(&buf, 0).unwrap_err(), ArchiveError::TocEntryCorrupt);
}

#[test]
fn table_sizes_add_up_to_the_declared_size() {
    let mut buf = vec![0u8; 5];
    buf.extend_from_slice(&record(0, 1, 1, 0, b'x', b"one\0"));
    buf.extend_from_slice(&record(1, 2, 2, 1, b's', b"two\0\0\0\0"));
    buf.extend_from_slice(&record(3, 3, 3, 0, b'z', b"three\0"));
    let toc_size = (buf.len() - 5) as u32;
    buf.extend_from_slice(&[0xEE; 40]);
    let toc = parse_toc(&buf, 5, toc_size).unwrap();
    assert_eq!(toc.len(), 3);
    assert_eq!(toc.iter().map(|e| e.size as u64).sum::<u64>(), toc_size as u64);
    assert_eq!(toc[0].name, "one");
    assert_eq!(toc[1].name, "two.pyc");
    assert_eq!(toc[2].name, "three");
    assert_eq!(toc[2].kind, EntryKind::NestedContainer);
}

#[test]
fn table_of_no_bytes_is_empty() {
    assert_eq!(parse_toc(&[1, 2, 3], 1, 0).unwrap().len(), 0);
    assert_eq!(parse_toc(&[], 0, 0).unwrap().len(), 0);
    assert_eq!(parse_toc(&[], 10, 0).unwrap().len(), 0);
}

#[test]
fn table_whose_last_record_overruns_is_a_mismatch() {
    let mut buf = record(0, 1, 1, 0, b'x', b"one\0");
    buf.extend_from_slice(&record(1, 2, 2, 0, b'x', b"two\0"));
    let total = buf.len() as u32;
    assert_eq!(parse_toc(&buf, 0, total - 1).unwrap_err(), ArchiveError::TocSizeMismatch);
    assert_eq!(parse_toc(&buf, 0, 1).unwrap_err(), ArchiveError::TocSizeMismatch);
    assert_eq!(parse_toc(&buf, 0, total).unwrap().len(), 2);
}

#[test]
fn table_that_runs_past_the_file_is_corrupt() {
    let mut buf = record(0, 1, 1, 0, b'x', b"one\0");
    buf.extend_from_slice(&record(1, 2, 2, 0, b'x', b"two\0"));
    let total = buf.len() as u32;
    assert_eq!(parse_toc(&buf, 0, total + 1).unwrap_err(), ArchiveError::TocEntryCorrupt);
    assert_eq!(parse_toc(&buf, 0, u32::MAX).unwrap_err(), ArchiveError::TocEntryCorrupt);
}

#[test]
fn first_error_of_a_table_wins() {
    let mut buf = record(0, 1, 1, 0, b'x', b"one\0");
    let mut bad = record(1, 2, 2, 0, b'x', b"two\0");
    bad[0..4].copy_from_slice(&17u32.to_be_bytes());
    buf.extend_from_slice(&bad);
    assert_eq!(parse_toc(&buf, 0, 44).unwrap_err(), ArchiveError::TocEntryCorrupt);
}

#[test]
fn signature_is_found_at_its_first_occurrence() {
    let mut buf = vec![0x4D, 0x45, 0x49, 0x0C, 0x0B, 0x0A, 0x0B];
    buf.extend_from_slice(&SIGNATURE);
    buf.extend_from_slice(&[1, 2, 3]);
    buf.extend_from_slice(&SIGNATURE);
    assert_eq!(find_signature(&buf), Some(7));
    assert!(is_signature_at(&buf, 7));
    assert!(!is_signature_at(&buf, 0));
    assert!(is_signature_at(&buf, 18));
    assert!(!is_signature_at(&buf, 19));
    assert!(!is_signature_at(&buf, buf.len()));
    assert!(!is_signature_at(&buf, usize::MAX));
    assert!(!is_signature_at(&[], 0));
}

#[test]
fn signature_at_the_very_start_and_end() {
    assert_eq!(find_signature(&SIGNATURE), Some(0));
    let mut buf = vec![9u8; 100];
    buf.extend_from_slice(&SIGNATURE);
    assert_eq!(find_signature(&buf), Some(100));
}

#[test]
fn signature_that_is_absent_is_not_found() {
    assert_eq!(find_signature(&[]), None);
    assert_eq!(find_signature(&SIGNATURE[..7]), None);
    assert_eq!(find_signature(&[0x4D, 0x45, 0x49, 0x0C, 0x0B, 0x0A, 0x0B, 0x0F]), None);
    assert_eq!(find_signature(&vec![0u8; 1000]), None);
}

#[test]
fn header_is_read_big_endian() {
    let mut buf = vec![7u8; 10];
    buf.extend_from_slice(&header_bytes(50000, 0x0001_0203, 200, 310));
    let header = parse_header(&buf, 10).unwrap();
    assert_eq!(header.signature, SIGNATURE);
    assert_eq!(header.package_size, 50000);
    assert_eq!(header.toc_offset, 0x0001_0203);
    assert_eq!(header.toc_size, 200);
    assert_eq!(header.runtime_version, 310);
}

#[test]
fn runtime_version_splits_into_major_and_minor() {
    let header = parse_header(&header_bytes(0, 0, 0, 310), 0).unwrap();
    assert_eq!(header.runtime_major(), 3);
    assert_eq!(header.runtime_minor(), 10);
    assert_eq!(format!("{}.{}", header.runtime_major(), header.runtime_minor()), "3.10");
    let header = parse_header(&header_bytes(0, 0, 0, 27), 0).unwrap();
    assert_eq!((header.runtime_major(), header.runtime_minor()), (0, 27));
    let header = parse_header(&header_bytes(0, 0, 0, 309), 0).unwrap();
    assert_eq!((header.runtime_major(), header.runtime_minor()), (3, 9));
}

#[test]
fn header_with_fewer_than_24_bytes_is_refused() {
    let buf = header_bytes(1, 2, 3, 4);
    assert_eq!(parse_header(&buf[..23], 0).unwrap_err(), ArchiveError::HeaderTruncatedOrInvalid);
    assert_eq!(parse_header(&buf, 1).unwrap_err(), ArchiveError::HeaderTruncatedOrInvalid);
    assert_eq!(parse_header(&buf, usize::MAX).unwrap_err(), ArchiveError::HeaderTruncatedOrInvalid);
    assert_eq!(parse_header(&[], 0).unwrap_err(), ArchiveError::HeaderTruncatedOrInvalid);
}

#[test]
fn header_without_the_signature_is_refused() {
    let mut buf = header_bytes(1, 2, 3, 4);
    buf[7] ^= 1;
    assert_eq!(parse_header(&buf, 0).unwrap_err(), ArchiveError::HeaderTruncatedOrInvalid);
}
