use pyinst_archive::error::ArchiveError;
use pyinst_archive::layout::{OffsetResolver, TrailingSize, HEADER_LEN, LIBRARY_NAME_LEN};

#[test]
fn measured_layout_counts_back_from_the_end() {
    // Header at 100000, followed by 64 bytes: a file of 100088 bytes.
    let layout = OffsetResolver::new(100_088, 100_000, 50_000, TrailingSize::Measured).unwrap();
    assert_eq!(layout.trailing_size(), 64);
    assert_eq!(layout.base_offset(), 100_088 - 50_000 - 64);
    assert_eq!(layout.data_start(), 50_088);
    assert_eq!(layout.resolve(100_088, 0), Some(50_088));
    assert_eq!(layout.resolve(100_088, 1234), Some(51_322));
}

#[test]
fn measured_layout_with_more_bytes_after_the_header() {
    let layout = OffsetResolver::new(1000, 800, 300, TrailingSize::Measured).unwrap();
    assert_eq!(layout.trailing_size(), 176);
    assert_eq!(layout.base_offset(), 524);
    assert_eq!(layout.data_start(), 700);
}

#[test]
fn fixed_layout_adds_back_the_constant() {
    let layout = OffsetResolver::new(1000, 800, 300, TrailingSize::Fixed(LIBRARY_NAME_LEN)).unwrap();
    assert_eq!(layout.trailing_size(), 64);
    assert_eq!(layout.base_offset(), 524);
    assert_eq!(layout.data_start(), 588);
    assert_eq!(layout.resolve(1000, 12), Some(600));
}

#[test]
fn fixed_and_measured_layouts_agree_when_the_constant_is_the_measure() {
    let measured = OffsetResolver::new(888, 800, 300, TrailingSize::Measured).unwrap();
    let fixed = OffsetResolver::new(888, 800, 300, TrailingSize::Fixed(64)).unwrap();
    assert_eq!(measured.data_start(), fixed.data_start());
    assert_eq!(measured.base_offset(), fixed.base_offset());
    assert_eq!(measured.trailing_size(), fixed.trailing_size());
}

#[test]
fn layout_needs_the_header_inside_the_file() {
    let bad = ArchiveError::HeaderTruncatedOrInvalid;
    assert_eq!(OffsetResolver::new(23, 0, 0, TrailingSize::Measured).unwrap_err(), bad);
    assert_eq!(OffsetResolver::new(100, 77, 0, TrailingSize::Measured).unwrap_err(), bad);
    assert_eq!(OffsetResolver::new(100, usize::MAX, 0, TrailingSize::Measured).unwrap_err(), bad);
    assert!(OffsetResolver::new(100, 76, 0, TrailingSize::Measured).is_ok());
    assert!(OffsetResolver::new(HEADER_LEN, 0, 0, TrailingSize::Measured).is_ok());
}

#[test]
fn layout_needs_the_package_to_fit_before_the_header_end() {
    let bad = ArchiveError::HeaderTruncatedOrInvalid;
    // The header ends at 124: a package of 124 bytes starts at the file's start.
    assert_eq!(OffsetResolver::new(200, 100, 124, TrailingSize::Measured).unwrap().base_offset(), 0);
    assert_eq!(OffsetResolver::new(200, 100, 125, TrailingSize::Measured).unwrap_err(), bad);
    assert_eq!(OffsetResolver::new(200, 100, 201, TrailingSize::Measured).unwrap_err(), bad);
    assert_eq!(OffsetResolver::new(200, 100, u32::MAX, TrailingSize::Fixed(64)).unwrap_err(), bad);
}

#[test]
fn layout_needs_the_start_to_fit_the_machine() {
    let bad = ArchiveError::HeaderTruncatedOrInvalid;
    assert_eq!(OffsetResolver::new(200, 100, 24, TrailingSize::Fixed(usize::MAX)).unwrap_err(), bad);
    let layout = OffsetResolver::new(200, 100, 24, TrailingSize::Fixed(usize::MAX - 100)).unwrap();
    assert_eq!(layout.data_start(), usize::MAX);
    assert_eq!(layout.resolve(200, 0), None);
}

#[test]
fn range_lies_within_the_file_or_is_none() {
    let layout = OffsetResolver::new(1000, 900, 500, TrailingSize::Measured).unwrap();
    assert_eq!(layout.data_start(), 500);
    assert_eq!(layout.range(1000, 0, 0), Some((500, 500)));
    assert_eq!(layout.range(1000, 10, 20), Some((510, 530)));
    assert_eq!(layout.range(1000, 0, 500), Some((500, 1000)));
    assert_eq!(layout.range(1000, 500, 0), Some((1000, 1000)));
    assert_eq!(layout.range(1000, 0, 501), None);
    assert_eq!(layout.range(1000, 501, 0), None);
    assert_eq!(layout.range(1000, 1, 500), None);
    assert_eq!(layout.range(1000, u32::MAX, u32::MAX), None);
    assert_eq!(layout.range(499, 0, 0), None);
}

#[test]
fn resolve_is_the_start_of_an_empty_range() {
    let layout = OffsetResolver::new(1000, 900, 500, TrailingSize::Measured).unwrap();
    assert_eq!(layout.resolve(1000, 0), Some(500));
    assert_eq!(layout.resolve(1000, 500), Some(1000));
    assert_eq!(layout.resolve(1000, 501), None);
}
