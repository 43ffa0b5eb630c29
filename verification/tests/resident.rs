use lib::coordinates::{BindingId, ByteOffset, ByteRange, PageId, PageRequestId, SourceRevision};
use lib::page::{PageEdgeFact, RangePage};
use lib::request::{PageDirection, PagePurpose, PageRequestKey};
use lib::resident::{order_by_start, resident_byte_range, resident_utf16_offset};
use lib::utf16::{utf16_range_in_text, utf8_to_utf16_offset};

fn page(id: u64, start: u64, text: &str, last: bool) -> RangePage {
    let key = PageRequestKey::adjacent(
        PageRequestId::new(id),
        BindingId::new(1),
        SourceRevision::new(1),
        PagePurpose::Viewport,
        ByteOffset::new(start),
        PageDirection::Forward,
        64,
    )
    .unwrap();
    RangePage::new(
        PageId::new(id),
        key,
        ByteRange::from_u64(start, start + text.len() as u64).unwrap(),
        text.to_string(),
        Vec::new(),
        if start == 0 { PageEdgeFact::DocumentBoundary } else { PageEdgeFact::Continues },
        if last { PageEdgeFact::DocumentBoundary } else { PageEdgeFact::Continues },
        last,
    )
    .unwrap()
}

fn range(start: u64, end: u64) -> ByteRange {
    ByteRange::from_u64(start, end).unwrap()
}

#[test]
fn pages_are_ordered_by_start_keeping_ties_in_place() {
    let pages = vec![
        page(1, 7, "xy", true),
        page(2, 0, "ab", false),
        page(3, 3, "c", false),
        page(4, 0, "ab", false),
    ];
    assert_eq!(order_by_start(&pages), vec![1, 3, 2, 0]);
    assert_eq!(order_by_start(&[]), Vec::<usize>::new());
}

#[test]
fn byte_offsets_become_utf16_offsets() {
    assert_eq!(utf8_to_utf16_offset("a\u{e9}\u{1f600}b", 0), Some(0));
    assert_eq!(utf8_to_utf16_offset("a\u{e9}\u{1f600}b", 3), Some(2));
    assert_eq!(utf8_to_utf16_offset("a\u{e9}\u{1f600}b", 7), Some(4));
    assert_eq!(utf8_to_utf16_offset("a\u{e9}\u{1f600}b", 8), Some(5));
    assert_eq!(utf8_to_utf16_offset("a\u{e9}\u{1f600}b", 2), None);
    assert_eq!(utf8_to_utf16_offset("a\u{e9}\u{1f600}b", 9), None);
}

#[test]
fn resident_offsets_follow_the_contiguous_chain() {
    let pages = vec![page(2, 3, "\u{1f600}b", true), page(1, 0, "a\u{e9}", false)];
    assert_eq!(resident_utf16_offset(&pages, ByteOffset::new(0)), Some(0));
    assert_eq!(resident_utf16_offset(&pages, ByteOffset::new(1)), Some(1));
    assert_eq!(resident_utf16_offset(&pages, ByteOffset::new(3)), Some(2));
    assert_eq!(resident_utf16_offset(&pages, ByteOffset::new(7)), Some(4));
    assert_eq!(resident_utf16_offset(&pages, ByteOffset::new(8)), Some(5));
    assert_eq!(resident_utf16_offset(&pages, ByteOffset::new(5)), None);
    assert_eq!(resident_utf16_offset(&pages, ByteOffset::new(9)), None);
}

#[test]
fn resident_offsets_need_pages_from_the_start() {
    let pages = vec![page(2, 3, "\u{1f600}b", true)];
    assert_eq!(resident_utf16_offset(&pages, ByteOffset::new(7)), None);
    assert_eq!(resident_utf16_offset(&[], ByteOffset::new(1)), None);
}

#[test]
fn resident_ranges_agree_with_translating_the_whole_text() {
    let whole = "a\u{e9}\u{1f600}b";
    let pages = vec![page(2, 3, "\u{1f600}b", true), page(1, 0, "a\u{e9}", false)];
    let expected = utf16_range_in_text(whole, 1..4).unwrap();
    assert_eq!(expected, 1..7);
    assert_eq!(resident_byte_range(&pages, 1..4), Some(range(1, 7)));
    assert_eq!(resident_byte_range(&pages, 0..5), Some(range(0, 8)));
    assert_eq!(resident_byte_range(&pages, 2..2), Some(range(3, 3)));
    assert_eq!(resident_byte_range(&pages, 3..4), None);
    assert_eq!(resident_byte_range(&pages, 1..9), None);
    assert_eq!(resident_byte_range(&pages, 4..1), None);
}
