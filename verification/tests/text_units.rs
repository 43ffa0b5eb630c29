use lib::coordinates::{ByteOffset, ByteRange, LogicalExtent};
use lib::interaction::{
    local_successor_extent, successor_position, ActiveObjectActivationAttempt,
    SuccessorPositionError,
};
use lib::page::byte_len;
use lib::position::{
    InlineObjectGap, InlineObjectId, InlineObjectNeighbor, InlineObjectOrder, SourcePosition,
    SourceRange,
};
use lib::utf16::{char_utf16_width, char_utf8_width, utf16_byte_offset, utf16_range_in_text};

fn neighbor(id: u128, order: u128) -> InlineObjectNeighbor {
    InlineObjectNeighbor::new(InlineObjectId::new(id), InlineObjectOrder::new(order))
}

fn at(offset: u64, gap: InlineObjectGap) -> SourcePosition {
    SourcePosition::new(ByteOffset::new(offset), gap)
}

fn range(start: u64, end: u64) -> ByteRange {
    ByteRange::from_u64(start, end).unwrap()
}

#[test]
fn character_widths() {
    assert_eq!(char_utf16_width('a'), 1);
    assert_eq!(char_utf8_width('a'), 1);
    assert_eq!(char_utf16_width('\u{e9}'), 1);
    assert_eq!(char_utf8_width('\u{e9}'), 2);
    assert_eq!(char_utf16_width('\u{20ac}'), 1);
    assert_eq!(char_utf8_width('\u{20ac}'), 3);
    assert_eq!(char_utf16_width('\u{1f600}'), 2);
    assert_eq!(char_utf8_width('\u{1f600}'), 4);
    assert_eq!(byte_len("h\u{e9}"), 3);
}

#[test]
fn utf16_offsets_map_to_utf8_offsets() {
    let text = "a\u{e9}\u{1f600}b";
    assert_eq!(utf16_byte_offset(text, 0), Some(0));
    assert_eq!(utf16_byte_offset(text, 1), Some(1));
    assert_eq!(utf16_byte_offset(text, 2), Some(3));
    assert_eq!(utf16_byte_offset(text, 3), None);
    assert_eq!(utf16_byte_offset(text, 4), Some(7));
    assert_eq!(utf16_byte_offset(text, 5), Some(8));
    assert_eq!(utf16_byte_offset(text, 6), None);
    assert_eq!(utf16_byte_offset("", 0), Some(0));
}

#[test]
fn utf16_ranges_map_exactly_or_not_at_all() {
    let text = "a\u{e9}\u{1f600}b";
    assert_eq!(utf16_range_in_text(text, 1..4), Some(1..7));
    assert_eq!(utf16_range_in_text(text, 0..5), Some(0..8));
    assert_eq!(utf16_range_in_text(text, 3..4), None);
    assert_eq!(utf16_range_in_text(text, 1..9), None);
}

#[test]
fn only_a_real_attempt_consumes_the_key() {
    assert!(!ActiveObjectActivationAttempt::NotApplicable.consumes_key());
    assert!(ActiveObjectActivationAttempt::Activated.consumes_key());
    assert!(ActiveObjectActivationAttempt::Rejected.consumes_key());
}

#[test]
fn inserted_text_moves_the_caret_past_it() {
    let object = neighbor(4, 2);
    let replacement = SourceRange::new(
        at(3, InlineObjectGap::NoObjects),
        at(6, InlineObjectGap::between(neighbor(1, 1), object).unwrap()),
    )
    .unwrap();
    assert_eq!(
        successor_position(replacement, false, 5),
        Ok(at(8, InlineObjectGap::Before(object)))
    );
    let plain = SourceRange::new(at(3, InlineObjectGap::NoObjects), at(6, InlineObjectGap::After(object)))
        .unwrap();
    assert_eq!(successor_position(plain, true, 2), Ok(at(5, InlineObjectGap::NoObjects)));
}

#[test]
fn deletion_without_an_object_keeps_the_end() {
    let end = at(6, InlineObjectGap::NoObjects);
    let replacement = SourceRange::new(at(3, InlineObjectGap::NoObjects), end).unwrap();
    assert_eq!(successor_position(replacement, false, 0), Ok(end));
}

#[test]
fn removing_an_object_closes_its_gap() {
    let object = neighbor(5, 5);
    let left = neighbor(1, 1);
    let right = neighbor(9, 9);
    let only = SourceRange::new(at(4, InlineObjectGap::Before(object)), at(4, InlineObjectGap::After(object)))
        .unwrap();
    assert_eq!(successor_position(only, true, 0), Ok(at(4, InlineObjectGap::NoObjects)));
    let first = SourceRange::new(
        at(4, InlineObjectGap::Before(object)),
        at(4, InlineObjectGap::between(object, right).unwrap()),
    )
    .unwrap();
    assert_eq!(successor_position(first, true, 0), Ok(at(4, InlineObjectGap::Before(right))));
    let last = SourceRange::new(
        at(4, InlineObjectGap::between(left, object).unwrap()),
        at(4, InlineObjectGap::After(object)),
    )
    .unwrap();
    assert_eq!(successor_position(last, true, 0), Ok(at(4, InlineObjectGap::After(left))));
    let middle = SourceRange::new(
        at(4, InlineObjectGap::between(left, object).unwrap()),
        at(4, InlineObjectGap::between(object, right).unwrap()),
    )
    .unwrap();
    assert_eq!(
        successor_position(middle, true, 0),
        Ok(at(4, InlineObjectGap::between(left, right).unwrap()))
    );
    let text = SourceRange::new(at(1, InlineObjectGap::NoObjects), at(4, InlineObjectGap::NoObjects))
        .unwrap();
    assert_eq!(successor_position(text, true, 0), Err(SuccessorPositionError::Stale));
}

#[test]
fn caret_beyond_the_offset_range_is_refused() {
    let end = at(u64::MAX, InlineObjectGap::NoObjects);
    let replacement = SourceRange::new(at(u64::MAX - 1, InlineObjectGap::NoObjects), end).unwrap();
    assert_eq!(
        successor_position(replacement, false, 2),
        Err(SuccessorPositionError::SurfaceCapacity)
    );
}

#[test]
fn successor_extent_follows_the_replacement() {
    let base = LogicalExtent::new(10, 3);
    assert_eq!(
        local_successor_extent(base, range(2, 5), 1, 4, 0),
        Some(LogicalExtent::new(11, 2))
    );
    assert_eq!(
        local_successor_extent(base, range(2, 5), 1, 3, 1),
        Some(base)
    );
    assert_eq!(
        local_successor_extent(base, range(0, 10), 2, 0, 0),
        Some(LogicalExtent::new(0, 0))
    );
    assert_eq!(
        local_successor_extent(LogicalExtent::new(0, 0), range(0, 0), 0, 3, 0),
        Some(LogicalExtent::new(3, 1))
    );
}

#[test]
fn incoherent_successors_are_refused() {
    let base = LogicalExtent::new(10, 3);
    assert_eq!(local_successor_extent(base, range(0, 11), 0, 0, 0), None);
    assert_eq!(local_successor_extent(base, range(0, 1), 3, 0, 0), None);
    assert_eq!(local_successor_extent(base, range(0, 10), 0, 0, 0), None);
    assert_eq!(local_successor_extent(LogicalExtent::new(5, 0), range(0, 0), 0, 0, 0), None);
    assert_eq!(local_successor_extent(base, range(0, 0), 0, u64::MAX, 0), None);
}

#[test]
fn marked_composition_translates_the_platform_selection() {
    let text = "h\u{e9}llo";
    let (composition, anchor, head) =
        lib::interaction::marked_composition(range(10, 12), text, Some(1..3));
    assert_eq!(composition, range(10, 16));
    assert_eq!(anchor, ByteOffset::new(11));
    assert_eq!(head, ByteOffset::new(14));
    let (_, anchor, head) = lib::interaction::marked_composition(range(10, 12), text, None);
    assert_eq!((anchor, head), (ByteOffset::new(16), ByteOffset::new(16)));
    let (_, anchor, head) = lib::interaction::marked_composition(range(10, 12), text, Some(0..9));
    assert_eq!((anchor, head), (ByteOffset::new(16), ByteOffset::new(16)));
    let (composition, _, _) =
        lib::interaction::marked_composition(range(u64::MAX - 1, u64::MAX), text, None);
    assert_eq!(composition, range(u64::MAX - 1, u64::MAX));
}
