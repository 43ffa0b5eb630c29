use std::cmp::Ordering;

use lib::coordinates::ByteOffset;
use lib::position::{
    selected_object_neighbor, InlineObjectGap, InlineObjectGapError, InlineObjectId,
    InlineObjectNeighbor, InlineObjectOrder, ObjectGapEdge, SourcePosition, SourceRange,
    SourceRangeError,
};

fn neighbor(id: u128, order: u128) -> InlineObjectNeighbor {
    InlineObjectNeighbor::new(InlineObjectId::new(id), InlineObjectOrder::new(order))
}

fn at(offset: u64, gap: InlineObjectGap) -> SourcePosition {
    SourcePosition::new(ByteOffset::new(offset), gap)
}

#[test]
fn position_identities_round_trip() {
    assert_eq!(InlineObjectId::new(5).get(), 5);
    assert_eq!(InlineObjectOrder::new(6).get(), 6);
    let n = neighbor(5, 6);
    assert_eq!(n.id(), InlineObjectId::new(5));
    assert_eq!(n.order(), InlineObjectOrder::new(6));
}

#[test]
fn between_requires_distinct_increasing_neighbors() {
    assert_eq!(
        InlineObjectGap::between(neighbor(1, 2), neighbor(1, 3)),
        Err(InlineObjectGapError::DuplicateIdentity(InlineObjectId::new(1)))
    );
    assert_eq!(
        InlineObjectGap::between(neighbor(1, 3), neighbor(2, 3)),
        Err(InlineObjectGapError::NonIncreasingOrder {
            preceding: InlineObjectOrder::new(3),
            following: InlineObjectOrder::new(3),
        })
    );
    assert_eq!(
        InlineObjectGap::between(neighbor(1, 2), neighbor(2, 3)),
        Ok(InlineObjectGap::Between {
            preceding: neighbor(1, 2),
            following: neighbor(2, 3),
        })
    );
}

#[test]
fn simple_gap_constructors() {
    assert_eq!(InlineObjectGap::no_objects(), InlineObjectGap::NoObjects);
    assert_eq!(InlineObjectGap::before(neighbor(1, 1)), InlineObjectGap::Before(neighbor(1, 1)));
    assert_eq!(InlineObjectGap::after(neighbor(1, 1)), InlineObjectGap::After(neighbor(1, 1)));
}

#[test]
fn gaps_order_before_between_after() {
    let before = InlineObjectGap::Before(neighbor(1, 1));
    let middle = InlineObjectGap::between(neighbor(1, 1), neighbor(2, 2)).unwrap();
    let later = InlineObjectGap::between(neighbor(2, 2), neighbor(3, 3)).unwrap();
    let after = InlineObjectGap::After(neighbor(3, 3));
    assert_eq!(before.compare_at_same_anchor(middle), Some(Ordering::Less));
    assert_eq!(middle.compare_at_same_anchor(later), Some(Ordering::Less));
    assert_eq!(later.compare_at_same_anchor(after), Some(Ordering::Less));
    assert_eq!(before.compare_at_same_anchor(after), Some(Ordering::Less));
    assert_eq!(after.compare_at_same_anchor(before), Some(Ordering::Greater));
    assert_eq!(later.compare_at_same_anchor(middle), Some(Ordering::Greater));
    assert_eq!(middle.compare_at_same_anchor(middle), Some(Ordering::Equal));
}

#[test]
fn incompatible_gap_witnesses_do_not_compare() {
    let none = InlineObjectGap::NoObjects;
    assert_eq!(none.compare_at_same_anchor(none), Some(Ordering::Equal));
    assert_eq!(none.compare_at_same_anchor(InlineObjectGap::Before(neighbor(1, 1))), None);
    assert_eq!(InlineObjectGap::After(neighbor(1, 1)).compare_at_same_anchor(none), None);
    assert_eq!(
        InlineObjectGap::Before(neighbor(1, 1))
            .compare_at_same_anchor(InlineObjectGap::Before(neighbor(2, 1))),
        None
    );
}

#[test]
fn between_gaps_compare_by_preceding_order_then_identity() {
    let a = InlineObjectGap::between(neighbor(5, 1), neighbor(6, 9)).unwrap();
    let b = InlineObjectGap::between(neighbor(3, 2), neighbor(4, 9)).unwrap();
    assert_eq!(a.compare_at_same_anchor(b), Some(Ordering::Less));
    let c = InlineObjectGap::between(neighbor(7, 1), neighbor(8, 9)).unwrap();
    assert_eq!(a.compare_at_same_anchor(c), Some(Ordering::Less));
    assert_eq!(c.compare_at_same_anchor(a), Some(Ordering::Greater));
}

#[test]
fn edges_round_trip_through_gaps() {
    let gaps = [
        InlineObjectGap::NoObjects,
        InlineObjectGap::Before(neighbor(1, 1)),
        InlineObjectGap::between(neighbor(1, 1), neighbor(2, 2)).unwrap(),
        InlineObjectGap::After(neighbor(2, 2)),
    ];
    for gap in gaps {
        let (preceding, following) = gap.edges();
        assert_eq!(InlineObjectGap::from_edges(preceding, following), Ok(gap));
    }
}

#[test]
fn malformed_edges_are_rejected() {
    let object = ObjectGapEdge::Object {
        id: InlineObjectId::new(1),
        order: InlineObjectOrder::new(1),
    };
    let invalid = Err(InlineObjectGapError::InvalidGpuiGap);
    assert_eq!(InlineObjectGap::from_edges(ObjectGapEdge::BeforeAll, ObjectGapEdge::AfterAll), invalid);
    assert_eq!(InlineObjectGap::from_edges(ObjectGapEdge::NoObject, ObjectGapEdge::AfterAll), invalid);
    assert_eq!(InlineObjectGap::from_edges(object, ObjectGapEdge::NoObject), invalid);
    assert_eq!(InlineObjectGap::from_edges(ObjectGapEdge::NoObject, object), invalid);
    assert_eq!(
        InlineObjectGap::from_edges(object, object),
        Err(InlineObjectGapError::DuplicateIdentity(InlineObjectId::new(1)))
    );
}

#[test]
fn positions_compare_by_offset_then_gap() {
    let a = at(3, InlineObjectGap::NoObjects);
    let b = at(5, InlineObjectGap::Before(neighbor(1, 1)));
    let c = at(5, InlineObjectGap::After(neighbor(1, 1)));
    assert_eq!(a.compare_in_revision(b), Some(Ordering::Less));
    assert_eq!(b.compare_in_revision(a), Some(Ordering::Greater));
    assert_eq!(b.compare_in_revision(c), Some(Ordering::Less));
    assert_eq!(a.compare_in_revision(c), Some(Ordering::Less));
    assert_eq!(c.compare_in_revision(c), Some(Ordering::Equal));
    assert_eq!(at(5, InlineObjectGap::NoObjects).compare_in_revision(b), None);
}

#[test]
fn source_range_rejects_reversed_and_incompatible_ends() {
    let start = at(5, InlineObjectGap::NoObjects);
    let end = at(3, InlineObjectGap::NoObjects);
    assert_eq!(SourceRange::new(start, end), Err(SourceRangeError::Reversed { start, end }));
    let object_end = at(5, InlineObjectGap::Before(neighbor(1, 1)));
    assert_eq!(
        SourceRange::new(start, object_end),
        Err(SourceRangeError::IncompatibleGapWitnesses {
            start,
            end: object_end,
        })
    );
    let range = SourceRange::new(end, start).unwrap();
    assert_eq!(range.start(), end);
    assert_eq!(range.end(), start);
    assert!(!range.is_empty());
    assert!(SourceRange::new(start, start).unwrap().is_empty());
}

#[test]
fn selected_object_is_the_one_object_spanned() {
    let object = neighbor(7, 3);
    let range = SourceRange::new(
        at(4, InlineObjectGap::Before(object)),
        at(4, InlineObjectGap::After(object)),
    )
    .unwrap();
    assert_eq!(selected_object_neighbor(range), Some(object));
    let between = SourceRange::new(
        at(4, InlineObjectGap::between(neighbor(1, 1), object).unwrap()),
        at(4, InlineObjectGap::between(object, neighbor(9, 5)).unwrap()),
    )
    .unwrap();
    assert_eq!(selected_object_neighbor(between), Some(object));
}

#[test]
fn no_object_is_selected_by_text_or_several_objects() {
    let text = SourceRange::new(
        at(1, InlineObjectGap::NoObjects),
        at(4, InlineObjectGap::NoObjects),
    )
    .unwrap();
    assert_eq!(selected_object_neighbor(text), None);
    let two = SourceRange::new(
        at(4, InlineObjectGap::Before(neighbor(1, 1))),
        at(4, InlineObjectGap::After(neighbor(2, 2))),
    )
    .unwrap();
    assert_eq!(selected_object_neighbor(two), None);
}
