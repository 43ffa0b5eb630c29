use lib::coordinates::{
    AtomId, BindingId, ByteOffset, ByteRange, LineOffset, LineRange, LogicalExtent, PageId,
    PageRequestId, RangeBinding, SourceRevision,
};
use lib::page::RangeContractError;

fn range(start: u64, end: u64) -> ByteRange {
    ByteRange::from_u64(start, end).unwrap()
}

#[test]
fn coordinate_identities_round_trip() {
    assert_eq!(BindingId::new(7).get(), 7);
    assert_eq!(SourceRevision::new(8).get(), 8);
    assert_eq!(PageRequestId::new(9).get(), 9);
    assert_eq!(PageId::new(10).get(), 10);
    assert_eq!(AtomId::new(11).get(), 11);
    assert_eq!(ByteOffset::new(12).get(), 12);
    assert_eq!(LineOffset::new(13).get(), 13);
}

#[test]
fn byte_range_rejects_reversed_bounds() {
    let error = ByteRange::new(ByteOffset::new(5), ByteOffset::new(4)).unwrap_err();
    assert_eq!(
        error,
        RangeContractError::ReversedByteRange {
            start: ByteOffset::new(5),
            end: ByteOffset::new(4),
        }
    );
    assert!(ByteRange::from_u64(9, 3).is_err());
}

#[test]
fn byte_range_accessors() {
    let r = range(3, 10);
    assert_eq!(r.start().get(), 3);
    assert_eq!(r.end().get(), 10);
    assert_eq!(r.len(), 7);
    assert!(!r.is_empty());
    assert!(range(4, 4).is_empty());
    assert_eq!(range(4, 4).len(), 0);
}

#[test]
fn contains_offset_includes_both_edges() {
    let r = range(3, 10);
    assert!(r.contains_offset(ByteOffset::new(3)));
    assert!(r.contains_offset(ByteOffset::new(10)));
    assert!(!r.contains_offset(ByteOffset::new(2)));
    assert!(!r.contains_offset(ByteOffset::new(11)));
}

#[test]
fn containment_and_overlap() {
    let outer = range(0, 10);
    assert!(outer.contains(range(2, 5)));
    assert!(outer.contains(outer));
    assert!(!range(2, 5).contains(outer));
    assert!(range(0, 5).overlaps(range(4, 8)));
    assert!(!range(0, 5).overlaps(range(5, 8)));
    assert!(range(4, 8).overlaps(range(0, 5)));
}

#[test]
fn intersection_is_symmetric_and_inside_both() {
    let a = range(2, 9);
    let b = range(5, 12);
    let ab = a.intersection(b).unwrap();
    let ba = b.intersection(a).unwrap();
    assert_eq!(ab, ba);
    assert_eq!((ab.start().get(), ab.end().get()), (5, 9));
    assert!(a.contains(ab));
    assert!(b.contains(ab));
}

#[test]
fn intersection_of_touching_or_disjoint_ranges_is_none() {
    assert_eq!(range(0, 5).intersection(range(5, 9)), None);
    assert_eq!(range(0, 2).intersection(range(7, 9)), None);
    assert_eq!(range(4, 4).intersection(range(0, 9)), None);
}

#[test]
fn line_range_checks_order() {
    let error = LineRange::new(LineOffset::new(3), LineOffset::new(1)).unwrap_err();
    assert_eq!(
        error,
        RangeContractError::ReversedLineRange {
            start: LineOffset::new(3),
            end: LineOffset::new(1),
        }
    );
    let lines = LineRange::new(LineOffset::new(1), LineOffset::new(4)).unwrap();
    assert_eq!(lines.start().get(), 1);
    assert_eq!(lines.end().get(), 4);
    assert_eq!(lines.len(), 3);
    assert!(!lines.is_empty());
    assert!(LineRange::new(LineOffset::new(2), LineOffset::new(2)).unwrap().is_empty());
}

#[test]
fn extent_checks_ranges() {
    let extent = LogicalExtent::new(100, 5);
    assert_eq!(extent.byte_len(), 100);
    assert_eq!(extent.line_count(), 5);
    assert_eq!(extent.check_byte_range(range(0, 100)), Ok(()));
    assert_eq!(
        extent.check_byte_range(range(50, 101)),
        Err(RangeContractError::ByteRangeOutsideExtent {
            range: range(50, 101),
            byte_len: 100,
        })
    );
    let inside = LineRange::new(LineOffset::new(0), LineOffset::new(5)).unwrap();
    assert_eq!(extent.check_line_range(inside), Ok(()));
    let outside = LineRange::new(LineOffset::new(2), LineOffset::new(6)).unwrap();
    assert_eq!(
        extent.check_line_range(outside),
        Err(RangeContractError::LineRangeOutsideExtent {
            range: outside,
            line_count: 5,
        })
    );
}

#[test]
fn binding_keeps_its_parts() {
    let extent = LogicalExtent::new(12, 2);
    let binding = RangeBinding::new(BindingId::new(1), SourceRevision::new(2), extent);
    assert_eq!(binding.binding(), BindingId::new(1));
    assert_eq!(binding.revision(), SourceRevision::new(2));
    assert_eq!(binding.extent(), extent);
}

#[test]
fn byte_offsets_order_as_their_numbers() {
    assert!(ByteOffset::new(3) < ByteOffset::new(5));
    assert!(ByteOffset::new(5) <= ByteOffset::new(5));
    assert!(!(ByteOffset::new(6) <= ByteOffset::new(5)));
    assert_eq!(ByteOffset::new(7).partial_cmp(&ByteOffset::new(2)), Some(std::cmp::Ordering::Greater));
    assert_eq!(ByteOffset::default(), ByteOffset::new(0));
    assert_eq!(ByteOffset::new(u64::MAX).max(ByteOffset::new(1)), ByteOffset::new(u64::MAX));
}
