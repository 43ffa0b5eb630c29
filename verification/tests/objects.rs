use lib::coordinates::{BindingId, ByteOffset, ByteRange, SourceRevision};
use lib::object::{
    InlineObjectPresentation, ObjectContractError, ObjectPageId, ObjectRequestId,
    PresentationColor, PresentationGeneration, PresentationMetrics,
};
use lib::object_page::{InlineObjectFact, ObjectPage, ObjectPageEdgeFact};
use lib::object_request::{
    ObjectCursor, ObjectDemandEnvelope, ObjectDirection, ObjectPurpose, ObjectRequest,
    ObjectRequestKey,
};
use lib::position::{InlineObjectId, InlineObjectNeighbor, InlineObjectOrder};

fn range(start: u64, end: u64) -> ByteRange {
    ByteRange::from_u64(start, end).unwrap()
}

fn cursor(anchor: u64, order: u128, id: u128) -> ObjectCursor {
    ObjectCursor::new(ByteOffset::new(anchor), InlineObjectOrder::new(order), InlineObjectId::new(id))
}

fn metrics() -> PresentationMetrics {
    PresentationMetrics {
        width: 12.0f32.to_bits(),
        height: 10.0f32.to_bits(),
        baseline: 8.0f32.to_bits(),
        background: None,
    }
}

fn presentation(display: &str) -> InlineObjectPresentation {
    InlineObjectPresentation::new(77, display.to_string(), metrics(), 3, true).unwrap()
}

fn with_metrics(width: f32, height: f32, baseline: f32) -> Result<InlineObjectPresentation, ObjectContractError> {
    InlineObjectPresentation::new(
        77,
        "chip".to_string(),
        PresentationMetrics {
            width: width.to_bits(),
            height: height.to_bits(),
            baseline: baseline.to_bits(),
            background: None,
        },
        3,
        true,
    )
}

fn with_background(hue: f32) -> InlineObjectPresentation {
    InlineObjectPresentation::new(
        77,
        "chip".to_string(),
        PresentationMetrics {
            background: Some(PresentationColor {
                h: hue.to_bits(),
                s: 0.5f32.to_bits(),
                l: 0.5f32.to_bits(),
                a: 1.0f32.to_bits(),
            }),
            ..metrics()
        },
        3,
        true,
    )
    .unwrap()
}

fn fact(anchor: u64, order: u128, id: u128, fallback: &str) -> InlineObjectFact {
    InlineObjectFact::new(
        InlineObjectId::new(id),
        ByteOffset::new(anchor),
        InlineObjectOrder::new(order),
        fallback.to_string(),
        presentation("chip"),
    )
}

fn key_for(demand: ObjectDemandEnvelope) -> ObjectRequestKey {
    ObjectRequestKey::new(
        ObjectRequestId::new(4),
        BindingId::new(1),
        SourceRevision::new(2),
        PresentationGeneration::new(3),
        ObjectPurpose::Viewport,
        demand,
    )
    .unwrap()
}

fn forward_range(cursor: Option<ObjectCursor>, max_objects: usize) -> ObjectRequestKey {
    key_for(
        ObjectDemandEnvelope::range(range(0, 20), cursor, ObjectDirection::Forward, max_objects, 1 << 20)
            .unwrap(),
    )
}

fn page_error(result: Result<ObjectPage, ObjectContractError>) -> ObjectContractError {
    match result {
        Err(error) => error,
        Ok(_) => panic!("object page was accepted"),
    }
}

#[test]
fn object_identities_round_trip() {
    assert_eq!(PresentationGeneration::new(3).get(), 3);
    assert_eq!(ObjectRequestId::new(4).get(), 4);
    assert_eq!(ObjectPageId::new(5).get(), 5);
    let c = cursor(7, 8, 9);
    assert_eq!(c.anchor(), ByteOffset::new(7));
    assert_eq!(c.order(), InlineObjectOrder::new(8));
    assert_eq!(c.id(), InlineObjectId::new(9));
    assert_eq!(
        c.neighbor(),
        InlineObjectNeighbor::new(InlineObjectId::new(9), InlineObjectOrder::new(8))
    );
}

#[test]
fn presentation_keeps_its_facts() {
    let p = presentation("chip");
    assert_eq!(p.presentation_key(), 77);
    assert_eq!(p.display(), "chip");
    assert_eq!(p.semantic_state(), 3);
    assert!(p.activation_eligible());
    assert_eq!(p.payload_allocation_bytes(), 4);
    assert_eq!(p.metrics(), metrics());
    let copy = p.duplicate();
    assert!(copy.same_facts(&p));
    let colored = InlineObjectPresentation::new(
        77,
        "chip".to_string(),
        PresentationMetrics {
            background: Some(PresentationColor { h: 1, s: 2, l: 3, a: 4 }),
            ..metrics()
        },
        3,
        true,
    )
    .unwrap();
    assert!(!colored.same_facts(&p));
    assert!(colored != p);
    assert!(p.clone() == p);
}

#[test]
fn presentation_rejects_invalid_metrics() {
    let invalid = Err(ObjectContractError::InvalidPresentationMetrics);
    assert_eq!(with_metrics(0.0, 10.0, 8.0).map(|p| p.presentation_key()), invalid);
    assert_eq!(with_metrics(-0.0, 10.0, 8.0).map(|p| p.presentation_key()), invalid);
    assert_eq!(with_metrics(12.0, -1.0, 0.0).map(|p| p.presentation_key()), invalid);
    assert_eq!(with_metrics(12.0, 10.0, -0.5).map(|p| p.presentation_key()), invalid);
    assert_eq!(with_metrics(12.0, 10.0, 10.5).map(|p| p.presentation_key()), invalid);
    assert_eq!(with_metrics(f32::NAN, 10.0, 8.0).map(|p| p.presentation_key()), invalid);
    assert_eq!(with_metrics(f32::INFINITY, 10.0, 8.0).map(|p| p.presentation_key()), invalid);
    assert_eq!(with_metrics(12.0, f32::INFINITY, 8.0).map(|p| p.presentation_key()), invalid);
    assert_eq!(with_metrics(12.0, 10.0, f32::NAN).map(|p| p.presentation_key()), invalid);
    assert_eq!(with_metrics(12.0, 10.0, 10.0).map(|p| p.presentation_key()), Ok(77));
    assert_eq!(with_metrics(12.0, 10.0, 0.0).map(|p| p.presentation_key()), Ok(77));
    assert_eq!(with_metrics(12.0, 10.0, -0.0).map(|p| p.presentation_key()), Ok(77));
    assert_eq!(with_metrics(1.0e-45, 1.0e-45, 0.0).map(|p| p.presentation_key()), Ok(77));
}

#[test]
fn presentation_metrics_compare_as_floating_point_values() {
    let positive = with_metrics(12.0, 10.0, 0.0).unwrap();
    let negative = with_metrics(12.0, 10.0, -0.0).unwrap();
    assert!(positive.same_facts(&negative));
    assert!(negative.same_facts(&positive));
    assert!(positive == negative);
    let nan = with_background(f32::NAN);
    assert!(!nan.same_facts(&nan));
    assert!(nan != nan.clone());
    let red = with_background(0.0);
    assert!(red.same_facts(&with_background(-0.0)));
    assert!(!red.same_facts(&with_background(0.5)));
}

#[test]
fn demands_reject_zero_limits_and_stray_cursors() {
    assert_eq!(
        ObjectDemandEnvelope::range(range(0, 9), None, ObjectDirection::Forward, 0, 64),
        Err(ObjectContractError::ZeroObjectLimit)
    );
    assert_eq!(
        ObjectDemandEnvelope::anchor(ByteOffset::new(3), None, ObjectDirection::Forward, 1, 0),
        Err(ObjectContractError::ZeroRetainedByteLimit)
    );
    assert_eq!(
        ObjectDemandEnvelope::range(range(0, 9), Some(cursor(10, 1, 1)), ObjectDirection::Forward, 1, 64),
        Err(ObjectContractError::CursorOutsideEnvelope)
    );
    assert_eq!(
        ObjectDemandEnvelope::anchor(ByteOffset::new(3), Some(cursor(4, 1, 1)), ObjectDirection::Backward, 1, 64),
        Err(ObjectContractError::CursorOutsideEnvelope)
    );
}

#[test]
fn demand_accessors() {
    let demand =
        ObjectDemandEnvelope::range(range(2, 9), Some(cursor(9, 1, 1)), ObjectDirection::Backward, 5, 64)
            .unwrap();
    assert_eq!(demand.cursor(), Some(cursor(9, 1, 1)));
    assert_eq!(demand.direction(), ObjectDirection::Backward);
    assert_eq!(demand.max_objects(), 5);
    assert_eq!(demand.max_retained_bytes(), 64);
    assert!(demand.contains_anchor(ByteOffset::new(2)));
    assert!(demand.contains_anchor(ByteOffset::new(9)));
    assert!(!demand.contains_anchor(ByteOffset::new(10)));
    assert_eq!(demand.validate_local(), Ok(()));
    let anchored =
        ObjectDemandEnvelope::anchor(ByteOffset::new(3), None, ObjectDirection::Forward, 1, 8).unwrap();
    assert!(anchored.contains_anchor(ByteOffset::new(3)));
    assert!(!anchored.contains_anchor(ByteOffset::new(4)));
}

#[test]
fn request_key_keeps_its_parts() {
    let demand =
        ObjectDemandEnvelope::anchor(ByteOffset::new(3), None, ObjectDirection::Forward, 1, 8).unwrap();
    let key = key_for(demand);
    assert_eq!(key.id(), ObjectRequestId::new(4));
    assert_eq!(key.binding(), BindingId::new(1));
    assert_eq!(key.revision(), SourceRevision::new(2));
    assert_eq!(key.presentation_generation(), PresentationGeneration::new(3));
    assert_eq!(key.purpose(), ObjectPurpose::Viewport);
    assert_eq!(key.demand(), demand);
    assert_eq!(ObjectRequest::new(key).key(), key);
}

#[test]
fn complete_forward_page_is_accepted_and_charged() {
    let objects = vec![fact(2, 1, 10, "ab"), fact(2, 2, 11, ""), fact(5, 1, 12, "c")];
    let page = ObjectPage::new(
        ObjectPageId::new(6),
        forward_range(None, 8),
        objects.clone(),
        ObjectPageEdgeFact::EnvelopeBoundary,
        ObjectPageEdgeFact::EnvelopeBoundary,
        true,
        None,
    )
    .unwrap();
    assert_eq!(page.id(), ObjectPageId::new(6));
    assert_eq!(page.key(), forward_range(None, 8));
    assert_eq!(page.objects(), objects.as_slice());
    assert!(page.complete());
    assert_eq!(page.continuation(), None);
    let charge = page.retained_charge();
    assert_eq!(charge.objects(), 3);
    assert_eq!(charge.presentation_bytes(), 3 + 3 * 4);
    assert_eq!(
        charge.bytes(),
        std::mem::size_of::<ObjectPage>() + 3 * std::mem::size_of::<InlineObjectFact>() + 15
    );
    let first = &page.objects()[0];
    assert_eq!(first.id(), InlineObjectId::new(10));
    assert_eq!(first.anchor(), ByteOffset::new(2));
    assert_eq!(first.order(), InlineObjectOrder::new(1));
    assert_eq!(first.fallback_copy(), "ab");
    assert_eq!(first.presentation().display(), "chip");
    assert_eq!(first.cursor(), cursor(2, 1, 10));
}

#[test]
fn partial_page_names_its_continuation() {
    let objects = vec![fact(2, 1, 10, ""), fact(4, 1, 11, "")];
    let page = ObjectPage::new(
        ObjectPageId::new(6),
        forward_range(None, 8),
        objects,
        ObjectPageEdgeFact::EnvelopeBoundary,
        ObjectPageEdgeFact::Continues(cursor(4, 1, 11)),
        false,
        Some(cursor(4, 1, 11)),
    )
    .unwrap();
    assert_eq!(page.continuation(), Some(cursor(4, 1, 11)));
    assert_eq!(page.following(), ObjectPageEdgeFact::Continues(cursor(4, 1, 11)));
    assert_eq!(page.preceding(), ObjectPageEdgeFact::EnvelopeBoundary);
}

#[test]
fn page_rejections() {
    let boundary = ObjectPageEdgeFact::EnvelopeBoundary;
    let build = |key: ObjectRequestKey, objects: Vec<InlineObjectFact>| {
        page_error(ObjectPage::new(ObjectPageId::new(6), key, objects, boundary, boundary, true, None))
    };
    assert_eq!(
        build(forward_range(None, 1), vec![fact(2, 1, 10, ""), fact(3, 1, 11, "")]),
        ObjectContractError::ObjectCountLimitExceeded
    );
    assert_eq!(
        build(forward_range(None, 8), vec![fact(25, 1, 10, "")]),
        ObjectContractError::ResponseOutsideEnvelope
    );
    assert_eq!(
        build(forward_range(None, 8), vec![fact(2, 1, 10, ""), fact(3, 1, 10, "")]),
        ObjectContractError::DuplicateObjectIdentity { object: InlineObjectId::new(10) }
    );
    assert_eq!(
        build(forward_range(None, 8), vec![fact(2, 1, 10, ""), fact(2, 1, 11, "")]),
        ObjectContractError::DuplicateObjectOrder {
            anchor: ByteOffset::new(2),
            order: InlineObjectOrder::new(1),
        }
    );
    assert_eq!(
        build(forward_range(None, 8), vec![fact(3, 1, 10, ""), fact(2, 1, 11, "")]),
        ObjectContractError::ObjectsOutOfOrder
    );
}

#[test]
fn objects_must_progress_past_the_request_cursor() {
    let after = cursor(4, 2, 20);
    let key = forward_range(Some(after), 8);
    let continues = ObjectPageEdgeFact::Continues(after);
    let boundary = ObjectPageEdgeFact::EnvelopeBoundary;
    let build = |objects: Vec<InlineObjectFact>| {
        page_error(ObjectPage::new(ObjectPageId::new(6), key, objects, continues, boundary, true, None))
    };
    assert_eq!(
        build(vec![fact(9, 1, 20, "")]),
        ObjectContractError::DuplicateObjectIdentity { object: InlineObjectId::new(20) }
    );
    assert_eq!(
        build(vec![fact(4, 2, 21, "")]),
        ObjectContractError::DuplicateObjectOrder {
            anchor: ByteOffset::new(4),
            order: InlineObjectOrder::new(2),
        }
    );
    assert_eq!(build(vec![fact(3, 9, 21, "")]), ObjectContractError::ResponseOutsideEnvelope);
    assert!(ObjectPage::new(
        ObjectPageId::new(6),
        key,
        vec![fact(4, 3, 21, "")],
        continues,
        boundary,
        true,
        None
    )
    .is_ok());
}

#[test]
fn continuation_must_match_completion_and_edges() {
    let boundary = ObjectPageEdgeFact::EnvelopeBoundary;
    assert_eq!(
        page_error(ObjectPage::new(
            ObjectPageId::new(6),
            forward_range(None, 8),
            Vec::new(),
            boundary,
            boundary,
            false,
            None,
        )),
        ObjectContractError::NonProgressingObjectPage
    );
    assert_eq!(
        page_error(ObjectPage::new(
            ObjectPageId::new(6),
            forward_range(None, 8),
            vec![fact(2, 1, 10, "")],
            boundary,
            ObjectPageEdgeFact::Continues(cursor(2, 1, 10)),
            false,
            Some(cursor(3, 1, 10)),
        )),
        ObjectContractError::MalformedContinuation
    );
    assert_eq!(
        page_error(ObjectPage::new(
            ObjectPageId::new(6),
            forward_range(None, 8),
            vec![fact(2, 1, 10, "")],
            boundary,
            boundary,
            false,
            Some(cursor(2, 1, 10)),
        )),
        ObjectContractError::MalformedContinuation
    );
}

#[test]
fn retained_bytes_limit_is_enforced() {
    let key = key_for(
        ObjectDemandEnvelope::range(range(0, 20), None, ObjectDirection::Forward, 8, 16).unwrap(),
    );
    let boundary = ObjectPageEdgeFact::EnvelopeBoundary;
    assert_eq!(
        page_error(ObjectPage::new(
            ObjectPageId::new(6),
            key,
            vec![fact(2, 1, 10, "")],
            boundary,
            boundary,
            true,
            None,
        )),
        ObjectContractError::RetainedByteLimitExceeded
    );
}

#[test]
fn pages_reconcile_when_every_fact_matches() {
    let boundary = ObjectPageEdgeFact::EnvelopeBoundary;
    let make = |request: u64, fallback: &str| {
        let key = ObjectRequestKey::new(
            ObjectRequestId::new(request),
            BindingId::new(1),
            SourceRevision::new(2),
            PresentationGeneration::new(3),
            ObjectPurpose::Clipboard,
            ObjectDemandEnvelope::range(range(0, 20), None, ObjectDirection::Forward, 8, 1 << 20)
                .unwrap(),
        )
        .unwrap();
        ObjectPage::new(ObjectPageId::new(6), key, vec![fact(2, 1, 10, fallback)], boundary, boundary, true, None)
            .unwrap()
    };
    assert!(make(1, "a").reconciles_with(&make(2, "a")));
    assert!(!make(1, "a").reconciles_with(&make(1, "b")));
}

#[test]
fn object_facts_reconcile_only_when_equal() {
    assert!(fact(2, 1, 10, "a").reconciles_with(&fact(2, 1, 10, "a")));
    assert!(!fact(2, 1, 10, "a").reconciles_with(&fact(2, 2, 10, "a")));
    let expected = std::mem::size_of::<InlineObjectFact>() + 1 + 4;
    assert_eq!(fact(2, 1, 10, "a").retained_bytes(), Ok(expected));
}

#[test]
fn cursors_order_by_anchor_then_order_then_identity() {
    assert!(cursor(1, 9, 9) < cursor(2, 0, 0));
    assert!(cursor(2, 1, 9) < cursor(2, 2, 0));
    assert!(cursor(2, 2, 1) < cursor(2, 2, 3));
    assert!(cursor(2, 2, 3) <= cursor(2, 2, 3));
    assert!(!(cursor(3, 0, 0) < cursor(2, 9, 9)));
    assert_eq!(cursor(4, 1, 1).partial_cmp(&cursor(4, 1, 1)), Some(std::cmp::Ordering::Equal));
    assert_eq!(cursor(4, 1, 2).cmp(&cursor(4, 1, 1)), std::cmp::Ordering::Greater);
    let c = cursor(4, 5, 6);
    assert_eq!(c.anchor(), ByteOffset::new(4));
    assert_eq!(c.order(), InlineObjectOrder::new(5));
    assert_eq!(c.id(), InlineObjectId::new(6));
    assert_eq!(c.neighbor(), InlineObjectNeighbor::new(InlineObjectId::new(6), InlineObjectOrder::new(5)));
}

#[test]
fn a_page_with_a_nan_background_does_not_reconcile_with_itself() {
    let boundary = ObjectPageEdgeFact::EnvelopeBoundary;
    let key = ObjectRequestKey::new(
        ObjectRequestId::new(1),
        BindingId::new(1),
        SourceRevision::new(2),
        PresentationGeneration::new(3),
        ObjectPurpose::Clipboard,
        ObjectDemandEnvelope::range(range(0, 20), None, ObjectDirection::Forward, 8, 1 << 20).unwrap(),
    )
    .unwrap();
    let object = InlineObjectFact::new(
        InlineObjectId::new(10),
        ByteOffset::new(2),
        InlineObjectOrder::new(1),
        "a".to_string(),
        with_background(f32::NAN),
    );
    let page = ObjectPage::new(ObjectPageId::new(6), key, vec![object], boundary, boundary, true, None).unwrap();
    assert!(!page.reconciles_with(&page));
    assert!(page.objects()[0] != page.objects()[0].clone());
}
