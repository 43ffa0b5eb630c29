use lib::coordinates::{
    AtomId, BindingId, ByteOffset, ByteRange, PageId, PageRequestId, SourceRevision,
};
use lib::page::{AtomFact, PageEdgeFact, RangeContractError, RangePage};
use lib::request::{
    PageDemandEnvelope, PageDirection, PagePurpose, PageRequest, PageRequestKey,
    MIN_PAGE_PAYLOAD_BYTES,
};

fn range(start: u64, end: u64) -> ByteRange {
    ByteRange::from_u64(start, end).unwrap()
}

fn forward_key(id: u64, anchor: u64, max: u64) -> PageRequestKey {
    PageRequestKey::adjacent(
        PageRequestId::new(id),
        BindingId::new(1),
        SourceRevision::new(2),
        PagePurpose::Viewport,
        ByteOffset::new(anchor),
        PageDirection::Forward,
        max,
    )
    .unwrap()
}

fn validation_key(candidate: u64) -> PageRequestKey {
    PageRequestKey::validation(
        PageRequestId::new(40),
        BindingId::new(1),
        SourceRevision::new(2),
        PagePurpose::Restoration,
        ByteOffset::new(candidate),
        64,
    )
    .unwrap()
}

fn page_error(result: Result<RangePage, RangeContractError>) -> RangeContractError {
    match result {
        Err(error) => error,
        Ok(_) => panic!("page was accepted"),
    }
}

fn hello_page() -> RangePage {
    RangePage::new(
        PageId::new(3),
        forward_key(1, 0, 64),
        range(0, 5),
        "hello".to_string(),
        Vec::new(),
        PageEdgeFact::DocumentBoundary,
        PageEdgeFact::Continues,
        false,
    )
    .unwrap()
}

#[test]
fn adjacent_key_keeps_its_parts() {
    let key = forward_key(5, 10, 32);
    assert_eq!(key.id(), PageRequestId::new(5));
    assert_eq!(key.binding(), BindingId::new(1));
    assert_eq!(key.revision(), SourceRevision::new(2));
    assert_eq!(key.purpose(), PagePurpose::Viewport);
    assert_eq!(key.max_payload_bytes(), 32);
    assert_eq!(
        key.demand(),
        PageDemandEnvelope::Adjacent {
            anchor: ByteOffset::new(10),
            direction: PageDirection::Forward,
            max_payload_bytes: 32,
        }
    );
    assert_eq!(key.demand().max_payload_bytes(), 32);
    let request = PageRequest::new(key);
    assert_eq!(request.key(), key);
}

#[test]
fn keys_reject_payload_limits_below_the_minimum() {
    let error = PageRequestKey::adjacent(
        PageRequestId::new(1),
        BindingId::new(1),
        SourceRevision::new(1),
        PagePurpose::Caret,
        ByteOffset::new(0),
        PageDirection::Backward,
        MIN_PAGE_PAYLOAD_BYTES - 1,
    )
    .unwrap_err();
    assert_eq!(
        error,
        RangeContractError::PagePayloadLimitTooSmall {
            max_payload_bytes: MIN_PAGE_PAYLOAD_BYTES - 1,
        }
    );
    assert!(PageRequestKey::validation(
        PageRequestId::new(1),
        BindingId::new(1),
        SourceRevision::new(1),
        PagePurpose::Caret,
        ByteOffset::new(0),
        MIN_PAGE_PAYLOAD_BYTES,
    )
    .is_ok());
}

#[test]
fn accepted_page_exposes_its_parts() {
    let page = hello_page();
    assert_eq!(page.id(), PageId::new(3));
    assert_eq!(page.key(), forward_key(1, 0, 64));
    assert_eq!(page.range(), range(0, 5));
    assert_eq!(page.text(), "hello");
    assert!(page.atoms().is_empty());
    assert_eq!(page.preceding(), PageEdgeFact::DocumentBoundary);
    assert_eq!(page.following(), PageEdgeFact::Continues);
    assert!(!page.end_of_source());
    assert_eq!(page.retained_bytes(), 5);
    let charge = page.retained_charge();
    assert_eq!(charge.items(), 1);
    assert_eq!(charge.bytes(), std::mem::size_of::<RangePage>() + 5);
}

#[test]
fn page_with_atoms_charges_their_fallbacks() {
    let atom = AtomFact::new(AtomId::new(9), range(1, 3), range(1, 3), "xy".to_string());
    let page = RangePage::new(
        PageId::new(3),
        forward_key(1, 0, 64),
        range(0, 5),
        "hello".to_string(),
        vec![atom],
        PageEdgeFact::DocumentBoundary,
        PageEdgeFact::Continues,
        false,
    )
    .unwrap();
    assert_eq!(page.retained_bytes(), 7);
    let charge = page.retained_charge();
    assert_eq!(charge.items(), 2);
    assert_eq!(
        charge.bytes(),
        std::mem::size_of::<RangePage>() + std::mem::size_of::<AtomFact>() + 7
    );
    let stored = &page.atoms()[0];
    assert_eq!(stored.id(), AtomId::new(9));
    assert_eq!(stored.global_range(), range(1, 3));
    assert_eq!(stored.fragment_range(), range(1, 3));
    assert_eq!(stored.fallback_copy(), "xy");
}

#[test]
fn payload_length_must_match_range() {
    let error = page_error(RangePage::new(
        PageId::new(3),
        forward_key(1, 0, 64),
        range(0, 5),
        "hey".to_string(),
        Vec::new(),
        PageEdgeFact::DocumentBoundary,
        PageEdgeFact::Continues,
        false,
    ));
    assert_eq!(
        error,
        RangeContractError::PayloadLengthMismatch {
            range: range(0, 5),
            actual_bytes: 3,
        }
    );
}

#[test]
fn edge_facts_must_match_document_edges() {
    let start_mismatch = page_error(RangePage::new(
        PageId::new(3),
        forward_key(1, 0, 64),
        range(0, 5),
        "hello".to_string(),
        Vec::new(),
        PageEdgeFact::Continues,
        PageEdgeFact::Continues,
        false,
    ));
    assert_eq!(start_mismatch, RangeContractError::MalformedEdgeFacts);
    let end_mismatch = page_error(RangePage::new(
        PageId::new(3),
        forward_key(1, 0, 64),
        range(0, 5),
        "hello".to_string(),
        Vec::new(),
        PageEdgeFact::DocumentBoundary,
        PageEdgeFact::Continues,
        true,
    ));
    assert_eq!(end_mismatch, RangeContractError::MalformedEdgeFacts);
}

#[test]
fn page_longer_than_the_demand_is_outside_the_envelope() {
    let key = forward_key(1, 0, 4);
    let error = page_error(RangePage::new(
        PageId::new(3),
        key,
        range(0, 5),
        "hello".to_string(),
        Vec::new(),
        PageEdgeFact::DocumentBoundary,
        PageEdgeFact::Continues,
        false,
    ));
    assert_eq!(
        error,
        RangeContractError::ReturnedRangeOutsideEnvelope {
            demand: key.demand(),
            returned: range(0, 5),
        }
    );
}

#[test]
fn forward_page_must_start_at_its_anchor() {
    let key = forward_key(1, 2, 64);
    let error = page_error(RangePage::new(
        PageId::new(3),
        key,
        range(3, 5),
        "lo".to_string(),
        Vec::new(),
        PageEdgeFact::Continues,
        PageEdgeFact::Continues,
        false,
    ));
    assert_eq!(
        error,
        RangeContractError::ReturnedRangeOutsideEnvelope {
            demand: key.demand(),
            returned: range(3, 5),
        }
    );
}

#[test]
fn empty_forward_page_must_reach_the_document_end() {
    let error = page_error(RangePage::new(
        PageId::new(3),
        forward_key(1, 5, 64),
        range(5, 5),
        String::new(),
        Vec::new(),
        PageEdgeFact::Continues,
        PageEdgeFact::Continues,
        false,
    ));
    assert_eq!(
        error,
        RangeContractError::NonProgressingPage {
            anchor: ByteOffset::new(5),
            direction: PageDirection::Forward,
        }
    );
    let last = RangePage::new(
        PageId::new(3),
        forward_key(1, 5, 64),
        range(5, 5),
        String::new(),
        Vec::new(),
        PageEdgeFact::Continues,
        PageEdgeFact::DocumentBoundary,
        true,
    );
    assert!(last.is_ok());
}

#[test]
fn validation_page_must_cover_its_candidate() {
    let key = validation_key(9);
    let error = page_error(RangePage::new(
        PageId::new(3),
        key,
        range(0, 5),
        "hello".to_string(),
        Vec::new(),
        PageEdgeFact::DocumentBoundary,
        PageEdgeFact::Continues,
        false,
    ));
    assert_eq!(
        error,
        RangeContractError::ReturnedRangeOutsideEnvelope {
            demand: key.demand(),
            returned: range(0, 5),
        }
    );
}

#[test]
fn candidate_boundaries_are_answered_exactly() {
    let text = "h\u{e9}llo".to_string();
    let boundary = RangePage::new(
        PageId::new(3),
        validation_key(3),
        range(0, 6),
        text.clone(),
        Vec::new(),
        PageEdgeFact::DocumentBoundary,
        PageEdgeFact::Continues,
        false,
    )
    .unwrap();
    assert_eq!(boundary.candidate_is_boundary(), Some(true));
    let inside = RangePage::new(
        PageId::new(3),
        validation_key(2),
        range(0, 6),
        text,
        Vec::new(),
        PageEdgeFact::DocumentBoundary,
        PageEdgeFact::Continues,
        false,
    )
    .unwrap();
    assert_eq!(inside.candidate_is_boundary(), Some(false));
    assert_eq!(hello_page().candidate_is_boundary(), None);
}

#[test]
fn duplicate_atoms_are_rejected() {
    let first = AtomFact::new(AtomId::new(9), range(0, 1), range(0, 1), String::new());
    let second = AtomFact::new(AtomId::new(9), range(2, 3), range(2, 3), String::new());
    let error = page_error(RangePage::new(
        PageId::new(3),
        forward_key(1, 0, 64),
        range(0, 5),
        "hello".to_string(),
        vec![first, second],
        PageEdgeFact::DocumentBoundary,
        PageEdgeFact::Continues,
        false,
    ));
    assert_eq!(error, RangeContractError::DuplicateAtomFact { atom: AtomId::new(9) });
}

#[test]
fn malformed_atom_ranges_are_rejected() {
    let cases = vec![
        // Empty global range.
        AtomFact::new(AtomId::new(1), range(2, 2), range(2, 2), String::new()),
        // Fragment differs from the part of the global range inside the page.
        AtomFact::new(AtomId::new(2), range(3, 9), range(3, 4), String::new()),
        // Fragment splits a character.
        AtomFact::new(AtomId::new(3), range(2, 3), range(2, 3), String::new()),
    ];
    for atom in cases {
        let id = atom.id();
        let global_range = atom.global_range();
        let fragment_range = atom.fragment_range();
        let error = page_error(RangePage::new(
            PageId::new(3),
            forward_key(1, 0, 64),
            range(0, 6),
            "h\u{e9}llo".to_string(),
            vec![atom],
            PageEdgeFact::DocumentBoundary,
            PageEdgeFact::Continues,
            false,
        ));
        assert_eq!(
            error,
            RangeContractError::MalformedAtomRange {
                atom: id,
                global_range,
                fragment_range,
            }
        );
    }
}

#[test]
fn atoms_must_not_go_backwards() {
    let later = AtomFact::new(AtomId::new(1), range(3, 5), range(3, 5), String::new());
    let earlier = AtomFact::new(AtomId::new(2), range(1, 2), range(1, 2), String::new());
    let error = page_error(RangePage::new(
        PageId::new(3),
        forward_key(1, 0, 64),
        range(0, 5),
        "hello".to_string(),
        vec![later, earlier],
        PageEdgeFact::DocumentBoundary,
        PageEdgeFact::Continues,
        false,
    ));
    assert_eq!(
        error,
        RangeContractError::MalformedAtomRange {
            atom: AtomId::new(2),
            global_range: range(1, 2),
            fragment_range: range(1, 2),
        }
    );
}

#[test]
fn clone_for_request_answers_the_new_demand() {
    let atom = AtomFact::new(AtomId::new(9), range(1, 3), range(1, 3), "xy".to_string());
    let page = RangePage::new(
        PageId::new(3),
        forward_key(1, 0, 64),
        range(0, 5),
        "hello".to_string(),
        vec![atom],
        PageEdgeFact::DocumentBoundary,
        PageEdgeFact::Continues,
        false,
    )
    .unwrap();
    let other = forward_key(2, 0, 32);
    let copy = page.clone_for_request(other).unwrap();
    assert_eq!(copy.key(), other);
    assert_eq!(copy.id(), page.id());
    assert_eq!(copy.text(), page.text());
    assert_eq!(copy.atoms(), page.atoms());
    assert_eq!(copy.retained_charge(), page.retained_charge());
    let too_small = forward_key(3, 0, 4);
    assert_eq!(
        page_error(page.clone_for_request(too_small)),
        RangeContractError::ReturnedRangeOutsideEnvelope {
            demand: too_small.demand(),
            returned: range(0, 5),
        }
    );
}

#[test]
fn atom_facts_reconcile_by_identity_range_and_fallback() {
    let a = AtomFact::new(AtomId::new(9), range(1, 9), range(1, 5), "xy".to_string());
    let b = AtomFact::new(AtomId::new(9), range(1, 9), range(5, 9), "xy".to_string());
    let c = AtomFact::new(AtomId::new(9), range(1, 9), range(1, 5), "z".to_string());
    assert!(a.reconciles_with(&b));
    assert!(!a.reconciles_with(&c));
}
