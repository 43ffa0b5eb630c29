use lib::charge::RangeSurfaceCharge;
use lib::cleanup::{
    effect_for, effect_request, is_cancel_effect, release_for, CleanupRegistrationError,
    CleanupRequest, CleanupSlot, RangePrepublicationCleanupAcknowledgement,
    RangePrepublicationCleanupEffect, RangePrepublicationCleanupToken,
};
use lib::cleanup_ledger::CleanupLedger;
use lib::coordinates::{BindingId, ByteOffset, PageRequestId, SourceRevision};
use lib::prepublication::{
    RangePrepublicationFailure, RangePrepublicationSessionGeneration,
    RangePrepublicationValidationKey,
};
use lib::request::{PageDirection, PagePurpose, PageRequestKey};

fn generation(value: u64) -> RangePrepublicationSessionGeneration {
    RangePrepublicationSessionGeneration::new(value)
}

fn page_key(id: u64) -> PageRequestKey {
    PageRequestKey::adjacent(
        PageRequestId::new(id),
        BindingId::new(1),
        SourceRevision::new(1),
        PagePurpose::Restoration,
        ByteOffset::new(0),
        PageDirection::Forward,
        64,
    )
    .unwrap()
}

fn ledger(slots: usize) -> CleanupLedger {
    match CleanupLedger::new(slots) {
        Ok(ledger) => ledger,
        Err(error) => panic!("ledger refused: {error:?}"),
    }
}

fn token(ledger: &mut CleanupLedger, owner: u64) -> RangePrepublicationCleanupToken {
    ledger.reserve_request(generation(owner)).unwrap()
}

#[test]
fn ledger_needs_at_least_one_slot() {
    assert_eq!(
        CleanupLedger::new(0).err(),
        Some(RangePrepublicationFailure::InvalidEnvironment)
    );
    let fresh = ledger(2);
    let ownership = fresh.ownership(100);
    assert_eq!(ownership.slots, 2);
    assert_eq!(ownership.active, 0);
    assert_eq!(ownership.ready, 0);
    assert_eq!(ownership.awaiting_acknowledgement, 0);
    assert_eq!(
        ownership.retained_charge,
        RangeSurfaceCharge {
            bytes: 100 + 2 * std::mem::size_of::<CleanupSlot>(),
            items: 3,
        }
    );
    assert_eq!(
        CleanupLedger::record_charge(),
        RangeSurfaceCharge {
            bytes: std::mem::size_of::<CleanupSlot>(),
            items: 1,
        }
    );
}

#[test]
fn reservations_fill_free_slots_with_fresh_identities() {
    let mut ledger = ledger(2);
    let first = token(&mut ledger, 1);
    let second = token(&mut ledger, 1);
    assert_eq!(first.id(), 1);
    assert_eq!(second.id(), 2);
    assert_eq!(
        ledger.reserve_request(generation(1)),
        Err(CleanupRegistrationError::Full)
    );
    assert_eq!(ledger.ownership(0).active, 2);
    assert!(ledger.complete(first));
    assert!(!ledger.complete(first));
    let third = token(&mut ledger, 1);
    assert_eq!(third.id(), 3);
    assert_ne!(third, first);
    assert!(!ledger.complete(first));
}

#[test]
fn a_reserved_record_is_bound_once() {
    let mut ledger = ledger(2);
    let reserved = token(&mut ledger, 1);
    let request = CleanupRequest::Page { generation: generation(1), key: page_key(5) };
    assert!(ledger.bind_request(reserved, request));
    assert!(!ledger.bind_request(reserved, request));
}

#[test]
fn ready_records_are_served_once_and_acknowledged_once() {
    let mut ledger = ledger(3);
    let page = token(&mut ledger, 1);
    let validation = token(&mut ledger, 1);
    let page_request = CleanupRequest::Page { generation: generation(1), key: page_key(5) };
    let validation_key = RangePrepublicationValidationKey { generation: generation(1), request: 9 };
    assert!(ledger.bind_request(page, page_request));
    assert!(ledger.bind_request(validation, CleanupRequest::Validation(validation_key)));
    assert_eq!(ledger.mark_delivered_request(generation(1), page_request), Some(page));
    ledger.mark_token_ready(page);
    let ownership = ledger.ownership(0);
    assert_eq!((ownership.active, ownership.ready), (1, 1));

    let step = ledger.service(10);
    assert_eq!(
        step.effects,
        vec![RangePrepublicationCleanupEffect::ReleasePage {
            token: page,
            generation: generation(1),
            key: page_key(5),
        }]
    );
    assert_eq!(step.ready_remaining, 0);
    assert_eq!(ledger.ownership(0).awaiting_acknowledgement, 1);
    assert!(ledger.service(10).effects.is_empty());

    assert_eq!(ledger.acknowledge(page), RangePrepublicationCleanupAcknowledgement::Accepted);
    assert_eq!(ledger.acknowledge(page), RangePrepublicationCleanupAcknowledgement::Obsolete);
    assert_eq!(ledger.ownership(0).awaiting_acknowledgement, 0);
}

#[test]
fn service_respects_its_limit() {
    let mut ledger = ledger(3);
    let owner = generation(4);
    for id in 0..3 {
        let reserved = token(&mut ledger, 4);
        assert!(ledger.bind_request(reserved, CleanupRequest::Page { generation: owner, key: page_key(id) }));
    }
    ledger.mark_session_ready(owner);
    assert_eq!(ledger.ownership(0).ready, 3);
    let none = ledger.service(0);
    assert!(none.effects.is_empty());
    assert_eq!(none.ready_remaining, 3);
    let two = ledger.service(2);
    assert_eq!(two.effects.len(), 2);
    assert_eq!(two.ready_remaining, 1);
    assert!(two.effects.iter().all(|effect| is_cancel_effect(*effect)));
    let rest = ledger.service(2);
    assert_eq!(rest.effects.len(), 1);
    assert_eq!(rest.ready_remaining, 0);
}

#[test]
fn session_ready_releases_reserved_records_and_readies_the_rest() {
    let mut ledger = ledger(3);
    let owner = generation(2);
    let reserved = token(&mut ledger, 2);
    let bound = token(&mut ledger, 2);
    let other = token(&mut ledger, 3);
    let key = RangePrepublicationValidationKey { generation: owner, request: 1 };
    assert!(ledger.bind_request(bound, CleanupRequest::Validation(key)));
    assert_eq!(ledger.active_session_records(owner), 2);
    ledger.mark_session_ready(owner);
    let ownership = ledger.ownership(0);
    assert_eq!(ownership.ready, 1);
    assert_eq!(ownership.active, 1);
    assert_eq!(ledger.active_session_records(owner), 1);
    assert_eq!(ledger.active_session_records(generation(3)), 1);
    assert!(!ledger.complete(reserved));
    assert!(ledger.complete(other));
    assert_eq!(
        ledger.service(1).effects,
        vec![RangePrepublicationCleanupEffect::CancelValidation { token: bound, key }]
    );
}

#[test]
fn delivery_turns_a_pending_cancel_into_a_release() {
    let mut ledger = ledger(1);
    let owner = generation(7);
    let request = CleanupRequest::Page { generation: owner, key: page_key(1) };
    let reserved = token(&mut ledger, 7);
    assert!(ledger.bind_request(reserved, request));
    ledger.mark_token_ready(reserved);
    assert_eq!(ledger.mark_delivered_request(owner, request), Some(reserved));
    assert_eq!(
        ledger.service(1).effects,
        vec![RangePrepublicationCleanupEffect::ReleasePage {
            token: reserved,
            generation: owner,
            key: page_key(1),
        }]
    );
    assert_eq!(
        ledger.mark_delivered_request(generation(8), request),
        None
    );
}

#[test]
fn delivery_while_draining_a_cancel_queues_a_release() {
    let mut ledger = ledger(1);
    let owner = generation(7);
    let request = CleanupRequest::Page { generation: owner, key: page_key(1) };
    let reserved = token(&mut ledger, 7);
    assert!(ledger.bind_request(reserved, request));
    ledger.mark_token_ready(reserved);
    let cancel = ledger.service(1).effects;
    assert!(is_cancel_effect(cancel[0]));
    assert_eq!(ledger.mark_delivered_request(owner, request), Some(reserved));
    assert_eq!(ledger.acknowledge(reserved), RangePrepublicationCleanupAcknowledgement::Accepted);
    assert_eq!(ledger.ownership(0).ready, 1);
    assert_eq!(ledger.service(1).effects, vec![release_for(cancel[0])]);
}

#[test]
fn candidate_promotion_and_transfer() {
    let mut ledger = ledger(3);
    let owner = generation(5);
    let page_request = CleanupRequest::Page { generation: owner, key: page_key(3) };
    let resident = token(&mut ledger, 5);
    assert!(ledger.bind_request(resident, page_request));
    let candidate = token(&mut ledger, 5);
    assert!(!ledger.promote_candidate(candidate, owner, 11, &[resident]));
    assert_eq!(ledger.mark_delivered_request(owner, page_request), Some(resident));
    assert!(!ledger.promote_candidate(candidate, generation(6), 11, &[resident]));
    assert!(ledger.promote_candidate(candidate, owner, 11, &[resident]));
    assert_eq!(ledger.active_session_records(owner), 0);
    assert!(!ledger.promote_candidate(candidate, owner, 11, &[resident]));
    assert!(ledger.transfer_candidate_to_widget(candidate, &[resident]));
    assert!(!ledger.transfer_candidate_to_widget(candidate, &[resident]));
    let ownership = ledger.ownership(0);
    assert_eq!(ownership.active, 1);
}

#[test]
fn effects_name_their_requests() {
    let mut ledger = ledger(1);
    let t = token(&mut ledger, 1);
    let key = page_key(2);
    let owner = generation(1);
    let cancel = effect_for(t, CleanupRequest::Page { generation: owner, key }, false);
    let release = effect_for(t, CleanupRequest::Page { generation: owner, key }, true);
    assert_eq!(cancel, RangePrepublicationCleanupEffect::CancelPage { token: t, generation: owner, key });
    assert_eq!(release, RangePrepublicationCleanupEffect::ReleasePage { token: t, generation: owner, key });
    assert!(is_cancel_effect(cancel));
    assert!(!is_cancel_effect(release));
    assert_eq!(release_for(cancel), release);
    assert_eq!(release_for(release), release);
    assert_eq!(effect_request(cancel), CleanupRequest::Page { generation: owner, key });
    assert_eq!(cancel.token(), t);
    let candidate = effect_for(t, CleanupRequest::Candidate { generation: owner, environment_id: 4 }, false);
    assert_eq!(
        candidate,
        RangePrepublicationCleanupEffect::ReleaseCandidate { token: t, generation: owner, environment_id: 4 }
    );
    assert!(!is_cancel_effect(candidate));
    assert_eq!(release_for(candidate), candidate);
}
