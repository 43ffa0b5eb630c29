use lib::charge::{capped_charge, charge_fits, multiply_charge, nested_owner_charge, RangeSurfaceCharge};
use lib::coordinates::{BindingId, ByteOffset, SourceRevision};
use lib::dispatch::DispatchedKeys;
use lib::object::{ObjectRequestId, PresentationGeneration};
use lib::object_request::{ObjectDemandEnvelope, ObjectDirection, ObjectPurpose, ObjectRequestKey};
use lib::prepublication::{
    add_charge, checked_request_capacity, object_reservation, RangePrepublicationFailure,
    RangePrepublicationSessionGeneration, MAX_QUEUED_MUTATION_REQUESTS,
};
use lib::coordinates::PageRequestId;
use lib::request::{PageDirection, PagePurpose, PageRequestKey};

fn charge(bytes: usize, items: usize) -> RangeSurfaceCharge {
    RangeSurfaceCharge { bytes, items }
}

fn page_key(id: u64) -> PageRequestKey {
    PageRequestKey::adjacent(
        PageRequestId::new(id),
        BindingId::new(1),
        SourceRevision::new(1),
        PagePurpose::GeometryIndex,
        ByteOffset::new(0),
        PageDirection::Forward,
        64,
    )
    .unwrap()
}

#[test]
fn fits_checks_both_dimensions() {
    assert!(charge_fits(charge(10, 2), charge(10, 2)));
    assert!(!charge_fits(charge(11, 2), charge(10, 2)));
    assert!(!charge_fits(charge(10, 3), charge(10, 2)));
}

#[test]
fn multiplying_charges() {
    assert_eq!(multiply_charge(charge(10, 2), 3), Some(charge(30, 6)));
    assert_eq!(multiply_charge(charge(10, 2), 0), Some(charge(0, 0)));
    assert_eq!(multiply_charge(charge(usize::MAX, 1), 2), None);
    assert_eq!(multiply_charge(charge(1, usize::MAX), 2), None);
}

#[test]
fn nested_charge_removes_the_inline_record() {
    assert_eq!(nested_owner_charge(charge(100, 3), 40), Some(charge(60, 2)));
    assert_eq!(nested_owner_charge(charge(10, 3), 40), None);
    assert_eq!(nested_owner_charge(charge(100, 0), 40), None);
}

#[test]
fn capped_charge_takes_the_smaller_dimension() {
    assert_eq!(capped_charge(charge(5, 50), charge(10, 20)), charge(5, 20));
}

#[test]
fn adding_charges() {
    assert_eq!(add_charge(charge(1, 2), charge(3, 4)), Ok(charge(4, 6)));
    assert_eq!(
        add_charge(charge(usize::MAX, 0), charge(1, 0)),
        Err(RangePrepublicationFailure::Arithmetic)
    );
    assert_eq!(
        add_charge(charge(0, usize::MAX), charge(0, 1)),
        Err(RangePrepublicationFailure::Arithmetic)
    );
}

#[test]
fn object_reservation_charges_the_demand_ceiling() {
    let make = |max_objects: usize| {
        ObjectRequestKey::new(
            ObjectRequestId::new(1),
            BindingId::new(1),
            SourceRevision::new(1),
            PresentationGeneration::new(1),
            ObjectPurpose::GeometryTarget,
            ObjectDemandEnvelope::anchor(ByteOffset::new(3), None, ObjectDirection::Forward, max_objects, 512)
                .unwrap(),
        )
        .unwrap()
    };
    assert_eq!(object_reservation(make(7)), Ok(charge(512, 8)));
    assert_eq!(
        object_reservation(make(usize::MAX)),
        Err(RangePrepublicationFailure::Arithmetic)
    );
}

#[test]
fn request_capacity_counts_every_slot() {
    assert_eq!(MAX_QUEUED_MUTATION_REQUESTS, 2);
    assert_eq!(checked_request_capacity(1, 2, 3, 4), Some(2 * 3 + 2 * 7 + 4 + 16));
    assert_eq!(checked_request_capacity(0, 0, 0, 0), Some(20));
    assert_eq!(checked_request_capacity(usize::MAX, 1, 0, 0), None);
    assert_eq!(checked_request_capacity(usize::MAX / 2, 0, 0, 0), None);
}

#[test]
fn session_generation_round_trips() {
    assert_eq!(RangePrepublicationSessionGeneration::new(12).get(), 12);
}

#[test]
fn dispatched_keys_behave_as_a_set() {
    let mut keys: DispatchedKeys<PageRequestKey> = DispatchedKeys::with_capacity(4);
    assert_eq!(keys.len(), 0);
    assert!(keys.insert(page_key(1)));
    assert!(keys.insert(page_key(2)));
    assert!(!keys.insert(page_key(1)));
    assert_eq!(keys.len(), 2);
    assert!(keys.contains(&page_key(1)));
    assert!(!keys.contains(&page_key(3)));
    assert!(keys.remove(&page_key(1)));
    assert!(!keys.remove(&page_key(1)));
    assert!(!keys.contains(&page_key(1)));
    assert!(keys.contains(&page_key(2)));
    assert_eq!(keys.len(), 1);
}

#[test]
fn dispatched_keys_iterate_in_insertion_order_with_swap_removal() {
    let mut keys: DispatchedKeys<PageRequestKey> = DispatchedKeys::with_capacity(4);
    assert!(keys.keys().is_empty());
    keys.insert(page_key(1));
    keys.insert(page_key(2));
    keys.insert(page_key(3));
    keys.insert(page_key(2));
    assert_eq!(keys.keys(), vec![page_key(1), page_key(2), page_key(3)]);
    keys.remove(&page_key(1));
    assert_eq!(keys.keys(), vec![page_key(3), page_key(2)]);
    keys.remove(&page_key(2));
    assert_eq!(keys.keys(), vec![page_key(3)]);
}

#[test]
fn dispatched_keys_charge_their_backing() {
    let mut keys: DispatchedKeys<PageRequestKey> = DispatchedKeys::with_capacity(4);
    keys.insert(page_key(1));
    let charge = keys.allocation_charge();
    assert!(charge.items >= 4);
    assert_eq!(charge.bytes, charge.items * std::mem::size_of::<PageRequestKey>());
    keys.release_backing();
    assert_eq!(keys.len(), 0);
    assert!(!keys.contains(&page_key(1)));
    assert_eq!(keys.allocation_charge(), RangeSurfaceCharge { bytes: 0, items: 0 });
    assert_eq!(
        DispatchedKeys::<PageRequestKey>::checked_allocation_charge(3),
        Some(RangeSurfaceCharge {
            bytes: 3 * std::mem::size_of::<PageRequestKey>(),
            items: 3,
        })
    );
    assert_eq!(DispatchedKeys::<PageRequestKey>::checked_allocation_charge(usize::MAX), None);
}

#[test]
fn effect_buffer_keeps_two_effects_in_order() {
    let mut buffer = lib::prepublication::EffectBuffer::new();
    assert_eq!(buffer.len(), 0);
    buffer.push("first");
    assert_eq!(buffer.len(), 1);
    buffer.push("second");
    assert_eq!(buffer.len(), 2);
    assert_eq!(buffer.into_vec(), vec!["first", "second"]);
    assert!(lib::prepublication::EffectBuffer::<u8>::new().into_vec().is_empty());
}

fn valid_limits_with(change: impl Fn(&mut [u64; 14])) -> bool {
    let mut l: [u64; 14] = [64, 64, 4096, 64, 8, 64, 64, 64, 1024, 2, 4, 8, 256, 512];
    change(&mut l);
    lib::limits::limits_valid(
        l[0],
        l[1],
        l[2] as usize,
        l[3] as usize,
        l[4] as usize,
        l[5],
        l[6],
        l[7],
        l[8],
        l[9] as usize,
        l[10] as usize,
        l[11] as usize,
        l[12] as usize,
        l[13] as usize,
    )
}

#[test]
fn configuration_limits_are_checked() {
    assert!(valid_limits_with(|_| {}));
    assert!(!valid_limits_with(|l| l[0] = 3));
    assert!(!valid_limits_with(|l| l[1] = 3));
    assert!(!valid_limits_with(|l| l[2] = 0));
    assert!(!valid_limits_with(|l| l[3] = 0));
    assert!(!valid_limits_with(|l| l[4] = 0));
    assert!(!valid_limits_with(|l| l[5] = 2048));
    assert!(!valid_limits_with(|l| l[6] = 2048));
    assert!(!valid_limits_with(|l| l[7] = 2048));
    assert!(!valid_limits_with(|l| l[0] = 2048));
    assert!(!valid_limits_with(|l| l[1] = 2048));
    assert!(!valid_limits_with(|l| l[9] = 0));
    assert!(!valid_limits_with(|l| l[10] = 9));
    assert!(!valid_limits_with(|l| l[12] = 513));
    assert!(valid_limits_with(|l| l[5] = 1024));
}
