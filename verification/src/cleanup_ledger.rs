use vstd::prelude::*;

use crate::charge::RangeSurfaceCharge;
use crate::cleanup::{
    cancels, effect_for, effect_of, effect_request, is_cancel_effect, release_for, release_of,
    request_of, token_of, CleanupOwner, CleanupRegistrationError, CleanupRequest, CleanupSlot, CleanupState,
    RangePrepublicationCleanupAcknowledgement, RangePrepublicationCleanupEffect,
    RangePrepublicationCleanupOwnership, RangePrepublicationCleanupStep,
    RangePrepublicationCleanupToken,
};
use crate::prepublication::{RangePrepublicationFailure, RangePrepublicationSessionGeneration};

verus! {

/// The token naming record `slot` as it is now.
pub open(crate) spec fn token_at(records: Seq<CleanupSlot>, slot: int) -> RangePrepublicationCleanupToken {
    RangePrepublicationCleanupToken { slot: slot as u32, id: records[slot].id }
}

/// `token` names a record that still carries the identity it was issued with.
pub open(crate) spec fn names(records: Seq<CleanupSlot>, token: RangePrepublicationCleanupToken) -> bool {
    token.slot < records.len() && records[token.slot_index() as int].id == token.id
}

/// Number of ready records among the first `n`.
pub open spec fn ready_count(records: Seq<CleanupSlot>, n: int) -> int
    decreases n,
{
    if n <= 0 {
        0
    } else {
        ready_count(records, n - 1) + if records[n - 1].state is Ready {
            1int
        } else {
            0
        }
    }
}

/// Number of active records among the first `n`.
pub open spec fn active_count(records: Seq<CleanupSlot>, n: int) -> int
    decreases n,
{
    if n <= 0 {
        0
    } else {
        active_count(records, n - 1) + if records[n - 1].state is Active {
            1int
        } else {
            0
        }
    }
}

/// Number of records handed out for cleanup among the first `n`.
pub open spec fn draining_count(records: Seq<CleanupSlot>, n: int) -> int
    decreases n,
{
    if n <= 0 {
        0
    } else {
        draining_count(records, n - 1) + if records[n - 1].state is Draining {
            1int
        } else {
            0
        }
    }
}

/// Number of live records owned by session `owner` among the first `n`.
pub open spec fn session_count(
    records: Seq<CleanupSlot>,
    owner: RangePrepublicationSessionGeneration,
    n: int,
) -> int
    decreases n,
{
    if n <= 0 {
        0
    } else {
        session_count(records, owner, n - 1) + if records[n - 1].owner == Some(
            CleanupOwner::Session(owner),
        ) && !(records[n - 1].state is Free) {
            1int
        } else {
            0
        }
    }
}

/// Whether a service pass with `limit` hands out record `i`: it is ready and fewer than
/// `limit` ready records precede it.
pub open spec fn drains(records: Seq<CleanupSlot>, limit: usize, i: int) -> bool {
    records[i].state is Ready && ready_count(records, i) < limit
}

/// The records after one service pass with `limit`.
pub open spec fn serviced(records: Seq<CleanupSlot>, limit: usize) -> Seq<CleanupSlot> {
    Seq::new(
        records.len(),
        |i: int|
            if drains(records, limit, i) {
                CleanupSlot {
                    id: records[i].id,
                    owner: records[i].owner,
                    state: CleanupState::Draining { effect: records[i].state->Ready_0, followup: None },
                }
            } else {
                records[i]
            },
    )
}

/// The records after acknowledging `token`: a handed-out record becomes ready with its
/// follow-up release, or free when there is none.
pub open spec fn acknowledged(
    records: Seq<CleanupSlot>,
    token: RangePrepublicationCleanupToken,
) -> Seq<CleanupSlot> {
    if names(records, token) && records[token.slot_index() as int].state is Draining {
        let record = records[token.slot_index() as int];
        records.update(
            token.slot_index() as int,
            CleanupSlot {
                id: record.id,
                owner: record.owner,
                state: match record.state->followup {
                    Some(effect) => CleanupState::Ready(effect),
                    None => CleanupState::Free,
                },
            },
        )
    } else {
        records
    }
}

/// The record after it is made ready for cleanup: a reserved record is freed, an active
/// one carries the effect for its request; others are unchanged.
pub open spec fn readied(record: CleanupSlot, token: RangePrepublicationCleanupToken) -> CleanupSlot {
    match record.state {
        CleanupState::Active { request: CleanupRequest::Reserved, .. } => CleanupSlot {
            id: record.id,
            owner: None,
            state: CleanupState::Free,
        },
        CleanupState::Active { request, delivered } => CleanupSlot {
            id: record.id,
            owner: record.owner,
            state: CleanupState::Ready(effect_of(token, request, delivered)),
        },
        _ => record,
    }
}

/// The records after every record of session `owner` is made ready for cleanup.
pub open spec fn session_readied(
    records: Seq<CleanupSlot>,
    owner: RangePrepublicationSessionGeneration,
) -> Seq<CleanupSlot> {
    Seq::new(
        records.len(),
        |i: int|
            if records[i].owner == Some(CleanupOwner::Session(owner)) {
                readied(records[i], token_at(records, i))
            } else {
                records[i]
            },
    )
}

/// Whether a resident record is owned by `owner` and holds a delivered page or object page.
pub open spec fn resident_ok(
    records: Seq<CleanupSlot>,
    token: RangePrepublicationCleanupToken,
    owner: CleanupOwner,
) -> bool {
    &&& names(records, token)
    &&& records[token.slot_index() as int].owner == Some(owner)
    &&& records[token.slot_index() as int].state matches CleanupState::Active { request, delivered }
    &&& delivered
    &&& (request is Page || request is ObjectPage)
}

/// Whether every listed resident record is owned by `owner` and delivered.
pub open spec fn residents_ok(
    records: Seq<CleanupSlot>,
    resident: Seq<RangePrepublicationCleanupToken>,
    owner: CleanupOwner,
) -> bool {
    forall|k: int| 0 <= k < resident.len() ==> #[trigger] resident_ok(records, resident[k], owner)
}

/// Whether slot `i` is named by one of the resident tokens.
pub open(crate) spec fn listed(resident: Seq<RangePrepublicationCleanupToken>, i: int) -> bool {
    exists|k: int| 0 <= k < resident.len() && #[trigger] resident[k].slot == i
}

/// The records with every listed resident handed to `owner`.
pub open spec fn reowned(
    records: Seq<CleanupSlot>,
    resident: Seq<RangePrepublicationCleanupToken>,
    owner: CleanupOwner,
) -> Seq<CleanupSlot> {
    Seq::new(
        records.len(),
        |i: int|
            if listed(resident, i) {
                CleanupSlot { id: records[i].id, owner: Some(owner), state: records[i].state }
            } else {
                records[i]
            },
    )
}

/// Whether record `i` stands for `request` of session `owner`, live or awaiting cleanup.
pub open spec fn holds_request(
    record: CleanupSlot,
    owner: RangePrepublicationSessionGeneration,
    request: CleanupRequest,
) -> bool {
    &&& record.owner == Some(CleanupOwner::Session(owner))
    &&& match record.state {
        CleanupState::Active { request: current, .. } => current == request,
        CleanupState::Ready(effect) => request_of(effect) == request,
        CleanupState::Draining { effect, .. } => request_of(effect) == request,
        CleanupState::Free => false,
    }
}

/// The record once its request is known to be delivered: an active record is marked
/// delivered, a pending cancel becomes a release, and a handed-out cancel gains a release
/// follow-up.
pub open spec fn delivered_record(record: CleanupSlot) -> CleanupSlot {
    match record.state {
        CleanupState::Active { request, .. } => CleanupSlot {
            id: record.id,
            owner: record.owner,
            state: CleanupState::Active { request, delivered: true },
        },
        CleanupState::Ready(effect) => CleanupSlot {
            id: record.id,
            owner: record.owner,
            state: CleanupState::Ready(release_of(effect)),
        },
        CleanupState::Draining { effect, followup } => CleanupSlot {
            id: record.id,
            owner: record.owner,
            state: CleanupState::Draining {
                effect,
                followup: if cancels(effect) && followup is None {
                    Some(release_of(effect))
                } else {
                    followup
                },
            },
        },
        CleanupState::Free => record,
    }
}

/// The generation an owner names.
pub open(crate) spec fn owner_generation(owner: Option<CleanupOwner>) -> RangePrepublicationSessionGeneration {
    match owner {
        Some(CleanupOwner::Session(g)) => g,
        Some(CleanupOwner::Candidate(g)) => g,
        Some(CleanupOwner::Widget(g)) => g,
        None => RangePrepublicationSessionGeneration(0),
    }
}

/// Whether `candidate` names a delivered candidate record whose listed residents are all
/// delivered pages owned by the same candidate.
pub open spec fn transferable(
    records: Seq<CleanupSlot>,
    candidate: RangePrepublicationCleanupToken,
    resident: Seq<RangePrepublicationCleanupToken>,
) -> bool {
    &&& names(records, candidate)
    &&& records[candidate.slot_index() as int].owner matches Some(CleanupOwner::Candidate(_))
    &&& records[candidate.slot_index() as int].state matches CleanupState::Active {
        request: CleanupRequest::Candidate { .. },
        delivered: true,
    }
    &&& residents_ok(
        records,
        resident,
        CleanupOwner::Candidate(owner_generation(records[candidate.slot_index() as int].owner)),
    )
}

/// Reserves room for exactly `additional` more records, as std's `Vec::try_reserve_exact`
/// does; `false` when the capacity overflows or the allocator refuses. Either way the records
/// are unchanged; whether the allocation succeeds is up to the allocator.
#[verifier::external_body]
fn reserve_exact(records: &mut Vec<CleanupSlot>, additional: usize) -> (r: bool)
    ensures
        final(records)@ == old(records)@,
{
    records.try_reserve_exact(additional).is_ok()
}

/// The records as a boxed slice with no spare capacity, as std's `Vec::into_boxed_slice`
/// returns them: the same records in the same order.
#[verifier::external_body]
fn boxed_slots(records: Vec<CleanupSlot>) -> (r: Box<[CleanupSlot]>)
    ensures
        r@ == records@,
{
    records.into_boxed_slice()
}

/// Fixed-capacity ledger of prepublication requests that need host cleanup.
pub struct CleanupLedger {
    pub(crate) records: Box<[CleanupSlot]>,
    pub(crate) next_id: u64,
}

impl CleanupLedger {
    /// The records.
    pub open(crate) spec fn slots(&self) -> Seq<CleanupSlot> {
        self.records@
    }

    /// The identity the next reserved record receives.
    pub open(crate) spec fn next_identity(&self) -> u64 {
        self.next_id
    }

    /// The ledger invariant: slots are addressable by `u32` and every record identity was
    /// issued before the next one.
    #[verifier::type_invariant]
    spec fn wf(self) -> bool {
        &&& self.records@.len() <= u32::MAX
        &&& self.next_id >= 1
        &&& forall|i: int| 0 <= i < self.records@.len() ==> #[trigger] self.records@[i].id
            < self.next_id
    }

    /// Creates a ledger of `slots` free records.
    pub fn new(slots: usize) -> (r: Result<Self, RangePrepublicationFailure>)
        ensures
            slots == 0 || slots > u32::MAX ==> r == Err::<CleanupLedger, RangePrepublicationFailure>(
                RangePrepublicationFailure::InvalidEnvironment,
            ),
            0 < slots <= u32::MAX ==> match r {
                Ok(ledger) => {
                    &&& ledger.slots().len() == slots
                    &&& ledger.next_identity() == 1
                    &&& forall|i: int|
                        0 <= i < slots ==> #[trigger] ledger.slots()[i] == (CleanupSlot {
                            id: 0,
                            owner: None,
                            state: CleanupState::Free,
                        })
                },
                Err(e) => e == RangePrepublicationFailure::InitialCapacityDenied,
            },
    {
        if slots == 0 || slots > u32::MAX as usize {
            return Err(RangePrepublicationFailure::InvalidEnvironment);
        }
        let mut records: Vec<CleanupSlot> = Vec::new();
        if !reserve_exact(&mut records, slots) {
            return Err(RangePrepublicationFailure::InitialCapacityDenied);
        }
        let mut index: usize = 0;
        while index < slots
            invariant
                0 <= index <= slots,
                records@.len() == index,
                forall|i: int|
                    0 <= i < index ==> #[trigger] records@[i] == (CleanupSlot {
                        id: 0,
                        owner: None,
                        state: CleanupState::Free,
                    }),
            decreases slots - index,
        {
            records.push(CleanupSlot { id: 0, owner: None, state: CleanupState::Free });
            index = index + 1;
        }
        Ok(CleanupLedger { records: boxed_slots(records), next_id: 1 })
    }

    /// Hands out up to `limit` ready effects, in slot order, and marks their records as
    /// awaiting acknowledgement.
    pub fn service(&mut self, limit: usize) -> (step: RangePrepublicationCleanupStep)
        ensures
            final(self).slots() == serviced(old(self).slots(), limit),
            final(self).next_identity() == old(self).next_identity(),
            step.effects@.len() == if ready_count(old(self).slots(), old(self).slots().len() as int)
                < limit {
                ready_count(old(self).slots(), old(self).slots().len() as int)
            } else {
                limit as int
            },
            forall|i: int|
                0 <= i < old(self).slots().len() && drains(old(self).slots(), limit, i)
                    ==> step.effects@[ready_count(old(self).slots(), i)]
                    == old(self).slots()[i].state->Ready_0,
            step.ready_remaining == ready_count(final(self).slots(), final(self).slots().len() as int),
    {
        proof {
            use_type_invariant(&*self);
        }
        let ghost before = self.records@;
        let mut effects: Vec<RangePrepublicationCleanupEffect> = Vec::new();
        let mut index: usize = 0;
        while index < self.records.len()
            invariant
                self.records@.len() == before.len(),
                self.next_id == old(self).next_id,
                old(self).wf(),
                self.wf(),
                before == old(self).records@,
                0 <= index <= before.len(),
                forall|j: int| 0 <= j < index ==> self.records@[j] == serviced(before, limit)[j],
                forall|j: int| index <= j < before.len() ==> self.records@[j] == before[j],
                effects@.len() == if ready_count(before, index as int) < limit {
                    ready_count(before, index as int)
                } else {
                    limit as int
                },
                forall|j: int|
                    0 <= j < index && drains(before, limit, j) ==> effects@[ready_count(before, j)]
                        == before[j].state->Ready_0,
            decreases before.len() - index,
        {
            let slot = self.records[index];
            proof {
                lemma_ready_count_bounds(before, index as int + 1);
                assert forall|j: int| 0 <= j < index && drains(before, limit, j) implies ready_count(
                    before,
                    j,
                ) < effects@.len() by {
                    lemma_ready_count_monotone(before, j + 1, index as int);
                }
            }
            let ghost prev_effects = effects@;
            let ghost mut pushed = false;
            match slot.state {
                CleanupState::Ready(effect) => {
                    if effects.len() < limit {
                        self.records[index] = CleanupSlot {
                                id: slot.id,
                                owner: slot.owner,
                                state: CleanupState::Draining { effect, followup: None },
                            };
                        effects.push(effect);
                        proof {
                            pushed = true;
                        }
                    }
                },
                _ => {},
            }
            proof {
                assert(slot == before[index as int]);
                if pushed {
                    assert(effects@ == prev_effects.push(before[index as int].state->Ready_0));
                } else {
                    assert(effects@ == prev_effects);
                    assert(!drains(before, limit, index as int));
                }
                assert forall|j: int|
                    0 <= j < index + 1 && drains(before, limit, j) implies effects@[ready_count(
                    before,
                    j,
                )] == before[j].state->Ready_0 by {
                    if j < index {
                        lemma_ready_count_monotone(before, j + 1, index as int);
                        lemma_ready_count_bounds(before, j);
                        assert(ready_count(before, j) < prev_effects.len());
                        assert(prev_effects[ready_count(before, j)] == before[j].state->Ready_0);
                        if pushed {
                            assert(prev_effects.push(before[index as int].state->Ready_0)[ready_count(
                                before,
                                j,
                            )] == prev_effects[ready_count(before, j)]);
                        }
                    } else {
                        assert(j == index);
                        assert(pushed);
                        assert(prev_effects.len() == ready_count(before, index as int));
                        assert(effects@[ready_count(before, j)] == before[index as int].state->Ready_0);
                    }
                }
            }
            index = index + 1;
        }
        proof {
            assert(self.records@ =~= serviced(before, limit));
        }
        let ready_remaining = self.count_ready();
        RangePrepublicationCleanupStep { effects, ready_remaining }
    }

    /// Number of ready records.
    fn count_ready(&self) -> (r: usize)
        ensures
            r == ready_count(self.slots(), self.slots().len() as int),
    {
        proof {
            use_type_invariant(self);
        }
        let mut count: usize = 0;
        let mut index: usize = 0;
        while index < self.records.len()
            invariant
                0 <= index <= self.records@.len(),
                self.records@.len() <= u32::MAX,
                count == ready_count(self.records@, index as int),
            decreases self.records@.len() - index,
        {
            proof {
                lemma_ready_count_bounds(self.records@, index as int + 1);
            }
            if matches!(self.records[index].state, CleanupState::Ready(_)) {
                count = count + 1;
            }
            index = index + 1;
        }
        count
    }

    /// Acknowledges that the host performed the effect for `token`.
    pub fn acknowledge(&mut self, token: RangePrepublicationCleanupToken) -> (r:
        RangePrepublicationCleanupAcknowledgement)
        ensures
            final(self).slots() == acknowledged(old(self).slots(), token),
            final(self).next_identity() == old(self).next_identity(),
            (r == RangePrepublicationCleanupAcknowledgement::Accepted) <==> (names(
                old(self).slots(),
                token,
            ) && old(self).slots()[token.slot_index() as int].state is Draining),
    {
        proof {
            use_type_invariant(&*self);
        }
        if !self.names(token) {
            return RangePrepublicationCleanupAcknowledgement::Obsolete;
        }
        let index = token.slot as usize;
        let record = self.records[index];
        match record.state {
            CleanupState::Draining { followup, .. } => {
                let state = match followup {
                    Some(effect) => CleanupState::Ready(effect),
                    None => CleanupState::Free,
                };
                self.records[index] = CleanupSlot { id: record.id, owner: record.owner, state };
                RangePrepublicationCleanupAcknowledgement::Accepted
            },
            _ => RangePrepublicationCleanupAcknowledgement::Obsolete,
        }
    }

    /// Whether `token` names a record that still carries its identity.
    fn names(&self, token: RangePrepublicationCleanupToken) -> (r: bool)
        ensures
            r == names(self.slots(), token),
    {
        (token.slot as usize) < self.records.len() && self.records[token.slot as usize].id
            == token.id
    }

    /// Counts the records by state and reports the ledger's retained charge, where
    /// `container_bytes` is the size of the record holding the ledger itself.
    pub fn ownership(&self, container_bytes: usize) -> (r: RangePrepublicationCleanupOwnership)
        ensures
            r.slots == self.slots().len(),
            r.active == active_count(self.slots(), self.slots().len() as int),
            r.ready == ready_count(self.slots(), self.slots().len() as int),
            r.awaiting_acknowledgement == draining_count(self.slots(), self.slots().len() as int),
            r.retained_charge.bytes == saturated(
                container_bytes + saturated(
                    (self.slots().len() * vstd::layout::size_of::<CleanupSlot>()) as int,
                ),
            ),
            r.retained_charge.items == saturated(1 + self.slots().len() as int),
    {
        proof {
            use_type_invariant(self);
        }
        let slots = self.records.len();
        let record = core::mem::size_of::<CleanupSlot>();
        let records_bytes = match slots.checked_mul(record) {
            Some(value) => value,
            None => usize::MAX,
        };
        let bytes = container_bytes.saturating_add(records_bytes);
        let items = 1usize.saturating_add(slots);
        let mut active: usize = 0;
        let mut ready: usize = 0;
        let mut draining: usize = 0;
        let mut index: usize = 0;
        while index < slots
            invariant
                slots == self.records@.len(),
                slots <= u32::MAX,
                0 <= index <= slots,
                active == active_count(self.records@, index as int),
                ready == ready_count(self.records@, index as int),
                draining == draining_count(self.records@, index as int),
            decreases slots - index,
        {
            proof {
                lemma_ready_count_bounds(self.records@, index as int + 1);
                lemma_active_count_bounds(self.records@, index as int + 1);
                lemma_draining_count_bounds(self.records@, index as int + 1);
            }
            match self.records[index].state {
                CleanupState::Active { .. } => {
                    active = active + 1;
                },
                CleanupState::Ready(_) => {
                    ready = ready + 1;
                },
                CleanupState::Draining { .. } => {
                    draining = draining + 1;
                },
                CleanupState::Free => {},
            }
            index = index + 1;
        }
        RangePrepublicationCleanupOwnership {
            slots,
            active,
            ready,
            awaiting_acknowledgement: draining,
            retained_charge: RangeSurfaceCharge { bytes, items },
        }
    }

    /// The charge of one ledger record.
    pub fn record_charge() -> (r: RangeSurfaceCharge)
        ensures
            r.bytes == vstd::layout::size_of::<CleanupSlot>(),
            r.items == 1,
    {
        RangeSurfaceCharge { bytes: core::mem::size_of::<CleanupSlot>(), items: 1 }
    }

    /// Reserves the first free record for session `owner` under a fresh identity.
    pub fn reserve_request(&mut self, owner: RangePrepublicationSessionGeneration) -> (r: Result<
        RangePrepublicationCleanupToken,
        CleanupRegistrationError,
    >)
        ensures
            match r {
                Ok(token) => {
                    &&& old(self).next_identity() < u64::MAX
                    &&& token.identity() == old(self).next_identity()
                    &&& old(self).slots()[token.slot_index() as int].state is Free
                    &&& forall|j: int|
                        0 <= j < token.slot_index() ==> !(#[trigger] old(self).slots()[j].state is Free)
                    &&& final(self).next_identity() == old(self).next_identity() + 1
                    &&& final(self).slots() == old(self).slots().update(
                        token.slot_index() as int,
                        CleanupSlot {
                            id: token.identity(),
                            owner: Some(CleanupOwner::Session(owner)),
                            state: CleanupState::Active {
                                request: CleanupRequest::Reserved,
                                delivered: false,
                            },
                        },
                    )
                    &&& names(final(self).slots(), token)
                    &&& forall|j: int|
                        0 <= j < final(self).slots().len() && j != token.slot_index()
                            ==> #[trigger] final(self).slots()[j].id != token.identity()
                },
                Err(e) => {
                    &&& final(self).slots() == old(self).slots()
                    &&& final(self).next_identity() == old(self).next_identity()
                    &&& (e == CleanupRegistrationError::Arithmetic) == (old(self).next_identity()
                        == u64::MAX)
                    &&& (e == CleanupRegistrationError::Full) ==> forall|j: int|
                        0 <= j < old(self).slots().len() ==> !(
                        #[trigger] old(self).slots()[j].state is Free)
                },
            },
    {
        proof {
            use_type_invariant(&*self);
        }
        let id = self.next_id;
        if id == u64::MAX {
            return Err(CleanupRegistrationError::Arithmetic);
        }
        let mut index: usize = 0;
        while index < self.records.len()
            invariant
                self.wf(),
                self.records@ == old(self).records@,
                self.next_id == old(self).next_id,
                self.next_id == id,
                id < u64::MAX,
                0 <= index <= self.records@.len(),
                forall|j: int| 0 <= j < index ==> !(#[trigger] self.records@[j].state is Free),
            decreases self.records@.len() - index,
        {
            if matches!(self.records[index].state, CleanupState::Free) {
                let token = RangePrepublicationCleanupToken { slot: index as u32, id };
                proof {
                    assert(token.slot == index);
                }
                self.next_id = id + 1;
                self.records[index] = CleanupSlot {
                        id,
                        owner: Some(CleanupOwner::Session(owner)),
                        state: CleanupState::Active {
                            request: CleanupRequest::Reserved,
                            delivered: false,
                        },
                    };
                return Ok(token);
            }
            index = index + 1;
        }
        Err(CleanupRegistrationError::Full)
    }

    /// Binds the request a reserved, undelivered record stands for.
    pub fn bind_request(&mut self, token: RangePrepublicationCleanupToken, request: CleanupRequest) -> (r:
        bool)
        ensures
            final(self).next_identity() == old(self).next_identity(),
            r == (names(old(self).slots(), token) && old(self).slots()[token.slot_index() as int].state
                == CleanupState::Active { request: CleanupRequest::Reserved, delivered: false }),
            r ==> final(self).slots() == old(self).slots().update(
                token.slot_index() as int,
                CleanupSlot {
                    id: token.identity(),
                    owner: old(self).slots()[token.slot_index() as int].owner,
                    state: CleanupState::Active { request, delivered: false },
                },
            ),
            !r ==> final(self).slots() == old(self).slots(),
    {
        proof {
            use_type_invariant(&*self);
        }
        if !self.names(token) {
            return false;
        }
        let index = token.slot as usize;
        let record = self.records[index];
        match record.state {
            CleanupState::Active { request: CleanupRequest::Reserved, delivered: false } => {
                self.records[index] = CleanupSlot {
                        id: record.id,
                        owner: record.owner,
                        state: CleanupState::Active { request, delivered: false },
                    };
                true
            },
            _ => false,
        }
    }

    /// Whether every listed resident record is owned by `owner` and delivered.
    fn residents_ok(&self, resident: &[RangePrepublicationCleanupToken], owner: CleanupOwner) -> (r:
        bool)
        ensures
            r == residents_ok(self.slots(), resident@, owner),
    {
        let mut index: usize = 0;
        while index < resident.len()
            invariant
                0 <= index <= resident@.len(),
                forall|k: int| 0 <= k < index ==> #[trigger] resident_ok(self.records@, resident@[k], owner),
            decreases resident@.len() - index,
        {
            let token = resident[index];
            if !self.names(token) {
                proof {
                    assert(!resident_ok(self.records@, resident@[index as int], owner));
                }
                return false;
            }
            let record = self.records[token.slot as usize];
            if record.owner != Some(owner) {
                proof {
                    assert(!resident_ok(self.records@, resident@[index as int], owner));
                }
                return false;
            }
            let delivered_page = match record.state {
                CleanupState::Active { request: CleanupRequest::Page { .. }, delivered: true } => true,
                CleanupState::Active {
                    request: CleanupRequest::ObjectPage { .. },
                    delivered: true,
                } => true,
                _ => false,
            };
            if !delivered_page {
                proof {
                    assert(!resident_ok(self.records@, resident@[index as int], owner));
                }
                return false;
            }
            index = index + 1;
        }
        true
    }

    /// Hands every listed resident record to `owner`.
    fn reown(&mut self, resident: &[RangePrepublicationCleanupToken], owner: CleanupOwner)
        requires
            forall|k: int| 0 <= k < resident@.len() ==> #[trigger] resident@[k].slot < old(self).slots().len(),
        ensures
            final(self).next_identity() == old(self).next_identity(),
            final(self).slots() == reowned(old(self).slots(), resident@, owner),
    {
        proof {
            use_type_invariant(&*self);
        }
        let ghost before = self.records@;
        let mut index: usize = 0;
        while index < resident.len()
            invariant
                0 <= index <= resident@.len(),
                self.records@.len() == before.len(),
                self.next_id == old(self).next_id,
                old(self).wf(),
                before == old(self).records@,
                forall|k: int| 0 <= k < resident@.len() ==> #[trigger] resident@[k].slot < before.len(),
                forall|i: int|
                    0 <= i < before.len() ==> #[trigger] self.records@[i] == if listed(
                        resident@.take(index as int),
                        i,
                    ) {
                        CleanupSlot { id: before[i].id, owner: Some(owner), state: before[i].state }
                    } else {
                        before[i]
                    },
            decreases resident@.len() - index,
        {
            let slot = resident[index].slot as usize;
            let record = self.records[slot];
            self.records[slot] = CleanupSlot { id: record.id, owner: Some(owner), state: record.state };
            proof {
                assert forall|i: int| 0 <= i < before.len() implies #[trigger] self.records@[i]
                    == if listed(resident@.take(index + 1), i) {
                    CleanupSlot { id: before[i].id, owner: Some(owner), state: before[i].state }
                } else {
                    before[i]
                } by {
                    if listed(resident@.take(index as int), i) {
                        let k = choose|k: int|
                            0 <= k < index && #[trigger] resident@.take(index as int)[k].slot == i;
                        assert(resident@.take(index + 1)[k].slot == i);
                    }
                    if i == slot {
                        assert(resident@.take(index + 1)[index as int].slot == i);
                    }
                    if listed(resident@.take(index + 1), i) && i != slot {
                        let k = choose|k: int|
                            0 <= k < index + 1 && #[trigger] resident@.take(index + 1)[k].slot == i;
                        assert(resident@.take(index as int)[k].slot == i);
                    }
                }
            }
            index = index + 1;
        }
        proof {
            assert(resident@.take(resident@.len() as int) =~= resident@);
            assert(self.records@ =~= reowned(before, resident@, owner));
        }
    }

    /// Promotes a session's reserved record to the candidate record of generation
    /// `generation`, together with the resident pages the candidate retains.
    pub fn promote_candidate(
        &mut self,
        token: RangePrepublicationCleanupToken,
        generation: RangePrepublicationSessionGeneration,
        environment_id: u64,
        resident: &[RangePrepublicationCleanupToken],
    ) -> (r: bool)
        ensures
            final(self).next_identity() == old(self).next_identity(),
            r == (names(old(self).slots(), token) && old(self).slots()[token.slot_index() as int].owner
                == Some(CleanupOwner::Session(generation)) && old(self).slots()[token.slot_index() as int].state
                == CleanupState::Active { request: CleanupRequest::Reserved, delivered: false }
                && residents_ok(old(self).slots(), resident@, CleanupOwner::Session(generation))),
            r ==> final(self).slots() == reowned(
                old(self).slots(),
                resident@,
                CleanupOwner::Candidate(generation),
            ).update(
                token.slot_index() as int,
                CleanupSlot {
                    id: token.identity(),
                    owner: Some(CleanupOwner::Candidate(generation)),
                    state: CleanupState::Active {
                        request: CleanupRequest::Candidate { generation, environment_id },
                        delivered: true,
                    },
                },
            ),
            !r ==> final(self).slots() == old(self).slots(),
    {
        proof {
            use_type_invariant(&*self);
        }
        if !self.names(token) {
            return false;
        }
        let index = token.slot as usize;
        let record = self.records[index];
        if record.owner != Some(CleanupOwner::Session(generation)) {
            return false;
        }
        match record.state {
            CleanupState::Active { request: CleanupRequest::Reserved, delivered: false } => {},
            _ => {
                return false;
            },
        }
        if !self.residents_ok(resident, CleanupOwner::Session(generation)) {
            return false;
        }
        proof {
            assert forall|k: int| 0 <= k < resident@.len() implies #[trigger] resident@[k].slot
                < self.records@.len() by {
                assert(resident_ok(self.records@, resident@[k], CleanupOwner::Session(generation)));
            }
        }
        self.reown(resident, CleanupOwner::Candidate(generation));
        self.records[index] = CleanupSlot {
                id: record.id,
                owner: Some(CleanupOwner::Candidate(generation)),
                state: CleanupState::Active {
                    request: CleanupRequest::Candidate { generation, environment_id },
                    delivered: true,
                },
            };
        true
    }

    /// Frees a candidate record and hands its resident pages to the adopting widget.
    pub fn transfer_candidate_to_widget(
        &mut self,
        candidate: RangePrepublicationCleanupToken,
        resident: &[RangePrepublicationCleanupToken],
    ) -> (r: bool)
        ensures
            final(self).next_identity() == old(self).next_identity(),
            r == transferable(old(self).slots(), candidate, resident@),
            r ==> final(self).slots() == reowned(
                old(self).slots(),
                resident@,
                CleanupOwner::Widget(owner_generation(old(self).slots()[candidate.slot_index() as int].owner)),
            ).update(
                candidate.slot_index() as int,
                CleanupSlot { id: candidate.identity(), owner: None, state: CleanupState::Free },
            ),
            !r ==> final(self).slots() == old(self).slots(),
    {
        proof {
            use_type_invariant(&*self);
        }
        if !self.names(candidate) {
            return false;
        }
        let index = candidate.slot as usize;
        let record = self.records[index];
        let generation = match record.owner {
            Some(CleanupOwner::Candidate(generation)) => generation,
            _ => {
                return false;
            },
        };
        match record.state {
            CleanupState::Active { request: CleanupRequest::Candidate { .. }, delivered: true } => {},
            _ => {
                return false;
            },
        }
        if !self.residents_ok(resident, CleanupOwner::Candidate(generation)) {
            return false;
        }
        proof {
            assert forall|k: int| 0 <= k < resident@.len() implies #[trigger] resident@[k].slot
                < self.records@.len() by {
                assert(resident_ok(self.records@, resident@[k], CleanupOwner::Candidate(generation)));
            }
        }
        self.reown(resident, CleanupOwner::Widget(generation));
        self.records[index] = CleanupSlot { id: record.id, owner: None, state: CleanupState::Free };
        true
    }

    /// Records that `request` of session `owner` was delivered, and returns the token of the
    /// first record standing for it.
    pub fn mark_delivered_request(
        &mut self,
        owner: RangePrepublicationSessionGeneration,
        request: CleanupRequest,
    ) -> (r: Option<RangePrepublicationCleanupToken>)
        ensures
            final(self).next_identity() == old(self).next_identity(),
            match r {
                Some(token) => {
                    &&& token.slot_index() < old(self).slots().len()
                    &&& token == token_at(old(self).slots(), token.slot_index() as int)
                    &&& holds_request(old(self).slots()[token.slot_index() as int], owner, request)
                    &&& forall|j: int|
                        0 <= j < token.slot_index() ==> !holds_request(
                            #[trigger] old(self).slots()[j],
                            owner,
                            request,
                        )
                    &&& final(self).slots() == old(self).slots().update(
                        token.slot_index() as int,
                        delivered_record(old(self).slots()[token.slot_index() as int]),
                    )
                },
                None => {
                    &&& final(self).slots() == old(self).slots()
                    &&& forall|j: int|
                        0 <= j < old(self).slots().len() ==> !holds_request(
                            #[trigger] old(self).slots()[j],
                            owner,
                            request,
                        )
                },
            },
    {
        proof {
            use_type_invariant(&*self);
        }
        let mut index: usize = 0;
        while index < self.records.len()
            invariant
                self.wf(),
                self.records@ == old(self).records@,
                self.next_id == old(self).next_id,
                0 <= index <= self.records@.len(),
                forall|j: int|
                    0 <= j < index ==> !holds_request(#[trigger] self.records@[j], owner, request),
            decreases self.records@.len() - index,
        {
            let record = self.records[index];
            let matched = record.owner == Some(CleanupOwner::Session(owner)) && match record.state {
                CleanupState::Active { request: current, .. } => current == request,
                CleanupState::Ready(effect) => effect_request(effect) == request,
                CleanupState::Draining { effect, .. } => effect_request(effect) == request,
                CleanupState::Free => false,
            };
            if matched {
                proof {
                    assert(holds_request(self.records@[index as int], owner, request));
                }
                let token = RangePrepublicationCleanupToken { slot: index as u32, id: record.id };
                proof {
                    assert(token.slot == index);
                }
                let state = match record.state {
                    CleanupState::Active { request: current, .. } => CleanupState::Active {
                        request: current,
                        delivered: true,
                    },
                    CleanupState::Ready(effect) => CleanupState::Ready(release_for(effect)),
                    CleanupState::Draining { effect, followup } => CleanupState::Draining {
                        effect,
                        followup: if is_cancel_effect(effect) && followup.is_none() {
                            Some(release_for(effect))
                        } else {
                            followup
                        },
                    },
                    CleanupState::Free => CleanupState::Free,
                };
                self.records[index] = CleanupSlot { id: record.id, owner: record.owner, state };
                return Some(token);
            }
            index = index + 1;
        }
        None
    }

    /// Frees the active record named by `token`.
    pub fn complete(&mut self, token: RangePrepublicationCleanupToken) -> (r: bool)
        ensures
            final(self).next_identity() == old(self).next_identity(),
            r == (names(old(self).slots(), token) && old(self).slots()[token.slot_index() as int].state is Active),
            r ==> final(self).slots() == old(self).slots().update(
                token.slot_index() as int,
                CleanupSlot { id: token.identity(), owner: None, state: CleanupState::Free },
            ),
            !r ==> final(self).slots() == old(self).slots(),
    {
        proof {
            use_type_invariant(&*self);
        }
        if !self.names(token) {
            return false;
        }
        let index = token.slot as usize;
        let record = self.records[index];
        if matches!(record.state, CleanupState::Active { .. }) {
            self.records[index] = CleanupSlot { id: record.id, owner: None, state: CleanupState::Free };
            true
        } else {
            false
        }
    }

    /// Makes the record named by `token` ready for cleanup.
    pub fn mark_token_ready(&mut self, token: RangePrepublicationCleanupToken)
        ensures
            final(self).next_identity() == old(self).next_identity(),
            names(old(self).slots(), token) ==> final(self).slots() == old(self).slots().update(
                token.slot_index() as int,
                readied(old(self).slots()[token.slot_index() as int], token),
            ),
            !names(old(self).slots(), token) ==> final(self).slots() == old(self).slots(),
    {
        proof {
            use_type_invariant(&*self);
        }
        if !self.names(token) {
            return;
        }
        let index = token.slot as usize;
        let record = self.records[index];
        self.records[index] = mark_ready(record, token);
    }

    /// Makes every record of session `owner` ready for cleanup.
    pub fn mark_session_ready(&mut self, owner: RangePrepublicationSessionGeneration)
        ensures
            final(self).next_identity() == old(self).next_identity(),
            final(self).slots() == session_readied(old(self).slots(), owner),
            old(self).slots().len() <= u32::MAX,
    {
        proof {
            use_type_invariant(&*self);
        }
        let ghost before = self.records@;
        let mut index: usize = 0;
        while index < self.records.len()
            invariant
                self.records@.len() == before.len(),
                before == old(self).records@,
                self.next_id == old(self).next_id,
                old(self).wf(),
                0 <= index <= before.len(),
                forall|i: int|
                    0 <= i < index ==> #[trigger] self.records@[i] == if before[i].owner == Some(
                        CleanupOwner::Session(owner),
                    ) {
                        readied(before[i], token_at(before, i))
                    } else {
                        before[i]
                    },
                forall|i: int| index <= i < before.len() ==> #[trigger] self.records@[i] == before[i],
            decreases before.len() - index,
        {
            let record = self.records[index];
            if record.owner == Some(CleanupOwner::Session(owner)) {
                let token = RangePrepublicationCleanupToken { slot: index as u32, id: record.id };
                self.records[index] = mark_ready(record, token);
            }
            index = index + 1;
        }
        proof {
            assert(self.records@ =~= session_readied(before, owner));
        }
    }

    /// Number of live records owned by session `owner`.
    pub fn active_session_records(&self, owner: RangePrepublicationSessionGeneration) -> (r: usize)
        ensures
            r == session_count(self.slots(), owner, self.slots().len() as int),
    {
        proof {
            use_type_invariant(self);
        }
        let mut count: usize = 0;
        let mut index: usize = 0;
        while index < self.records.len()
            invariant
                0 <= index <= self.records@.len(),
                self.records@.len() <= u32::MAX,
                count == session_count(self.records@, owner, index as int),
            decreases self.records@.len() - index,
        {
            proof {
                lemma_session_count_bounds(self.records@, owner, index as int + 1);
            }
            let record = self.records[index];
            if record.owner == Some(CleanupOwner::Session(owner)) && !matches!(record.state, CleanupState::Free) {
                count = count + 1;
            }
            index = index + 1;
        }
        count
    }
}

/// The record after it is made ready for cleanup.
pub fn mark_ready(record: CleanupSlot, token: RangePrepublicationCleanupToken) -> (r: CleanupSlot)
    ensures
        r == readied(record, token),
{
    match record.state {
        CleanupState::Active { request: CleanupRequest::Reserved, .. } => CleanupSlot {
            id: record.id,
            owner: None,
            state: CleanupState::Free,
        },
        CleanupState::Active { request, delivered } => CleanupSlot {
            id: record.id,
            owner: record.owner,
            state: CleanupState::Ready(effect_for(token, request, delivered)),
        },
        _ => record,
    }
}

/// Making one token ready frees a reserved record, and turns an active one into a ready record
/// whose effect cleans up that record's request under that token: a release when the request
/// was delivered (or is a candidate), a cancel otherwise. Other records stay as they were.
pub proof fn lemma_token_ready_effect(record: CleanupSlot, token: RangePrepublicationCleanupToken)
    ensures
        record.state is Active && record.state->request == CleanupRequest::Reserved ==> readied(
            record,
            token,
        ) == (CleanupSlot { id: record.id, owner: None, state: CleanupState::Free }),
        record.state is Active && record.state->request != CleanupRequest::Reserved ==> {
            let after = readied(record, token);
            &&& after.id == record.id
            &&& after.owner == record.owner
            &&& after.state is Ready
            &&& request_of(after.state->Ready_0) == record.state->request
            &&& token_of(after.state->Ready_0) == token
            &&& cancels(after.state->Ready_0) == (!record.state->delivered && !(
            record.state->request is Candidate))
        },
        !(record.state is Active) ==> readied(record, token) == record,
{
}

/// Making a session ready touches only the session's records, each as making its own token
/// ready would: a reserved record is freed, and an active one becomes ready with the effect
/// that cleans up its own request under its own token, a release when the request was
/// delivered (or is a candidate) and a cancel otherwise. Other records stay as they were.
pub proof fn lemma_session_ready_effects(
    records: Seq<CleanupSlot>,
    owner: RangePrepublicationSessionGeneration,
)
    requires
        records.len() <= u32::MAX,
    ensures
        session_readied(records, owner).len() == records.len(),
        forall|i: int|
            0 <= i < records.len() && records[i].owner != Some(CleanupOwner::Session(owner))
                ==> #[trigger] session_readied(records, owner)[i] == records[i],
        forall|i: int|
            0 <= i < records.len() && records[i].owner == Some(CleanupOwner::Session(owner))
                ==> #[trigger] session_readied(records, owner)[i] == readied(
                records[i],
                token_at(records, i),
            ),
        forall|i: int|
            0 <= i < records.len() && records[i].owner == Some(CleanupOwner::Session(owner))
                && records[i].state is Active && records[i].state->request
                != CleanupRequest::Reserved ==> {
                let after = #[trigger] session_readied(records, owner)[i];
                let request = records[i].state->request;
                let delivered = records[i].state->delivered;
                &&& after.id == records[i].id
                &&& after.owner == records[i].owner
                &&& after.state is Ready
                &&& request_of(after.state->Ready_0) == request
                &&& token_of(after.state->Ready_0).slot_index() == i
                &&& token_of(after.state->Ready_0).identity() == records[i].id
                &&& cancels(after.state->Ready_0) == (!delivered && !(request is Candidate))
            },
        forall|i: int|
            0 <= i < records.len() && records[i].owner == Some(CleanupOwner::Session(owner))
                && records[i].state is Active && records[i].state->request
                == CleanupRequest::Reserved ==> #[trigger] session_readied(records, owner)[i]
                == (CleanupSlot { id: records[i].id, owner: None, state: CleanupState::Free }),
{
}

/// `x` capped at `usize::MAX`.
pub open spec fn saturated(x: int) -> int {
    if x > usize::MAX {
        usize::MAX as int
    } else {
        x
    }
}

/// A service pass hands out `min(limit, ready)` effects and leaves every other ready record
/// ready: the ready records after the pass are the ready records before it less those
/// handed out.
pub proof fn lemma_service_accounts_for_ready(records: Seq<CleanupSlot>, limit: usize, n: int)
    requires
        0 <= n <= records.len(),
    ensures
        ready_count(serviced(records, limit), n) == ready_count(records, n) - if ready_count(
            records,
            n,
        ) < limit {
            ready_count(records, n)
        } else {
            limit as int
        },
    decreases n,
{
    if n > 0 {
        lemma_service_accounts_for_ready(records, limit, n - 1);
        lemma_ready_count_bounds(records, n - 1);
    }
}

/// Acknowledging an effect that a service pass handed out frees its record when no
/// release followed it, and leaves every other record as the pass left it.
pub proof fn lemma_acknowledge_after_service(records: Seq<CleanupSlot>, limit: usize, i: int)
    requires
        0 <= i < records.len(),
        records.len() <= u32::MAX,
        drains(records, limit, i),
    ensures
        acknowledged(serviced(records, limit), token_at(records, i))[i] == (CleanupSlot {
            id: records[i].id,
            owner: records[i].owner,
            state: CleanupState::Free,
        }),
        forall|j: int|
            0 <= j < records.len() && j != i ==> #[trigger] acknowledged(
                serviced(records, limit),
                token_at(records, i),
            )[j] == serviced(records, limit)[j],
{
    assert(token_at(records, i).slot == i);
}

/// A token acknowledged twice is accepted at most once: the first acknowledgement of a
/// record without follow-up frees it, and a free record is obsolete.
pub proof fn lemma_acknowledge_once(records: Seq<CleanupSlot>, token: RangePrepublicationCleanupToken)
    requires
        names(records, token),
        records[token.slot_index() as int].state matches CleanupState::Draining { followup: None, .. },
    ensures
        acknowledged(records, token)[token.slot_index() as int].state == CleanupState::Free,
        acknowledged(acknowledged(records, token), token) == acknowledged(records, token),
{
}

/// After a session is made ready, none of its records is still active: reserved ones are
/// freed and live ones await cleanup.
pub proof fn lemma_session_ready_leaves_nothing_active(
    records: Seq<CleanupSlot>,
    owner: RangePrepublicationSessionGeneration,
)
    ensures
        forall|i: int|
            0 <= i < records.len() && #[trigger] session_readied(records, owner)[i].owner == Some(
                CleanupOwner::Session(owner),
            ) ==> !(session_readied(records, owner)[i].state is Active),
{
}

/// Every record is counted in at most one of the active, ready and awaiting counts.
pub proof fn lemma_state_counts_bounded(records: Seq<CleanupSlot>, n: int)
    requires
        0 <= n <= records.len(),
    ensures
        active_count(records, n) + ready_count(records, n) + draining_count(records, n) <= n,
    decreases n,
{
    if n > 0 {
        lemma_state_counts_bounded(records, n - 1);
    }
}

proof fn lemma_ready_count_monotone(records: Seq<CleanupSlot>, m: int, n: int)
    requires
        0 <= m <= n <= records.len(),
    ensures
        ready_count(records, m) <= ready_count(records, n),
    decreases n - m,
{
    if m < n {
        lemma_ready_count_monotone(records, m, n - 1);
    }
}

proof fn lemma_ready_count_bounds(records: Seq<CleanupSlot>, n: int)
    requires
        0 <= n <= records.len(),
    ensures
        0 <= ready_count(records, n) <= n,
    decreases n,
{
    if n > 0 {
        lemma_ready_count_bounds(records, n - 1);
    }
}

proof fn lemma_active_count_bounds(records: Seq<CleanupSlot>, n: int)
    requires
        0 <= n <= records.len(),
    ensures
        0 <= active_count(records, n) <= n,
    decreases n,
{
    if n > 0 {
        lemma_active_count_bounds(records, n - 1);
    }
}

proof fn lemma_draining_count_bounds(records: Seq<CleanupSlot>, n: int)
    requires
        0 <= n <= records.len(),
    ensures
        0 <= draining_count(records, n) <= n,
    decreases n,
{
    if n > 0 {
        lemma_draining_count_bounds(records, n - 1);
    }
}

proof fn lemma_session_count_bounds(
    records: Seq<CleanupSlot>,
    owner: RangePrepublicationSessionGeneration,
    n: int,
)
    requires
        0 <= n <= records.len(),
    ensures
        0 <= session_count(records, owner, n) <= n,
    decreases n,
{
    if n > 0 {
        lemma_session_count_bounds(records, owner, n - 1);
    }
}

} // verus!
