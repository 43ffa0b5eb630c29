use vstd::prelude::*;

use crate::charge::RangeSurfaceCharge;
use crate::object_request::ObjectRequestKey;

verus! {

/// Generation of one prepublication session.
#[derive(Clone, Copy, Debug, PartialEq, Eq, Structural)]
pub struct RangePrepublicationSessionGeneration(pub(crate) u64);

impl RangePrepublicationSessionGeneration {
    /// The wrapped number.
    pub open(crate) spec fn value(self) -> u64 {
        self.0
    }

    /// Returns the generation number.
    pub fn get(self) -> (r: u64)
        ensures
            r == self.value(),
    {
        self.0
    }

    /// Wraps a generation number.
    pub fn new(value: u64) -> (r: Self)
        ensures
            r.value() == value,
    {
        RangePrepublicationSessionGeneration(value)
    }
}

/// Key of one owner-validation request of a session.
#[derive(Clone, Copy, Debug, PartialEq, Eq, Structural)]
pub struct RangePrepublicationValidationKey {
    /// Session that issued the request.
    pub generation: RangePrepublicationSessionGeneration,
    /// Request number within the session.
    pub request: u64,
}

/// Terminal or retryable failure of prepublication.
#[derive(Clone, Copy, Debug, PartialEq, Eq, Structural)]
pub enum RangePrepublicationFailure {
    InvalidEnvironment,
    InitialCapacityDenied,
    SourceMismatch,
    HistoryMismatch,
    Stale,
    ExactKeyCollision,
    MalformedResponse,
    DeterministicGeometry,
    TerminalCapacity,
    Arithmetic,
}

/// Observable progress of one prepublication session.
#[derive(Clone, Copy, Debug, PartialEq, Eq, Structural)]
pub enum RangePrepublicationStatus {
    Initializing,
    Validating,
    WaitingForResponse,
    Advancing,
    CapacityBlocked,
    Ready,
    Cancelled,
    Stale,
    Failed(RangePrepublicationFailure),
}

/// What became of one response delivered to a session.
#[derive(Clone, Copy, Debug, PartialEq, Eq, Structural)]
pub enum RangePrepublicationDelivery {
    Accepted,
    CapacityBlocked,
    Obsolete,
    Terminal(RangePrepublicationFailure),
}

/// Retained resources of one prepublication session.
#[derive(Clone, Copy, Debug, Default, PartialEq, Eq, Structural)]
pub struct RangePrepublicationOwnership {
    pub bytes: usize,
    pub items: usize,
    pub resident_pages: usize,
    pub resident_object_pages: usize,
    pub pending_pages: usize,
    pub pending_object_pages: usize,
    pub candidate: bool,
}

/// Why a prepared candidate could not be adopted by a widget.
#[derive(Clone, Copy, Debug, PartialEq, Eq, Structural)]
pub enum RangePrepublicationAdoptionError {
    EnvironmentMismatch,
    SourceMismatch,
    HistoryMismatch,
    CapacityMismatch,
    CandidateConsumed,
    WidgetConstruction,
}

/// Adds two charges, failing with an arithmetic failure when either dimension leaves `usize`.
pub fn add_charge(left: RangeSurfaceCharge, right: RangeSurfaceCharge) -> (r: Result<
    RangeSurfaceCharge,
    RangePrepublicationFailure,
>)
    ensures
        match r {
            Ok(sum) => sum.bytes == left.bytes + right.bytes && sum.items == left.items
                + right.items,
            Err(e) => e == RangePrepublicationFailure::Arithmetic && (left.bytes + right.bytes
                > usize::MAX || left.items + right.items > usize::MAX),
        },
{
    let bytes = match left.bytes.checked_add(right.bytes) {
        Some(value) => value,
        None => {
            return Err(RangePrepublicationFailure::Arithmetic);
        },
    };
    let items = match left.items.checked_add(right.items) {
        Some(value) => value,
        None => {
            return Err(RangePrepublicationFailure::Arithmetic);
        },
    };
    Ok(RangeSurfaceCharge { bytes, items })
}

/// Capacity reserved while an object request is pending: its retained-byte ceiling, and
/// one record for the page besides its object records.
pub fn object_reservation(key: ObjectRequestKey) -> (r: Result<
    RangeSurfaceCharge,
    RangePrepublicationFailure,
>)
    ensures
        match r {
            Ok(charge) => charge.bytes == key.envelope().byte_ceiling() && charge.items
                == key.envelope().object_ceiling() + 1,
            Err(e) => e == RangePrepublicationFailure::Arithmetic && key.envelope().object_ceiling()
                == usize::MAX,
        },
{
    let demand = key.demand();
    let items = match demand.max_objects().checked_add(1) {
        Some(value) => value,
        None => {
            return Err(RangePrepublicationFailure::Arithmetic);
        },
    };
    Ok(RangeSurfaceCharge { bytes: demand.max_retained_bytes(), items })
}

/// Most mutation requests a widget queues at once.
pub const MAX_QUEUED_MUTATION_REQUESTS: usize = 2;

/// Capacity for the queue of host requests of one widget: two slots for every pending or
/// resident text and object page, two for each queued mutation request, and sixteen more;
/// `None` when the count leaves `usize`.
pub fn checked_request_capacity(
    max_pending_pages: usize,
    max_resident_pages: usize,
    max_pending_object_pages: usize,
    max_resident_object_pages: usize,
) -> (r: Option<usize>)
    ensures
        match r {
            Some(n) => n == request_capacity(
                max_pending_pages,
                max_resident_pages,
                max_pending_object_pages,
                max_resident_object_pages,
            ),
            None => request_capacity_overflows(
                max_pending_pages,
                max_resident_pages,
                max_pending_object_pages,
                max_resident_object_pages,
            ),
        },
{
    let text = match max_pending_pages.checked_add(max_resident_pages) {
        Some(value) => value,
        None => {
            return None;
        },
    };
    let text = match text.checked_mul(2) {
        Some(value) => value,
        None => {
            return None;
        },
    };
    let objects = match max_pending_object_pages.checked_add(max_resident_object_pages) {
        Some(value) => value,
        None => {
            return None;
        },
    };
    let objects = match objects.checked_mul(2) {
        Some(value) => value,
        None => {
            return None;
        },
    };
    let count = match text.checked_add(objects) {
        Some(value) => value,
        None => {
            return None;
        },
    };
    let count = match count.checked_add(MAX_QUEUED_MUTATION_REQUESTS * 2) {
        Some(value) => value,
        None => {
            return None;
        },
    };
    count.checked_add(16)
}

/// The request-queue capacity as an integer.
pub open spec fn request_capacity(
    max_pending_pages: usize,
    max_resident_pages: usize,
    max_pending_object_pages: usize,
    max_resident_object_pages: usize,
) -> int {
    2 * (max_pending_pages + max_resident_pages) + 2 * (max_pending_object_pages
        + max_resident_object_pages) + 2 * MAX_QUEUED_MUTATION_REQUESTS + 16
}

/// Some partial sum of the request-queue capacity leaves `usize`.
pub open spec fn request_capacity_overflows(
    max_pending_pages: usize,
    max_resident_pages: usize,
    max_pending_object_pages: usize,
    max_resident_object_pages: usize,
) -> bool {
    request_capacity(
        max_pending_pages,
        max_resident_pages,
        max_pending_object_pages,
        max_resident_object_pages,
    ) > usize::MAX
}

/// At most two effects gathered during one service step, in the order they were pushed.
pub struct EffectBuffer<E> {
    first: Option<E>,
    second: Option<E>,
    len: usize,
}

impl<E> EffectBuffer<E> {
    #[verifier::type_invariant]
    spec fn packed(self) -> bool {
        &&& self.len <= 2
        &&& (self.first is Some <==> self.len >= 1)
        &&& (self.second is Some <==> self.len == 2)
    }

    /// The effects gathered so far.
    pub closed spec fn effects(self) -> Seq<E> {
        if self.len == 0 {
            Seq::empty()
        } else if self.len == 1 {
            seq![self.first->0]
        } else {
            seq![self.first->0, self.second->0]
        }
    }

    /// Creates an empty buffer.
    pub fn new() -> (r: Self)
        ensures
            r.effects() == Seq::<E>::empty(),
    {
        EffectBuffer { first: None, second: None, len: 0 }
    }

    /// Number of gathered effects.
    pub fn len(&self) -> (r: usize)
        ensures
            r == self.effects().len(),
            r <= 2,
    {
        proof {
            use_type_invariant(self);
        }
        self.len
    }

    /// Appends an effect; the buffer holds at most two.
    pub fn push(&mut self, effect: E)
        requires
            old(self).effects().len() < 2,
        ensures
            final(self).effects() == old(self).effects().push(effect),
    {
        proof {
            use_type_invariant(&*self);
        }
        let mut taken = EffectBuffer::new();
        std::mem::swap(&mut taken, self);
        proof {
            use_type_invariant(&taken);
        }
        let EffectBuffer { first, len, .. } = taken;
        if len == 0 {
            *self = EffectBuffer { first: Some(effect), second: None, len: 1 };
        } else {
            *self = EffectBuffer { first, second: Some(effect), len: 2 };
        }
        proof {
            assert(self.effects() =~= old(self).effects().push(effect));
        }
    }

    /// The gathered effects, in order.
    pub fn into_vec(self) -> (r: Vec<E>)
        ensures
            r@ == self.effects(),
    {
        proof {
            use_type_invariant(&self);
        }
        let mut values: Vec<E> = Vec::new();
        let EffectBuffer { first, second, .. } = self;
        match first {
            Some(effect) => values.push(effect),
            None => {},
        }
        match second {
            Some(effect) => values.push(effect),
            None => {},
        }
        proof {
            assert(values@ =~= self.effects());
        }
        values
    }
}

} // verus!
