use core::cmp::Ordering;

use vstd::prelude::*;
use vstd::std_specs::cmp::PartialOrdSpec;

use crate::coordinates::{BindingId, ByteOffset, ByteRange, SourceRevision};
use crate::object::{ObjectContractError, ObjectRequestId, PresentationGeneration};
use crate::position::{InlineObjectId, InlineObjectNeighbor, InlineObjectOrder};

verus! {

/// App-neutral reason a bounded inline-object page is required.
#[derive(Clone, Copy, Debug, PartialEq, Eq, Structural, Hash)]
#[non_exhaustive]
pub enum ObjectPurpose {
    /// Visible viewport and overscan realization.
    Viewport,
    /// Caret movement or adjacent-object validation.
    Caret,
    /// Selection movement or adjacent-object validation.
    Selection,
    /// Bounded clipboard representation construction.
    Clipboard,
    /// Background visual-line or geometry indexing.
    GeometryIndex,
    /// Exact block-target geometry resolution.
    GeometryTarget,
    /// Validation and realization of a compact restoration seed.
    Restoration,
    /// Validation of one committed mutation's successor positions.
    MutationSuccessor,
    /// Platform text-range or replacement coordination.
    PlatformRange,
}

/// Direction of one bounded object demand.
#[derive(Clone, Copy, Debug, PartialEq, Eq, Structural, Hash)]
pub enum ObjectDirection {
    /// Objects follow the optional cursor in source order.
    Forward,
    /// Objects precede the optional cursor, while each page remains source ordered.
    Backward,
}

/// Exact cursor of one object in the ordered source stream, ordered by anchor, then same-anchor
/// order key, then identity.
#[derive(Clone, Copy, Debug, PartialEq, Eq, Structural, Hash, Ord)]
pub struct ObjectCursor {
    pub(crate) anchor: ByteOffset,
    pub(crate) order: InlineObjectOrder,
    pub(crate) id: InlineObjectId,
}

impl PartialOrd for ObjectCursor {
    fn partial_cmp(&self, other: &Self) -> (r: Option<Ordering>) {
        if cursor_precedes(*self, *other) {
            Some(Ordering::Less)
        } else if cursor_precedes(*other, *self) {
            Some(Ordering::Greater)
        } else {
            Some(Ordering::Equal)
        }
    }
}

impl vstd::std_specs::cmp::PartialOrdSpecImpl for ObjectCursor {
    open spec fn obeys_partial_cmp_spec() -> bool {
        true
    }

    open spec fn partial_cmp_spec(&self, other: &Self) -> Option<Ordering> {
        if cursor_before(*self, *other) {
            Some(Ordering::Less)
        } else if cursor_before(*other, *self) {
            Some(Ordering::Greater)
        } else {
            Some(Ordering::Equal)
        }
    }
}

/// Cursors are ordered lexicographically by anchor, same-anchor order key and identity, and
/// are equal exactly when all three are.
pub proof fn lemma_cursor_order(x: ObjectCursor, y: ObjectCursor)
    ensures
        (x.partial_cmp_spec(&y) == Some(Ordering::Less)) == cursor_before(x, y),
        (x.partial_cmp_spec(&y) == Some(Ordering::Greater)) == cursor_before(y, x),
        (x.partial_cmp_spec(&y) == Some(Ordering::Equal)) == (x == y),
        (x == y) == (x.anchor_at() == y.anchor_at() && x.order_key() == y.order_key()
            && x.object_id() == y.object_id()),
{
}

/// Source order of cursors: by anchor, then order key, then identity.
pub open spec fn cursor_before(left: ObjectCursor, right: ObjectCursor) -> bool {
    ||| left.anchor_at().value() < right.anchor_at().value()
    ||| left.anchor_at().value() == right.anchor_at().value() && left.order_key().value()
        < right.order_key().value()
    ||| left.anchor_at().value() == right.anchor_at().value() && left.order_key().value()
        == right.order_key().value() && left.object_id().value() < right.object_id().value()
}

/// Strict source order of two cursors.
pub(crate) fn cursor_precedes(left: ObjectCursor, right: ObjectCursor) -> (r: bool)
    ensures
        r == cursor_before(left, right),
{
    left.anchor.0 < right.anchor.0 || (left.anchor.0 == right.anchor.0 && left.order.0
        < right.order.0) || (left.anchor.0 == right.anchor.0 && left.order.0 == right.order.0
        && left.id.0 < right.id.0)
}

impl ObjectCursor {
    /// The object's UTF-8 anchor.
    pub open(crate) spec fn anchor_at(self) -> ByteOffset {
        self.anchor
    }

    /// The same-anchor order key.
    pub open(crate) spec fn order_key(self) -> InlineObjectOrder {
        self.order
    }

    /// The stable identity.
    pub open(crate) spec fn object_id(self) -> InlineObjectId {
        self.id
    }

    /// Creates one exact same-revision object cursor.
    pub fn new(anchor: ByteOffset, order: InlineObjectOrder, id: InlineObjectId) -> (r: Self)
        ensures
            r.anchor_at() == anchor,
            r.order_key() == order,
            r.object_id() == id,
    {
        ObjectCursor { anchor, order, id }
    }

    /// Returns the object's UTF-8 anchor.
    pub fn anchor(self) -> (r: ByteOffset)
        ensures
            r == self.anchor_at(),
    {
        self.anchor
    }

    /// Returns its same-anchor order key.
    pub fn order(self) -> (r: InlineObjectOrder)
        ensures
            r == self.order_key(),
    {
        self.order
    }

    /// Returns its stable identity.
    pub fn id(self) -> (r: InlineObjectId)
        ensures
            r == self.object_id(),
    {
        self.id
    }

    /// Returns the named edge used in a source-position witness.
    pub fn neighbor(self) -> (r: InlineObjectNeighbor)
        ensures
            r.object_id() == self.object_id(),
            r.order_key() == self.order_key(),
    {
        InlineObjectNeighbor::new(self.id, self.order)
    }
}

/// Source-selection envelope frozen by one inline-object request.
#[derive(Clone, Copy, Debug, PartialEq, Eq, Structural, Hash)]
pub enum ObjectDemandEnvelope {
    /// Requests objects anchored anywhere in one bounded byte interval.
    Range {
        /// Inclusive anchor interval. Objects consume no bytes, so both edges are eligible.
        range: ByteRange,
        /// Optional exclusive object cursor for continuation.
        cursor: Option<ObjectCursor>,
        /// Direction of progress from the cursor or interval edge.
        direction: ObjectDirection,
        /// Maximum objects in the response.
        max_objects: usize,
        /// Maximum exact retained response bytes.
        max_retained_bytes: usize,
    },
    /// Requests objects at one exact proven UTF-8 anchor.
    Anchor {
        /// Exact eligible anchor.
        anchor: ByteOffset,
        /// Optional exclusive same-anchor cursor for continuation.
        cursor: Option<ObjectCursor>,
        /// Direction of progress.
        direction: ObjectDirection,
        /// Maximum objects in the response.
        max_objects: usize,
        /// Maximum exact retained response bytes.
        max_retained_bytes: usize,
    },
}

impl ObjectDemandEnvelope {
    /// The optional continuation cursor.
    pub open spec fn cursor_of(self) -> Option<ObjectCursor> {
        match self {
            ObjectDemandEnvelope::Range { cursor, .. } => cursor,
            ObjectDemandEnvelope::Anchor { cursor, .. } => cursor,
        }
    }

    /// The direction of progress.
    pub open spec fn direction_of(self) -> ObjectDirection {
        match self {
            ObjectDemandEnvelope::Range { direction, .. } => direction,
            ObjectDemandEnvelope::Anchor { direction, .. } => direction,
        }
    }

    /// The object-count ceiling.
    pub open spec fn object_ceiling(self) -> usize {
        match self {
            ObjectDemandEnvelope::Range { max_objects, .. } => max_objects,
            ObjectDemandEnvelope::Anchor { max_objects, .. } => max_objects,
        }
    }

    /// The retained-byte ceiling.
    pub open spec fn byte_ceiling(self) -> usize {
        match self {
            ObjectDemandEnvelope::Range { max_retained_bytes, .. } => max_retained_bytes,
            ObjectDemandEnvelope::Anchor { max_retained_bytes, .. } => max_retained_bytes,
        }
    }

    /// Whether an anchor is eligible, both interval edges included.
    pub open spec fn admits_anchor(self, anchor: ByteOffset) -> bool {
        match self {
            ObjectDemandEnvelope::Range { range, .. } => range.holds_offset(anchor.value()),
            ObjectDemandEnvelope::Anchor { anchor: expected, .. } => anchor.value()
                == expected.value(),
        }
    }

    /// Why the demand is malformed on its own, if it is.
    pub open spec fn local_fault(self) -> Option<ObjectContractError> {
        if self.object_ceiling() == 0 {
            Some(ObjectContractError::ZeroObjectLimit)
        } else if self.byte_ceiling() == 0 {
            Some(ObjectContractError::ZeroRetainedByteLimit)
        } else if self.cursor_of() matches Some(c) && !self.admits_anchor(c.anchor_at()) {
            Some(ObjectContractError::CursorOutsideEnvelope)
        } else {
            None
        }
    }

    /// What a checked constructor returns for this demand.
    pub open spec fn checked(self) -> Result<ObjectDemandEnvelope, ObjectContractError> {
        match self.local_fault() {
            Some(e) => Err(e),
            None => Ok(self),
        }
    }

    /// Creates a checked bounded interval demand.
    pub fn range(
        range: ByteRange,
        cursor: Option<ObjectCursor>,
        direction: ObjectDirection,
        max_objects: usize,
        max_retained_bytes: usize,
    ) -> (r: Result<Self, ObjectContractError>)
        ensures
            r == (ObjectDemandEnvelope::Range {
                range,
                cursor,
                direction,
                max_objects,
                max_retained_bytes,
            }).checked(),
    {
        let demand = ObjectDemandEnvelope::Range {
            range,
            cursor,
            direction,
            max_objects,
            max_retained_bytes,
        };
        match demand.validate_local() {
            Ok(()) => Ok(demand),
            Err(e) => Err(e),
        }
    }

    /// Creates a checked exact-anchor demand.
    pub fn anchor(
        anchor: ByteOffset,
        cursor: Option<ObjectCursor>,
        direction: ObjectDirection,
        max_objects: usize,
        max_retained_bytes: usize,
    ) -> (r: Result<Self, ObjectContractError>)
        ensures
            r == (ObjectDemandEnvelope::Anchor {
                anchor,
                cursor,
                direction,
                max_objects,
                max_retained_bytes,
            }).checked(),
    {
        let demand = ObjectDemandEnvelope::Anchor {
            anchor,
            cursor,
            direction,
            max_objects,
            max_retained_bytes,
        };
        match demand.validate_local() {
            Ok(()) => Ok(demand),
            Err(e) => Err(e),
        }
    }

    /// Returns the optional exclusive continuation cursor.
    pub fn cursor(self) -> (r: Option<ObjectCursor>)
        ensures
            r == self.cursor_of(),
    {
        match self {
            ObjectDemandEnvelope::Range { cursor, .. } => cursor,
            ObjectDemandEnvelope::Anchor { cursor, .. } => cursor,
        }
    }

    /// Returns the direction of object progress.
    pub fn direction(self) -> (r: ObjectDirection)
        ensures
            r == self.direction_of(),
    {
        match self {
            ObjectDemandEnvelope::Range { direction, .. } => direction,
            ObjectDemandEnvelope::Anchor { direction, .. } => direction,
        }
    }

    /// Returns the response object-count ceiling.
    pub fn max_objects(self) -> (r: usize)
        ensures
            r == self.object_ceiling(),
    {
        match self {
            ObjectDemandEnvelope::Range { max_objects, .. } => max_objects,
            ObjectDemandEnvelope::Anchor { max_objects, .. } => max_objects,
        }
    }

    /// Returns the exact retained-byte ceiling.
    pub fn max_retained_bytes(self) -> (r: usize)
        ensures
            r == self.byte_ceiling(),
    {
        match self {
            ObjectDemandEnvelope::Range { max_retained_bytes, .. } => max_retained_bytes,
            ObjectDemandEnvelope::Anchor { max_retained_bytes, .. } => max_retained_bytes,
        }
    }

    /// Reports whether an anchor is eligible, including both interval edges.
    pub fn contains_anchor(self, anchor: ByteOffset) -> (r: bool)
        ensures
            r == self.admits_anchor(anchor),
    {
        match self {
            ObjectDemandEnvelope::Range { range, .. } => range.contains_offset(anchor),
            ObjectDemandEnvelope::Anchor { anchor: expected, .. } => anchor.get()
                == expected.get(),
        }
    }

    /// Checks the demand on its own: positive limits and a cursor inside the envelope.
    pub fn validate_local(self) -> (r: Result<(), ObjectContractError>)
        ensures
            match self.local_fault() {
                Some(e) => r == Err::<(), ObjectContractError>(e),
                None => r is Ok,
            },
    {
        if self.max_objects() == 0 {
            return Err(ObjectContractError::ZeroObjectLimit);
        }
        if self.max_retained_bytes() == 0 {
            return Err(ObjectContractError::ZeroRetainedByteLimit);
        }
        match self.cursor() {
            Some(cursor) => {
                if !self.contains_anchor(cursor.anchor()) {
                    return Err(ObjectContractError::CursorOutsideEnvelope);
                }
            },
            None => {},
        }
        Ok(())
    }
}

/// Exact immutable key of an object demand and its response.
#[derive(Clone, Copy, Debug, PartialEq, Eq, Structural, Hash)]
pub struct ObjectRequestKey {
    pub(crate) id: ObjectRequestId,
    pub(crate) binding: BindingId,
    pub(crate) revision: SourceRevision,
    pub(crate) presentation_generation: PresentationGeneration,
    pub(crate) purpose: ObjectPurpose,
    pub(crate) demand: ObjectDemandEnvelope,
}

impl ObjectRequestKey {
    #[verifier::type_invariant]
    pub(crate) open spec fn checked_demand(self) -> bool {
        self.demand.local_fault() is None
    }

    /// The unique request identity.
    pub open(crate) spec fn request_id(self) -> ObjectRequestId {
        self.id
    }

    /// The host binding identity.
    pub open(crate) spec fn binding_id(self) -> BindingId {
        self.binding
    }

    /// The exact source revision.
    pub open(crate) spec fn source_revision(self) -> SourceRevision {
        self.revision
    }

    /// The presentation generation.
    pub open(crate) spec fn generation(self) -> PresentationGeneration {
        self.presentation_generation
    }

    /// The request purpose.
    pub open(crate) spec fn object_purpose(self) -> ObjectPurpose {
        self.purpose
    }

    /// The frozen demand envelope.
    pub open(crate) spec fn envelope(self) -> ObjectDemandEnvelope {
        self.demand
    }

    /// Creates a request key from one already checked bounded demand.
    pub fn new(
        id: ObjectRequestId,
        binding: BindingId,
        revision: SourceRevision,
        presentation_generation: PresentationGeneration,
        purpose: ObjectPurpose,
        demand: ObjectDemandEnvelope,
    ) -> (r: Result<Self, ObjectContractError>)
        ensures
            match demand.local_fault() {
                Some(e) => r == Err::<ObjectRequestKey, ObjectContractError>(e),
                None => r matches Ok(key) && key.request_id() == id && key.binding_id() == binding
                    && key.source_revision() == revision && key.generation()
                    == presentation_generation && key.object_purpose() == purpose
                    && key.envelope() == demand,
            },
    {
        match demand.validate_local() {
            Ok(()) => {},
            Err(e) => {
                return Err(e);
            },
        }
        Ok(ObjectRequestKey { id, binding, revision, presentation_generation, purpose, demand })
    }

    /// Returns the unique request identity.
    pub fn id(self) -> (r: ObjectRequestId)
        ensures
            r == self.request_id(),
    {
        self.id
    }

    /// Returns the host binding identity.
    pub fn binding(self) -> (r: BindingId)
        ensures
            r == self.binding_id(),
    {
        self.binding
    }

    /// Returns the exact source revision.
    pub fn revision(self) -> (r: SourceRevision)
        ensures
            r == self.source_revision(),
    {
        self.revision
    }

    /// Returns the immutable presentation generation.
    pub fn presentation_generation(self) -> (r: PresentationGeneration)
        ensures
            r == self.generation(),
    {
        self.presentation_generation
    }

    /// Returns the request purpose.
    pub fn purpose(self) -> (r: ObjectPurpose)
        ensures
            r == self.object_purpose(),
    {
        self.purpose
    }

    /// Returns the exact frozen demand envelope.
    pub fn demand(self) -> (r: ObjectDemandEnvelope)
        ensures
            r == self.envelope(),
            r.local_fault() is None,
    {
        proof {
            use_type_invariant(&self);
        }
        self.demand
    }
}

/// One bounded inline-object request for dispatch to the host.
#[derive(Clone, Copy, Debug, PartialEq, Eq, Structural, Hash)]
pub struct ObjectRequest {
    pub(crate) key: ObjectRequestKey,
}

impl ObjectRequest {
    /// The exact request/response key.
    pub open(crate) spec fn request_key(self) -> ObjectRequestKey {
        self.key
    }

    /// Creates a request from its exact immutable key.
    pub fn new(key: ObjectRequestKey) -> (r: Self)
        ensures
            r.request_key() == key,
    {
        ObjectRequest { key }
    }

    /// Returns the exact request/response key.
    pub fn key(self) -> (r: ObjectRequestKey)
        ensures
            r == self.request_key(),
    {
        self.key
    }
}

} // verus!
