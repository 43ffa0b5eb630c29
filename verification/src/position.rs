use std::cmp::Ordering;

use vstd::prelude::*;

use crate::coordinates::ByteOffset;

verus! {

/// Stable opaque host-owned identity of one source-zero-width inline object.
#[derive(Clone, Copy, Debug, Default, PartialEq, Eq, Structural, Hash, PartialOrd, Ord)]
pub struct InlineObjectId(pub(crate) u128);

impl InlineObjectId {
    /// The wrapped number.
    pub open(crate) spec fn value(self) -> u128 {
        self.0
    }

    /// Wraps a host-assigned opaque identity without interpreting it.
    pub fn new(value: u128) -> (r: Self)
        ensures
            r.value() == value,
    {
        InlineObjectId(value)
    }

    /// Returns the exact opaque value for host correlation.
    pub fn get(self) -> (r: u128)
        ensures
            r == self.value(),
    {
        self.0
    }
}

/// Opaque host-owned total-order key for objects sharing one byte anchor.
#[derive(Clone, Copy, Debug, Default, PartialEq, Eq, Structural, Hash, PartialOrd, Ord)]
pub struct InlineObjectOrder(pub(crate) u128);

impl InlineObjectOrder {
    /// The wrapped number.
    pub open(crate) spec fn value(self) -> u128 {
        self.0
    }

    /// Wraps one host-assigned same-anchor order key.
    pub fn new(value: u128) -> (r: Self)
        ensures
            r.value() == value,
    {
        InlineObjectOrder(value)
    }

    /// Returns the exact opaque ordering value.
    pub fn get(self) -> (r: u128)
        ensures
            r == self.value(),
    {
        self.0
    }
}

/// One named object edge in an adjacent-object gap witness.
#[derive(Clone, Copy, Debug, PartialEq, Eq, Structural, Hash)]
pub struct InlineObjectNeighbor {
    pub(crate) id: InlineObjectId,
    pub(crate) order: InlineObjectOrder,
}

impl InlineObjectNeighbor {
    /// The stable object identity.
    pub open(crate) spec fn object_id(self) -> InlineObjectId {
        self.id
    }

    /// The same-anchor order key.
    pub open(crate) spec fn order_key(self) -> InlineObjectOrder {
        self.order
    }

    /// Creates one object edge from its stable identity and same-anchor order key.
    pub fn new(id: InlineObjectId, order: InlineObjectOrder) -> (r: Self)
        ensures
            r.object_id() == id,
            r.order_key() == order,
    {
        InlineObjectNeighbor { id, order }
    }

    /// Returns the stable object identity.
    pub fn id(self) -> (r: InlineObjectId)
        ensures
            r == self.object_id(),
    {
        self.id
    }

    /// Returns the object's same-anchor order key.
    pub fn order(self) -> (r: InlineObjectOrder)
        ensures
            r == self.order_key(),
    {
        self.order
    }
}

/// Constant-size exact witness for one source position at an inline-object anchor.
#[derive(Clone, Copy, Debug, PartialEq, Eq, Structural, Hash)]
pub enum InlineObjectGap {
    /// No source-zero-width objects exist at the byte anchor.
    NoObjects,
    /// The position precedes the first named object.
    Before(InlineObjectNeighbor),
    /// The position lies between the two named immediately adjacent objects.
    Between {
        /// Immediately preceding object.
        preceding: InlineObjectNeighbor,
        /// Immediately following object.
        following: InlineObjectNeighbor,
    },
    /// The position follows the last named object.
    After(InlineObjectNeighbor),
}

/// Rejection of a locally malformed adjacent-object witness.
#[derive(Clone, Copy, Debug, PartialEq, Eq, Structural)]
pub enum InlineObjectGapError {
    /// Both edges named the same object identity.
    DuplicateIdentity(InlineObjectId),
    /// A between-gap did not name strictly increasing order keys.
    NonIncreasingOrder {
        /// Preceding order key.
        preceding: InlineObjectOrder,
        /// Following order key.
        following: InlineObjectOrder,
    },
    /// A layout-engine gap used an unsupported or malformed edge combination.
    InvalidGpuiGap,
}

/// One edge of a gap as a layout engine reports it.
#[derive(Clone, Copy, Debug, PartialEq, Eq, Structural, Hash)]
pub enum ObjectGapEdge {
    /// The anchor holds no objects.
    NoObject,
    /// The gap lies before every object of the anchor.
    BeforeAll,
    /// The gap lies after every object of the anchor.
    AfterAll,
    /// The named object borders the gap.
    Object {
        /// Stable object identity.
        id: InlineObjectId,
        /// Same-anchor order key.
        order: InlineObjectOrder,
    },
}

/// The order of two named neighbors by `(order, id)`, lexicographically.
pub open spec fn neighbor_order(
    left: InlineObjectNeighbor,
    right: InlineObjectNeighbor,
) -> Ordering {
    if left.order_key().value() < right.order_key().value() {
        Ordering::Less
    } else if left.order_key().value() > right.order_key().value() {
        Ordering::Greater
    } else if left.object_id().value() < right.object_id().value() {
        Ordering::Less
    } else if left.object_id().value() > right.object_id().value() {
        Ordering::Greater
    } else {
        Ordering::Equal
    }
}

/// The relative order of two gaps witnessed at one byte anchor; `None` when one witness
/// says the anchor holds no objects and the other names one.
pub open spec fn gap_order(left: InlineObjectGap, right: InlineObjectGap) -> Option<
    Ordering,
> {
    match (left, right) {
        (InlineObjectGap::NoObjects, InlineObjectGap::NoObjects) => Some(Ordering::Equal),
        (InlineObjectGap::NoObjects, _) => None,
        (_, InlineObjectGap::NoObjects) => None,
        (InlineObjectGap::Before(l), InlineObjectGap::Before(r)) => if l == r {
            Some(Ordering::Equal)
        } else {
            None
        },
        (InlineObjectGap::After(l), InlineObjectGap::After(r)) => if l == r {
            Some(Ordering::Equal)
        } else {
            None
        },
        (InlineObjectGap::Before(_), _) => Some(Ordering::Less),
        (_, InlineObjectGap::After(_)) => Some(Ordering::Less),
        (InlineObjectGap::After(_), _) => Some(Ordering::Greater),
        (_, InlineObjectGap::Before(_)) => Some(Ordering::Greater),
        (
            InlineObjectGap::Between { preceding: lp, following: lf },
            InlineObjectGap::Between { preceding: rp, following: rf },
        ) => if lp == rp && lf == rf {
            Some(Ordering::Equal)
        } else {
            Some(neighbor_order(lp, rp))
        },
    }
}

/// The reverse of an ordering.
pub open spec fn flipped(o: Option<Ordering>) -> Option<Ordering> {
    match o {
        Some(Ordering::Less) => Some(Ordering::Greater),
        Some(Ordering::Greater) => Some(Ordering::Less),
        other => other,
    }
}

/// The order of two gap witnesses for one anchor is the reverse of the order taken the other
/// way round, and every witness is equal to itself.
pub proof fn lemma_gap_order_antisymmetric(left: InlineObjectGap, right: InlineObjectGap)
    ensures
        gap_order(left, right) == flipped(gap_order(right, left)),
        gap_order(left, left) == Some(Ordering::Equal),
{
}

/// Gap witnesses at one anchor are strictly ordered transitively: a gap before a second gap
/// that is before a third is before the third.
pub proof fn lemma_gap_order_transitive(a: InlineObjectGap, b: InlineObjectGap, c: InlineObjectGap)
    requires
        gap_order(a, b) == Some(Ordering::Less),
        gap_order(b, c) == Some(Ordering::Less),
    ensures
        gap_order(a, c) == Some(Ordering::Less),
{
}

/// Order of two gaps witnessed at one anchor, as a pure value.
fn neighbor_compare(left: InlineObjectNeighbor, right: InlineObjectNeighbor) -> (r: Ordering)
    ensures
        r == neighbor_order(left, right),
{
    if left.order.0 < right.order.0 {
        Ordering::Less
    } else if left.order.0 > right.order.0 {
        Ordering::Greater
    } else if left.id.0 < right.id.0 {
        Ordering::Less
    } else if left.id.0 > right.id.0 {
        Ordering::Greater
    } else {
        Ordering::Equal
    }
}

impl InlineObjectGap {
    /// What `between` returns for two neighbors.
    pub open spec fn between_result(
        preceding: InlineObjectNeighbor,
        following: InlineObjectNeighbor,
    ) -> Result<InlineObjectGap, InlineObjectGapError> {
        if preceding.object_id() == following.object_id() {
            Err(InlineObjectGapError::DuplicateIdentity(preceding.object_id()))
        } else if preceding.order_key().value() >= following.order_key().value() {
            Err(
                InlineObjectGapError::NonIncreasingOrder {
                    preceding: preceding.order_key(),
                    following: following.order_key(),
                },
            )
        } else {
            Ok(InlineObjectGap::Between { preceding, following })
        }
    }

    /// Creates the sole position at an anchor proven to have no inline objects.
    pub fn no_objects() -> (r: Self)
        ensures
            r == InlineObjectGap::NoObjects,
    {
        InlineObjectGap::NoObjects
    }

    /// Creates the gap before a proven first object.
    pub fn before(first: InlineObjectNeighbor) -> (r: Self)
        ensures
            r == InlineObjectGap::Before(first),
    {
        InlineObjectGap::Before(first)
    }

    /// Creates the gap between two proven adjacent objects.
    pub fn between(preceding: InlineObjectNeighbor, following: InlineObjectNeighbor) -> (r: Result<
        Self,
        InlineObjectGapError,
    >)
        ensures
            r == Self::between_result(preceding, following),
    {
        if preceding.id.0 == following.id.0 {
            return Err(InlineObjectGapError::DuplicateIdentity(preceding.id));
        }
        if preceding.order.0 >= following.order.0 {
            return Err(
                InlineObjectGapError::NonIncreasingOrder {
                    preceding: preceding.order,
                    following: following.order,
                },
            );
        }
        Ok(InlineObjectGap::Between { preceding, following })
    }

    /// Creates the gap after a proven last object.
    pub fn after(last: InlineObjectNeighbor) -> (r: Self)
        ensures
            r == InlineObjectGap::After(last),
    {
        InlineObjectGap::After(last)
    }

    /// Checks the relative order of two gaps at the same proven byte anchor.
    ///
    /// The caller remains responsible for proving both witnesses against the same binding and
    /// revision. `None` is returned when a no-object witness is compared with an object witness.
    pub fn compare_at_same_anchor(self, other: Self) -> (r: Option<Ordering>)
        ensures
            r == gap_order(self, other),
    {
        match (self, other) {
            (InlineObjectGap::NoObjects, InlineObjectGap::NoObjects) => Some(Ordering::Equal),
            (InlineObjectGap::NoObjects, _) => None,
            (_, InlineObjectGap::NoObjects) => None,
            (InlineObjectGap::Before(left), InlineObjectGap::Before(right)) => {
                if left == right {
                    Some(Ordering::Equal)
                } else {
                    None
                }
            },
            (InlineObjectGap::After(left), InlineObjectGap::After(right)) => {
                if left == right {
                    Some(Ordering::Equal)
                } else {
                    None
                }
            },
            (InlineObjectGap::Before(_), _) => Some(Ordering::Less),
            (_, InlineObjectGap::After(_)) => Some(Ordering::Less),
            (InlineObjectGap::After(_), _) => Some(Ordering::Greater),
            (_, InlineObjectGap::Before(_)) => Some(Ordering::Greater),
            (
                InlineObjectGap::Between { preceding: left_preceding, following: left_following },
                InlineObjectGap::Between { preceding: right_preceding, following: right_following },
            ) => {
                if left_preceding == right_preceding && left_following == right_following {
                    Some(Ordering::Equal)
                } else {
                    Some(neighbor_compare(left_preceding, right_preceding))
                }
            },
        }
    }

    /// The gap described by the two edges a layout engine reports for it.
    pub open(crate) spec fn edges_result(preceding: ObjectGapEdge, following: ObjectGapEdge) -> Result<
        InlineObjectGap,
        InlineObjectGapError,
    > {
        let invalid = InlineObjectGapError::InvalidGpuiGap;
        match (preceding, following) {
            (ObjectGapEdge::NoObject, ObjectGapEdge::NoObject) => Ok(InlineObjectGap::NoObjects),
            (ObjectGapEdge::BeforeAll, ObjectGapEdge::Object { id, order }) => Ok(
                InlineObjectGap::Before(InlineObjectNeighbor { id, order }),
            ),
            (ObjectGapEdge::BeforeAll, _) => Err(invalid),
            (ObjectGapEdge::Object { id, order }, ObjectGapEdge::AfterAll) => Ok(
                InlineObjectGap::After(InlineObjectNeighbor { id, order }),
            ),
            (_, ObjectGapEdge::AfterAll) => Err(invalid),
            (
                ObjectGapEdge::Object { id: pid, order: porder },
                ObjectGapEdge::Object { id: fid, order: forder },
            ) => Self::between_result(
                InlineObjectNeighbor { id: pid, order: porder },
                InlineObjectNeighbor { id: fid, order: forder },
            ),
            _ => Err(invalid),
        }
    }

    /// Reads a gap from the two edges a layout engine reports for it.
    pub fn from_edges(preceding: ObjectGapEdge, following: ObjectGapEdge) -> (r: Result<
        Self,
        InlineObjectGapError,
    >)
        ensures
            r == Self::edges_result(preceding, following),
    {
        match (preceding, following) {
            (ObjectGapEdge::NoObject, ObjectGapEdge::NoObject) => Ok(InlineObjectGap::NoObjects),
            (ObjectGapEdge::BeforeAll, ObjectGapEdge::Object { id, order }) => Ok(
                InlineObjectGap::Before(InlineObjectNeighbor { id, order }),
            ),
            (ObjectGapEdge::BeforeAll, _) => Err(InlineObjectGapError::InvalidGpuiGap),
            (ObjectGapEdge::Object { id, order }, ObjectGapEdge::AfterAll) => Ok(
                InlineObjectGap::After(InlineObjectNeighbor { id, order }),
            ),
            (_, ObjectGapEdge::AfterAll) => Err(InlineObjectGapError::InvalidGpuiGap),
            (
                ObjectGapEdge::Object { id: pid, order: porder },
                ObjectGapEdge::Object { id: fid, order: forder },
            ) => Self::between(
                InlineObjectNeighbor { id: pid, order: porder },
                InlineObjectNeighbor { id: fid, order: forder },
            ),
            _ => Err(InlineObjectGapError::InvalidGpuiGap),
        }
    }

    /// The two edges a layout engine uses to report this gap.
    pub open spec fn edges_of(self) -> (ObjectGapEdge, ObjectGapEdge) {
        match self {
            InlineObjectGap::NoObjects => (ObjectGapEdge::NoObject, ObjectGapEdge::NoObject),
            InlineObjectGap::Before(first) => (
                ObjectGapEdge::BeforeAll,
                ObjectGapEdge::Object { id: first.object_id(), order: first.order_key() },
            ),
            InlineObjectGap::Between { preceding, following } => (
                ObjectGapEdge::Object { id: preceding.object_id(), order: preceding.order_key() },
                ObjectGapEdge::Object { id: following.object_id(), order: following.order_key() },
            ),
            InlineObjectGap::After(last) => (
                ObjectGapEdge::Object { id: last.object_id(), order: last.order_key() },
                ObjectGapEdge::AfterAll,
            ),
        }
    }

    /// Returns the two edges a layout engine uses to report this gap.
    pub fn edges(self) -> (r: (ObjectGapEdge, ObjectGapEdge))
        ensures
            r == self.edges_of(),
    {
        match self {
            InlineObjectGap::NoObjects => (ObjectGapEdge::NoObject, ObjectGapEdge::NoObject),
            InlineObjectGap::Before(first) => (
                ObjectGapEdge::BeforeAll,
                ObjectGapEdge::Object { id: first.id, order: first.order },
            ),
            InlineObjectGap::Between { preceding, following } => (
                ObjectGapEdge::Object { id: preceding.id, order: preceding.order },
                ObjectGapEdge::Object { id: following.id, order: following.order },
            ),
            InlineObjectGap::After(last) => (
                ObjectGapEdge::Object { id: last.id, order: last.order },
                ObjectGapEdge::AfterAll,
            ),
        }
    }
}

/// A well-formed gap read back from the edges it is reported as is that same gap.
pub proof fn lemma_gap_edges_round_trip(gap: InlineObjectGap)
    requires
        gap matches InlineObjectGap::Between { preceding, following } ==> InlineObjectGap::between_result(
            preceding,
            following,
        ) is Ok,
    ensures
        InlineObjectGap::edges_result(gap.edges_of().0, gap.edges_of().1) == Ok::<
            InlineObjectGap,
            InlineObjectGapError,
        >(gap),
{
}

/// Fixed-size canonical position in one revision's ordered text-and-object stream.
#[derive(Clone, Copy, Debug, PartialEq, Eq, Structural, Hash)]
pub struct SourcePosition {
    /// Proven UTF-8 byte boundary in the authoritative source.
    pub byte_offset: ByteOffset,
    /// Proven adjacent-object gap at that byte boundary.
    pub gap: InlineObjectGap,
}

/// The composite order of two positions of one revision.
pub open spec fn position_order(left: SourcePosition, right: SourcePosition) -> Option<
    Ordering,
> {
    if left.byte_offset.value() < right.byte_offset.value() {
        Some(Ordering::Less)
    } else if left.byte_offset.value() > right.byte_offset.value() {
        Some(Ordering::Greater)
    } else {
        gap_order(left.gap, right.gap)
    }
}

/// `end` precedes `start` in the composite order.
pub open spec fn positions_reversed(start: SourcePosition, end: SourcePosition) -> bool {
    position_order(start, end) == Some(Ordering::Greater)
}

/// The two positions carry same-anchor witnesses that cannot describe one object collection.
pub open spec fn positions_incomparable(start: SourcePosition, end: SourcePosition) -> bool {
    position_order(start, end) is None
}

/// The composite order of positions is antisymmetric and reflexive.
pub proof fn lemma_position_order_antisymmetric(left: SourcePosition, right: SourcePosition)
    ensures
        position_order(left, right) == flipped(position_order(right, left)),
        position_order(left, left) == Some(Ordering::Equal),
{
}

/// Source positions of one revision are strictly ordered transitively.
pub proof fn lemma_position_order_transitive(a: SourcePosition, b: SourcePosition, c: SourcePosition)
    requires
        position_order(a, b) == Some(Ordering::Less),
        position_order(b, c) == Some(Ordering::Less),
    ensures
        position_order(a, c) == Some(Ordering::Less),
{
    if a.byte_offset.value() == b.byte_offset.value() && b.byte_offset.value()
        == c.byte_offset.value() {
        lemma_gap_order_transitive(a.gap, b.gap, c.gap);
    }
}

impl SourcePosition {
    /// Creates a claimed composite source position.
    ///
    /// Mutation entry points validate the claim against admitted text and object residency before
    /// retaining it as proof-backed state.
    pub fn new(byte_offset: ByteOffset, gap: InlineObjectGap) -> (r: Self)
        ensures
            r == (SourcePosition { byte_offset, gap }),
    {
        SourcePosition { byte_offset, gap }
    }

    /// Checks the composite ordering of two positions from the same exact revision.
    pub fn compare_in_revision(self, other: Self) -> (r: Option<Ordering>)
        ensures
            r == position_order(self, other),
    {
        if self.byte_offset.get() < other.byte_offset.get() {
            Some(Ordering::Less)
        } else if self.byte_offset.get() > other.byte_offset.get() {
            Some(Ordering::Greater)
        } else {
            self.gap.compare_at_same_anchor(other.gap)
        }
    }
}

/// Rejection of an invalid composite source range.
#[derive(Clone, Copy, Debug, PartialEq, Eq, Structural)]
pub enum SourceRangeError {
    /// The end precedes the start.
    Reversed {
        /// Proposed start.
        start: SourcePosition,
        /// Proposed end.
        end: SourcePosition,
    },
    /// Same-anchor witnesses cannot both describe one coherent object collection.
    IncompatibleGapWitnesses {
        /// Proposed start.
        start: SourcePosition,
        /// Proposed end.
        end: SourcePosition,
    },
}

/// Checked half-open range in the composite source stream.
#[derive(Clone, Copy, Debug, PartialEq, Eq, Structural, Hash)]
pub struct SourceRange {
    pub(crate) start: SourcePosition,
    pub(crate) end: SourcePosition,
}

impl SourceRange {
    #[verifier::type_invariant]
    pub(crate) open spec fn ordered(self) -> bool {
        position_order(self.start, self.end) matches Some(o) && o != Ordering::Greater
    }

    /// The inclusive composite start.
    pub open(crate) spec fn first(self) -> SourcePosition {
        self.start
    }

    /// The exclusive composite end.
    pub open(crate) spec fn last(self) -> SourcePosition {
        self.end
    }

    /// Creates a claimed composite range, rejecting reversed or incompatible same-anchor gaps.
    ///
    /// Mutation entry points separately require admitted residency proof for both endpoints.
    pub fn new(start: SourcePosition, end: SourcePosition) -> (r: Result<Self, SourceRangeError>)
        ensures
            if positions_reversed(start, end) {
                r == Err::<SourceRange, SourceRangeError>(SourceRangeError::Reversed { start, end })
            } else if positions_incomparable(start, end) {
                r == Err::<SourceRange, SourceRangeError>(
                    SourceRangeError::IncompatibleGapWitnesses { start, end },
                )
            } else {
                r matches Ok(range) && range.first() == start && range.last() == end
            },
    {
        match start.compare_in_revision(end) {
            Some(Ordering::Greater) => Err(SourceRangeError::Reversed { start, end }),
            None => Err(SourceRangeError::IncompatibleGapWitnesses { start, end }),
            Some(_) => Ok(SourceRange { start, end }),
        }
    }

    /// Returns the inclusive composite start.
    pub fn start(self) -> (r: SourcePosition)
        ensures
            r == self.first(),
            !positions_reversed(self.first(), self.last()) && !positions_incomparable(self.first(), self.last()),
    {
        proof {
            use_type_invariant(self);
        }
        self.start
    }

    /// Returns the exclusive composite end.
    pub fn end(self) -> (r: SourcePosition)
        ensures
            r == self.last(),
            !positions_reversed(self.first(), self.last()) && !positions_incomparable(self.first(), self.last()),
    {
        proof {
            use_type_invariant(self);
        }
        self.end
    }

    /// Reports whether the range is empty.
    pub fn is_empty(self) -> (r: bool)
        ensures
            r == (self.first().byte_offset == self.last().byte_offset && self.first().gap
                == self.last().gap),
    {
        self.start.byte_offset.get() == self.end.byte_offset.get() && self.start.gap
            == self.end.gap
    }
}

/// The object that a range starting at `gap` begins with, if the gap names one after it.
pub open spec fn leading_object(gap: InlineObjectGap) -> Option<InlineObjectNeighbor> {
    match gap {
        InlineObjectGap::Before(first) => Some(first),
        InlineObjectGap::Between { following, .. } => Some(following),
        _ => None,
    }
}

/// The object that a range ending at `gap` ends with, if the gap names one before it.
pub open spec fn trailing_object(gap: InlineObjectGap) -> Option<InlineObjectNeighbor> {
    match gap {
        InlineObjectGap::After(last) => Some(last),
        InlineObjectGap::Between { preceding, .. } => Some(preceding),
        _ => None,
    }
}

/// Returns the one inline object that `range` selects: the object its start gap opens onto
/// when that is also the object its end gap closes after.
pub fn selected_object_neighbor(range: SourceRange) -> (r: Option<InlineObjectNeighbor>)
    ensures
        r == (if leading_object(range.first().gap) == trailing_object(range.last().gap) {
            leading_object(range.first().gap)
        } else {
            None
        }),
{
    let leading = match range.start.gap {
        InlineObjectGap::Before(first) => Some(first),
        InlineObjectGap::Between { following, .. } => Some(following),
        InlineObjectGap::NoObjects | InlineObjectGap::After(_) => None,
    };
    let trailing = match range.end.gap {
        InlineObjectGap::After(last) => Some(last),
        InlineObjectGap::Between { preceding, .. } => Some(preceding),
        InlineObjectGap::NoObjects | InlineObjectGap::Before(_) => None,
    };
    match (leading, trailing) {
        (Some(first), Some(last)) => {
            if first.id.0 == last.id.0 && first.order.0 == last.order.0 {
                Some(first)
            } else {
                None
            }
        },
        _ => None,
    }
}

} // verus!
