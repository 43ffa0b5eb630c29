use core::cmp::Ordering;

use vstd::prelude::*;
use vstd::std_specs::cmp::PartialOrdSpec;

use crate::page::RangeContractError;

verus! {

/// Opaque identity of one host-owned text source.
#[derive(Clone, Copy, Debug, PartialEq, Eq, Structural, Hash, PartialOrd, Ord)]
pub struct BindingId(pub(crate) u64);

impl BindingId {
    /// The wrapped number.
    pub open(crate) spec fn value(self) -> u64 {
        self.0
    }

    /// Wraps a host-assigned opaque value.
    pub fn new(value: u64) -> (r: Self)
        ensures
            r.value() == value,
    {
        BindingId(value)
    }

    /// Returns the opaque value for host-side correlation.
    pub fn get(self) -> (r: u64)
        ensures
            r == self.value(),
    {
        self.0
    }
}

/// Opaque revision of a host-owned text source.
#[derive(Clone, Copy, Debug, PartialEq, Eq, Structural, Hash, PartialOrd, Ord)]
pub struct SourceRevision(pub(crate) u64);

impl SourceRevision {
    /// The wrapped number.
    pub open(crate) spec fn value(self) -> u64 {
        self.0
    }

    /// Wraps a host-assigned opaque value.
    pub fn new(value: u64) -> (r: Self)
        ensures
            r.value() == value,
    {
        SourceRevision(value)
    }

    /// Returns the opaque value for host-side correlation.
    pub fn get(self) -> (r: u64)
        ensures
            r == self.value(),
    {
        self.0
    }
}

/// Unique identity of one bounded page request.
#[derive(Clone, Copy, Debug, PartialEq, Eq, Structural, Hash, PartialOrd, Ord)]
pub struct PageRequestId(pub(crate) u64);

impl PageRequestId {
    /// The wrapped number.
    pub open(crate) spec fn value(self) -> u64 {
        self.0
    }

    /// Wraps a host-assigned opaque value.
    pub fn new(value: u64) -> (r: Self)
        ensures
            r.value() == value,
    {
        PageRequestId(value)
    }

    /// Returns the opaque value for host-side correlation.
    pub fn get(self) -> (r: u64)
        ensures
            r == self.value(),
    {
        self.0
    }
}

/// Stable identity of one returned page payload.
#[derive(Clone, Copy, Debug, PartialEq, Eq, Structural, Hash, PartialOrd, Ord)]
pub struct PageId(pub(crate) u64);

impl PageId {
    /// The wrapped number.
    pub open(crate) spec fn value(self) -> u64 {
        self.0
    }

    /// Wraps a host-assigned opaque value.
    pub fn new(value: u64) -> (r: Self)
        ensures
            r.value() == value,
    {
        PageId(value)
    }

    /// Returns the opaque value for host-side correlation.
    pub fn get(self) -> (r: u64)
        ensures
            r == self.value(),
    {
        self.0
    }
}

/// Opaque host-owned identity of an inline atom.
#[derive(Clone, Copy, Debug, PartialEq, Eq, Structural, Hash, PartialOrd, Ord)]
pub struct AtomId(pub(crate) u64);

impl AtomId {
    /// The wrapped number.
    pub open(crate) spec fn value(self) -> u64 {
        self.0
    }

    /// Wraps a host-assigned opaque value.
    pub fn new(value: u64) -> (r: Self)
        ensures
            r.value() == value,
    {
        AtomId(value)
    }

    /// Returns the opaque value for host-side correlation.
    pub fn get(self) -> (r: u64)
        ensures
            r == self.value(),
    {
        self.0
    }
}

/// An absolute byte offset in a logical UTF-8 source, ordered as its number.
#[derive(Clone, Copy, Debug, PartialEq, Eq, Structural, Hash, Ord)]
pub struct ByteOffset(pub(crate) u64);

impl PartialOrd for ByteOffset {
    fn partial_cmp(&self, other: &Self) -> (r: Option<Ordering>) {
        if self.0 < other.0 {
            Some(Ordering::Less)
        } else if self.0 == other.0 {
            Some(Ordering::Equal)
        } else {
            Some(Ordering::Greater)
        }
    }
}

impl vstd::std_specs::cmp::PartialOrdSpecImpl for ByteOffset {
    open spec fn obeys_partial_cmp_spec() -> bool {
        true
    }

    open spec fn partial_cmp_spec(&self, other: &Self) -> Option<Ordering> {
        if self.value() < other.value() {
            Some(Ordering::Less)
        } else if self.value() == other.value() {
            Some(Ordering::Equal)
        } else {
            Some(Ordering::Greater)
        }
    }
}

impl Default for ByteOffset {
    /// The start of the source.
    fn default() -> (r: Self)
        ensures
            r.value() == 0,
    {
        ByteOffset(0)
    }
}

impl ByteOffset {
    /// The wrapped number.
    pub open(crate) spec fn value(self) -> u64 {
        self.0
    }

    /// The offset holding `value`.
    pub open(crate) spec fn from_value(value: u64) -> ByteOffset {
        ByteOffset(value)
    }

    /// Creates an absolute byte offset.
    pub fn new(value: u64) -> (r: Self)
        ensures
            r.value() == value,
    {
        ByteOffset(value)
    }

    /// Returns the absolute byte offset.
    pub fn get(self) -> (r: u64)
        ensures
            r == self.value(),
    {
        self.0
    }
}

/// Byte offsets are ordered and equal as their numbers are, and the default offset is zero.
pub proof fn lemma_offset_order(x: ByteOffset, y: ByteOffset)
    ensures
        (x.partial_cmp_spec(&y) == Some(Ordering::Less)) == (x.value() < y.value()),
        (x.partial_cmp_spec(&y) == Some(Ordering::Equal)) == (x.value() == y.value()),
        (x.partial_cmp_spec(&y) == Some(Ordering::Greater)) == (x.value() > y.value()),
        (x == y) == (x.value() == y.value()),
{
}

/// A checked half-open absolute byte range.
#[derive(Clone, Copy, Debug, PartialEq, Eq, Structural, Hash)]
pub struct ByteRange {
    pub(crate) start: ByteOffset,
    pub(crate) end: ByteOffset,
}

impl ByteRange {
    #[verifier::type_invariant]
    pub(crate) closed spec fn ordered(self) -> bool {
        self.start.0 <= self.end.0
    }

    /// Inclusive start offset.
    pub open(crate) spec fn start_offset(self) -> ByteOffset {
        self.start
    }

    /// Exclusive end offset.
    pub open(crate) spec fn end_offset(self) -> ByteOffset {
        self.end
    }

    /// Inclusive start as a number.
    pub open(crate) spec fn lo(self) -> u64 {
        self.start.0
    }

    /// Exclusive end as a number.
    pub open(crate) spec fn hi(self) -> u64 {
        self.end.0
    }

    /// Whether `offset` lies in the range, both edges included.
    pub open spec fn holds_offset(self, offset: u64) -> bool {
        self.lo() <= offset && offset <= self.hi()
    }

    /// Whether `other` lies completely inside this range.
    pub open spec fn encloses(self, other: ByteRange) -> bool {
        self.lo() <= other.lo() && other.hi() <= self.hi()
    }

    /// Whether the two half-open ranges share a byte.
    pub open spec fn meets(self, other: ByteRange) -> bool {
        self.lo() < other.hi() && other.lo() < self.hi()
    }

    /// Start of the common part of two ranges.
    pub open spec fn meet_lo(self, other: ByteRange) -> u64 {
        if self.lo() < other.lo() { other.lo() } else { self.lo() }
    }

    /// End of the common part of two ranges.
    pub open spec fn meet_hi(self, other: ByteRange) -> u64 {
        if self.hi() < other.hi() { self.hi() } else { other.hi() }
    }

    /// The non-empty common part of two ranges, as `(start, end)`.
    pub open spec fn meet(self, other: ByteRange) -> Option<(u64, u64)> {
        if self.meet_lo(other) < self.meet_hi(other) {
            Some((self.meet_lo(other), self.meet_hi(other)))
        } else {
            None
        }
    }

    /// Creates a range, rejecting an end before its start.
    pub fn new(start: ByteOffset, end: ByteOffset) -> (r: Result<Self, RangeContractError>)
        ensures
            match r {
                Ok(range) => start.value() <= end.value() && range.start_offset() == start
                    && range.end_offset() == end,
                Err(e) => end.value() < start.value() && e == (RangeContractError::ReversedByteRange {
                    start,
                    end,
                }),
            },
    {
        if end.0 < start.0 {
            return Err(RangeContractError::ReversedByteRange { start, end });
        }
        Ok(ByteRange { start, end })
    }

    /// Creates a range from raw absolute offsets.
    pub fn from_u64(start: u64, end: u64) -> (r: Result<Self, RangeContractError>)
        ensures
            match r {
                Ok(range) => start <= end && range.lo() == start && range.hi() == end,
                Err(e) => end < start && e == (RangeContractError::ReversedByteRange {
                    start: ByteOffset::from_value(start),
                    end: ByteOffset::from_value(end),
                }),
            },
    {
        Self::new(ByteOffset::new(start), ByteOffset::new(end))
    }

    /// Returns the inclusive start offset.
    pub fn start(self) -> (r: ByteOffset)
        ensures
            r == self.start_offset(),
            r.value() <= self.hi(),
    {
        proof {
            use_type_invariant(&self);
        }
        self.start
    }

    /// Returns the exclusive end offset.
    pub fn end(self) -> (r: ByteOffset)
        ensures
            r == self.end_offset(),
            self.lo() <= r.value(),
    {
        proof {
            use_type_invariant(&self);
        }
        self.end
    }

    /// Returns the range length in bytes.
    pub fn len(self) -> (r: u64)
        ensures
            r == self.hi() - self.lo(),
    {
        proof {
            use_type_invariant(&self);
        }
        self.end.0 - self.start.0
    }

    /// Reports whether the range is empty.
    pub fn is_empty(self) -> (r: bool)
        ensures
            r == (self.lo() == self.hi()),
    {
        self.start.0 == self.end.0
    }

    /// Reports whether this range contains `offset`, including its terminal edge.
    pub fn contains_offset(self, offset: ByteOffset) -> (r: bool)
        ensures
            r == self.holds_offset(offset.value()),
    {
        self.start.0 <= offset.0 && offset.0 <= self.end.0
    }

    /// Reports whether this range completely contains `other`.
    pub fn contains(self, other: Self) -> (r: bool)
        ensures
            r == self.encloses(other),
    {
        self.start.0 <= other.start.0 && other.end.0 <= self.end.0
    }

    /// Reports whether two non-empty half-open ranges overlap.
    pub fn overlaps(self, other: Self) -> (r: bool)
        ensures
            r == self.meets(other),
    {
        self.start.0 < other.end.0 && other.start.0 < self.end.0
    }

    /// Returns the non-empty intersection of two ranges.
    pub fn intersection(self, other: Self) -> (r: Option<Self>)
        ensures
            match (r, self.meet(other)) {
                (Some(range), Some((lo, hi))) => range.lo() == lo && range.hi() == hi,
                (None, None) => true,
                _ => false,
            },
    {
        let start = if self.start.0 < other.start.0 {
            other.start
        } else {
            self.start
        };
        let end = if self.end.0 < other.end.0 {
            self.end
        } else {
            other.end
        };
        if start.0 < end.0 {
            Some(ByteRange { start, end })
        } else {
            None
        }
    }
}

/// The intersection of two ranges does not depend on their order, exists exactly when both
/// are non-empty and overlap, and lies inside both; a range encloses itself.
pub proof fn lemma_meet_laws(a: ByteRange, b: ByteRange)
    requires
        a.lo() <= a.hi(),
        b.lo() <= b.hi(),
    ensures
        a.meet(b) == b.meet(a),
        a.meets(b) == b.meets(a),
        a.meet(b) is Some <==> (a.meets(b) && a.lo() < a.hi() && b.lo() < b.hi()),
        a.meet(b) matches Some((lo, hi)) ==> a.lo() <= lo && hi <= a.hi() && b.lo() <= lo && hi
            <= b.hi(),
        a.encloses(a),
{
}

/// An absolute zero-based logical-line offset.
#[derive(Clone, Copy, Debug, Default, PartialEq, Eq, Structural, Hash, PartialOrd, Ord)]
pub struct LineOffset(pub(crate) u64);

impl LineOffset {
    /// The wrapped number.
    pub open(crate) spec fn value(self) -> u64 {
        self.0
    }

    /// Creates an absolute logical-line offset.
    pub fn new(value: u64) -> (r: Self)
        ensures
            r.value() == value,
    {
        LineOffset(value)
    }

    /// Returns the absolute logical-line offset.
    pub fn get(self) -> (r: u64)
        ensures
            r == self.value(),
    {
        self.0
    }
}

/// A checked half-open logical-line range.
#[derive(Clone, Copy, Debug, PartialEq, Eq, Structural, Hash)]
pub struct LineRange {
    pub(crate) start: LineOffset,
    pub(crate) end: LineOffset,
}

impl LineRange {
    #[verifier::type_invariant]
    pub(crate) closed spec fn ordered(self) -> bool {
        self.start.0 <= self.end.0
    }

    /// Inclusive start line.
    pub open(crate) spec fn start_line(self) -> LineOffset {
        self.start
    }

    /// Exclusive end line.
    pub open(crate) spec fn end_line(self) -> LineOffset {
        self.end
    }

    /// Creates a logical-line range, rejecting reversed endpoints.
    pub fn new(start: LineOffset, end: LineOffset) -> (r: Result<Self, RangeContractError>)
        ensures
            match r {
                Ok(range) => start.value() <= end.value() && range.start_line() == start
                    && range.end_line() == end,
                Err(e) => end.value() < start.value() && e == (RangeContractError::ReversedLineRange {
                    start,
                    end,
                }),
            },
    {
        if end.0 < start.0 {
            return Err(RangeContractError::ReversedLineRange { start, end });
        }
        Ok(LineRange { start, end })
    }

    /// Returns the inclusive start line.
    pub fn start(self) -> (r: LineOffset)
        ensures
            r == self.start_line(),
            r.value() <= self.end_line().value(),
    {
        proof {
            use_type_invariant(&self);
        }
        self.start
    }

    /// Returns the exclusive end line.
    pub fn end(self) -> (r: LineOffset)
        ensures
            r == self.end_line(),
            self.start_line().value() <= r.value(),
    {
        proof {
            use_type_invariant(&self);
        }
        self.end
    }

    /// Returns the number of logical lines.
    pub fn len(self) -> (r: u64)
        ensures
            r == self.end_line().value() - self.start_line().value(),
    {
        proof {
            use_type_invariant(&self);
        }
        self.end.0 - self.start.0
    }

    /// Reports whether the range is empty.
    pub fn is_empty(self) -> (r: bool)
        ensures
            r == (self.start_line().value() == self.end_line().value()),
    {
        self.start.0 == self.end.0
    }
}

/// Checked byte and logical-line extents of one exact source revision.
#[derive(Clone, Copy, Debug, PartialEq, Eq, Structural, Hash)]
pub struct LogicalExtent {
    pub(crate) byte_len: u64,
    pub(crate) line_count: u64,
}

impl LogicalExtent {
    /// Total bytes.
    pub open(crate) spec fn total_bytes(self) -> u64 {
        self.byte_len
    }

    /// Total logical lines.
    pub open(crate) spec fn total_lines(self) -> u64 {
        self.line_count
    }

    /// Creates an extent. Zero bytes and zero logical lines are valid.
    pub fn new(byte_len: u64, line_count: u64) -> (r: Self)
        ensures
            r.total_bytes() == byte_len,
            r.total_lines() == line_count,
    {
        LogicalExtent { byte_len, line_count }
    }

    /// Returns total logical UTF-8 bytes.
    pub fn byte_len(self) -> (r: u64)
        ensures
            r == self.total_bytes(),
    {
        self.byte_len
    }

    /// Returns total logical lines.
    pub fn line_count(self) -> (r: u64)
        ensures
            r == self.total_lines(),
    {
        self.line_count
    }

    /// Checks a byte range against this extent.
    pub fn check_byte_range(self, range: ByteRange) -> (r: Result<(), RangeContractError>)
        ensures
            match r {
                Ok(()) => range.hi() <= self.total_bytes(),
                Err(e) => range.hi() > self.total_bytes() && e == (
                RangeContractError::ByteRangeOutsideExtent {
                    range,
                    byte_len: self.total_bytes(),
                }),
            },
    {
        if range.end().get() > self.byte_len {
            return Err(
                RangeContractError::ByteRangeOutsideExtent { range, byte_len: self.byte_len },
            );
        }
        Ok(())
    }

    /// Checks a logical-line range against this extent.
    pub fn check_line_range(self, range: LineRange) -> (r: Result<(), RangeContractError>)
        ensures
            match r {
                Ok(()) => range.end_line().value() <= self.total_lines(),
                Err(e) => range.end_line().value() > self.total_lines() && e == (
                RangeContractError::LineRangeOutsideExtent {
                    range,
                    line_count: self.total_lines(),
                }),
            },
    {
        if range.end().get() > self.line_count {
            return Err(
                RangeContractError::LineRangeOutsideExtent { range, line_count: self.line_count },
            );
        }
        Ok(())
    }
}

/// Exact identity and extent of a current host-owned source revision.
#[derive(Clone, Copy, Debug, PartialEq, Eq, Structural, Hash)]
pub struct RangeBinding {
    pub(crate) binding: BindingId,
    pub(crate) revision: SourceRevision,
    pub(crate) extent: LogicalExtent,
}

impl RangeBinding {
    /// The host binding identity.
    pub open(crate) spec fn binding_id(self) -> BindingId {
        self.binding
    }

    /// The exact source revision.
    pub open(crate) spec fn source_revision(self) -> SourceRevision {
        self.revision
    }

    /// The exact logical extent.
    pub open(crate) spec fn logical_extent(self) -> LogicalExtent {
        self.extent
    }

    /// Creates an exact source binding.
    pub fn new(binding: BindingId, revision: SourceRevision, extent: LogicalExtent) -> (r: Self)
        ensures
            r.binding_id() == binding,
            r.source_revision() == revision,
            r.logical_extent() == extent,
    {
        RangeBinding { binding, revision, extent }
    }

    /// Returns the host binding identity.
    pub fn binding(self) -> (r: BindingId)
        ensures
            r == self.binding_id(),
    {
        self.binding
    }

    /// Returns the exact source revision.
    pub fn revision(self) -> (r: SourceRevision)
        ensures
            r == self.source_revision(),
    {
        self.revision
    }

    /// Returns the exact logical extent.
    pub fn extent(self) -> (r: LogicalExtent)
        ensures
            r == self.logical_extent(),
    {
        self.extent
    }
}

} // verus!
