use std::ops::Range;

use vstd::prelude::*;

use crate::coordinates::{ByteOffset, ByteRange, LogicalExtent};
use crate::page::{byte_len, utf8_len};
use crate::position::{InlineObjectGap, SourcePosition, SourceRange};
use crate::utf16::{utf16_range_in_text, utf16_to_utf8};

verus! {

/// Outcome of offering a key press to the active inline object.
#[derive(Clone, Copy, Debug, PartialEq, Eq, Structural)]
pub enum ActiveObjectActivationAttempt {
    /// No active object could take the key.
    NotApplicable,
    /// The active object was activated.
    Activated,
    /// The active object refused activation.
    Rejected,
}

impl ActiveObjectActivationAttempt {
    /// Whether the key press is used up by the attempt.
    pub fn consumes_key(self) -> (r: bool)
        ensures
            r == !(self is NotApplicable),
    {
        !matches!(self, ActiveObjectActivationAttempt::NotApplicable)
    }
}

/// Why no successor position exists for a replacement.
#[derive(Clone, Copy, Debug, PartialEq, Eq, Structural)]
pub enum SuccessorPositionError {
    /// The translated byte offset does not fit in the offset type.
    SurfaceCapacity,
    /// The replaced range's object witnesses cannot describe the source after the removal.
    Stale,
}

/// The gap at the end of inserted text: before the object that followed the replaced range,
/// or no object.
pub open spec fn inserted_gap(end: InlineObjectGap) -> InlineObjectGap {
    match end {
        InlineObjectGap::Between { following, .. } => InlineObjectGap::Before(following),
        InlineObjectGap::Before(following) => InlineObjectGap::Before(following),
        _ => InlineObjectGap::NoObjects,
    }
}

/// The gap left where a removed object stood, between the gaps that bounded it; `None` when
/// the bounding gaps cannot describe the anchor after the removal.
pub open spec fn removal_gap(start: InlineObjectGap, end: InlineObjectGap) -> Option<
    InlineObjectGap,
> {
    match (start, end) {
        (InlineObjectGap::Before(_), InlineObjectGap::After(_)) => Some(InlineObjectGap::NoObjects),
        (InlineObjectGap::Before(_), InlineObjectGap::Between { following, .. }) => Some(
            InlineObjectGap::Before(following),
        ),
        (InlineObjectGap::Between { preceding, .. }, InlineObjectGap::After(_)) => Some(
            InlineObjectGap::After(preceding),
        ),
        (
            InlineObjectGap::Between { preceding, .. },
            InlineObjectGap::Between { following, .. },
        ) => match InlineObjectGap::between_result(preceding, following) {
            Ok(gap) => Some(gap),
            Err(_) => None,
        },
        _ => None,
    }
}

/// Where the caret lands after `replacement` is replaced by `inserted_bytes` bytes, removing an
/// inline object when `removed_object` holds.
pub open spec fn successor_result(
    replacement: SourceRange,
    removed_object: bool,
    inserted_bytes: usize,
) -> Result<SourcePosition, SuccessorPositionError> {
    let start = replacement.first();
    let end = replacement.last();
    let translated = start.byte_offset.value() + inserted_bytes;
    let at = ByteOffset::from_value(translated as u64);
    if translated > u64::MAX {
        Err(SuccessorPositionError::SurfaceCapacity)
    } else if inserted_bytes != 0 {
        Ok(SourcePosition { byte_offset: at, gap: inserted_gap(end.gap) })
    } else if !removed_object {
        Ok(end)
    } else {
        match removal_gap(start.gap, end.gap) {
            Some(gap) => Ok(SourcePosition { byte_offset: at, gap }),
            None => Err(SuccessorPositionError::Stale),
        }
    }
}

/// Computes the caret position that follows a committed replacement of `replacement` by
/// `inserted_bytes` bytes; `removed_object` tells whether the replacement removed an inline
/// object.
pub fn successor_position(
    replacement: SourceRange,
    removed_object: bool,
    inserted_bytes: usize,
) -> (r: Result<SourcePosition, SuccessorPositionError>)
    ensures
        r == successor_result(replacement, removed_object, inserted_bytes),
{
    let start = replacement.start();
    let end = replacement.end();
    let base = start.byte_offset.get();
    let inserted = inserted_bytes as u64;
    if base > u64::MAX - inserted {
        return Err(SuccessorPositionError::SurfaceCapacity);
    }
    let byte_offset = ByteOffset::new(base + inserted);
    if inserted_bytes != 0 {
        let gap = match end.gap {
            InlineObjectGap::Between { following, .. } | InlineObjectGap::Before(following) => {
                InlineObjectGap::Before(following)
            },
            InlineObjectGap::NoObjects | InlineObjectGap::After(_) => InlineObjectGap::NoObjects,
        };
        return Ok(SourcePosition::new(byte_offset, gap));
    }
    if !removed_object {
        return Ok(end);
    }
    let gap = match (start.gap, end.gap) {
        (InlineObjectGap::Before(_), InlineObjectGap::After(_)) => InlineObjectGap::NoObjects,
        (InlineObjectGap::Before(_), InlineObjectGap::Between { following, .. }) => {
            InlineObjectGap::Before(following)
        },
        (InlineObjectGap::Between { preceding, .. }, InlineObjectGap::After(_)) => {
            InlineObjectGap::After(preceding)
        },
        (
            InlineObjectGap::Between { preceding, .. },
            InlineObjectGap::Between { following, .. },
        ) => match InlineObjectGap::between(preceding, following) {
            Ok(gap) => gap,
            Err(_) => {
                return Err(SuccessorPositionError::Stale);
            },
        },
        _ => {
            return Err(SuccessorPositionError::Stale);
        },
    };
    Ok(SourcePosition::new(byte_offset, gap))
}

/// Line breaks in a source of `bytes` bytes and `lines` logical lines: a non-empty source has
/// one line more than it has breaks.
pub open spec fn breaks_of(bytes: int, lines: int) -> int {
    lines - if bytes != 0 {
        1int
    } else {
        0
    }
}

/// The extent of the source after `replaced` (holding `replaced_line_breaks` breaks) is
/// replaced by text of `inserted_bytes` bytes and `inserted_line_breaks` breaks; `None` when the
/// counts are incoherent or leave the 64-bit range.
pub open(crate) spec fn successor_extent(
    base: LogicalExtent,
    replaced: ByteRange,
    replaced_line_breaks: u64,
    inserted_bytes: u64,
    inserted_line_breaks: u64,
) -> Option<LogicalExtent> {
    let kept_bytes = base.total_bytes() - (replaced.hi() - replaced.lo());
    let bytes = kept_bytes + inserted_bytes;
    let base_breaks = breaks_of(base.total_bytes() as int, base.total_lines() as int);
    let kept_breaks = base_breaks - replaced_line_breaks;
    let breaks = kept_breaks + inserted_line_breaks;
    if kept_bytes < 0 || bytes > u64::MAX || base_breaks < 0 || kept_breaks < 0 || breaks
        > u64::MAX {
        None
    } else if bytes == 0 {
        if breaks == 0 {
            Some(LogicalExtent { byte_len: 0, line_count: 0 })
        } else {
            None
        }
    } else if breaks + 1 > u64::MAX {
        None
    } else {
        Some(LogicalExtent { byte_len: bytes as u64, line_count: (breaks + 1) as u64 })
    }
}

/// Computes the source extent after a local replacement from the base extent, the replaced
/// byte range and its line breaks, and the inserted byte and line-break totals; `None` when
/// the successor would be incoherent.
pub fn local_successor_extent(
    base: LogicalExtent,
    replaced: ByteRange,
    replaced_line_breaks: u64,
    inserted_bytes: u64,
    inserted_line_breaks: u64,
) -> (r: Option<LogicalExtent>)
    ensures
        r == successor_extent(
            base,
            replaced,
            replaced_line_breaks,
            inserted_bytes,
            inserted_line_breaks,
        ),
{
    let replaced_len = replaced.len();
    if base.byte_len() < replaced_len {
        return None;
    }
    let kept_bytes = base.byte_len() - replaced_len;
    if kept_bytes > u64::MAX - inserted_bytes {
        return None;
    }
    let bytes = kept_bytes + inserted_bytes;
    let nonempty: u64 = if base.byte_len() != 0 {
        1
    } else {
        0
    };
    if base.line_count() < nonempty {
        return None;
    }
    let base_breaks = base.line_count() - nonempty;
    if base_breaks < replaced_line_breaks {
        return None;
    }
    let kept_breaks = base_breaks - replaced_line_breaks;
    if kept_breaks > u64::MAX - inserted_line_breaks {
        return None;
    }
    let breaks = kept_breaks + inserted_line_breaks;
    let lines = if bytes == 0 {
        if breaks != 0 {
            return None;
        }
        0
    } else {
        if breaks == u64::MAX {
            return None;
        }
        breaks + 1
    };
    Some(LogicalExtent::new(bytes, lines))
}

/// A base extent is coherent when an empty source has no lines and a non-empty one has at
/// least one.
pub open spec fn coherent(extent: LogicalExtent) -> bool {
    &&& extent.total_bytes() == 0 ==> extent.total_lines() == 0
    &&& extent.total_bytes() != 0 ==> extent.total_lines() >= 1
}

/// Replacing a range by text of the same byte length and the same number of line breaks leaves
/// a coherent extent unchanged.
pub proof fn lemma_same_size_replacement_keeps_extent(
    base: LogicalExtent,
    replaced: ByteRange,
    replaced_line_breaks: u64,
)
    requires
        coherent(base),
        replaced.lo() <= replaced.hi(),
        replaced.hi() - replaced.lo() <= base.total_bytes(),
        replaced_line_breaks <= breaks_of(base.total_bytes() as int, base.total_lines() as int),
    ensures
        successor_extent(
            base,
            replaced,
            replaced_line_breaks,
            (replaced.hi() - replaced.lo()) as u64,
            replaced_line_breaks,
        ) == Some(base),
{
}

/// Every extent that a replacement produces is coherent again.
pub proof fn lemma_successor_extent_coherent(
    base: LogicalExtent,
    replaced: ByteRange,
    replaced_line_breaks: u64,
    inserted_bytes: u64,
    inserted_line_breaks: u64,
)
    requires
        successor_extent(
            base,
            replaced,
            replaced_line_breaks,
            inserted_bytes,
            inserted_line_breaks,
        ) is Some,
    ensures
        coherent(
            successor_extent(
                base,
                replaced,
                replaced_line_breaks,
                inserted_bytes,
                inserted_line_breaks,
            )->0,
        ),
{
}

/// The counts after a replacement: a non-empty successor keeps the bytes outside the replaced
/// range and adds the inserted ones, and it has one line more than its line breaks, which are
/// the base's breaks less the replaced ones plus the inserted ones. An empty successor has no
/// lines and no breaks.
pub proof fn lemma_successor_extent_counts(
    base: LogicalExtent,
    replaced: ByteRange,
    replaced_line_breaks: u64,
    inserted_bytes: u64,
    inserted_line_breaks: u64,
)
    ensures
        successor_extent(base, replaced, replaced_line_breaks, inserted_bytes, inserted_line_breaks)
            matches Some(e) ==> {
            &&& e.total_bytes() == base.total_bytes() - (replaced.hi() - replaced.lo())
                + inserted_bytes
            &&& e.total_bytes() != 0 ==> e.total_lines() == base.total_lines() - (if base.total_bytes()
                != 0 {
                1int
            } else {
                0int
            }) - replaced_line_breaks + inserted_line_breaks + 1
            &&& e.total_bytes() == 0 ==> e.total_lines() == 0 && base.total_lines() - (
            if base.total_bytes() != 0 {
                1int
            } else {
                0int
            }) - replaced_line_breaks + inserted_line_breaks == 0
        },
{
}

/// A replacement inside a coherent base whose counts stay in range has a successor: with the
/// kept and inserted bytes, and one line per line break plus one when it is non-empty.
pub proof fn lemma_successor_extent_exists(
    base: LogicalExtent,
    replaced: ByteRange,
    replaced_line_breaks: u64,
    inserted_bytes: u64,
    inserted_line_breaks: u64,
)
    requires
        coherent(base),
        replaced.lo() <= replaced.hi(),
        replaced.hi() - replaced.lo() <= base.total_bytes(),
        base.total_bytes() - (replaced.hi() - replaced.lo()) + inserted_bytes > 0,
        base.total_bytes() - (replaced.hi() - replaced.lo()) + inserted_bytes <= u64::MAX,
        replaced_line_breaks + (if base.total_bytes() != 0 {
            1int
        } else {
            0int
        }) <= base.total_lines(),
        base.total_lines() - (if base.total_bytes() != 0 {
            1int
        } else {
            0int
        }) - replaced_line_breaks + inserted_line_breaks + 1 <= u64::MAX,
    ensures
        successor_extent(base, replaced, replaced_line_breaks, inserted_bytes, inserted_line_breaks)
            matches Some(e) && e.total_bytes() == base.total_bytes() - (replaced.hi()
            - replaced.lo()) + inserted_bytes && e.total_lines() == base.total_lines() - (
        if base.total_bytes() != 0 {
            1int
        } else {
            0int
        }) - replaced_line_breaks + inserted_line_breaks + 1,
{
}

/// Where the caret lands after a replacement: past the inserted bytes, in front of the object
/// that followed the replaced range (if its end gap names one); when nothing is inserted and
/// no object is removed, at the replaced range's end; when an object is removed and nothing is
/// inserted, at the range's start, in the gap its two bounding gaps leave (none when they
/// cannot bound one object); and no position when the offset leaves the 64-bit range.
pub proof fn lemma_successor_position_caret(
    replacement: SourceRange,
    removed_object: bool,
    inserted_bytes: usize,
)
    ensures
        replacement.first().byte_offset.value() + inserted_bytes > u64::MAX ==> successor_result(
            replacement,
            removed_object,
            inserted_bytes,
        ) == Err::<SourcePosition, SuccessorPositionError>(
            SuccessorPositionError::SurfaceCapacity,
        ),
        replacement.first().byte_offset.value() + inserted_bytes <= u64::MAX && inserted_bytes != 0
            ==> (successor_result(replacement, removed_object, inserted_bytes) matches Ok(p) && {
            &&& p.byte_offset.value() == replacement.first().byte_offset.value() + inserted_bytes
            &&& match replacement.last().gap {
                InlineObjectGap::Before(o) => p.gap == InlineObjectGap::Before(o),
                InlineObjectGap::Between { following: o, .. } => p.gap == InlineObjectGap::Before(
                    o,
                ),
                _ => p.gap == InlineObjectGap::NoObjects,
            }
        }),
        replacement.first().byte_offset.value() + inserted_bytes <= u64::MAX && inserted_bytes == 0
            && !removed_object ==> successor_result(replacement, removed_object, inserted_bytes)
            == Ok::<SourcePosition, SuccessorPositionError>(replacement.last()),
        replacement.first().byte_offset.value() + inserted_bytes <= u64::MAX && inserted_bytes == 0
            && removed_object ==> match (replacement.first().gap, replacement.last().gap) {
            (InlineObjectGap::Before(_), InlineObjectGap::After(_)) => successor_result(
                replacement,
                removed_object,
                inserted_bytes,
            ) == Ok::<SourcePosition, SuccessorPositionError>(
                SourcePosition {
                    byte_offset: replacement.first().byte_offset,
                    gap: InlineObjectGap::NoObjects,
                },
            ),
            (InlineObjectGap::Before(_), InlineObjectGap::Between { following, .. }) => successor_result(
                replacement,
                removed_object,
                inserted_bytes,
            ) == Ok::<SourcePosition, SuccessorPositionError>(
                SourcePosition {
                    byte_offset: replacement.first().byte_offset,
                    gap: InlineObjectGap::Before(following),
                },
            ),
            (InlineObjectGap::Between { preceding, .. }, InlineObjectGap::After(_)) => successor_result(
                replacement,
                removed_object,
                inserted_bytes,
            ) == Ok::<SourcePosition, SuccessorPositionError>(
                SourcePosition {
                    byte_offset: replacement.first().byte_offset,
                    gap: InlineObjectGap::After(preceding),
                },
            ),
            (InlineObjectGap::Between { .. }, InlineObjectGap::Between { .. }) => true,
            _ => successor_result(replacement, removed_object, inserted_bytes) == Err::<
                SourcePosition,
                SuccessorPositionError,
            >(SuccessorPositionError::Stale),
        },
{
}

/// The UTF-16 selection `selected` translated to byte offsets of `text`, if both of its ends
/// fall on character boundaries.
pub open spec fn selected_bytes(text: Seq<char>, selected: Option<Range<usize>>) -> Option<
    (int, int),
> {
    match selected {
        Some(range) => match (
            utf16_to_utf8(text, range.start as int),
            utf16_to_utf8(text, range.end as int),
        ) {
            (Some(first), Some(last)) => Some((first, last)),
            _ => None,
        },
        None => None,
    }
}

/// Returns the composition that a marked replacement of `replacement` by `text` leaves, with
/// the selection inside it as anchor and head: the platform's UTF-16 selection translated into
/// the inserted text, or a caret at the composition end when there is none or it does not fall
/// on character boundaries.
pub fn marked_composition(
    replacement: ByteRange,
    text: &str,
    selected: Option<Range<usize>>,
) -> (r: (ByteRange, ByteOffset, ByteOffset))
    requires
        selected_bytes(text@, selected) matches Some((first, last)) ==> replacement.lo() + first
            <= u64::MAX && replacement.lo() + last <= u64::MAX,
    ensures
        r.0.lo() == replacement.lo(),
        r.0.hi() == if replacement.lo() + utf8_len(text@) > u64::MAX {
            u64::MAX as int
        } else {
            replacement.lo() + utf8_len(text@)
        },
        match selected_bytes(text@, selected) {
            Some((first, last)) => r.1.value() == replacement.lo() + first && r.2.value()
                == replacement.lo() + last,
            None => r.1 == r.0.end_offset() && r.2 == r.0.end_offset(),
        },
{
    let start = replacement.start().get();
    let length = byte_len(text) as u64;
    let end = if start > u64::MAX - length {
        u64::MAX
    } else {
        start + length
    };
    let composition = match ByteRange::from_u64(start, end) {
        Ok(range) => range,
        Err(_) => {
            // `start <= end` holds by construction, so this arm is never taken.
            return (replacement, replacement.end(), replacement.end());
        },
    };
    let inside = match selected {
        Some(range) => utf16_range_in_text(text, range),
        None => None,
    };
    match inside {
        Some(bytes) => (
            composition,
            ByteOffset::new(start + bytes.start as u64),
            ByteOffset::new(start + bytes.end as u64),
        ),
        None => (composition, composition.end(), composition.end()),
    }
}

} // verus!
