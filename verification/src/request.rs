use vstd::prelude::*;

use crate::coordinates::{BindingId, ByteOffset, PageRequestId, SourceRevision};
use crate::page::RangeContractError;

verus! {

/// Smallest payload ceiling a page demand may name: one UTF-8 scalar of the widest encoding.
pub const MIN_PAGE_PAYLOAD_BYTES: u64 = 4;

/// App-neutral reason a page is required.
#[derive(Clone, Copy, Debug, PartialEq, Eq, Structural, Hash)]
#[non_exhaustive]
pub enum PagePurpose {
    /// Visible viewport and overscan realization.
    Viewport,
    /// Caret movement or validation.
    Caret,
    /// Selection movement or validation.
    Selection,
    /// Grapheme, word, or logical-line segmentation.
    Segmentation,
    /// Bounded clipboard representation construction.
    Clipboard,
    /// Background visual-line or geometry indexing.
    GeometryIndex,
    /// Exact block-position target resolution after geometry indexing.
    GeometryTarget,
    /// Exact UTF-16 replay for platform text-input replacement or query.
    PlatformRange,
    /// Validation and realization of a compact restoration seed.
    Restoration,
}

/// Direction of one bounded page demand from a proven UTF-8 anchor.
#[derive(Clone, Copy, Debug, PartialEq, Eq, Structural, Hash)]
pub enum PageDirection {
    /// The returned page starts at the anchor and advances toward the document end.
    Forward,
    /// The returned page ends at the anchor and advances toward the document start.
    Backward,
}

/// Source-selection envelope frozen by one page request.
#[derive(Clone, Copy, Debug, PartialEq, Eq, Structural, Hash)]
pub enum PageDemandEnvelope {
    /// Requests positive adjacent progress from an already proven UTF-8 boundary.
    Adjacent {
        /// Proven UTF-8 boundary from which the source must advance.
        anchor: ByteOffset,
        /// Direction in which the source selects the other page edge.
        direction: PageDirection,
        /// Inclusive ceiling for the returned UTF-8 payload length.
        max_payload_bytes: u64,
    },
    /// Requests a bounded source window proving whether an untrusted offset is a boundary.
    Validation {
        /// Untrusted absolute byte offset that the returned window must cover.
        candidate: ByteOffset,
        /// Inclusive ceiling for the returned UTF-8 payload length.
        max_payload_bytes: u64,
    },
}

impl PageDemandEnvelope {
    /// The payload ceiling of either kind of demand.
    pub open spec fn ceiling(self) -> u64 {
        match self {
            PageDemandEnvelope::Adjacent { max_payload_bytes, .. } => max_payload_bytes,
            PageDemandEnvelope::Validation { max_payload_bytes, .. } => max_payload_bytes,
        }
    }

    /// Returns the payload-byte ceiling frozen by this demand.
    pub fn max_payload_bytes(self) -> (r: u64)
        ensures
            r == self.ceiling(),
    {
        match self {
            PageDemandEnvelope::Adjacent { max_payload_bytes, .. } => max_payload_bytes,
            PageDemandEnvelope::Validation { max_payload_bytes, .. } => max_payload_bytes,
        }
    }
}

/// Exact immutable key of a page demand and its response.
#[derive(Clone, Copy, Debug, PartialEq, Eq, Structural, Hash)]
pub struct PageRequestKey {
    pub(crate) id: PageRequestId,
    pub(crate) binding: BindingId,
    pub(crate) revision: SourceRevision,
    pub(crate) purpose: PagePurpose,
    pub(crate) demand: PageDemandEnvelope,
}

impl PageRequestKey {
    #[verifier::type_invariant]
    pub(crate) closed spec fn bounded(self) -> bool {
        self.demand.ceiling() >= MIN_PAGE_PAYLOAD_BYTES
    }

    /// The outcome of freezing `demand` into a key: a key holding exactly these parts when
    /// the ceiling admits one widest scalar, the payload-limit error otherwise.
    pub open(crate) spec fn frozen(
        r: Result<PageRequestKey, RangeContractError>,
        id: PageRequestId,
        binding: BindingId,
        revision: SourceRevision,
        purpose: PagePurpose,
        demand: PageDemandEnvelope,
    ) -> bool {
        match r {
            Ok(key) => demand.ceiling() >= MIN_PAGE_PAYLOAD_BYTES && key.id == id && key.binding
                == binding && key.revision == revision && key.purpose == purpose && key.demand
                == demand,
            Err(e) => demand.ceiling() < MIN_PAGE_PAYLOAD_BYTES && e == (
            RangeContractError::PagePayloadLimitTooSmall { max_payload_bytes: demand.ceiling() }),
        }
    }

    /// The unique request identity.
    pub open(crate) spec fn request_id(self) -> PageRequestId {
        self.id
    }

    /// The host binding identity.
    pub open(crate) spec fn binding_id(self) -> BindingId {
        self.binding
    }

    /// The exact source revision.
    pub open(crate) spec fn source_revision(self) -> SourceRevision {
        self.revision
    }

    /// The request purpose.
    pub open(crate) spec fn page_purpose(self) -> PagePurpose {
        self.purpose
    }

    /// The frozen source-selection envelope.
    pub open(crate) spec fn envelope(self) -> PageDemandEnvelope {
        self.demand
    }

    /// Creates a bounded adjacent demand from a proven UTF-8 anchor.
    pub fn adjacent(
        id: PageRequestId,
        binding: BindingId,
        revision: SourceRevision,
        purpose: PagePurpose,
        anchor: ByteOffset,
        direction: PageDirection,
        max_payload_bytes: u64,
    ) -> (r: Result<Self, RangeContractError>)
        ensures
            Self::frozen(
                r,
                id,
                binding,
                revision,
                purpose,
                PageDemandEnvelope::Adjacent { anchor, direction, max_payload_bytes },
            ),
    {
        Self::with_demand(
            id,
            binding,
            revision,
            purpose,
            PageDemandEnvelope::Adjacent { anchor, direction, max_payload_bytes },
        )
    }

    /// Creates a bounded demand that validates one untrusted byte offset.
    pub fn validation(
        id: PageRequestId,
        binding: BindingId,
        revision: SourceRevision,
        purpose: PagePurpose,
        candidate: ByteOffset,
        max_payload_bytes: u64,
    ) -> (r: Result<Self, RangeContractError>)
        ensures
            Self::frozen(
                r,
                id,
                binding,
                revision,
                purpose,
                PageDemandEnvelope::Validation { candidate, max_payload_bytes },
            ),
    {
        Self::with_demand(
            id,
            binding,
            revision,
            purpose,
            PageDemandEnvelope::Validation { candidate, max_payload_bytes },
        )
    }

    fn with_demand(
        id: PageRequestId,
        binding: BindingId,
        revision: SourceRevision,
        purpose: PagePurpose,
        demand: PageDemandEnvelope,
    ) -> (r: Result<Self, RangeContractError>)
        ensures
            Self::frozen(r, id, binding, revision, purpose, demand),
    {
        if demand.max_payload_bytes() < MIN_PAGE_PAYLOAD_BYTES {
            return Err(
                RangeContractError::PagePayloadLimitTooSmall {
                    max_payload_bytes: demand.max_payload_bytes(),
                },
            );
        }
        Ok(PageRequestKey { id, binding, revision, purpose, demand })
    }

    /// Returns the unique request identity.
    pub fn id(self) -> (r: PageRequestId)
        ensures
            r == self.request_id(),
    {
        self.id
    }

    /// Returns the host binding identity.
    pub fn binding(self) -> (r: BindingId)
        ensures
            r == self.binding_id(),
    {
        self.binding
    }

    /// Returns the exact source revision.
    pub fn revision(self) -> (r: SourceRevision)
        ensures
            r == self.source_revision(),
    {
        self.revision
    }

    /// Returns the request purpose.
    pub fn purpose(self) -> (r: PagePurpose)
        ensures
            r == self.page_purpose(),
    {
        self.purpose
    }

    /// Returns the frozen source-selection envelope.
    pub fn demand(self) -> (r: PageDemandEnvelope)
        ensures
            r == self.envelope(),
            r.ceiling() >= MIN_PAGE_PAYLOAD_BYTES,
    {
        proof {
            use_type_invariant(&self);
        }
        self.demand
    }

    /// Returns the maximum returned UTF-8 payload length.
    pub fn max_payload_bytes(self) -> (r: u64)
        ensures
            r == self.envelope().ceiling(),
            r >= MIN_PAGE_PAYLOAD_BYTES,
    {
        proof {
            use_type_invariant(&self);
        }
        self.demand.max_payload_bytes()
    }
}

/// One bounded range request for dispatch to the host.
#[derive(Clone, Copy, Debug, PartialEq, Eq, Structural, Hash)]
pub struct PageRequest {
    pub(crate) key: PageRequestKey,
}

impl PageRequest {
    /// The exact request/response key.
    pub open(crate) spec fn request_key(self) -> PageRequestKey {
        self.key
    }

    /// Creates a request from its exact key.
    pub fn new(key: PageRequestKey) -> (r: Self)
        ensures
            r.request_key() == key,
    {
        PageRequest { key }
    }

    /// Returns the exact request/response key.
    pub fn key(self) -> (r: PageRequestKey)
        ensures
            r == self.request_key(),
    {
        self.key
    }
}

} // verus!
