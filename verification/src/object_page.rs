use vstd::prelude::*;

use crate::coordinates::ByteOffset;
use crate::object::{
    lemma_presentation_match, presentation_comparable, presentation_match,
    InlineObjectPresentation, ObjectContractError, ObjectPageId, PresentationView,
};
use crate::object_request::{
    cursor_before, cursor_precedes, ObjectCursor, ObjectDemandEnvelope, ObjectDirection,
    ObjectRequestKey,
};
use crate::page::{byte_len, utf8_len};
use crate::position::{InlineObjectId, InlineObjectOrder};

verus! {

/// The mathematical content of an inline-object fact.
pub ghost struct InlineObjectFactView {
    pub id: InlineObjectId,
    pub anchor: ByteOffset,
    pub order: InlineObjectOrder,
    pub fallback_copy: Seq<char>,
    pub presentation: PresentationView,
}

impl InlineObjectFactView {
    /// The continuation cursor naming this occurrence.
    pub open(crate) spec fn cursor(self) -> ObjectCursor {
        ObjectCursor { anchor: self.anchor, order: self.order, id: self.id }
    }

    /// Fallback and display bytes carried by this fact.
    pub open(crate) spec fn payload(self) -> int {
        (utf8_len(self.fallback_copy) + utf8_len(self.presentation.display)) as int
    }
}

/// Two object facts are the same: equal identity, anchor, order and fallback text, and
/// matching presentations.
pub open spec fn fact_match(a: InlineObjectFactView, b: InlineObjectFactView) -> bool {
    &&& a.id == b.id
    &&& a.anchor == b.anchor
    &&& a.order == b.order
    &&& a.fallback_copy == b.fallback_copy
    &&& presentation_match(a.presentation, b.presentation)
}

/// Two fact sequences are the same fact by fact.
pub open spec fn facts_match(a: Seq<InlineObjectFactView>, b: Seq<InlineObjectFactView>) -> bool {
    &&& a.len() == b.len()
    &&& forall|i: int| 0 <= i < a.len() ==> #[trigger] fact_match(a[i], b[i])
}

/// One immutable source-zero-width object fact returned by the host.
#[derive(Clone, Debug, PartialEq)]
pub struct InlineObjectFact {
    pub(crate) id: InlineObjectId,
    pub(crate) anchor: ByteOffset,
    pub(crate) order: InlineObjectOrder,
    pub(crate) fallback_copy: String,
    pub(crate) presentation: InlineObjectPresentation,
}

impl View for InlineObjectFact {
    type V = InlineObjectFactView;

    open spec fn view(&self) -> InlineObjectFactView {
        InlineObjectFactView {
            id: self.object_id(),
            anchor: self.anchor_at(),
            order: self.order_key(),
            fallback_copy: self.fallback_text(),
            presentation: self.presentation_facts(),
        }
    }
}

/// The views of a sequence of object facts.
pub open spec fn fact_views(objects: Seq<InlineObjectFact>) -> Seq<InlineObjectFactView> {
    objects.map_values(|o: InlineObjectFact| o@)
}

impl InlineObjectFact {
    /// The stable identity.
    pub open(crate) spec fn object_id(&self) -> InlineObjectId {
        self.id
    }

    /// The anchor.
    pub open(crate) spec fn anchor_at(&self) -> ByteOffset {
        self.anchor
    }

    /// The same-anchor order key.
    pub open(crate) spec fn order_key(&self) -> InlineObjectOrder {
        self.order
    }

    /// The fallback text.
    pub open(crate) spec fn fallback_text(&self) -> Seq<char> {
        self.fallback_copy@
    }

    /// The presentation facts.
    pub open(crate) spec fn presentation_facts(&self) -> PresentationView {
        self.presentation@
    }

    /// Creates one revision-bound object fact. Page construction validates its envelope and order.
    pub fn new(
        id: InlineObjectId,
        anchor: ByteOffset,
        order: InlineObjectOrder,
        fallback_copy: String,
        presentation: InlineObjectPresentation,
    ) -> (r: Self)
        ensures
            r@ == (InlineObjectFactView {
                id,
                anchor,
                order,
                fallback_copy: fallback_copy@,
                presentation: presentation@,
            }),
    {
        InlineObjectFact { id, anchor, order, fallback_copy, presentation }
    }

    /// Returns the stable opaque object identity.
    pub fn id(&self) -> (r: InlineObjectId)
        ensures
            r == self@.id,
    {
        self.id
    }

    /// Returns the proven UTF-8 anchor.
    pub fn anchor(&self) -> (r: ByteOffset)
        ensures
            r == self@.anchor,
    {
        self.anchor
    }

    /// Returns the host-owned same-anchor order key.
    pub fn order(&self) -> (r: InlineObjectOrder)
        ensures
            r == self@.order,
    {
        self.order
    }

    /// Returns the plain-text clipboard fallback.
    pub fn fallback_copy(&self) -> (r: &str)
        ensures
            r@ == self@.fallback_copy,
    {
        self.fallback_copy.as_str()
    }

    /// Returns immutable display, semantic, and activation facts.
    pub fn presentation(&self) -> (r: &InlineObjectPresentation)
        ensures
            r@ == self@.presentation,
    {
        &self.presentation
    }

    /// Returns the exact continuation cursor for this occurrence.
    pub fn cursor(&self) -> (r: ObjectCursor)
        ensures
            r == self@.cursor(),
    {
        ObjectCursor::new(self.anchor, self.order, self.id)
    }

    /// Fallback and display bytes; `None` when the sum does not fit in `usize`.
    pub(crate) fn payload_bytes(&self) -> (r: Option<usize>)
        ensures
            match r {
                Some(n) => n == self@.payload(),
                None => self@.payload() > usize::MAX,
            },
    {
        let fallback = byte_len(self.fallback_copy.as_str());
        let display = self.presentation.payload_allocation_bytes();
        fallback.checked_add(display)
    }

    /// Reports whether two facts are the same.
    pub fn reconciles_with(&self, other: &Self) -> (r: bool)
        ensures
            r == fact_match(self@, other@),
    {
        self.id == other.id && self.anchor == other.anchor && self.order == other.order
            && self.fallback_copy == other.fallback_copy && self.presentation.same_facts(
            &other.presentation,
        )
    }

    /// Record and payload bytes retained by this fact.
    pub fn retained_bytes(&self) -> (r: Result<usize, ObjectContractError>)
        ensures
            match r {
                Ok(n) => n == vstd::layout::size_of::<InlineObjectFact>() + self@.payload(),
                Err(e) => vstd::layout::size_of::<InlineObjectFact>() + self@.payload()
                    > usize::MAX && e == ObjectContractError::RetainedByteCountOverflow,
            },
    {
        let record = core::mem::size_of::<InlineObjectFact>();
        match self.payload_bytes() {
            Some(payload) => match record.checked_add(payload) {
                Some(total) => Ok(total),
                None => Err(ObjectContractError::RetainedByteCountOverflow),
            },
            None => Err(ObjectContractError::RetainedByteCountOverflow),
        }
    }

    /// A copy with an equal view.
    fn duplicate(&self) -> (r: Self)
        ensures
            r@ == self@,
    {
        InlineObjectFact {
            id: self.id,
            anchor: self.anchor,
            order: self.order,
            fallback_copy: self.fallback_copy.clone(),
            presentation: self.presentation.duplicate(),
        }
    }
}

/// Exact fact about one edge of a returned object page.
#[derive(Clone, Copy, Debug, PartialEq, Eq, Structural)]
pub enum ObjectPageEdgeFact {
    /// The response reaches the applicable request-envelope edge.
    EnvelopeBoundary,
    /// More ordering context is separated by the named exclusive cursor.
    Continues(ObjectCursor),
}

/// Exact semantic charge for one retained object-page graph.
#[derive(Clone, Copy, Debug, Default, PartialEq, Eq, Structural)]
pub struct ObjectPageCharge {
    pub(crate) bytes: usize,
    pub(crate) objects: usize,
    pub(crate) presentation_bytes: usize,
}

impl ObjectPageCharge {
    /// Charged bytes.
    pub open(crate) spec fn charged_bytes(self) -> usize {
        self.bytes
    }

    /// Charged objects.
    pub open(crate) spec fn charged_objects(self) -> usize {
        self.objects
    }

    /// Charged display and fallback bytes.
    pub open(crate) spec fn charged_payload(self) -> usize {
        self.presentation_bytes
    }

    /// Complete initialized records and retained string payload bytes.
    pub fn bytes(self) -> (r: usize)
        ensures
            r == self.charged_bytes(),
    {
        self.bytes
    }

    /// Number of object facts.
    pub fn objects(self) -> (r: usize)
        ensures
            r == self.charged_objects(),
    {
        self.objects
    }

    /// Display and fallback string bytes.
    pub fn presentation_bytes(self) -> (r: usize)
        ensures
            r == self.charged_payload(),
    {
        self.presentation_bytes
    }
}

/// Terminal host-side failure for one exact object request.
#[derive(Clone, Copy, Debug, PartialEq, Eq, Structural)]
pub enum ObjectPageFailure {
    /// The exact request was cancelled before success.
    Cancelled,
    /// The exact requested object facts are currently unavailable.
    Unavailable,
    /// The host response could not satisfy the exact contract.
    Malformed,
}

/// Why object `i` is rejected, given that the objects before it were accepted.
pub open spec fn object_fault(
    demand: ObjectDemandEnvelope,
    objects: Seq<InlineObjectFactView>,
    i: int,
) -> Option<ObjectContractError> {
    let object = objects[i];
    let previous = objects[i - 1];
    if !demand.admits_anchor(object.anchor) {
        Some(ObjectContractError::ResponseOutsideEnvelope)
    } else if demand.cursor_of() matches Some(c) && object.id == c.object_id() {
        Some(ObjectContractError::DuplicateObjectIdentity { object: object.id })
    } else if demand.cursor_of() matches Some(c) && object.anchor == c.anchor_at() && object.order
        == c.order_key() {
        Some(ObjectContractError::DuplicateObjectOrder { anchor: object.anchor, order: object.order })
    } else if demand.cursor_of() matches Some(c) && !(match demand.direction_of() {
        ObjectDirection::Forward => cursor_before(c, object.cursor()),
        ObjectDirection::Backward => cursor_before(object.cursor(), c),
    }) {
        Some(ObjectContractError::ResponseOutsideEnvelope)
    } else if exists|j: int| 0 <= j < i && #[trigger] objects[j].id == object.id {
        Some(ObjectContractError::DuplicateObjectIdentity { object: object.id })
    } else if i > 0 && previous.anchor == object.anchor && previous.order == object.order {
        Some(ObjectContractError::DuplicateObjectOrder { anchor: object.anchor, order: object.order })
    } else if i > 0 && !cursor_before(previous.cursor(), object.cursor()) {
        Some(ObjectContractError::ObjectsOutOfOrder)
    } else {
        None
    }
}

/// The edge fact naming an optional cursor.
pub open spec fn edge_for(cursor: Option<ObjectCursor>) -> ObjectPageEdgeFact {
    match cursor {
        Some(c) => ObjectPageEdgeFact::Continues(c),
        None => ObjectPageEdgeFact::EnvelopeBoundary,
    }
}

/// Why the continuation facts are malformed, if they are.
pub open spec fn continuation_fault(
    direction: ObjectDirection,
    request_cursor: Option<ObjectCursor>,
    objects: Seq<InlineObjectFactView>,
    preceding: ObjectPageEdgeFact,
    following: ObjectPageEdgeFact,
    complete: bool,
    continuation: Option<ObjectCursor>,
) -> Option<ObjectContractError> {
    let expected = if complete || objects.len() == 0 {
        None
    } else {
        match direction {
            ObjectDirection::Forward => Some(objects.last().cursor()),
            ObjectDirection::Backward => Some(objects[0].cursor()),
        }
    };
    let edges_valid = match direction {
        ObjectDirection::Forward => preceding == edge_for(request_cursor) && following
            == edge_for(continuation),
        ObjectDirection::Backward => following == edge_for(request_cursor) && preceding
            == edge_for(continuation),
    };
    if !complete && objects.len() == 0 {
        Some(ObjectContractError::NonProgressingObjectPage)
    } else if continuation != expected || complete != (continuation is None) {
        Some(ObjectContractError::MalformedContinuation)
    } else if !edges_valid {
        Some(ObjectContractError::MalformedContinuation)
    } else {
        None
    }
}

/// Total fallback and display bytes of the first `n` objects.
pub open spec fn payload_total(objects: Seq<InlineObjectFactView>, n: int) -> int
    decreases n,
{
    if n <= 0 {
        0
    } else {
        payload_total(objects, n - 1) + objects[n - 1].payload()
    }
}

/// Record and payload bytes charged for an object page.
pub open spec fn object_charge_total(objects: Seq<InlineObjectFactView>) -> int {
    vstd::layout::size_of::<ObjectPage>() + objects.len() * vstd::layout::size_of::<
        InlineObjectFact,
    >() + payload_total(objects, objects.len() as int)
}

/// Every object is accepted.
pub open spec fn objects_sound(
    demand: ObjectDemandEnvelope,
    objects: Seq<InlineObjectFactView>,
) -> bool {
    forall|i: int| 0 <= i < objects.len() ==> #[trigger] object_fault(demand, objects, i) is None
}

/// `e` is the fault of the first rejected object.
pub open spec fn first_object_fault(
    demand: ObjectDemandEnvelope,
    objects: Seq<InlineObjectFactView>,
    e: ObjectContractError,
) -> bool {
    exists|i: int|
        0 <= i < objects.len() && (forall|j: int|
            0 <= j < i ==> #[trigger] object_fault(demand, objects, j) is None) && object_fault(
            demand,
            objects,
            i,
        ) == Some(e)
}

/// One exact bounded source-zero-width object page.
#[derive(Debug, PartialEq)]
pub struct ObjectPage {
    pub(crate) id: ObjectPageId,
    pub(crate) key: ObjectRequestKey,
    pub(crate) objects: Vec<InlineObjectFact>,
    pub(crate) preceding: ObjectPageEdgeFact,
    pub(crate) following: ObjectPageEdgeFact,
    pub(crate) complete: bool,
    pub(crate) continuation: Option<ObjectCursor>,
    pub(crate) charge: ObjectPageCharge,
}

impl ObjectPage {
    /// The stable page-payload identity.
    pub open(crate) spec fn page_id(self) -> ObjectPageId {
        self.id
    }

    /// The exact request/response key.
    pub open(crate) spec fn request_key(self) -> ObjectRequestKey {
        self.key
    }

    /// The object facts.
    pub open(crate) spec fn facts(self) -> Seq<InlineObjectFactView> {
        fact_views(self.objects@)
    }

    /// The leading edge fact.
    pub open(crate) spec fn leading(self) -> ObjectPageEdgeFact {
        self.preceding
    }

    /// The trailing edge fact.
    pub open(crate) spec fn trailing(self) -> ObjectPageEdgeFact {
        self.following
    }

    /// Whether the page reaches the envelope edge in its direction.
    pub open(crate) spec fn is_complete(self) -> bool {
        self.complete
    }

    /// The continuation cursor.
    pub open(crate) spec fn next_cursor(self) -> Option<ObjectCursor> {
        self.continuation
    }

    /// The retained charge.
    pub open(crate) spec fn retained(self) -> ObjectPageCharge {
        self.charge
    }

    /// The contract a page's parts satisfy, with the charge they produce.
    pub open spec fn parts_valid(
        key: ObjectRequestKey,
        objects: Seq<InlineObjectFactView>,
        preceding: ObjectPageEdgeFact,
        following: ObjectPageEdgeFact,
        complete: bool,
        continuation: Option<ObjectCursor>,
    ) -> bool {
        let demand = key.envelope();
        &&& objects.len() <= demand.object_ceiling()
        &&& objects_sound(demand, objects)
        &&& continuation_fault(
            demand.direction_of(),
            demand.cursor_of(),
            objects,
            preceding,
            following,
            complete,
            continuation,
        ) is None
        &&& object_charge_total(objects) <= demand.byte_ceiling()
    }

    /// Whether this page's parts satisfy the page contract.
    pub open spec fn valid(self) -> bool {
        &&& Self::parts_valid(
            self.request_key(),
            self.facts(),
            self.leading(),
            self.trailing(),
            self.is_complete(),
            self.next_cursor(),
        )
        &&& self.retained().charged_bytes() == object_charge_total(self.facts())
        &&& self.retained().charged_objects() == self.facts().len()
        &&& self.retained().charged_payload() == payload_total(
            self.facts(),
            self.facts().len() as int,
        )
    }

    #[verifier::type_invariant]
    pub(crate) open spec fn well_formed(self) -> bool {
        self.valid()
    }

    /// What `new` returns for these parts.
    pub open spec fn built(
        r: Result<ObjectPage, ObjectContractError>,
        id: ObjectPageId,
        key: ObjectRequestKey,
        objects: Seq<InlineObjectFactView>,
        preceding: ObjectPageEdgeFact,
        following: ObjectPageEdgeFact,
        complete: bool,
        continuation: Option<ObjectCursor>,
    ) -> bool {
        let demand = key.envelope();
        let continuation_error = continuation_fault(
            demand.direction_of(),
            demand.cursor_of(),
            objects,
            preceding,
            following,
            complete,
            continuation,
        );
        let counted = objects.len() <= demand.object_ceiling();
        match r {
            Ok(page) => {
                &&& Self::parts_valid(key, objects, preceding, following, complete, continuation)
                &&& page.page_id() == id && page.request_key() == key && page.facts() == objects
                &&& page.leading() == preceding && page.trailing() == following
                &&& page.is_complete() == complete && page.next_cursor() == continuation
                &&& page.retained().charged_bytes() == object_charge_total(objects)
                &&& page.retained().charged_objects() == objects.len()
                &&& page.retained().charged_payload() == payload_total(
                    objects,
                    objects.len() as int,
                )
            },
            Err(e) => {
                ||| !counted && e == ObjectContractError::ObjectCountLimitExceeded
                ||| counted && first_object_fault(demand, objects, e)
                ||| counted && objects_sound(demand, objects) && continuation_error == Some(e)
                ||| counted && objects_sound(demand, objects) && continuation_error is None
                    && object_charge_total(objects) > usize::MAX && e
                    == ObjectContractError::RetainedByteCountOverflow
                ||| counted && objects_sound(demand, objects) && continuation_error is None
                    && object_charge_total(objects) <= usize::MAX && object_charge_total(objects)
                    > demand.byte_ceiling() && e == ObjectContractError::RetainedByteLimitExceeded
            },
        }
    }

    /// Constructs and validates one exact response to its frozen object request.
    pub fn new(
        id: ObjectPageId,
        key: ObjectRequestKey,
        objects: Vec<InlineObjectFact>,
        preceding: ObjectPageEdgeFact,
        following: ObjectPageEdgeFact,
        complete: bool,
        continuation: Option<ObjectCursor>,
    ) -> (r: Result<Self, ObjectContractError>)
        ensures
            Self::built(
                r,
                id,
                key,
                fact_views(objects@),
                preceding,
                following,
                complete,
                continuation,
            ),
    {
        let ghost facts = fact_views(objects@);
        let demand = key.demand();
        if objects.len() > demand.max_objects() {
            return Err(ObjectContractError::ObjectCountLimitExceeded);
        }
        let mut index: usize = 0;
        while index < objects.len()
            invariant
                facts == fact_views(objects@),
                demand == key.envelope(),
                objects.len() <= demand.object_ceiling(),
                0 <= index <= objects.len(),
                forall|j: int| 0 <= j < index ==> #[trigger] object_fault(demand, facts, j) is None,
            decreases objects.len() - index,
        {
            match check_object(demand, &objects, index) {
                Ok(()) => {},
                Err(e) => {
                    proof {
                        assert(first_object_fault(demand, facts, e));
                    }
                    return Err(e);
                },
            }
            index = index + 1;
        }
        match validate_continuation(
            demand.direction(),
            demand.cursor(),
            &objects,
            preceding,
            following,
            complete,
            continuation,
        ) {
            Ok(()) => {},
            Err(e) => {
                return Err(e);
            },
        }
        let mut payload: usize = 0;
        let mut index: usize = 0;
        while index < objects.len()
            invariant
                facts == fact_views(objects@),
                demand == key.envelope(),
                objects.len() <= demand.object_ceiling(),
                objects_sound(demand, facts),
                continuation_fault(
                    demand.direction_of(),
                    demand.cursor_of(),
                    facts,
                    preceding,
                    following,
                    complete,
                    continuation,
                ) is None,
                0 <= index <= objects.len(),
                payload == payload_total(facts, index as int),
            decreases objects.len() - index,
        {
            proof {
                assert(facts[index as int] == objects@[index as int]@);
                lemma_payload_total_monotone(facts, index + 1, objects.len() as int);
            }
            let bytes = match objects[index].payload_bytes() {
                Some(value) => value,
                None => {
                    proof {
                        lemma_charge_covers_payload(facts);
                        assert(payload_total(facts, index + 1) <= object_charge_total(facts));
                    }
                    return Err(ObjectContractError::RetainedByteCountOverflow);
                },
            };
            if payload > usize::MAX - bytes {
                proof {
                    lemma_charge_covers_payload(facts);
                    assert(payload_total(facts, index + 1) <= object_charge_total(facts));
                }
                return Err(ObjectContractError::RetainedByteCountOverflow);
            }
            payload = payload + bytes;
            index = index + 1;
        }
        let page_record = core::mem::size_of::<ObjectPage>();
        let fact_record = core::mem::size_of::<InlineObjectFact>();
        let count = objects.len();
        let fact_records = match count.checked_mul(fact_record) {
            Some(value) => value,
            None => {
                proof {
                    lemma_charge_covers_payload(facts);
                    assert(count * fact_record <= object_charge_total(facts)) by (nonlinear_arith)
                        requires
                            object_charge_total(facts) == page_record + count * fact_record
                                + payload_total(facts, count as int),
                            payload_total(facts, count as int) >= 0,
                    ;
                }
                return Err(ObjectContractError::RetainedByteCountOverflow);
            },
        };
        let bytes = match page_record.checked_add(fact_records) {
            Some(value) => match value.checked_add(payload) {
                Some(total) => total,
                None => {
                    return Err(ObjectContractError::RetainedByteCountOverflow);
                },
            },
            None => {
                proof {
                    lemma_charge_covers_payload(facts);
                }
                return Err(ObjectContractError::RetainedByteCountOverflow);
            },
        };
        if bytes > demand.max_retained_bytes() {
            return Err(ObjectContractError::RetainedByteLimitExceeded);
        }
        let charge = ObjectPageCharge { bytes, objects: count, presentation_bytes: payload };
        Ok(ObjectPage { id, key, objects, preceding, following, complete, continuation, charge })
    }

    /// Returns the stable page-payload identity.
    pub fn id(&self) -> (r: ObjectPageId)
        ensures
            r == self.page_id(),
    {
        self.id
    }

    /// Returns the exact request/response key.
    pub fn key(&self) -> (r: ObjectRequestKey)
        ensures
            r == self.request_key(),
    {
        self.key
    }

    /// Returns strictly source-ordered object facts.
    pub fn objects(&self) -> (r: &[InlineObjectFact])
        ensures
            fact_views(r@) == self.facts(),
            self.valid(),
    {
        proof {
            use_type_invariant(self);
        }
        self.objects.as_slice()
    }

    /// Returns the leading envelope or continuation fact.
    pub fn preceding(&self) -> (r: ObjectPageEdgeFact)
        ensures
            r == self.leading(),
            self.valid(),
    {
        proof {
            use_type_invariant(self);
        }
        self.preceding
    }

    /// Returns the trailing envelope or continuation fact.
    pub fn following(&self) -> (r: ObjectPageEdgeFact)
        ensures
            r == self.trailing(),
            self.valid(),
    {
        proof {
            use_type_invariant(self);
        }
        self.following
    }

    /// Reports whether the requested direction reaches its envelope edge.
    pub fn complete(&self) -> (r: bool)
        ensures
            r == self.is_complete(),
            self.valid(),
    {
        proof {
            use_type_invariant(self);
        }
        self.complete
    }

    /// Returns the exclusive cursor for the next page when incomplete.
    pub fn continuation(&self) -> (r: Option<ObjectCursor>)
        ensures
            r == self.next_cursor(),
            self.valid(),
    {
        proof {
            use_type_invariant(self);
        }
        self.continuation
    }

    /// Returns exact retained record and payload accounting.
    pub fn retained_charge(&self) -> (r: ObjectPageCharge)
        ensures
            r == self.retained(),
            r.charged_bytes() == object_charge_total(self.facts()),
            r.charged_objects() == self.facts().len(),
    {
        proof {
            use_type_invariant(self);
        }
        self.charge
    }

    /// The two pages carry the same identity, facts, edges, continuation and charge.
    pub open spec fn same_payload(self, other: ObjectPage) -> bool {
        &&& self.page_id() == other.page_id()
        &&& facts_match(self.facts(), other.facts())
        &&& self.leading() == other.leading()
        &&& self.trailing() == other.trailing()
        &&& self.is_complete() == other.is_complete()
        &&& self.next_cursor() == other.next_cursor()
        &&& self.retained() == other.retained()
    }

    /// Reports whether the same stable page identity names exactly the same payload and facts.
    ///
    /// The request key is response provenance rather than page payload identity, so equivalent
    /// responses to another exact request reconcile when every retained fact and charge matches.
    pub fn reconciles_with(&self, other: &Self) -> (r: bool)
        ensures
            r == self.same_payload(*other),
    {
        if self.id != other.id || self.objects.len() != other.objects.len() {
            proof {
                if self.objects.len() != other.objects.len() {
                    assert(self.facts().len() != other.facts().len());
                }
            }
            return false;
        }
        let mut index: usize = 0;
        while index < self.objects.len()
            invariant
                self.objects.len() == other.objects.len(),
                0 <= index <= self.objects.len(),
                forall|j: int| 0 <= j < index ==> #[trigger] fact_match(self.facts()[j], other.facts()[j]),
            decreases self.objects.len() - index,
        {
            if !self.objects[index].reconciles_with(&other.objects[index]) {
                proof {
                    assert(!fact_match(self.facts()[index as int], other.facts()[index as int]));
                }
                return false;
            }
            index = index + 1;
        }
        self.preceding == other.preceding && self.following == other.following && self.complete
            == other.complete && self.continuation == other.continuation && self.charge
            == other.charge
    }
}

/// Two accepted responses that carry the same page identity and the same facts reconcile,
/// whichever requests they answer: the request key is provenance, not payload. Every such page
/// reconciles with itself. Presentations are compared as floating-point values, so this
/// holds where no presentation value is a NaN.
pub proof fn lemma_same_facts_reconcile(
    first: ObjectPage,
    second: ObjectPage,
    id: ObjectPageId,
    first_key: ObjectRequestKey,
    second_key: ObjectRequestKey,
    objects: Seq<InlineObjectFactView>,
    preceding: ObjectPageEdgeFact,
    following: ObjectPageEdgeFact,
    complete: bool,
    continuation: Option<ObjectCursor>,
)
    requires
        ObjectPage::built(
            Ok(first),
            id,
            first_key,
            objects,
            preceding,
            following,
            complete,
            continuation,
        ),
        ObjectPage::built(
            Ok(second),
            id,
            second_key,
            objects,
            preceding,
            following,
            complete,
            continuation,
        ),
        forall|i: int|
            0 <= i < objects.len() ==> presentation_comparable(#[trigger] objects[i].presentation),
    ensures
        first.same_payload(second),
        second.same_payload(first),
        first.same_payload(first),
{
    assert forall|i: int| 0 <= i < objects.len() implies #[trigger] fact_match(
        objects[i],
        objects[i],
    ) by {
        lemma_presentation_match(objects[i].presentation, objects[i].presentation);
    }
}

/// Reconciliation is symmetric: a page reconciles with another exactly when that one
/// reconciles with it.
pub proof fn lemma_reconcile_symmetric(first: ObjectPage, second: ObjectPage)
    ensures
        first.same_payload(second) == second.same_payload(first),
{
    let a = first.facts();
    let b = second.facts();
    if facts_match(a, b) {
        assert forall|i: int| 0 <= i < b.len() implies #[trigger] fact_match(b[i], a[i]) by {
            lemma_presentation_match(a[i].presentation, b[i].presentation);
            assert(fact_match(a[i], b[i]));
        }
    }
    if facts_match(b, a) {
        assert forall|i: int| 0 <= i < a.len() implies #[trigger] fact_match(a[i], b[i]) by {
            lemma_presentation_match(b[i].presentation, a[i].presentation);
            assert(fact_match(b[i], a[i]));
        }
    }
}

/// Prefix payload totals grow with the prefix.
proof fn lemma_payload_total_monotone(objects: Seq<InlineObjectFactView>, m: int, n: int)
    requires
        0 <= m <= n <= objects.len(),
    ensures
        payload_total(objects, m) <= payload_total(objects, n),
        payload_total(objects, m) >= 0,
    decreases n,
{
    if m < n {
        lemma_payload_total_monotone(objects, m, n - 1);
    } else if n > 0 {
        lemma_payload_total_monotone(objects, n - 1, n - 1);
    }
}

/// The page charge covers every prefix of its payload.
proof fn lemma_charge_covers_payload(objects: Seq<InlineObjectFactView>)
    ensures
        forall|m: int|
            0 <= m <= objects.len() ==> #[trigger] payload_total(objects, m)
                <= object_charge_total(objects),
{
    assert forall|m: int| 0 <= m <= objects.len() implies #[trigger] payload_total(objects, m)
        <= object_charge_total(objects) by {
        lemma_payload_total_monotone(objects, m, objects.len() as int);
        assert(objects.len() * vstd::layout::size_of::<InlineObjectFact>() >= 0) by (
        nonlinear_arith);
    }
}

/// Checks object `index` of a page whose earlier objects were accepted.
fn check_object(demand: ObjectDemandEnvelope, objects: &Vec<InlineObjectFact>, index: usize) -> (r:
    Result<(), ObjectContractError>)
    requires
        index < objects.len(),
    ensures
        match r {
            Ok(()) => object_fault(demand, fact_views(objects@), index as int) is None,
            Err(e) => object_fault(demand, fact_views(objects@), index as int) == Some(e),
        },
{
    let ghost facts = fact_views(objects@);
    let object = &objects[index];
    proof {
        assert(facts[index as int] == object@);
        if index > 0 {
            assert(facts[index - 1] == objects@[index - 1]@);
        }
    }
    if !demand.contains_anchor(object.anchor) {
        return Err(ObjectContractError::ResponseOutsideEnvelope);
    }
    match demand.cursor() {
        Some(cursor) => {
            if object.id == cursor.id() {
                return Err(ObjectContractError::DuplicateObjectIdentity { object: object.id });
            }
            if object.anchor == cursor.anchor() && object.order == cursor.order() {
                return Err(
                    ObjectContractError::DuplicateObjectOrder {
                        anchor: object.anchor,
                        order: object.order,
                    },
                );
            }
            let progresses = match demand.direction() {
                ObjectDirection::Forward => cursor_precedes(cursor, object.cursor()),
                ObjectDirection::Backward => cursor_precedes(object.cursor(), cursor),
            };
            if !progresses {
                return Err(ObjectContractError::ResponseOutsideEnvelope);
            }
        },
        None => {},
    }
    if identity_before(objects, index, object.id) {
        return Err(ObjectContractError::DuplicateObjectIdentity { object: object.id });
    }
    if index > 0 {
        let previous = &objects[index - 1];
        if previous.anchor == object.anchor && previous.order == object.order {
            return Err(
                ObjectContractError::DuplicateObjectOrder {
                    anchor: object.anchor,
                    order: object.order,
                },
            );
        }
        if !cursor_precedes(previous.cursor(), object.cursor()) {
            return Err(ObjectContractError::ObjectsOutOfOrder);
        }
    }
    Ok(())
}

/// Whether one of the first `index` objects has identity `id`.
fn identity_before(objects: &Vec<InlineObjectFact>, index: usize, id: InlineObjectId) -> (r: bool)
    requires
        index <= objects.len(),
    ensures
        r == exists|j: int| 0 <= j < index && #[trigger] fact_views(objects@)[j].id == id,
{
    let ghost facts = fact_views(objects@);
    let mut prior: usize = 0;
    while prior < index
        invariant
            facts == fact_views(objects@),
            0 <= prior <= index <= objects.len(),
            forall|j: int| 0 <= j < prior ==> facts[j].id != id,
        decreases index - prior,
    {
        proof {
            assert(facts[prior as int] == objects@[prior as int]@);
        }
        if objects[prior].id == id {
            proof {
                assert(fact_views(objects@)[prior as int].id == id);
            }
            return true;
        }
        prior = prior + 1;
    }
    false
}

fn validate_continuation(
    direction: ObjectDirection,
    request_cursor: Option<ObjectCursor>,
    objects: &Vec<InlineObjectFact>,
    preceding: ObjectPageEdgeFact,
    following: ObjectPageEdgeFact,
    complete: bool,
    continuation: Option<ObjectCursor>,
) -> (r: Result<(), ObjectContractError>)
    ensures
        match continuation_fault(
            direction,
            request_cursor,
            fact_views(objects@),
            preceding,
            following,
            complete,
            continuation,
        ) {
            Some(e) => r == Err::<(), ObjectContractError>(e),
            None => r is Ok,
        },
{
    let ghost facts = fact_views(objects@);
    let request_edge = match request_cursor {
        Some(cursor) => ObjectPageEdgeFact::Continues(cursor),
        None => ObjectPageEdgeFact::EnvelopeBoundary,
    };
    let expected = if complete || objects.len() == 0 {
        None
    } else {
        match direction {
            ObjectDirection::Forward => {
                proof {
                    assert(facts.last() == objects@[objects.len() - 1]@);
                }
                Some(objects[objects.len() - 1].cursor())
            },
            ObjectDirection::Backward => {
                proof {
                    assert(facts[0] == objects@[0]@);
                }
                Some(objects[0].cursor())
            },
        }
    };
    if !complete && objects.len() == 0 {
        return Err(ObjectContractError::NonProgressingObjectPage);
    }
    if continuation != expected || complete != continuation.is_none() {
        return Err(ObjectContractError::MalformedContinuation);
    }
    let continuation_edge = match continuation {
        Some(cursor) => ObjectPageEdgeFact::Continues(cursor),
        None => ObjectPageEdgeFact::EnvelopeBoundary,
    };
    let edges_valid = match direction {
        ObjectDirection::Forward => preceding == request_edge && following == continuation_edge,
        ObjectDirection::Backward => following == request_edge && preceding == continuation_edge,
    };
    if !edges_valid {
        return Err(ObjectContractError::MalformedContinuation);
    }
    Ok(())
}

/// What every accepted object page satisfies: it is within the object and byte ceilings, its
/// objects are in strictly increasing cursor order, an incomplete page makes progress, and
/// for its edges: the edge on the request's side names the request
/// cursor, the edge on the far side names the continuation cursor (each the envelope boundary
/// when there is none), and the page is complete exactly when it has no continuation. Forward
/// pages have the request on their preceding side, backward pages on their following side.
pub proof fn lemma_object_page_edges(
    r: Result<ObjectPage, ObjectContractError>,
    id: ObjectPageId,
    key: ObjectRequestKey,
    objects: Seq<InlineObjectFactView>,
    preceding: ObjectPageEdgeFact,
    following: ObjectPageEdgeFact,
    complete: bool,
    continuation: Option<ObjectCursor>,
)
    requires
        ObjectPage::built(r, id, key, objects, preceding, following, complete, continuation),
        r is Ok,
    ensures
        complete == (continuation is None),
        !complete ==> objects.len() > 0,
        objects.len() <= key.envelope().object_ceiling(),
        object_charge_total(objects) <= key.envelope().byte_ceiling(),
        forall|i: int, j: int|
            0 <= i < j < objects.len() ==> cursor_before(
                #[trigger] objects[i].cursor(),
                #[trigger] objects[j].cursor(),
            ),
        key.envelope().direction_of() == ObjectDirection::Forward ==> {
            &&& preceding == match key.envelope().cursor_of() {
                Some(c) => ObjectPageEdgeFact::Continues(c),
                None => ObjectPageEdgeFact::EnvelopeBoundary,
            }
            &&& following == match continuation {
                Some(c) => ObjectPageEdgeFact::Continues(c),
                None => ObjectPageEdgeFact::EnvelopeBoundary,
            }
        },
        key.envelope().direction_of() == ObjectDirection::Backward ==> {
            &&& following == match key.envelope().cursor_of() {
                Some(c) => ObjectPageEdgeFact::Continues(c),
                None => ObjectPageEdgeFact::EnvelopeBoundary,
            }
            &&& preceding == match continuation {
                Some(c) => ObjectPageEdgeFact::Continues(c),
                None => ObjectPageEdgeFact::EnvelopeBoundary,
            }
        },
{
    assert forall|i: int, j: int| 0 <= i < j < objects.len() implies cursor_before(
        #[trigger] objects[i].cursor(),
        #[trigger] objects[j].cursor(),
    ) by {
        lemma_sound_objects_ordered(key.envelope(), objects, i, j);
    }
}

/// Acceptable objects are in strictly increasing cursor order.
proof fn lemma_sound_objects_ordered(
    demand: ObjectDemandEnvelope,
    objects: Seq<InlineObjectFactView>,
    i: int,
    j: int,
)
    requires
        objects_sound(demand, objects),
        0 <= i < j < objects.len(),
    ensures
        cursor_before(objects[i].cursor(), objects[j].cursor()),
    decreases j - i,
{
    assert(object_fault(demand, objects, j) is None);
    if i < j - 1 {
        lemma_sound_objects_ordered(demand, objects, i, j - 1);
    }
}

/// A complete object page whose objects are each acceptable, within the object and byte
/// ceilings, is accepted when its request-side edge names the request cursor and its far
/// edge is the envelope boundary: the preceding edge for a forward demand, the following
/// edge for a backward one.
pub proof fn lemma_complete_object_page_accepted(
    r: Result<ObjectPage, ObjectContractError>,
    id: ObjectPageId,
    key: ObjectRequestKey,
    objects: Seq<InlineObjectFactView>,
    preceding: ObjectPageEdgeFact,
    following: ObjectPageEdgeFact,
)
    requires
        ObjectPage::built(r, id, key, objects, preceding, following, true, None),
        objects.len() <= key.envelope().object_ceiling(),
        objects_sound(key.envelope(), objects),
        object_charge_total(objects) <= key.envelope().byte_ceiling(),
        key.envelope().direction_of() == ObjectDirection::Forward ==> {
            &&& preceding == match key.envelope().cursor_of() {
                Some(c) => ObjectPageEdgeFact::Continues(c),
                None => ObjectPageEdgeFact::EnvelopeBoundary,
            }
            &&& following == ObjectPageEdgeFact::EnvelopeBoundary
        },
        key.envelope().direction_of() == ObjectDirection::Backward ==> {
            &&& following == match key.envelope().cursor_of() {
                Some(c) => ObjectPageEdgeFact::Continues(c),
                None => ObjectPageEdgeFact::EnvelopeBoundary,
            }
            &&& preceding == ObjectPageEdgeFact::EnvelopeBoundary
        },
    ensures
        r is Ok,
{
}

} // verus!
