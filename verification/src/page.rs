use vstd::prelude::*;
use vstd::utf8::{encode_utf8, is_char_boundary};

use crate::coordinates::{AtomId, ByteOffset, ByteRange, LineOffset, LineRange, PageId};
use crate::request::{PageDemandEnvelope, PageDirection, PageRequestKey};
use crate::utf16::utf8_prefix;

verus! {

/// Byte length of the UTF-8 encoding of `s`.
pub open spec fn utf8_len(s: Seq<char>) -> nat {
    encode_utf8(s).len()
}

/// Returns the byte length of a string slice.
pub fn byte_len(s: &str) -> (r: usize)
    ensures
        r == utf8_len(s@),
{
    s.as_bytes().len()
}

/// Authoritative fact about one edge of a returned page.
#[derive(Clone, Copy, Debug, PartialEq, Eq, Structural, Hash)]
pub enum PageEdgeFact {
    /// The edge is the start or the end of the whole document.
    DocumentBoundary,
    /// More source follows beyond this edge.
    Continues,
}

/// The mathematical content of an atom fact.
pub ghost struct AtomFactView {
    pub id: AtomId,
    pub global_range: ByteRange,
    pub fragment_range: ByteRange,
    pub fallback_copy: Seq<char>,
}

/// One inline atom, its global extent and the part of it inside one page.
#[derive(Clone, Debug, PartialEq, Eq)]
pub struct AtomFact {
    pub(crate) id: AtomId,
    pub(crate) global_range: ByteRange,
    pub(crate) fragment_range: ByteRange,
    pub(crate) fallback_copy: String,
}

impl View for AtomFact {
    type V = AtomFactView;

    open spec fn view(&self) -> AtomFactView {
        AtomFactView {
            id: self.atom_id(),
            global_range: self.global_extent(),
            fragment_range: self.fragment_extent(),
            fallback_copy: self.fallback_text(),
        }
    }
}

/// The views of a sequence of atom facts.
pub open spec fn atom_views(atoms: Seq<AtomFact>) -> Seq<AtomFactView> {
    atoms.map_values(|a: AtomFact| a@)
}

impl AtomFact {
    /// The atom identity.
    pub open(crate) spec fn atom_id(&self) -> AtomId {
        self.id
    }

    /// The whole extent of the atom.
    pub open(crate) spec fn global_extent(&self) -> ByteRange {
        self.global_range
    }

    /// The part of the atom inside its page.
    pub open(crate) spec fn fragment_extent(&self) -> ByteRange {
        self.fragment_range
    }

    /// The fallback text.
    pub open(crate) spec fn fallback_text(&self) -> Seq<char> {
        self.fallback_copy@
    }

    /// Creates one atom fact. Page construction validates it against the page.
    pub fn new(
        id: AtomId,
        global_range: ByteRange,
        fragment_range: ByteRange,
        fallback_copy: String,
    ) -> (r: Self)
        ensures
            r@ == (AtomFactView {
                id,
                global_range,
                fragment_range,
                fallback_copy: fallback_copy@,
            }),
    {
        AtomFact { id, global_range, fragment_range, fallback_copy }
    }

    /// Returns the atom identity.
    pub fn id(&self) -> (r: AtomId)
        ensures
            r == self.atom_id(),
    {
        self.id
    }

    /// Returns the whole extent of the atom in the source.
    pub fn global_range(&self) -> (r: ByteRange)
        ensures
            r == self.global_extent(),
    {
        self.global_range
    }

    /// Returns the part of the atom inside the page that carries this fact.
    pub fn fragment_range(&self) -> (r: ByteRange)
        ensures
            r == self.fragment_extent(),
    {
        self.fragment_range
    }

    /// Returns the plain-text clipboard fallback.
    pub fn fallback_copy(&self) -> (r: &str)
        ensures
            r@ == self.fallback_text(),
    {
        self.fallback_copy.as_str()
    }

    /// Reports whether two fragments name the same atom with the same global facts.
    pub fn reconciles_with(&self, other: &Self) -> (r: bool)
        ensures
            r == (self.atom_id() == other.atom_id() && self.global_extent()
                == other.global_extent() && self.fallback_text() == other.fallback_text()),
    {
        self.id == other.id && self.global_range == other.global_range && self.fallback_copy
            == other.fallback_copy
    }

    fn retained_bytes(&self) -> (r: usize)
        ensures
            r == utf8_len(self.fallback_copy@),
    {
        byte_len(self.fallback_copy.as_str())
    }

    /// A copy with an equal view.
    fn duplicate(&self) -> (r: Self)
        ensures
            r@ == self@,
    {
        AtomFact {
            id: self.id,
            global_range: self.global_range,
            fragment_range: self.fragment_range,
            fallback_copy: self.fallback_copy.clone(),
        }
    }
}

/// Exact retained record charge of one page.
#[derive(Clone, Copy, Debug, Default, PartialEq, Eq, Structural)]
pub struct RangePageCharge {
    pub(crate) bytes: usize,
    pub(crate) items: usize,
}

impl RangePageCharge {
    /// Charged bytes.
    pub open(crate) spec fn charged_bytes(self) -> usize {
        self.bytes
    }

    /// Charged records.
    pub open(crate) spec fn charged_items(self) -> usize {
        self.items
    }

    /// Retained bytes: records and payload.
    pub fn bytes(self) -> (r: usize)
        ensures
            r == self.charged_bytes(),
    {
        self.bytes
    }

    /// Retained records: the page and its atoms.
    pub fn items(self) -> (r: usize)
        ensures
            r == self.charged_items(),
    {
        self.items
    }
}

/// Terminal host-side failure for one exact page request.
#[derive(Clone, Copy, Debug, PartialEq, Eq, Structural)]
pub enum PageFailure {
    /// The request was cancelled before success.
    Cancelled,
    /// The requested source is currently unavailable.
    Unavailable,
    /// The host response could not satisfy the contract.
    Malformed,
}

/// Rejection of a malformed range-source value or response.
#[derive(Clone, Debug, PartialEq, Eq, Structural)]
#[non_exhaustive]
pub enum RangeContractError {
    ReversedByteRange { start: ByteOffset, end: ByteOffset },
    ReversedLineRange { start: LineOffset, end: LineOffset },
    ByteRangeOutsideExtent { range: ByteRange, byte_len: u64 },
    LineRangeOutsideExtent { range: LineRange, line_count: u64 },
    PagePayloadLimitTooSmall { max_payload_bytes: u64 },
    ReturnedRangeOutsideEnvelope { demand: PageDemandEnvelope, returned: ByteRange },
    NonProgressingPage { anchor: ByteOffset, direction: PageDirection },
    PayloadLengthMismatch { range: ByteRange, actual_bytes: usize },
    MalformedEdgeFacts,
    MalformedAtomRange { atom: AtomId, global_range: ByteRange, fragment_range: ByteRange },
    DuplicateAtomFact { atom: AtomId },
    ConflictingAtomFacts { atom: AtomId },
    OverlappingAtomFacts { first: AtomId, second: AtomId },
    PayloadByteCountOverflow,
}

/// Why `range` does not answer `demand`, if it does not.
pub open(crate) spec fn envelope_fault(
    demand: PageDemandEnvelope,
    range: ByteRange,
    preceding: PageEdgeFact,
    following: PageEdgeFact,
) -> Option<RangeContractError> {
    let outside = RangeContractError::ReturnedRangeOutsideEnvelope { demand, returned: range };
    if range.hi() - range.lo() > demand.ceiling() {
        Some(outside)
    } else {
        match demand {
            PageDemandEnvelope::Adjacent { anchor, direction, .. } => {
                let anchored = match direction {
                    PageDirection::Forward => range.start == anchor,
                    PageDirection::Backward => range.end == anchor,
                };
                let document_edge = match direction {
                    PageDirection::Forward => following == PageEdgeFact::DocumentBoundary,
                    PageDirection::Backward => preceding == PageEdgeFact::DocumentBoundary,
                };
                if !anchored {
                    Some(outside)
                } else if range.lo() == range.hi() && !document_edge {
                    Some(RangeContractError::NonProgressingPage { anchor, direction })
                } else {
                    None
                }
            },
            PageDemandEnvelope::Validation { candidate, .. } => {
                if !range.holds_offset(candidate.value()) || (range.lo() == range.hi() && preceding
                    != PageEdgeFact::DocumentBoundary && following
                    != PageEdgeFact::DocumentBoundary) {
                    Some(outside)
                } else {
                    None
                }
            },
        }
    }
}

/// Why the page-level facts are malformed, if they are: payload length, edge facts and
/// the request envelope, in that order.
pub open(crate) spec fn header_fault(
    key: PageRequestKey,
    range: ByteRange,
    text: Seq<char>,
    preceding: PageEdgeFact,
    following: PageEdgeFact,
    end_of_source: bool,
) -> Option<RangeContractError> {
    if utf8_len(text) as int != range.hi() - range.lo() {
        Some(
            RangeContractError::PayloadLengthMismatch { range, actual_bytes: utf8_len(text) as usize },
        )
    } else if (range.lo() == 0) != (preceding == PageEdgeFact::DocumentBoundary) {
        Some(RangeContractError::MalformedEdgeFacts)
    } else if end_of_source != (following == PageEdgeFact::DocumentBoundary) {
        Some(RangeContractError::MalformedEdgeFacts)
    } else {
        envelope_fault(key.demand, range, preceding, following)
    }
}

/// Total fallback bytes of the first `n` atoms.
pub open spec fn fallback_total(atoms: Seq<AtomFactView>, n: int) -> int
    decreases n,
{
    if n <= 0 {
        0
    } else {
        fallback_total(atoms, n - 1) + utf8_len(atoms[n - 1].fallback_copy)
    }
}

/// Where atom `i` may begin: at the page start or after the previous fragment.
pub open spec fn atom_floor(range: ByteRange, atoms: Seq<AtomFactView>, i: int) -> u64 {
    if i == 0 {
        range.lo()
    } else {
        atoms[i - 1].fragment_range.hi()
    }
}

/// Why atom `i` is rejected, given that the atoms before it were accepted.
pub open spec fn atom_fault(
    range: ByteRange,
    text: Seq<char>,
    atoms: Seq<AtomFactView>,
    i: int,
) -> Option<RangeContractError> {
    let atom = atoms[i];
    let fragment = atom.fragment_range;
    let malformed = RangeContractError::MalformedAtomRange {
        atom: atom.id,
        global_range: atom.global_range,
        fragment_range: fragment,
    };
    let local_start = fragment.lo() - range.lo();
    let local_end = fragment.hi() - range.lo();
    if exists|j: int| 0 <= j < i && #[trigger] atoms[j].id == atom.id {
        Some(RangeContractError::DuplicateAtomFact { atom: atom.id })
    } else if atom.global_range.lo() == atom.global_range.hi() || atom.global_range.meet(range)
        != Some((fragment.lo(), fragment.hi())) || fragment.lo() < atom_floor(range, atoms, i) {
        Some(malformed)
    } else if local_start > usize::MAX || local_end > usize::MAX {
        Some(malformed)
    } else if !is_char_boundary(encode_utf8(text), local_start) || !is_char_boundary(
        encode_utf8(text),
        local_end,
    ) {
        Some(malformed)
    } else if utf8_len(text) + fallback_total(atoms, i + 1) > usize::MAX {
        Some(RangeContractError::PayloadByteCountOverflow)
    } else {
        None
    }
}

/// Every atom is accepted.
pub open spec fn atoms_sound(range: ByteRange, text: Seq<char>, atoms: Seq<AtomFactView>) -> bool {
    forall|i: int| 0 <= i < atoms.len() ==> #[trigger] atom_fault(range, text, atoms, i) is None
}

/// `e` is the fault of the first rejected atom.
pub open spec fn first_atom_fault(
    range: ByteRange,
    text: Seq<char>,
    atoms: Seq<AtomFactView>,
    e: RangeContractError,
) -> bool {
    exists|i: int|
        0 <= i < atoms.len() && (forall|j: int|
            0 <= j < i ==> #[trigger] atom_fault(range, text, atoms, j) is None) && atom_fault(
            range,
            text,
            atoms,
            i,
        ) == Some(e)
}

/// Text and fallback bytes retained by a page.
pub open spec fn retained_total(text: Seq<char>, atoms: Seq<AtomFactView>) -> int {
    utf8_len(text) + fallback_total(atoms, atoms.len() as int)
}

/// Record and payload bytes charged for a page.
pub open spec fn charge_total(text: Seq<char>, atoms: Seq<AtomFactView>) -> int {
    vstd::layout::size_of::<RangePage>() + atoms.len() * vstd::layout::size_of::<AtomFact>()
        + retained_total(text, atoms)
}

/// The charge of a page with these contents fits in `usize`.
pub open spec fn charge_fits(text: Seq<char>, atoms: Seq<AtomFactView>) -> bool {
    charge_total(text, atoms) <= usize::MAX && atoms.len() + 1 <= usize::MAX
}

/// One validated, source-selected exact page payload.
#[derive(Debug, PartialEq, Eq)]
pub struct RangePage {
    pub(crate) id: PageId,
    pub(crate) key: PageRequestKey,
    pub(crate) range: ByteRange,
    pub(crate) text: String,
    pub(crate) atoms: Vec<AtomFact>,
    pub(crate) preceding: PageEdgeFact,
    pub(crate) following: PageEdgeFact,
    pub(crate) end_of_source: bool,
    pub(crate) retained_bytes: usize,
    pub(crate) retained_charge: RangePageCharge,
}

impl RangePage {
    /// The atom views carried by this page.
    pub open(crate) spec fn atom_facts(self) -> Seq<AtomFactView> {
        atom_views(self.atoms@)
    }

    /// The contract a page's parts satisfy.
    pub open spec fn parts_valid(
        key: PageRequestKey,
        range: ByteRange,
        text: Seq<char>,
        atoms: Seq<AtomFactView>,
        preceding: PageEdgeFact,
        following: PageEdgeFact,
        end_of_source: bool,
    ) -> bool {
        &&& header_fault(key, range, text, preceding, following, end_of_source) is None
        &&& atoms_sound(range, text, atoms)
        &&& charge_fits(text, atoms)
    }

    #[verifier::type_invariant]
    pub(crate) open spec fn well_formed(self) -> bool {
        self.valid()
    }


    /// The byte offset of character position `k` of the page: where character `k` starts, or
    /// the page end after the last character.
    pub open spec fn char_offset(self, k: int) -> ByteOffset {
        if k < self.text_chars().len() {
            ByteOffset::from_value((self.byte_range().lo() + utf8_prefix(self.text_chars(), k)) as u64)
        } else {
            self.byte_range().end_offset()
        }
    }

    /// What `new` returns for these parts.
    pub open spec fn built(
        r: Result<RangePage, RangeContractError>,
        id: PageId,
        key: PageRequestKey,
        range: ByteRange,
        text: Seq<char>,
        atoms: Seq<AtomFactView>,
        preceding: PageEdgeFact,
        following: PageEdgeFact,
        end_of_source: bool,
    ) -> bool {
        match r {
            Ok(page) => {
                &&& Self::parts_valid(
                    key,
                    range,
                    text,
                    atoms,
                    preceding,
                    following,
                    end_of_source,
                )
                &&& page.page_id() == id && page.request_key() == key && page.byte_range() == range
                &&& page.text_chars() == text && page.atom_facts() == atoms
                &&& page.leading() == preceding && page.trailing() == following
                &&& page.at_source_end() == end_of_source
                &&& page.retained() == retained_total(text, atoms)
                &&& page.charge().charged_bytes() == charge_total(text, atoms)
                &&& page.charge().charged_items() == atoms.len() + 1
            },
            Err(e) => {
                ||| header_fault(key, range, text, preceding, following, end_of_source) == Some(e)
                ||| header_fault(key, range, text, preceding, following, end_of_source) is None
                    && first_atom_fault(range, text, atoms, e)
                ||| header_fault(key, range, text, preceding, following, end_of_source) is None
                    && atoms_sound(range, text, atoms) && !charge_fits(text, atoms) && e
                    == RangeContractError::PayloadByteCountOverflow
            },
        }
    }

    /// The stable page payload identity.
    pub open(crate) spec fn page_id(self) -> PageId {
        self.id
    }

    /// The exact request/response key.
    pub open(crate) spec fn request_key(self) -> PageRequestKey {
        self.key
    }

    /// The exact absolute page range.
    pub open(crate) spec fn byte_range(self) -> ByteRange {
        self.range
    }

    /// The payload characters.
    pub open(crate) spec fn text_chars(self) -> Seq<char> {
        self.text@
    }

    /// The leading-edge fact.
    pub open(crate) spec fn leading(self) -> PageEdgeFact {
        self.preceding
    }

    /// The trailing-edge fact.
    pub open(crate) spec fn trailing(self) -> PageEdgeFact {
        self.following
    }

    /// Whether the page ends at the logical source end.
    pub open(crate) spec fn at_source_end(self) -> bool {
        self.end_of_source
    }

    /// Retained text and fallback bytes.
    pub open(crate) spec fn retained(self) -> usize {
        self.retained_bytes
    }

    /// Retained record charge.
    pub open(crate) spec fn charge(self) -> RangePageCharge {
        self.retained_charge
    }

    /// Whether the page's parts satisfy the page contract.
    pub open spec fn valid(self) -> bool {
        &&& Self::parts_valid(
            self.request_key(),
            self.byte_range(),
            self.text_chars(),
            self.atom_facts(),
            self.leading(),
            self.trailing(),
            self.at_source_end(),
        )
        &&& self.retained() == retained_total(self.text_chars(), self.atom_facts())
        &&& self.charge().charged_bytes() == charge_total(self.text_chars(), self.atom_facts())
        &&& self.charge().charged_items() == self.atom_facts().len() + 1
    }


    /// Constructs and validates one source-selected exact page payload.
    pub fn new(
        id: PageId,
        key: PageRequestKey,
        range: ByteRange,
        text: String,
        atoms: Vec<AtomFact>,
        preceding: PageEdgeFact,
        following: PageEdgeFact,
        end_of_source: bool,
    ) -> (r: Result<Self, RangeContractError>)
        ensures
            Self::built(
                r,
                id,
                key,
                range,
                text@,
                atom_views(atoms@),
                preceding,
                following,
                end_of_source,
            ),
    {
        let ghost facts = atom_views(atoms@);
        let text_len = byte_len(text.as_str());
        if text_len as u64 != range.len() {
            return Err(RangeContractError::PayloadLengthMismatch { range, actual_bytes: text_len });
        }
        if (range.start().get() == 0) != (preceding == PageEdgeFact::DocumentBoundary) {
            return Err(RangeContractError::MalformedEdgeFacts);
        }
        if end_of_source != (following == PageEdgeFact::DocumentBoundary) {
            return Err(RangeContractError::MalformedEdgeFacts);
        }
        match validate_envelope(key, range, preceding, following) {
            Ok(()) => {},
            Err(e) => {
                return Err(e);
            },
        }
        let mut retained_bytes = text_len;
        let mut index: usize = 0;
        while index < atoms.len()
            invariant
                facts == atom_views(atoms@),
                0 <= index <= atoms.len(),
                header_fault(key, range, text@, preceding, following, end_of_source) is None,
                forall|j: int| 0 <= j < index ==> #[trigger] atom_fault(range, text@, facts, j) is None,
                retained_bytes == utf8_len(text@) + fallback_total(facts, index as int),
            decreases atoms.len() - index,
        {
            match check_atom(&text, range, &atoms, index, retained_bytes) {
                Ok(total) => {
                    retained_bytes = total;
                },
                Err(e) => {
                    proof {
                        assert(first_atom_fault(range, text@, facts, e));
                    }
                    return Err(e);
                },
            }
            index = index + 1;
        }
        let page_record = core::mem::size_of::<RangePage>();
        let atom_record = core::mem::size_of::<AtomFact>();
        let count = atoms.len();
        if count == usize::MAX {
            return Err(RangeContractError::PayloadByteCountOverflow);
        }
        let atom_records = match count.checked_mul(atom_record) {
            Some(value) => value,
            None => {
                return Err(RangeContractError::PayloadByteCountOverflow);
            },
        };
        let bytes = match page_record.checked_add(atom_records) {
            Some(value) => match value.checked_add(retained_bytes) {
                Some(total) => total,
                None => {
                    return Err(RangeContractError::PayloadByteCountOverflow);
                },
            },
            None => {
                return Err(RangeContractError::PayloadByteCountOverflow);
            },
        };
        let retained_charge = RangePageCharge { bytes, items: count + 1 };
        Ok(RangePage {
            id,
            key,
            range,
            text,
            atoms,
            preceding,
            following,
            end_of_source,
            retained_bytes,
            retained_charge,
        })
    }
}

impl RangePage {
    /// Returns the stable page payload identity.
    pub fn id(&self) -> (r: PageId)
        ensures
            r == self.page_id(),
    {
        self.id
    }

    /// Returns the exact request/response key.
    pub fn key(&self) -> (r: PageRequestKey)
        ensures
            r == self.request_key(),
    {
        self.key
    }

    /// Returns the exact absolute page range.
    pub fn range(&self) -> (r: ByteRange)
        ensures
            r == self.byte_range(),
            self.valid(),
    {
        proof {
            use_type_invariant(self);
        }
        self.range
    }

    /// Returns this bounded page's valid UTF-8 payload.
    pub fn text(&self) -> (r: &str)
        ensures
            r@ == self.text_chars(),
            self.valid(),
    {
        proof {
            use_type_invariant(self);
        }
        self.text.as_str()
    }

    /// Returns authoritative atom facts in display order.
    pub fn atoms(&self) -> (r: &[AtomFact])
        ensures
            atom_views(r@) == self.atom_facts(),
            self.valid(),
    {
        proof {
            use_type_invariant(self);
        }
        self.atoms.as_slice()
    }

    /// Returns the authoritative leading-edge fact.
    pub fn preceding(&self) -> (r: PageEdgeFact)
        ensures
            r == self.leading(),
            self.valid(),
    {
        proof {
            use_type_invariant(self);
        }
        self.preceding
    }

    /// Returns the authoritative trailing-edge fact.
    pub fn following(&self) -> (r: PageEdgeFact)
        ensures
            r == self.trailing(),
            self.valid(),
    {
        proof {
            use_type_invariant(self);
        }
        self.following
    }

    /// Reports whether the page ends at the logical source end.
    pub fn end_of_source(&self) -> (r: bool)
        ensures
            r == self.at_source_end(),
            self.valid(),
    {
        proof {
            use_type_invariant(self);
        }
        self.end_of_source
    }

    /// Returns exactly retained UTF-8 page and fallback-copy bytes.
    pub fn retained_bytes(&self) -> (r: usize)
        ensures
            r == self.retained(),
            r == retained_total(self.text_chars(), self.atom_facts()),
    {
        proof {
            use_type_invariant(self);
        }
        self.retained_bytes
    }

    /// Returns the complete page-record charge used for exact admission.
    pub fn retained_charge(&self) -> (r: RangePageCharge)
        ensures
            r == self.charge(),
            r.charged_bytes() == charge_total(self.text_chars(), self.atom_facts()),
            r.charged_items() == self.atom_facts().len() + 1,
    {
        proof {
            use_type_invariant(self);
        }
        self.retained_charge
    }

    /// Rebuilds this payload as the answer to another exact demand.
    pub fn clone_for_request(&self, key: PageRequestKey) -> (r: Result<Self, RangeContractError>)
        ensures
            Self::built(
                r,
                self.page_id(),
                key,
                self.byte_range(),
                self.text_chars(),
                self.atom_facts(),
                self.leading(),
                self.trailing(),
                self.at_source_end(),
            ),
    {
        let mut atoms: Vec<AtomFact> = Vec::new();
        let mut index: usize = 0;
        while index < self.atoms.len()
            invariant
                0 <= index <= self.atoms.len(),
                atoms@.len() == index,
                atom_views(atoms@) == atom_views(self.atoms@).take(index as int),
            decreases self.atoms.len() - index,
        {
            let copy = self.atoms[index].duplicate();
            let ghost prev = atoms@;
            atoms.push(copy);
            proof {
                assert forall|k: int| 0 <= k < index + 1 implies #[trigger] atom_views(atoms@)[k]
                    == atom_views(self.atoms@)[k] by {
                    if k < index {
                        assert(atoms@[k] == prev[k]);
                        assert(atom_views(prev)[k] == atom_views(self.atoms@).take(
                            index as int,
                        )[k]);
                    }
                }
                assert(atom_views(atoms@) =~= atom_views(self.atoms@).take(index + 1));
            }
            index = index + 1;
        }
        proof {
            assert(atom_views(self.atoms@).take(self.atoms.len() as int) =~= atom_views(
                self.atoms@,
            ));
        }
        Self::new(
            self.id,
            key,
            self.range,
            self.text.clone(),
            atoms,
            self.preceding,
            self.following,
            self.end_of_source,
        )
    }

    /// Answers a validation demand: `None` for an adjacent demand, otherwise whether the
    /// candidate offset is a UTF-8 boundary of the payload. The candidate is never rounded.
    pub fn candidate_is_boundary(&self) -> (r: Option<bool>)
        ensures
            match self.request_key().envelope() {
                PageDemandEnvelope::Adjacent { .. } => r is None,
                PageDemandEnvelope::Validation { candidate, .. } => {
                    let local = candidate.value() - self.byte_range().lo();
                    &&& self.byte_range().holds_offset(candidate.value())
                    &&& if local > usize::MAX {
                        r is None
                    } else {
                        r == Some(is_char_boundary(encode_utf8(self.text_chars()), local))
                    }
                },
            },
    {
        proof {
            use_type_invariant(self);
        }
        match self.key.demand() {
            PageDemandEnvelope::Adjacent { .. } => None,
            PageDemandEnvelope::Validation { candidate, .. } => {
                let local = candidate.get() - self.range.start().get();
                if local > usize::MAX as u64 {
                    None
                } else {
                    Some(self.text.as_str().is_char_boundary(local as usize))
                }
            },
        }
    }
}

/// Checks atom `index` of a page whose earlier atoms were accepted, and returns the
/// retained byte count with its fallback added.
fn check_atom(
    text: &String,
    range: ByteRange,
    atoms: &Vec<AtomFact>,
    index: usize,
    retained_bytes: usize,
) -> (r: Result<usize, RangeContractError>)
    requires
        index < atoms.len(),
        retained_bytes == utf8_len(text@) + fallback_total(atom_views(atoms@), index as int),
    ensures
        match r {
            Ok(total) => atom_fault(range, text@, atom_views(atoms@), index as int) is None
                && total == utf8_len(text@) + fallback_total(atom_views(atoms@), index + 1),
            Err(e) => atom_fault(range, text@, atom_views(atoms@), index as int) == Some(e),
        },
{
    let ghost facts = atom_views(atoms@);
    let atom = &atoms[index];
    proof {
        assert(facts[index as int] == atom@);
    }
    let mut prior: usize = 0;
    while prior < index
        invariant
            facts == atom_views(atoms@),
            0 <= prior <= index < atoms.len(),
            atom@ == facts[index as int],
            forall|j: int| 0 <= j < prior ==> facts[j].id != atom.id,
        decreases index - prior,
    {
        proof {
            assert(facts[prior as int] == atoms@[prior as int]@);
        }
        if atoms[prior].id == atom.id {
            proof {
                assert(facts[prior as int].id == facts[index as int].id);
            }
            return Err(RangeContractError::DuplicateAtomFact { atom: atom.id });
        }
        prior = prior + 1;
    }
    let malformed = RangeContractError::MalformedAtomRange {
        atom: atom.id,
        global_range: atom.global_range,
        fragment_range: atom.fragment_range,
    };
    let fragment = atom.fragment_range;
    let meets_fragment = match atom.global_range.intersection(range) {
        Some(common) => common.start().get() == fragment.start().get() && common.end().get()
            == fragment.end().get(),
        None => false,
    };
    let floor = if index == 0 {
        range.start().get()
    } else {
        proof {
            assert(facts[index - 1] == atoms@[index - 1]@);
        }
        atoms[index - 1].fragment_range.end().get()
    };
    if atom.global_range.is_empty() || !meets_fragment || fragment.start().get() < floor {
        return Err(malformed);
    }
    let start_offset = fragment.start().get() - range.start().get();
    let end_offset = fragment.end().get() - range.start().get();
    if start_offset > usize::MAX as u64 || end_offset > usize::MAX as u64 {
        return Err(malformed);
    }
    let local_start = start_offset as usize;
    let local_end = end_offset as usize;
    if !text.as_str().is_char_boundary(local_start) || !text.as_str().is_char_boundary(local_end) {
        return Err(malformed);
    }
    let fallback = atom.retained_bytes();
    if retained_bytes > usize::MAX - fallback {
        return Err(RangeContractError::PayloadByteCountOverflow);
    }
    Ok(retained_bytes + fallback)
}

fn validate_envelope(
    key: PageRequestKey,
    range: ByteRange,
    preceding: PageEdgeFact,
    following: PageEdgeFact,
) -> (r: Result<(), RangeContractError>)
    ensures
        match r {
            Ok(()) => envelope_fault(key.demand, range, preceding, following) is None,
            Err(e) => envelope_fault(key.demand, range, preceding, following) == Some(e),
        },
{
    let demand = key.demand();
    if range.len() > demand.max_payload_bytes() {
        return Err(RangeContractError::ReturnedRangeOutsideEnvelope { demand, returned: range });
    }
    match demand {
        PageDemandEnvelope::Adjacent { anchor, direction, .. } => {
            let anchored = match direction {
                PageDirection::Forward => range.start() == anchor,
                PageDirection::Backward => range.end() == anchor,
            };
            if !anchored {
                return Err(
                    RangeContractError::ReturnedRangeOutsideEnvelope { demand, returned: range },
                );
            }
            if range.is_empty() {
                let document_edge = match direction {
                    PageDirection::Forward => following == PageEdgeFact::DocumentBoundary,
                    PageDirection::Backward => preceding == PageEdgeFact::DocumentBoundary,
                };
                if !document_edge {
                    return Err(RangeContractError::NonProgressingPage { anchor, direction });
                }
            }
        },
        PageDemandEnvelope::Validation { candidate, .. } => {
            if !range.contains_offset(candidate) || (range.is_empty() && preceding
                != PageEdgeFact::DocumentBoundary && following
                != PageEdgeFact::DocumentBoundary) {
                return Err(
                    RangeContractError::ReturnedRangeOutsideEnvelope { demand, returned: range },
                );
            }
        },
    }
    Ok(())
}

/// What every accepted page satisfies: its text fills its range, which fits the demand's
/// payload ceiling; its edge facts name the document edges exactly where it reaches them; an
/// empty page lies at a document edge; an answer to an adjacent demand touches the demand's
/// anchor (a forward page starts at it, a backward page ends at it); and an answer to a
/// validation demand covers the candidate offset.
pub proof fn lemma_adjacent_page_touches_anchor(
    r: Result<RangePage, RangeContractError>,
    id: PageId,
    key: PageRequestKey,
    range: ByteRange,
    text: Seq<char>,
    atoms: Seq<AtomFactView>,
    preceding: PageEdgeFact,
    following: PageEdgeFact,
    end_of_source: bool,
)
    requires
        RangePage::built(r, id, key, range, text, atoms, preceding, following, end_of_source),
        r is Ok,
    ensures
        key.envelope() matches PageDemandEnvelope::Adjacent {
            anchor,
            direction: PageDirection::Forward,
            ..
        } ==> range.lo() == anchor.value(),
        key.envelope() matches PageDemandEnvelope::Adjacent {
            anchor,
            direction: PageDirection::Backward,
            ..
        } ==> range.hi() == anchor.value(),
        range.hi() - range.lo() <= key.envelope().ceiling(),
        key.envelope() matches PageDemandEnvelope::Validation { candidate, .. } ==> range.lo()
            <= candidate.value() && candidate.value() <= range.hi(),
        utf8_len(text) == range.hi() - range.lo(),
        (range.lo() == 0) == (preceding == PageEdgeFact::DocumentBoundary),
        end_of_source == (following == PageEdgeFact::DocumentBoundary),
        range.lo() == range.hi() ==> preceding == PageEdgeFact::DocumentBoundary || following
            == PageEdgeFact::DocumentBoundary,
{
}

/// A non-empty page without atoms that answers an adjacent demand is accepted when its text
/// fills its range, its edge facts match the document edges, it fits the payload ceiling, and
/// it starts at the anchor (forward) or ends at it (backward).
pub proof fn lemma_adjacent_page_accepted(
    r: Result<RangePage, RangeContractError>,
    id: PageId,
    key: PageRequestKey,
    range: ByteRange,
    text: Seq<char>,
    preceding: PageEdgeFact,
    following: PageEdgeFact,
    end_of_source: bool,
    anchor: ByteOffset,
    direction: PageDirection,
    max_payload_bytes: u64,
)
    requires
        RangePage::built(
            r,
            id,
            key,
            range,
            text,
            Seq::<AtomFactView>::empty(),
            preceding,
            following,
            end_of_source,
        ),
        key.envelope() == (PageDemandEnvelope::Adjacent { anchor, direction, max_payload_bytes }),
        direction == PageDirection::Forward ==> range.lo() == anchor.value(),
        direction == PageDirection::Backward ==> range.hi() == anchor.value(),
        range.lo() < range.hi(),
        range.hi() - range.lo() <= max_payload_bytes,
        utf8_len(text) == range.hi() - range.lo(),
        (range.lo() == 0) == (preceding == PageEdgeFact::DocumentBoundary),
        end_of_source == (following == PageEdgeFact::DocumentBoundary),
        vstd::layout::size_of::<RangePage>() + utf8_len(text) <= usize::MAX,
    ensures
        r is Ok,
{
}

} // verus!
