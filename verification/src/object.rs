use std::sync::Arc;

use vstd::prelude::*;

use crate::coordinates::ByteOffset;
use crate::page::{byte_len, utf8_len};
use crate::position::{InlineObjectId, InlineObjectOrder};

verus! {

/// Opaque generation of immutable inline-object presentation facts.
#[derive(Clone, Copy, Debug, PartialEq, Eq, Structural, Hash, PartialOrd, Ord)]
pub struct PresentationGeneration(pub(crate) u64);

impl PresentationGeneration {
    /// The wrapped number.
    pub open(crate) spec fn value(self) -> u64 {
        self.0
    }

    /// Wraps a host-assigned opaque value.
    pub fn new(value: u64) -> (r: Self)
        ensures
            r.value() == value,
    {
        PresentationGeneration(value)
    }

    /// Returns the opaque value.
    pub fn get(self) -> (r: u64)
        ensures
            r == self.value(),
    {
        self.0
    }
}

/// Unique identity of one bounded inline-object request.
#[derive(Clone, Copy, Debug, PartialEq, Eq, Structural, Hash, PartialOrd, Ord)]
pub struct ObjectRequestId(pub(crate) u64);

impl ObjectRequestId {
    /// The wrapped number.
    pub open(crate) spec fn value(self) -> u64 {
        self.0
    }

    /// Wraps a host-assigned opaque value.
    pub fn new(value: u64) -> (r: Self)
        ensures
            r.value() == value,
    {
        ObjectRequestId(value)
    }

    /// Returns the opaque value.
    pub fn get(self) -> (r: u64)
        ensures
            r == self.value(),
    {
        self.0
    }
}

/// Stable identity of one object-page payload.
#[derive(Clone, Copy, Debug, PartialEq, Eq, Structural, Hash, PartialOrd, Ord)]
pub struct ObjectPageId(pub(crate) u64);

impl ObjectPageId {
    /// The wrapped number.
    pub open(crate) spec fn value(self) -> u64 {
        self.0
    }

    /// Wraps a host-assigned opaque value.
    pub fn new(value: u64) -> (r: Self)
        ensures
            r.value() == value,
    {
        ObjectPageId(value)
    }

    /// Returns the opaque value.
    pub fn get(self) -> (r: u64)
        ensures
            r == self.value(),
    {
        self.0
    }
}

/// Rejection of a malformed inline-object source value or response.
#[derive(Clone, Debug, PartialEq, Eq, Structural)]
#[non_exhaustive]
pub enum ObjectContractError {
    ZeroObjectLimit,
    ZeroRetainedByteLimit,
    DemandOutsideExtent,
    ResponseOutsideEnvelope,
    CursorOutsideEnvelope,
    DuplicateObjectIdentity { object: InlineObjectId },
    ConflictingObjectIdentity { object: InlineObjectId },
    ConflictingPageIdentity { page: ObjectPageId },
    DuplicateObjectOrder { anchor: ByteOffset, order: InlineObjectOrder },
    ObjectsOutOfOrder,
    MalformedContinuation,
    NonProgressingObjectPage,
    ObjectCountLimitExceeded,
    RetainedByteLimitExceeded,
    InvalidPresentationMetrics,
    RetainedByteCountOverflow,
    ScalarBoundaryProofMismatch { anchor: ByteOffset },
}

/// The colour of an object's background, as the bit patterns of its hue, saturation,
/// lightness and alpha components.
#[derive(Clone, Copy, Debug, PartialEq, Eq, Structural, Hash)]
pub struct PresentationColor {
    pub h: u32,
    pub s: u32,
    pub l: u32,
    pub a: u32,
}

/// The layout metrics of an object presentation, each the bit pattern of a pixel extent: its
/// inline and block extents, its baseline, and its optional background.
#[derive(Clone, Copy, Debug, PartialEq, Eq, Structural, Hash)]
pub struct PresentationMetrics {
    pub width: u32,
    pub height: u32,
    pub baseline: u32,
    pub background: Option<PresentationColor>,
}

/// The mathematical content of an object presentation.
pub ghost struct PresentationView {
    pub presentation_key: u64,
    pub display: Seq<char>,
    pub metrics: PresentationMetrics,
    pub semantic_state: u64,
    pub activation_eligible: bool,
}

/// The single-precision value with bit pattern `b` is a NaN.
pub open spec fn f32_is_nan(b: u32) -> bool {
    (b & 0x7f80_0000u32) == 0x7f80_0000u32 && (b & 0x007f_ffffu32) != 0
}

/// The single-precision value with bit pattern `b` is finite.
pub open spec fn f32_is_finite(b: u32) -> bool {
    (b & 0x7f80_0000u32) != 0x7f80_0000u32
}

/// The single-precision value with bit pattern `b` is a zero of either sign.
pub open spec fn f32_is_zero(b: u32) -> bool {
    (b & 0x7fff_ffffu32) == 0
}

/// The sign bit of the bit pattern `b` is set.
pub open spec fn f32_is_negative(b: u32) -> bool {
    b >= 0x8000_0000u32
}

/// IEEE equality of two single-precision values given by their bit patterns: a NaN equals
/// nothing, and the two zeros are equal.
pub open spec fn f32_eq(a: u32, b: u32) -> bool {
    !f32_is_nan(a) && !f32_is_nan(b) && (a == b || (f32_is_zero(a) && f32_is_zero(b)))
}

/// IEEE `<` of two single-precision values given by their bit patterns.
pub open spec fn f32_lt(a: u32, b: u32) -> bool {
    &&& !f32_is_nan(a)
    &&& !f32_is_nan(b)
    &&& !(f32_is_zero(a) && f32_is_zero(b))
    &&& if f32_is_negative(a) {
        !f32_is_negative(b) || a > b
    } else {
        !f32_is_negative(b) && a < b
    }
}

/// IEEE `<=` of two single-precision values given by their bit patterns.
pub open spec fn f32_le(a: u32, b: u32) -> bool {
    f32_lt(a, b) || f32_eq(a, b)
}

/// The metrics a presentation accepts: finite extents, a positive width and height, and a
/// baseline neither below zero nor beyond the height.
pub open spec fn metrics_valid(m: PresentationMetrics) -> bool {
    &&& f32_is_finite(m.width)
    &&& f32_is_finite(m.height)
    &&& f32_is_finite(m.baseline)
    &&& !f32_le(m.width, 0)
    &&& !f32_le(m.height, 0)
    &&& !f32_lt(m.baseline, 0)
    &&& !f32_lt(m.height, m.baseline)
}

/// Two backgrounds are equal: both absent, or both present with IEEE-equal components.
pub open spec fn background_match(a: Option<PresentationColor>, b: Option<PresentationColor>) -> bool {
    match (a, b) {
        (None, None) => true,
        (Some(x), Some(y)) => f32_eq(x.h, y.h) && f32_eq(x.s, y.s) && f32_eq(x.l, y.l) && f32_eq(
            x.a,
            y.a,
        ),
        _ => false,
    }
}

/// Two presentations hold the same facts: equal keys, display text, semantic state and
/// activation, and IEEE-equal metrics.
pub open spec fn presentation_match(a: PresentationView, b: PresentationView) -> bool {
    &&& a.presentation_key == b.presentation_key
    &&& a.display == b.display
    &&& f32_eq(a.metrics.width, b.metrics.width)
    &&& f32_eq(a.metrics.height, b.metrics.height)
    &&& f32_eq(a.metrics.baseline, b.metrics.baseline)
    &&& background_match(a.metrics.background, b.metrics.background)
    &&& a.semantic_state == b.semantic_state
    &&& a.activation_eligible == b.activation_eligible
}

/// No value of the presentation is a NaN, so that it matches itself.
pub open spec fn presentation_comparable(p: PresentationView) -> bool {
    &&& !f32_is_nan(p.metrics.width)
    &&& !f32_is_nan(p.metrics.height)
    &&& !f32_is_nan(p.metrics.baseline)
    &&& match p.metrics.background {
        Some(c) => !f32_is_nan(c.h) && !f32_is_nan(c.s) && !f32_is_nan(c.l) && !f32_is_nan(c.a),
        None => true,
    }
}

/// Whether the bit pattern `b` is a NaN.
fn is_nan_bits(b: u32) -> (r: bool)
    ensures
        r == f32_is_nan(b),
{
    (b & 0x7f80_0000u32) == 0x7f80_0000u32 && (b & 0x007f_ffffu32) != 0
}

/// Whether the bit pattern `b` is finite.
fn is_finite_bits(b: u32) -> (r: bool)
    ensures
        r == f32_is_finite(b),
{
    (b & 0x7f80_0000u32) != 0x7f80_0000u32
}

/// Whether the bit pattern `b` is a zero.
fn is_zero_bits(b: u32) -> (r: bool)
    ensures
        r == f32_is_zero(b),
{
    (b & 0x7fff_ffffu32) == 0
}

/// IEEE equality of two bit patterns.
fn eq_bits(a: u32, b: u32) -> (r: bool)
    ensures
        r == f32_eq(a, b),
{
    !is_nan_bits(a) && !is_nan_bits(b) && (a == b || (is_zero_bits(a) && is_zero_bits(b)))
}

/// IEEE `<` of two bit patterns.
fn lt_bits(a: u32, b: u32) -> (r: bool)
    ensures
        r == f32_lt(a, b),
{
    if is_nan_bits(a) || is_nan_bits(b) || (is_zero_bits(a) && is_zero_bits(b)) {
        false
    } else if a >= 0x8000_0000u32 {
        b < 0x8000_0000u32 || a > b
    } else {
        b < 0x8000_0000u32 && a < b
    }
}

/// IEEE `<=` of two bit patterns.
fn le_bits(a: u32, b: u32) -> (r: bool)
    ensures
        r == f32_le(a, b),
{
    lt_bits(a, b) || eq_bits(a, b)
}

/// Whether presentation metrics are acceptable.
fn metrics_acceptable(m: &PresentationMetrics) -> (r: bool)
    ensures
        r == metrics_valid(*m),
{
    is_finite_bits(m.width) && is_finite_bits(m.height) && is_finite_bits(m.baseline) && !le_bits(
        m.width,
        0,
    ) && !le_bits(m.height, 0) && !lt_bits(m.baseline, 0) && !lt_bits(m.height, m.baseline)
}

/// Whether two backgrounds are equal.
fn backgrounds_match(a: &Option<PresentationColor>, b: &Option<PresentationColor>) -> (r: bool)
    ensures
        r == background_match(*a, *b),
{
    match (a, b) {
        (None, None) => true,
        (Some(x), Some(y)) => eq_bits(x.h, y.h) && eq_bits(x.s, y.s) && eq_bits(x.l, y.l)
            && eq_bits(x.a, y.a),
        _ => false,
    }
}

/// The display text of a presentation, shared, as std's `Arc::<str>::from(String)` builds
/// it: the same characters.
#[verifier::external_body]
fn shared_text(text: String) -> (r: Arc<str>)
    ensures
        (*r)@ == text@,
{
    Arc::from(text)
}

/// Immutable bounded display, layout, semantic and activation facts for one inline object.
///
/// The layout metrics are carried as the bit patterns of their single-precision pixel values;
/// every presentation holds metrics that `metrics_valid` accepts.
#[derive(Debug)]
pub struct InlineObjectPresentation {
    pub(crate) presentation_key: u64,
    pub(crate) display: Arc<str>,
    pub(crate) width: u32,
    pub(crate) height: u32,
    pub(crate) baseline: u32,
    pub(crate) background: Option<PresentationColor>,
    pub(crate) semantic_state: u64,
    pub(crate) activation_eligible: bool,
}

impl Clone for InlineObjectPresentation {
    /// A copy with an equal view and a display allocation of its own.
    fn clone(&self) -> (r: Self)
        ensures
            r@ == self@,
    {
        self.duplicate()
    }
}

impl PartialEq for InlineObjectPresentation {
    fn eq(&self, other: &Self) -> (r: bool) {
        self.same_facts(other)
    }
}

impl vstd::std_specs::cmp::PartialEqSpecImpl for InlineObjectPresentation {
    open spec fn obeys_eq_spec() -> bool {
        true
    }

    open spec fn eq_spec(&self, other: &Self) -> bool {
        presentation_match(self@, other@)
    }
}

impl View for InlineObjectPresentation {
    type V = PresentationView;

    open spec fn view(&self) -> PresentationView {
        PresentationView {
            presentation_key: self.key_value(),
            display: self.display_text(),
            metrics: self.layout(),
            semantic_state: self.semantic_value(),
            activation_eligible: self.activatable(),
        }
    }
}

impl InlineObjectPresentation {
    /// The presentation key.
    pub open(crate) spec fn key_value(&self) -> u64 {
        self.presentation_key
    }

    /// The display text.
    pub open(crate) spec fn display_text(&self) -> Seq<char> {
        (*self.display)@
    }

    /// The layout metrics.
    pub open(crate) spec fn layout(&self) -> PresentationMetrics {
        PresentationMetrics {
            width: self.width,
            height: self.height,
            baseline: self.baseline,
            background: self.background,
        }
    }

    #[verifier::type_invariant]
    pub(crate) open spec fn well_formed(&self) -> bool {
        metrics_valid(self.layout())
    }

    /// The semantic state.
    pub open(crate) spec fn semantic_value(&self) -> u64 {
        self.semantic_state
    }

    /// Whether activation is allowed.
    pub open(crate) spec fn activatable(&self) -> bool {
        self.activation_eligible
    }

    /// Creates one app-neutral presentation, rejecting non-finite or invalid metrics.
    pub fn new(
        presentation_key: u64,
        display: String,
        metrics: PresentationMetrics,
        semantic_state: u64,
        activation_eligible: bool,
    ) -> (r: Result<Self, ObjectContractError>)
        ensures
            match r {
                Ok(p) => metrics_valid(metrics) && p@ == (PresentationView {
                    presentation_key,
                    display: display@,
                    metrics,
                    semantic_state,
                    activation_eligible,
                }),
                Err(e) => !metrics_valid(metrics) && e
                    == ObjectContractError::InvalidPresentationMetrics,
            },
    {
        if !metrics_acceptable(&metrics) {
            return Err(ObjectContractError::InvalidPresentationMetrics);
        }
        Ok(
            InlineObjectPresentation {
                presentation_key,
                display: shared_text(display),
                width: metrics.width,
                height: metrics.height,
                baseline: metrics.baseline,
                background: metrics.background,
                semantic_state,
                activation_eligible,
            },
        )
    }

    /// Returns the host-owned identity of geometry/paint-affecting presentation input.
    pub fn presentation_key(&self) -> (r: u64)
        ensures
            r == self@.presentation_key,
    {
        self.presentation_key
    }

    /// Returns bounded display content. It is never authoritative source text.
    pub fn display(&self) -> (r: &str)
        ensures
            r@ == self@.display,
    {
        &self.display
    }

    /// Returns the layout metrics, which `metrics_valid` accepts.
    pub fn metrics(&self) -> (r: PresentationMetrics)
        ensures
            r == self@.metrics,
            metrics_valid(r),
    {
        proof {
            use_type_invariant(self);
        }
        PresentationMetrics {
            width: self.width,
            height: self.height,
            baseline: self.baseline,
            background: self.background,
        }
    }

    /// Returns opaque app-neutral semantic state.
    pub fn semantic_state(&self) -> (r: u64)
        ensures
            r == self@.semantic_state,
    {
        self.semantic_state
    }

    /// Reports whether ordinary pointer or keyboard activation is allowed.
    pub fn activation_eligible(&self) -> (r: bool)
        ensures
            r == self@.activation_eligible,
    {
        self.activation_eligible
    }

    /// Display bytes retained by this presentation.
    pub fn payload_allocation_bytes(&self) -> (r: usize)
        ensures
            r == utf8_len(self@.display),
    {
        byte_len(&self.display)
    }

    /// A copy with an equal view and a display allocation of its own.
    pub fn duplicate(&self) -> (r: Self)
        ensures
            r@ == self@,
    {
        proof {
            use_type_invariant(self);
        }
        InlineObjectPresentation {
            presentation_key: self.presentation_key,
            display: shared_text((*self.display).to_owned()),
            width: self.width,
            height: self.height,
            baseline: self.baseline,
            background: self.background,
            semantic_state: self.semantic_state,
            activation_eligible: self.activation_eligible,
        }
    }

    /// Reports whether two presentations hold the same facts, comparing metrics as
    /// floating-point values: a NaN component matches nothing and the two zeros match.
    pub fn same_facts(&self, other: &Self) -> (r: bool)
        ensures
            r == presentation_match(self@, other@),
    {
        let own = (*self.display).to_owned();
        let theirs = (*other.display).to_owned();
        self.presentation_key == other.presentation_key && own == theirs && eq_bits(
            self.width,
            other.width,
        ) && eq_bits(self.height, other.height) && eq_bits(self.baseline, other.baseline)
            && backgrounds_match(&self.background, &other.background) && self.semantic_state
            == other.semantic_state && self.activation_eligible == other.activation_eligible
    }
}

/// Presentation matching is symmetric, and every presentation without a NaN value matches
/// itself.
pub proof fn lemma_presentation_match(a: PresentationView, b: PresentationView)
    ensures
        presentation_comparable(a) ==> presentation_match(a, a),
        presentation_match(a, b) == presentation_match(b, a),
{
}

} // verus!
