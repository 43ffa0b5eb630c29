use vstd::prelude::*;

use crate::charge::RangeSurfaceCharge;
use crate::object_request::ObjectRequestKey;
use crate::prepublication::{
    RangePrepublicationFailure, RangePrepublicationSessionGeneration,
    RangePrepublicationValidationKey,
};
use crate::request::PageRequestKey;

verus! {

/// Handle naming one ledger record: its slot and the identity the record had when issued.
#[derive(Clone, Copy, Debug, PartialEq, Eq, Structural)]
pub struct RangePrepublicationCleanupToken {
    pub(crate) slot: u32,
    pub(crate) id: u64,
}

impl RangePrepublicationCleanupToken {
    /// The record slot.
    pub open(crate) spec fn slot_index(self) -> u32 {
        self.slot
    }

    /// The record identity.
    pub open(crate) spec fn identity(self) -> u64 {
        self.id
    }

    /// Returns the record identity.
    pub fn id(self) -> (r: u64)
        ensures
            r == self.identity(),
    {
        self.id
    }
}

/// One cleanup the host must perform for a released prepublication request.
#[derive(Clone, Copy, Debug, PartialEq, Eq, Structural)]
pub enum RangePrepublicationCleanupEffect {
    CancelValidation {
        token: RangePrepublicationCleanupToken,
        key: RangePrepublicationValidationKey,
    },
    ReleaseValidation {
        token: RangePrepublicationCleanupToken,
        key: RangePrepublicationValidationKey,
    },
    CancelPage {
        token: RangePrepublicationCleanupToken,
        generation: RangePrepublicationSessionGeneration,
        key: PageRequestKey,
    },
    ReleasePage {
        token: RangePrepublicationCleanupToken,
        generation: RangePrepublicationSessionGeneration,
        key: PageRequestKey,
    },
    CancelObjectPage {
        token: RangePrepublicationCleanupToken,
        generation: RangePrepublicationSessionGeneration,
        key: ObjectRequestKey,
    },
    ReleaseObjectPage {
        token: RangePrepublicationCleanupToken,
        generation: RangePrepublicationSessionGeneration,
        key: ObjectRequestKey,
    },
    ReleaseCandidate {
        token: RangePrepublicationCleanupToken,
        generation: RangePrepublicationSessionGeneration,
        environment_id: u64,
    },
}

/// The token an effect carries.
pub open spec fn token_of(effect: RangePrepublicationCleanupEffect) -> RangePrepublicationCleanupToken {
    match effect {
        RangePrepublicationCleanupEffect::CancelValidation { token, .. } => token,
        RangePrepublicationCleanupEffect::ReleaseValidation { token, .. } => token,
        RangePrepublicationCleanupEffect::CancelPage { token, .. } => token,
        RangePrepublicationCleanupEffect::ReleasePage { token, .. } => token,
        RangePrepublicationCleanupEffect::CancelObjectPage { token, .. } => token,
        RangePrepublicationCleanupEffect::ReleaseObjectPage { token, .. } => token,
        RangePrepublicationCleanupEffect::ReleaseCandidate { token, .. } => token,
    }
}

impl RangePrepublicationCleanupEffect {
    /// Returns the token of the record this effect cleans up.
    pub fn token(self) -> (r: RangePrepublicationCleanupToken)
        ensures
            r == token_of(self),
    {
        match self {
            RangePrepublicationCleanupEffect::CancelValidation { token, .. } => token,
            RangePrepublicationCleanupEffect::ReleaseValidation { token, .. } => token,
            RangePrepublicationCleanupEffect::CancelPage { token, .. } => token,
            RangePrepublicationCleanupEffect::ReleasePage { token, .. } => token,
            RangePrepublicationCleanupEffect::CancelObjectPage { token, .. } => token,
            RangePrepublicationCleanupEffect::ReleaseObjectPage { token, .. } => token,
            RangePrepublicationCleanupEffect::ReleaseCandidate { token, .. } => token,
        }
    }
}

/// Answer to an acknowledgement of a served effect.
#[derive(Clone, Copy, Debug, PartialEq, Eq, Structural)]
pub enum RangePrepublicationCleanupAcknowledgement {
    Accepted,
    Obsolete,
}

/// Effects handed out by one service pass and the ready records left behind.
#[derive(Debug)]
pub struct RangePrepublicationCleanupStep {
    pub effects: Vec<RangePrepublicationCleanupEffect>,
    pub ready_remaining: usize,
}

/// Counts of ledger records by state and the ledger's retained charge.
#[derive(Clone, Copy, Debug, Default, PartialEq, Eq, Structural)]
pub struct RangePrepublicationCleanupOwnership {
    pub slots: usize,
    pub active: usize,
    pub ready: usize,
    pub awaiting_acknowledgement: usize,
    pub retained_charge: RangeSurfaceCharge,
}

/// Why a record could not be reserved.
#[derive(Clone, Copy, Debug, PartialEq, Eq, Structural)]
pub enum CleanupRegistrationError {
    Full,
    Arithmetic,
}

/// The request a record stands for.
#[derive(Clone, Copy, Debug, PartialEq, Eq, Structural)]
pub enum CleanupRequest {
    Reserved,
    Validation(RangePrepublicationValidationKey),
    Page { generation: RangePrepublicationSessionGeneration, key: PageRequestKey },
    ObjectPage { generation: RangePrepublicationSessionGeneration, key: ObjectRequestKey },
    Candidate { generation: RangePrepublicationSessionGeneration, environment_id: u64 },
}

/// Who owns a record.
#[derive(Clone, Copy, Debug, PartialEq, Eq, Structural)]
pub enum CleanupOwner {
    Session(RangePrepublicationSessionGeneration),
    Candidate(RangePrepublicationSessionGeneration),
    Widget(RangePrepublicationSessionGeneration),
}

/// Life cycle of a record: free, active, ready for cleanup, or handed out for cleanup.
#[derive(Clone, Copy, Debug, PartialEq, Eq, Structural)]
pub enum CleanupState {
    Free,
    Active { request: CleanupRequest, delivered: bool },
    Ready(RangePrepublicationCleanupEffect),
    Draining {
        effect: RangePrepublicationCleanupEffect,
        followup: Option<RangePrepublicationCleanupEffect>,
    },
}

/// One ledger record.
#[derive(Clone, Copy, Debug, PartialEq, Eq, Structural)]
pub struct CleanupSlot {
    pub id: u64,
    pub owner: Option<CleanupOwner>,
    pub state: CleanupState,
}

/// The request an effect cleans up.
pub open spec fn request_of(effect: RangePrepublicationCleanupEffect) -> CleanupRequest {
    match effect {
        RangePrepublicationCleanupEffect::CancelValidation { key, .. } => CleanupRequest::Validation(
            key,
        ),
        RangePrepublicationCleanupEffect::ReleaseValidation { key, .. } => CleanupRequest::Validation(
            key,
        ),
        RangePrepublicationCleanupEffect::CancelPage { generation, key, .. } => CleanupRequest::Page {
            generation,
            key,
        },
        RangePrepublicationCleanupEffect::ReleasePage { generation, key, .. } => CleanupRequest::Page {
            generation,
            key,
        },
        RangePrepublicationCleanupEffect::CancelObjectPage {
            generation,
            key,
            ..
        } => CleanupRequest::ObjectPage { generation, key },
        RangePrepublicationCleanupEffect::ReleaseObjectPage {
            generation,
            key,
            ..
        } => CleanupRequest::ObjectPage { generation, key },
        RangePrepublicationCleanupEffect::ReleaseCandidate {
            generation,
            environment_id,
            ..
        } => CleanupRequest::Candidate { generation, environment_id },
    }
}

/// The release that follows an effect once its request was delivered.
pub open spec fn release_of(effect: RangePrepublicationCleanupEffect) -> RangePrepublicationCleanupEffect {
    match effect {
        RangePrepublicationCleanupEffect::CancelValidation { token, key } => RangePrepublicationCleanupEffect::ReleaseValidation {
            token,
            key,
        },
        RangePrepublicationCleanupEffect::CancelPage {
            token,
            generation,
            key,
        } => RangePrepublicationCleanupEffect::ReleasePage { token, generation, key },
        RangePrepublicationCleanupEffect::CancelObjectPage {
            token,
            generation,
            key,
        } => RangePrepublicationCleanupEffect::ReleaseObjectPage { token, generation, key },
        other => other,
    }
}

/// Whether an effect cancels an undelivered request.
pub open spec fn cancels(effect: RangePrepublicationCleanupEffect) -> bool {
    match effect {
        RangePrepublicationCleanupEffect::CancelValidation { .. } => true,
        RangePrepublicationCleanupEffect::CancelPage { .. } => true,
        RangePrepublicationCleanupEffect::CancelObjectPage { .. } => true,
        _ => false,
    }
}

/// The effect that cleans up a request: a cancel while undelivered, a release once
/// delivered; a candidate is always released.
pub open(crate) spec fn effect_of(
    token: RangePrepublicationCleanupToken,
    request: CleanupRequest,
    delivered: bool,
) -> RangePrepublicationCleanupEffect
    recommends
        request != CleanupRequest::Reserved,
{
    match request {
        CleanupRequest::Validation(key) => if delivered {
            RangePrepublicationCleanupEffect::ReleaseValidation { token, key }
        } else {
            RangePrepublicationCleanupEffect::CancelValidation { token, key }
        },
        CleanupRequest::Page { generation, key } => if delivered {
            RangePrepublicationCleanupEffect::ReleasePage { token, generation, key }
        } else {
            RangePrepublicationCleanupEffect::CancelPage { token, generation, key }
        },
        CleanupRequest::ObjectPage { generation, key } => if delivered {
            RangePrepublicationCleanupEffect::ReleaseObjectPage { token, generation, key }
        } else {
            RangePrepublicationCleanupEffect::CancelObjectPage { token, generation, key }
        },
        CleanupRequest::Candidate { generation, environment_id } => RangePrepublicationCleanupEffect::ReleaseCandidate {
            token,
            generation,
            environment_id,
        },
        CleanupRequest::Reserved => RangePrepublicationCleanupEffect::ReleaseCandidate {
            token,
            generation: RangePrepublicationSessionGeneration(0),
            environment_id: 0,
        },
    }
}

/// Returns the request an effect cleans up.
pub fn effect_request(effect: RangePrepublicationCleanupEffect) -> (r: CleanupRequest)
    ensures
        r == request_of(effect),
{
    match effect {
        RangePrepublicationCleanupEffect::CancelValidation { key, .. } => CleanupRequest::Validation(
            key,
        ),
        RangePrepublicationCleanupEffect::ReleaseValidation { key, .. } => CleanupRequest::Validation(
            key,
        ),
        RangePrepublicationCleanupEffect::CancelPage { generation, key, .. } => CleanupRequest::Page {
            generation,
            key,
        },
        RangePrepublicationCleanupEffect::ReleasePage { generation, key, .. } => CleanupRequest::Page {
            generation,
            key,
        },
        RangePrepublicationCleanupEffect::CancelObjectPage {
            generation,
            key,
            ..
        } => CleanupRequest::ObjectPage { generation, key },
        RangePrepublicationCleanupEffect::ReleaseObjectPage {
            generation,
            key,
            ..
        } => CleanupRequest::ObjectPage { generation, key },
        RangePrepublicationCleanupEffect::ReleaseCandidate {
            generation,
            environment_id,
            ..
        } => CleanupRequest::Candidate { generation, environment_id },
    }
}

/// Returns the release that follows an effect once its request was delivered.
pub fn release_for(effect: RangePrepublicationCleanupEffect) -> (r:
    RangePrepublicationCleanupEffect)
    ensures
        r == release_of(effect),
{
    match effect {
        RangePrepublicationCleanupEffect::CancelValidation { token, key } => RangePrepublicationCleanupEffect::ReleaseValidation {
            token,
            key,
        },
        RangePrepublicationCleanupEffect::CancelPage {
            token,
            generation,
            key,
        } => RangePrepublicationCleanupEffect::ReleasePage { token, generation, key },
        RangePrepublicationCleanupEffect::CancelObjectPage {
            token,
            generation,
            key,
        } => RangePrepublicationCleanupEffect::ReleaseObjectPage { token, generation, key },
        other => other,
    }
}

/// Reports whether an effect cancels an undelivered request.
pub fn is_cancel_effect(effect: RangePrepublicationCleanupEffect) -> (r: bool)
    ensures
        r == cancels(effect),
{
    match effect {
        RangePrepublicationCleanupEffect::CancelValidation { .. } => true,
        RangePrepublicationCleanupEffect::CancelPage { .. } => true,
        RangePrepublicationCleanupEffect::CancelObjectPage { .. } => true,
        _ => false,
    }
}

/// Returns the effect that cleans up a request.
pub fn effect_for(
    token: RangePrepublicationCleanupToken,
    request: CleanupRequest,
    delivered: bool,
) -> (r: RangePrepublicationCleanupEffect)
    requires
        request != CleanupRequest::Reserved,
    ensures
        r == effect_of(token, request, delivered),
{
    match request {
        CleanupRequest::Validation(key) => if delivered {
            RangePrepublicationCleanupEffect::ReleaseValidation { token, key }
        } else {
            RangePrepublicationCleanupEffect::CancelValidation { token, key }
        },
        CleanupRequest::Page { generation, key } => if delivered {
            RangePrepublicationCleanupEffect::ReleasePage { token, generation, key }
        } else {
            RangePrepublicationCleanupEffect::CancelPage { token, generation, key }
        },
        CleanupRequest::ObjectPage { generation, key } => if delivered {
            RangePrepublicationCleanupEffect::ReleaseObjectPage { token, generation, key }
        } else {
            RangePrepublicationCleanupEffect::CancelObjectPage { token, generation, key }
        },
        CleanupRequest::Candidate { generation, environment_id } => RangePrepublicationCleanupEffect::ReleaseCandidate {
            token,
            generation,
            environment_id,
        },
        CleanupRequest::Reserved => RangePrepublicationCleanupEffect::ReleaseCandidate {
            token,
            generation: RangePrepublicationSessionGeneration(0),
            environment_id: 0,
        },
    }
}

/// A release cleans up the same record and request as the effect it follows, and is
/// never itself a cancel.
pub proof fn lemma_release_keeps_request(effect: RangePrepublicationCleanupEffect)
    ensures
        token_of(release_of(effect)) == token_of(effect),
        request_of(release_of(effect)) == request_of(effect),
        !cancels(release_of(effect)),
        release_of(release_of(effect)) == release_of(effect),
{
}

/// The effect for a request names the record's token and that request.
pub proof fn lemma_effect_names_request(
    token: RangePrepublicationCleanupToken,
    request: CleanupRequest,
    delivered: bool,
)
    requires
        request != CleanupRequest::Reserved,
    ensures
        token_of(effect_of(token, request, delivered)) == token,
        request_of(effect_of(token, request, delivered)) == request,
        cancels(effect_of(token, request, delivered)) <==> !delivered && !(
        request is Candidate),
{
}

} // verus!
