//! Requests into the state machine.
//!
//! Participants send signed messages; each message becomes a typed request
//! with a one-shot reply. The state machine answers every request exactly
//! once, with success or with the reason it was rejected.

use vstd::prelude::*;
use crate::crypto::{SumParticipantPublicKey, SumParticipantEphemeralPublicKey,
    UpdateParticipantPublicKey, ParticipantPublicKey};
use crate::dict::ByteDict;
use crate::masks::MaskObject;

verus! {

/// A local seed dictionary: one update participant's encrypted seed for each
/// sum participant.
pub type LocalSeedDict = ByteDict;

/// The request channel is gone because the state machine shut down.
#[derive(Clone, Copy, PartialEq, Eq, Structural, Debug)]
pub struct StateMachineShutdown;

/// Why one message was rejected; the round is unaffected.
#[derive(Clone, Copy, PartialEq, Eq, Structural, Debug)]
pub enum RejectReason {
    /// The participant is not selected for the task in this round.
    Ineligible,
    /// A sum participant registered twice.
    DuplicatePk,
    /// A sum2 message from a key that is not in the sum dictionary.
    MissingSumEntry,
    /// A local seed dictionary whose keys are not exactly the sum dictionary's.
    SeedDictKeyMismatch,
    /// A mask under a configuration other than the round's.
    MaskConfigMismatch,
    /// A masked model whose vector length is not the round's model length.
    ModelLengthMismatch,
    /// A task signature that does not verify.
    SignatureInvalid,
    /// A valid message beyond the phase's participant cap.
    Discarded,
    /// A message of a kind the current phase does not accept.
    WrongPhase,
}

/// The reply to one request.
#[derive(Clone, Copy, PartialEq, Eq, Structural, Debug)]
pub enum StateMachineError {
    /// The message was rejected; the reason names the failed validation.
    MessageRejected(RejectReason),
    /// The request arrived while the machine was shutting down.
    RequestChannelClosed,
    /// A failure outside the protocol: the boundary's reply when it cannot
    /// carry a request to the machine. The verified handlers never produce
    /// it — an acceptable message is owed `Ok`.
    InternalError,
}

/// What the one-shot reply channel carries back to the participant.
pub type StateMachineResult = Result<(), StateMachineError>;

/// The signed header of a participant message.
#[derive(Debug)]
pub struct HeaderOwned {
    pub participant_pk: ParticipantPublicKey,
    pub coordinator_pk: Vec<u8>,
    pub signature: Vec<u8>,
}

/// A sum payload: the task signature and the fresh ephemeral key.
#[derive(Debug)]
pub struct SumOwned {
    pub sum_signature: Vec<u8>,
    pub ephm_pk: SumParticipantEphemeralPublicKey,
}

/// An update payload: both task signatures, the seeds and the masked model.
#[derive(Debug)]
pub struct UpdateOwned {
    pub sum_signature: Vec<u8>,
    pub update_signature: Vec<u8>,
    pub local_seed_dict: LocalSeedDict,
    pub masked_model: MaskObject,
    pub masked_scalar: MaskObject,
}

/// A sum2 payload: the task signature and the reconstructed masks.
#[derive(Debug)]
pub struct Sum2Owned {
    pub sum_signature: Vec<u8>,
    pub model_mask: MaskObject,
    pub scalar_mask: MaskObject,
}

/// The payload of a participant message.
#[derive(Debug)]
pub enum PayloadOwned {
    Sum(SumOwned),
    Update(UpdateOwned),
    Sum2(Sum2Owned),
}

/// A parsed participant message.
#[derive(Debug)]
pub struct MessageOwned {
    pub header: HeaderOwned,
    pub payload: PayloadOwned,
}

/// A sum request.
#[derive(Debug)]
pub struct SumRequest {
    /// The public key of the participant.
    pub participant_pk: SumParticipantPublicKey,
    /// The ephemeral public key of the participant.
    pub ephm_pk: SumParticipantEphemeralPublicKey,
}

/// An update request.
#[derive(Debug)]
pub struct UpdateRequest {
    /// The public key of the participant.
    pub participant_pk: UpdateParticipantPublicKey,
    /// The local seed dict that contains the seed used to mask `masked_model`.
    pub local_seed_dict: LocalSeedDict,
    /// The masked model trained by the participant.
    pub masked_model: MaskObject,
    /// The masked scalar used to scale model weights.
    pub masked_scalar: MaskObject,
}

/// A sum2 request.
#[derive(Debug)]
pub struct Sum2Request {
    /// The public key of the participant.
    pub participant_pk: ParticipantPublicKey,
    /// The model mask computed by the participant.
    pub model_mask: MaskObject,
    /// The scalar mask computed by the participant.
    pub scalar_mask: MaskObject,
}

/// A state machine request.
#[derive(Debug)]
pub enum StateMachineRequest {
    Sum(SumRequest),
    Update(UpdateRequest),
    Sum2(Sum2Request),
}

/// The request a message stands for: the header's key joined with the
/// payload's data; the task signatures were used during validation and are
/// not carried further.
pub open spec fn request_of(message: MessageOwned) -> StateMachineRequest {
    match message.payload {
        PayloadOwned::Sum(sum) => StateMachineRequest::Sum(
            SumRequest { participant_pk: message.header.participant_pk, ephm_pk: sum.ephm_pk },
        ),
        PayloadOwned::Update(update) => StateMachineRequest::Update(
            UpdateRequest {
                participant_pk: message.header.participant_pk,
                local_seed_dict: update.local_seed_dict,
                masked_model: update.masked_model,
                masked_scalar: update.masked_scalar,
            },
        ),
        PayloadOwned::Sum2(sum2) => StateMachineRequest::Sum2(
            Sum2Request {
                participant_pk: message.header.participant_pk,
                model_mask: sum2.model_mask,
                scalar_mask: sum2.scalar_mask,
            },
        ),
    }
}

impl From<MessageOwned> for StateMachineRequest {
    fn from(message: MessageOwned) -> (r: StateMachineRequest) {
        let MessageOwned { header, payload } = message;
        match payload {
            PayloadOwned::Sum(sum) => StateMachineRequest::Sum(
                SumRequest { participant_pk: header.participant_pk, ephm_pk: sum.ephm_pk },
            ),
            PayloadOwned::Update(update) => {
                let UpdateOwned { local_seed_dict, masked_model, masked_scalar, .. } = update;
                StateMachineRequest::Update(
                    UpdateRequest {
                        participant_pk: header.participant_pk,
                        local_seed_dict,
                        masked_model,
                        masked_scalar,
                    },
                )
            },
            PayloadOwned::Sum2(sum2) => StateMachineRequest::Sum2(
                Sum2Request {
                    participant_pk: header.participant_pk,
                    model_mask: sum2.model_mask,
                    scalar_mask: sum2.scalar_mask,
                },
            ),
        }
    }
}

impl vstd::std_specs::convert::FromSpecImpl<MessageOwned> for StateMachineRequest {
    open spec fn obeys_from_spec() -> bool {
        true
    }

    open spec fn from_spec(message: MessageOwned) -> StateMachineRequest {
        request_of(message)
    }
}

} // verus!
