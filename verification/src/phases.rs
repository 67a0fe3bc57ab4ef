//! The round state machine.
//!
//! One round walks through five phases: Idle computes fresh round
//! parameters; Sum collects ephemeral keys from eligible sum participants;
//! Update collects masked models and encrypted seeds from eligible update
//! participants; Sum2 collects the reconstructed masks; Unmask selects the
//! plurality mask and reveals the sum of the plaintext models. A failed phase
//! moves to the error state, which invalidates every published output and
//! restarts at Idle; a closed request channel moves to the terminal shutdown
//! state.
//!
//! Every phase operation here is a plain decision function: the driver at the
//! boundary owns the clock, the channels and the task scheduling, calls in
//! with each request or timer tick, and forwards the one reply each request
//! is owed. Mutations happen only after all validation of a message
//! succeeds, so an interrupted driver never leaves a dictionary half-updated.
//!
//! The given masked scalars are validated for shape alongside the masked
//! models, but only the model aggregation is carried to unmasking.

use vstd::prelude::*;
use crate::crypto::{SigningKeyPair, Ratio, generate_signing_key_pair, generate_round_seed,
    verify_task_signature, check_eligibility, sum_task_tag_vec, update_task_tag_vec,
    task_sig_valid, task_eligible, sum_task_tag, update_task_tag};
use crate::dict::{ByteDict, SeedDict, seed_dict_consistent, lemma_seed_dict_merge_consistent};
use crate::events::{EventPublisher, RoundParams, Scalar, GlobalModel};
use crate::aggregation::Aggregation;
use crate::masks::{MaskObject, object_eq};
use crate::requests::{MessageOwned, PayloadOwned, StateMachineError, StateMachineResult,
    RejectReason};
use crate::config::MaskConfig;

verus! {

/// The name of a phase.
#[derive(Clone, Copy, PartialEq, Eq, Structural, Debug)]
pub enum PhaseName {
    Idle,
    Sum,
    Update,
    Sum2,
    Unmask,
    Error,
    Shutdown,
}

/// Why a whole round failed. The error phase invalidates the round's outputs
/// and the machine restarts at Idle.
#[derive(Clone, Copy, PartialEq, Eq, Structural, Debug)]
pub enum RoundFailed {
    /// No mask was submitted in Sum2.
    NoMask,
    /// Two distinct masks tie for the top submission count.
    AmbiguousMasks,
    /// A phase ran out of time before its minimum participant count.
    InsufficientParticipants,
    /// The selected mask cannot unmask the aggregate.
    AggregationInvariant,
}

/// The protocol settings: participant counts, phase durations, task ratios
/// and the round's masking configuration.
#[derive(Clone, Copy, PartialEq, Eq, Structural, Debug)]
pub struct PetSettings {
    pub min_sum: u64,
    pub max_sum: u64,
    pub min_update: u64,
    pub max_update: u64,
    pub min_sum2: u64,
    pub max_sum2: u64,
    pub min_sum_time: u64,
    pub max_sum_time: u64,
    pub min_update_time: u64,
    pub max_update_time: u64,
    pub min_sum2_time: u64,
    pub max_sum2_time: u64,
    pub sum_ratio: Ratio,
    pub update_ratio: Ratio,
    pub mask_config: MaskConfig,
    pub model_length: u64,
    pub scalar_bits: u64,
}

impl PetSettings {
    pub open spec fn wf(&self) -> bool {
        &&& 1 <= self.min_sum <= self.max_sum < u64::MAX
        &&& 1 <= self.min_update <= self.max_update < u64::MAX
        &&& 1 <= self.min_sum2 <= self.max_sum2 < u64::MAX
        &&& self.min_sum_time <= self.max_sum_time
        &&& self.min_update_time <= self.max_update_time
        &&& self.min_sum2_time <= self.max_sum2_time
        &&& self.sum_ratio.wf()
        &&& self.update_ratio.wf()
        &&& self.model_length < 0x100000000
    }
}

/// What a phase should do at a clock tick.
#[derive(Clone, Copy, PartialEq, Eq, Structural, Debug)]
pub enum PhaseDecision {
    /// Keep collecting.
    Pending,
    /// Enough participants and enough time: move on.
    Proceed,
    /// Out of time below the minimum: fail the round.
    Fail,
}

/// The progress rule every collecting phase follows: proceed once the
/// minimum count is reached and the minimum duration has elapsed, or once the
/// maximum duration has elapsed with the minimum count reached; fail once the
/// maximum duration has elapsed below the minimum count.
pub open spec fn progress_spec(
    count: nat,
    min_count: nat,
    elapsed: nat,
    min_time: nat,
    max_time: nat,
) -> PhaseDecision {
    if count >= min_count && elapsed >= min_time {
        PhaseDecision::Proceed
    } else if elapsed >= max_time {
        PhaseDecision::Fail
    } else {
        PhaseDecision::Pending
    }
}

/// Decides progress from concrete counts and times.
pub fn decide_progress(count: u64, min_count: u64, elapsed: u64, min_time: u64, max_time: u64) -> (r:
    PhaseDecision)
    ensures
        r == progress_spec(
            count as nat,
            min_count as nat,
            elapsed as nat,
            min_time as nat,
            max_time as nat,
        ),
{
    if count >= min_count && elapsed >= min_time {
        PhaseDecision::Proceed
    } else if elapsed >= max_time {
        PhaseDecision::Fail
    } else {
        PhaseDecision::Pending
    }
}

/// The state every phase shares: the round's identity, keys, parameters,
/// settings and the event bus.
#[derive(Debug)]
pub struct Shared {
    pub round_id: u64,
    pub keys: SigningKeyPair,
    pub round_params: RoundParams,
    pub settings: PetSettings,
    pub events: EventPublisher,
}

impl Shared {
    pub open spec fn wf(&self) -> bool {
        &&& self.keys.wf()
        &&& self.round_params.wf()
        &&& self.settings.wf()
        &&& self.round_params.sum_ratio == self.settings.sum_ratio
        &&& self.round_params.update_ratio == self.settings.update_ratio
        &&& self.round_params.mask_config == self.settings.mask_config
        &&& self.round_params.model_length == self.settings.model_length
    }

    /// Fresh shared state from the settings; the idle phase recomputes the
    /// round parameters before any are published.
    pub fn new(settings: PetSettings) -> (r: Shared)
        requires
            settings.wf(),
        ensures
            r.wf(),
            r.settings == settings,
            r.round_id == 0,
    {
        let keys = generate_signing_key_pair();
        let round_params = RoundParams {
            coordinator_pk: crate::bytes::copy_bytes(&keys.public),
            round_seed: generate_round_seed(),
            sum_ratio: settings.sum_ratio,
            update_ratio: settings.update_ratio,
            mask_config: settings.mask_config,
            model_length: settings.model_length as usize,
        };
        Shared { round_id: 0, keys, round_params, settings, events: EventPublisher::init() }
    }
}

/// One phase of the machine: its own data and the shared state.
#[derive(Debug)]
pub struct PhaseState<P> {
    pub inner: P,
    pub shared: Shared,
}

/// The idle phase: computes and publishes the next round's parameters.
#[derive(Debug)]
pub struct Idle {}

/// The sum phase: collects the ephemeral keys of eligible sum participants.
#[derive(Debug)]
pub struct Sum {
    /// The sum dictionary under construction.
    pub sum_dict: ByteDict,
    /// When the phase started, on the driver's clock.
    pub started_at: u64,
}

impl PhaseState<Idle> {
    pub open spec fn wf(&self) -> bool {
        self.shared.wf()
    }

    pub fn new(shared: Shared) -> (r: PhaseState<Idle>)
        ensures
            r.shared == shared,
    {
        PhaseState { inner: Idle {}, shared }
    }

    /// Runs the idle phase: fresh keys and seed, new round parameters; the
    /// dictionaries and the scalar and mask-length topics of the previous
    /// round are invalidated, the new parameters, mask length and scalar are
    /// published, and the published global model persists until the next
    /// round replaces it.
    pub fn run(&mut self)
        requires
            old(self).wf(),
            old(self).shared.round_id < u64::MAX,
        ensures
            final(self).wf(),
            final(self).shared.round_id == old(self).shared.round_id + 1,
            final(self).shared.settings == old(self).shared.settings,
            final(self).shared.events.round_id == old(self).shared.round_id + 1,
            match final(self).shared.events.params.event {
                crate::events::RoundParamsUpdate::New(p) => p.same(&final(self).shared.round_params),
                _ => false,
            },
            match final(self).shared.events.mask_length.event {
                crate::events::MaskLengthUpdate::New(n) => n == old(self).shared.settings.model_length,
                _ => false,
            },
            match final(self).shared.events.scalar.event {
                crate::events::ScalarUpdate::New(sc) => sc.bits == old(self).shared.settings.scalar_bits,
                _ => false,
            },
            match final(self).shared.events.sum_dict.event {
                crate::events::SumDictUpdate::Invalidate => true,
                _ => false,
            },
            match final(self).shared.events.seed_dict.event {
                crate::events::SeedDictUpdate::Invalidate => true,
                _ => false,
            },
            final(self).shared.events.model == old(self).shared.events.model,
    {
        let keys = generate_signing_key_pair();
        let seed = generate_round_seed();
        let round_id = self.shared.round_id + 1;
        let params = RoundParams {
            coordinator_pk: crate::bytes::copy_bytes(&keys.public),
            round_seed: seed,
            sum_ratio: self.shared.settings.sum_ratio,
            update_ratio: self.shared.settings.update_ratio,
            mask_config: self.shared.settings.mask_config,
            model_length: self.shared.settings.model_length as usize,
        };
        self.shared.keys = keys;
        self.shared.round_id = round_id;
        self.shared.events.invalidate_round_outputs();
        self.shared.events.broadcast_params(round_id, params.duplicate());
        self.shared.events.broadcast_mask_length(self.shared.settings.model_length);
        self.shared.events.broadcast_scalar(Scalar { bits: self.shared.settings.scalar_bits });
        self.shared.round_params = params;
    }

    /// Moves on to the sum phase.
    pub fn next(self, now: u64) -> (r: PhaseState<Sum>)
        requires
            self.wf(),
        ensures
            r.wf(),
            r.shared == self.shared,
            r.inner.sum_dict.view_map() == Map::<Seq<u8>, Seq<u8>>::empty(),
            r.inner.sum_dict.entries@.len() == 0,
            r.inner.started_at == now,
    {
        PhaseState { inner: Sum { sum_dict: ByteDict::new(), started_at: now }, shared: self.shared }
    }
}

/// What a sum message must satisfy to be accepted in the sum phase.
pub open spec fn sum_acceptable(shared: Shared, dict: ByteDict, msg: MessageOwned) -> bool {
    match msg.payload {
        PayloadOwned::Sum(sum) => {
            &&& msg.header.participant_pk@.len() == 32
            &&& sum.sum_signature@.len() == 64
            &&& task_sig_valid(
                shared.round_params.round_seed@,
                sum.sum_signature@,
                msg.header.participant_pk@,
                sum_task_tag(),
            )
            &&& task_eligible(
                shared.round_params.round_seed@,
                sum.sum_signature@,
                msg.header.participant_pk@,
                shared.round_params.sum_ratio,
            )
            &&& dict.entries@.len() < shared.settings.max_sum
            &&& !dict.view_map().contains_key(msg.header.participant_pk@)
        },
        _ => false,
    }
}

/// How one message moves the sum phase from `pre` to `post` with reply `r`:
/// an acceptable sum message — and only one — is answered `Ok` and inserts
/// the ephemeral key; every other message leaves the phase untouched and is
/// answered with the exact reason it failed.
pub open spec fn sum_handle_rel(
    pre: PhaseState<Sum>,
    post: PhaseState<Sum>,
    msg: MessageOwned,
    r: StateMachineResult,
) -> bool {
    &&& post.shared == pre.shared
    &&& post.inner.started_at == pre.inner.started_at
    &&& match r {
        Ok(()) => {
            &&& sum_acceptable(pre.shared, pre.inner.sum_dict, msg)
            &&& match msg.payload {
                PayloadOwned::Sum(sum) => post.inner.sum_dict.view_map()
                    == pre.inner.sum_dict.view_map().insert(
                    msg.header.participant_pk@,
                    sum.ephm_pk@,
                ) && post.inner.sum_dict.entries@.len() == pre.inner.sum_dict.entries@.len() + 1,
                _ => false,
            }
        },
        Err(e) => {
            &&& post == pre
            &&& match e {
                StateMachineError::MessageRejected(reason) => match reason {
                    RejectReason::WrongPhase => !(msg.payload is Sum),
                    RejectReason::SignatureInvalid => match msg.payload {
                        PayloadOwned::Sum(sum) => !(msg.header.participant_pk@.len() == 32
                            && sum.sum_signature@.len() == 64 && task_sig_valid(
                            pre.shared.round_params.round_seed@,
                            sum.sum_signature@,
                            msg.header.participant_pk@,
                            sum_task_tag(),
                        )),
                        _ => false,
                    },
                    RejectReason::Ineligible => match msg.payload {
                        PayloadOwned::Sum(sum) => !task_eligible(
                            pre.shared.round_params.round_seed@,
                            sum.sum_signature@,
                            msg.header.participant_pk@,
                            pre.shared.round_params.sum_ratio,
                        ),
                        _ => false,
                    },
                    RejectReason::Discarded => msg.payload is Sum
                        && pre.inner.sum_dict.entries@.len() >= pre.shared.settings.max_sum,
                    RejectReason::DuplicatePk => match msg.payload {
                        PayloadOwned::Sum(_) => pre.inner.sum_dict.view_map().contains_key(
                            msg.header.participant_pk@,
                        ),
                        _ => false,
                    },
                    _ => false,
                },
                _ => false,
            }
        },
    }
}

impl PhaseState<Sum> {
    pub open spec fn wf(&self) -> bool {
        &&& self.shared.wf()
        &&& self.inner.sum_dict.wf()
    }

    pub fn new(shared: Shared, now: u64) -> (r: PhaseState<Sum>)
        ensures
            r.shared == shared,
            r.inner.sum_dict.entries@.len() == 0,
            r.inner.started_at == now,
            shared.wf() ==> r.wf(),
    {
        PhaseState { inner: Sum { sum_dict: ByteDict::new(), started_at: now }, shared }
    }

    /// Handles one message in the sum phase. An acceptable sum message — a
    /// validly signed, sum-eligible, fresh registration below the cap — is
    /// accepted, and nothing else is: every reject names the one failed
    /// validation, and the phase is untouched by it.
    pub fn handle(&mut self, msg: &MessageOwned) -> (r: StateMachineResult)
        requires
            old(self).wf(),
        ensures
            final(self).wf(),
            sum_handle_rel(*old(self), *final(self), *msg, r),
    {
        let sum = match &msg.payload {
            PayloadOwned::Sum(sum) => sum,
            _ => {
                return Err(StateMachineError::MessageRejected(RejectReason::WrongPhase));
            },
        };
        if msg.header.participant_pk.len() != 32 || sum.sum_signature.len() != 64 {
            return Err(StateMachineError::MessageRejected(RejectReason::SignatureInvalid));
        }
        let tag = sum_task_tag_vec();
        if !verify_task_signature(
            &self.shared.round_params.round_seed,
            &sum.sum_signature,
            &msg.header.participant_pk,
            &tag,
        ) {
            return Err(StateMachineError::MessageRejected(RejectReason::SignatureInvalid));
        }
        if !check_eligibility(
            &self.shared.round_params.round_seed,
            &sum.sum_signature,
            &msg.header.participant_pk,
            &self.shared.round_params.sum_ratio,
        ) {
            return Err(StateMachineError::MessageRejected(RejectReason::Ineligible));
        }
        if (self.inner.sum_dict.len() as u64) >= self.shared.settings.max_sum {
            return Err(StateMachineError::MessageRejected(RejectReason::Discarded));
        }
        let pk = crate::bytes::copy_bytes(&msg.header.participant_pk);
        let ephm = crate::bytes::copy_bytes(&sum.ephm_pk);
        if !self.inner.sum_dict.insert_new(pk, ephm) {
            return Err(StateMachineError::MessageRejected(RejectReason::DuplicatePk));
        }
        Ok(())
    }

    /// Decides whether the sum phase is done at time `now`.
    pub fn progress(&self, now: u64) -> (r: PhaseDecision)
        requires
            now >= self.inner.started_at,
        ensures
            r == progress_spec(
                self.inner.sum_dict.entries@.len() as nat,
                self.shared.settings.min_sum as nat,
                (now - self.inner.started_at) as nat,
                self.shared.settings.min_sum_time as nat,
                self.shared.settings.max_sum_time as nat,
            ),
    {
        let count = self.inner.sum_dict.len() as u64;
        decide_progress(
            count,
            self.shared.settings.min_sum,
            now - self.inner.started_at,
            self.shared.settings.min_sum_time,
            self.shared.settings.max_sum_time,
        )
    }
}

/// The update phase: collects masked models and encrypted seeds from
/// eligible update participants.
#[derive(Debug)]
pub struct Update {
    /// The sum dictionary frozen at the end of the sum phase.
    pub frozen_sum_dict: ByteDict,
    /// The seed dictionary under construction.
    pub seed_dict: SeedDict,
    /// The running aggregation of the masked models.
    pub aggregation: Aggregation,
    /// When the phase started, on the driver's clock.
    pub started_at: u64,
}

impl PhaseState<Sum> {
    /// Freezes the sum dictionary, publishes it, and moves on to the update
    /// phase with an empty seed dictionary and a zero aggregation.
    pub fn next(self, now: u64) -> (r: PhaseState<Update>)
        requires
            self.wf(),
        ensures
            r.wf(),
            r.shared.round_id == self.shared.round_id,
            r.shared.round_params == self.shared.round_params,
            r.shared.settings == self.shared.settings,
            r.shared.keys == self.shared.keys,
            r.inner.frozen_sum_dict.view_map() == self.inner.sum_dict.view_map(),
            r.inner.frozen_sum_dict.entries@.len() == self.inner.sum_dict.entries@.len(),
            r.inner.seed_dict.view_map().dom() == self.inner.sum_dict.view_map().dom(),
            seed_dict_consistent(
                r.inner.seed_dict.view_map(),
                r.inner.frozen_sum_dict.view_map().dom(),
            ),
            r.inner.aggregation.nb_models == 0,
            r.inner.started_at == now,
            match r.shared.events.sum_dict.event {
                crate::events::SumDictUpdate::New(d) => d.view_map()
                    == self.inner.sum_dict.view_map(),
                _ => false,
            },
    {
        let PhaseState { inner, mut shared } = self;
        let frozen = inner.sum_dict;
        shared.events.broadcast_sum_dict(frozen.duplicate());
        let seed_dict = SeedDict::new_from_keys(&frozen);
        let aggregation = Aggregation::new(
            shared.settings.mask_config,
            shared.settings.model_length as usize,
        );
        proof {
            assert forall|k: Seq<u8>, u: Seq<u8>|
                seed_dict.view_map().dom().contains(k) && #[trigger] seed_dict.view_map()[k].dom().contains(
                    u,
                ) implies crate::dict::updater_in_all(seed_dict.view_map(), u) by {
                assert(seed_dict.view_map()[k] == Map::<Seq<u8>, Seq<u8>>::empty());
            }
        }
        PhaseState {
            inner: Update { frozen_sum_dict: frozen, seed_dict, aggregation, started_at: now },
            shared,
        }
    }
}

/// What an update message must satisfy to be accepted in the update phase.
pub open spec fn update_acceptable(shared: Shared, st: Update, msg: MessageOwned) -> bool {
    match msg.payload {
        PayloadOwned::Update(u) => {
            &&& msg.header.participant_pk@.len() == 32
            &&& u.update_signature@.len() == 64
            &&& task_sig_valid(
                shared.round_params.round_seed@,
                u.update_signature@,
                msg.header.participant_pk@,
                update_task_tag(),
            )
            &&& task_eligible(
                shared.round_params.round_seed@,
                u.update_signature@,
                msg.header.participant_pk@,
                shared.round_params.update_ratio,
            )
            &&& u.local_seed_dict.wf()
            &&& u.local_seed_dict.view_map().dom() == st.frozen_sum_dict.view_map().dom()
            &&& u.masked_model.wf()
            &&& u.masked_model.vect.config == shared.round_params.mask_config
            &&& u.masked_model.unit.config == shared.round_params.mask_config
            &&& u.masked_model.vect.data@.len() == shared.round_params.model_length
            &&& u.masked_scalar.wf()
            &&& u.masked_scalar.vect.config == shared.round_params.mask_config
            &&& u.masked_scalar.unit.config == shared.round_params.mask_config
            &&& (st.aggregation.nb_models as u64) < shared.settings.max_update
            &&& st.aggregation.nb_models < usize::MAX
        },
        _ => false,
    }
}

/// How one message moves the update phase from `pre` to `post` with reply
/// `r`: an acceptable update message — and only one — is answered `Ok`,
/// merges the participant's seeds under every sum key and adds its masked
/// model to the aggregation; every other message leaves the phase untouched
/// and is answered with the exact reason it failed. The frozen sum dictionary
/// never changes.
pub open spec fn update_handle_rel(
    pre: PhaseState<Update>,
    post: PhaseState<Update>,
    msg: MessageOwned,
    r: StateMachineResult,
) -> bool {
    &&& post.shared == pre.shared
    &&& post.inner.started_at == pre.inner.started_at
    &&& post.inner.frozen_sum_dict == pre.inner.frozen_sum_dict
    &&& match r {
        Ok(()) => {
            &&& update_acceptable(pre.shared, pre.inner, msg)
            &&& match msg.payload {
                PayloadOwned::Update(u) => {
                    &&& post.inner.aggregation.nb_models == pre.inner.aggregation.nb_models + 1
                    &&& post.inner.seed_dict.view_map().dom()
                        == pre.inner.seed_dict.view_map().dom()
                    &&& forall|k: Seq<u8>|
                        pre.inner.seed_dict.view_map().dom().contains(k) ==> (
                        #[trigger] post.inner.seed_dict.view_map()[k])
                            == pre.inner.seed_dict.view_map()[k].insert(
                            msg.header.participant_pk@,
                            u.local_seed_dict.view_map()[k],
                        )
                    &&& forall|i: int|
                        0 <= i < pre.inner.aggregation.model_len()
                            ==> crate::aggregation::vect_values(
                            post.inner.aggregation.object.vect,
                        )[i] == (crate::aggregation::vect_values(
                            pre.inner.aggregation.object.vect,
                        )[i] + crate::aggregation::vect_values(u.masked_model.vect)[i])
                            % crate::config::order(pre.shared.round_params.mask_config)
                    &&& crate::aggregation::unit_value(post.inner.aggregation.object.unit) == (
                    crate::aggregation::unit_value(pre.inner.aggregation.object.unit)
                        + crate::aggregation::unit_value(u.masked_model.unit))
                        % crate::config::order(pre.shared.round_params.mask_config)
                },
                _ => false,
            }
        },
        Err(e) => {
            &&& post == pre
            &&& match e {
                StateMachineError::MessageRejected(reason) => match reason {
                    RejectReason::WrongPhase => !(msg.payload is Update),
                    RejectReason::SignatureInvalid => match msg.payload {
                        PayloadOwned::Update(u) => !(msg.header.participant_pk@.len() == 32
                            && u.update_signature@.len() == 64 && task_sig_valid(
                            pre.shared.round_params.round_seed@,
                            u.update_signature@,
                            msg.header.participant_pk@,
                            update_task_tag(),
                        )),
                        _ => false,
                    },
                    RejectReason::Ineligible => match msg.payload {
                        PayloadOwned::Update(u) => !task_eligible(
                            pre.shared.round_params.round_seed@,
                            u.update_signature@,
                            msg.header.participant_pk@,
                            pre.shared.round_params.update_ratio,
                        ),
                        _ => false,
                    },
                    RejectReason::SeedDictKeyMismatch => match msg.payload {
                        PayloadOwned::Update(u) => !(u.local_seed_dict.wf()
                            && u.local_seed_dict.view_map().dom()
                            == pre.inner.frozen_sum_dict.view_map().dom()),
                        _ => false,
                    },
                    RejectReason::MaskConfigMismatch => match msg.payload {
                        PayloadOwned::Update(u) => !(u.masked_model.wf()
                            && u.masked_model.vect.config == pre.shared.round_params.mask_config
                            && u.masked_model.unit.config == pre.shared.round_params.mask_config)
                            || !(u.masked_scalar.wf() && u.masked_scalar.vect.config
                            == pre.shared.round_params.mask_config && u.masked_scalar.unit.config
                            == pre.shared.round_params.mask_config),
                        _ => false,
                    },
                    RejectReason::ModelLengthMismatch => match msg.payload {
                        PayloadOwned::Update(u) => u.masked_model.vect.data@.len()
                            != pre.shared.round_params.model_length,
                        _ => false,
                    },
                    RejectReason::Discarded => msg.payload is Update && ((
                    pre.inner.aggregation.nb_models as u64) >= pre.shared.settings.max_update
                        || pre.inner.aggregation.nb_models == usize::MAX),
                    _ => false,
                },
                _ => false,
            }
        },
    }
}

impl PhaseState<Update> {
    pub open spec fn wf(&self) -> bool {
        &&& self.shared.wf()
        &&& self.inner.frozen_sum_dict.wf()
        &&& self.inner.seed_dict.wf()
        &&& self.inner.seed_dict.view_map().dom() == self.inner.frozen_sum_dict.view_map().dom()
        &&& seed_dict_consistent(
            self.inner.seed_dict.view_map(),
            self.inner.frozen_sum_dict.view_map().dom(),
        )
        &&& self.inner.aggregation.wf()
        &&& self.inner.aggregation.config == self.shared.round_params.mask_config
        &&& self.inner.aggregation.model_len() == self.shared.round_params.model_length
    }

    /// Handles one message in the update phase. An acceptable update message
    /// — validly signed, update-eligible, seeds covering exactly the frozen
    /// sum keys, masks of the round's shape, below the cap — is accepted, and
    /// nothing else is: every reject — in particular a mask vector of the
    /// wrong length — names the one failed validation and leaves the phase
    /// untouched. The frozen sum dictionary never changes.
    pub fn handle(&mut self, msg: &MessageOwned) -> (r: StateMachineResult)
        requires
            old(self).wf(),
        ensures
            final(self).wf(),
            update_handle_rel(*old(self), *final(self), *msg, r),
    {
        let update = match &msg.payload {
            PayloadOwned::Update(update) => update,
            _ => {
                return Err(StateMachineError::MessageRejected(RejectReason::WrongPhase));
            },
        };
        if msg.header.participant_pk.len() != 32 || update.update_signature.len() != 64 {
            return Err(StateMachineError::MessageRejected(RejectReason::SignatureInvalid));
        }
        let tag = update_task_tag_vec();
        if !verify_task_signature(
            &self.shared.round_params.round_seed,
            &update.update_signature,
            &msg.header.participant_pk,
            &tag,
        ) {
            return Err(StateMachineError::MessageRejected(RejectReason::SignatureInvalid));
        }
        if !check_eligibility(
            &self.shared.round_params.round_seed,
            &update.update_signature,
            &msg.header.participant_pk,
            &self.shared.round_params.update_ratio,
        ) {
            return Err(StateMachineError::MessageRejected(RejectReason::Ineligible));
        }
        if !update.local_seed_dict.check_wf() {
            return Err(StateMachineError::MessageRejected(RejectReason::SeedDictKeyMismatch));
        }
        if !update.local_seed_dict.same_key_set(&self.inner.frozen_sum_dict) {
            return Err(StateMachineError::MessageRejected(RejectReason::SeedDictKeyMismatch));
        }
        if !update.masked_model.check_wf() || !(update.masked_model.vect.config
            == self.shared.round_params.mask_config) || !(update.masked_model.unit.config
            == self.shared.round_params.mask_config) {
            return Err(StateMachineError::MessageRejected(RejectReason::MaskConfigMismatch));
        }
        if update.masked_model.vect.data.len() != self.shared.round_params.model_length {
            return Err(StateMachineError::MessageRejected(RejectReason::ModelLengthMismatch));
        }
        if !update.masked_scalar.check_wf() || !(update.masked_scalar.vect.config
            == self.shared.round_params.mask_config) || !(update.masked_scalar.unit.config
            == self.shared.round_params.mask_config) {
            return Err(StateMachineError::MessageRejected(RejectReason::MaskConfigMismatch));
        }
        if (self.inner.aggregation.nb_models as u64) >= self.shared.settings.max_update
            || self.inner.aggregation.nb_models == usize::MAX {
            return Err(StateMachineError::MessageRejected(RejectReason::Discarded));
        }
        let ghost before = self.inner.seed_dict.view_map();
        self.inner.seed_dict.insert_seeds(&msg.header.participant_pk, &update.local_seed_dict);
        self.inner.aggregation.aggregate(&update.masked_model);
        proof {
            crate::dict::lemma_seed_dict_merge_consistent(
                before,
                self.inner.seed_dict.view_map(),
                msg.header.participant_pk@,
                old(self).inner.frozen_sum_dict.view_map().dom(),
            );
        }
        Ok(())
    }

    /// Decides whether the update phase is done at time `now`.
    pub fn progress(&self, now: u64) -> (r: PhaseDecision)
        requires
            now >= self.inner.started_at,
        ensures
            r == progress_spec(
                self.inner.aggregation.nb_models as nat,
                self.shared.settings.min_update as nat,
                (now - self.inner.started_at) as nat,
                self.shared.settings.min_update_time as nat,
                self.shared.settings.max_update_time as nat,
            ),
    {
        decide_progress(
            self.inner.aggregation.nb_models as u64,
            self.shared.settings.min_update,
            now - self.inner.started_at,
            self.shared.settings.min_update_time,
            self.shared.settings.max_update_time,
        )
    }
}

/// A mask of the right shape for the round: well formed, under the round's
/// configuration, with the round's vector length.
pub open spec fn mask_shaped(c: MaskConfig, model_length: nat, m: MaskObject) -> bool {
    &&& m.wf()
    &&& m.vect.config == c
    &&& m.unit.config == c
    &&& m.vect.data@.len() == model_length
}

/// Pairwise distinct masks.
pub open spec fn masks_distinct(entries: Seq<(MaskObject, u64)>) -> bool {
    forall|i: int, j: int|
        0 <= i < j < entries.len() ==> !object_eq(
            (#[trigger] entries[i]).0,
            (#[trigger] entries[j]).0,
        )
}

/// How one submission of `mask` moves the mask dictionary from `om` to `nm`:
/// the matching entry's count rises by one, or a fresh entry opens at one.
pub open spec fn mask_dict_step(
    om: Seq<(MaskObject, u64)>,
    nm: Seq<(MaskObject, u64)>,
    mask: MaskObject,
) -> bool {
    if exists|i: int| 0 <= i < om.len() && object_eq((#[trigger] om[i]).0, mask) {
        let i = choose|i: int| 0 <= i < om.len() && object_eq((#[trigger] om[i]).0, mask);
        nm == om.update(i, (om[i].0, (om[i].1 + 1) as u64))
    } else {
        &&& nm.len() == om.len() + 1
        &&& nm.drop_last() == om
        &&& object_eq(nm.last().0, mask)
        &&& nm.last().1 == 1
    }
}

/// Counts one more submission of `mask`: bumps its entry, or opens a new
/// entry at one.
fn mask_dict_incr(dict: &mut Vec<(MaskObject, u64)>, mask: &MaskObject)
    requires
        masks_distinct(old(dict)@),
        forall|i: int| 0 <= i < old(dict)@.len() ==> (#[trigger] old(dict)@[i]).1 < u64::MAX,
    ensures
        mask_dict_step(old(dict)@, final(dict)@, *mask),
{
    let n = dict.len();
    let mut i: usize = 0;
    while i < n
        invariant
            masks_distinct(dict@),
            forall|j: int| 0 <= j < dict@.len() ==> (#[trigger] dict@[j]).1 < u64::MAX,
            *dict == *old(dict),
            n == dict@.len(),
            i <= n,
            forall|j: int| 0 <= j < i ==> !object_eq((#[trigger] dict@[j]).0, *mask),
        decreases n - i,
    {
        if dict[i].0 == *mask {
            let ghost om = old(dict)@;
            let ghost w = choose|w: int| 0 <= w < om.len() && object_eq((#[trigger] om[w]).0, *mask);
            proof {
                assert(object_eq(om[i as int].0, *mask));
                if w != i {
                    assert(!object_eq(om[w].0, om[i as int].0) || !object_eq(
                        om[i as int].0,
                        om[w].0,
                    ));
                }
                assert(w == i);
            }
            let entry = dict.remove(i);
            let count = entry.1;
            dict.insert(i, (entry.0, count + 1));
            proof {
                assert(dict@ =~= om.update(i as int, (om[i as int].0, (om[i as int].1 + 1) as u64)));
                assert(mask_dict_step(om, dict@, *mask));
            }
            return ;
        }
        i = i + 1;
    }
    dict.push((mask.duplicate(), 1));
    proof {
        assert(dict@.drop_last() =~= old(dict)@);
        assert(mask_dict_step(old(dict)@, dict@, *mask));
    }
}

/// The sum2 phase: collects the masks the sum participants reconstructed.
#[derive(Debug)]
pub struct Sum2 {
    /// The sum dictionary frozen at the end of the sum phase.
    pub frozen_sum_dict: ByteDict,
    /// How often each submitted mask was seen.
    pub mask_dict: Vec<(MaskObject, u64)>,
    /// The aggregation carried over from the update phase.
    pub model_agg: Aggregation,
    /// How many sum2 messages were accepted.
    pub accepted: u64,
    /// When the phase started, on the driver's clock.
    pub started_at: u64,
}

impl PhaseState<Update> {
    /// Freezes the seed dictionary, publishes it, and moves on to the sum2
    /// phase, carrying the aggregation.
    pub fn next(self, now: u64) -> (r: PhaseState<Sum2>)
        requires
            self.wf(),
        ensures
            r.wf(),
            r.shared.round_id == self.shared.round_id,
            r.shared.round_params == self.shared.round_params,
            r.shared.settings == self.shared.settings,
            r.inner.frozen_sum_dict == self.inner.frozen_sum_dict,
            r.inner.model_agg == self.inner.aggregation,
            r.inner.mask_dict@.len() == 0,
            r.inner.accepted == 0,
            r.inner.started_at == now,
            seed_dict_consistent(
                self.inner.seed_dict.view_map(),
                self.inner.frozen_sum_dict.view_map().dom(),
            ),
            match r.shared.events.seed_dict.event {
                crate::events::SeedDictUpdate::New(d) => d.view_map()
                    == self.inner.seed_dict.view_map(),
                _ => false,
            },
    {
        let PhaseState { inner, mut shared } = self;
        shared.events.broadcast_seed_dict(inner.seed_dict.duplicate());
        PhaseState {
            inner: Sum2 {
                frozen_sum_dict: inner.frozen_sum_dict,
                mask_dict: Vec::new(),
                model_agg: inner.aggregation,
                accepted: 0,
                started_at: now,
            },
            shared,
        }
    }
}

/// What a sum2 message must satisfy to be accepted in the sum2 phase.
pub open spec fn sum2_acceptable(shared: Shared, st: Sum2, msg: MessageOwned) -> bool {
    match msg.payload {
        PayloadOwned::Sum2(s) => {
            &&& msg.header.participant_pk@.len() == 32
            &&& s.sum_signature@.len() == 64
            &&& task_sig_valid(
                shared.round_params.round_seed@,
                s.sum_signature@,
                msg.header.participant_pk@,
                sum_task_tag(),
            )
            &&& st.frozen_sum_dict.view_map().contains_key(msg.header.participant_pk@)
            &&& mask_shaped(
                shared.round_params.mask_config,
                shared.round_params.model_length as nat,
                s.model_mask,
            )
            &&& s.scalar_mask.wf()
            &&& s.scalar_mask.vect.config == shared.round_params.mask_config
            &&& s.scalar_mask.unit.config == shared.round_params.mask_config
            &&& st.accepted < shared.settings.max_sum2
        },
        _ => false,
    }
}

/// How one message moves the sum2 phase from `pre` to `post` with reply
/// `r`: an acceptable sum2 message — and only one — is answered `Ok` and
/// counts its model mask; every other message leaves the phase untouched and
/// is answered with the exact reason it failed — in particular, a key outside
/// the frozen sum dictionary is rejected outright.
pub open spec fn sum2_handle_rel(
    pre: PhaseState<Sum2>,
    post: PhaseState<Sum2>,
    msg: MessageOwned,
    r: StateMachineResult,
) -> bool {
    &&& post.shared == pre.shared
    &&& post.inner.started_at == pre.inner.started_at
    &&& post.inner.frozen_sum_dict == pre.inner.frozen_sum_dict
    &&& post.inner.model_agg == pre.inner.model_agg
    &&& match r {
        Ok(()) => {
            &&& sum2_acceptable(pre.shared, pre.inner, msg)
            &&& post.inner.accepted == pre.inner.accepted + 1
            &&& match msg.payload {
                PayloadOwned::Sum2(s) => mask_dict_step(
                    pre.inner.mask_dict@,
                    post.inner.mask_dict@,
                    s.model_mask,
                ),
                _ => false,
            }
        },
        Err(e) => {
            &&& post == pre
            &&& match e {
                StateMachineError::MessageRejected(reason) => match reason {
                    RejectReason::WrongPhase => !(msg.payload is Sum2),
                    RejectReason::SignatureInvalid => match msg.payload {
                        PayloadOwned::Sum2(s) => !(msg.header.participant_pk@.len() == 32
                            && s.sum_signature@.len() == 64 && task_sig_valid(
                            pre.shared.round_params.round_seed@,
                            s.sum_signature@,
                            msg.header.participant_pk@,
                            sum_task_tag(),
                        )),
                        _ => false,
                    },
                    RejectReason::MissingSumEntry => match msg.payload {
                        PayloadOwned::Sum2(_) => !pre.inner.frozen_sum_dict.view_map().contains_key(
                            msg.header.participant_pk@,
                        ),
                        _ => false,
                    },
                    RejectReason::MaskConfigMismatch => match msg.payload {
                        PayloadOwned::Sum2(s) => !(s.model_mask.wf() && s.model_mask.vect.config
                            == pre.shared.round_params.mask_config && s.model_mask.unit.config
                            == pre.shared.round_params.mask_config) || !(s.scalar_mask.wf()
                            && s.scalar_mask.vect.config == pre.shared.round_params.mask_config
                            && s.scalar_mask.unit.config == pre.shared.round_params.mask_config),
                        _ => false,
                    },
                    RejectReason::ModelLengthMismatch => match msg.payload {
                        PayloadOwned::Sum2(s) => s.model_mask.vect.data@.len()
                            != pre.shared.round_params.model_length,
                        _ => false,
                    },
                    RejectReason::Discarded => msg.payload is Sum2 && pre.inner.accepted
                        >= pre.shared.settings.max_sum2,
                    _ => false,
                },
                _ => false,
            }
        },
    }
}

impl PhaseState<Sum2> {
    pub open spec fn wf(&self) -> bool {
        &&& self.shared.wf()
        &&& self.inner.frozen_sum_dict.wf()
        &&& self.inner.accepted <= self.shared.settings.max_sum2
        &&& masks_distinct(self.inner.mask_dict@)
        &&& forall|i: int|
            0 <= i < self.inner.mask_dict@.len() ==> 1 <= (#[trigger] self.inner.mask_dict@[i]).1
                <= self.inner.accepted
        &&& forall|i: int|
            0 <= i < self.inner.mask_dict@.len() ==> mask_shaped(
                self.shared.round_params.mask_config,
                self.shared.round_params.model_length as nat,
                (#[trigger] self.inner.mask_dict@[i]).0,
            )
        &&& self.inner.model_agg.wf()
        &&& self.inner.model_agg.config == self.shared.round_params.mask_config
        &&& self.inner.model_agg.model_len() == self.shared.round_params.model_length
    }

    /// Handles one message in the sum2 phase. An acceptable sum2 message — a
    /// validly signed mask of the round's shape from a registered sum
    /// participant, below the cap — is accepted, and nothing else is: every
    /// reject names the one failed validation and leaves the phase untouched
    /// — in particular, a key outside the frozen sum dictionary is rejected
    /// outright.
    pub fn handle(&mut self, msg: &MessageOwned) -> (r: StateMachineResult)
        requires
            old(self).wf(),
        ensures
            final(self).wf(),
            sum2_handle_rel(*old(self), *final(self), *msg, r),
    {
        let sum2 = match &msg.payload {
            PayloadOwned::Sum2(sum2) => sum2,
            _ => {
                return Err(StateMachineError::MessageRejected(RejectReason::WrongPhase));
            },
        };
        proof {
            assert(msg.payload == PayloadOwned::Sum2(*sum2));
        }
        if msg.header.participant_pk.len() != 32 || sum2.sum_signature.len() != 64 {
            return Err(StateMachineError::MessageRejected(RejectReason::SignatureInvalid));
        }
        let tag = sum_task_tag_vec();
        if !verify_task_signature(
            &self.shared.round_params.round_seed,
            &sum2.sum_signature,
            &msg.header.participant_pk,
            &tag,
        ) {
            return Err(StateMachineError::MessageRejected(RejectReason::SignatureInvalid));
        }
        if !self.inner.frozen_sum_dict.contains(&msg.header.participant_pk) {
            return Err(StateMachineError::MessageRejected(RejectReason::MissingSumEntry));
        }
        if !sum2.model_mask.check_wf() || !(sum2.model_mask.vect.config
            == self.shared.round_params.mask_config) || !(sum2.model_mask.unit.config
            == self.shared.round_params.mask_config) {
            return Err(StateMachineError::MessageRejected(RejectReason::MaskConfigMismatch));
        }
        if sum2.model_mask.vect.data.len() != self.shared.round_params.model_length {
            return Err(StateMachineError::MessageRejected(RejectReason::ModelLengthMismatch));
        }
        if !sum2.scalar_mask.check_wf() || !(sum2.scalar_mask.vect.config
            == self.shared.round_params.mask_config) || !(sum2.scalar_mask.unit.config
            == self.shared.round_params.mask_config) {
            return Err(StateMachineError::MessageRejected(RejectReason::MaskConfigMismatch));
        }
        if self.inner.accepted >= self.shared.settings.max_sum2 {
            return Err(StateMachineError::MessageRejected(RejectReason::Discarded));
        }
        mask_dict_incr(&mut self.inner.mask_dict, &sum2.model_mask);
        self.inner.accepted = self.inner.accepted + 1;
        proof {
            let om = old(self).inner.mask_dict@;
            let nm = self.inner.mask_dict@;
            let c = self.shared.round_params.mask_config;
            let ml = self.shared.round_params.model_length as nat;
            assert(mask_dict_step(om, nm, sum2.model_mask));
            if exists|i: int| 0 <= i < om.len() && object_eq((#[trigger] om[i]).0, sum2.model_mask) {
                let i = choose|i: int|
                    0 <= i < om.len() && object_eq((#[trigger] om[i]).0, sum2.model_mask);
                assert(nm == om.update(i, (om[i].0, (om[i].1 + 1) as u64)));
                assert forall|a: int, b: int| 0 <= a < b < nm.len() implies !object_eq(
                    (#[trigger] nm[a]).0,
                    (#[trigger] nm[b]).0,
                ) by {
                    assert(nm[a].0 == om[a].0);
                    assert(nm[b].0 == om[b].0);
                }
                assert forall|a: int| 0 <= a < nm.len() implies 1 <= (#[trigger] nm[a]).1
                    <= self.inner.accepted && mask_shaped(c, ml, nm[a].0) by {
                    if a != i {
                        assert(nm[a] == om[a]);
                    } else {
                        assert(nm[a].0 == om[a].0);
                        assert(nm[a].1 == om[a].1 + 1);
                    }
                }
            } else {
                crate::masks::lemma_object_eq_wf(sum2.model_mask, nm.last().0);
                assert forall|a: int, b: int| 0 <= a < b < nm.len() implies !object_eq(
                    (#[trigger] nm[a]).0,
                    (#[trigger] nm[b]).0,
                ) by {
                    if b == nm.len() - 1 {
                        assert(nm[a].0 == om[a].0);
                        assert(!object_eq(om[a].0, sum2.model_mask));
                        assert(object_eq(nm[b].0, sum2.model_mask));
                    } else {
                        assert(nm[a].0 == om[a].0);
                        assert(nm[b].0 == om[b].0);
                    }
                }
                assert forall|a: int| 0 <= a < nm.len() implies mask_shaped(
                    c,
                    ml,
                    (#[trigger] nm[a]).0,
                ) && 1 <= (#[trigger] nm[a]).1 <= self.inner.accepted by {
                    if a < nm.len() - 1 {
                        assert(nm[a] == om[a]);
                    }
                }
            }
            assert(sum2_acceptable(old(self).shared, old(self).inner, *msg));
        }
        Ok(())
    }

    /// Decides whether the sum2 phase is done at time `now`.
    pub fn progress(&self, now: u64) -> (r: PhaseDecision)
        requires
            now >= self.inner.started_at,
        ensures
            r == progress_spec(
                self.inner.accepted as nat,
                self.shared.settings.min_sum2 as nat,
                (now - self.inner.started_at) as nat,
                self.shared.settings.min_sum2_time as nat,
                self.shared.settings.max_sum2_time as nat,
            ),
    {
        decide_progress(
            self.inner.accepted,
            self.shared.settings.min_sum2,
            now - self.inner.started_at,
            self.shared.settings.min_sum2_time,
            self.shared.settings.max_sum2_time,
        )
    }
}

/// The entry at `i` is the strictly unique plurality entry: submitted at
/// least once, and strictly more often than every other mask.
pub open spec fn unique_top(s: Seq<(MaskObject, u64)>, i: int) -> bool {
    &&& 0 <= i < s.len()
    &&& s[i].1 > 0
    &&& forall|j: int| 0 <= j < s.len() && j != i ==> (#[trigger] s[j]).1 < s[i].1
}

/// `j` cannot be the strictly unique top among the first `n` entries: its
/// count is zero, or some other entry matches or beats it.
pub open spec fn blocked(s: Seq<(MaskObject, u64)>, j: int, n: int) -> bool {
    s[j].1 == 0 || exists|l: int| 0 <= l < n && l != j && (#[trigger] s[l]).1 >= s[j].1
}

/// The unmask phase: selects the plurality mask and reveals the aggregate.
#[derive(Debug)]
pub struct Unmask {
    /// The aggregator for masked models.
    pub model_agg: Option<Aggregation>,
}

impl Unmask {
    /// The aggregation, while it has not been consumed.
    pub fn aggregation(&self) -> (r: Option<&Aggregation>)
        ensures
            r.is_some() == self.model_agg.is_some(),
            r.is_some() ==> *r.unwrap() == self.model_agg.unwrap(),
    {
        self.model_agg.as_ref()
    }
}

impl PhaseState<Sum2> {
    /// Moves on to the unmask phase, handing over the collected mask counts.
    pub fn next(self, now: u64) -> (r: (PhaseState<Unmask>, Vec<(MaskObject, u64)>))
        requires
            self.wf(),
        ensures
            r.0.wf(),
            r.0.shared == self.shared,
            r.0.inner.model_agg == Some(self.inner.model_agg),
            r.1@ == self.inner.mask_dict@,
            forall|i: int|
                0 <= i < r.1@.len() ==> mask_shaped(
                    self.shared.round_params.mask_config,
                    self.shared.round_params.model_length as nat,
                    (#[trigger] r.1@[i]).0,
                ),
    {
        let PhaseState { inner, shared } = self;
        (
            PhaseState { inner: Unmask { model_agg: Some(inner.model_agg) }, shared },
            inner.mask_dict,
        )
    }
}

/// The published global model is the aggregate, unmasked with the unique
/// plurality mask among `bm` and counting `agg`'s contributions.
pub open spec fn unmasked_ok(agg: Aggregation, bm: Seq<(MaskObject, u64)>, g: GlobalModel) -> bool {
    exists|i: int|
        #![auto]
        {
            &&& unique_top(bm, i)
            &&& g.nb_models == agg.nb_models
            &&& g.object.vect.data@.len() == agg.model_len()
            &&& forall|k: int|
                0 <= k < agg.model_len() ==> crate::aggregation::vect_values(g.object.vect)[k] == ((
                crate::aggregation::vect_values(agg.object.vect)[k] + crate::config::order(
                    agg.config,
                ) - crate::aggregation::vect_values(bm[i].0.vect)[k]) as nat) % crate::config::order(
                    agg.config,
                )
            &&& crate::aggregation::unit_value(g.object.unit) == ((
            crate::aggregation::unit_value(agg.object.unit) + crate::config::order(agg.config)
                - crate::aggregation::unit_value(bm[i].0.unit)) as nat) % crate::config::order(
                agg.config,
            )
        }
}

impl PhaseState<Unmask> {
    pub open spec fn wf(&self) -> bool {
        &&& self.shared.wf()
        &&& match self.model_agg_spec() {
            Some(agg) => agg.wf() && agg.config == self.shared.round_params.mask_config
                && agg.model_len() == self.shared.round_params.model_length,
            None => true,
        }
    }

    /// The aggregation, as a value.
    pub open spec fn model_agg_spec(&self) -> Option<Aggregation> {
        self.inner.model_agg
    }

    /// Creates a new unmask state.
    pub fn new(shared: Shared, model_agg: Aggregation) -> (r: PhaseState<Unmask>)
        ensures
            r.shared == shared,
            r.inner.model_agg == Some(model_agg),
    {
        PhaseState { inner: Unmask { model_agg: Some(model_agg) }, shared }
    }

    /// Freezes the mask dictionary: selects the strictly unique plurality
    /// mask, or reports why none can be selected — an empty dictionary has no
    /// mask at all, and a tie at the top count is ambiguous.
    pub fn freeze_mask_dict(&self, best_masks: &Vec<(MaskObject, u64)>) -> (r: Result<
        MaskObject,
        RoundFailed,
    >)
        ensures
            match r {
                Ok(m) => exists|i: int|
                    unique_top(best_masks@, i) && object_eq(m, (#[trigger] best_masks@[i]).0),
                Err(RoundFailed::NoMask) => best_masks@.len() == 0,
                Err(RoundFailed::AmbiguousMasks) => best_masks@.len() > 0 && !(exists|i: int|
                    unique_top(best_masks@, i)),
                Err(_) => false,
            },
    {
        let ghost s = best_masks@;
        let n = best_masks.len();
        if n == 0 {
            return Err(RoundFailed::NoMask);
        }
        let mut best: Option<usize> = None;
        let mut bc: u64 = 0;
        let mut i: usize = 0;
        while i < n
            invariant
                n == s.len(),
                s == best_masks@,
                i <= n,
                forall|j: int| 0 <= j < i ==> (#[trigger] s[j]).1 <= bc,
                i == 0 ==> bc == 0,
                bc > 0 ==> exists|l: int| 0 <= l < i && (#[trigger] s[l]).1 == bc,
                match best {
                    Some(w) => w < i && s[w as int].1 == bc && bc > 0 && forall|l: int|
                        0 <= l < i && l != w ==> (#[trigger] s[l]).1 < bc,
                    None => forall|j: int| 0 <= j < i ==> blocked(s, j, i as int),
                },
            decreases n - i,
        {
            let c = best_masks[i].1;
            if bc < c {
                best = Some(i);
                bc = c;
            } else if bc == c {
                proof {
                    assert forall|j: int| 0 <= j < i + 1 implies #[trigger] blocked(s, j, i + 1) by {
                        if j == i {
                            if c > 0 {
                                let l = choose|l: int| 0 <= l < i && (#[trigger] s[l]).1 == bc;
                                assert(0 <= l < i + 1 && l != j && s[l].1 >= s[j].1);
                            }
                        } else {
                            match best {
                                Some(w) => {
                                    if j == w {
                                        assert(0 <= i < i + 1 && i != j && s[i as int].1 >= s[j].1);
                                    } else {
                                        assert(s[w as int].1 >= s[j].1);
                                        assert(0 <= w < i + 1 && w != j);
                                    }
                                },
                                None => {
                                    assert(blocked(s, j, i as int));
                                    if s[j].1 > 0 {
                                        let l = choose|l: int|
                                            0 <= l < i && l != j && (#[trigger] s[l]).1 >= s[j].1;
                                        assert(0 <= l < i + 1 && l != j && s[l].1 >= s[j].1);
                                    }
                                },
                            }
                        }
                    }
                }
                best = None;
            } else {
                proof {
                    if best is None {
                        assert forall|j: int| 0 <= j < i + 1 implies #[trigger] blocked(s, j, i + 1) by {
                            if j == i {
                                if c > 0 {
                                    let l = choose|l: int| 0 <= l < i && (#[trigger] s[l]).1 == bc;
                                    assert(0 <= l < i + 1 && l != j && s[l].1 >= s[j].1);
                                }
                            } else {
                                assert(blocked(s, j, i as int));
                                if s[j].1 > 0 {
                                    let l = choose|l: int|
                                        0 <= l < i && l != j && (#[trigger] s[l]).1 >= s[j].1;
                                    assert(0 <= l < i + 1 && l != j && s[l].1 >= s[j].1);
                                }
                            }
                        }
                    }
                }
            }
            i = i + 1;
        }
        match best {
            Some(w) => {
                proof {
                    assert(unique_top(s, w as int));
                }
                Ok(best_masks[w].0.duplicate())
            },
            None => {
                proof {
                    assert forall|j: int| !unique_top(s, j) by {
                        if 0 <= j < s.len() {
                            assert(blocked(s, j, s.len() as int));
                            if s[j].1 > 0 && unique_top(s, j) {
                                let l = choose|l: int|
                                    0 <= l < s.len() && l != j && (#[trigger] s[l]).1 >= s[j].1;
                                assert(s[l].1 < s[j].1);
                            }
                        }
                    }
                }
                Err(RoundFailed::AmbiguousMasks)
            },
        }
    }

    /// Ends the round: selects the plurality mask, checks it against the
    /// aggregation, and unmasks the sum of the plaintext models.
    pub fn end_round(&mut self, best_masks: &Vec<(MaskObject, u64)>) -> (r: Result<
        GlobalModel,
        RoundFailed,
    >)
        requires
            old(self).wf(),
            old(self).model_agg_spec().is_some(),
            forall|i: int|
                0 <= i < best_masks@.len() ==> mask_shaped(
                    old(self).shared.round_params.mask_config,
                    old(self).shared.round_params.model_length as nat,
                    (#[trigger] best_masks@[i]).0,
                ),
        ensures
            final(self).wf(),
            final(self).shared == old(self).shared,
            match r {
                Ok(g) => unmasked_ok(old(self).model_agg_spec().unwrap(), best_masks@, g)
                    && final(self).model_agg_spec() is None,
                Err(RoundFailed::NoMask) => best_masks@.len() == 0 && *final(self) == *old(self),
                Err(RoundFailed::AmbiguousMasks) => best_masks@.len() > 0 && !(exists|i: int|
                    unique_top(best_masks@, i)) && *final(self) == *old(self),
                Err(_) => false,
            },
    {
        let mask = match self.freeze_mask_dict(best_masks) {
            Ok(mask) => mask,
            Err(e) => {
                return Err(e);
            },
        };
        let agg = match self.inner.model_agg.take() {
            Some(agg) => agg,
            None => {
                proof {
                    assert(false);
                }
                return Err(RoundFailed::AggregationInvariant);
            },
        };
        let ghost w = choose|i: int|
            unique_top(best_masks@, i) && object_eq(mask, (#[trigger] best_masks@[i]).0);
        proof {
            crate::masks::lemma_object_eq_wf(best_masks@[w].0, mask);
            assert(agg.compatible(mask));
        }
        match agg.validate_unmasking(&mask) {
            Ok(_) => {},
            Err(_) => {
                proof {
                    assert(false);
                }
                return Err(RoundFailed::AggregationInvariant);
            },
        }
        let nb_models = agg.nb_models;
        let ghost agg_snapshot = agg;
        let object = agg.unmask(&mask);
        let g = GlobalModel { object, nb_models };
        proof {
            assert(crate::aggregation::vect_values(mask.vect) =~= crate::aggregation::vect_values(
                best_masks@[w].0.vect,
            ));
            assert(unmasked_ok(old(self).model_agg_spec().unwrap(), best_masks@, g));
        }
        Ok(g)
    }

    /// Runs the unmask phase on the collected mask counts: on success the new
    /// global model is broadcast.
    pub fn run(&mut self, best_masks: &Vec<(MaskObject, u64)>) -> (r: Result<(), RoundFailed>)
        requires
            old(self).wf(),
            old(self).model_agg_spec().is_some(),
            forall|i: int|
                0 <= i < best_masks@.len() ==> mask_shaped(
                    old(self).shared.round_params.mask_config,
                    old(self).shared.round_params.model_length as nat,
                    (#[trigger] best_masks@[i]).0,
                ),
        ensures
            final(self).wf(),
            final(self).shared.round_id == old(self).shared.round_id,
            final(self).shared.settings == old(self).shared.settings,
            match r {
                Ok(()) => match final(self).shared.events.model.event {
                    crate::events::ModelUpdate::New(g) => unmasked_ok(
                        old(self).model_agg_spec().unwrap(),
                        best_masks@,
                        g,
                    ),
                    _ => false,
                },
                Err(RoundFailed::NoMask) => best_masks@.len() == 0 && *final(self) == *old(self),
                Err(RoundFailed::AmbiguousMasks) => best_masks@.len() > 0 && !(exists|i: int|
                    unique_top(best_masks@, i)) && *final(self) == *old(self),
                Err(_) => false,
            },
    {
        let g = match self.end_round(best_masks) {
            Ok(g) => g,
            Err(e) => {
                return Err(e);
            },
        };
        self.shared.events.broadcast_model(g);
        Ok(())
    }

    /// Goes back to the idle phase.
    pub fn next(self) -> (r: PhaseState<Idle>)
        ensures
            r.shared == self.shared,
    {
        PhaseState { inner: Idle {}, shared: self.shared }
    }
}

/// The error phase: a failed round's outputs are withdrawn before restarting.
#[derive(Debug)]
pub struct PhaseError {
    /// What failed the round.
    pub error: RoundFailed,
}

/// The terminal phase: the request channel is closed.
#[derive(Debug)]
pub struct Shutdown {}

impl PhaseState<PhaseError> {
    pub open spec fn wf(&self) -> bool {
        self.shared.wf()
    }

    /// Runs the error phase: every published topic is invalidated.
    pub fn run(&mut self)
        requires
            old(self).wf(),
        ensures
            final(self).wf(),
            final(self).inner == old(self).inner,
            final(self).shared.round_id == old(self).shared.round_id,
            final(self).shared.settings == old(self).shared.settings,
            match final(self).shared.events.params.event {
                crate::events::RoundParamsUpdate::Invalidate => true,
                _ => false,
            },
            match final(self).shared.events.scalar.event {
                crate::events::ScalarUpdate::Invalidate => true,
                _ => false,
            },
            match final(self).shared.events.mask_length.event {
                crate::events::MaskLengthUpdate::Invalidate => true,
                _ => false,
            },
            match final(self).shared.events.model.event {
                crate::events::ModelUpdate::Invalidate => true,
                _ => false,
            },
            match final(self).shared.events.sum_dict.event {
                crate::events::SumDictUpdate::Invalidate => true,
                _ => false,
            },
            match final(self).shared.events.seed_dict.event {
                crate::events::SeedDictUpdate::Invalidate => true,
                _ => false,
            },
    {
        self.shared.events.invalidate_all();
    }

    /// Goes back to the idle phase.
    pub fn next(self) -> (r: PhaseState<Idle>)
        ensures
            r.shared == self.shared,
    {
        PhaseState { inner: Idle {}, shared: self.shared }
    }
}

/// The whole machine: exactly one phase is active.
#[derive(Debug)]
pub enum StateMachine {
    Idle(PhaseState<Idle>),
    Sum(PhaseState<Sum>),
    Update(PhaseState<Update>),
    Sum2(PhaseState<Sum2>),
    Unmask(PhaseState<Unmask>),
    Error(PhaseState<PhaseError>),
    Shutdown(PhaseState<Shutdown>),
}

/// The name of the machine's active phase.
pub open spec fn phase_of(m: StateMachine) -> PhaseName {
    match m {
        StateMachine::Idle(_) => PhaseName::Idle,
        StateMachine::Sum(_) => PhaseName::Sum,
        StateMachine::Update(_) => PhaseName::Update,
        StateMachine::Sum2(_) => PhaseName::Sum2,
        StateMachine::Unmask(_) => PhaseName::Unmask,
        StateMachine::Error(_) => PhaseName::Error,
        StateMachine::Shutdown(_) => PhaseName::Shutdown,
    }
}

/// Whether the active phase accepts this kind of payload at all.
pub open spec fn phase_accepts(m: StateMachine, msg: MessageOwned) -> bool {
    match (m, msg.payload) {
        (StateMachine::Sum(_), PayloadOwned::Sum(_)) => true,
        (StateMachine::Update(_), PayloadOwned::Update(_)) => true,
        (StateMachine::Sum2(_), PayloadOwned::Sum2(_)) => true,
        _ => false,
    }
}

/// Every phase of the machine is well formed.
pub open spec fn machine_wf(m: StateMachine) -> bool {
    match m {
        StateMachine::Idle(s) => s.wf(),
        StateMachine::Sum(s) => s.wf(),
        StateMachine::Update(s) => s.wf(),
        StateMachine::Sum2(s) => s.wf(),
        StateMachine::Unmask(s) => s.wf(),
        StateMachine::Error(s) => s.wf(),
        StateMachine::Shutdown(s) => s.shared.wf(),
    }
}

impl StateMachine {
    /// A fresh machine, idle, ready to open its first round.
    pub fn new(settings: PetSettings) -> (r: StateMachine)
        requires
            settings.wf(),
        ensures
            machine_wf(r),
            phase_of(r) == PhaseName::Idle,
    {
        StateMachine::Idle(PhaseState { inner: Idle {}, shared: Shared::new(settings) })
    }

    /// The name of the active phase.
    pub fn phase(&self) -> (r: PhaseName)
        ensures
            r == phase_of(*self),
    {
        match self {
            StateMachine::Idle(_) => PhaseName::Idle,
            StateMachine::Sum(_) => PhaseName::Sum,
            StateMachine::Update(_) => PhaseName::Update,
            StateMachine::Sum2(_) => PhaseName::Sum2,
            StateMachine::Unmask(_) => PhaseName::Unmask,
            StateMachine::Error(_) => PhaseName::Error,
            StateMachine::Shutdown(_) => PhaseName::Shutdown,
        }
    }

    /// Answers one request. Every message gets exactly one reply, and the
    /// reply is owed: the active collecting phase answers its messages by its
    /// handle relation — an acceptable message is accepted, any other is
    /// rejected for its exact reason — while every other phase rejects every
    /// message untouched. In particular, once the sum phase is over, no sum
    /// message can change the frozen dictionaries.
    pub fn handle(self, msg: &MessageOwned) -> (r: (StateMachine, StateMachineResult))
        requires
            machine_wf(self),
        ensures
            machine_wf(r.0),
            phase_of(r.0) == phase_of(self),
            match self {
                StateMachine::Sum(pre) => match r.0 {
                    StateMachine::Sum(post) => sum_handle_rel(pre, post, *msg, r.1),
                    _ => false,
                },
                StateMachine::Update(pre) => match r.0 {
                    StateMachine::Update(post) => update_handle_rel(pre, post, *msg, r.1),
                    _ => false,
                },
                StateMachine::Sum2(pre) => match r.0 {
                    StateMachine::Sum2(post) => sum2_handle_rel(pre, post, *msg, r.1),
                    _ => false,
                },
                StateMachine::Shutdown(_) => r.0 == self && r.1 == Err::<
                    (),
                    StateMachineError,
                >(StateMachineError::RequestChannelClosed),
                _ => r.0 == self && r.1 == Err::<(), StateMachineError>(
                    StateMachineError::MessageRejected(RejectReason::WrongPhase),
                ),
            },
    {
        match self {
            StateMachine::Sum(mut s) => {
                let rep = s.handle(msg);
                (StateMachine::Sum(s), rep)
            },
            StateMachine::Update(mut s) => {
                let rep = s.handle(msg);
                (StateMachine::Update(s), rep)
            },
            StateMachine::Sum2(mut s) => {
                let rep = s.handle(msg);
                (StateMachine::Sum2(s), rep)
            },
            StateMachine::Shutdown(s) => (
                StateMachine::Shutdown(s),
                Err(StateMachineError::RequestChannelClosed),
            ),
            other => (
                other,
                Err(StateMachineError::MessageRejected(RejectReason::WrongPhase)),
            ),
        }
    }

    /// The started-at time of the active collecting phase, if any.
    pub open spec fn started_at_of(m: StateMachine) -> u64 {
        match m {
            StateMachine::Sum(s) => s.inner.started_at,
            StateMachine::Update(s) => s.inner.started_at,
            StateMachine::Sum2(s) => s.inner.started_at,
            _ => 0,
        }
    }

    /// The shared round counter.
    pub open spec fn round_of(m: StateMachine) -> u64 {
        match m {
            StateMachine::Idle(s) => s.shared.round_id,
            StateMachine::Sum(s) => s.shared.round_id,
            StateMachine::Update(s) => s.shared.round_id,
            StateMachine::Sum2(s) => s.shared.round_id,
            StateMachine::Unmask(s) => s.shared.round_id,
            StateMachine::Error(s) => s.shared.round_id,
            StateMachine::Shutdown(s) => s.shared.round_id,
        }
    }

    /// Advances the machine at a clock tick: Idle opens the round — fresh
    /// parameters published, dictionaries invalidated, the global model kept
    /// — and starts collecting; a collecting phase moves on by the progress
    /// rule, publishing what it froze, or keeps collecting, or fails the
    /// round with its settings and published topics untouched; the error
    /// phase withdraws every published output and restarts; shutdown is
    /// terminal.
    pub fn tick(self, now: u64) -> (r: StateMachine)
        requires
            machine_wf(self),
            now >= StateMachine::started_at_of(self),
            StateMachine::round_of(self) < u64::MAX,
        ensures
            machine_wf(r),
            match self {
                StateMachine::Idle(s) => match r {
                    StateMachine::Sum(s2) => {
                        &&& s2.shared.round_id == s.shared.round_id + 1
                        &&& s2.shared.settings == s.shared.settings
                        &&& s2.inner.sum_dict.entries@.len() == 0
                        &&& s2.inner.started_at == now
                        &&& match s2.shared.events.params.event {
                            crate::events::RoundParamsUpdate::New(p) => p.same(
                                &s2.shared.round_params,
                            ),
                            _ => false,
                        }
                        &&& s2.shared.events.model == s.shared.events.model
                    },
                    _ => false,
                },
                StateMachine::Sum(s) => match progress_spec(
                    s.inner.sum_dict.entries@.len() as nat,
                    s.shared.settings.min_sum as nat,
                    (now - s.inner.started_at) as nat,
                    s.shared.settings.min_sum_time as nat,
                    s.shared.settings.max_sum_time as nat,
                ) {
                    PhaseDecision::Pending => r == StateMachine::Sum(s),
                    PhaseDecision::Proceed => match r {
                        StateMachine::Update(u) => {
                            &&& u.shared.round_id == s.shared.round_id
                            &&& u.shared.settings == s.shared.settings
                            &&& u.inner.frozen_sum_dict.view_map() == s.inner.sum_dict.view_map()
                            &&& seed_dict_consistent(
                                u.inner.seed_dict.view_map(),
                                u.inner.frozen_sum_dict.view_map().dom(),
                            )
                            &&& u.inner.started_at == now
                            &&& match u.shared.events.sum_dict.event {
                                crate::events::SumDictUpdate::New(d) => d.view_map()
                                    == s.inner.sum_dict.view_map(),
                                _ => false,
                            }
                        },
                        _ => false,
                    },
                    PhaseDecision::Fail => match r {
                        StateMachine::Error(e) => e.inner.error
                            == RoundFailed::InsufficientParticipants && e.shared == s.shared,
                        _ => false,
                    },
                },
                StateMachine::Update(s) => match progress_spec(
                    s.inner.aggregation.nb_models as nat,
                    s.shared.settings.min_update as nat,
                    (now - s.inner.started_at) as nat,
                    s.shared.settings.min_update_time as nat,
                    s.shared.settings.max_update_time as nat,
                ) {
                    PhaseDecision::Pending => r == StateMachine::Update(s),
                    PhaseDecision::Proceed => match r {
                        StateMachine::Sum2(u) => {
                            &&& u.shared.round_id == s.shared.round_id
                            &&& u.shared.settings == s.shared.settings
                            &&& u.inner.frozen_sum_dict == s.inner.frozen_sum_dict
                            &&& u.inner.model_agg == s.inner.aggregation
                            &&& u.inner.accepted == 0
                            &&& u.inner.started_at == now
                            &&& seed_dict_consistent(
                                s.inner.seed_dict.view_map(),
                                s.inner.frozen_sum_dict.view_map().dom(),
                            )
                            &&& match u.shared.events.seed_dict.event {
                                crate::events::SeedDictUpdate::New(d) => d.view_map()
                                    == s.inner.seed_dict.view_map(),
                                _ => false,
                            }
                        },
                        _ => false,
                    },
                    PhaseDecision::Fail => match r {
                        StateMachine::Error(e) => e.inner.error
                            == RoundFailed::InsufficientParticipants && e.shared == s.shared,
                        _ => false,
                    },
                },
                StateMachine::Sum2(s) => match progress_spec(
                    s.inner.accepted as nat,
                    s.shared.settings.min_sum2 as nat,
                    (now - s.inner.started_at) as nat,
                    s.shared.settings.min_sum2_time as nat,
                    s.shared.settings.max_sum2_time as nat,
                ) {
                    PhaseDecision::Pending => r == StateMachine::Sum2(s),
                    PhaseDecision::Proceed => match r {
                        StateMachine::Idle(i) => {
                            &&& i.shared.round_id == s.shared.round_id
                            &&& i.shared.settings == s.shared.settings
                            &&& match i.shared.events.model.event {
                                crate::events::ModelUpdate::New(g) => unmasked_ok(
                                    s.inner.model_agg,
                                    s.inner.mask_dict@,
                                    g,
                                ),
                                _ => false,
                            }
                        },
                        StateMachine::Error(e) => {
                            &&& (e.inner.error == RoundFailed::AmbiguousMasks || e.inner.error
                                == RoundFailed::NoMask)
                            &&& e.shared == s.shared
                        },
                        _ => false,
                    },
                    PhaseDecision::Fail => match r {
                        StateMachine::Error(e) => e.inner.error
                            == RoundFailed::InsufficientParticipants && e.shared == s.shared,
                        _ => false,
                    },
                },
                StateMachine::Unmask(s) => match r {
                    StateMachine::Idle(i) => i.shared == s.shared,
                    _ => false,
                },
                StateMachine::Error(s) => match r {
                    StateMachine::Idle(i) => {
                        &&& i.shared.round_id == s.shared.round_id
                        &&& i.shared.settings == s.shared.settings
                        &&& match i.shared.events.params.event {
                            crate::events::RoundParamsUpdate::Invalidate => true,
                            _ => false,
                        }
                        &&& match i.shared.events.scalar.event {
                            crate::events::ScalarUpdate::Invalidate => true,
                            _ => false,
                        }
                        &&& match i.shared.events.mask_length.event {
                            crate::events::MaskLengthUpdate::Invalidate => true,
                            _ => false,
                        }
                        &&& match i.shared.events.model.event {
                            crate::events::ModelUpdate::Invalidate => true,
                            _ => false,
                        }
                        &&& match i.shared.events.sum_dict.event {
                            crate::events::SumDictUpdate::Invalidate => true,
                            _ => false,
                        }
                        &&& match i.shared.events.seed_dict.event {
                            crate::events::SeedDictUpdate::Invalidate => true,
                            _ => false,
                        }
                    },
                    _ => false,
                },
                StateMachine::Shutdown(s) => r == StateMachine::Shutdown(s),
            },
    {
        match self {
            StateMachine::Idle(mut s) => {
                let ghost pre = s;
                proof {
                    assert(self == StateMachine::Idle(pre));
                }
                s.run();
                let next = StateMachine::Sum(s.next(now));
                proof {
                    assert(match next {
                        StateMachine::Sum(s2) => {
                            &&& s2.shared.round_id == pre.shared.round_id + 1
                            &&& s2.shared.settings == pre.shared.settings
                            &&& s2.inner.sum_dict.entries@.len() == 0
                            &&& s2.inner.started_at == now
                            &&& match s2.shared.events.params.event {
                                crate::events::RoundParamsUpdate::New(p) => p.same(
                                    &s2.shared.round_params,
                                ),
                                _ => false,
                            }
                            &&& s2.shared.events.model == pre.shared.events.model
                        },
                        _ => false,
                    });
                }
                next
            },
            StateMachine::Sum(s) => match s.progress(now) {
                PhaseDecision::Pending => StateMachine::Sum(s),
                PhaseDecision::Proceed => StateMachine::Update(s.next(now)),
                PhaseDecision::Fail => StateMachine::Error(
                    PhaseState {
                        inner: PhaseError { error: RoundFailed::InsufficientParticipants },
                        shared: s.shared,
                    },
                ),
            },
            StateMachine::Update(s) => match s.progress(now) {
                PhaseDecision::Pending => StateMachine::Update(s),
                PhaseDecision::Proceed => StateMachine::Sum2(s.next(now)),
                PhaseDecision::Fail => StateMachine::Error(
                    PhaseState {
                        inner: PhaseError { error: RoundFailed::InsufficientParticipants },
                        shared: s.shared,
                    },
                ),
            },
            StateMachine::Sum2(s) => match s.progress(now) {
                PhaseDecision::Pending => StateMachine::Sum2(s),
                PhaseDecision::Proceed => {
                    let (mut u, masks) = s.next(now);
                    match u.run(&masks) {
                        Ok(()) => StateMachine::Idle(u.next()),
                        Err(e) => StateMachine::Error(
                            PhaseState { inner: PhaseError { error: e }, shared: u.shared },
                        ),
                    }
                },
                PhaseDecision::Fail => StateMachine::Error(
                    PhaseState {
                        inner: PhaseError { error: RoundFailed::InsufficientParticipants },
                        shared: s.shared,
                    },
                ),
            },
            StateMachine::Unmask(s) => StateMachine::Idle(s.next()),
            StateMachine::Error(mut s) => {
                s.run();
                StateMachine::Idle(s.next())
            },
            StateMachine::Shutdown(s) => StateMachine::Shutdown(s),
        }
    }

    /// Ends the machine: the request channel closed.
    pub fn shut_down(self) -> (r: StateMachine)
        requires
            machine_wf(self),
        ensures
            machine_wf(r),
            phase_of(r) == PhaseName::Shutdown,
    {
        match self {
            StateMachine::Idle(s) => StateMachine::Shutdown(
                PhaseState { inner: Shutdown {}, shared: s.shared },
            ),
            StateMachine::Sum(s) => StateMachine::Shutdown(
                PhaseState { inner: Shutdown {}, shared: s.shared },
            ),
            StateMachine::Update(s) => StateMachine::Shutdown(
                PhaseState { inner: Shutdown {}, shared: s.shared },
            ),
            StateMachine::Sum2(s) => StateMachine::Shutdown(
                PhaseState { inner: Shutdown {}, shared: s.shared },
            ),
            StateMachine::Unmask(s) => StateMachine::Shutdown(
                PhaseState { inner: Shutdown {}, shared: s.shared },
            ),
            StateMachine::Error(s) => StateMachine::Shutdown(
                PhaseState { inner: Shutdown {}, shared: s.shared },
            ),
            StateMachine::Shutdown(s) => StateMachine::Shutdown(s),
        }
    }
}

} // verus!
