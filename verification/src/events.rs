//! The event bus.
//!
//! One single-writer broadcast cell per topic: round parameters, scalar, sum
//! dictionary, seed dictionary, mask length and global model. Each payload is
//! either a fresh value or an invalidation; readers see the latest write of a
//! topic, stamped with the round it belongs to. No ordering across topics is
//! promised: a reader who needs two topics of one round must compare the
//! stamps.

use vstd::prelude::*;
use crate::dict::{ByteDict, SeedDict};
use crate::masks::{MaskObject, object_eq};
use crate::crypto::Ratio;
use crate::config::MaskConfig;

verus! {

/// The masking scalar, carried opaquely as an IEEE-754 bit pattern. The
/// verified core never interprets it; the boundary converts.
#[derive(Clone, Copy, PartialEq, Eq, Structural, Debug)]
pub struct Scalar {
    pub bits: u64,
}

/// The parameters of one round, computed at its start and frozen.
#[derive(Debug)]
pub struct RoundParams {
    pub coordinator_pk: Vec<u8>,
    pub round_seed: Vec<u8>,
    pub sum_ratio: Ratio,
    pub update_ratio: Ratio,
    pub mask_config: MaskConfig,
    pub model_length: usize,
}

impl RoundParams {
    pub open spec fn wf(&self) -> bool {
        &&& self.coordinator_pk@.len() == 32
        &&& self.round_seed@.len() == 32
        &&& self.sum_ratio.wf()
        &&& self.update_ratio.wf()
        &&& self.model_length < 0x100000000
    }

    /// Equality of round parameters as values.
    pub open spec fn same(&self, other: &RoundParams) -> bool {
        &&& self.coordinator_pk@ == other.coordinator_pk@
        &&& self.round_seed@ == other.round_seed@
        &&& self.sum_ratio == other.sum_ratio
        &&& self.update_ratio == other.update_ratio
        &&& self.mask_config == other.mask_config
        &&& self.model_length == other.model_length
    }

    /// A verified copy.
    pub fn duplicate(&self) -> (r: RoundParams)
        ensures
            r.same(self),
            self.wf() ==> r.wf(),
    {
        RoundParams {
            coordinator_pk: crate::bytes::copy_bytes(&self.coordinator_pk),
            round_seed: crate::bytes::copy_bytes(&self.round_seed),
            sum_ratio: self.sum_ratio,
            update_ratio: self.update_ratio,
            mask_config: self.mask_config,
            model_length: self.model_length,
        }
    }
}

/// The outcome of a finished round: the per-weight sums of the plaintext
/// models, as residues of the round's group, and how many models were
/// summed. Scaling into real numbers happens outside the verified core.
#[derive(Debug)]
pub struct GlobalModel {
    pub object: MaskObject,
    pub nb_models: usize,
}

impl GlobalModel {
    pub fn duplicate(&self) -> (r: GlobalModel)
        ensures
            object_eq(r.object, self.object),
            r.nb_models == self.nb_models,
    {
        GlobalModel { object: self.object.duplicate(), nb_models: self.nb_models }
    }
}

/// The round parameters topic.
#[derive(Debug)]
pub enum RoundParamsUpdate {
    Invalidate,
    New(RoundParams),
}

/// The scalar topic.
#[derive(Clone, Copy, PartialEq, Eq, Structural, Debug)]
pub enum ScalarUpdate {
    Invalidate,
    New(Scalar),
}

/// The mask length topic.
#[derive(Clone, Copy, PartialEq, Eq, Structural, Debug)]
pub enum MaskLengthUpdate {
    Invalidate,
    New(u64),
}

/// The global model topic.
#[derive(Debug)]
pub enum ModelUpdate {
    Invalidate,
    New(GlobalModel),
}

/// The sum dictionary topic.
#[derive(Debug)]
pub enum SumDictUpdate {
    Invalidate,
    New(ByteDict),
}

/// The seed dictionary topic.
#[derive(Debug)]
pub enum SeedDictUpdate {
    Invalidate,
    New(SeedDict),
}

/// A topic payload together with the round it was published in.
#[derive(Clone, Copy, Debug)]
pub struct Event<T> {
    pub round_id: u64,
    pub event: T,
}

/// The reader's handle on one topic: the latest value it has seen.
#[derive(Debug)]
pub struct EventListener<T> {
    pub latest: Event<T>,
}

/// The writer side of the bus: the latest value of every topic.
#[derive(Debug)]
pub struct EventPublisher {
    pub round_id: u64,
    pub params: Event<RoundParamsUpdate>,
    pub scalar: Event<ScalarUpdate>,
    pub mask_length: Event<MaskLengthUpdate>,
    pub model: Event<ModelUpdate>,
    pub sum_dict: Event<SumDictUpdate>,
    pub seed_dict: Event<SeedDictUpdate>,
}

impl EventPublisher {
    /// A fresh bus: every topic starts invalidated.
    pub fn init() -> (r: EventPublisher)
        ensures
            r.round_id == 0,
            matches!(r.params.event, RoundParamsUpdate::Invalidate),
            matches!(r.scalar.event, ScalarUpdate::Invalidate),
            matches!(r.mask_length.event, MaskLengthUpdate::Invalidate),
            matches!(r.model.event, ModelUpdate::Invalidate),
            matches!(r.sum_dict.event, SumDictUpdate::Invalidate),
            matches!(r.seed_dict.event, SeedDictUpdate::Invalidate),
    {
        EventPublisher {
            round_id: 0,
            params: Event { round_id: 0, event: RoundParamsUpdate::Invalidate },
            scalar: Event { round_id: 0, event: ScalarUpdate::Invalidate },
            mask_length: Event { round_id: 0, event: MaskLengthUpdate::Invalidate },
            model: Event { round_id: 0, event: ModelUpdate::Invalidate },
            sum_dict: Event { round_id: 0, event: SumDictUpdate::Invalidate },
            seed_dict: Event { round_id: 0, event: SeedDictUpdate::Invalidate },
        }
    }

    /// Opens a round: bumps the stamp and publishes its parameters.
    pub fn broadcast_params(&mut self, round_id: u64, params: RoundParams)
        ensures
            final(self).round_id == round_id,
            final(self).params.round_id == round_id,
            match final(self).params.event { RoundParamsUpdate::New(p) => p.same(&params), _ => false },
            final(self).scalar == old(self).scalar,
            final(self).mask_length == old(self).mask_length,
            final(self).model == old(self).model,
            final(self).sum_dict == old(self).sum_dict,
            final(self).seed_dict == old(self).seed_dict,
    {
        self.round_id = round_id;
        self.params = Event { round_id, event: RoundParamsUpdate::New(params) };
    }

    /// Publishes the round's masking scalar.
    pub fn broadcast_scalar(&mut self, scalar: Scalar)
        ensures
            *final(self) == (EventPublisher {
                scalar: Event {
                    round_id: old(self).round_id,
                    event: ScalarUpdate::New(scalar),
                },
                ..*old(self)
            }),
    {
        self.scalar = Event { round_id: self.round_id, event: ScalarUpdate::New(scalar) };
    }

    /// Publishes the round's mask length.
    pub fn broadcast_mask_length(&mut self, length: u64)
        ensures
            *final(self) == (EventPublisher {
                mask_length: Event {
                    round_id: old(self).round_id,
                    event: MaskLengthUpdate::New(length),
                },
                ..*old(self)
            }),
    {
        self.mask_length = Event {
            round_id: self.round_id,
            event: MaskLengthUpdate::New(length),
        };
    }

    /// Publishes the frozen sum dictionary.
    pub fn broadcast_sum_dict(&mut self, dict: ByteDict)
        ensures
            final(self).sum_dict.round_id == old(self).round_id,
            match final(self).sum_dict.event { SumDictUpdate::New(d) => d == dict, _ => false },
            final(self).round_id == old(self).round_id,
            final(self).params == old(self).params,
            final(self).scalar == old(self).scalar,
            final(self).mask_length == old(self).mask_length,
            final(self).model == old(self).model,
            final(self).seed_dict == old(self).seed_dict,
    {
        self.sum_dict = Event { round_id: self.round_id, event: SumDictUpdate::New(dict) };
    }

    /// Publishes the frozen seed dictionary.
    pub fn broadcast_seed_dict(&mut self, dict: SeedDict)
        ensures
            final(self).seed_dict.round_id == old(self).round_id,
            match final(self).seed_dict.event { SeedDictUpdate::New(d) => d == dict, _ => false },
            final(self).round_id == old(self).round_id,
            final(self).params == old(self).params,
            final(self).scalar == old(self).scalar,
            final(self).mask_length == old(self).mask_length,
            final(self).model == old(self).model,
            final(self).sum_dict == old(self).sum_dict,
    {
        self.seed_dict = Event { round_id: self.round_id, event: SeedDictUpdate::New(dict) };
    }

    /// Publishes a new global model.
    pub fn broadcast_model(&mut self, model: GlobalModel)
        ensures
            final(self).model.round_id == old(self).round_id,
            match final(self).model.event { ModelUpdate::New(m) => m == model, _ => false },
            final(self).round_id == old(self).round_id,
            final(self).params == old(self).params,
            final(self).scalar == old(self).scalar,
            final(self).mask_length == old(self).mask_length,
            final(self).sum_dict == old(self).sum_dict,
            final(self).seed_dict == old(self).seed_dict,
    {
        self.model = Event { round_id: self.round_id, event: ModelUpdate::New(model) };
    }

    /// Invalidates the per-round outputs — dictionaries, scalar and mask
    /// length — when a new round opens. The global model is not touched: it
    /// persists until the next round replaces it.
    pub fn invalidate_round_outputs(&mut self)
        ensures
            final(self).round_id == old(self).round_id,
            final(self).params == old(self).params,
            final(self).model == old(self).model,
            final(self).scalar.round_id == old(self).round_id,
            final(self).mask_length.round_id == old(self).round_id,
            final(self).sum_dict.round_id == old(self).round_id,
            final(self).seed_dict.round_id == old(self).round_id,
            match final(self).scalar.event { ScalarUpdate::Invalidate => true, _ => false },
            match final(self).mask_length.event { MaskLengthUpdate::Invalidate => true, _ => false },
            match final(self).sum_dict.event { SumDictUpdate::Invalidate => true, _ => false },
            match final(self).seed_dict.event { SeedDictUpdate::Invalidate => true, _ => false },
    {
        let round_id = self.round_id;
        self.scalar = Event { round_id, event: ScalarUpdate::Invalidate };
        self.mask_length = Event { round_id, event: MaskLengthUpdate::Invalidate };
        self.sum_dict = Event { round_id, event: SumDictUpdate::Invalidate };
        self.seed_dict = Event { round_id, event: SeedDictUpdate::Invalidate };
    }

    /// Invalidates every topic at once: what a failed round leaves behind.
    pub fn invalidate_all(&mut self)
        ensures
            final(self).round_id == old(self).round_id,
            final(self).params.round_id == old(self).round_id,
            final(self).scalar.round_id == old(self).round_id,
            final(self).mask_length.round_id == old(self).round_id,
            final(self).model.round_id == old(self).round_id,
            final(self).sum_dict.round_id == old(self).round_id,
            final(self).seed_dict.round_id == old(self).round_id,
            match final(self).params.event { RoundParamsUpdate::Invalidate => true, _ => false },
            match final(self).scalar.event { ScalarUpdate::Invalidate => true, _ => false },
            match final(self).mask_length.event { MaskLengthUpdate::Invalidate => true, _ => false },
            match final(self).model.event { ModelUpdate::Invalidate => true, _ => false },
            match final(self).sum_dict.event { SumDictUpdate::Invalidate => true, _ => false },
            match final(self).seed_dict.event { SeedDictUpdate::Invalidate => true, _ => false },
    {
        let round_id = self.round_id;
        self.params = Event { round_id, event: RoundParamsUpdate::Invalidate };
        self.scalar = Event { round_id, event: ScalarUpdate::Invalidate };
        self.mask_length = Event { round_id, event: MaskLengthUpdate::Invalidate };
        self.model = Event { round_id, event: ModelUpdate::Invalidate };
        self.sum_dict = Event { round_id, event: SumDictUpdate::Invalidate };
        self.seed_dict = Event { round_id, event: SeedDictUpdate::Invalidate };
    }
}

} // verus!
