//! The fetcher services.
//!
//! Six read-only services answer participant queries, one per event-bus
//! topic. Each service owns a listener on its topic and never touches the
//! primary state: its answer is the latest published value, or nothing when
//! the topic stands invalidated. The boundary refreshes the listeners after
//! the machine publishes.

use vstd::prelude::*;
use crate::events::{Event, EventListener, EventPublisher, RoundParams, RoundParamsUpdate, Scalar,
    ScalarUpdate, MaskLengthUpdate, ModelUpdate, SumDictUpdate, SeedDictUpdate, GlobalModel};
use crate::dict::{ByteDict, SeedDict};

verus! {

/// An error a fetcher reports, with what failed.
#[derive(Debug)]
pub struct FetchError {
    pub reason: String,
}

/// Wraps a service failure's description into a fetch error.
pub fn into_fetch_error(reason: String) -> (r: FetchError)
    ensures
        r.reason@ == reason@,
{
    FetchError { reason }
}

/// A read-only snapshot of every topic, handed to the services.
#[derive(Debug)]
pub struct EventSubscriber {
    pub params: Event<RoundParamsUpdate>,
    pub scalar: Event<ScalarUpdate>,
    pub mask_length: Event<MaskLengthUpdate>,
    pub model: Event<ModelUpdate>,
    pub sum_dict: Event<SumDictUpdate>,
    pub seed_dict: Event<SeedDictUpdate>,
}

/// Value equality of round-parameter events.
pub open spec fn params_event_same(a: Event<RoundParamsUpdate>, b: Event<RoundParamsUpdate>) -> bool {
    &&& a.round_id == b.round_id
    &&& match (a.event, b.event) {
        (RoundParamsUpdate::Invalidate, RoundParamsUpdate::Invalidate) => true,
        (RoundParamsUpdate::New(x), RoundParamsUpdate::New(y)) => x.same(&y),
        _ => false,
    }
}

/// Value equality of model events.
pub open spec fn model_event_same(a: Event<ModelUpdate>, b: Event<ModelUpdate>) -> bool {
    &&& a.round_id == b.round_id
    &&& match (a.event, b.event) {
        (ModelUpdate::Invalidate, ModelUpdate::Invalidate) => true,
        (ModelUpdate::New(x), ModelUpdate::New(y)) => crate::masks::object_eq(x.object, y.object)
            && x.nb_models == y.nb_models,
        _ => false,
    }
}

/// Value equality of sum dictionary events.
pub open spec fn sum_dict_event_same(a: Event<SumDictUpdate>, b: Event<SumDictUpdate>) -> bool {
    &&& a.round_id == b.round_id
    &&& match (a.event, b.event) {
        (SumDictUpdate::Invalidate, SumDictUpdate::Invalidate) => true,
        (SumDictUpdate::New(x), SumDictUpdate::New(y)) => x.view_map() == y.view_map(),
        _ => false,
    }
}

/// Value equality of seed dictionary events.
pub open spec fn seed_dict_event_same(a: Event<SeedDictUpdate>, b: Event<SeedDictUpdate>) -> bool {
    &&& a.round_id == b.round_id
    &&& match (a.event, b.event) {
        (SeedDictUpdate::Invalidate, SeedDictUpdate::Invalidate) => true,
        (SeedDictUpdate::New(x), SeedDictUpdate::New(y)) => x.view_map() == y.view_map(),
        _ => false,
    }
}

impl EventPublisher {
    /// A snapshot of every topic's latest value.
    pub fn subscribe(&self) -> (r: EventSubscriber)
        ensures
            params_event_same(r.params, self.params),
            r.scalar == self.scalar,
            r.mask_length == self.mask_length,
            model_event_same(r.model, self.model),
            sum_dict_event_same(r.sum_dict, self.sum_dict),
            seed_dict_event_same(r.seed_dict, self.seed_dict),
    {
        let params = match &self.params.event {
            RoundParamsUpdate::Invalidate => Event {
                round_id: self.params.round_id,
                event: RoundParamsUpdate::Invalidate,
            },
            RoundParamsUpdate::New(p) => Event {
                round_id: self.params.round_id,
                event: RoundParamsUpdate::New(p.duplicate()),
            },
        };
        let model = match &self.model.event {
            ModelUpdate::Invalidate => Event {
                round_id: self.model.round_id,
                event: ModelUpdate::Invalidate,
            },
            ModelUpdate::New(g) => Event {
                round_id: self.model.round_id,
                event: ModelUpdate::New(g.duplicate()),
            },
        };
        let sum_dict = match &self.sum_dict.event {
            SumDictUpdate::Invalidate => Event {
                round_id: self.sum_dict.round_id,
                event: SumDictUpdate::Invalidate,
            },
            SumDictUpdate::New(d) => Event {
                round_id: self.sum_dict.round_id,
                event: SumDictUpdate::New(d.duplicate()),
            },
        };
        let seed_dict = match &self.seed_dict.event {
            SeedDictUpdate::Invalidate => Event {
                round_id: self.seed_dict.round_id,
                event: SeedDictUpdate::Invalidate,
            },
            SeedDictUpdate::New(d) => Event {
                round_id: self.seed_dict.round_id,
                event: SeedDictUpdate::New(d.duplicate()),
            },
        };
        EventSubscriber {
            params,
            scalar: self.scalar,
            mask_length: self.mask_length,
            model,
            sum_dict,
            seed_dict,
        }
    }
}

/// The scalar service's request type.
#[derive(Default, Clone, Copy, PartialEq, Eq, Structural, Debug)]
pub struct ScalarRequest;

/// Serves the masking scalar of the current round.
#[derive(Debug)]
pub struct ScalarService(pub EventListener<ScalarUpdate>);

impl ScalarService {
    pub fn new(events: &EventSubscriber) -> (r: ScalarService)
        ensures
            r.0.latest == events.scalar,
    {
        ScalarService(EventListener { latest: events.scalar })
    }

    /// The latest scalar, or nothing while the topic is invalidated.
    pub fn call(&mut self, _req: ScalarRequest) -> (r: Option<Scalar>)
        ensures
            r == match final(self).0.latest.event {
                ScalarUpdate::Invalidate => None::<Scalar>,
                ScalarUpdate::New(s) => Some(s),
            },
            *final(self) == *old(self),
    {
        match self.0.latest.event {
            ScalarUpdate::Invalidate => None,
            ScalarUpdate::New(s) => Some(s),
        }
    }

    /// Adopts the latest published value.
    pub fn refresh(&mut self, events: &EventSubscriber)
        ensures
            final(self).0.latest == events.scalar,
    {
        self.0.latest = Event { round_id: events.scalar.round_id, event: events.scalar.event };
    }
}

/// Serves the parameters of the current round.
#[derive(Debug)]
pub struct RoundParamsService(pub EventListener<RoundParamsUpdate>);

impl RoundParamsService {
    pub fn new(events: &EventSubscriber) -> (r: RoundParamsService)
        ensures
            params_event_same(r.0.latest, events.params),
    {
        RoundParamsService(EventListener { latest: dup_params_event(&events.params) })
    }

    /// The latest round parameters, or nothing while invalidated.
    pub fn call(&mut self) -> (r: Option<RoundParams>)
        ensures
            match final(self).0.latest.event {
                RoundParamsUpdate::Invalidate => r is None,
                RoundParamsUpdate::New(p) => match r {
                    Some(q) => q.same(&p),
                    None => false,
                },
            },
            *final(self) == *old(self),
    {
        match &self.0.latest.event {
            RoundParamsUpdate::Invalidate => None,
            RoundParamsUpdate::New(p) => Some(p.duplicate()),
        }
    }

    /// Adopts the latest published value.
    pub fn refresh(&mut self, events: &EventSubscriber)
        ensures
            params_event_same(final(self).0.latest, events.params),
    {
        self.0.latest = dup_params_event(&events.params);
    }
}

/// A verified copy of a round-parameters event.
fn dup_params_event(e: &Event<RoundParamsUpdate>) -> (r: Event<RoundParamsUpdate>)
    ensures
        params_event_same(r, *e),
{
    match &e.event {
        RoundParamsUpdate::Invalidate => Event {
            round_id: e.round_id,
            event: RoundParamsUpdate::Invalidate,
        },
        RoundParamsUpdate::New(p) => Event {
            round_id: e.round_id,
            event: RoundParamsUpdate::New(p.duplicate()),
        },
    }
}

/// Serves the mask length of the current round.
#[derive(Debug)]
pub struct MaskLengthService(pub EventListener<MaskLengthUpdate>);

impl MaskLengthService {
    pub fn new(events: &EventSubscriber) -> (r: MaskLengthService)
        ensures
            r.0.latest == events.mask_length,
    {
        MaskLengthService(EventListener { latest: events.mask_length })
    }

    /// The latest mask length, or nothing while invalidated.
    pub fn call(&mut self) -> (r: Option<u64>)
        ensures
            r == match final(self).0.latest.event {
                MaskLengthUpdate::Invalidate => None::<u64>,
                MaskLengthUpdate::New(n) => Some(n),
            },
            *final(self) == *old(self),
    {
        match self.0.latest.event {
            MaskLengthUpdate::Invalidate => None,
            MaskLengthUpdate::New(n) => Some(n),
        }
    }

    /// Adopts the latest published value.
    pub fn refresh(&mut self, events: &EventSubscriber)
        ensures
            final(self).0.latest == events.mask_length,
    {
        self.0.latest = Event {
            round_id: events.mask_length.round_id,
            event: events.mask_length.event,
        };
    }
}

/// Serves the latest global model.
#[derive(Debug)]
pub struct ModelService(pub EventListener<ModelUpdate>);

impl ModelService {
    pub fn new(events: &EventSubscriber) -> (r: ModelService)
        ensures
            model_event_same(r.0.latest, events.model),
    {
        ModelService(EventListener { latest: dup_model_event(&events.model) })
    }

    /// The latest global model, or nothing while invalidated.
    pub fn call(&mut self) -> (r: Option<GlobalModel>)
        ensures
            match final(self).0.latest.event {
                ModelUpdate::Invalidate => r is None,
                ModelUpdate::New(g) => match r {
                    Some(h) => crate::masks::object_eq(h.object, g.object) && h.nb_models
                        == g.nb_models,
                    None => false,
                },
            },
            *final(self) == *old(self),
    {
        match &self.0.latest.event {
            ModelUpdate::Invalidate => None,
            ModelUpdate::New(g) => Some(g.duplicate()),
        }
    }

    /// Adopts the latest published value.
    pub fn refresh(&mut self, events: &EventSubscriber)
        ensures
            model_event_same(final(self).0.latest, events.model),
    {
        self.0.latest = dup_model_event(&events.model);
    }
}

/// A verified copy of a model event.
fn dup_model_event(e: &Event<ModelUpdate>) -> (r: Event<ModelUpdate>)
    ensures
        model_event_same(r, *e),
{
    match &e.event {
        ModelUpdate::Invalidate => Event { round_id: e.round_id, event: ModelUpdate::Invalidate },
        ModelUpdate::New(g) => Event {
            round_id: e.round_id,
            event: ModelUpdate::New(g.duplicate()),
        },
    }
}

/// Serves the frozen sum dictionary.
#[derive(Debug)]
pub struct SumDictService(pub EventListener<SumDictUpdate>);

impl SumDictService {
    pub fn new(events: &EventSubscriber) -> (r: SumDictService)
        ensures
            sum_dict_event_same(r.0.latest, events.sum_dict),
    {
        SumDictService(EventListener { latest: dup_sum_dict_event(&events.sum_dict) })
    }

    /// The latest sum dictionary, or nothing while invalidated.
    pub fn call(&mut self) -> (r: Option<ByteDict>)
        ensures
            match final(self).0.latest.event {
                SumDictUpdate::Invalidate => r is None,
                SumDictUpdate::New(d) => match r {
                    Some(e) => e.view_map() == d.view_map(),
                    None => false,
                },
            },
            *final(self) == *old(self),
    {
        match &self.0.latest.event {
            SumDictUpdate::Invalidate => None,
            SumDictUpdate::New(d) => Some(d.duplicate()),
        }
    }

    /// Adopts the latest published value.
    pub fn refresh(&mut self, events: &EventSubscriber)
        ensures
            sum_dict_event_same(final(self).0.latest, events.sum_dict),
    {
        self.0.latest = dup_sum_dict_event(&events.sum_dict);
    }
}

/// A verified copy of a sum dictionary event.
fn dup_sum_dict_event(e: &Event<SumDictUpdate>) -> (r: Event<SumDictUpdate>)
    ensures
        sum_dict_event_same(r, *e),
{
    match &e.event {
        SumDictUpdate::Invalidate => Event {
            round_id: e.round_id,
            event: SumDictUpdate::Invalidate,
        },
        SumDictUpdate::New(d) => Event {
            round_id: e.round_id,
            event: SumDictUpdate::New(d.duplicate()),
        },
    }
}

/// Serves the frozen seed dictionary.
#[derive(Debug)]
pub struct SeedDictService(pub EventListener<SeedDictUpdate>);

impl SeedDictService {
    pub fn new(events: &EventSubscriber) -> (r: SeedDictService)
        ensures
            seed_dict_event_same(r.0.latest, events.seed_dict),
    {
        SeedDictService(EventListener { latest: dup_seed_dict_event(&events.seed_dict) })
    }

    /// The latest seed dictionary, or nothing while invalidated.
    pub fn call(&mut self) -> (r: Option<SeedDict>)
        ensures
            match final(self).0.latest.event {
                SeedDictUpdate::Invalidate => r is None,
                SeedDictUpdate::New(d) => match r {
                    Some(e) => e.view_map() == d.view_map(),
                    None => false,
                },
            },
            *final(self) == *old(self),
    {
        match &self.0.latest.event {
            SeedDictUpdate::Invalidate => None,
            SeedDictUpdate::New(d) => Some(d.duplicate()),
        }
    }

    /// Adopts the latest published value.
    pub fn refresh(&mut self, events: &EventSubscriber)
        ensures
            seed_dict_event_same(final(self).0.latest, events.seed_dict),
    {
        self.0.latest = dup_seed_dict_event(&events.seed_dict);
    }
}

/// A verified copy of a seed dictionary event.
fn dup_seed_dict_event(e: &Event<SeedDictUpdate>) -> (r: Event<SeedDictUpdate>)
    ensures
        seed_dict_event_same(r, *e),
{
    match &e.event {
        SeedDictUpdate::Invalidate => Event {
            round_id: e.round_id,
            event: SeedDictUpdate::Invalidate,
        },
        SeedDictUpdate::New(d) => Event {
            round_id: e.round_id,
            event: SeedDictUpdate::New(d.duplicate()),
        },
    }
}

/// A single interface for retrieving the coordinator's published data.
#[derive(Debug)]
pub struct Fetchers {
    pub round_params: RoundParamsService,
    pub sum_dict: SumDictService,
    pub seed_dict: SeedDictService,
    pub mask_length: MaskLengthService,
    pub scalar: ScalarService,
    pub model: ModelService,
}

impl Fetchers {
    pub fn new(
        round_params: RoundParamsService,
        sum_dict: SumDictService,
        seed_dict: SeedDictService,
        mask_length: MaskLengthService,
        scalar: ScalarService,
        model: ModelService,
    ) -> (r: Fetchers)
        ensures
            r.round_params == round_params,
            r.sum_dict == sum_dict,
            r.seed_dict == seed_dict,
            r.mask_length == mask_length,
            r.scalar == scalar,
            r.model == model,
    {
        Fetchers { round_params, sum_dict, seed_dict, mask_length, scalar, model }
    }

    /// Fetches the parameters of the current round.
    pub fn round_params(&mut self) -> (r: Option<RoundParams>)
        ensures
            *final(self) == *old(self),
            match final(self).round_params.0.latest.event {
                RoundParamsUpdate::Invalidate => r is None,
                RoundParamsUpdate::New(p) => match r {
                    Some(q) => q.same(&p),
                    None => false,
                },
            },
    {
        self.round_params.call()
    }

    /// Fetches the mask length of the current round.
    pub fn mask_length(&mut self) -> (r: Option<u64>)
        ensures
            *final(self) == *old(self),
            r == match final(self).mask_length.0.latest.event {
                MaskLengthUpdate::Invalidate => None::<u64>,
                MaskLengthUpdate::New(n) => Some(n),
            },
    {
        self.mask_length.call()
    }

    /// Fetches the masking scalar of the current round.
    pub fn scalar(&mut self) -> (r: Option<Scalar>)
        ensures
            *final(self) == *old(self),
            r == match final(self).scalar.0.latest.event {
                ScalarUpdate::Invalidate => None::<Scalar>,
                ScalarUpdate::New(s) => Some(s),
            },
    {
        self.scalar.call(ScalarRequest)
    }

    /// Fetches the latest global model.
    pub fn model(&mut self) -> (r: Option<GlobalModel>)
        ensures
            *final(self) == *old(self),
            match final(self).model.0.latest.event {
                ModelUpdate::Invalidate => r is None,
                ModelUpdate::New(g) => match r {
                    Some(h) => crate::masks::object_eq(h.object, g.object) && h.nb_models
                        == g.nb_models,
                    None => false,
                },
            },
    {
        self.model.call()
    }

    /// Fetches the frozen seed dictionary.
    pub fn seed_dict(&mut self) -> (r: Option<SeedDict>)
        ensures
            *final(self) == *old(self),
            match final(self).seed_dict.0.latest.event {
                SeedDictUpdate::Invalidate => r is None,
                SeedDictUpdate::New(d) => match r {
                    Some(e) => e.view_map() == d.view_map(),
                    None => false,
                },
            },
    {
        self.seed_dict.call()
    }

    /// Fetches the frozen sum dictionary.
    pub fn sum_dict(&mut self) -> (r: Option<ByteDict>)
        ensures
            *final(self) == *old(self),
            match final(self).sum_dict.0.latest.event {
                SumDictUpdate::Invalidate => r is None,
                SumDictUpdate::New(d) => match r {
                    Some(e) => e.view_map() == d.view_map(),
                    None => false,
                },
            },
    {
        self.sum_dict.call()
    }

    /// Adopts the latest published values on every topic.
    pub fn refresh(&mut self, events: &EventSubscriber)
        ensures
            params_event_same(final(self).round_params.0.latest, events.params),
            final(self).scalar.0.latest == events.scalar,
            final(self).mask_length.0.latest == events.mask_length,
            model_event_same(final(self).model.0.latest, events.model),
            sum_dict_event_same(final(self).sum_dict.0.latest, events.sum_dict),
            seed_dict_event_same(final(self).seed_dict.0.latest, events.seed_dict),
    {
        self.round_params.refresh(events);
        self.scalar.refresh(events);
        self.mask_length.refresh(events);
        self.model.refresh(events);
        self.sum_dict.refresh(events);
        self.seed_dict.refresh(events);
    }
}

} // verus!
