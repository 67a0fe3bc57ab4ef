use xaynet_coordinator::config::{BoundType, DataType, GroupType, MaskConfig, ModelType};
use xaynet_coordinator::crypto::Ratio;
use xaynet_coordinator::dict::{ByteDict, SeedDict};
use xaynet_coordinator::events::{EventPublisher, RoundParams, Scalar};
use xaynet_coordinator::fetchers::{into_fetch_error, Fetchers, MaskLengthService, ModelService,
    RoundParamsService, ScalarRequest, ScalarService, SeedDictService, SumDictService};

fn config() -> MaskConfig {
    MaskConfig {
        group_type: GroupType::Integer,
        data_type: DataType::I32,
        bound_type: BoundType::B0,
        model_type: ModelType::M3,
    }
}

fn fetchers_of(events: &EventPublisher) -> Fetchers {
    let subscriber = events.subscribe();
    Fetchers::new(
        RoundParamsService::new(&subscriber),
        SumDictService::new(&subscriber),
        SeedDictService::new(&subscriber),
        MaskLengthService::new(&subscriber),
        ScalarService::new(&subscriber),
        ModelService::new(&subscriber),
    )
}

#[test]
fn services_answer_nothing_before_a_round() {
    let events = EventPublisher::init();
    let mut fetchers = fetchers_of(&events);
    assert!(fetchers.round_params().is_none());
    assert!(fetchers.sum_dict().is_none());
    assert!(fetchers.seed_dict().is_none());
    assert!(fetchers.mask_length().is_none());
    assert!(fetchers.scalar().is_none());
    assert!(fetchers.model().is_none());
}

#[test]
fn services_answer_the_latest_published_values() {
    let mut events = EventPublisher::init();
    let params = RoundParams {
        coordinator_pk: vec![1u8; 32],
        round_seed: vec![2u8; 32],
        sum_ratio: Ratio { numer: 1, denom: 2 },
        update_ratio: Ratio { numer: 1, denom: 3 },
        mask_config: config(),
        model_length: 3,
    };
    events.broadcast_params(7, params);
    events.broadcast_mask_length(3);
    events.broadcast_scalar(Scalar { bits: 0x3FF0000000000000 });
    let mut sums = ByteDict::new();
    sums.insert_new(vec![5u8; 32], vec![6u8; 32]);
    events.broadcast_sum_dict(sums);

    let mut fetchers = fetchers_of(&events);
    let got = fetchers.round_params().unwrap();
    assert_eq!(got.round_seed, vec![2u8; 32]);
    assert_eq!(got.sum_ratio, Ratio { numer: 1, denom: 2 });
    assert_eq!(fetchers.mask_length(), Some(3));
    assert_eq!(fetchers.scalar(), Some(Scalar { bits: 0x3FF0000000000000 }));
    let dict = fetchers.sum_dict().unwrap();
    assert_eq!(dict.get(&vec![5u8; 32]), Some(vec![6u8; 32]));
    assert!(fetchers.seed_dict().is_none());

    // invalidation makes every topic empty again
    events.invalidate_all();
    fetchers.refresh(&events.subscribe());
    assert!(fetchers.round_params().is_none());
    assert!(fetchers.sum_dict().is_none());
    assert!(fetchers.mask_length().is_none());
    assert!(fetchers.scalar().is_none());
}

#[test]
fn fetch_errors_keep_their_reason() {
    let e = into_fetch_error(String::from("the backing channel closed"));
    assert_eq!(e.reason, "the backing channel closed");
}

#[test]
fn scalar_request_is_plain() {
    let mut events = EventPublisher::init();
    events.broadcast_scalar(Scalar { bits: 1 });
    let mut service = ScalarService::new(&events.subscribe());
    assert_eq!(service.call(ScalarRequest), Some(Scalar { bits: 1 }));
}

#[test]
fn byte_dict_holds_unique_keys() {
    let mut dict = ByteDict::new();
    assert!(dict.insert_new(vec![1], vec![10]));
    assert!(dict.insert_new(vec![2], vec![20]));
    assert!(!dict.insert_new(vec![1], vec![30]));
    assert_eq!(dict.len(), 2);
    assert_eq!(dict.get(&vec![1]), Some(vec![10]));
    assert_eq!(dict.get(&vec![3]), None);
    assert!(dict.contains(&vec![2]));
    dict.insert(vec![2], vec![21]);
    assert_eq!(dict.get(&vec![2]), Some(vec![21]));
    assert_eq!(dict.len(), 2);
    assert!(dict.check_wf());

    let mut other = ByteDict::new();
    other.insert(vec![2], vec![99]);
    other.insert(vec![1], vec![98]);
    assert!(dict.same_key_set(&other));
    other.insert(vec![3], vec![97]);
    assert!(!dict.same_key_set(&other));
}

#[test]
fn seed_dict_collects_for_every_sum_key() {
    let mut sums = ByteDict::new();
    sums.insert_new(vec![1], vec![0]);
    sums.insert_new(vec![2], vec![0]);
    let mut seeds = SeedDict::new_from_keys(&sums);
    assert_eq!(seeds.len(), 2);

    let mut local = ByteDict::new();
    local.insert_new(vec![1], vec![0xA1]);
    local.insert_new(vec![2], vec![0xA2]);
    seeds.insert_seeds(&vec![42], &local);

    let inner = seeds.get_inner(&vec![1]).unwrap();
    assert_eq!(inner.get(&vec![42]), Some(vec![0xA1]));
    let inner = seeds.get_inner(&vec![2]).unwrap();
    assert_eq!(inner.get(&vec![42]), Some(vec![0xA2]));
    assert!(seeds.get_inner(&vec![3]).is_none());
}
