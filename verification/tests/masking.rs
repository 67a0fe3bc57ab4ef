use xaynet_coordinator::aggregation::{Aggregation, AggregationError};
use xaynet_coordinator::config::{BoundType, DataType, GroupType, MaskConfig, ModelType};
use xaynet_coordinator::crypto::{check_eligibility, verify_task_signature, Ratio};
use xaynet_coordinator::events::Scalar;
use xaynet_coordinator::masks::{weight_from_u64, zero_weight, MaskObject, MaskUnit, MaskVect};
use xaynet_coordinator::rpc::{ClientId, MuxAction, MuxEvent, Rpc, RpcRequestsMux, Server};
use xaynet_coordinator::settings::{Settings, SettingsError, DEFAULT_SCALAR_BITS};

const ORDER: u128 = 20_000_000_000_001;

fn config() -> MaskConfig {
    MaskConfig {
        group_type: GroupType::Integer,
        data_type: DataType::I32,
        bound_type: BoundType::B0,
        model_type: ModelType::M3,
    }
}

fn weight(c: &MaskConfig, v: u64) -> Vec<u8> {
    weight_from_u64(c, v).unwrap()
}

fn object(c: &MaskConfig, weights: &[u64], unit: u64) -> MaskObject {
    let data = weights.iter().map(|&w| weight(c, w)).collect();
    MaskObject::new(MaskVect::new(*c, data), MaskUnit::new(*c, weight(c, unit)))
}

#[test]
fn weight_codec_roundtrip() {
    let c = config();
    let w = weight(&c, 123_456_789);
    assert_eq!(w.len(), 6);
    assert_eq!(w, vec![0x15, 0xcd, 0x5b, 0x07, 0x00, 0x00]);
    assert!(weight_from_u64(&c, 20_000_000_000_001).is_none());
    assert!(weight_from_u64(&c, 20_000_000_000_000).is_some());
    assert_eq!(zero_weight(&c), vec![0; 6]);
}

/// Unmasking the aggregate of masked models yields the sum of the plaintexts
/// modulo the group order, when the aggregate mask is reconstructed exactly.
#[test]
fn unmask_recovers_sum_of_plaintexts() {
    let c = config();
    let plaintexts: [[u64; 3]; 3] = [[1, 2, 3], [10, 20, 30], [100, 200, 300]];
    let masks: [[u64; 3]; 3] = [
        [19_999_999_999_999, 5, 7],
        [11, 19_999_999_999_990, 13],
        [17, 19, 20_000_000_000_000],
    ];
    let mut agg = Aggregation::new(c, 3);
    for p in 0..3 {
        let masked: Vec<u64> = (0..3)
            .map(|i| (((plaintexts[p][i] as u128) + (masks[p][i] as u128)) % ORDER) as u64)
            .collect();
        agg.aggregate(&object(&c, &masked, 0));
    }
    // the sum participants reconstruct the aggregate mask exactly
    let mask_sum: Vec<u64> = (0..3)
        .map(|i| {
            (((masks[0][i] as u128) + (masks[1][i] as u128) + (masks[2][i] as u128)) % ORDER) as u64
        })
        .collect();
    let mask = object(&c, &mask_sum, 0);
    assert!(agg.validate_unmasking(&mask).is_ok());
    assert_eq!(agg.nb_models, 3);
    let unmasked = agg.unmask(&mask);
    let expected: Vec<Vec<u8>> = (0..3)
        .map(|i| {
            let sum: u128 = (0..3).map(|p| plaintexts[p][i] as u128).sum();
            weight(&c, (sum % ORDER) as u64)
        })
        .collect();
    assert_eq!(unmasked.vect.data, expected);
}

#[test]
fn aggregation_rejects_wrong_shape() {
    let c = config();
    let mut other = c;
    other.model_type = ModelType::M6;
    let agg = Aggregation::new(c, 3);
    assert!(agg.validate_aggregation(&object(&c, &[1, 2, 3], 0)).is_ok());
    assert_eq!(
        agg.validate_aggregation(&object(&c, &[1, 2], 0)).unwrap_err(),
        AggregationError::LengthMismatch
    );
    assert_eq!(
        agg.validate_aggregation(&object(&other, &[1, 2, 3], 0)).unwrap_err(),
        AggregationError::ConfigMismatch
    );
}

#[test]
fn eligibility_follows_the_digest() {
    sodiumoxide::init().unwrap();
    let seed = vec![7u8; 32];
    let sig = vec![42u8; 64];
    let pk = vec![9u8; 32];
    let mut data = seed.clone();
    data.extend(&sig);
    data.extend(&pk);
    let digest = sodiumoxide::crypto::generichash::hash(&data, Some(32), None).unwrap();
    let mut first = [0u8; 8];
    first.copy_from_slice(&digest.as_ref()[0..8]);
    let v = u64::from_le_bytes(first);

    let half = Ratio { numer: 1, denom: 2 };
    let expected = (v as u128) * 2 < 1u128 << 64;
    assert_eq!(check_eligibility(&seed, &sig, &pk, &half), expected);
    // a ratio of one selects everyone
    let all = Ratio { numer: 1, denom: 1 };
    assert!(check_eligibility(&seed, &sig, &pk, &all));
}

#[test]
fn task_signatures_verify() {
    sodiumoxide::init().unwrap();
    let (pk, sk) = sodiumoxide::crypto::sign::gen_keypair();
    let seed = vec![3u8; 32];
    let mut msg = seed.clone();
    msg.extend(b"sum");
    let sig = sodiumoxide::crypto::sign::sign_detached(&msg, &sk);
    let sig_bytes = sig.to_bytes().to_vec();
    let pk_bytes = pk.as_ref().to_vec();
    let tag = b"sum".to_vec();
    assert!(verify_task_signature(&seed, &sig_bytes, &pk_bytes, &tag));
    let mut bad = sig_bytes.clone();
    bad[0] ^= 0xff;
    assert!(!verify_task_signature(&seed, &bad, &pk_bytes, &tag));
    let other_tag = b"update".to_vec();
    assert!(!verify_task_signature(&seed, &sig_bytes, &pk_bytes, &other_tag));
}

#[test]
fn settings_are_checked_in_order() {
    sodiumoxide::init().unwrap();
    let mut settings = Settings::new();
    assert_eq!(settings.check().unwrap_err(), SettingsError::MissingUrl);
    settings.set_url(String::from("http://localhost:8081"));
    assert_eq!(settings.check().unwrap_err(), SettingsError::MissingKeys);
    let (pk, sk) = sodiumoxide::crypto::sign::gen_keypair();
    settings.set_keys(xaynet_coordinator::crypto::SigningKeyPair {
        public: pk.as_ref().to_vec(),
        secret: sk.as_ref().to_vec(),
    });
    assert!(settings.check().is_ok());
    settings.set_scalar(Scalar { bits: DEFAULT_SCALAR_BITS });
    let (url, pet) = settings.into_parts().unwrap();
    assert_eq!(url, "http://localhost:8081");
    assert_eq!(pet.scalar.bits, DEFAULT_SCALAR_BITS);
}

#[test]
fn end_training_requests_queue_in_order() {
    let mut server = Server::new();
    server.end_training(ClientId { id: 1 }, true);
    server.end_training(ClientId { id: 2 }, false);
    let drained = server.drain();
    assert_eq!(drained, vec![(ClientId { id: 1 }, true), (ClientId { id: 2 }, false)]);
    assert_eq!(server.drain(), vec![]);
}

#[test]
fn mux_survives_a_lost_connection() {
    let mut mux = RpcRequestsMux::new();
    // first connection arrives with a request ready
    assert_eq!(
        mux.poll_step(MuxEvent::IncomingItem(ClientId { id: 1 }, true)),
        MuxAction::Deliver(ClientId { id: 1 }, true)
    );
    // the aggregator dies: the stream ends, the mux waits for the next dial
    assert_eq!(mux.poll_step(MuxEvent::CurrentClosed), MuxAction::PollConnections);
    // the aggregator reappears but has nothing yet
    assert_eq!(mux.poll_step(MuxEvent::IncomingPending), MuxAction::PollConnections);
    // and later delivers over the adopted stream
    assert_eq!(
        mux.poll_step(MuxEvent::CurrentItem(ClientId { id: 2 }, false)),
        MuxAction::Deliver(ClientId { id: 2 }, false)
    );
    assert_eq!(mux.poll_step(MuxEvent::CurrentPending), MuxAction::Wait);
}
