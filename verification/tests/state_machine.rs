use sodiumoxide::crypto::sign;
use xaynet_coordinator::aggregation::Aggregation;
use xaynet_coordinator::config::{BoundType, DataType, GroupType, MaskConfig, ModelType};
use xaynet_coordinator::crypto::Ratio;
use xaynet_coordinator::dict::ByteDict;
use xaynet_coordinator::events::{MaskLengthUpdate, ModelUpdate, RoundParamsUpdate, ScalarUpdate,
    SeedDictUpdate, SumDictUpdate};
use xaynet_coordinator::masks::{weight_from_u64, MaskObject, MaskUnit, MaskVect};
use xaynet_coordinator::phases::{PhaseName, PhaseState, PetSettings, RoundFailed, Shared,
    StateMachine, Unmask};
use xaynet_coordinator::requests::{HeaderOwned, MessageOwned, PayloadOwned, RejectReason,
    StateMachineError, Sum2Owned, SumOwned, UpdateOwned};

fn config() -> MaskConfig {
    MaskConfig {
        group_type: GroupType::Integer,
        data_type: DataType::I32,
        bound_type: BoundType::B0,
        model_type: ModelType::M3,
    }
}

fn settings(min_sum: u64, min_update: u64, min_sum2: u64) -> PetSettings {
    PetSettings {
        min_sum,
        max_sum: 10,
        min_update,
        max_update: 10,
        min_sum2,
        max_sum2: 10,
        min_sum_time: 0,
        max_sum_time: 100,
        min_update_time: 0,
        max_update_time: 100,
        min_sum2_time: 0,
        max_sum2_time: 100,
        sum_ratio: Ratio { numer: 1, denom: 1 },
        update_ratio: Ratio { numer: 1, denom: 1 },
        mask_config: config(),
        model_length: 3,
        scalar_bits: 0x3FF0000000000000,
    }
}

struct Participant {
    pk: Vec<u8>,
    sk: sign::SecretKey,
}

fn participant() -> Participant {
    sodiumoxide::init().unwrap();
    let (pk, sk) = sign::gen_keypair();
    Participant { pk: pk.as_ref().to_vec(), sk }
}

fn task_signature(p: &Participant, seed: &[u8], tag: &[u8]) -> Vec<u8> {
    let mut msg = seed.to_vec();
    msg.extend(tag);
    sign::sign_detached(&msg, &p.sk).to_bytes().to_vec()
}

fn header(p: &Participant) -> HeaderOwned {
    HeaderOwned {
        participant_pk: p.pk.clone(),
        coordinator_pk: vec![0u8; 32],
        signature: vec![0u8; 64],
    }
}

fn sum_msg(p: &Participant, seed: &[u8], ephm: Vec<u8>) -> MessageOwned {
    MessageOwned {
        header: header(p),
        payload: PayloadOwned::Sum(SumOwned {
            sum_signature: task_signature(p, seed, b"sum"),
            ephm_pk: ephm,
        }),
    }
}

fn object(c: &MaskConfig, weights: &[u64], unit: u64) -> MaskObject {
    let data = weights
        .iter()
        .map(|&w| weight_from_u64(c, w).unwrap())
        .collect();
    MaskObject::new(
        MaskVect::new(*c, data),
        MaskUnit::new(*c, weight_from_u64(c, unit).unwrap()),
    )
}

fn update_msg(
    p: &Participant,
    seed: &[u8],
    sum_pks: &[Vec<u8>],
    weights: &[u64],
) -> MessageOwned {
    let entries = sum_pks
        .iter()
        .map(|pk| (pk.clone(), vec![0xAAu8; 16]))
        .collect();
    MessageOwned {
        header: header(p),
        payload: PayloadOwned::Update(UpdateOwned {
            sum_signature: task_signature(p, seed, b"sum"),
            update_signature: task_signature(p, seed, b"update"),
            local_seed_dict: ByteDict { entries },
            masked_model: object(&config(), weights, 0),
            masked_scalar: object(&config(), &[], 0),
        }),
    }
}

fn sum2_msg(p: &Participant, seed: &[u8], mask_weights: &[u64]) -> MessageOwned {
    MessageOwned {
        header: header(p),
        payload: PayloadOwned::Sum2(Sum2Owned {
            sum_signature: task_signature(p, seed, b"sum"),
            model_mask: object(&config(), mask_weights, 0),
            scalar_mask: object(&config(), &[], 0),
        }),
    }
}

fn round_seed(m: &StateMachine) -> Vec<u8> {
    match m {
        StateMachine::Sum(s) => s.shared.round_params.round_seed.clone(),
        StateMachine::Update(s) => s.shared.round_params.round_seed.clone(),
        StateMachine::Sum2(s) => s.shared.round_params.round_seed.clone(),
        _ => panic!("no collecting phase is active"),
    }
}

fn expect_ok(machine: StateMachine, msg: &MessageOwned) -> StateMachine {
    let (machine, reply) = machine.handle(msg);
    assert_eq!(reply, Ok(()));
    machine
}

fn expect_rejected(machine: StateMachine, msg: &MessageOwned, reason: RejectReason) -> StateMachine {
    let (machine, reply) = machine.handle(msg);
    assert_eq!(reply, Err(StateMachineError::MessageRejected(reason)));
    machine
}

/// A full happy round: three sum participants, five update participants all
/// submitting the model `[1, 2, 3]` under zero masks, three reconstructed
/// zero masks. The published global model holds the per-weight sums and the
/// mask dictionary held exactly one entry, seen three times.
#[test]
fn happy_round_three_sums_five_updates() {
    let mut machine = StateMachine::new(settings(3, 5, 3));
    machine = machine.tick(0);
    assert_eq!(machine.phase(), PhaseName::Sum);
    let seed = round_seed(&machine);

    let sums: Vec<Participant> = (0..3).map(|_| participant()).collect();
    for (i, p) in sums.iter().enumerate() {
        machine = expect_ok(machine, &sum_msg(p, &seed, vec![i as u8; 32]));
    }
    machine = machine.tick(1);
    assert_eq!(machine.phase(), PhaseName::Update);
    let sum_pks: Vec<Vec<u8>> = sums.iter().map(|p| p.pk.clone()).collect();

    for _ in 0..5 {
        let p = participant();
        machine = expect_ok(machine, &update_msg(&p, &seed, &sum_pks, &[1, 2, 3]));
    }
    machine = machine.tick(2);
    assert_eq!(machine.phase(), PhaseName::Sum2);

    for p in sums.iter() {
        machine = expect_ok(machine, &sum2_msg(p, &seed, &[0, 0, 0]));
    }
    machine = machine.tick(3);
    assert_eq!(machine.phase(), PhaseName::Idle);

    let c = config();
    match &machine {
        StateMachine::Idle(s) => match &s.shared.events.model.event {
            ModelUpdate::New(g) => {
                assert_eq!(g.nb_models, 5);
                let expected: Vec<Vec<u8>> = [5u64, 10, 15]
                    .iter()
                    .map(|&w| weight_from_u64(&c, w).unwrap())
                    .collect();
                assert_eq!(g.object.vect.data, expected);
            },
            _ => panic!("no global model was published"),
        },
        _ => panic!("the machine is not idle"),
    }
}

/// Two sum2 participants submit two distinct masks, one each: the round fails
/// ambiguous, and the error phase invalidates all six topics.
#[test]
fn ambiguous_masks_fail_the_round() {
    let mut machine = StateMachine::new(settings(2, 1, 2));
    machine = machine.tick(0);
    let seed = round_seed(&machine);
    let sums: Vec<Participant> = (0..2).map(|_| participant()).collect();
    for (i, p) in sums.iter().enumerate() {
        machine = expect_ok(machine, &sum_msg(p, &seed, vec![i as u8; 32]));
    }
    machine = machine.tick(0);
    let sum_pks: Vec<Vec<u8>> = sums.iter().map(|p| p.pk.clone()).collect();
    let updater = participant();
    machine = expect_ok(machine, &update_msg(&updater, &seed, &sum_pks, &[1, 2, 3]));
    machine = machine.tick(0);
    machine = expect_ok(machine, &sum2_msg(&sums[0], &seed, &[0, 0, 0]));
    machine = expect_ok(machine, &sum2_msg(&sums[1], &seed, &[1, 0, 0]));
    machine = machine.tick(0);
    match &machine {
        StateMachine::Error(e) => assert_eq!(e.inner.error, RoundFailed::AmbiguousMasks),
        _ => panic!("the round did not fail"),
    }
    machine = machine.tick(0);
    assert_eq!(machine.phase(), PhaseName::Idle);
    match &machine {
        StateMachine::Idle(s) => {
            assert!(matches!(s.shared.events.params.event, RoundParamsUpdate::Invalidate));
            assert!(matches!(s.shared.events.scalar.event, ScalarUpdate::Invalidate));
            assert!(matches!(s.shared.events.mask_length.event, MaskLengthUpdate::Invalidate));
            assert!(matches!(s.shared.events.model.event, ModelUpdate::Invalidate));
            assert!(matches!(s.shared.events.sum_dict.event, SumDictUpdate::Invalidate));
            assert!(matches!(s.shared.events.seed_dict.event, SeedDictUpdate::Invalidate));
        },
        _ => panic!("the machine is not idle"),
    }
}

/// An update participant whose local seed dictionary covers only `{A, B}`
/// when the sum dictionary is `{A, B, C}` is rejected; the dictionaries do
/// not change and the phase keeps accepting other updates.
#[test]
fn seed_dict_key_mismatch_is_rejected() {
    let mut machine = StateMachine::new(settings(3, 2, 3));
    machine = machine.tick(0);
    let seed = round_seed(&machine);
    let sums: Vec<Participant> = (0..3).map(|_| participant()).collect();
    for (i, p) in sums.iter().enumerate() {
        machine = expect_ok(machine, &sum_msg(p, &seed, vec![i as u8; 32]));
    }
    machine = machine.tick(0);
    let sum_pks: Vec<Vec<u8>> = sums.iter().map(|p| p.pk.clone()).collect();

    let bad = participant();
    machine = expect_rejected(
        machine,
        &update_msg(&bad, &seed, &sum_pks[0..2], &[1, 2, 3]),
        RejectReason::SeedDictKeyMismatch,
    );
    match &machine {
        StateMachine::Update(s) => {
            assert_eq!(s.inner.frozen_sum_dict.len(), 3);
            assert_eq!(s.inner.aggregation.nb_models, 0);
        },
        _ => panic!("the phase did not continue"),
    }
    let good = participant();
    machine = expect_ok(machine, &update_msg(&good, &seed, &sum_pks, &[1, 2, 3]));
    match &machine {
        StateMachine::Update(s) => assert_eq!(s.inner.aggregation.nb_models, 1),
        _ => panic!("the phase did not continue"),
    }
}

/// Exactly `min_sum` participants arriving exactly at the minimum duration
/// move the machine on; one tick earlier it still collects.
#[test]
fn min_sum_at_min_duration_proceeds() {
    let mut s = settings(3, 1, 1);
    s.min_sum_time = 5;
    let mut machine = StateMachine::new(s);
    machine = machine.tick(10);
    let seed = round_seed(&machine);
    for i in 0..3 {
        let p = participant();
        machine = expect_ok(machine, &sum_msg(&p, &seed, vec![i as u8; 32]));
    }
    machine = machine.tick(14);
    assert_eq!(machine.phase(), PhaseName::Sum);
    machine = machine.tick(15);
    assert_eq!(machine.phase(), PhaseName::Update);
}

/// One participant short of `min_sum` when the maximum duration elapses:
/// the round fails with insufficient participants.
#[test]
fn too_few_sums_fail_at_max_duration() {
    let mut machine = StateMachine::new(settings(3, 1, 1));
    machine = machine.tick(0);
    let seed = round_seed(&machine);
    for i in 0..2 {
        let p = participant();
        machine = expect_ok(machine, &sum_msg(&p, &seed, vec![i as u8; 32]));
    }
    machine = machine.tick(99);
    assert_eq!(machine.phase(), PhaseName::Sum);
    machine = machine.tick(100);
    match &machine {
        StateMachine::Error(e) => {
            assert_eq!(e.inner.error, RoundFailed::InsufficientParticipants)
        },
        _ => panic!("the round did not fail"),
    }
}

/// No update participant at all: the round fails in the update phase instead
/// of moving on empty-handed.
#[test]
fn zero_updates_fail_in_update() {
    let mut machine = StateMachine::new(settings(1, 1, 1));
    machine = machine.tick(0);
    let seed = round_seed(&machine);
    let p = participant();
    machine = expect_ok(machine, &sum_msg(&p, &seed, vec![1u8; 32]));
    machine = machine.tick(0);
    assert_eq!(machine.phase(), PhaseName::Update);
    machine = machine.tick(100);
    match &machine {
        StateMachine::Error(e) => {
            assert_eq!(e.inner.error, RoundFailed::InsufficientParticipants)
        },
        _ => panic!("the round moved on empty-handed"),
    }
}

/// A masked model one element longer than the round's model length is
/// rejected; the phase continues.
#[test]
fn overlong_model_is_rejected() {
    let mut machine = StateMachine::new(settings(1, 1, 1));
    machine = machine.tick(0);
    let seed = round_seed(&machine);
    let p = participant();
    machine = expect_ok(machine, &sum_msg(&p, &seed, vec![1u8; 32]));
    machine = machine.tick(0);
    let sum_pks = vec![p.pk.clone()];
    let u = participant();
    machine = expect_rejected(
        machine,
        &update_msg(&u, &seed, &sum_pks, &[1, 2, 3, 4]),
        RejectReason::ModelLengthMismatch,
    );
    assert_eq!(machine.phase(), PhaseName::Update);
    machine = expect_ok(machine, &update_msg(&u, &seed, &sum_pks, &[1, 2, 3]));
    assert_eq!(machine.phase(), PhaseName::Update);
}

/// Once the sum phase is over, a sum message cannot touch the frozen
/// dictionaries: it is rejected as out of phase and the machine is unchanged.
#[test]
fn sum_message_after_sum_phase_is_rejected() {
    let mut machine = StateMachine::new(settings(1, 1, 1));
    machine = machine.tick(0);
    let seed = round_seed(&machine);
    let p = participant();
    machine = expect_ok(machine, &sum_msg(&p, &seed, vec![1u8; 32]));
    machine = machine.tick(0);
    assert_eq!(machine.phase(), PhaseName::Update);
    let late = participant();
    machine = expect_rejected(
        machine,
        &sum_msg(&late, &seed, vec![2u8; 32]),
        RejectReason::WrongPhase,
    );
    match &machine {
        StateMachine::Update(s) => assert_eq!(s.inner.frozen_sum_dict.len(), 1),
        _ => panic!("the machine left the update phase"),
    }
}

/// A sum participant registering twice is rejected as a duplicate.
#[test]
fn duplicate_sum_registration_is_rejected() {
    let mut machine = StateMachine::new(settings(2, 1, 1));
    machine = machine.tick(0);
    let seed = round_seed(&machine);
    let p = participant();
    machine = expect_ok(machine, &sum_msg(&p, &seed, vec![1u8; 32]));
    machine = expect_rejected(
        machine,
        &sum_msg(&p, &seed, vec![2u8; 32]),
        RejectReason::DuplicatePk,
    );
}

/// A sum message with a bad task signature is rejected.
#[test]
fn invalid_task_signature_is_rejected() {
    let mut machine = StateMachine::new(settings(1, 1, 1));
    machine = machine.tick(0);
    let seed = round_seed(&machine);
    let p = participant();
    let mut msg = sum_msg(&p, &seed, vec![1u8; 32]);
    if let PayloadOwned::Sum(ref mut sum) = msg.payload {
        sum.sum_signature[0] ^= 0xff;
    }
    machine = expect_rejected(machine, &msg, RejectReason::SignatureInvalid);
    assert_eq!(machine.phase(), PhaseName::Sum);
}

/// A sum2 message from a key that never registered in the sum phase is
/// rejected outright.
#[test]
fn sum2_from_unregistered_key_is_rejected() {
    let mut machine = StateMachine::new(settings(1, 1, 1));
    machine = machine.tick(0);
    let seed = round_seed(&machine);
    let p = participant();
    machine = expect_ok(machine, &sum_msg(&p, &seed, vec![1u8; 32]));
    machine = machine.tick(0);
    let u = participant();
    machine = expect_ok(machine, &update_msg(&u, &seed, &[p.pk.clone()], &[1, 2, 3]));
    machine = machine.tick(0);
    assert_eq!(machine.phase(), PhaseName::Sum2);
    let stranger = participant();
    machine = expect_rejected(
        machine,
        &sum2_msg(&stranger, &seed, &[0, 0, 0]),
        RejectReason::MissingSumEntry,
    );
    assert_eq!(machine.phase(), PhaseName::Sum2);
}

/// After shutdown, every request is answered with the closed-channel reply.
#[test]
fn shutdown_answers_with_closed_channel() {
    let mut machine = StateMachine::new(settings(1, 1, 1));
    machine = machine.tick(0);
    let seed = round_seed(&machine);
    let p = participant();
    let msg = sum_msg(&p, &seed, vec![1u8; 32]);
    machine = machine.shut_down();
    assert_eq!(machine.phase(), PhaseName::Shutdown);
    let (machine, reply) = machine.handle(&msg);
    assert_eq!(reply, Err(StateMachineError::RequestChannelClosed));
    assert_eq!(machine.phase(), PhaseName::Shutdown);
}

/// The strictly unique plurality mask is selected; a tie at the top count is
/// ambiguous, and an empty dictionary has no mask.
#[test]
fn freeze_mask_dict_selects_the_unique_plurality() {
    let c = config();
    let shared = Shared::new(settings(1, 1, 1));
    let agg = Aggregation::new(c, 3);
    let state = PhaseState::<Unmask>::new(shared, agg);
    let a = object(&c, &[0, 0, 0], 0);
    let b = object(&c, &[1, 0, 0], 0);

    assert_eq!(
        state.freeze_mask_dict(&vec![]).unwrap_err(),
        RoundFailed::NoMask
    );
    assert_eq!(
        state
            .freeze_mask_dict(&vec![(a.duplicate(), 2), (b.duplicate(), 2)])
            .unwrap_err(),
        RoundFailed::AmbiguousMasks
    );
    let selected = state
        .freeze_mask_dict(&vec![(a.duplicate(), 2), (b.duplicate(), 3)])
        .unwrap();
    assert_eq!(selected, b);
}

/// The aggregation accessor of the unmask phase.
#[test]
fn unmask_phase_exposes_its_aggregation() {
    let c = config();
    let shared = Shared::new(settings(1, 1, 1));
    let agg = Aggregation::new(c, 3);
    let state = PhaseState::<Unmask>::new(shared, agg);
    assert!(state.inner.aggregation().is_some());
    assert_eq!(state.inner.aggregation().unwrap().nb_models, 0);
}

/// A sum message past the phase's participant cap is discarded.
#[test]
fn sums_past_the_cap_are_discarded() {
    let mut s = settings(1, 1, 1);
    s.max_sum = 1;
    let mut machine = StateMachine::new(s);
    machine = machine.tick(0);
    let seed = round_seed(&machine);
    let first = participant();
    machine = expect_ok(machine, &sum_msg(&first, &seed, vec![1u8; 32]));
    let second = participant();
    machine = expect_rejected(
        machine,
        &sum_msg(&second, &seed, vec![2u8; 32]),
        RejectReason::Discarded,
    );
    assert_eq!(machine.phase(), PhaseName::Sum);
}

/// A masked model under a configuration other than the round's is rejected.
#[test]
fn foreign_mask_config_is_rejected() {
    let mut machine = StateMachine::new(settings(1, 1, 1));
    machine = machine.tick(0);
    let seed = round_seed(&machine);
    let p = participant();
    machine = expect_ok(machine, &sum_msg(&p, &seed, vec![1u8; 32]));
    machine = machine.tick(0);
    let mut other = config();
    other.model_type = ModelType::M6;
    let u = participant();
    let mut msg = update_msg(&u, &seed, &[p.pk.clone()], &[1, 2, 3]);
    if let PayloadOwned::Update(ref mut update) = msg.payload {
        let data = [1u64, 2, 3]
            .iter()
            .map(|&w| weight_from_u64(&other, w).unwrap())
            .collect();
        update.masked_model = MaskObject::new(
            MaskVect::new(other, data),
            MaskUnit::new(other, weight_from_u64(&other, 0).unwrap()),
        );
    }
    machine = expect_rejected(machine, &msg, RejectReason::MaskConfigMismatch);
    assert_eq!(machine.phase(), PhaseName::Update);
}

/// Under a selective ratio, the coordinator's eligibility verdict agrees with
/// the digest computed directly from the crypto library; an unselected
/// participant is turned away as ineligible.
#[test]
fn eligibility_is_enforced_per_ratio() {
    let mut s = settings(1, 1, 1);
    s.sum_ratio = Ratio { numer: 1, denom: 2 };
    let mut machine = StateMachine::new(s);
    machine = machine.tick(0);
    let seed = round_seed(&machine);
    let p = participant();
    let msg = sum_msg(&p, &seed, vec![1u8; 32]);
    let sum_signature = match &msg.payload {
        PayloadOwned::Sum(sum) => sum.sum_signature.clone(),
        _ => unreachable!(),
    };
    let mut data = seed.clone();
    data.extend(&sum_signature);
    data.extend(&p.pk);
    let digest = sodiumoxide::crypto::generichash::hash(&data, Some(32), None).unwrap();
    let mut first = [0u8; 8];
    first.copy_from_slice(&digest.as_ref()[0..8]);
    let selected = (u64::from_le_bytes(first) as u128) * 2 < 1u128 << 64;
    let (machine, reply) = machine.handle(&msg);
    if selected {
        assert_eq!(reply, Ok(()));
    } else {
        assert_eq!(
            reply,
            Err(StateMachineError::MessageRejected(RejectReason::Ineligible))
        );
    }
    assert_eq!(machine.phase(), PhaseName::Sum);
}
