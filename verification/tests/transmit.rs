use chainlink_ocr2::config::initialize;
use chainlink_ocr2::error::ErrorCode;
use chainlink_ocr2::pubkey::Pubkey;
use chainlink_ocr2::rotation::set_config;
use chainlink_ocr2::state::{NewOracle, State};
use chainlink_ocr2::transmit::{
    address_of_key, message_hash, recover_address, transmit, validation_request, Validation,
};

fn key(n: u8) -> Pubkey {
    Pubkey::new([n; 32])
}

fn secret(n: u8) -> libsecp256k1::SecretKey {
    let mut bytes = [0u8; 32];
    bytes[31] = n;
    libsecp256k1::SecretKey::parse(&bytes).unwrap()
}

fn address(n: u8) -> [u8; 20] {
    let public = libsecp256k1::PublicKey::from_secret_key(&secret(n)).serialize();
    let mut raw = [0u8; 64];
    raw.copy_from_slice(&public[1..65]);
    address_of_key(&raw)
}

/// A feed with four oracles, signing with the secrets 1 to 4 and
/// transmitting with the keys 101 to 104, and f = 1.
fn configured() -> State {
    let mut state = initialize(key(1), 254, key(2), key(3), key(4), key(5), key(6), -1000, 1000);
    let oracles: Vec<NewOracle> = (1u8..=4)
        .map(|n| NewOracle {
            signer: address(n),
            transmitter: key(100 + n),
        })
        .collect();
    set_config(&mut state, &key(2), &oracles, 1, 1, &[7, 7, 7], &key(9), &key(10), 55).unwrap();
    state.config.billing.observation_payment_gjuels = 3;
    state.config.billing.transmission_payment_gjuels = 11;
    state
}

struct Draft {
    nonce: u8,
    digest: [u8; 32],
    epoch: u32,
    round: u8,
    timestamp: u32,
    observer_count: u8,
    median: i128,
    juels_per_lamport: u64,
    signers: Vec<u8>,
}

fn draft(state: &State) -> Draft {
    Draft {
        nonce: 77,
        digest: state.config.latest_config_digest,
        epoch: 1,
        round: 1,
        timestamp: 1_650_000_000,
        observer_count: 3,
        median: 42,
        juels_per_lamport: 3_000_000_000,
        signers: vec![1, 2],
    }
}

fn context_of(d: &Draft) -> Vec<u8> {
    let mut context = Vec::new();
    context.extend_from_slice(&d.digest);
    context.extend_from_slice(&[0u8; 27]);
    context.extend_from_slice(&d.epoch.to_be_bytes());
    context.push(d.round);
    context.extend_from_slice(&[0xEE; 32]);
    context
}

fn report_of(d: &Draft) -> Vec<u8> {
    let mut report = Vec::new();
    report.extend_from_slice(&d.timestamp.to_be_bytes());
    report.push(d.observer_count);
    let mut observers = [0u8; 32];
    for (i, slot) in observers.iter_mut().enumerate() {
        *slot = i as u8;
    }
    report.extend_from_slice(&observers);
    report.extend_from_slice(&d.median.to_be_bytes());
    report.extend_from_slice(&d.juels_per_lamport.to_be_bytes());
    report
}

fn unit(hash: &[u8; 32], signer: u8) -> Vec<u8> {
    let message = libsecp256k1::Message::parse(hash);
    let (signature, recovery_id) = libsecp256k1::sign(&message, &secret(signer));
    let mut unit = signature.serialize().to_vec();
    unit.push(recovery_id.serialize());
    unit
}

fn encode(d: &Draft) -> Vec<u8> {
    let context = context_of(d);
    let report = report_of(d);
    let hash = message_hash(&report, &context);
    let mut data = vec![d.nonce];
    data.extend_from_slice(&context);
    data.extend_from_slice(&report);
    for signer in &d.signers {
        data.extend_from_slice(&unit(&hash, *signer));
    }
    data
}

fn transmitter_place(state: &State, transmitter: &Pubkey) -> usize {
    state
        .oracles
        .as_slice()
        .iter()
        .position(|oracle| oracle.transmitter == *transmitter)
        .unwrap()
}

#[test]
fn message_hash_is_sha256_of_length_report_and_context() {
    let report: Vec<u8> = (0u8..61).collect();
    let context = [0xABu8; 96];
    let expected: [u8; 32] = [
        0x3f, 0xce, 0xcf, 0xe0, 0x3d, 0x14, 0x71, 0xbb, 0x2f, 0x44, 0xd7, 0xea, 0xa4, 0x44, 0xb3,
        0xf2, 0xa7, 0x3f, 0x0a, 0x9f, 0xc5, 0x9d, 0xcc, 0xd0, 0x5a, 0x98, 0x3d, 0x16, 0xcd, 0x0f,
        0x5f, 0xbd,
    ];
    let hash = message_hash(&report, &context);
    assert_eq!(hash, expected);
}

#[test]
fn address_of_the_key_of_secret_one() {
    // the well-known address of the secret key 1
    let expected: [u8; 20] = [
        0x7e, 0x5f, 0x45, 0x52, 0x09, 0x1a, 0x69, 0x12, 0x5d, 0x5d, 0xfc, 0xb7, 0xb8, 0xc2, 0x65,
        0x90, 0x29, 0x39, 0x5b, 0xdf,
    ];
    assert_eq!(address(1), expected);
}

#[test]
fn recover_address_finds_the_signer() {
    let hash = [0x5au8; 32];
    for n in 1u8..=4 {
        let unit = unit(&hash, n);
        assert_eq!(recover_address(&hash, &unit), Ok(address(n)));
    }
}

#[test]
fn recover_address_refuses_a_bad_recovery_id() {
    let hash = [0x5au8; 32];
    let mut unit = unit(&hash, 1);
    unit[64] = 4;
    assert_eq!(recover_address(&hash, &unit), Err(ErrorCode::InvalidInput));
}

#[test]
fn recover_address_refuses_a_hash_of_the_wrong_length() {
    let hash = [0x5au8; 32];
    let unit = unit(&hash, 1);
    assert_eq!(recover_address(&hash[..31], &unit), Err(ErrorCode::InvalidInput));
}

#[test]
fn recover_address_refuses_a_signature_out_of_range() {
    let hash = [0x5au8; 32];
    let mut unit = vec![0xFFu8; 64];
    unit.push(0);
    assert_eq!(recover_address(&hash, &unit), Err(ErrorCode::Unauthorized));
}

#[test]
fn a_quorum_of_signatures_is_accepted() {
    let mut state = configured();
    let d = draft(&state);
    let transmitter = key(103);
    let place = transmitter_place(&state, &transmitter);
    let digest = state.config.latest_config_digest;

    let out = transmit(&mut state, &transmitter, &encode(&d)).unwrap();

    assert_eq!(state.config.latest_aggregator_round_id, 1);
    assert_eq!(state.config.epoch, 1);
    assert_eq!(state.config.round, 1);
    assert_eq!(state.config.latest_transmitter, transmitter);
    assert_eq!(state.config.latest_config_digest, digest);

    assert_eq!(out.store_nonce, 77);
    assert_eq!(out.round.answer, 42);
    assert_eq!(out.round.timestamp, 1_650_000_000);
    assert_eq!(out.event.round_id, 1);
    assert_eq!(out.event.config_digest, digest);
    assert_eq!(out.event.answer, 42);
    assert_eq!(out.event.transmitter as usize, place);
    assert_eq!(out.event.observations_timestamp, 1_650_000_000);
    assert_eq!(out.event.observer_count, 3);
    let observers: Vec<u8> = (0u8..19).collect();
    assert_eq!(out.event.observers.to_vec(), observers);
    assert_eq!(out.event.juels_per_lamport, 3_000_000_000);
    // 5000 lamports at 3 * 10^9 juels per lamport, in gjuels
    assert_eq!(out.event.reimbursement_gjuels, 15_000);

    // the reimbursement and the flat fee of 11 go to the transmitter alone
    for (i, oracle) in state.oracles.as_slice().iter().enumerate() {
        if i == place {
            assert_eq!(oracle.payment_gjuels, 15_011);
        } else {
            assert_eq!(oracle.payment_gjuels, 0);
        }
    }
}

#[test]
fn every_accepted_report_advances_the_round_by_one() {
    let mut state = configured();
    let mut d = draft(&state);
    for i in 1u32..=5 {
        d.epoch = 1;
        d.round = i as u8;
        d.signers = vec![(i % 4 + 1) as u8, ((i + 1) % 4 + 1) as u8];
        let out = transmit(&mut state, &key(101), &encode(&d)).unwrap();
        assert_eq!(out.event.round_id, i);
        assert_eq!(state.config.latest_aggregator_round_id, i);
    }
    // a newer epoch with a lower round comes after
    d.epoch = 2;
    d.round = 0;
    assert!(transmit(&mut state, &key(101), &encode(&d)).is_ok());
    assert_eq!(state.config.latest_aggregator_round_id, 6);
}

#[test]
fn a_negative_median_is_read_in_twos_complement() {
    let mut state = configured();
    let mut d = draft(&state);
    d.median = -1000;
    let out = transmit(&mut state, &key(101), &encode(&d)).unwrap();
    assert_eq!(out.round.answer, -1000);
}

#[test]
fn the_same_epoch_and_round_again_is_stale() {
    let mut state = configured();
    let d = draft(&state);
    transmit(&mut state, &key(101), &encode(&d)).unwrap();
    assert_eq!(
        transmit(&mut state, &key(101), &encode(&d)).err(),
        Some(ErrorCode::StaleReport)
    );
    assert_eq!(state.config.latest_aggregator_round_id, 1);
}

#[test]
fn an_older_round_is_stale() {
    let mut state = configured();
    let mut d = draft(&state);
    d.epoch = 3;
    d.round = 5;
    transmit(&mut state, &key(101), &encode(&d)).unwrap();
    d.round = 4;
    assert_eq!(
        transmit(&mut state, &key(101), &encode(&d)).err(),
        Some(ErrorCode::StaleReport)
    );
    d.epoch = 2;
    d.round = 200;
    assert_eq!(
        transmit(&mut state, &key(101), &encode(&d)).err(),
        Some(ErrorCode::StaleReport)
    );
}

#[test]
fn one_signature_less_than_the_quorum_is_refused() {
    let mut state = configured();
    let mut d = draft(&state);
    d.signers = vec![1];
    assert_eq!(
        transmit(&mut state, &key(101), &encode(&d)).err(),
        Some(ErrorCode::WrongNumberOfSignatures)
    );
}

#[test]
fn one_signature_more_than_the_quorum_is_refused() {
    let mut state = configured();
    let mut d = draft(&state);
    d.signers = vec![1, 2, 3];
    assert_eq!(
        transmit(&mut state, &key(101), &encode(&d)).err(),
        Some(ErrorCode::WrongNumberOfSignatures)
    );
}

#[test]
fn the_same_signer_twice_is_refused() {
    let mut state = configured();
    let mut d = draft(&state);
    d.signers = vec![2, 2];
    assert_eq!(
        transmit(&mut state, &key(101), &encode(&d)).err(),
        Some(ErrorCode::DuplicateSigner)
    );
    assert_eq!(state.config.latest_aggregator_round_id, 0);
    assert_eq!(state.config.epoch, 0);
}

#[test]
fn a_signer_outside_the_set_is_refused() {
    let mut state = configured();
    let mut d = draft(&state);
    d.signers = vec![1, 9];
    assert_eq!(
        transmit(&mut state, &key(101), &encode(&d)).err(),
        Some(ErrorCode::UnauthorizedSigner)
    );
}

#[test]
fn a_signature_over_another_report_is_refused() {
    let mut state = configured();
    let d = draft(&state);
    let mut data = encode(&d);
    // change the median after signing: the signers recovered are strangers
    data[1 + 96 + 52] ^= 1;
    assert_eq!(
        transmit(&mut state, &key(101), &data).err(),
        Some(ErrorCode::UnauthorizedSigner)
    );
}

#[test]
fn a_transmitter_outside_the_set_is_refused() {
    let mut state = configured();
    let d = draft(&state);
    assert_eq!(
        transmit(&mut state, &key(200), &encode(&d)).err(),
        Some(ErrorCode::Unauthorized)
    );
}

#[test]
fn a_report_for_another_configuration_is_refused() {
    let mut state = configured();
    let mut d = draft(&state);
    d.digest[5] ^= 0x10;
    assert_eq!(
        transmit(&mut state, &key(101), &encode(&d)).err(),
        Some(ErrorCode::DigestMismatch)
    );
}

#[test]
fn a_median_out_of_range_is_refused() {
    let mut state = configured();
    let mut d = draft(&state);
    d.median = 1001;
    assert_eq!(
        transmit(&mut state, &key(101), &encode(&d)).err(),
        Some(ErrorCode::MedianOutOfRange)
    );
    d.median = -1001;
    assert_eq!(
        transmit(&mut state, &key(101), &encode(&d)).err(),
        Some(ErrorCode::MedianOutOfRange)
    );
    d.median = 1000;
    assert!(transmit(&mut state, &key(101), &encode(&d)).is_ok());
}

#[test]
fn too_few_observers_are_refused() {
    let mut state = configured();
    let mut d = draft(&state);
    d.observer_count = 1;
    assert_eq!(
        transmit(&mut state, &key(101), &encode(&d)).err(),
        Some(ErrorCode::InvalidInput)
    );
    d.observer_count = 2;
    assert!(transmit(&mut state, &key(101), &encode(&d)).is_ok());
}

#[test]
fn short_or_ragged_data_is_refused() {
    let mut state = configured();
    let d = draft(&state);
    let data = encode(&d);
    assert_eq!(
        transmit(&mut state, &key(101), &[]).err(),
        Some(ErrorCode::InvalidInput)
    );
    // nonce, context and report alone
    assert_eq!(
        transmit(&mut state, &key(101), &data[..158]).err(),
        Some(ErrorCode::InvalidInput)
    );
    // signatures that are not whole units
    assert_eq!(
        transmit(&mut state, &key(101), &data[..data.len() - 1]).err(),
        Some(ErrorCode::InvalidInput)
    );
    assert_eq!(state.config.latest_aggregator_round_id, 0);
}

#[test]
fn a_bad_recovery_id_is_refused() {
    let mut state = configured();
    let d = draft(&state);
    let mut data = encode(&d);
    let last = data.len() - 1;
    data[last] = 9;
    assert_eq!(
        transmit(&mut state, &key(101), &data).err(),
        Some(ErrorCode::InvalidInput)
    );
}

#[test]
fn a_full_round_counter_is_refused() {
    let mut state = configured();
    state.config.latest_aggregator_round_id = u32::MAX;
    let d = draft(&state);
    assert_eq!(
        transmit(&mut state, &key(101), &encode(&d)).err(),
        Some(ErrorCode::Overflow)
    );
    assert_eq!(state.config.epoch, 0);
    assert_eq!(state.config.round, 0);
}

#[test]
fn the_accrued_payment_saturates() {
    let mut state = configured();
    let transmitter = key(102);
    let place = transmitter_place(&state, &transmitter);
    let mut oracle = state.oracles.get(place);
    oracle.payment_gjuels = u64::MAX - 5;
    state.oracles.set(place, oracle);
    let d = draft(&state);
    transmit(&mut state, &transmitter, &encode(&d)).unwrap();
    assert_eq!(state.oracles.get(place).payment_gjuels, u64::MAX);
}

#[test]
fn the_validator_is_told_of_the_answer_and_the_one_before() {
    let mut state = configured();
    let mut feed = chainlink_ocr2::store::Feed {
        header: chainlink_ocr2::feeds::create_feed(8 + 192 + 48 * 4, key(1), b"x", 8, 2, 2)
            .unwrap(),
        live: vec![chainlink_ocr2::store::Transmission::default(); 2],
        historical: vec![chainlink_ocr2::store::Transmission::default(); 2],
    };
    feed.header.writer = key(7);

    let mut d = draft(&state);
    let first = transmit(&mut state, &key(101), &encode(&d)).unwrap();
    chainlink_ocr2::feeds::submit(&mut feed, &key(7), first.round, 5).unwrap();
    // no validator is named
    assert_eq!(validation_request(&state, &feed, &first), None);

    chainlink_ocr2::config::set_validator_config(&mut state, &key(2), key(90), 8_000).unwrap();
    assert_eq!(
        chainlink_ocr2::config::set_validator_config(&mut state, &key(3), key(91), 1).err(),
        Some(ErrorCode::Unauthorized)
    );
    // before the first round there is no answer: 0 stands for it
    assert_eq!(
        validation_request(&state, &feed, &first),
        Some(Validation {
            flagging_threshold: 8_000,
            previous_round_id: 0,
            previous_answer: 0,
            round_id: 1,
            answer: 42,
        })
    );

    d.round = 2;
    d.median = 50;
    let second = transmit(&mut state, &key(101), &encode(&d)).unwrap();
    chainlink_ocr2::feeds::submit(&mut feed, &key(7), second.round, 6).unwrap();
    assert_eq!(
        validation_request(&state, &feed, &second),
        Some(Validation {
            flagging_threshold: 8_000,
            previous_round_id: 1,
            previous_answer: 42,
            round_id: 2,
            answer: 50,
        })
    );
}
