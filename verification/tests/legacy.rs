use chainlink_ocr2::access;
use chainlink_ocr2::config::initialize;
use chainlink_ocr2::error::ErrorCode;
use chainlink_ocr2::flux::Error;
use chainlink_ocr2::forwarder;
use chainlink_ocr2::proposal::create_proposal;
use chainlink_ocr2::pubkey::Pubkey;
use chainlink_ocr2::ring::{Transmission, Transmissions};
use chainlink_ocr2::state::{Oracle, ProposedOracle, SigningKey};
use chainlink_ocr2::validator;

fn key(n: u8) -> Pubkey {
    Pubkey::new([n; 32])
}

fn round(i: u32) -> Transmission {
    Transmission { answer: i128::from(i), timestamp: i }
}

#[test]
fn transmissions() {
    let mut data = Transmissions::new(8192);

    // place the first round on the other end of the ring
    data.transmissions[8191] = Transmission { answer: 1, timestamp: 1 };
    data.latest_round_id += 1;

    data.store_round(Transmission { answer: 2, timestamp: 2 });
    data.store_round(Transmission { answer: 3, timestamp: 3 });

    assert_eq!(data.fetch_round(1), Some(Transmission { answer: 1, timestamp: 1 }));
    assert_eq!(data.fetch_round(2), Some(Transmission { answer: 2, timestamp: 2 }));
    assert_eq!(data.fetch_round(3), Some(Transmission { answer: 3, timestamp: 3 }));
}

#[test]
fn a_ring_forgets_its_oldest_rounds() {
    let mut ring = Transmissions::new(4);
    assert_eq!(ring.fetch_round(1), None);
    for i in 1..=6 {
        ring.store_round(round(i));
        assert_eq!(ring.fetch_round(i), Some(round(i)));
    }
    assert_eq!(ring.latest_round_id, 6);
    assert_eq!(ring.cursor, 2);
    assert_eq!(ring.fetch_round(7), None);
    assert_eq!(ring.fetch_round(5), Some(round(5)));
    assert_eq!(ring.fetch_round(3), Some(round(3)));
    // exactly one length of the ring back: written over by round 6
    assert_eq!(ring.fetch_round(2), None);
    assert_eq!(ring.fetch_round(1), None);
}

#[test]
fn a_round_one_ring_back_is_gone_wherever_the_cursor_stands() {
    let mut ring = Transmissions::new(2);
    for i in 1..=3 {
        ring.store_round(round(i));
    }
    assert_eq!(ring.cursor, 1);
    assert_eq!(ring.fetch_round(3), Some(round(3)));
    assert_eq!(ring.fetch_round(2), Some(round(2)));
    assert_eq!(ring.fetch_round(1), None);
    // with the cursor back at the start
    ring.store_round(round(4));
    assert_eq!(ring.cursor, 0);
    assert_eq!(ring.fetch_round(4), Some(round(4)));
    assert_eq!(ring.fetch_round(3), Some(round(3)));
    assert_eq!(ring.fetch_round(2), None);
}

#[test]
fn a_round_without_a_timestamp_is_not_found() {
    let mut ring = Transmissions::new(4);
    ring.store_round(Transmission { answer: 5, timestamp: 0 });
    assert_eq!(ring.fetch_round(1), None);
    assert_eq!(ring.fetch_round(0), None);
}

fn controller() -> access::AccessController {
    let mut controller = access::initialize(key(50));
    access::add_access(&mut controller, &key(50), key(60)).unwrap();
    controller
}

#[test]
fn deviating_answers_raise_flags() {
    // owner 1, raising controller 2, lowering controller 3
    let mut state = validator::initialize(key(1), key(2), key(3));
    let raisers = controller();

    // within 10%: no flag
    validator::validate(&mut state, &key(2), &raisers, &key(60), 10_000, 1000, 1050, key(70))
        .unwrap();
    assert!(state.flags.is_empty());
    validator::validate(&mut state, &key(2), &raisers, &key(60), 10_000, 1000, 1200, key(70))
        .unwrap();
    assert_eq!(state.flags.as_slice(), &[key(70)]);
    // a flag is raised once
    validator::validate(&mut state, &key(2), &raisers, &key(1), 10_000, 1000, 1200, key(70))
        .unwrap();
    validator::validate(&mut state, &key(2), &raisers, &key(1), 10_000, 1000, 1200, key(71))
        .unwrap();
    assert_eq!(state.flags.as_slice(), &[key(70), key(71)]);

    assert_eq!(
        validator::validate(&mut state, &key(9), &raisers, &key(60), 10_000, 1000, 1200, key(72)),
        Err(ErrorCode::InvalidInput)
    );
    assert_eq!(
        validator::validate(&mut state, &key(2), &raisers, &key(61), 10_000, 1000, 1200, key(72)),
        Err(ErrorCode::Unauthorized)
    );
    assert_eq!(state.flags.len(), 2);
}

#[test]
fn a_full_list_of_flags_takes_no_more() {
    let mut state = validator::initialize(key(1), key(2), key(3));
    let raisers = controller();
    for n in 0u8..128 {
        validator::validate(&mut state, &key(2), &raisers, &key(1), 0, 10, 20, key(n)).unwrap();
    }
    assert_eq!(state.flags.len(), 128);
    assert_eq!(
        validator::validate(&mut state, &key(2), &raisers, &key(1), 0, 10, 20, key(200)),
        Err(ErrorCode::Full)
    );
    // a flag that is raised already, and an answer that does not deviate, need no room
    assert_eq!(
        validator::validate(&mut state, &key(2), &raisers, &key(1), 0, 10, 20, key(5)),
        Ok(())
    );
    assert_eq!(
        validator::validate(&mut state, &key(2), &raisers, &key(1), 0, 10, 10, key(200)),
        Ok(())
    );
}

#[test]
fn flags_are_lowered() {
    let mut state = validator::initialize(key(1), key(2), key(3));
    let members = controller();
    for n in [70u8, 71, 72, 73] {
        validator::validate(&mut state, &key(2), &members, &key(1), 0, 10, 20, key(n)).unwrap();
    }
    assert_eq!(
        validator::lower_flags(&mut state, &key(3), &members, &key(61), &[key(71)]),
        Err(ErrorCode::Unauthorized)
    );
    assert_eq!(
        validator::lower_flags(&mut state, &key(2), &members, &key(60), &[key(71)]),
        Err(ErrorCode::InvalidInput)
    );
    validator::lower_flags(&mut state, &key(3), &members, &key(60), &[key(73), key(71), key(99)])
        .unwrap();
    assert_eq!(state.flags.as_slice(), &[key(70), key(72)]);
    validator::lower_flags(&mut state, &key(3), &members, &key(1), &[]).unwrap();
    assert_eq!(state.flags.len(), 2);
}

#[test]
fn a_validator_changes_hands_and_controllers() {
    let mut state = validator::initialize(key(1), key(2), key(3));
    assert_eq!(
        validator::transfer_ownership(&mut state, &key(9), key(8)),
        Err(ErrorCode::Unauthorized)
    );
    assert_eq!(
        validator::transfer_ownership(&mut state, &key(1), Pubkey::default()),
        Err(ErrorCode::InvalidInput)
    );
    assert_eq!(validator::transfer_ownership(&mut state, &key(1), key(8)), Ok(()));
    assert_eq!(validator::accept_ownership(&mut state, &key(1)), Err(ErrorCode::Unauthorized));
    assert_eq!(validator::accept_ownership(&mut state, &key(8)), Ok(()));
    assert_eq!(state.owner, key(8));
    assert_eq!(
        validator::set_raising_access_controller(&mut state, &key(1), key(20)),
        Err(ErrorCode::Unauthorized)
    );
    assert_eq!(validator::set_raising_access_controller(&mut state, &key(8), key(20)), Ok(()));
    assert_eq!(validator::set_lowering_access_controller(&mut state, &key(8), key(30)), Ok(()));
    assert_eq!(state.raising_access_controller, key(20));
    assert_eq!(state.lowering_access_controller, key(30));
}

fn oracle(signer: u8, transmitter: u8) -> Oracle {
    Oracle {
        transmitter: key(transmitter),
        signer: SigningKey { key: [signer; 20] },
        payee: Pubkey::default(),
        proposed_payee: Pubkey::default(),
        from_round_id: 0,
        payment_gjuels: 0,
    }
}

#[test]
fn state_from_outside_is_tested() {
    let mut state = initialize(key(1), 254, key(2), key(3), key(4), key(5), key(6), 0, 100);
    assert!(state.is_well_formed());
    for n in 1u8..=4 {
        state.oracles.push(oracle(n, 100 + n));
    }
    // four oracles tolerate one faulty one, not none and not two
    assert!(!state.is_well_formed());
    state.config.f = 2;
    assert!(!state.is_well_formed());
    state.config.f = 1;
    assert!(state.is_well_formed());
    // out of order
    state.oracles.set(2, oracle(2, 103));
    assert!(!state.is_well_formed());
    state.oracles.set(2, oracle(0, 103));
    assert!(!state.is_well_formed());
    // the same transmitter twice
    state.oracles.set(2, oracle(3, 101));
    assert!(!state.is_well_formed());
    state.oracles.set(2, oracle(3, 103));
    assert!(state.is_well_formed());
    // more oracles than the set can hold
    for n in 5u8..=20 {
        state.oracles.push(oracle(n, 100 + n));
    }
    assert!(!state.is_well_formed());
}

#[test]
fn proposals_and_access_lists_from_outside_are_tested() {
    let mut proposal = create_proposal(key(2), 1).unwrap();
    assert!(proposal.is_well_formed());
    for (signer, transmitter) in [(1u8, 101u8), (2, 102), (3, 103), (4, 104)] {
        proposal.oracles.push(ProposedOracle {
            transmitter: key(transmitter),
            signer: SigningKey { key: [signer; 20] },
            payee: Pubkey::default(),
        });
    }
    assert!(!proposal.is_well_formed());
    proposal.f = 1;
    assert!(proposal.is_well_formed());
    proposal.oracles.push(ProposedOracle {
        transmitter: key(101),
        signer: SigningKey { key: [5; 20] },
        payee: Pubkey::default(),
    });
    assert!(!proposal.is_well_formed());

    let mut controller = access::initialize(key(1));
    assert!(controller.is_well_formed());
    controller.access_list.push(key(10));
    controller.access_list.push(key(20));
    assert!(controller.is_well_formed());
    controller.access_list.push(key(20));
    assert!(!controller.is_well_formed());
}

#[test]
fn a_forwarded_report_is_taken_apart() {
    // 65 units of 32 bytes are 32 signature units
    let mut data = vec![65u8];
    data.extend(std::iter::repeat(7u8).take(32 * 65));
    data.extend_from_slice(&[1u8; 32]);
    data.extend_from_slice(&[2u8; 32]);
    data.extend_from_slice(b"payload");
    let report = forwarder::report(&data).unwrap();
    assert_eq!(report.raw_signatures.len(), 32 * 65);
    assert_eq!(report.raw_signatures.len() % forwarder::SIGNATURE_LEN, 0);
    assert_eq!(report.raw_report, &data[1 + 32 * 65..]);
    assert_eq!(report.meta, &data[1 + 32 * 65..1 + 32 * 65 + 64]);
    let expected: [u8; 32] = [
        0x88, 0x13, 0x48, 0x58, 0xff, 0xe3, 0xef, 0x3c, 0xd9, 0xb0, 0x2a, 0xed, 0x79, 0xd9, 0x6a,
        0xc1, 0x83, 0x4a, 0x91, 0x8f, 0x67, 0xdc, 0x2f, 0xd6, 0xb7, 0xea, 0xfc, 0xa4, 0x2d, 0xbb,
        0x76, 0xe9,
    ];
    assert_eq!(report.hash, expected);

    // no signatures at all
    let mut bare = vec![0u8];
    bare.extend_from_slice(&[3u8; 65]);
    let report = forwarder::report(&bare).unwrap();
    assert!(report.raw_signatures.is_empty());
    assert_eq!(report.raw_report, &bare[1..]);

    // more signatures announced than there are
    let mut short = vec![130u8];
    short.extend_from_slice(&[3u8; 32 * 65 + 64]);
    assert_eq!(forwarder::report(&short).err(), Some(ErrorCode::InvalidInput));
    let mut without_ids = vec![65u8];
    without_ids.extend_from_slice(&[3u8; 32 * 65 + 63]);
    assert_eq!(forwarder::report(&without_ids).err(), Some(ErrorCode::InvalidInput));

    // too short, and signatures that are not whole units
    assert_eq!(forwarder::report(&bare[..65]).err(), Some(ErrorCode::InvalidInput));
    let mut ragged = vec![1u8];
    ragged.extend_from_slice(&[3u8; 32 + 64]);
    assert_eq!(forwarder::report(&ragged).err(), Some(ErrorCode::InvalidInput));

    let state = forwarder::initialize(key(1), 253);
    assert_eq!(state.version, forwarder::STATE_VERSION);
    assert_eq!(state.authority_nonce, 253);
    assert_eq!(state.owner, key(1));
}

#[test]
fn refusals_are_told_in_words() {
    assert_eq!(ErrorCode::Unauthorized.message(), "Unauthorized");
    assert_eq!(ErrorCode::StaleReport.message(), "Stale report");
    assert_eq!(
        ErrorCode::PaymentsRemaining.message(),
        "Leftover payments remaining, please call payRemaining first"
    );
    assert_eq!(ErrorCode::UnauthorizedSigner.message(), "Oracle signer key not found");
    assert_eq!(Error::InvalidOracle.message(), "Invalid oracle");
    assert_eq!(Error::Overflow.message(), "Operation overflowed");
}
