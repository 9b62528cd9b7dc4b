use chainlink_ocr2::access;
use chainlink_ocr2::deviation::{abs_diff, is_valid, unsigned_abs};
use chainlink_ocr2::error::ErrorCode;
use chainlink_ocr2::feeds::{
    accept_feed_ownership, accept_store_ownership, create_feed, description_bytes,
    has_lowering_access, initialize, lower_flag, query, set_lowering_access_controller,
    set_validator_config, set_writer, submit, transfer_feed_ownership, transfer_store_ownership,
    with_store, Answer, Round, Scope,
};
use chainlink_ocr2::pubkey::Pubkey;
use chainlink_ocr2::store::{Feed, NewTransmission, Transmission, Transmissions};

fn key(n: u8) -> Pubkey {
    Pubkey::new([n; 32])
}

/// An account with room for `rounds` rounds.
fn account_size(rounds: usize) -> usize {
    8 + 192 + 48 * rounds
}

fn feed() -> Feed {
    let mut header = create_feed(account_size(5), key(1), b"ETH / USD", 8, 5, 2).unwrap();
    header.writer = key(7);
    header.flagging_threshold = 10_000;
    with_store(header, vec![Transmission::default(); 5]).unwrap()
}

fn answer(answer: i128, timestamp: u64) -> NewTransmission {
    NewTransmission { timestamp, answer }
}

#[test]
fn a_feed_is_created() {
    let header = create_feed(account_size(5), key(1), b"ETH / USD", 8, 5, 2).unwrap();
    assert_eq!(header.version, 2);
    assert_eq!(header.state, Transmissions::NORMAL);
    assert_eq!(header.owner, key(1));
    assert_eq!(header.proposed_owner, Pubkey::default());
    assert_eq!(header.writer, Pubkey::default());
    let mut description = [0u8; 32];
    description[..9].copy_from_slice(b"ETH / USD");
    assert_eq!(header.description, description);
    assert_eq!(header.decimals, 8);
    assert_eq!(header.granularity, 5);
    assert_eq!(header.live_length, 2);
    assert_eq!(header.latest_round_id, 0);
    assert_eq!(header.live_cursor, 0);
    assert_eq!(header.historical_cursor, 0);
}

#[test]
fn a_feed_needs_an_account_of_the_right_size() {
    assert_eq!(
        create_feed(199, key(1), b"x", 8, 5, 2).err(),
        Some(ErrorCode::InsufficientSize)
    );
    assert_eq!(
        create_feed(account_size(5) + 1, key(1), b"x", 8, 5, 2).err(),
        Some(ErrorCode::InsufficientSize)
    );
    // the live ring does not fit
    assert_eq!(
        create_feed(account_size(5), key(1), b"x", 8, 5, 6).err(),
        Some(ErrorCode::InvalidInput)
    );
    assert_eq!(
        create_feed(account_size(5), key(1), b"x", 8, 5, 0).err(),
        Some(ErrorCode::InvalidInput)
    );
    assert_eq!(
        create_feed(account_size(5), key(1), b"x", 8, 0, 2).err(),
        Some(ErrorCode::InvalidInput)
    );
    assert_eq!(
        create_feed(account_size(5), key(1), &[b'a'; 33], 8, 5, 2).err(),
        Some(ErrorCode::InvalidInput)
    );
    // the live ring has to leave room for the historical one
    assert_eq!(
        create_feed(account_size(5), key(1), b"x", 8, 5, 5).err(),
        Some(ErrorCode::InvalidInput)
    );
    assert!(create_feed(account_size(5), key(1), &[b'a'; 32], 8, 5, 4).is_ok());
}

#[test]
fn a_feed_is_put_together_from_its_account() {
    let header = create_feed(account_size(5), key(1), b"x", 8, 5, 2).unwrap();
    let rounds: Vec<Transmission> = (1..=5)
        .map(|i| Transmission { slot: i, timestamp: i as u32, answer: i as i128 })
        .collect();
    let feed = with_store(header, rounds.clone()).unwrap();
    assert_eq!(feed.live, rounds[..2].to_vec());
    assert_eq!(feed.historical, rounds[2..].to_vec());
    assert!(feed.is_well_formed());

    let mut old = header;
    old.version = 1;
    assert_eq!(with_store(old, rounds.clone()).err(), Some(ErrorCode::InvalidVersion));

    // a feed without a historical ring is not well-formed
    let mut all_live = header;
    all_live.live_length = 5;
    assert!(!with_store(all_live, rounds).unwrap().is_well_formed());
}

#[test]
fn only_the_writer_submits() {
    let mut feed = feed();
    assert_eq!(
        submit(&mut feed, &key(8), answer(100, 1), 11),
        Err(ErrorCode::Unauthorized)
    );
    assert_eq!(feed.header.latest_round_id, 0);
    assert_eq!(submit(&mut feed, &key(7), answer(100, 1), 11), Ok(()));
    assert_eq!(feed.header.latest_round_id, 1);
    assert_eq!(
        feed.latest(),
        Some(Transmission { slot: 11, timestamp: 1, answer: 100 })
    );
}

#[test]
fn the_low_bits_of_the_timestamp_are_kept() {
    let mut feed = feed();
    submit(&mut feed, &key(7), answer(100, (1 << 32) + 5), 11).unwrap();
    assert_eq!(feed.latest().unwrap().timestamp, 5);
}

#[test]
fn an_answer_that_deviates_raises_the_flag() {
    let mut feed = feed();
    // the threshold is 10%
    submit(&mut feed, &key(7), answer(1000, 1), 11).unwrap();
    assert_eq!(feed.header.state, Transmissions::NORMAL);
    submit(&mut feed, &key(7), answer(1100, 2), 12).unwrap();
    assert_eq!(feed.header.state, Transmissions::NORMAL);
    submit(&mut feed, &key(7), answer(1211, 3), 13).unwrap();
    assert_eq!(feed.header.state, Transmissions::FLAGGED);
    // an answer within the threshold does not lower it
    submit(&mut feed, &key(7), answer(1211, 4), 14).unwrap();
    assert_eq!(feed.header.state, Transmissions::FLAGGED);
}

#[test]
fn deviation_is_measured_against_the_previous_answer() {
    // after 0 every answer is valid
    assert!(is_valid(0, 0, i128::MAX));
    assert!(is_valid(10_000, 1000, 1100));
    assert!(is_valid(10_000, 1000, 900));
    assert!(!is_valid(10_000, 1000, 1101));
    assert!(!is_valid(10_000, 1000, 899));
    assert!(is_valid(10_000, -1000, -1100));
    assert!(!is_valid(10_000, -1000, 1000));
    // 200% of the previous answer
    assert!(is_valid(200_000, -1000, 1000));
    assert!(is_valid(0, 5, 5));
    assert!(!is_valid(0, 100_000, 100_001));
    // too large a change to scale
    assert!(!is_valid(u32::MAX, i128::MIN, i128::MAX));
    assert!(!is_valid(u32::MAX, 1, i128::MAX));
}

#[test]
fn distances_fit_in_128_bits() {
    assert_eq!(abs_diff(3, 10), 7);
    assert_eq!(abs_diff(10, 3), 7);
    assert_eq!(abs_diff(-3, 10), 13);
    assert_eq!(abs_diff(-10, -3), 7);
    assert_eq!(abs_diff(i128::MIN, i128::MAX), u128::MAX);
    assert_eq!(abs_diff(i128::MAX, i128::MIN), u128::MAX);
    assert_eq!(abs_diff(i128::MIN, i128::MIN), 0);
    assert_eq!(unsigned_abs(i128::MIN), 1u128 << 127);
    assert_eq!(unsigned_abs(-5), 5);
    assert_eq!(unsigned_abs(5), 5);
}

#[test]
fn queries_are_answered() {
    let mut feed = feed();
    assert!(matches!(query(&feed, Scope::Version), Ok(Answer::Version(2))));
    assert!(matches!(query(&feed, Scope::Decimals), Ok(Answer::Decimals(8))));
    match query(&feed, Scope::Description) {
        Ok(Answer::Description(bytes)) => assert_eq!(bytes, b"ETH / USD".to_vec()),
        _ => panic!("no description"),
    }
    match query(&feed, Scope::Aggregator) {
        Ok(Answer::Aggregator(writer)) => assert_eq!(writer, key(7)),
        _ => panic!("no aggregator"),
    }
    assert!(matches!(
        query(&feed, Scope::LatestRoundData),
        Err(ErrorCode::NotFound)
    ));
    assert!(matches!(
        query(&feed, Scope::RoundData { round_id: 1 }),
        Err(ErrorCode::NotFound)
    ));
    for i in 1..=7u64 {
        submit(&mut feed, &key(7), answer(1000 + i as i128, i), 10 + i).unwrap();
    }
    match query(&feed, Scope::LatestRoundData) {
        Ok(Answer::LatestRoundData(round)) => assert_eq!(
            round,
            Round { round_id: 7, slot: 17, timestamp: 7, answer: 1007 }
        ),
        _ => panic!("no latest round"),
    }
    match query(&feed, Scope::RoundData { round_id: 6 }) {
        Ok(Answer::RoundData(round)) => assert_eq!(
            round,
            Round { round_id: 6, slot: 16, timestamp: 6, answer: 1006 }
        ),
        _ => panic!("no round"),
    }
    // the round asked for is named, the round kept is handed out
    match query(&feed, Scope::RoundData { round_id: 5 }) {
        Ok(Answer::RoundData(round)) => assert_eq!(
            round,
            Round { round_id: 5, slot: 15, timestamp: 5, answer: 1005 }
        ),
        _ => panic!("no round"),
    }
    assert!(matches!(
        query(&feed, Scope::RoundData { round_id: 8 }),
        Err(ErrorCode::NotFound)
    ));
}

#[test]
fn a_description_ends_at_its_first_zero_byte() {
    let mut description = [0u8; 32];
    assert!(description_bytes(&description).is_empty());
    description[0] = b'a';
    description[1] = b'b';
    description[3] = b'c';
    assert_eq!(description_bytes(&description), b"ab".to_vec());
    assert_eq!(description_bytes(&[b'z'; 32]), vec![b'z'; 32]);
}

#[test]
fn a_feed_is_configured_by_its_owner() {
    let mut header = create_feed(account_size(5), key(1), b"x", 8, 5, 2).unwrap();
    assert_eq!(set_writer(&mut header, None, &key(2), key(7)), Err(ErrorCode::Unauthorized));
    assert_eq!(set_writer(&mut header, None, &key(1), key(7)), Ok(()));
    assert_eq!(header.writer, key(7));
    assert_eq!(
        set_validator_config(&mut header, None, &key(2), 500),
        Err(ErrorCode::Unauthorized)
    );
    assert_eq!(set_validator_config(&mut header, None, &key(1), 500), Ok(()));
    assert_eq!(header.flagging_threshold, 500);

    // owned by a store: the owner of the store signs
    let store = initialize(key(40), key(41));
    header.owner = key(30);
    assert_eq!(
        set_writer(&mut header, Some(&store), &key(30), key(8)),
        Err(ErrorCode::Unauthorized)
    );
    assert_eq!(set_writer(&mut header, Some(&store), &key(40), key(8)), Ok(()));
    assert_eq!(header.writer, key(8));
}

#[test]
fn a_feed_changes_hands_in_two_steps() {
    let mut header = create_feed(account_size(5), key(1), b"x", 8, 5, 2).unwrap();
    assert_eq!(
        transfer_feed_ownership(&mut header, None, &key(2), key(3)),
        Err(ErrorCode::Unauthorized)
    );
    assert_eq!(
        transfer_feed_ownership(&mut header, None, &key(1), Pubkey::default()),
        Err(ErrorCode::InvalidInput)
    );
    assert_eq!(transfer_feed_ownership(&mut header, None, &key(1), key(3)), Ok(()));
    assert_eq!(header.proposed_owner, key(3));
    assert_eq!(
        accept_feed_ownership(&mut header, None, &key(1)),
        Err(ErrorCode::Unauthorized)
    );
    // the proposed owner is a store: its owner accepts
    let store = initialize(key(40), key(41));
    assert_eq!(accept_feed_ownership(&mut header, Some(&store), &key(40)), Ok(()));
    assert_eq!(header.owner, key(3));
    assert_eq!(header.proposed_owner, Pubkey::default());
}

#[test]
fn a_store_changes_hands_in_two_steps() {
    let mut store = initialize(key(40), key(41));
    assert_eq!(
        transfer_store_ownership(&mut store, &key(1), key(42)),
        Err(ErrorCode::Unauthorized)
    );
    assert_eq!(
        transfer_store_ownership(&mut store, &key(40), Pubkey::default()),
        Err(ErrorCode::InvalidInput)
    );
    assert_eq!(transfer_store_ownership(&mut store, &key(40), key(42)), Ok(()));
    assert_eq!(accept_store_ownership(&mut store, &key(40)), Err(ErrorCode::Unauthorized));
    assert_eq!(accept_store_ownership(&mut store, &key(42)), Ok(()));
    assert_eq!(store.owner, key(42));
    assert_eq!(store.proposed_owner, Pubkey::default());
    assert_eq!(
        set_lowering_access_controller(&mut store, &key(40), key(43)),
        Err(ErrorCode::Unauthorized)
    );
    assert_eq!(set_lowering_access_controller(&mut store, &key(42), key(43)), Ok(()));
    assert_eq!(store.lowering_access_controller, key(43));
}

#[test]
fn a_flag_is_lowered_by_those_with_access() {
    let store = initialize(key(40), key(41));
    let mut controller = access::initialize(key(50));
    access::add_access(&mut controller, &key(50), key(60)).unwrap();

    // the owner of the store
    assert_eq!(
        has_lowering_access(&key(30), Some(&store), &key(99), &controller, &key(40)),
        Ok(())
    );
    // somebody listed by the store's controller
    assert_eq!(
        has_lowering_access(&key(30), Some(&store), &key(41), &controller, &key(60)),
        Ok(())
    );
    // another controller
    assert_eq!(
        has_lowering_access(&key(30), Some(&store), &key(99), &controller, &key(60)),
        Err(ErrorCode::InvalidInput)
    );
    assert_eq!(
        has_lowering_access(&key(30), Some(&store), &key(41), &controller, &key(61)),
        Err(ErrorCode::Unauthorized)
    );
    // without a store only the owner of the feed
    assert_eq!(
        has_lowering_access(&key(30), None, &key(41), &controller, &key(30)),
        Ok(())
    );
    assert_eq!(
        has_lowering_access(&key(30), None, &key(41), &controller, &key(60)),
        Err(ErrorCode::Unauthorized)
    );

    let mut header = create_feed(account_size(5), key(30), b"x", 8, 5, 2).unwrap();
    header.state = Transmissions::FLAGGED;
    assert_eq!(
        lower_flag(&mut header, Some(&store), &key(41), &controller, &key(61)),
        Err(ErrorCode::Unauthorized)
    );
    assert_eq!(header.state, Transmissions::FLAGGED);
    assert_eq!(
        lower_flag(&mut header, Some(&store), &key(41), &controller, &key(60)),
        Ok(())
    );
    assert_eq!(header.state, Transmissions::NORMAL);
}
