use chainlink_ocr2::pubkey::Pubkey;
use chainlink_ocr2::store::{Feed, Transmission, Transmissions};

fn feed(granularity: u8, live_length: usize, historical_length: usize) -> Feed {
    Feed {
        header: Transmissions {
            version: 2,
            state: Transmissions::NORMAL,
            owner: Pubkey::default(),
            proposed_owner: Pubkey::default(),
            writer: Pubkey::default(),
            description: [0; 32],
            decimals: 18,
            flagging_threshold: 1000,
            latest_round_id: 0,
            granularity,
            live_length: live_length as u32,
            live_cursor: 0,
            historical_cursor: 0,
        },
        live: vec![Transmission::default(); live_length],
        historical: vec![Transmission::default(); historical_length],
    }
}

fn round(i: u32) -> Transmission {
    Transmission {
        slot: u64::from(i),
        answer: i128::from(i),
        timestamp: i,
    }
}

#[test]
fn state_transmissions() {
    let mut store = feed(5, 2, 3);
    for i in 1..=20 {
        store.insert(Transmission {
            slot: u64::from(i),
            answer: i128::from(i),
            timestamp: i,
            ..Default::default()
        });
    }

    assert_eq!(store.fetch(21), None);
    // Live range returns precise round
    assert_eq!(
        store.fetch(20),
        Some(Transmission {
            slot: 20,
            answer: 20,
            timestamp: 20,
            ..Default::default()
        })
    );
    assert_eq!(
        store.fetch(19),
        Some(Transmission {
            slot: 19,
            answer: 19,
            timestamp: 19,
            ..Default::default()
        })
    );
    // Historical range rounds down
    assert_eq!(
        store.fetch(18),
        Some(Transmission {
            slot: 15,
            answer: 15,
            timestamp: 15,
            ..Default::default()
        })
    );
    assert_eq!(
        store.fetch(15),
        Some(Transmission {
            slot: 15,
            answer: 15,
            timestamp: 15,
            ..Default::default()
        })
    );
    assert_eq!(
        store.fetch(14),
        Some(Transmission {
            slot: 10,
            answer: 10,
            timestamp: 10,
            ..Default::default()
        })
    );
    assert_eq!(
        store.fetch(10),
        Some(Transmission {
            slot: 10,
            answer: 10,
            timestamp: 10,
            ..Default::default()
        })
    );
    // Out of range
    assert_eq!(store.fetch(9), None);
}

#[test]
fn latest_is_none_before_the_first_round() {
    let store = feed(5, 2, 3);
    assert_eq!(store.latest(), None);
}

#[test]
fn latest_returns_the_round_just_inserted() {
    let mut store = feed(3, 4, 2);
    for i in 1..=11 {
        store.insert(round(i));
        assert_eq!(store.latest(), Some(round(i)));
        assert_eq!(store.header.latest_round_id, i);
    }
}

#[test]
fn rounds_between_the_windows_are_gone() {
    let mut store = feed(5, 2, 3);
    for i in 1..=24 {
        store.insert(round(i));
    }
    assert_eq!(store.fetch(24), Some(round(24)));
    assert_eq!(store.fetch(23), Some(round(23)));
    // neither live nor sampled any more
    assert_eq!(store.fetch(22), None);
    assert_eq!(store.fetch(21), None);
    assert_eq!(store.fetch(20), Some(round(20)));
    assert_eq!(store.fetch(12), Some(round(10)));
    assert_eq!(store.fetch(9), None);
}

#[test]
fn cursors_wrap_around() {
    let mut store = feed(2, 3, 2);
    for i in 1..=7 {
        store.insert(round(i));
    }
    assert_eq!(store.header.live_cursor, 7 % 3);
    assert_eq!(store.header.historical_cursor, 3 % 2);
    assert_eq!(store.fetch(7), Some(round(7)));
    assert_eq!(store.fetch(5), Some(round(5)));
    assert_eq!(store.fetch(4), Some(round(4)));
    assert_eq!(store.fetch(3), None);
    assert_eq!(store.fetch(2), None);
}
