use chainlink_ocr2::aggregator::{
    collect_fresh, fresh, get_round, get_submissions, median, process_initialize, process_submit,
    sort_values, Aggregator, Config, Fault, Submission,
};
use chainlink_ocr2::flux::{decimal, Error};
use chainlink_ocr2::pubkey::Pubkey;

fn key(n: u8) -> Pubkey {
    Pubkey::new([n; 32])
}

fn config(oracles: Vec<Pubkey>) -> Config {
    Config {
        oracles,
        min_answer_threshold: 2,
        staleness_threshold: 10,
        decimals: 9,
    }
}

fn submit(
    state: &mut Aggregator,
    rounds: &mut Vec<Submission>,
    pos: &mut u64,
    oracle: u8,
    now: i64,
    value: u128,
) -> Result<(), Fault> {
    process_submit(state, rounds, pos, &key(oracle), true, now, value, now)
}

#[test]
fn test_it_works() {
    let owner = key(1);
    let (oracle0, oracle1, oracle2, impostor) = (10, 11, 12, 13);
    let mut rounds = vec![Submission::default(); 16];
    let mut pos = 0u64;
    let mut now = 1_000;

    // Initialize a new feed
    let mut config = config(vec![key(oracle0), key(oracle1)]);
    let mut state = process_initialize(None, config.clone(), owner, true, true, now).unwrap();

    // submit a value from oracle0
    submit(&mut state, &mut rounds, &mut pos, oracle0, now, decimal(5, config.decimals)).unwrap();

    // reject an impostor submission
    assert_eq!(
        submit(&mut state, &mut rounds, &mut pos, impostor, now, decimal(5, config.decimals)),
        Err(Fault::Program(Error::InvalidOracle))
    );
    assert_eq!(Error::InvalidOracle.code(), 4);

    // submit a value from oracle1
    now += 1;
    submit(&mut state, &mut rounds, &mut pos, oracle1, now, decimal(4, config.decimals)).unwrap();

    // 4.5 (9 decimal places)
    assert_eq!(state.answer, Some(4_500_000_000));

    // reconfigure the aggregator, swapping oracle1 for oracle2
    config.oracles = vec![key(oracle0), key(oracle2)];
    now += 1;
    let mut state =
        process_initialize(Some(state), config.clone(), owner, true, true, now).unwrap();
    assert_eq!(state.answer, None);

    // submit from oracle2 succeeds
    now += 1;
    submit(&mut state, &mut rounds, &mut pos, oracle2, now, decimal(4, config.decimals)).unwrap();

    // submit from oracle0 succeeds
    now += 1;
    submit(&mut state, &mut rounds, &mut pos, oracle0, now, decimal(8, config.decimals)).unwrap();

    // submit from oracle1 now fails
    now += 1;
    assert_eq!(
        submit(&mut state, &mut rounds, &mut pos, oracle1, now, decimal(5, config.decimals)),
        Err(Fault::Program(Error::InvalidOracle))
    );

    // 6.0 (9 decimal places)
    assert_eq!(state.answer, Some(6_000_000_000));

    // both answers were put down, with the time they held from
    assert_eq!(pos, 2);
    assert_eq!(rounds[0], Submission(1_001, 4_500_000_000));
    assert_eq!(rounds[1], Submission(1_004, 6_000_000_000));
}

#[test]
fn an_aggregator_is_set_up() {
    let state = process_initialize(None, config(vec![key(10), key(11)]), key(1), true, true, 77)
        .unwrap();
    assert!(state.is_initialized);
    assert_eq!(state.version, 1);
    assert_eq!(state.owner, key(1));
    assert_eq!(state.updated_at, 77);
    assert_eq!(state.answer, None);
    assert_eq!(state.submissions, [Submission(0, 0); 8]);

    // set up anew: the owner stays
    let again =
        process_initialize(Some(state), config(vec![key(12)]), key(2), true, true, 78).unwrap();
    assert_eq!(again.owner, key(1));
    assert_eq!(again.config.oracles, vec![key(12)]);
    assert_eq!(again.updated_at, 78);
}

#[test]
fn setting_up_is_refused() {
    let ok = config(vec![key(10), key(11)]);
    assert_eq!(
        process_initialize(None, ok.clone(), Pubkey::default(), true, true, 1).err(),
        Some(Fault::InvalidArgument)
    );
    assert_eq!(
        process_initialize(None, ok.clone(), key(1), false, true, 1).err(),
        Some(Fault::Program(Error::MissingSignature))
    );
    assert_eq!(
        process_initialize(None, ok.clone(), key(1), true, false, 1).err(),
        Some(Fault::Program(Error::NotRentExempt))
    );
    let mut low = ok;
    low.min_answer_threshold = 1;
    assert_eq!(
        process_initialize(None, low, key(1), true, true, 1).err(),
        Some(Fault::InvalidArgument)
    );
}

#[test]
fn a_submission_is_refused() {
    let mut state =
        process_initialize(None, config(vec![key(10), key(11)]), key(1), true, true, 1).unwrap();
    let mut rounds = vec![Submission::default(); 4];
    let mut pos = 0u64;
    assert_eq!(
        process_submit(&mut state, &mut rounds, &mut pos, &Pubkey::default(), true, 5, 1, 5),
        Err(Fault::InvalidArgument)
    );
    assert_eq!(
        process_submit(&mut state, &mut rounds, &mut pos, &key(10), false, 5, 1, 5),
        Err(Fault::Program(Error::MissingSignature))
    );
    let mut blank = state.clone();
    blank.is_initialized = false;
    assert_eq!(
        process_submit(&mut blank, &mut rounds, &mut pos, &key(10), true, 5, 1, 5),
        Err(Fault::UninitializedAccount)
    );
    assert_eq!(state.submissions, [Submission(0, 0); 8]);
}

#[test]
fn stale_submissions_do_not_count() {
    let mut state =
        process_initialize(None, config(vec![key(10), key(11), key(12)]), key(1), true, true, 1)
            .unwrap();
    let mut rounds = vec![Submission::default(); 2];
    let mut pos = 0u64;
    submit(&mut state, &mut rounds, &mut pos, 10, 100, 10).unwrap();
    // eleven seconds later the first submission is stale
    submit(&mut state, &mut rounds, &mut pos, 11, 111, 20).unwrap();
    assert_eq!(state.answer, None);
    assert_eq!(pos, 0);
    submit(&mut state, &mut rounds, &mut pos, 12, 111, 40).unwrap();
    assert_eq!(state.answer, Some(30));
    // ten seconds are not too old
    submit(&mut state, &mut rounds, &mut pos, 10, 121, 50).unwrap();
    assert_eq!(state.answer, Some(30));
    // the ring of past answers wraps around
    assert_eq!(pos, 0);
    assert_eq!(rounds, vec![Submission(111, 30), Submission(121, 30)]);

    assert!(fresh(&Submission(100, 1), 110, 10));
    assert!(!fresh(&Submission(100, 1), 111, 10));
    assert!(!fresh(&Submission(0, 1), 5, 10));
    // a submission from the future counts
    assert!(fresh(&Submission(200, 1), 100, 10));
    assert!(fresh(&Submission(i64::MAX, 1), i64::MIN, 10));
    assert!(!fresh(&Submission(i64::MIN, 1), i64::MAX, 10));
    assert_eq!(
        collect_fresh(&[Submission(100, 1), Submission(0, 2), Submission(105, 3)], 112, 10),
        vec![3]
    );
}

#[test]
fn the_median_is_the_mean_around_the_middle() {
    assert_eq!(sort_values(&[5, 1, 4, 1, 3]), vec![1, 1, 3, 4, 5]);
    assert!(sort_values(&[]).is_empty());
    assert_eq!(median(&[7]), 7);
    assert_eq!(median(&[4, 5]), 4);
    assert_eq!(median(&[4, 6]), 5);
    // of three values the two lower ones are averaged
    assert_eq!(median(&[1, 3, 100]), 2);
    assert_eq!(median(&[1, 3, 5, 100]), 4);
    // no overflow
    assert_eq!(median(&[u128::MAX, u128::MAX]), u128::MAX);
    assert_eq!(median(&[u128::MAX - 1, u128::MAX]), u128::MAX - 1);
}

#[test]
fn submissions_are_listed_with_their_oracles() {
    let mut state =
        process_initialize(None, config(vec![key(10), key(11)]), key(1), true, true, 1).unwrap();
    let mut rounds = vec![Submission::default(); 2];
    let mut pos = 0u64;
    submit(&mut state, &mut rounds, &mut pos, 11, 100, 42).unwrap();
    assert_eq!(
        get_submissions(&state),
        vec![(key(10), None), (key(11), Some(Submission(100, 42)))]
    );
}

#[test]
fn a_past_answer_is_found_by_its_time() {
    // the ring was written twice around: slots 0 and 1 are newer than 2 and 3
    let rounds = [
        Submission(50, 5),
        Submission(60, 6),
        Submission(30, 3),
        Submission(40, 4),
    ];
    assert_eq!(get_round(&rounds, 2, 100), Some(Submission(60, 6)));
    assert_eq!(get_round(&rounds, 2, 60), Some(Submission(50, 5)));
    assert_eq!(get_round(&rounds, 2, 50), Some(Submission(40, 4)));
    assert_eq!(get_round(&rounds, 2, 31), Some(Submission(30, 3)));
    assert_eq!(get_round(&rounds, 2, 30), None);

    // a ring that was not filled yet: the search ends at the empty slot
    let rounds = [
        Submission(50, 5),
        Submission(60, 6),
        Submission(10, 1),
        Submission(0, 0),
        Submission(20, 2),
    ];
    assert_eq!(get_round(&rounds, 2, 55), Some(Submission(50, 5)));
    assert_eq!(get_round(&rounds, 2, 25), Some(Submission(20, 2)));
    assert_eq!(get_round(&rounds, 2, 15), None);
    assert_eq!(get_round(&rounds, 0, 15), None);
    assert_eq!(get_round(&[], 0, 15), None);
    // before the cursor an empty slot is a round like any other
    assert_eq!(get_round(&rounds, 5, 15), Some(Submission(0, 0)));
    assert_eq!(get_round(&rounds, 3, 15), Some(Submission(10, 1)));
}
