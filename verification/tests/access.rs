use chainlink_ocr2::access::{
    accept_ownership, add_access, has_access, initialize, remove_access, search,
    transfer_ownership,
};
use chainlink_ocr2::error::ErrorCode;
use chainlink_ocr2::pubkey::Pubkey;

fn key(n: u8) -> Pubkey {
    Pubkey::new([n; 32])
}

#[test]
fn the_access_list_stays_sorted() {
    let mut state = initialize(key(1));
    for n in [30u8, 10, 20, 40, 10] {
        add_access(&mut state, &key(1), key(n)).unwrap();
    }
    assert_eq!(
        state.access_list.as_slice(),
        &[key(10), key(20), key(30), key(40)]
    );
    assert!(has_access(&state, &key(20)));
    assert!(!has_access(&state, &key(25)));
    assert!(!has_access(&state, &key(1)));

    remove_access(&mut state, &key(1), key(20)).unwrap();
    assert_eq!(state.access_list.as_slice(), &[key(10), key(30), key(40)]);
    assert!(!has_access(&state, &key(20)));
    // taking away what is not there changes nothing
    remove_access(&mut state, &key(1), key(20)).unwrap();
    assert_eq!(state.access_list.len(), 3);
}

#[test]
fn search_gives_the_place_or_where_to_insert() {
    let list = [key(10), key(20), key(30)];
    assert_eq!(search(&list, &key(10)), Ok(0));
    assert_eq!(search(&list, &key(30)), Ok(2));
    assert_eq!(search(&list, &key(5)), Err(0));
    assert_eq!(search(&list, &key(25)), Err(2));
    assert_eq!(search(&list, &key(35)), Err(3));
    assert_eq!(search(&[], &key(35)), Err(0));
}

#[test]
fn only_the_owner_changes_the_list() {
    let mut state = initialize(key(1));
    assert_eq!(add_access(&mut state, &key(2), key(9)), Err(ErrorCode::Unauthorized));
    add_access(&mut state, &key(1), key(9)).unwrap();
    assert_eq!(remove_access(&mut state, &key(2), key(9)), Err(ErrorCode::Unauthorized));
    assert!(has_access(&state, &key(9)));
}

#[test]
fn a_full_list_takes_nobody() {
    let mut state = initialize(key(1));
    for n in 0u8..64 {
        add_access(&mut state, &key(1), key(n + 100)).unwrap();
    }
    assert_eq!(state.access_list.len(), 64);
    assert_eq!(add_access(&mut state, &key(1), key(7)), Err(ErrorCode::Full));
    // not even somebody who is on it
    assert_eq!(add_access(&mut state, &key(1), key(100)), Err(ErrorCode::Full));
    remove_access(&mut state, &key(1), key(100)).unwrap();
    assert_eq!(add_access(&mut state, &key(1), key(7)), Ok(()));
    assert_eq!(state.access_list.get(0), key(7));
}

#[test]
fn the_controller_changes_hands_in_two_steps() {
    let mut state = initialize(key(1));
    assert_eq!(
        transfer_ownership(&mut state, &key(2), key(3)),
        Err(ErrorCode::Unauthorized)
    );
    assert_eq!(transfer_ownership(&mut state, &key(1), key(3)), Ok(()));
    assert_eq!(accept_ownership(&mut state, &key(1)), Err(ErrorCode::Unauthorized));
    assert_eq!(accept_ownership(&mut state, &key(3)), Ok(()));
    assert_eq!(state.owner, key(3));
    assert_eq!(state.proposed_owner, Pubkey::default());
}
