use chainlink_ocr2::access;
use chainlink_ocr2::billing::{
    calculate_owed_payment_gjuels, calculate_reimbursement_gjuels, calculate_total_link_due,
    calculate_total_link_due_gjuels,
};
use chainlink_ocr2::config::{initialize, pay_oracles, pay_remaining, set_billing};
use chainlink_ocr2::error::ErrorCode;
use chainlink_ocr2::event::SetBilling;
use chainlink_ocr2::payouts::{
    link_available_for_payment, oracle_observation_count, pay_oracles_impl, pay_remaining_impl,
    withdraw_funds, withdraw_payment,
};
use chainlink_ocr2::pubkey::Pubkey;
use chainlink_ocr2::state::{Billing, LeftoverPayment, Oracle, SigningKey, State};

fn key(n: u8) -> Pubkey {
    Pubkey::new([n; 32])
}

fn oracle(n: u8, from_round_id: u32, payment_gjuels: u64) -> Oracle {
    Oracle {
        transmitter: key(100 + n),
        signer: SigningKey { key: [n; 20] },
        payee: key(200 + n),
        proposed_payee: Pubkey::default(),
        from_round_id,
        payment_gjuels,
    }
}

/// Owner 2, token 3, billing access controller 6; four oracles of which one
/// may be faulty; round 10; 4 gjuels per observation.
fn state() -> State {
    let mut state = initialize(key(1), 254, key(2), key(3), key(4), key(5), key(6), 0, 100);
    state.oracles.push(oracle(1, 0, 0));
    state.oracles.push(oracle(2, 4, 7));
    state.oracles.push(oracle(3, 10, 0));
    state.oracles.push(oracle(4, 10, 0));
    state.config.f = 1;
    state.config.latest_aggregator_round_id = 10;
    state.config.billing.observation_payment_gjuels = 4;
    state
}

fn payees() -> Vec<Pubkey> {
    vec![key(201), key(202), key(203), key(204)]
}

#[test]
fn reimbursement_is_the_fee_of_one_signature_in_gjuels() {
    assert_eq!(calculate_reimbursement_gjuels(0, 2), Ok(0));
    assert_eq!(calculate_reimbursement_gjuels(1, 2), Ok(0));
    assert_eq!(calculate_reimbursement_gjuels(200_000, 2), Ok(1));
    assert_eq!(calculate_reimbursement_gjuels(3_000_000_000, 2), Ok(15_000));
    // the number of signatures does not enter
    assert_eq!(calculate_reimbursement_gjuels(3_000_000_000, 17), Ok(15_000));
    assert_eq!(
        calculate_reimbursement_gjuels(u64::MAX, 1),
        Ok(((5000u128 * u64::MAX as u128) / 1_000_000_000) as u64)
    );
}

#[test]
fn owed_is_rate_times_rounds_plus_payment() {
    let billing = Billing {
        observation_payment_gjuels: 4,
        transmission_payment_gjuels: 9,
    };
    assert_eq!(calculate_owed_payment_gjuels(&billing, &oracle(1, 0, 0), 10), Ok(40));
    assert_eq!(calculate_owed_payment_gjuels(&billing, &oracle(1, 4, 7), 10), Ok(31));
    assert_eq!(calculate_owed_payment_gjuels(&billing, &oracle(1, 10, 0), 10), Ok(0));
}

#[test]
fn owed_overflows() {
    let billing = Billing {
        observation_payment_gjuels: 4,
        transmission_payment_gjuels: 9,
    };
    // the oracle starts in the future
    assert_eq!(
        calculate_owed_payment_gjuels(&billing, &oracle(1, 11, 0), 10),
        Err(ErrorCode::Overflow)
    );
    // the sum does not fit
    assert_eq!(
        calculate_owed_payment_gjuels(&billing, &oracle(1, 0, u64::MAX - 39), 10),
        Err(ErrorCode::Overflow)
    );
    assert_eq!(
        calculate_owed_payment_gjuels(&billing, &oracle(1, 0, u64::MAX - 40), 10),
        Ok(u64::MAX)
    );
}

#[test]
fn total_due_sums_over_the_oracles() {
    let state = state();
    // 4 * (10 + 6 + 0) + 7
    assert_eq!(
        calculate_total_link_due_gjuels(&state.config, state.oracles.as_slice()),
        Ok(71)
    );
    assert_eq!(calculate_total_link_due_gjuels(&state.config, &[]), Ok(0));
}

#[test]
fn total_due_overflows() {
    let mut state = state();
    state.config.latest_aggregator_round_id = u32::MAX;
    // the rounds of two oracles do not fit in 32 bits
    assert_eq!(
        calculate_total_link_due_gjuels(&state.config, &[oracle(1, 0, 0), oracle(2, 0, 0)]),
        Err(ErrorCode::Overflow)
    );
    state.config.latest_aggregator_round_id = 10;
    assert_eq!(
        calculate_total_link_due_gjuels(&state.config, &[oracle(1, 11, 0)]),
        Err(ErrorCode::Overflow)
    );
    assert_eq!(
        calculate_total_link_due_gjuels(
            &state.config,
            &[oracle(1, 0, u64::MAX), oracle(2, 0, 1)]
        ),
        Err(ErrorCode::Overflow)
    );
}

#[test]
fn a_payout_pays_what_is_owed_and_a_second_one_nothing() {
    let mut state = state();
    let payments = pay_oracles_impl(&mut state, &payees()).unwrap();
    let paid: Vec<(Pubkey, u64)> = payments.iter().map(|p| (p.payee, p.amount)).collect();
    // the other oracles are owed nothing and get no payment
    assert_eq!(paid, vec![(key(201), 40), (key(202), 31)]);
    for oracle in state.oracles.as_slice() {
        assert_eq!(oracle.payment_gjuels, 0);
        assert_eq!(oracle.from_round_id, 10);
    }
    // no round in between
    let again = pay_oracles_impl(&mut state, &payees()).unwrap();
    assert!(again.is_empty());
}

#[test]
fn a_payout_wants_the_payees_of_the_oracles() {
    let mut state = state();
    assert_eq!(
        pay_oracles_impl(&mut state, &[key(201), key(202)]).err(),
        Some(ErrorCode::InvalidInput)
    );
    assert_eq!(
        pay_oracles_impl(&mut state, &[key(201), key(203), key(202), key(204)]).err(),
        Some(ErrorCode::InvalidInput)
    );
    // nothing was changed
    assert_eq!(state.oracles.get(1).payment_gjuels, 7);
    assert_eq!(state.oracles.get(0).from_round_id, 0);
}

#[test]
fn a_payout_that_overflows_changes_nothing() {
    let mut state = state();
    state.oracles.set(2, oracle(3, 11, 0));
    assert_eq!(
        pay_oracles_impl(&mut state, &payees()).err(),
        Some(ErrorCode::Overflow)
    );
    assert_eq!(state.oracles.get(0).from_round_id, 0);
    assert_eq!(state.oracles.get(1).payment_gjuels, 7);
}

#[test]
fn payout_on_request_wants_billing_access() {
    let mut state = state();
    let mut controller = access::initialize(key(50));
    access::add_access(&mut controller, &key(50), key(60)).unwrap();

    // another controller than the feed's
    assert_eq!(
        pay_oracles(&mut state, &key(7), &controller, &key(60), &payees()).err(),
        Some(ErrorCode::InvalidInput)
    );
    // somebody who is not listed
    assert_eq!(
        pay_oracles(&mut state, &key(6), &controller, &key(61), &payees()).err(),
        Some(ErrorCode::Unauthorized)
    );
    // somebody who is listed
    let payments = pay_oracles(&mut state, &key(6), &controller, &key(60), &payees()).unwrap();
    assert_eq!(payments.len(), 2);
    // the owner needs no listing
    assert!(pay_oracles(&mut state, &key(6), &controller, &key(2), &payees())
        .unwrap()
        .is_empty());
}

#[test]
fn set_billing_pays_at_the_old_rates_first() {
    let mut state = state();
    let controller = access::initialize(key(50));
    let (payments, announced) =
        set_billing(&mut state, &key(6), &controller, &key(2), &payees(), 100, 200).unwrap();
    let paid: Vec<u64> = payments.iter().map(|p| p.amount).collect();
    assert_eq!(paid, vec![40, 31]);
    assert_eq!(
        announced,
        SetBilling {
            observation_payment_gjuels: 100,
            transmission_payment_gjuels: 200
        }
    );
    assert_eq!(state.config.billing.observation_payment_gjuels, 100);
    assert_eq!(state.config.billing.transmission_payment_gjuels, 200);

    assert_eq!(
        set_billing(&mut state, &key(6), &controller, &key(99), &payees(), 1, 2).err(),
        Some(ErrorCode::Unauthorized)
    );
    assert_eq!(state.config.billing.observation_payment_gjuels, 100);
}

#[test]
fn an_oracle_withdraws_its_own_payment() {
    let mut state = state();
    // payee 202 holds token 3 and belongs to 77
    assert_eq!(
        withdraw_payment(&mut state, &key(202), &key(3), &key(77), &key(77)),
        Ok(31)
    );
    assert_eq!(state.oracles.get(1).payment_gjuels, 0);
    assert_eq!(state.oracles.get(1).from_round_id, 10);
    assert_eq!(state.oracles.get(0).from_round_id, 0);
    assert_eq!(
        withdraw_payment(&mut state, &key(202), &key(3), &key(77), &key(77)),
        Ok(0)
    );
}

#[test]
fn a_withdrawal_is_refused() {
    let mut state = state();
    // an account of another token
    assert_eq!(
        withdraw_payment(&mut state, &key(202), &key(9), &key(77), &key(77)),
        Err(ErrorCode::InvalidInput)
    );
    // not a payee
    assert_eq!(
        withdraw_payment(&mut state, &key(210), &key(3), &key(77), &key(77)),
        Err(ErrorCode::Unauthorized)
    );
    // not signed by the owner of the account
    assert_eq!(
        withdraw_payment(&mut state, &key(202), &key(3), &key(77), &key(78)),
        Err(ErrorCode::Unauthorized)
    );
    state.oracles.set(1, oracle(2, 11, 0));
    assert_eq!(
        withdraw_payment(&mut state, &key(202), &key(3), &key(77), &key(77)),
        Err(ErrorCode::Overflow)
    );
}

#[test]
fn what_is_owed_stays_in_the_vault() {
    let state = state();
    let controller = access::initialize(key(50));
    assert_eq!(link_available_for_payment(&state, 100), Ok(29));
    assert_eq!(link_available_for_payment(&state, 71), Ok(0));
    assert_eq!(link_available_for_payment(&state, 5), Ok(0));
    assert_eq!(withdraw_funds(&state, &key(6), &controller, &key(2), 10, 100), Ok(10));
    assert_eq!(withdraw_funds(&state, &key(6), &controller, &key(2), 30, 100), Ok(29));
    assert_eq!(withdraw_funds(&state, &key(6), &controller, &key(2), 30, 50), Ok(0));
    assert_eq!(
        withdraw_funds(&state, &key(6), &controller, &key(8), 30, 50),
        Err(ErrorCode::Unauthorized)
    );
}

#[test]
fn observation_count_of_an_oracle() {
    let mut state = state();
    assert_eq!(oracle_observation_count(&state, &key(101)), Ok(10));
    assert_eq!(oracle_observation_count(&state, &key(102)), Ok(6));
    assert_eq!(
        oracle_observation_count(&state, &key(109)),
        Err(ErrorCode::InvalidInput)
    );
    state.oracles.set(2, oracle(3, 12, 0));
    assert_eq!(oracle_observation_count(&state, &key(103)), Ok(0));
}

#[test]
fn leftover_payments_are_paid_and_forgotten() {
    let mut state = state();
    state.leftover_payments.push(LeftoverPayment {
        payee: key(31),
        amount: 5,
    });
    state.leftover_payments.push(LeftoverPayment {
        payee: key(32),
        amount: 0,
    });
    state.leftover_payments.push(LeftoverPayment {
        payee: key(33),
        amount: 8,
    });
    assert_eq!(
        pay_remaining_impl(&mut state, &[key(31), key(32)]).err(),
        Some(ErrorCode::InvalidInput)
    );
    assert_eq!(
        pay_remaining_impl(&mut state, &[key(31), key(33), key(32)]).err(),
        Some(ErrorCode::InvalidInput)
    );
    assert_eq!(state.leftover_payments.len(), 3);
    let payments = pay_remaining_impl(&mut state, &[key(31), key(32), key(33)]).unwrap();
    let paid: Vec<(Pubkey, u64)> = payments.iter().map(|p| (p.payee, p.amount)).collect();
    assert_eq!(paid, vec![(key(31), 5), (key(33), 8)]);
    assert!(state.leftover_payments.is_empty());
    assert!(pay_remaining_impl(&mut state, &[]).unwrap().is_empty());
}

#[test]
fn leftover_payments_stay_in_the_vault_too() {
    let mut state = state();
    state.leftover_payments.push(LeftoverPayment { payee: key(31), amount: 9 });
    state.leftover_payments.push(LeftoverPayment { payee: key(32), amount: 0 });
    assert_eq!(
        calculate_total_link_due(
            &state.config,
            state.oracles.as_slice(),
            state.leftover_payments.as_slice()
        ),
        Ok(80)
    );
    assert_eq!(link_available_for_payment(&state, 100), Ok(20));
    state.leftover_payments.push(LeftoverPayment { payee: key(33), amount: u64::MAX });
    assert_eq!(
        calculate_total_link_due(
            &state.config,
            state.oracles.as_slice(),
            state.leftover_payments.as_slice()
        ),
        Err(ErrorCode::Overflow)
    );
    assert_eq!(link_available_for_payment(&state, 100), Err(ErrorCode::Overflow));
}

#[test]
fn leftover_payments_are_paid_on_the_request_of_those_with_billing_access() {
    let mut state = state();
    state.leftover_payments.push(LeftoverPayment { payee: key(31), amount: 5 });
    let mut controller = access::initialize(key(50));
    access::add_access(&mut controller, &key(50), key(60)).unwrap();

    // another controller than the feed's
    assert_eq!(
        pay_remaining(&mut state, &key(7), &controller, &key(60), &[key(31)]).err(),
        Some(ErrorCode::InvalidInput)
    );
    // somebody who is not listed
    assert_eq!(
        pay_remaining(&mut state, &key(6), &controller, &key(61), &[key(31)]).err(),
        Some(ErrorCode::Unauthorized)
    );
    // the wrong payee
    assert_eq!(
        pay_remaining(&mut state, &key(6), &controller, &key(60), &[key(32)]).err(),
        Some(ErrorCode::InvalidInput)
    );
    assert_eq!(state.leftover_payments.len(), 1);
    let payments = pay_remaining(&mut state, &key(6), &controller, &key(60), &[key(31)]).unwrap();
    assert_eq!(payments.len(), 1);
    assert_eq!(payments[0].payee, key(31));
    assert_eq!(payments[0].amount, 5);
    assert!(state.leftover_payments.is_empty());
    // the owner needs no listing
    assert!(pay_remaining(&mut state, &key(6), &controller, &key(2), &[])
        .unwrap()
        .is_empty());
}
