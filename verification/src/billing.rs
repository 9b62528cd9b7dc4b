//! What the oracles are owed: a rate per round since they were last paid,
//! and what they accrued by transmitting.

use vstd::prelude::*;
use crate::error::ErrorCode;
use crate::state::{Billing, Config, LeftoverPayment, Oracle};

verus! {

/// The fee of one signature, in lamports.
pub const LAMPORTS_PER_SIGNATURE: u64 = 5_000;

/// How many signatures a transmission is reimbursed for.
pub const SIGNERS: u64 = 1;

/// What an oracle is owed: the rate for every round since it was last paid,
/// and its accrued payment. `None` where the oracle's starting round lies in
/// the future or the sum does not fit in 64 bits.
pub open spec fn owed_payment(rate: u32, oracle: Oracle, latest_round_id: u32) -> Option<u64> {
    let amount = rate * (latest_round_id - oracle.from_round_id) + oracle.payment_gjuels;
    if latest_round_id < oracle.from_round_id || amount > u64::MAX {
        None
    } else {
        Some(amount as u64)
    }
}

/// The oracle after it was paid all it is owed.
pub open spec fn paid(oracle: Oracle, latest_round_id: u32) -> Oracle {
    Oracle { payment_gjuels: 0, from_round_id: latest_round_id, ..oracle }
}

/// The reimbursement of a transmission, in gjuels: the fee of its
/// signatures at the reported rate of juels per lamport.
pub open spec fn reimbursement_gjuels(juels_per_lamport: u64) -> u64 {
    ((LAMPORTS_PER_SIGNATURE * SIGNERS * juels_per_lamport) / 1_000_000_000) as u64
}

/// The reimbursement of a transmission at the rate `juels_per_lamport`.
/// The number of signatures does not enter: the fee is flat.
pub fn calculate_reimbursement_gjuels(juels_per_lamport: u64, _signature_count: usize) -> (r:
    Result<u64, ErrorCode>)
    ensures
        r == Ok::<u64, ErrorCode>(reimbursement_gjuels(juels_per_lamport)),
{
    let lamports: u64 = LAMPORTS_PER_SIGNATURE * SIGNERS;
    assert(5000 * juels_per_lamport <= 5000 * 0xffff_ffff_ffff_ffff) by (nonlinear_arith);
    let juels: u128 = (lamports as u128) * (juels_per_lamport as u128);
    let gjuels: u128 = juels / 1_000_000_000;
    Ok(gjuels as u64)
}

/// What `oracle` is owed at the rate of `config`; `Overflow` where that
/// cannot be computed.
pub fn calculate_owed_payment_gjuels(config: &Billing, oracle: &Oracle, latest_round_id: u32) -> (r:
    Result<u64, ErrorCode>)
    ensures
        match r {
            Ok(amount) => owed_payment(config.observation_payment_gjuels, *oracle, latest_round_id)
                == Some(amount),
            Err(e) => e == ErrorCode::Overflow && owed_payment(
                config.observation_payment_gjuels,
                *oracle,
                latest_round_id,
            ) == None::<u64>,
        },
{
    if latest_round_id < oracle.from_round_id {
        return Err(ErrorCode::Overflow);
    }
    let rounds: u32 = latest_round_id - oracle.from_round_id;
    assert(config.observation_payment_gjuels * rounds <= 0xffff_ffff * 0xffff_ffff)
        by (nonlinear_arith)
        requires
            config.observation_payment_gjuels <= 0xffff_ffff,
            rounds <= 0xffff_ffff,
    ;
    let rewards: u64 = (config.observation_payment_gjuels as u64) * (rounds as u64);
    match rewards.checked_add(oracle.payment_gjuels) {
        Some(amount) => Ok(amount),
        None => Err(ErrorCode::Overflow),
    }
}

/// The rounds for which the oracles are yet to be paid, summed up.
pub open spec fn unpaid_rounds(oracles: Seq<Oracle>, latest_round_id: u32) -> int
    decreases oracles.len(),
{
    if oracles.len() == 0 {
        0
    } else {
        unpaid_rounds(oracles.drop_last(), latest_round_id) + (latest_round_id
            - oracles.last().from_round_id)
    }
}

/// The accrued payments of the oracles, summed up.
pub open spec fn accrued_payments(oracles: Seq<Oracle>) -> int
    decreases oracles.len(),
{
    if oracles.len() == 0 {
        0
    } else {
        accrued_payments(oracles.drop_last()) + oracles.last().payment_gjuels
    }
}

/// Whether some oracle's starting round lies after `latest_round_id`.
pub open spec fn starts_in_future(oracles: Seq<Oracle>, latest_round_id: u32) -> bool {
    exists|i: int| 0 <= i < oracles.len() && latest_round_id < (#[trigger] oracles[i]).from_round_id
}

/// What all oracles together are owed. `None` where an oracle's starting
/// round lies in the future, the rounds do not fit in 32 bits, or the
/// payments or the total do not fit in 64.
pub open spec fn total_link_due(rate: u32, oracles: Seq<Oracle>, latest_round_id: u32) -> Option<
    u64,
> {
    let rounds = unpaid_rounds(oracles, latest_round_id);
    let payments = accrued_payments(oracles);
    let total = rate * rounds + payments;
    if starts_in_future(oracles, latest_round_id) || rounds > u32::MAX || payments > u64::MAX
        || total > u64::MAX {
        None
    } else {
        Some(total as u64)
    }
}

/// Sums of rounds and payments over more oracles are not smaller, as long as
/// no oracle starts in the future.
pub proof fn lemma_sums_monotonic(oracles: Seq<Oracle>, latest_round_id: u32, k: int)
    requires
        0 <= k <= oracles.len(),
        !starts_in_future(oracles, latest_round_id),
    ensures
        0 <= unpaid_rounds(oracles.take(k), latest_round_id) <= unpaid_rounds(
            oracles,
            latest_round_id,
        ),
        0 <= accrued_payments(oracles.take(k)) <= accrued_payments(oracles),
    decreases oracles.len() - k,
{
    if k == oracles.len() {
        assert(oracles.take(k) =~= oracles);
        lemma_sums_nonnegative(oracles, latest_round_id);
    } else {
        let rest = oracles.drop_last();
        assert forall|i: int| 0 <= i < rest.len() implies latest_round_id >= (
        #[trigger] rest[i]).from_round_id by {
            assert(rest[i] == oracles[i]);
        }
        lemma_sums_monotonic(rest, latest_round_id, k);
        assert(rest.take(k) =~= oracles.take(k));
        assert(oracles[oracles.len() - 1].from_round_id <= latest_round_id);
    }
}

/// The sums are not negative, as long as no oracle starts in the future.
pub proof fn lemma_sums_nonnegative(oracles: Seq<Oracle>, latest_round_id: u32)
    requires
        !starts_in_future(oracles, latest_round_id),
    ensures
        0 <= unpaid_rounds(oracles, latest_round_id),
        0 <= accrued_payments(oracles),
    decreases oracles.len(),
{
    if oracles.len() > 0 {
        let rest = oracles.drop_last();
        assert forall|i: int| 0 <= i < rest.len() implies latest_round_id >= (
        #[trigger] rest[i]).from_round_id by {
            assert(rest[i] == oracles[i]);
        }
        lemma_sums_nonnegative(rest, latest_round_id);
        assert(oracles[oracles.len() - 1].from_round_id <= latest_round_id);
    }
}

/// What all of `oracles` together are owed at the rate of `config`; `Overflow`
/// where that cannot be computed.
pub fn calculate_total_link_due_gjuels(config: &Config, oracles: &[Oracle]) -> (r: Result<
    u64,
    ErrorCode,
>)
    ensures
        match r {
            Ok(amount) => total_link_due(
                config.billing.observation_payment_gjuels,
                oracles@,
                config.latest_aggregator_round_id,
            ) == Some(amount),
            Err(e) => e == ErrorCode::Overflow && total_link_due(
                config.billing.observation_payment_gjuels,
                oracles@,
                config.latest_aggregator_round_id,
            ) == None::<u64>,
        },
{
    let rate = config.billing.observation_payment_gjuels;
    let latest_round_id = config.latest_aggregator_round_id;
    let mut rounds: u32 = 0;
    let mut reimbursements: u64 = 0;
    let mut i: usize = 0;
    while i < oracles.len()
        invariant
            0 <= i <= oracles@.len(),
            rate == config.billing.observation_payment_gjuels,
            latest_round_id == config.latest_aggregator_round_id,
            !starts_in_future(oracles@.take(i as int), latest_round_id),
            rounds == unpaid_rounds(oracles@.take(i as int), latest_round_id),
            reimbursements == accrued_payments(oracles@.take(i as int)),
        decreases oracles@.len() - i,
    {
        let oracle = &oracles[i];
        let ghost next = oracles@.take(i + 1);
        proof {
            assert(next.drop_last() =~= oracles@.take(i as int));
            assert(next.last() == oracles@[i as int]);
        }
        if latest_round_id < oracle.from_round_id {
            proof {
                assert(oracles@[i as int].from_round_id > latest_round_id);
            }
            return Err(ErrorCode::Overflow);
        }
        proof {
            assert forall|j: int| 0 <= j < next.len() implies latest_round_id >= (
            #[trigger] next[j]).from_round_id by {
                if j < i {
                    assert(oracles@.take(i as int)[j] == next[j]);
                }
            }
        }
        let count: u32 = latest_round_id - oracle.from_round_id;
        let more_rounds = rounds.checked_add(count);
        let more_payments = reimbursements.checked_add(oracle.payment_gjuels);
        if more_rounds.is_none() || more_payments.is_none() {
            proof {
                if !starts_in_future(oracles@, latest_round_id) {
                    lemma_sums_monotonic(oracles@, latest_round_id, i + 1);
                }
            }
            return Err(ErrorCode::Overflow);
        }
        rounds = more_rounds.unwrap();
        reimbursements = more_payments.unwrap();
        i += 1;
    }
    proof {
        assert(oracles@.take(i as int) =~= oracles@);
    }
    assert(rate * rounds <= 0xffff_ffff * 0xffff_ffff) by (nonlinear_arith)
        requires
            rate <= 0xffff_ffff,
            rounds <= 0xffff_ffff,
    ;
    let rewards: u64 = (rate as u64) * (rounds as u64);
    match rewards.checked_add(reimbursements) {
        Some(amount) => Ok(amount),
        None => Err(ErrorCode::Overflow),
    }
}

/// The leftover payments, summed up.
pub open spec fn leftover_total(leftovers: Seq<LeftoverPayment>) -> int
    decreases leftovers.len(),
{
    if leftovers.len() == 0 {
        0
    } else {
        leftover_total(leftovers.drop_last()) + leftovers.last().amount
    }
}

/// What the feed owes in all: to its oracles, and to those that left the
/// set with a balance. `None` where that does not fit.
pub open spec fn total_due(
    rate: u32,
    oracles: Seq<Oracle>,
    latest_round_id: u32,
    leftovers: Seq<LeftoverPayment>,
) -> Option<u64> {
    match total_link_due(rate, oracles, latest_round_id) {
        Some(due) => if due + leftover_total(leftovers) > u64::MAX {
            None
        } else {
            Some((due + leftover_total(leftovers)) as u64)
        },
        None => None,
    }
}

/// A sum of leftover payments is not negative.
pub proof fn lemma_leftover_total_nonnegative(leftovers: Seq<LeftoverPayment>)
    ensures
        0 <= leftover_total(leftovers),
    decreases leftovers.len(),
{
    if leftovers.len() > 0 {
        lemma_leftover_total_nonnegative(leftovers.drop_last());
    }
}

/// A sum of leftover payments over more of them is not smaller.
pub proof fn lemma_leftover_total_monotonic(leftovers: Seq<LeftoverPayment>, k: int)
    requires
        0 <= k <= leftovers.len(),
    ensures
        0 <= leftover_total(leftovers.take(k)) <= leftover_total(leftovers),
    decreases leftovers.len() - k,
{
    if k == leftovers.len() {
        assert(leftovers.take(k) =~= leftovers);
        lemma_leftover_total_nonnegative(leftovers);
    } else {
        let rest = leftovers.drop_last();
        lemma_leftover_total_monotonic(rest, k);
        assert(rest.take(k) =~= leftovers.take(k));
    }
}

/// What the feed owes in all, to its oracles and in leftover payments;
/// `Overflow` where that cannot be computed.
pub fn calculate_total_link_due(
    config: &Config,
    oracles: &[Oracle],
    leftover_payments: &[LeftoverPayment],
) -> (r: Result<u64, ErrorCode>)
    ensures
        match r {
            Ok(amount) => total_due(
                config.billing.observation_payment_gjuels,
                oracles@,
                config.latest_aggregator_round_id,
                leftover_payments@,
            ) == Some(amount),
            Err(e) => e == ErrorCode::Overflow && total_due(
                config.billing.observation_payment_gjuels,
                oracles@,
                config.latest_aggregator_round_id,
                leftover_payments@,
            ) == None::<u64>,
        },
{
    let due = match calculate_total_link_due_gjuels(config, oracles) {
        Ok(due) => due,
        Err(e) => {
            return Err(e);
        },
    };
    let mut total: u64 = due;
    let mut i: usize = 0;
    proof {
        assert(leftover_payments@.take(0) =~= Seq::<LeftoverPayment>::empty());
    }
    while i < leftover_payments.len()
        invariant
            0 <= i <= leftover_payments@.len(),
            total == due + leftover_total(leftover_payments@.take(i as int)),
            total_link_due(
                config.billing.observation_payment_gjuels,
                oracles@,
                config.latest_aggregator_round_id,
            ) == Some(due),
        decreases leftover_payments@.len() - i,
    {
        proof {
            assert(leftover_payments@.take(i + 1).drop_last() =~= leftover_payments@.take(
                i as int,
            ));
            assert(leftover_payments@.take(i + 1).last() == leftover_payments@[i as int]);
            lemma_leftover_total_monotonic(leftover_payments@, i + 1);
        }
        total = match total.checked_add(leftover_payments[i].amount) {
            Some(total) => total,
            None => {
                return Err(ErrorCode::Overflow);
            },
        };
        i += 1;
    }
    proof {
        assert(leftover_payments@.take(i as int) =~= leftover_payments@);
    }
    Ok(total)
}

/// An oracle that was just paid is owed nothing.
pub proof fn lemma_paid_owes_nothing(rate: u32, oracle: Oracle, latest_round_id: u32)
    ensures
        owed_payment(rate, paid(oracle, latest_round_id), latest_round_id) == Some(0u64),
{
    assert(rate * 0 == 0) by (nonlinear_arith);
}

} // verus!
