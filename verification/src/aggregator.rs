//! The first generation of the aggregator: every oracle submits its own
//! value, and the answer is the median of the submissions that are fresh.

use vstd::prelude::*;
use crate::flux::Error;
use crate::pubkey::Pubkey;

verus! {

/// How many oracles an aggregator can have.
pub const MAX_ORACLES: usize = 8;

/// One oracle's value and when it was submitted. A timestamp of 0 stands
/// for "nothing submitted".
#[derive(Clone, Copy, Debug, PartialEq, Eq, Structural)]
pub struct Submission(pub i64, pub u128);

impl Default for Submission {
    fn default() -> (r: Submission)
        ensures
            r == Submission(0, 0),
    {
        Submission(0, 0)
    }
}

/// How an aggregator is set up.
#[derive(Clone, Debug)]
pub struct Config {
    /// The oracles that may submit.
    pub oracles: Vec<Pubkey>,
    /// How many fresh submissions an answer needs. Must be larger than 1.
    pub min_answer_threshold: u8,
    /// After how many seconds a submission is stale.
    pub staleness_threshold: u8,
    pub decimals: u8,
}

/// The state of an aggregator.
#[derive(Clone, Debug)]
pub struct Aggregator {
    /// Set to true after initialization.
    pub is_initialized: bool,
    pub version: u32,
    pub config: Config,
    /// When the config was last updated.
    pub updated_at: i64,
    /// The owner may change the config.
    pub owner: Pubkey,
    /// The current submissions, one per oracle, in the order of the oracles.
    pub submissions: [Submission; 8],
    /// The current median answer.
    pub answer: Option<u128>,
}

/// Why an instruction is refused.
#[derive(Clone, Copy, Debug, PartialEq, Eq, Structural)]
pub enum Fault {
    InvalidArgument,
    UninitializedAccount,
    Program(Error),
}

impl Config {
    /// There are at most 8 oracles, and an answer needs more than one submission.
    pub open spec fn wf(&self) -> bool {
        &&& self.oracles@.len() <= MAX_ORACLES
        &&& self.min_answer_threshold > 1
    }
}

impl Aggregator {
    pub open spec fn wf(&self) -> bool {
        self.config.wf()
    }
}

/// Whether a submission counts at the time `now`: it is there, and not
/// older than the threshold.
pub open spec fn is_fresh(submission: Submission, now: i64, staleness_threshold: u8) -> bool {
    submission.0 != 0 && now - submission.0 <= staleness_threshold
}

/// The values of the submissions that are fresh, in their order.
pub open spec fn fresh_values(submissions: Seq<Submission>, now: i64, staleness_threshold: u8) -> Seq<
    u128,
>
    decreases submissions.len(),
{
    if submissions.len() == 0 {
        Seq::empty()
    } else {
        let rest = fresh_values(submissions.drop_last(), now, staleness_threshold);
        if is_fresh(submissions.last(), now, staleness_threshold) {
            rest.push(submissions.last().1)
        } else {
            rest
        }
    }
}

/// Whether the values are in ascending order.
pub open spec fn ascending(values: Seq<u128>) -> bool {
    forall|i: int, j: int| 0 <= i <= j < values.len() ==> values[i] <= values[j]
}

/// The median of values in ascending order: the one value, or the mean of
/// the two around the middle, rounded down.
pub open spec fn median_of(sorted: Seq<u128>) -> u128 {
    if sorted.len() == 1 {
        sorted[0]
    } else {
        let mid = sorted.len() as int / 2;
        ((sorted[mid - 1] + sorted[mid]) / 2) as u128
    }
}

/// Whether `median` is the median of `values`.
pub open spec fn is_median(values: Seq<u128>, median: u128) -> bool {
    exists|sorted: Seq<u128>|
        #![trigger sorted.to_multiset()]
        sorted.to_multiset() == values.to_multiset() && ascending(sorted) && median == median_of(
            sorted,
        )
}

/// Whether `oracle` is among `oracles`.
pub open spec fn is_oracle(oracles: Seq<Pubkey>, oracle: Pubkey) -> bool {
    exists|i: int| 0 <= i < oracles.len() && (#[trigger] oracles[i])@ == oracle@
}

/// The place of the first of `oracles` that is `oracle`.
pub open spec fn oracle_position(oracles: Seq<Pubkey>, oracle: Pubkey) -> int {
    choose|i: int|
        0 <= i < oracles.len() && (#[trigger] oracles[i])@ == oracle@ && forall|j: int|
            0 <= j < i ==> (#[trigger] oracles[j])@ != oracle@
}

/// Whether the submission counts at the time `now`.
pub fn fresh(submission: &Submission, now: i64, staleness_threshold: u8) -> (r: bool)
    ensures
        r == is_fresh(*submission, now, staleness_threshold),
{
    if submission.0 == 0 {
        return false;
    }
    match now.checked_sub(submission.0) {
        Some(age) => age <= staleness_threshold as i64,
        // too far apart to tell in 64 bits
        None => now < submission.0,
    }
}

/// The values in ascending order.
pub fn sort_values(values: &[u128]) -> (sorted: Vec<u128>)
    ensures
        sorted@.to_multiset() == values@.to_multiset(),
        sorted@.len() == values@.len(),
        ascending(sorted@),
{
    let mut sorted: Vec<u128> = Vec::new();
    let mut i: usize = 0;
    proof {
        assert(values@.take(0) =~= Seq::<u128>::empty());
        assert(sorted@ =~= values@.take(0));
    }
    while i < values.len()
        invariant
            0 <= i <= values@.len(),
            sorted@.len() == i,
            sorted@.to_multiset() == values@.take(i as int).to_multiset(),
            ascending(sorted@),
        decreases values@.len() - i,
    {
        let value = values[i];
        let mut p: usize = 0;
        while p < sorted.len() && sorted[p] <= value
            invariant
                0 <= p <= sorted@.len(),
                forall|a: int| 0 <= a < p ==> sorted@[a] <= value,
            decreases sorted@.len() - p,
        {
            p += 1;
        }
        proof {
            let after = sorted@.insert(p as int, value);
            vstd::seq_lib::to_multiset_insert(sorted@, p as int, value);
            vstd::seq_lib::to_multiset_build(values@.take(i as int), value);
            assert(values@.take(i + 1) =~= values@.take(i as int).push(value));
            assert forall|b: int| p <= b < sorted@.len() implies value <= sorted@[b] by {
                assert(sorted@[p as int] <= sorted@[b]);
            }
            assert forall|a: int, b: int| 0 <= a <= b < after.len() implies after[a] <= after[b] by {
                let ka = if a < p {
                    a
                } else {
                    a - 1
                };
                let kb = if b < p {
                    b
                } else {
                    b - 1
                };
                if a != p && b != p {
                    assert(sorted@[ka] <= sorted@[kb]);
                }
            }
        }
        sorted.insert(p, value);
        i += 1;
    }
    proof {
        assert(values@.take(i as int) =~= values@);
    }
    sorted
}

/// The median of values in ascending order, of which there is at least one.
pub fn median(sorted: &[u128]) -> (r: u128)
    requires
        sorted@.len() > 0,
    ensures
        r == median_of(sorted@),
{
    if sorted.len() == 1 {
        sorted[0]
    } else {
        let mid = sorted.len() / 2;
        let v1 = sorted[mid - 1];
        let v2 = sorted[mid];
        // the mean, without the sum
        v1 / 2 + v2 / 2 + (v1 % 2 + v2 % 2) / 2
    }
}

/// Where the first of `oracles` that is `oracle` stands.
pub fn find_oracle(oracles: &[Pubkey], oracle: &Pubkey) -> (r: Option<usize>)
    ensures
        match r {
            Some(i) => is_oracle(oracles@, *oracle) && i == oracle_position(oracles@, *oracle),
            None => !is_oracle(oracles@, *oracle),
        },
{
    let mut i: usize = 0;
    while i < oracles.len()
        invariant
            0 <= i <= oracles@.len(),
            forall|j: int| 0 <= j < i ==> (#[trigger] oracles@[j])@ != oracle@,
        decreases oracles@.len() - i,
    {
        if oracles[i] == *oracle {
            proof {
                let p = oracle_position(oracles@, *oracle);
                assert(oracles@[i as int]@ == oracle@);
                if p < i {
                    assert(oracles@[p]@ != oracle@);
                }
            }
            return Some(i);
        }
        i += 1;
    }
    None
}

/// The values of the fresh submissions.
pub fn collect_fresh(submissions: &[Submission], now: i64, staleness_threshold: u8) -> (values: Vec<
    u128,
>)
    ensures
        values@ == fresh_values(submissions@, now, staleness_threshold),
{
    let mut values: Vec<u128> = Vec::new();
    let mut i: usize = 0;
    while i < submissions.len()
        invariant
            0 <= i <= submissions@.len(),
            values@ == fresh_values(submissions@.take(i as int), now, staleness_threshold),
        decreases submissions@.len() - i,
    {
        proof {
            assert(submissions@.take(i + 1).drop_last() =~= submissions@.take(i as int));
            assert(submissions@.take(i + 1).last() == submissions@[i as int]);
        }
        if fresh(&submissions[i], now, staleness_threshold) {
            values.push(submissions[i].1);
        }
        i += 1;
    }
    proof {
        assert(submissions@.take(i as int) =~= submissions@);
    }
    values
}

/// Why an aggregator is not set up; `None` where it is.
pub open spec fn initialize_error(
    config: Config,
    owner: Pubkey,
    owner_is_signer: bool,
    rent_exempt: bool,
) -> Option<Fault> {
    if owner@ == Pubkey::default_bytes() {
        Some(Fault::InvalidArgument)
    } else if !owner_is_signer {
        Some(Fault::Program(Error::MissingSignature))
    } else if !rent_exempt {
        Some(Fault::Program(Error::NotRentExempt))
    } else if config.min_answer_threshold <= 1 {
        Some(Fault::InvalidArgument)
    } else {
        None
    }
}

/// Sets an aggregator up with `config`, or sets one that exists up anew.
/// `existing` is the state of the account if it holds one. Either way the
/// submissions and the answer are cleared; a new aggregator belongs to
/// `owner`, one that exists keeps its owner.
pub fn process_initialize(
    existing: Option<Aggregator>,
    config: Config,
    owner: Pubkey,
    owner_is_signer: bool,
    rent_exempt: bool,
    now: i64,
) -> (r: Result<Aggregator, Fault>)
    ensures
        match r {
            Ok(state) => {
                &&& initialize_error(config, owner, owner_is_signer, rent_exempt) is None
                &&& state.is_initialized
                &&& state.config == config
                &&& state.updated_at == now
                &&& state.answer == None::<u128>
                &&& state.submissions@ == Seq::new(8, |i: int| Submission(0, 0))
                &&& match existing {
                    Some(before) => state.version == before.version && state.owner == before.owner,
                    None => state.version == 1 && state.owner == owner,
                }
            },
            Err(e) => initialize_error(config, owner, owner_is_signer, rent_exempt) == Some(e),
        },
{
    if owner.is_default() {
        return Err(Fault::InvalidArgument);
    }
    if !owner_is_signer {
        return Err(Fault::Program(Error::MissingSignature));
    }
    if !rent_exempt {
        return Err(Fault::Program(Error::NotRentExempt));
    }
    if config.min_answer_threshold <= 1 {
        return Err(Fault::InvalidArgument);
    }
    let submissions = [Submission(0, 0);8];
    proof {
        assert(submissions@ =~= Seq::new(8, |i: int| Submission(0, 0)));
    }
    let state = match existing {
        // set up anew
        Some(before) => Aggregator {
            is_initialized: true,
            version: before.version,
            config,
            owner: before.owner,
            submissions,
            answer: None,
            updated_at: now,
        },
        None => Aggregator {
            is_initialized: true,
            version: 1,
            config,
            owner,
            submissions,
            answer: None,
            updated_at: now,
        },
    };
    Ok(state)
}

/// Why a submission is refused; `None` where it is not.
pub open spec fn submit_error(state: Aggregator, oracle: Pubkey, oracle_is_signer: bool) -> Option<
    Fault,
> {
    if oracle@ == Pubkey::default_bytes() {
        Some(Fault::InvalidArgument)
    } else if !oracle_is_signer {
        Some(Fault::Program(Error::MissingSignature))
    } else if !state.is_initialized {
        Some(Fault::UninitializedAccount)
    } else if !is_oracle(state.config.oracles@, oracle) {
        Some(Fault::Program(Error::InvalidOracle))
    } else {
        None
    }
}

/// Takes the value of `oracle` at the time `now`. Where enough submissions
/// are fresh, their median becomes the answer and is put down in the ring of
/// past answers `rounds` at `pos`, which moves on.
pub fn process_submit(
    state: &mut Aggregator,
    rounds: &mut Vec<Submission>,
    pos: &mut u64,
    oracle: &Pubkey,
    oracle_is_signer: bool,
    timestamp: i64,
    value: u128,
    now: i64,
) -> (r: Result<(), Fault>)
    requires
        old(state).wf(),
        *old(pos) < old(rounds)@.len(),
    ensures
        final(state).wf(),
        final(state).is_initialized == old(state).is_initialized,
        final(state).version == old(state).version,
        final(state).config == old(state).config,
        final(state).updated_at == old(state).updated_at,
        final(state).owner == old(state).owner,
        match r {
            Ok(_) => {
                let place = oracle_position(old(state).config.oracles@, *oracle);
                let values = fresh_values(
                    final(state).submissions@,
                    now,
                    old(state).config.staleness_threshold,
                );
                &&& submit_error(*old(state), *oracle, oracle_is_signer) is None
                &&& final(state).submissions@ == old(state).submissions@.update(
                    place,
                    Submission(timestamp, value),
                )
                &&& if values.len() >= old(state).config.min_answer_threshold {
                    &&& final(state).answer is Some
                    &&& is_median(values, final(state).answer->Some_0)
                    &&& final(rounds)@ == old(rounds)@.update(
                        *old(pos) as int,
                        Submission(now, final(state).answer->Some_0),
                    )
                    &&& *final(pos) == (*old(pos) + 1) % (old(rounds)@.len() as int)
                } else {
                    &&& final(state).answer == old(state).answer
                    &&& final(rounds)@ == old(rounds)@
                    &&& *final(pos) == *old(pos)
                }
            },
            Err(e) => {
                &&& submit_error(*old(state), *oracle, oracle_is_signer) == Some(e)
                &&& final(state).submissions == old(state).submissions
                &&& final(state).answer == old(state).answer
                &&& final(rounds)@ == old(rounds)@
                &&& *final(pos) == *old(pos)
            },
        },
{
    if oracle.is_default() {
        return Err(Fault::InvalidArgument);
    }
    if !oracle_is_signer {
        return Err(Fault::Program(Error::MissingSignature));
    }
    if !state.is_initialized {
        return Err(Fault::UninitializedAccount);
    }
    // the oracle has to be one of the aggregator's
    let oracle_index = match find_oracle(state.config.oracles.as_slice(), oracle) {
        Some(index) => index,
        None => {
            return Err(Fault::Program(Error::InvalidOracle));
        },
    };
    state.submissions[oracle_index] = Submission(timestamp, value);

    let values = collect_fresh(
        state.submissions.as_slice(),
        now,
        state.config.staleness_threshold,
    );
    if values.len() >= state.config.min_answer_threshold as usize {
        let sorted = sort_values(values.as_slice());
        let median = median(sorted.as_slice());
        state.answer = Some(median);

        // put the answer down among the past ones
        let len: u64 = rounds.len() as u64;
        let at = *pos as usize;
        rounds[at] = Submission(now, median);
        *pos = (*pos + 1) % len;
    }
    Ok(())
}

/// The oracles with their submissions; `None` for an oracle that has not
/// submitted.
pub fn get_submissions(state: &Aggregator) -> (r: Vec<(Pubkey, Option<Submission>)>)
    requires
        state.wf(),
    ensures
        r@.len() == state.config.oracles@.len(),
        forall|i: int|
            0 <= i < r@.len() ==> (#[trigger] r@[i]).0 == state.config.oracles@[i] && r@[i].1 == (
            if state.submissions@[i].0 != 0 {
                Some(state.submissions@[i])
            } else {
                None::<Submission>
            }),
{
    let mut data: Vec<(Pubkey, Option<Submission>)> = Vec::new();
    let mut i: usize = 0;
    while i < state.config.oracles.len()
        invariant
            0 <= i <= state.config.oracles@.len() <= 8,
            data@.len() == i,
            forall|k: int|
                0 <= k < i ==> (#[trigger] data@[k]).0 == state.config.oracles@[k] && data@[k].1
                    == (if state.submissions@[k].0 != 0 {
                    Some(state.submissions@[k])
                } else {
                    None::<Submission>
                }),
        decreases state.config.oracles@.len() - i,
    {
        let submission = state.submissions[i];
        // a submission without a timestamp is none
        let submission = if submission.0 != 0 {
            Some(submission)
        } else {
            None
        };
        data.push((state.config.oracles[i], submission));
        i += 1;
    }
    data
}

/// The last of `rounds` that was put down before `timestamp`.
pub open spec fn last_before(rounds: Seq<Submission>, timestamp: i64) -> Option<Submission>
    decreases rounds.len(),
{
    if rounds.len() == 0 {
        None
    } else if rounds.last().0 < timestamp {
        Some(rounds.last())
    } else {
        last_before(rounds.drop_last(), timestamp)
    }
}

/// Where the run of answers at the end of `rounds` begins: behind the last
/// slot that holds none.
pub open spec fn run_start(rounds: Seq<Submission>) -> int
    decreases rounds.len(),
{
    if rounds.len() == 0 || rounds.last() == Submission(0, 0) {
        rounds.len() as int
    } else if run_start(rounds.drop_last()) == rounds.len() - 1 {
        rounds.len() - 1
    } else {
        run_start(rounds.drop_last())
    }
}

/// The answer that held at `timestamp`, in a ring of past answers whose next
/// slot is `pos`: the newest answer from before `timestamp`. The ring is
/// walked back from `pos` to its start, then from its end down to `pos`, and
/// there only as far as the slots hold answers.
pub open spec fn round_before(rounds: Seq<Submission>, pos: int, timestamp: i64) -> Option<
    Submission,
> {
    match last_before(rounds.take(pos), timestamp) {
        Some(found) => Some(found),
        None => {
            let older = rounds.skip(pos);
            last_before(older.skip(run_start(older)), timestamp)
        },
    }
}

/// The run at the end of a sequence starts inside it.
pub proof fn lemma_run_start(rounds: Seq<Submission>)
    ensures
        0 <= run_start(rounds) <= rounds.len(),
        forall|i: int| run_start(rounds) <= i < rounds.len() ==> rounds[i] != Submission(0, 0),
        run_start(rounds) > 0 ==> rounds[run_start(rounds) - 1] == Submission(0, 0),
    decreases rounds.len(),
{
    if rounds.len() > 0 && rounds.last() != Submission(0, 0) {
        lemma_run_start(rounds.drop_last());
        let rest = rounds.drop_last();
        assert forall|i: int| run_start(rounds) <= i < rounds.len() implies rounds[i]
            != Submission(0, 0) by {
            if i < rounds.len() - 1 {
                assert(rest[i] == rounds[i]);
            }
        }
        if run_start(rounds) > 0 && run_start(rest) != rounds.len() - 1 {
            assert(rest[run_start(rest) - 1] == rounds[run_start(rest) - 1]);
        }
    }
}

/// The answer that held at `timestamp`: see `round_before`.
pub fn get_round(rounds: &[Submission], pos: u64, timestamp: i64) -> (r: Option<Submission>)
    requires
        pos <= rounds@.len(),
    ensures
        r == round_before(rounds@, pos as int, timestamp),
{
    let len = rounds.len();
    let start = pos as usize;
    // first back from the cursor
    let mut i: usize = start;
    while i > 0
        invariant
            0 <= i <= start <= rounds@.len(),
            start == pos,
            last_before(rounds@.take(start as int), timestamp) == last_before(
                rounds@.take(i as int),
                timestamp,
            ),
        decreases i,
    {
        proof {
            assert(rounds@.take(i as int).drop_last() =~= rounds@.take(i - 1));
            assert(rounds@.take(i as int).last() == rounds@[i - 1]);
        }
        if rounds[i - 1].0 < timestamp {
            return Some(rounds[i - 1]);
        }
        i -= 1;
    }
    // then back from the end, as far as there are answers
    let ghost older = rounds@.skip(start as int);
    let ghost run = older.skip(run_start(older));
    proof {
        lemma_run_start(older);
        assert(run.take(len - start - run_start(older)) =~= run);
    }
    let mut j: usize = len;
    while j > start
        invariant
            start <= j <= rounds@.len(),
            start == pos,
            older == rounds@.skip(start as int),
            run == older.skip(run_start(older)),
            0 <= run_start(older) <= older.len(),
            run_start(older) <= j - start,
            forall|k: int| run_start(older) <= k < older.len() ==> older[k] != Submission(0, 0),
            run_start(older) > 0 ==> older[run_start(older) - 1] == Submission(0, 0),
            last_before(run, timestamp) == last_before(
                run.take(j - start - run_start(older)),
                timestamp,
            ),
            last_before(rounds@.take(start as int), timestamp) is None,
        decreases j,
    {
        let round = rounds[j - 1];
        assert(older[j - 1 - start] == round);
        // the first slot without an answer ends the search
        if round.0 == 0 && round.1 == 0 {
            proof {
                assert(round == Submission(0, 0));
                assert(j - 1 - start < run_start(older));
                assert(run.take(0) =~= Seq::<Submission>::empty());
            }
            return None;
        }
        proof {
            if j - 1 - start < run_start(older) {
                // only the slot before the run can be met, and it holds no answer
                assert(false);
            }
            let n = j - start - run_start(older);
            assert(run.take(n).drop_last() =~= run.take(n - 1));
            assert(run.take(n).last() == round);
        }
        if round.0 < timestamp {
            return Some(round);
        }
        j -= 1;
    }
    proof {
        assert(run.take(0) =~= Seq::<Submission>::empty());
    }
    None
}

} // verus!
