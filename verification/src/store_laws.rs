//! What holds of a feed that was filled by inserts alone.

use vstd::prelude::*;
use vstd::arithmetic::div_mod::*;
use crate::store::{lemma_historical_offset, Ledger, Transmission};

verus! {

/// Reducing a number by its ring length first does not change where a step back lands.
pub proof fn lemma_mod_shift(n: int, d: int, len: int)
    requires
        len > 0,
    ensures
        (n % len - d) % len == (n - d) % len,
{
    lemma_fundamental_div_mod(n, len);
    lemma_mod_multiples_vanish(-(n / len), n - d, len);
    assert(len * (-(n / len)) + (n - d) == n % len - d) by (nonlinear_arith)
        requires
            n == len * (n / len) + n % len,
    ;
}

/// Two numbers less than a ring length apart fall on different slots.
pub proof fn lemma_distinct_slots(a: int, b: int, len: int)
    requires
        len > 0,
        0 < a - b < len,
    ensures
        a % len != b % len,
{
    lemma_fundamental_div_mod(a, len);
    lemma_fundamental_div_mod(b, len);
    if a % len == b % len {
        let qa = a / len;
        let qb = b / len;
        assert(a - b == len * (qa - qb)) by (nonlinear_arith)
            requires
                a == len * qa + a % len,
                b == len * qb + b % len,
                a % len == b % len,
        ;
        assert(false) by (nonlinear_arith)
            requires
                len > 0,
                0 < len * (qa - qb) < len,
        ;
    }
}

/// The quotient and remainder of the next number.
pub proof fn lemma_succ_div_mod(n: int, g: int)
    requires
        n >= 0,
        g > 0,
    ensures
        (n + 1) % g == 0 ==> (n + 1) / g == n / g + 1 && (n / g + 1) * g == n + 1,
        (n + 1) % g != 0 ==> (n + 1) / g == n / g,
        (n % g + 1) % g == (n + 1) % g,
{
    lemma_fundamental_div_mod(n, g);
    lemma_fundamental_div_mod(n + 1, g);
    let q = n / g;
    let r = n % g;
    lemma_mod_bound(n, g);
    if r + 1 < g {
        assert(n + 1 == q * g + (r + 1)) by (nonlinear_arith)
            requires
                n == g * q + r,
        ;
        lemma_fundamental_div_mod_converse(n + 1, g, q, r + 1);
        lemma_small_mod((r + 1) as nat, g as nat);
    } else {
        assert(n + 1 == (q + 1) * g + 0) by (nonlinear_arith)
            requires
                n == g * q + r,
                r + 1 == g,
        ;
        lemma_fundamental_div_mod_converse(n + 1, g, q + 1, 0);
        lemma_mod_self_0(g);
    }
}

impl Ledger {
    /// The feed holds exactly the rounds `rounds`, inserted in this order
    /// into an empty feed: round `r` is `rounds[r - 1]`.
    pub open spec fn records(self, rounds: Seq<Transmission>) -> bool {
        let n = rounds.len() as int;
        let len = self.live.len() as int;
        let g = self.granularity as int;
        let h = self.historical.len() as int;
        &&& self.wf()
        &&& self.latest_round_id == n
        &&& self.live_cursor == n % len
        &&& self.historical_cursor == (n / g) % h
        &&& forall|r: int|
            1 <= r <= n && r > n - len ==> #[trigger] self.live[(r - 1) % len] == rounds[r - 1]
        &&& forall|k: int|
            1 <= k <= n / g && k > n / g - h ==> #[trigger] self.historical[(k - 1) % h]
                == rounds[k * g - 1]
    }
}

/// An empty feed holds no rounds.
pub proof fn lemma_empty_records(granularity: nat, live_length: nat, historical_length: nat)
    requires
        granularity > 0,
        live_length > 0,
        historical_length > 0,
    ensures
        Ledger::empty(granularity, live_length, historical_length).records(Seq::empty()),
{
    lemma_small_mod(0, live_length);
    lemma_div_basics(granularity as int);
    lemma_small_mod(0, historical_length);
}

/// One insert adds one round to what the feed holds.
pub proof fn lemma_insert_records(l: Ledger, rounds: Seq<Transmission>, round: Transmission)
    requires
        l.records(rounds),
    ensures
        l.insert(round).records(rounds.push(round)),
{
    let n = rounds.len() as int;
    let len = l.live.len() as int;
    let g = l.granularity as int;
    let h = l.historical.len() as int;
    let q = n / g;
    let after = l.insert(round);
    let all = rounds.push(round);
    lemma_succ_div_mod(n, len);
    lemma_succ_div_mod(n, g);
    lemma_mod_bound(n, len);
    lemma_div_pos_is_pos(n, g);
    lemma_mod_bound(q, h);
    lemma_succ_div_mod(q, h);
    assert forall|r: int| 1 <= r <= n + 1 && r > n + 1 - len implies #[trigger] after.live[(r - 1)
        % len] == all[r - 1] by {
        lemma_mod_bound(r - 1, len);
        if r <= n {
            lemma_distinct_slots(n, r - 1, len);
            assert(l.live[(r - 1) % len] == rounds[r - 1]);
        }
    }
    if (n + 1) % g == 0 {
        assert forall|k: int| 1 <= k <= q + 1 && k > q + 1 - h implies #[trigger] after.historical[(
            k - 1) % h] == all[k * g - 1] by {
            lemma_mod_bound(k - 1, h);
            if k <= q {
                lemma_distinct_slots(q, k - 1, h);
                assert(0 <= k * g - 1 < n) by (nonlinear_arith)
                    requires
                        1 <= k <= q,
                        g > 0,
                        (q + 1) * g == n + 1,
                ;
                assert(l.historical[(k - 1) % h] == rounds[k * g - 1]);
            } else {
                assert(k * g - 1 == n) by (nonlinear_arith)
                    requires
                        k == q + 1,
                        (q + 1) * g == n + 1,
                ;
            }
        }
    } else {
        assert forall|k: int| 1 <= k <= q && k > q - h implies #[trigger] after.historical[(k - 1)
            % h] == all[k * g - 1] by {
            lemma_fundamental_div_mod(n, g);
            lemma_mod_bound(n, g);
            assert(0 <= k * g - 1 < n) by (nonlinear_arith)
                requires
                    1 <= k <= q,
                    g > 0,
                    n == g * q + n % g,
                    0 <= n % g,
            ;
            assert(l.historical[(k - 1) % h] == rounds[k * g - 1]);
        }
    }
}

/// A feed that was empty and took the rounds `rounds` holds exactly them.
pub proof fn lemma_insert_all_records(
    granularity: nat,
    live_length: nat,
    historical_length: nat,
    rounds: Seq<Transmission>,
)
    requires
        granularity > 0,
        live_length > 0,
        historical_length > 0,
    ensures
        Ledger::empty(granularity, live_length, historical_length).insert_all(rounds).records(
            rounds,
        ),
        Ledger::empty(granularity, live_length, historical_length).insert_all(rounds).granularity
            == granularity,
        Ledger::empty(granularity, live_length, historical_length).insert_all(rounds).live.len()
            == live_length,
        Ledger::empty(granularity, live_length, historical_length).insert_all(
            rounds,
        ).historical.len() == historical_length,
    decreases rounds.len(),
{
    let start = Ledger::empty(granularity, live_length, historical_length);
    if rounds.len() == 0 {
        lemma_empty_records(granularity, live_length, historical_length);
        assert(rounds =~= Seq::empty());
    } else {
        lemma_insert_all_records(granularity, live_length, historical_length, rounds.drop_last());
        lemma_insert_records(
            start.insert_all(rounds.drop_last()),
            rounds.drop_last(),
            rounds.last(),
        );
        assert(rounds.drop_last().push(rounds.last()) =~= rounds);
    }
}

/// The newest round of a feed is the round inserted last.
pub proof fn lemma_insert_then_latest(l: Ledger, round: Transmission)
    requires
        l.wf(),
    ensures
        l.insert(round).wf(),
        l.insert(round).latest() == Some(round),
{
    let len = l.live.len() as int;
    let c = l.live_cursor as int;
    lemma_mod_bound(c + 1, len);
    lemma_mod_bound(l.historical_cursor as int + 1, l.historical.len() as int);
    lemma_mod_shift(c + 1, 1 - len, len);
    lemma_mod_multiples_vanish(1, c, len);
    lemma_small_mod(c as nat, len as nat);
    assert(((c + 1) % len + len - 1) == ((c + 1) % len - (1 - len)));
    assert((c + 1) - (1 - len) == len * 1 + c) by (nonlinear_arith);
}

/// A lookup in a feed that holds the rounds `rounds`:
/// a round id inside the live window gives that very round; one inside the
/// historical window gives the round whose id is the next multiple of the
/// granularity below it; a round id of the future, or one that neither window
/// retains, gives nothing. Round ids start at 1, and no round has the id 0:
/// the law speaks of ids that are, or round down to, the id of a round.
pub proof fn lemma_fetch_records(l: Ledger, rounds: Seq<Transmission>, round_id: nat)
    requires
        l.records(rounds),
    ensures
        round_id > rounds.len() ==> l.fetch(round_id) == None::<Transmission>,
        1 <= round_id <= rounds.len() && l.in_live_window(round_id) ==> l.fetch(round_id) == Some(
            rounds[round_id - 1],
        ),
        l.granularity <= round_id <= rounds.len() && !l.in_live_window(round_id)
            && l.in_historical_window(round_id) ==> {
            &&& 1 <= l.sampled_id(round_id) <= round_id
            &&& l.sampled_id(round_id) % l.granularity == 0
            &&& round_id - l.sampled_id(round_id) < l.granularity
            &&& l.fetch(round_id) == Some(rounds[l.sampled_id(round_id) - 1])
        },
        !l.in_live_window(round_id) && !l.in_historical_window(round_id) ==> l.fetch(round_id)
            == None::<Transmission>,
{
    let n = rounds.len() as int;
    let len = l.live.len() as int;
    let g = l.granularity as int;
    let h = l.historical.len() as int;
    let r = round_id as int;
    let q = n / g;
    if 1 <= r <= n && l.in_live_window(round_id) {
        lemma_mod_shift(n, n - r + 1, len);
        assert(n - (n - r + 1) == r - 1);
        assert(l.live_index(round_id) == (r - 1) % len);
        assert(l.live[(r - 1) % len] == rounds[r - 1]);
    }
    if g <= r <= n && !l.in_live_window(round_id) && l.in_historical_window(round_id) {
        let b = r / g;
        lemma_fundamental_div_mod(n, g);
        lemma_fundamental_div_mod(r, g);
        lemma_mod_bound(n, g);
        lemma_mod_bound(r, g);
        let end = l.historical_end() as int;
        assert(end == q * g) by (nonlinear_arith)
            requires
                n == g * q + n % g,
                end == n - n % g,
        ;
        lemma_mod_multiples_basic(q, g);
        lemma_historical_offset(end, r, g, h);
        let sampled = l.sampled_id(round_id) as int;
        assert(sampled == b * g) by (nonlinear_arith)
            requires
                r == g * b + r % g,
                sampled == r - r % g,
        ;
        assert(b >= 1) by (nonlinear_arith)
            requires
                r >= g,
                g > 0,
                r == g * b + r % g,
                r % g < g,
        ;
        assert(end - sampled == (q - b) * g) by (nonlinear_arith)
            requires
                end == q * g,
                sampled == b * g,
        ;
        lemma_div_multiples_vanish(q - b, g);
        let offset = (end - sampled) / g;
        assert(offset == q - b);
        lemma_mod_shift(q, q - b + 1, h);
        assert(q - (q - b + 1) == b - 1);
        assert(l.historical_index(round_id) == (b - 1) % h);
        assert(b <= q) by (nonlinear_arith)
            requires
                sampled <= end,
                end == q * g,
                sampled == b * g,
                g > 0,
        ;
        assert(l.historical[(b - 1) % h] == rounds[b * g - 1]);
        assert(sampled >= 1) by (nonlinear_arith)
            requires
                sampled == b * g,
                b >= 1,
                g > 0,
        ;
    }
}

/// The law of lookups, for a feed that was empty and took the rounds
/// `rounds`: see `lemma_fetch_records`.
pub proof fn lemma_fetch_after_inserts(
    granularity: nat,
    live_length: nat,
    historical_length: nat,
    rounds: Seq<Transmission>,
    round_id: nat,
)
    requires
        granularity > 0,
        live_length > 0,
        historical_length > 0,
    ensures
        ({
            let l = Ledger::empty(granularity, live_length, historical_length).insert_all(rounds);
            &&& l.latest_round_id == rounds.len()
            &&& (round_id > rounds.len() ==> l.fetch(round_id) == None::<Transmission>)
            &&& (1 <= round_id <= rounds.len() && l.in_live_window(round_id) ==> l.fetch(round_id)
                == Some(rounds[round_id - 1]))
            &&& (granularity <= round_id <= rounds.len() && !l.in_live_window(round_id)
                && l.in_historical_window(round_id) ==> l.fetch(round_id) == Some(
                rounds[l.sampled_id(round_id) - 1],
            ))
            &&& (!l.in_live_window(round_id) && !l.in_historical_window(round_id) ==> l.fetch(
                round_id,
            ) == None::<Transmission>)
        }),
{
    lemma_insert_all_records(granularity, live_length, historical_length, rounds);
    lemma_fetch_records(
        Ledger::empty(granularity, live_length, historical_length).insert_all(rounds),
        rounds,
        round_id,
    );
}

} // verus!
