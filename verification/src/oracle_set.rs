//! Putting a new oracle set in order: sorted by signer key, no signer and
//! no transmitter twice.

use vstd::prelude::*;
use crate::bytes::{
    bytes_eq, bytes_lt, lemma_lex_lt_irreflexive, lemma_lex_lt_total, lemma_lex_lt_transitive,
    lex_lt,
};
use crate::error::ErrorCode;
use crate::state::{pairwise_distinct, strictly_ascending, NewOracle};

verus! {

/// The signer keys of `oracles`, in order.
pub open spec fn new_signer_keys(oracles: Seq<NewOracle>) -> Seq<Seq<u8>> {
    Seq::new(oracles.len(), |i: int| oracles[i].signer@)
}

/// The transmitter keys of `oracles`, in order.
pub open spec fn new_transmitter_keys(oracles: Seq<NewOracle>) -> Seq<Seq<u8>> {
    Seq::new(oracles.len(), |i: int| oracles[i].transmitter@)
}

/// Two sets with the same oracles, in whatever order, and no signer twice
/// in either: a transmitter occurs twice in one exactly if it does in the other.
pub proof fn lemma_same_oracles_same_duplicates(a: Seq<NewOracle>, b: Seq<NewOracle>)
    requires
        a.to_multiset() == b.to_multiset(),
        pairwise_distinct(new_signer_keys(a)),
    ensures
        !pairwise_distinct(new_transmitter_keys(a)) ==> !pairwise_distinct(
            new_transmitter_keys(b),
        ),
{
    broadcast use vstd::seq_lib::group_to_multiset_ensures;

    if !pairwise_distinct(new_transmitter_keys(a)) {
        let ta = new_transmitter_keys(a);
        let (i, j) = choose|i: int, j: int| 0 <= i < j < ta.len() && ta[i] == ta[j];
        assert(a.contains(a[i]));
        assert(a.contains(a[j]));
        assert(b.to_multiset().count(a[i]) > 0);
        assert(b.to_multiset().count(a[j]) > 0);
        assert(b.contains(a[i]));
        assert(b.contains(a[j]));
        let p = choose|p: int| 0 <= p < b.len() && b[p] == a[i];
        let q = choose|q: int| 0 <= q < b.len() && b[q] == a[j];
        let sa = new_signer_keys(a);
        assert(sa[i] != sa[j]);
        assert(p != q);
        let tb = new_transmitter_keys(b);
        if p < q {
            assert(tb[p] == tb[q]);
        } else {
            assert(tb[q] == tb[p]);
        }
    }
}

/// Whether no transmitter occurs twice among `oracles`.
pub fn distinct_transmitters(oracles: &[NewOracle]) -> (r: bool)
    ensures
        r == pairwise_distinct(new_transmitter_keys(oracles@)),
{
    let ghost keys = new_transmitter_keys(oracles@);
    let mut j: usize = 0;
    while j < oracles.len()
        invariant
            0 <= j <= oracles@.len(),
            keys == new_transmitter_keys(oracles@),
            forall|a: int, b: int| 0 <= a < b < j ==> #[trigger] keys[a] != #[trigger] keys[b],
        decreases oracles@.len() - j,
    {
        let mut i: usize = 0;
        while i < j
            invariant
                0 <= i <= j < oracles@.len(),
                keys == new_transmitter_keys(oracles@),
                forall|a: int| 0 <= a < i ==> #[trigger] keys[a] != keys[j as int],
            decreases j - i,
        {
            if oracles[i].transmitter == oracles[j].transmitter {
                proof {
                    assert(keys[i as int] == keys[j as int]);
                }
                return false;
            }
            i += 1;
        }
        j += 1;
    }
    true
}

/// Sorts a new oracle set by signer key, so that a signer can be found by
/// binary search. `DuplicateSigner` where two oracles sign with the same
/// key, else `DuplicateTransmitter` where two transmit with the same key.
pub fn sort_oracles(new_oracles: &[NewOracle]) -> (r: Result<Vec<NewOracle>, ErrorCode>)
    ensures
        match r {
            Ok(sorted) => {
                &&& sorted@.to_multiset() == new_oracles@.to_multiset()
                &&& sorted@.len() == new_oracles@.len()
                &&& strictly_ascending(new_signer_keys(sorted@))
                &&& pairwise_distinct(new_transmitter_keys(sorted@))
                &&& pairwise_distinct(new_signer_keys(new_oracles@))
                &&& pairwise_distinct(new_transmitter_keys(new_oracles@))
            },
            Err(e) => if pairwise_distinct(new_signer_keys(new_oracles@)) {
                e == ErrorCode::DuplicateTransmitter && !pairwise_distinct(
                    new_transmitter_keys(new_oracles@),
                )
            } else {
                e == ErrorCode::DuplicateSigner
            },
        },
{
    broadcast use vstd::seq_lib::group_to_multiset_ensures;

    let mut sorted: Vec<NewOracle> = Vec::new();
    let mut i: usize = 0;
    proof {
        assert(new_oracles@.take(0) =~= Seq::<NewOracle>::empty());
        assert(sorted@ =~= new_oracles@.take(0));
    }
    while i < new_oracles.len()
        invariant
            0 <= i <= new_oracles@.len(),
            sorted@.len() == i,
            sorted@.to_multiset() == new_oracles@.take(i as int).to_multiset(),
            strictly_ascending(new_signer_keys(sorted@)),
            pairwise_distinct(new_signer_keys(new_oracles@.take(i as int))),
        decreases new_oracles@.len() - i,
    {
        let oracle = new_oracles[i];
        let ghost keys = new_signer_keys(sorted@);
        let ghost key = oracle.signer@;
        let mut p: usize = 0;
        while p < sorted.len() && bytes_lt(sorted[p].signer.as_slice(), oracle.signer.as_slice())
            invariant
                0 <= p <= sorted@.len(),
                keys == new_signer_keys(sorted@),
                key == oracle.signer@,
                forall|a: int| 0 <= a < p ==> lex_lt(#[trigger] keys[a], key),
            decreases sorted@.len() - p,
        {
            assert(keys[p as int] == sorted@[p as int].signer@);
            p += 1;
        }
        if p < sorted.len() && bytes_eq(sorted[p].signer.as_slice(), oracle.signer.as_slice()) {
            proof {
                // the oracle with the same key came earlier
                let twin = sorted@[p as int];
                assert(sorted@.contains(twin));
                vstd::seq_lib::to_multiset_contains(sorted@, twin);
                vstd::seq_lib::to_multiset_contains(new_oracles@.take(i as int), twin);
                assert(new_oracles@.take(i as int).to_multiset().count(twin) > 0);
                assert(new_oracles@.take(i as int).contains(twin));
                let j = choose|j: int|
                    0 <= j < new_oracles@.take(i as int).len() && new_oracles@.take(i as int)[j]
                        == twin;
                let all = new_signer_keys(new_oracles@);
                assert(all[j] == all[i as int]);
            }
            return Err(ErrorCode::DuplicateSigner);
        }
        proof {
            let after = sorted@.insert(p as int, oracle);
            let after_keys = new_signer_keys(after);
            vstd::seq_lib::to_multiset_insert(sorted@, p as int, oracle);
            vstd::seq_lib::to_multiset_build(new_oracles@.take(i as int), oracle);
            assert(new_oracles@.take(i + 1) =~= new_oracles@.take(i as int).push(oracle));
            assert(after.to_multiset() == new_oracles@.take(i + 1).to_multiset());
            // every key from `p` on is above the new one
            lemma_lex_lt_irreflexive(key);
            assert forall|b: int| p <= b < sorted@.len() implies lex_lt(key, #[trigger] keys[b]) by {
                assert(keys[p as int] == sorted@[p as int].signer@);
                lemma_lex_lt_total(keys[p as int], key);
                if p < b {
                    assert(lex_lt(keys[p as int], keys[b]));
                    lemma_lex_lt_transitive(key, keys[p as int], keys[b]);
                }
            }
            assert forall|a: int, b: int| 0 <= a < b < after_keys.len() implies lex_lt(
                #[trigger] after_keys[a],
                #[trigger] after_keys[b],
            ) by {
                let ka = if a < p {
                    a
                } else {
                    a - 1
                };
                let kb = if b < p {
                    b
                } else {
                    b - 1
                };
                if a != p {
                    assert(after_keys[a] == keys[ka]);
                }
                if b != p {
                    assert(after_keys[b] == keys[kb]);
                }
                if a != p && b != p {
                    assert(lex_lt(keys[ka], keys[kb]));
                }
            }
            // so the new key differs from every earlier one
            let prefix = new_signer_keys(new_oracles@.take(i + 1));
            let before = new_signer_keys(new_oracles@.take(i as int));
            assert forall|a: int, b: int| 0 <= a < b < prefix.len() implies #[trigger] prefix[a]
                != #[trigger] prefix[b] by {
                if b < i {
                    assert(before[a] != before[b]);
                } else {
                    let earlier = new_oracles@.take(i as int)[a];
                    assert(new_oracles@.take(i as int).contains(earlier));
                    vstd::seq_lib::to_multiset_contains(sorted@, earlier);
                    vstd::seq_lib::to_multiset_contains(new_oracles@.take(i as int), earlier);
                    assert(sorted@.to_multiset().count(earlier) > 0);
                    assert(sorted@.contains(earlier));
                    let c = choose|c: int| 0 <= c < sorted@.len() && sorted@[c] == earlier;
                    assert(keys[c] == earlier.signer@);
                    if c < p {
                        assert(lex_lt(keys[c], key));
                    } else {
                        assert(lex_lt(key, keys[c]));
                    }
                }
            }
        }
        sorted.insert(p, oracle);
        i += 1;
    }
    proof {
        assert(new_oracles@.take(i as int) =~= new_oracles@);
        let keys = new_signer_keys(sorted@);
        lemma_ascending_distinct(keys);
    }
    if !distinct_transmitters(sorted.as_slice()) {
        proof {
            lemma_same_oracles_same_duplicates(sorted@, new_oracles@);
        }
        return Err(ErrorCode::DuplicateTransmitter);
    }
    proof {
        lemma_same_oracles_same_duplicates(new_oracles@, sorted@);
    }
    Ok(sorted)
}

/// Keys in strictly ascending order are pairwise distinct.
pub proof fn lemma_ascending_distinct(keys: Seq<Seq<u8>>)
    requires
        strictly_ascending(keys),
    ensures
        pairwise_distinct(keys),
{
    assert forall|i: int, j: int| 0 <= i < j < keys.len() implies #[trigger] keys[i]
        != #[trigger] keys[j] by {
        assert(lex_lt(keys[i], keys[j]));
        lemma_lex_lt_irreflexive(keys[i]);
    }
}

} // verus!
