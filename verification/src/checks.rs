//! Tests of the invariants, for state that comes from outside.

use vstd::prelude::*;
use crate::access::{address_keys, AccessController};
use crate::bytes::{bytes_lt, lemma_lex_lt_transitive, lex_lt};
use crate::proposal::{proposed_signer_keys, proposed_transmitter_keys};
use crate::state::{
    pairwise_distinct, signer_keys, strictly_ascending, tolerates, transmitter_keys, Oracle,
    Proposal, ProposedOracle, State,
};

verus! {

/// Whether each key is below the next one.
pub open spec fn steps_up(keys: Seq<Seq<u8>>) -> bool {
    forall|i: int| 0 <= i < keys.len() - 1 ==> lex_lt(#[trigger] keys[i], keys[i + 1])
}

/// Keys of which each is below the next are in strictly ascending order.
pub proof fn lemma_steps_up(keys: Seq<Seq<u8>>)
    ensures
        steps_up(keys) == strictly_ascending(keys),
{
    if steps_up(keys) {
        assert forall|i: int, j: int| 0 <= i < j < keys.len() implies lex_lt(
            #[trigger] keys[i],
            #[trigger] keys[j],
        ) by {
            lemma_steps_up_between(keys, i, j);
        }
    }
    if strictly_ascending(keys) {
        assert forall|i: int| 0 <= i < keys.len() - 1 implies lex_lt(
            #[trigger] keys[i],
            keys[i + 1],
        ) by {
            assert(lex_lt(keys[i], keys[i + 1]));
        }
    }
}

/// Of keys of which each is below the next, an earlier one is below a later one.
pub proof fn lemma_steps_up_between(keys: Seq<Seq<u8>>, i: int, j: int)
    requires
        steps_up(keys),
        0 <= i < j < keys.len(),
    ensures
        lex_lt(keys[i], keys[j]),
    decreases j - i,
{
    if i + 1 < j {
        lemma_steps_up_between(keys, i, j - 1);
        assert(lex_lt(keys[j - 1], keys[j - 1 + 1]));
        lemma_lex_lt_transitive(keys[i], keys[j - 1], keys[j]);
    } else {
        assert(lex_lt(keys[i], keys[i + 1]));
    }
}

/// Whether the oracles are sorted by signer key, none twice.
pub fn signers_ascending(oracles: &[Oracle]) -> (r: bool)
    ensures
        r == strictly_ascending(signer_keys(oracles@)),
{
    let ghost keys = signer_keys(oracles@);
    proof {
        lemma_steps_up(keys);
    }
    let mut i: usize = 1;
    while i < oracles.len()
        invariant
            1 <= i,
            keys == signer_keys(oracles@),
            forall|k: int| 0 <= k < i - 1 && k < keys.len() - 1 ==> lex_lt(
                #[trigger] keys[k],
                keys[k + 1],
            ),
        decreases oracles@.len() - i,
    {
        assert(keys[i - 1] == oracles@[i - 1].signer.key@);
        assert(keys[i as int] == oracles@[i as int].signer.key@);
        if !bytes_lt(oracles[i - 1].signer.key.as_slice(), oracles[i].signer.key.as_slice()) {
            proof {
                assert(!lex_lt(keys[i - 1], keys[i - 1 + 1]));
            }
            return false;
        }
        i += 1;
    }
    true
}

/// Whether no transmitter occurs twice among the oracles.
pub fn transmitters_distinct(oracles: &[Oracle]) -> (r: bool)
    ensures
        r == pairwise_distinct(transmitter_keys(oracles@)),
{
    let ghost keys = transmitter_keys(oracles@);
    let mut j: usize = 0;
    while j < oracles.len()
        invariant
            0 <= j <= oracles@.len(),
            keys == transmitter_keys(oracles@),
            forall|a: int, b: int| 0 <= a < b < j ==> #[trigger] keys[a] != #[trigger] keys[b],
        decreases oracles@.len() - j,
    {
        let mut i: usize = 0;
        while i < j
            invariant
                0 <= i <= j < oracles@.len(),
                keys == transmitter_keys(oracles@),
                forall|a: int| 0 <= a < i ==> #[trigger] keys[a] != keys[j as int],
            decreases j - i,
        {
            if oracles[i].transmitter == oracles[j].transmitter {
                proof {
                    assert(keys[i as int] == keys[j as int]);
                }
                return false;
            }
            i += 1;
        }
        j += 1;
    }
    true
}

/// Whether the staged oracles are sorted by signer key, none twice.
pub fn staged_signers_ascending(oracles: &[ProposedOracle]) -> (r: bool)
    ensures
        r == strictly_ascending(proposed_signer_keys(oracles@)),
{
    let ghost keys = proposed_signer_keys(oracles@);
    proof {
        lemma_steps_up(keys);
    }
    let mut i: usize = 1;
    while i < oracles.len()
        invariant
            1 <= i,
            keys == proposed_signer_keys(oracles@),
            forall|k: int| 0 <= k < i - 1 && k < keys.len() - 1 ==> lex_lt(
                #[trigger] keys[k],
                keys[k + 1],
            ),
        decreases oracles@.len() - i,
    {
        assert(keys[i - 1] == oracles@[i - 1].signer.key@);
        assert(keys[i as int] == oracles@[i as int].signer.key@);
        if !bytes_lt(oracles[i - 1].signer.key.as_slice(), oracles[i].signer.key.as_slice()) {
            proof {
                assert(!lex_lt(keys[i - 1], keys[i - 1 + 1]));
            }
            return false;
        }
        i += 1;
    }
    true
}

/// Whether no transmitter occurs twice among the staged oracles.
pub fn staged_transmitters_distinct(oracles: &[ProposedOracle]) -> (r: bool)
    ensures
        r == pairwise_distinct(proposed_transmitter_keys(oracles@)),
{
    let ghost keys = proposed_transmitter_keys(oracles@);
    let mut j: usize = 0;
    while j < oracles.len()
        invariant
            0 <= j <= oracles@.len(),
            keys == proposed_transmitter_keys(oracles@),
            forall|a: int, b: int| 0 <= a < b < j ==> #[trigger] keys[a] != #[trigger] keys[b],
        decreases oracles@.len() - j,
    {
        let mut i: usize = 0;
        while i < j
            invariant
                0 <= i <= j < oracles@.len(),
                keys == proposed_transmitter_keys(oracles@),
                forall|a: int| 0 <= a < i ==> #[trigger] keys[a] != keys[j as int],
            decreases j - i,
        {
            if oracles[i].transmitter == oracles[j].transmitter {
                proof {
                    assert(keys[i as int] == keys[j as int]);
                }
                return false;
            }
            i += 1;
        }
        j += 1;
    }
    true
}

/// Whether a set of `count` oracles tolerates `f` faulty ones.
pub fn tolerated(count: usize, f: u8) -> (r: bool)
    ensures
        r == tolerates(count as nat, f),
{
    count == 0 || (f != 0 && 3 * (f as usize) < count)
}

impl State {
    /// Whether the state is well-formed: the operations ask for that.
    pub fn is_well_formed(&self) -> (r: bool)
        ensures
            r == self.wf(),
    {
        self.oracles.is_well_formed() && self.leftover_payments.is_well_formed()
            && self.offchain_config.bytes.is_well_formed() && signers_ascending(
            self.oracles.as_slice(),
        ) && transmitters_distinct(self.oracles.as_slice()) && tolerated(
            self.oracles.len(),
            self.config.f,
        )
    }
}

impl Proposal {
    /// Whether the proposal is well-formed: the operations ask for that.
    pub fn is_well_formed(&self) -> (r: bool)
        ensures
            r == self.wf(),
    {
        self.oracles.is_well_formed() && self.offchain_config.bytes.is_well_formed()
            && staged_signers_ascending(self.oracles.as_slice()) && staged_transmitters_distinct(
            self.oracles.as_slice(),
        ) && tolerated(self.oracles.len(), self.f)
    }
}

impl AccessController {
    /// Whether the access list is well-formed: the operations ask for that.
    pub fn is_well_formed(&self) -> (r: bool)
        ensures
            r == self.wf(),
    {
        if !self.access_list.is_well_formed() {
            return false;
        }
        let list = self.access_list.as_slice();
        let ghost keys = address_keys(list@);
        proof {
            lemma_steps_up(keys);
        }
        let mut i: usize = 1;
        while i < list.len()
            invariant
                1 <= i,
                list@ == self.access_list@,
                self.access_list.wf(),
                keys == address_keys(list@),
                forall|k: int| 0 <= k < i - 1 && k < keys.len() - 1 ==> lex_lt(
                    #[trigger] keys[k],
                    keys[k + 1],
                ),
            decreases list@.len() - i,
        {
            assert(keys[i - 1] == list@[i - 1]@);
            assert(keys[i as int] == list@[i as int]@);
            if !bytes_lt(list[i - 1].bytes.as_slice(), list[i].bytes.as_slice()) {
                proof {
                    assert(!lex_lt(keys[i - 1], keys[i - 1 + 1]));
                }
                return false;
            }
            i += 1;
        }
        true
    }
}

} // verus!
