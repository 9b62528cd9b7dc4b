//! Finding the oracles that signed a report, and telling whether one of them
//! signed twice.

use vstd::prelude::*;
use crate::bytes::{
    bytes_eq, bytes_lt, lemma_lex_lt_irreflexive, lemma_lex_lt_total, lemma_lex_lt_transitive,
    lex_lt,
};
use crate::error::ErrorCode;
use crate::state::{signer_keys, strictly_ascending, Oracle};

verus! {

/// Whether an oracle of the set signs with the key address `address`.
pub open spec fn has_signer(oracles: Seq<Oracle>, address: Seq<u8>) -> bool {
    exists|i: int| 0 <= i < oracles.len() && #[trigger] oracles[i].signer.key@ == address
}

/// The place in the set of the oracle that signs with `address`.
pub open spec fn signer_position(oracles: Seq<Oracle>, address: Seq<u8>) -> int {
    choose|i: int| 0 <= i < oracles.len() && #[trigger] oracles[i].signer.key@ == address
}

/// In a sorted set at most one oracle signs with a given address.
pub proof fn lemma_signer_position_unique(oracles: Seq<Oracle>, address: Seq<u8>, i: int)
    requires
        strictly_ascending(signer_keys(oracles)),
        0 <= i < oracles.len(),
        oracles[i].signer.key@ == address,
    ensures
        has_signer(oracles, address),
        signer_position(oracles, address) == i,
{
    let j = signer_position(oracles, address);
    let keys = signer_keys(oracles);
    lemma_lex_lt_irreflexive(address);
    if j < i {
        assert(lex_lt(keys[j], keys[i]));
    } else if i < j {
        assert(lex_lt(keys[i], keys[j]));
    }
}

/// Looks up the oracle that signs with `address`, by binary search over the
/// sorted signer keys.
pub fn find_signer(oracles: &[Oracle], address: &[u8]) -> (r: Result<usize, ErrorCode>)
    requires
        strictly_ascending(signer_keys(oracles@)),
        address@.len() == 20,
    ensures
        match r {
            Ok(i) => has_signer(oracles@, address@) && i == signer_position(oracles@, address@),
            Err(e) => e == ErrorCode::UnauthorizedSigner && !has_signer(oracles@, address@),
        },
{
    let ghost keys = signer_keys(oracles@);
    let mut lo: usize = 0;
    let mut hi: usize = oracles.len();
    while lo < hi
        invariant
            0 <= lo <= hi <= oracles@.len(),
            keys == signer_keys(oracles@),
            strictly_ascending(keys),
            address@.len() == 20,
            forall|i: int| 0 <= i < lo ==> lex_lt(#[trigger] keys[i], address@),
            forall|i: int| hi <= i < oracles@.len() ==> lex_lt(address@, #[trigger] keys[i]),
        decreases hi - lo,
    {
        let mid: usize = lo + (hi - lo) / 2;
        let key = oracles[mid].signer.key;
        assert(key@ == keys[mid as int]);
        if bytes_eq(key.as_slice(), address) {
            proof {
                lemma_signer_position_unique(oracles@, address@, mid as int);
            }
            return Ok(mid);
        } else if bytes_lt(key.as_slice(), address) {
            proof {
                assert forall|i: int| 0 <= i < mid + 1 implies lex_lt(#[trigger] keys[i], address@) by {
                    if i < mid {
                        assert(lex_lt(keys[i], keys[mid as int]));
                        lemma_lex_lt_transitive(keys[i], keys[mid as int], address@);
                    }
                }
            }
            lo = mid + 1;
        } else {
            proof {
                lemma_lex_lt_total(key@, address@);
                assert forall|i: int| mid <= i < oracles@.len() implies lex_lt(
                    address@,
                    #[trigger] keys[i],
                ) by {
                    if mid < i {
                        assert(lex_lt(keys[mid as int], keys[i]));
                        lemma_lex_lt_transitive(address@, keys[mid as int], keys[i]);
                    }
                }
            }
            hi = mid;
        }
    }
    proof {
        lemma_lex_lt_irreflexive(address@);
        assert forall|i: int| 0 <= i < oracles@.len() implies oracles@[i].signer.key@
            != address@ by {
            assert(keys[i] == oracles@[i].signer.key@);
            if i < lo {
                assert(lex_lt(keys[i], address@));
            } else {
                assert(lex_lt(address@, keys[i]));
            }
        }
    }
    Err(ErrorCode::UnauthorizedSigner)
}

/// Whether bit `i` of `mask` is set.
pub open spec fn bit_is_set(mask: u32, i: nat) -> bool {
    (mask >> (i as u32)) & 1 == 1
}

/// How many of the `k` low bits of `mask` are set.
pub open spec fn ones_below(mask: u32, k: nat) -> nat
    decreases k,
{
    if k == 0 {
        0
    } else {
        ones_below(mask, (k - 1) as nat) + if bit_is_set(mask, (k - 1) as nat) {
            1nat
        } else {
            0nat
        }
    }
}

/// How many bits of `mask` are set.
pub open spec fn count_ones(mask: u32) -> nat {
    ones_below(mask, 32)
}

/// The mask with bit `i` set, and no other.
pub open spec fn bit(i: int) -> u32 {
    1u32 << (i as u32)
}

/// The mask with one bit set for each of the given places.
pub open spec fn mask_of(places: Seq<int>) -> u32
    decreases places.len(),
{
    if places.len() == 0 {
        0
    } else {
        mask_of(places.drop_last()) | bit(places.last())
    }
}

/// Setting bit `i` changes bit `i` and no other.
pub proof fn lemma_set_bit(mask: u32, i: nat, j: nat)
    requires
        i < 32,
        j < 32,
    ensures
        bit_is_set(mask | bit(i as int), j) == (bit_is_set(mask, j) || i == j),
{
    let a = i as u32;
    let b = j as u32;
    assert((((mask | (1u32 << a)) >> b) & 1 == 1) == (((mask >> b) & 1 == 1) || a == b))
        by (bit_vector)
        requires
            a < 32,
            b < 32,
    ;
}

/// Setting bit `i` adds one to the count of the low `k` bits if the bit is
/// among them and was not set.
pub proof fn lemma_ones_below_set_bit(mask: u32, i: nat, k: nat)
    requires
        i < 32,
        k <= 32,
    ensures
        ones_below(mask | bit(i as int), k) == ones_below(mask, k) + if i < k && !bit_is_set(
            mask,
            i,
        ) {
            1nat
        } else {
            0nat
        },
    decreases k,
{
    if k > 0 {
        lemma_ones_below_set_bit(mask, i, (k - 1) as nat);
        lemma_set_bit(mask, i, (k - 1) as nat);
    }
}

/// No bit of the empty mask is set.
pub proof fn lemma_ones_below_zero(k: nat)
    requires
        k <= 32,
    ensures
        ones_below(0, k) == 0,
    decreases k,
{
    if k > 0 {
        lemma_ones_below_zero((k - 1) as nat);
        let b = (k - 1) as u32;
        assert(((0u32 >> b) & 1) == 0) by (bit_vector);
    }
}

/// A mask has a bit set exactly for the places it was made of, and as many
/// bits set as there are different places.
pub proof fn lemma_mask_of(places: Seq<int>)
    requires
        forall|i: int| 0 <= i < places.len() ==> 0 <= #[trigger] places[i] < 32,
    ensures
        forall|j: nat| j < 32 ==> bit_is_set(mask_of(places), j) == places.contains(j as int),
        count_ones(mask_of(places)) == places.to_set().len(),
        places.to_set().finite(),
    decreases places.len(),
{
    broadcast use vstd::seq_lib::group_seq_properties;
    broadcast use vstd::set::group_set_axioms;

    if places.len() == 0 {
        lemma_ones_below_zero(32);
        assert forall|j: nat| j < 32 implies bit_is_set(mask_of(places), j) == places.contains(
            j as int,
        ) by {
            let b = j as u32;
            assert(((0u32 >> b) & 1) == 0) by (bit_vector);
        }
        assert(places.to_set() =~= Set::<int>::empty());
    } else {
        let rest = places.drop_last();
        let last = places.last();
        lemma_mask_of(rest);
        assert(places =~= rest.push(last));
        rest.lemma_push_to_set_commute(last);
        assert(places.to_set() =~= rest.to_set().insert(last));
        lemma_ones_below_set_bit(mask_of(rest), last as nat, 32);
        assert(bit_is_set(mask_of(rest), last as nat) == rest.contains(last));
        assert(rest.to_set().contains(last) == rest.contains(last));
        assert forall|j: nat| j < 32 implies bit_is_set(mask_of(places), j) == places.contains(
            j as int,
        ) by {
            lemma_set_bit(mask_of(rest), last as nat, j);
            if places.contains(j as int) {
                let idx = choose|idx: int| 0 <= idx < places.len() && places[idx] == j as int;
                if idx < rest.len() {
                    assert(rest[idx] == j as int);
                }
            }
            if rest.contains(j as int) {
                let idx = choose|idx: int| 0 <= idx < rest.len() && rest[idx] == j as int;
                assert(places[idx] == j as int);
            }
            if last == j as int {
                assert(places[places.len() - 1] == j as int);
            }
        }
    }
}

/// A mask has as many bits set as it was given places exactly when no place
/// was given twice.
pub proof fn lemma_mask_counts_distinct(places: Seq<int>)
    requires
        forall|i: int| 0 <= i < places.len() ==> 0 <= #[trigger] places[i] < 32,
    ensures
        count_ones(mask_of(places)) <= places.len(),
        (count_ones(mask_of(places)) == places.len()) == places.no_duplicates(),
{
    lemma_mask_of(places);
    places.lemma_cardinality_of_set();
    if places.no_duplicates() {
        places.unique_seq_to_set();
    }
    if places.to_set().len() == places.len() {
        places.lemma_no_dup_set_cardinality();
    }
}

/// Counts the bits that are set.
pub fn popcount(mask: u32) -> (r: u32)
    ensures
        r == count_ones(mask),
{
    let mut count: u32 = 0;
    let mut i: u32 = 0;
    while i < 32
        invariant
            0 <= i <= 32,
            count == ones_below(mask, i as nat),
            count <= i,
        decreases 32 - i,
    {
        if (mask >> i) & 1 == 1 {
            count += 1;
        }
        i += 1;
    }
    count
}

} // verus!
