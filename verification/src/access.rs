//! The access controller: an owner and a sorted list of addresses that
//! have access.

use vstd::prelude::*;
use crate::arrayvec::ArrayVec;
use crate::bytes::{
    bytes_eq, bytes_lt, lemma_lex_lt_irreflexive, lemma_lex_lt_total, lemma_lex_lt_transitive,
    lex_lt,
};
use crate::error::ErrorCode;
use crate::pubkey::{lemma_pubkey_ext, Pubkey};
use crate::state::strictly_ascending;

verus! {

/// How many addresses an access list can hold.
pub const MAX_ADDRS: usize = 64;

pub type AccessList = ArrayVec<Pubkey, 64>;

/// An access list with its owner.
#[derive(Debug)]
pub struct AccessController {
    pub owner: Pubkey,
    pub proposed_owner: Pubkey,
    pub access_list: AccessList,
}

/// The addresses of `list` as byte strings.
pub open spec fn address_keys(list: Seq<Pubkey>) -> Seq<Seq<u8>> {
    Seq::new(list.len(), |i: int| list[i]@)
}

/// Whether `address` is on `list`.
pub open spec fn listed(list: Seq<Pubkey>, address: Pubkey) -> bool {
    exists|i: int| 0 <= i < list.len() && (#[trigger] list[i])@ == address@
}

impl AccessController {
    /// The list is within its capacity and sorted without duplicates.
    pub open spec fn wf(&self) -> bool {
        &&& self.access_list.wf()
        &&& strictly_ascending(address_keys(self.access_list@))
    }
}

/// Where `address` stands in the sorted `list`, or where it would have to
/// be put in.
pub fn search(list: &[Pubkey], address: &Pubkey) -> (r: Result<usize, usize>)
    requires
        strictly_ascending(address_keys(list@)),
    ensures
        match r {
            Ok(i) => i < list@.len() && list@[i as int]@ == address@,
            Err(i) => {
                &&& i <= list@.len()
                &&& !listed(list@, *address)
                &&& forall|j: int| 0 <= j < i ==> lex_lt((#[trigger] list@[j])@, address@)
                &&& forall|j: int| i <= j < list@.len() ==> lex_lt(address@, (#[trigger] list@[j])@)
            },
        },
{
    let ghost keys = address_keys(list@);
    let mut lo: usize = 0;
    let mut hi: usize = list.len();
    while lo < hi
        invariant
            0 <= lo <= hi <= list@.len(),
            keys == address_keys(list@),
            strictly_ascending(keys),
            forall|i: int| 0 <= i < lo ==> lex_lt(#[trigger] keys[i], address@),
            forall|i: int| hi <= i < list@.len() ==> lex_lt(address@, #[trigger] keys[i]),
        decreases hi - lo,
    {
        let mid: usize = lo + (hi - lo) / 2;
        let key = &list[mid];
        assert(key@ == keys[mid as int]);
        if bytes_eq(key.bytes.as_slice(), address.bytes.as_slice()) {
            return Ok(mid);
        } else if bytes_lt(key.bytes.as_slice(), address.bytes.as_slice()) {
            proof {
                assert forall|i: int| 0 <= i < mid + 1 implies lex_lt(#[trigger] keys[i], address@) by {
                    if i < mid {
                        assert(lex_lt(keys[i], keys[mid as int]));
                        lemma_lex_lt_transitive(keys[i], keys[mid as int], address@);
                    }
                }
            }
            lo = mid + 1;
        } else {
            proof {
                lemma_lex_lt_total(key@, address@);
                assert forall|i: int| mid <= i < list@.len() implies lex_lt(
                    address@,
                    #[trigger] keys[i],
                ) by {
                    if mid < i {
                        assert(lex_lt(keys[mid as int], keys[i]));
                        lemma_lex_lt_transitive(address@, keys[mid as int], keys[i]);
                    }
                }
            }
            hi = mid;
        }
    }
    proof {
        lemma_lex_lt_irreflexive(address@);
        assert forall|j: int| 0 <= j < lo implies lex_lt((#[trigger] list@[j])@, address@) by {
            assert(keys[j] == list@[j]@);
        }
        assert forall|j: int| lo <= j < list@.len() implies lex_lt(
            address@,
            (#[trigger] list@[j])@,
        ) by {
            assert(keys[j] == list@[j]@);
        }
    }
    Err(lo)
}

/// Putting an address in at the place that `search` gives keeps the list sorted.
pub proof fn lemma_insert_keeps_order(list: Seq<Pubkey>, place: int, address: Pubkey)
    requires
        strictly_ascending(address_keys(list)),
        0 <= place <= list.len(),
        forall|j: int| 0 <= j < place ==> lex_lt((#[trigger] list[j])@, address@),
        forall|j: int| place <= j < list.len() ==> lex_lt(address@, (#[trigger] list[j])@),
    ensures
        strictly_ascending(address_keys(list.insert(place, address))),
{
    let keys = address_keys(list);
    let after = address_keys(list.insert(place, address));
    assert forall|a: int, b: int| 0 <= a < b < after.len() implies lex_lt(
        #[trigger] after[a],
        #[trigger] after[b],
    ) by {
        let ka = if a < place {
            a
        } else {
            a - 1
        };
        let kb = if b < place {
            b
        } else {
            b - 1
        };
        if a != place {
            assert(after[a] == keys[ka]);
            assert(keys[ka] == list[ka]@);
        }
        if b != place {
            assert(after[b] == keys[kb]);
            assert(keys[kb] == list[kb]@);
        }
        if a != place && b != place {
            assert(lex_lt(keys[ka], keys[kb]));
        }
    }
}

/// Taking an address out keeps the list sorted.
pub proof fn lemma_remove_keeps_order(list: Seq<Pubkey>, place: int)
    requires
        strictly_ascending(address_keys(list)),
        0 <= place < list.len(),
    ensures
        strictly_ascending(address_keys(list.remove(place))),
        !listed(list.remove(place), list[place]),
{
    let keys = address_keys(list);
    let after = address_keys(list.remove(place));
    assert forall|a: int, b: int| 0 <= a < b < after.len() implies lex_lt(
        #[trigger] after[a],
        #[trigger] after[b],
    ) by {
        let ka = if a < place {
            a
        } else {
            a + 1
        };
        let kb = if b < place {
            b
        } else {
            b + 1
        };
        assert(after[a] == keys[ka]);
        assert(after[b] == keys[kb]);
        assert(lex_lt(keys[ka], keys[kb]));
    }
    lemma_lex_lt_irreflexive(list[place]@);
    assert forall|j: int| 0 <= j < list.remove(place).len() implies (#[trigger] list.remove(
        place,
    )[j])@ != list[place]@ by {
        let k = if j < place {
            j
        } else {
            j + 1
        };
        assert(keys[k] == list[k]@);
        assert(keys[place] == list[place]@);
        if k < place {
            assert(lex_lt(keys[k], keys[place]));
        } else {
            assert(lex_lt(keys[place], keys[k]));
        }
    }
}

/// A new access controller: owned by `owner`, with nobody listed.
pub fn initialize(owner: Pubkey) -> (r: AccessController)
    ensures
        r.wf(),
        r.owner == owner,
        r.proposed_owner@ == Pubkey::default_bytes(),
        r.access_list@ == Seq::<Pubkey>::empty(),
{
    AccessController { owner, proposed_owner: Pubkey::default(), access_list: ArrayVec::new() }
}

/// Proposes a new owner; only the owner may.
pub fn transfer_ownership(state: &mut AccessController, authority: &Pubkey, proposed_owner: Pubkey) -> (r:
    Result<(), ErrorCode>)
    ensures
        match r {
            Ok(_) => authority@ == old(state).owner@ && *final(state) == (AccessController {
                proposed_owner,
                ..*old(state)
            }),
            Err(e) => e == ErrorCode::Unauthorized && authority@ != old(state).owner@
                && *final(state) == *old(state),
        },
{
    if *authority != state.owner {
        return Err(ErrorCode::Unauthorized);
    }
    state.proposed_owner = proposed_owner;
    Ok(())
}

/// Makes the proposed owner the owner; only the proposed owner may.
pub fn accept_ownership(state: &mut AccessController, authority: &Pubkey) -> (r: Result<
    (),
    ErrorCode,
>)
    ensures
        match r {
            Ok(_) => {
                &&& authority@ == old(state).proposed_owner@
                &&& final(state).owner == old(state).proposed_owner
                &&& final(state).proposed_owner@ == Pubkey::default_bytes()
                &&& final(state).access_list == old(state).access_list
            },
            Err(e) => e == ErrorCode::Unauthorized && authority@ != old(state).proposed_owner@
                && *final(state) == *old(state),
        },
{
    if *authority != state.proposed_owner {
        return Err(ErrorCode::Unauthorized);
    }
    state.owner = state.proposed_owner;
    state.proposed_owner = Pubkey::default();
    Ok(())
}

/// Gives `address` access; only the owner may. `Full` where the list is at
/// its capacity, even if the address is on it.
pub fn add_access(state: &mut AccessController, authority: &Pubkey, address: Pubkey) -> (r: Result<
    (),
    ErrorCode,
>)
    requires
        old(state).wf(),
    ensures
        final(state).wf(),
        final(state).owner == old(state).owner,
        final(state).proposed_owner == old(state).proposed_owner,
        match r {
            Ok(_) => {
                &&& authority@ == old(state).owner@
                &&& old(state).access_list@.len() < MAX_ADDRS
                &&& listed(final(state).access_list@, address)
                &&& if listed(old(state).access_list@, address) {
                    final(state).access_list@ == old(state).access_list@
                } else {
                    exists|place: int|
                        0 <= place <= old(state).access_list@.len() && final(state).access_list@
                            == #[trigger] old(state).access_list@.insert(place, address)
                }
            },
            Err(e) => {
                &&& final(state).access_list@ == old(state).access_list@
                &&& if authority@ != old(state).owner@ {
                    e == ErrorCode::Unauthorized
                } else {
                    e == ErrorCode::Full && old(state).access_list@.len() == MAX_ADDRS
                }
            },
        },
{
    if *authority != state.owner {
        return Err(ErrorCode::Unauthorized);
    }
    // if the length reaches the capacity, the list is full
    if state.access_list.remaining_capacity() == 0 {
        return Err(ErrorCode::Full);
    }
    match search(state.access_list.as_slice(), &address) {
        Ok(i) => {
            // already present
            Ok(())
        },
        Err(i) => {
            proof {
                lemma_insert_keeps_order(state.access_list@, i as int, address);
                assert(state.access_list@.insert(i as int, address)[i as int] == address);
            }
            state.access_list.insert(i, address);
            Ok(())
        },
    }
}

/// Takes the access of `address` away, if it had any; only the owner may.
pub fn remove_access(state: &mut AccessController, authority: &Pubkey, address: Pubkey) -> (r:
    Result<(), ErrorCode>)
    requires
        old(state).wf(),
    ensures
        final(state).wf(),
        final(state).owner == old(state).owner,
        final(state).proposed_owner == old(state).proposed_owner,
        match r {
            Ok(_) => {
                &&& authority@ == old(state).owner@
                &&& !listed(final(state).access_list@, address)
                &&& if listed(old(state).access_list@, address) {
                    exists|place: int|
                        0 <= place < old(state).access_list@.len() && old(
                            state,
                        ).access_list@[place]@ == address@ && final(state).access_list@
                            == #[trigger] old(state).access_list@.remove(place)
                } else {
                    final(state).access_list@ == old(state).access_list@
                }
            },
            Err(e) => e == ErrorCode::Unauthorized && authority@ != old(state).owner@
                && final(state).access_list@ == old(state).access_list@,
        },
{
    if *authority != state.owner {
        return Err(ErrorCode::Unauthorized);
    }
    match search(state.access_list.as_slice(), &address) {
        Ok(index) => {
            proof {
                lemma_remove_keeps_order(state.access_list@, index as int);
                lemma_pubkey_ext(state.access_list@[index as int], address);
            }
            state.access_list.remove(index);
            // the list is still sorted
            Ok(())
        },
        Err(_) => Ok(()),
    }
}

/// Whether `address` is on the access list.
pub fn has_access(state: &AccessController, address: &Pubkey) -> (r: bool)
    requires
        state.wf(),
    ensures
        r == listed(state.access_list@, *address),
{
    search(state.access_list.as_slice(), address).is_ok()
}

} // verus!
