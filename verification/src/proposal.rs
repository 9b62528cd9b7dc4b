//! Changing the oracle set in two phases: a proposal is created, written,
//! finalized and then accepted into the configuration.

use vstd::prelude::*;
use crate::arrayvec::ArrayVec;
use crate::authority::proposal_owner;
use crate::config::TokenAccount;
use crate::error::ErrorCode;
use crate::oracle_set::{new_signer_keys, new_transmitter_keys, sort_oracles};
use crate::pubkey::Pubkey;
use crate::state::{
    pairwise_distinct, strictly_ascending, tolerates, NewOracle, OffchainConfig, Proposal, ProposedOracle,
    SigningKey, MAX_ORACLES,
};

verus! {

/// The signer keys of the proposed oracles, in order.
pub open spec fn proposed_signer_keys(oracles: Seq<ProposedOracle>) -> Seq<Seq<u8>> {
    Seq::new(oracles.len(), |i: int| oracles[i].signer.key@)
}

/// The transmitter keys of the proposed oracles, in order.
pub open spec fn proposed_transmitter_keys(oracles: Seq<ProposedOracle>) -> Seq<Seq<u8>> {
    Seq::new(oracles.len(), |i: int| oracles[i].transmitter@)
}

impl Proposal {
    /// The invariant of a proposal: what is staged is within the capacities,
    /// the staged oracles are sorted by signer key, with no signer and no
    /// transmitter twice, and there are more than `3 * f` of them.
    pub open spec fn wf(&self) -> bool {
        &&& self.oracles.wf()
        &&& self.offchain_config.wf()
        &&& strictly_ascending(proposed_signer_keys(self.oracles@))
        &&& pairwise_distinct(proposed_transmitter_keys(self.oracles@))
        &&& tolerates(self.oracles@.len(), self.f)
    }
}

/// Whether every staged oracle has a payee.
pub open spec fn payees_set(oracles: Seq<ProposedOracle>) -> bool {
    forall|i: int| 0 <= i < oracles.len() ==> (#[trigger] oracles[i]).payee@
        != Pubkey::default_bytes()
}

/// Whether `staged` is the oracle `given` without a payee.
pub open spec fn stages(staged: ProposedOracle, given: NewOracle) -> bool {
    &&& staged.signer.key@ == given.signer@
    &&& staged.transmitter == given.transmitter
    &&& staged.payee@ == Pubkey::default_bytes()
}

/// Creates a proposal owned by `authority`, for an offchain configuration
/// of the given version, which must not be 0.
pub fn create_proposal(authority: Pubkey, offchain_config_version: u64) -> (r: Result<
    Proposal,
    ErrorCode,
>)
    ensures
        match r {
            Ok(proposal) => {
                &&& offchain_config_version != 0
                &&& proposal.wf()
                &&& proposal.version == 1
                &&& proposal.owner == authority
                &&& proposal.state == Proposal::NEW
                &&& proposal.f == 0
                &&& proposal.token_mint@ == Pubkey::default_bytes()
                &&& proposal.oracles@ == Seq::<ProposedOracle>::empty()
                &&& proposal.offchain_config.version == offchain_config_version
                &&& proposal.offchain_config.bytes@ == Seq::<u8>::empty()
            },
            Err(e) => e == ErrorCode::InvalidInput && offchain_config_version == 0,
        },
{
    if offchain_config_version == 0 {
        return Err(ErrorCode::InvalidInput);
    }
    let proposal = Proposal {
        version: 1,
        owner: authority,
        state: Proposal::NEW,
        f: 0,
        token_mint: Pubkey::default(),
        oracles: ArrayVec::new(),
        offchain_config: OffchainConfig { version: offchain_config_version, bytes: ArrayVec::new() },
    };
    proof {
        assert(proposed_signer_keys(proposal.oracles@) =~= Seq::<Seq<u8>>::empty());
        assert(proposed_transmitter_keys(proposal.oracles@) =~= Seq::<Seq<u8>>::empty());
    }
    Ok(proposal)
}

/// Why bytes for the offchain configuration are refused; `None` where they
/// are not. What is written has to leave room for one byte more.
pub open spec fn write_offchain_config_error(
    proposal: Proposal,
    authority: Pubkey,
    offchain_config: Seq<u8>,
) -> Option<ErrorCode> {
    if authority@ != proposal.owner@ {
        Some(ErrorCode::Unauthorized)
    } else if proposal.state == Proposal::FINALIZED {
        Some(ErrorCode::InvalidInput)
    } else if offchain_config.len() >= 4096 - proposal.offchain_config.bytes@.len() {
        Some(ErrorCode::InvalidInput)
    } else {
        None
    }
}

/// Appends bytes to the staged offchain configuration.
pub fn write_offchain_config(proposal: &mut Proposal, authority: &Pubkey, offchain_config: &[u8]) -> (r:
    Result<(), ErrorCode>)
    requires
        old(proposal).wf(),
    ensures
        final(proposal).wf(),
        match r {
            Ok(_) => {
                &&& write_offchain_config_error(*old(proposal), *authority, offchain_config@)
                    is None
                &&& final(proposal).offchain_config.bytes@ == old(proposal).offchain_config.bytes@
                    + offchain_config@
                &&& final(proposal).offchain_config.version == old(
                    proposal,
                ).offchain_config.version
                &&& final(proposal).version == old(proposal).version
                &&& final(proposal).owner == old(proposal).owner
                &&& final(proposal).state == old(proposal).state
                &&& final(proposal).f == old(proposal).f
                &&& final(proposal).token_mint == old(proposal).token_mint
                &&& final(proposal).oracles == old(proposal).oracles
            },
            Err(e) => write_offchain_config_error(*old(proposal), *authority, offchain_config@)
                == Some(e) && *final(proposal) == *old(proposal),
        },
{
    match proposal_owner(proposal, authority) {
        Ok(_) => {},
        Err(e) => {
            return Err(e);
        },
    }
    if proposal.state == Proposal::FINALIZED {
        return Err(ErrorCode::InvalidInput);
    }
    if offchain_config.len() >= proposal.offchain_config.bytes.remaining_capacity() {
        return Err(ErrorCode::InvalidInput);
    }
    proposal.offchain_config.bytes.extend(offchain_config);
    Ok(())
}

/// Why a proposal cannot be finalized; `None` where it can.
pub open spec fn finalize_proposal_error(proposal: Proposal, authority: Pubkey) -> Option<
    ErrorCode,
> {
    if authority@ != proposal.owner@ {
        Some(ErrorCode::Unauthorized)
    } else if proposal.state == Proposal::FINALIZED || proposal.offchain_config.version == 0
        || proposal.offchain_config.bytes@.len() == 0 || proposal.oracles@.len() == 0
        || !payees_set(proposal.oracles@) {
        Some(ErrorCode::InvalidInput)
    } else {
        None
    }
}

/// Whether every staged oracle has a payee.
pub fn all_payees_set(oracles: &[ProposedOracle]) -> (r: bool)
    ensures
        r == payees_set(oracles@),
{
    let mut i: usize = 0;
    while i < oracles.len()
        invariant
            0 <= i <= oracles@.len(),
            forall|j: int| 0 <= j < i ==> (#[trigger] oracles@[j]).payee@
                != Pubkey::default_bytes(),
        decreases oracles@.len() - i,
    {
        if oracles[i].payee.is_default() {
            return false;
        }
        i += 1;
    }
    true
}

/// Closes a proposal to writing. It must hold an offchain configuration,
/// oracles, and a payee for each of them.
pub fn finalize_proposal(proposal: &mut Proposal, authority: &Pubkey) -> (r: Result<(), ErrorCode>)
    requires
        old(proposal).wf(),
    ensures
        final(proposal).wf(),
        match r {
            Ok(_) => finalize_proposal_error(*old(proposal), *authority) is None && *final(proposal) == (Proposal { state: Proposal::FINALIZED, ..*old(proposal) }),
            Err(e) => finalize_proposal_error(*old(proposal), *authority) == Some(e) && *final(proposal) == *old(proposal),
        },
{
    match proposal_owner(proposal, authority) {
        Ok(_) => {},
        Err(e) => {
            return Err(e);
        },
    }
    if proposal.state == Proposal::FINALIZED {
        return Err(ErrorCode::InvalidInput);
    }
    // some offchain configuration has to be written
    if proposal.offchain_config.version == 0 {
        return Err(ErrorCode::InvalidInput);
    }
    if proposal.offchain_config.bytes.is_empty() {
        return Err(ErrorCode::InvalidInput);
    }
    // the oracles have to be proposed
    if proposal.oracles.is_empty() {
        return Err(ErrorCode::InvalidInput);
    }
    // the payees have to be proposed
    if !all_payees_set(proposal.oracles.as_slice()) {
        return Err(ErrorCode::InvalidInput);
    }
    proposal.state = Proposal::FINALIZED;
    Ok(())
}

/// Whether `authority` may close the proposal: only its owner may.
pub fn close_proposal(proposal: &Proposal, authority: &Pubkey) -> (r: Result<(), ErrorCode>)
    ensures
        match r {
            Ok(_) => authority@ == proposal.owner@,
            Err(e) => e == ErrorCode::Unauthorized && authority@ != proposal.owner@,
        },
{
    proposal_owner(proposal, authority)
}

/// Why a new oracle set with `f` is refused, apart from duplicates; `None`
/// where it is not.
pub open spec fn oracle_count_error(count: nat, f: u8) -> Option<ErrorCode> {
    if f == 0 {
        Some(ErrorCode::InvalidInput)
    } else if count > MAX_ORACLES {
        Some(ErrorCode::TooManyOracles)
    } else if 3 * f >= count {
        Some(ErrorCode::InvalidInput)
    } else {
        None
    }
}

/// Checks the size of a new oracle set against `f`.
pub fn check_oracle_count(count: usize, f: u8) -> (r: Result<(), ErrorCode>)
    ensures
        match r {
            Ok(_) => oracle_count_error(count as nat, f) is None,
            Err(e) => oracle_count_error(count as nat, f) == Some(e),
        },
{
    if f == 0 {
        return Err(ErrorCode::InvalidInput);
    }
    if count > MAX_ORACLES {
        return Err(ErrorCode::TooManyOracles);
    }
    if 3 * (f as usize) >= count {
        return Err(ErrorCode::InvalidInput);
    }
    Ok(())
}

/// Why a proposed oracle set is refused; `None` where it is not.
pub open spec fn propose_config_error(
    proposal: Proposal,
    authority: Pubkey,
    new_oracles: Seq<NewOracle>,
    f: u8,
) -> Option<ErrorCode> {
    if authority@ != proposal.owner@ {
        Some(ErrorCode::Unauthorized)
    } else if oracle_count_error(new_oracles.len(), f) is Some {
        oracle_count_error(new_oracles.len(), f)
    } else if proposal.state == Proposal::FINALIZED {
        Some(ErrorCode::InvalidInput)
    } else if proposal.offchain_config.version == 0 {
        Some(ErrorCode::InvalidInput)
    } else if !pairwise_distinct(new_signer_keys(new_oracles)) {
        Some(ErrorCode::DuplicateSigner)
    } else if !pairwise_distinct(new_transmitter_keys(new_oracles)) {
        Some(ErrorCode::DuplicateTransmitter)
    } else {
        None
    }
}

/// Whether `staged` holds the oracles `sorted`, in their order, without payees.
pub open spec fn stages_all(staged: Seq<ProposedOracle>, sorted: Seq<NewOracle>) -> bool {
    &&& staged.len() == sorted.len()
    &&& forall|i: int| 0 <= i < staged.len() ==> stages(#[trigger] staged[i], sorted[i])
}

/// Stages a new oracle set with the fault tolerance `f`. The set must hold
/// more than `3 * f` and at most 19 oracles, and no signer and no
/// transmitter twice. It is staged sorted by signer key, without payees.
pub fn propose_config(proposal: &mut Proposal, authority: &Pubkey, new_oracles: &[NewOracle], f: u8) -> (r:
    Result<(), ErrorCode>)
    requires
        old(proposal).wf(),
    ensures
        final(proposal).wf(),
        match r {
            Ok(_) => {
                &&& propose_config_error(*old(proposal), *authority, new_oracles@, f) is None
                &&& exists|sorted: Seq<NewOracle>|
                    sorted.to_multiset() == new_oracles@.to_multiset() && #[trigger] stages_all(
                        final(proposal).oracles@,
                        sorted,
                    )
                &&& final(proposal).f == f
                &&& final(proposal).version == old(proposal).version
                &&& final(proposal).owner == old(proposal).owner
                &&& final(proposal).state == old(proposal).state
                &&& final(proposal).token_mint == old(proposal).token_mint
                &&& final(proposal).offchain_config == old(proposal).offchain_config
            },
            Err(e) => propose_config_error(*old(proposal), *authority, new_oracles@, f) == Some(e)
                && *final(proposal) == *old(proposal),
        },
{
    match proposal_owner(proposal, authority) {
        Ok(_) => {},
        Err(e) => {
            return Err(e);
        },
    }
    match check_oracle_count(new_oracles.len(), f) {
        Ok(_) => {},
        Err(e) => {
            return Err(e);
        },
    }
    if proposal.state == Proposal::FINALIZED {
        return Err(ErrorCode::InvalidInput);
    }
    // the proposal has to be created first
    if proposal.offchain_config.version == 0 {
        return Err(ErrorCode::InvalidInput);
    }
    // sorted, so that binary search can find a signer
    let sorted = match sort_oracles(new_oracles) {
        Ok(sorted) => sorted,
        Err(e) => {
            return Err(e);
        },
    };

    // clear out the old oracles and stage the new ones
    proposal.oracles.clear();
    let mut i: usize = 0;
    while i < sorted.len()
        invariant
            0 <= i <= sorted@.len() <= MAX_ORACLES,
            proposal.oracles.wf(),
            proposal.oracles@.len() == i,
            forall|j: int| 0 <= j < i ==> stages(#[trigger] proposal.oracles@[j], sorted@[j]),
            proposal.version == old(proposal).version,
            proposal.owner == old(proposal).owner,
            proposal.state == old(proposal).state,
            proposal.f == old(proposal).f,
            proposal.token_mint == old(proposal).token_mint,
            proposal.offchain_config == old(proposal).offchain_config,
        decreases sorted@.len() - i,
    {
        let oracle = sorted[i];
        proposal.oracles.push(
            ProposedOracle {
                signer: SigningKey { key: oracle.signer },
                transmitter: oracle.transmitter,
                payee: Pubkey::default(),
            },
        );
        i += 1;
    }
    proof {
        assert(stages_all(proposal.oracles@, sorted@));
        assert(proposed_signer_keys(proposal.oracles@) =~= new_signer_keys(sorted@));
        assert(proposed_transmitter_keys(proposal.oracles@) =~= new_transmitter_keys(sorted@));
    }
    proposal.f = f;
    Ok(())
}

/// Why proposed payees are refused; `None` where they are not.
pub open spec fn propose_payees_error(
    proposal: Proposal,
    authority: Pubkey,
    token_mint: Pubkey,
    payees: Seq<TokenAccount>,
) -> Option<ErrorCode> {
    if authority@ != proposal.owner@ {
        Some(ErrorCode::Unauthorized)
    } else if proposal.state == Proposal::FINALIZED {
        Some(ErrorCode::InvalidInput)
    } else if proposal.oracles@.len() != payees.len() {
        Some(ErrorCode::PayeeOracleMismatch)
    } else if exists|i: int| 0 <= i < payees.len() && (#[trigger] payees[i]).mint@ != token_mint@ {
        Some(ErrorCode::InvalidTokenAccount)
    } else {
        None
    }
}

/// `oracle` with the payee `payee`.
pub open spec fn with_payee(oracle: ProposedOracle, payee: Pubkey) -> ProposedOracle {
    ProposedOracle { payee, ..oracle }
}

/// Stages a payee for each staged oracle, in their order: token accounts of
/// the token `token_mint`.
pub fn propose_payees(
    proposal: &mut Proposal,
    authority: &Pubkey,
    token_mint: Pubkey,
    payees: &[TokenAccount],
) -> (r: Result<(), ErrorCode>)
    requires
        old(proposal).wf(),
    ensures
        final(proposal).wf(),
        match r {
            Ok(_) => {
                &&& propose_payees_error(*old(proposal), *authority, token_mint, payees@) is None
                &&& final(proposal).oracles@ == Seq::new(
                    payees@.len(),
                    |i: int| with_payee(old(proposal).oracles@[i], payees@[i].key),
                )
                &&& final(proposal).token_mint == token_mint
                &&& final(proposal).version == old(proposal).version
                &&& final(proposal).owner == old(proposal).owner
                &&& final(proposal).state == old(proposal).state
                &&& final(proposal).f == old(proposal).f
                &&& final(proposal).offchain_config == old(proposal).offchain_config
            },
            Err(e) => propose_payees_error(*old(proposal), *authority, token_mint, payees@)
                == Some(e) && *final(proposal) == *old(proposal),
        },
{
    match proposal_owner(proposal, authority) {
        Ok(_) => {},
        Err(e) => {
            return Err(e);
        },
    }
    if proposal.state == Proposal::FINALIZED {
        return Err(ErrorCode::InvalidInput);
    }
    // a payee for each oracle
    let count = proposal.oracles.len();
    if count != payees.len() {
        return Err(ErrorCode::PayeeOracleMismatch);
    }
    // the accounts have to be of the token given
    let mut k: usize = 0;
    while k < count
        invariant
            0 <= k <= count == payees@.len(),
            *proposal == *old(proposal),
            proposal.wf(),
            authority@ == proposal.owner@,
            proposal.state != Proposal::FINALIZED,
            proposal.oracles@.len() == count,
            forall|j: int| 0 <= j < k ==> (#[trigger] payees@[j]).mint@ == token_mint@,
        decreases count - k,
    {
        if payees[k].mint != token_mint {
            return Err(ErrorCode::InvalidTokenAccount);
        }
        k += 1;
    }
    let ghost before = proposal.oracles@;
    let mut i: usize = 0;
    while i < count
        invariant
            0 <= i <= count == payees@.len(),
            before == old(proposal).oracles@,
            before.len() == count,
            proposal.oracles@.len() == count,
            proposal.oracles.wf(),
            forall|j: int| 0 <= j < i ==> proposal.oracles@[j] == with_payee(before[j], payees@[j].key),
            forall|j: int| i <= j < count ==> proposal.oracles@[j] == before[j],
            proposal.version == old(proposal).version,
            proposal.owner == old(proposal).owner,
            proposal.state == old(proposal).state,
            proposal.f == old(proposal).f,
            proposal.token_mint == old(proposal).token_mint,
            proposal.offchain_config == old(proposal).offchain_config,
        decreases count - i,
    {
        let mut oracle = proposal.oracles.get(i);
        oracle.payee = payees[i].key;
        proposal.oracles.set(i, oracle);
        i += 1;
    }
    proof {
        let after = Seq::new(payees@.len(), |i: int| with_payee(before[i], payees@[i].key));
        assert(proposal.oracles@ =~= after);
        assert(proposed_signer_keys(after) =~= proposed_signer_keys(before));
        assert(proposed_transmitter_keys(after) =~= proposed_transmitter_keys(before));
    }
    proposal.token_mint = token_mint;
    Ok(())
}

} // verus!
