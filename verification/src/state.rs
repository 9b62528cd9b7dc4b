//! The aggregator's stored state: configuration, oracle set and staged proposals.

use vstd::prelude::*;
use crate::arrayvec::ArrayVec;
use crate::bytes::lex_lt;
use crate::pubkey::Pubkey;

verus! {

/// How many oracles a feed can have.
pub const MAX_ORACLES: usize = 19;

/// The length of a config digest.
pub const DIGEST_SIZE: usize = 32;

/// How many bytes of offchain configuration a feed can hold.
pub const MAX_OFFCHAIN_CONFIG: usize = 4096;

/// What the oracles are paid.
#[derive(Clone, Copy, Debug, PartialEq, Eq, Structural)]
pub struct Billing {
    pub observation_payment_gjuels: u32,
    pub transmission_payment_gjuels: u32,
}

/// The 20-byte address of the key with which an oracle signs reports.
#[derive(Clone, Copy, Debug)]
pub struct SigningKey {
    pub key: [u8; 20],
}

/// One oracle of the current set.
#[derive(Clone, Copy, Debug)]
pub struct Oracle {
    pub transmitter: Pubkey,
    /// secp256k1 signing key for submissions
    pub signer: SigningKey,
    /// Payee address to pay out rewards to
    pub payee: Pubkey,
    /// All-zero if none is proposed
    pub proposed_payee: Pubkey,
    /// Rewards are owed for the rounds after this one
    pub from_round_id: u32,
    /// Accrued reimbursements of transmissions
    pub payment_gjuels: u64,
}

/// What an oracle that left the set is still owed.
#[derive(Clone, Copy, Debug)]
pub struct LeftoverPayment {
    pub payee: Pubkey,
    pub amount: u64,
}

/// An oracle as given in a new configuration.
#[derive(Clone, Copy, Debug)]
pub struct NewOracle {
    pub signer: [u8; 20],
    pub transmitter: Pubkey,
}

/// An oracle of a staged proposal.
#[derive(Clone, Copy, Debug)]
pub struct ProposedOracle {
    pub transmitter: Pubkey,
    pub signer: SigningKey,
    pub payee: Pubkey,
}

pub type Oracles = ArrayVec<Oracle, 19>;

pub type ProposedOracles = ArrayVec<ProposedOracle, 19>;

pub type LeftoverPayments = ArrayVec<LeftoverPayment, 19>;

/// The versioned configuration blob of the offchain protocol.
#[derive(Debug)]
pub struct OffchainConfig {
    pub version: u64,
    pub bytes: ArrayVec<u8, 4096>,
}

/// The feed's configuration and counters.
#[derive(Clone, Copy, Debug)]
pub struct Config {
    pub owner: Pubkey,
    pub proposed_owner: Pubkey,
    /// LINK SPL token account.
    pub token_mint: Pubkey,
    /// LINK SPL token vault.
    pub token_vault: Pubkey,
    /// Access controller managing access to `request_new_round`.
    pub requester_access_controller: Pubkey,
    /// Access controller managing access to billing.
    pub billing_access_controller: Pubkey,
    pub min_answer: i128,
    pub max_answer: i128,
    pub f: u8,
    pub round: u8,
    pub epoch: u32,
    pub latest_aggregator_round_id: u32,
    pub latest_transmitter: Pubkey,
    pub config_count: u32,
    pub latest_config_digest: [u8; 32],
    pub latest_config_block_number: u64,
    pub billing: Billing,
    /// The validator to tell of every answer; all-zero if there is none.
    pub validator: Pubkey,
    /// The threshold of deviation that the validator is given.
    pub flagging_threshold: u32,
}

/// Everything the aggregator stores for one feed.
#[derive(Debug)]
pub struct State {
    pub version: u8,
    pub vault_nonce: u8,
    pub feed: Pubkey,
    pub config: Config,
    pub offchain_config: OffchainConfig,
    pub oracles: Oracles,
    pub leftover_payments: LeftoverPayments,
}

/// A staged configuration.
#[derive(Debug)]
pub struct Proposal {
    pub version: u8,
    pub owner: Pubkey,
    pub state: u8,
    pub f: u8,
    /// Set with the payees; has to be the aggregator's token mint.
    pub token_mint: Pubkey,
    pub oracles: ProposedOracles,
    pub offchain_config: OffchainConfig,
}

impl Proposal {
    /// The state of a proposal that can still be written.
    pub const NEW: u8 = 0;

    /// The state of a proposal that can only be accepted or closed.
    pub const FINALIZED: u8 = 1;
}

/// The signer keys of `oracles`, in order.
pub open spec fn signer_keys(oracles: Seq<Oracle>) -> Seq<Seq<u8>> {
    Seq::new(oracles.len(), |i: int| oracles[i].signer.key@)
}

/// The transmitter keys of `oracles`, in order.
pub open spec fn transmitter_keys(oracles: Seq<Oracle>) -> Seq<Seq<u8>> {
    Seq::new(oracles.len(), |i: int| oracles[i].transmitter@)
}

/// Each key is below the next one: the keys are in order and none occurs twice.
pub open spec fn strictly_ascending(keys: Seq<Seq<u8>>) -> bool {
    forall|i: int, j: int| 0 <= i < j < keys.len() ==> lex_lt(#[trigger] keys[i], #[trigger] keys[j])
}

/// No key occurs twice.
pub open spec fn pairwise_distinct(keys: Seq<Seq<u8>>) -> bool {
    forall|i: int, j: int| 0 <= i < j < keys.len() ==> #[trigger] keys[i] != #[trigger] keys[j]
}

/// Whether a set of `count` oracles tolerates `f` faulty ones: it holds more
/// than `3 * f` oracles, and `f` is not 0. An empty set tolerates none.
pub open spec fn tolerates(count: nat, f: u8) -> bool {
    count == 0 || (f != 0 && 3 * f < count)
}

/// An oracle set as every operation leaves it: sorted by signer key without
/// duplicates, and no transmitter twice.
pub open spec fn valid_oracle_set(oracles: Seq<Oracle>) -> bool {
    &&& oracles.len() <= MAX_ORACLES
    &&& strictly_ascending(signer_keys(oracles))
    &&& pairwise_distinct(transmitter_keys(oracles))
}

impl OffchainConfig {
    pub open spec fn wf(&self) -> bool {
        self.bytes.wf()
    }
}

impl State {
    /// The invariant of the stored state.
    pub open spec fn wf(&self) -> bool {
        &&& self.oracles.wf()
        &&& self.leftover_payments.wf()
        &&& self.offchain_config.wf()
        &&& valid_oracle_set(self.oracles@)
        &&& tolerates(self.oracles@.len(), self.config.f)
    }
}

} // verus!
