//! What the aggregator announces when its state changes.

use vstd::prelude::*;
use crate::pubkey::Pubkey;

verus! {

/// A new configuration took effect.
#[derive(Clone, Debug)]
pub struct SetConfig {
    pub config_digest: [u8; 32],
    pub f: u8,
    pub signers: Vec<[u8; 20]>,
}

/// The billing rates changed.
#[derive(Clone, Copy, Debug, PartialEq, Eq, Structural)]
pub struct SetBilling {
    pub observation_payment_gjuels: u32,
    pub transmission_payment_gjuels: u32,
}

/// Somebody asked for a new round.
#[derive(Clone, Copy, Debug)]
pub struct RoundRequested {
    pub config_digest: [u8; 32],
    pub requester: Pubkey,
    pub epoch: u32,
    pub round: u8,
}

/// A report was accepted.
#[derive(Clone, Copy, Debug)]
pub struct NewTransmission {
    pub round_id: u32,
    pub config_digest: [u8; 32],
    pub answer: i128,
    /// The place of the transmitting oracle in the oracle set.
    pub transmitter: u8,
    pub observations_timestamp: u32,
    pub observer_count: u8,
    pub observers: [u8; 19],
    pub juels_per_lamport: u64,
    pub reimbursement_gjuels: u64,
}

} // verus!
