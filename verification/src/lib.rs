//! On-chain verification core of an offchain-reporting price feed: report
//! decoding, signature quorum checks, billing accrual and the ring-buffer
//! ledger of committed rounds.

pub mod access;
pub mod aggregator;
pub mod arrayvec;
pub mod authority;
pub mod billing;
pub mod bytes;
pub mod checks;
pub mod config;
pub mod crypto;
pub mod deviation;
pub mod digest;
pub mod digest_laws;
pub mod directory;
pub mod error;
pub mod event;
pub mod feeds;
pub mod flux;
pub mod forwarder;
pub mod oracle_set;
pub mod payouts;
pub mod proposal;
pub mod pubkey;
pub mod report;
pub mod ring;
pub mod rotation;
pub mod signers;
pub mod state;
pub mod store;
pub mod store_laws;
pub mod transmit;
pub mod transmit_laws;
pub mod validator;
