//! The forwarder: it takes a signed report and hands it on to a receiver.

use vstd::prelude::*;
use vstd::slice::slice_subrange;
use crate::crypto::{sha256, sha256_digest};
use crate::error::ErrorCode;
use crate::pubkey::Pubkey;

verus! {

/// The version of the forwarder's state.
pub const STATE_VERSION: u8 = 1;

/// The length of what precedes the payload of a report: the ids of the
/// workflow and of its execution.
pub const OFFSET: usize = 64;

/// The length of one signature unit.
pub const SIGNATURE_LEN: usize = 65;

/// The forwarder's state.
#[derive(Clone, Copy, Debug)]
pub struct State {
    pub version: u8,
    pub authority_nonce: u8,
    pub owner: Pubkey,
}

/// A report taken apart.
#[derive(Clone, Copy, Debug)]
pub struct Report<'a> {
    /// The signature units, one behind the other.
    pub raw_signatures: &'a [u8],
    /// What is handed on to the receiver: the ids and the payload.
    pub raw_report: &'a [u8],
    /// The ids of the workflow and of its execution.
    pub meta: &'a [u8],
    /// The hash that was signed.
    pub hash: [u8; 32],
}

/// How many bytes of signatures the first byte of `data` announces.
pub open spec fn announced(data: Seq<u8>) -> int {
    32 * data[0]
}

/// Whether `data` holds what its first byte announces, and the ids behind it.
pub open spec fn holds_report(data: Seq<u8>) -> bool {
    1 + announced(data) + OFFSET <= data.len()
}

/// Why a report is refused; `None` where it is not: it is too short, it
/// does not hold what its first byte announces, or its signatures are not
/// whole units.
pub open spec fn report_error(data: Seq<u8>) -> Option<ErrorCode> {
    if data.len() <= 1 + OFFSET || !holds_report(data) || announced(data) % (SIGNATURE_LEN as int)
        != 0 {
        Some(ErrorCode::InvalidInput)
    } else {
        None
    }
}

/// The state of a new forwarder, owned by `owner`, whose authority has the
/// bump `authority_nonce`.
pub fn initialize(owner: Pubkey, authority_nonce: u8) -> (state: State)
    ensures
        state.version == STATE_VERSION,
        state.authority_nonce == authority_nonce,
        state.owner == owner,
{
    State { version: STATE_VERSION, authority_nonce, owner }
}

/// Takes a report apart: one byte that announces the signatures, the
/// signatures, the ids, the payload. The signatures have to be whole units.
pub fn report<'a>(data: &'a [u8]) -> (r: Result<Report<'a>, ErrorCode>)
    ensures
        match r {
            Ok(report) => {
                &&& report_error(data@) is None
                &&& report.raw_signatures@ == data@.subrange(1, 1 + announced(data@))
                &&& report.raw_report@ == data@.subrange(
                    1 + announced(data@),
                    data@.len() as int,
                )
                &&& report.meta@ == report.raw_report@.take(OFFSET as int)
                &&& report.hash@ == sha256_digest(report.raw_report@)
            },
            Err(e) => report_error(data@) == Some(e),
        },
{
    if data.len() <= 1 + OFFSET {
        return Err(ErrorCode::InvalidInput);
    }
    let len = data[0] as usize;
    // the signatures and the ids have to be there
    if 1 + 32 * len + OFFSET > data.len() {
        return Err(ErrorCode::InvalidInput);
    }
    let raw_signatures = slice_subrange(data, 1, 1 + 32 * len);
    let raw_report = slice_subrange(data, 1 + 32 * len, data.len());
    let meta = slice_subrange(raw_report, 0, OFFSET);
    // the signatures have to be whole units
    if raw_signatures.len() % SIGNATURE_LEN != 0 {
        return Err(ErrorCode::InvalidInput);
    }
    let hash = sha256(raw_report);
    Ok(Report { raw_signatures, raw_report, meta, hash })
}

} // verus!
