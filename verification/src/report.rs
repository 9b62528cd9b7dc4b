//! The wire format of a transmission: one nonce byte, the report context,
//! the report, and the signature units.

use vstd::prelude::*;
use vstd::slice::slice_subrange;
use crate::bytes::{array32, be_i128, be_u32, be_u64, be_value, i128_of};
use crate::error::ErrorCode;
use crate::state::MAX_ORACLES;

verus! {

/// The length of the report context.
pub const CONTEXT_LEN: usize = 96;

/// The length of the report itself.
pub const REPORT_LEN: usize = 61;

/// The length of the context and the report together.
pub const RAW_REPORT_LEN: usize = 157;

/// The length of one signature unit: 64 bytes of signature and the recovery id.
pub const SIGNATURE_LEN: usize = 65;

/// What binds a report to a configuration and orders it among the reports.
#[derive(Clone, Copy, Debug)]
pub struct ReportContext {
    pub config_digest: [u8; 32],
    pub epoch: u32,
    pub round: u8,
}

/// The observation that the oracles agreed on.
#[derive(Clone, Copy, Debug)]
pub struct Report {
    pub median: i128,
    pub observer_count: u8,
    /// The indices of the observing oracles.
    pub observers: [u8; 19],
    pub observations_timestamp: u32,
    pub juels_per_lamport: u64,
}

impl ReportContext {
    pub const LEN: usize = 96;

    /// The context that `raw` spells: 32 bytes of digest, 27 reserved, the
    /// epoch in 4 bytes, the round in 1, and 32 bytes that are not read.
    pub open spec fn decodes(self, raw: Seq<u8>) -> bool {
        &&& raw.len() == 96
        &&& self.config_digest@ == raw.subrange(0, 32)
        &&& self.epoch == be_value(raw.subrange(59, 63))
        &&& self.round == raw[63]
    }

    /// Reads a report context; `InvalidInput` unless `raw` has 96 bytes.
    pub fn unpack(raw: &[u8]) -> (r: Result<ReportContext, ErrorCode>)
        ensures
            match r {
                Ok(context) => context.decodes(raw@),
                Err(e) => e == ErrorCode::InvalidInput && raw@.len() != 96,
            },
    {
        if raw.len() != CONTEXT_LEN {
            return Err(ErrorCode::InvalidInput);
        }
        let config_digest = array32(raw, 0);
        let epoch = be_u32(slice_subrange(raw, 59, 63));
        let round = raw[63];
        Ok(ReportContext { config_digest, epoch, round })
    }
}

impl Report {
    pub const LEN: usize = 61;

    /// The report that `raw` spells, all integers big-endian: the timestamp
    /// in 4 bytes, the observer count in 1, 32 bytes of observer indices of
    /// which the first 19 are kept, the median in 16 and the exchange rate in 8.
    pub open spec fn decodes(self, raw: Seq<u8>) -> bool {
        &&& raw.len() == 61
        &&& self.observations_timestamp == be_value(raw.subrange(0, 4))
        &&& self.observer_count == raw[4]
        &&& self.observers@ == raw.subrange(5, 24)
        &&& self.median == i128_of(be_value(raw.subrange(37, 53)))
        &&& self.juels_per_lamport == be_value(raw.subrange(53, 61))
    }

    /// Reads a report; `InvalidInput` unless `raw` has 61 bytes.
    pub fn unpack(raw_report: &[u8]) -> (r: Result<Report, ErrorCode>)
        ensures
            match r {
                Ok(report) => report.decodes(raw_report@),
                Err(e) => e == ErrorCode::InvalidInput && raw_report@.len() != 61,
            },
    {
        if raw_report.len() != REPORT_LEN {
            return Err(ErrorCode::InvalidInput);
        }
        let observations_timestamp = be_u32(slice_subrange(raw_report, 0, 4));
        let observer_count = raw_report[4];
        let mut observers = [0u8; 19];
        let mut i: usize = 0;
        while i < MAX_ORACLES
            invariant
                0 <= i <= 19,
                raw_report@.len() == 61,
                forall|j: int| 0 <= j < i ==> observers@[j] == raw_report@[5 + j],
            decreases 19 - i,
        {
            observers[i] = raw_report[5 + i];
            i += 1;
        }
        proof {
            assert(observers@ =~= raw_report@.subrange(5, 24));
        }
        let median = be_i128(slice_subrange(raw_report, 37, 53));
        let juels_per_lamport = be_u64(slice_subrange(raw_report, 53, 61));
        Ok(Report { median, observer_count, observers, observations_timestamp, juels_per_lamport })
    }
}

} // verus!
