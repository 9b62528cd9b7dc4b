//! The typed failures of the feed's operations.

use vstd::prelude::*;

verus! {

/// Why an operation was refused. A refused operation changes nothing.
#[derive(Clone, Copy, Debug, PartialEq, Eq, Structural)]
pub enum ErrorCode {
    /// The caller may not do this.
    Unauthorized,
    /// The input is malformed or out of place.
    InvalidInput,
    /// An oracle set holds more oracles than a feed can have.
    TooManyOracles,
    /// The report does not come after the last one.
    StaleReport,
    /// The digest is not the one of the configuration or proposal.
    DigestMismatch,
    /// The report does not carry exactly a quorum of signatures.
    WrongNumberOfSignatures,
    /// A number does not fit.
    Overflow,
    /// The median is outside the answer bounds.
    MedianOutOfRange,
    /// An oracle signs twice.
    DuplicateSigner,
    /// Two oracles transmit with the same key.
    DuplicateTransmitter,
    /// An oracle has a payee already.
    PayeeAlreadySet,
    /// An earlier oracle set is still owed something.
    PaymentsRemaining,
    /// There is not one payee for each oracle.
    PayeeOracleMismatch,
    /// A token account holds another token.
    InvalidTokenAccount,
    /// A report is signed by somebody who is no oracle.
    UnauthorizedSigner,
    /// The feed does not hold the round.
    NotFound,
    /// The feed is of a version that is not read.
    InvalidVersion,
    /// The account of a feed has not the size of a header and whole rounds.
    InsufficientSize,
    /// A list is at its capacity.
    Full,
}

impl ErrorCode {
    /// The refusal in words.
    pub fn message(&self) -> (r: &'static str)
        ensures
            r@ == match *self {
                ErrorCode::Unauthorized => "Unauthorized"@,
                ErrorCode::InvalidInput => "Invalid input"@,
                ErrorCode::TooManyOracles => "Too many oracles"@,
                ErrorCode::StaleReport => "Stale report"@,
                ErrorCode::DigestMismatch => "Digest mismatch"@,
                ErrorCode::WrongNumberOfSignatures => "Wrong number of signatures"@,
                ErrorCode::Overflow => "Overflow"@,
                ErrorCode::MedianOutOfRange => "Median out of range"@,
                ErrorCode::DuplicateSigner => "Duplicate signer"@,
                ErrorCode::DuplicateTransmitter => "Duplicate transmitter"@,
                ErrorCode::PayeeAlreadySet => "Payee already set"@,
                ErrorCode::PaymentsRemaining => "Leftover payments remaining, please call payRemaining first"@,
                ErrorCode::PayeeOracleMismatch => "Payee and Oracle length mismatch"@,
                ErrorCode::InvalidTokenAccount => "Invalid Token Account"@,
                ErrorCode::UnauthorizedSigner => "Oracle signer key not found"@,
                ErrorCode::NotFound => "Not found"@,
                ErrorCode::InvalidVersion => "Invalid version"@,
                ErrorCode::InsufficientSize => "Insufficient or invalid feed account size"@,
                ErrorCode::Full => "List is full"@,
            },
    {
        match self {
            ErrorCode::Unauthorized => "Unauthorized",
            ErrorCode::InvalidInput => "Invalid input",
            ErrorCode::TooManyOracles => "Too many oracles",
            ErrorCode::StaleReport => "Stale report",
            ErrorCode::DigestMismatch => "Digest mismatch",
            ErrorCode::WrongNumberOfSignatures => "Wrong number of signatures",
            ErrorCode::Overflow => "Overflow",
            ErrorCode::MedianOutOfRange => "Median out of range",
            ErrorCode::DuplicateSigner => "Duplicate signer",
            ErrorCode::DuplicateTransmitter => "Duplicate transmitter",
            ErrorCode::PayeeAlreadySet => "Payee already set",
            ErrorCode::PaymentsRemaining => "Leftover payments remaining, please call payRemaining first",
            ErrorCode::PayeeOracleMismatch => "Payee and Oracle length mismatch",
            ErrorCode::InvalidTokenAccount => "Invalid Token Account",
            ErrorCode::UnauthorizedSigner => "Oracle signer key not found",
            ErrorCode::NotFound => "Not found",
            ErrorCode::InvalidVersion => "Invalid version",
            ErrorCode::InsufficientSize => "Insufficient or invalid feed account size",
            ErrorCode::Full => "List is full",
        }
    }
}

} // verus!
