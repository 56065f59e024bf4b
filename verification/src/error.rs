//! Why an operation was not carried out.

use std::string::FromUtf8Error;
use vstd::prelude::*;

verus! {

/// The reason an operation left its account untouched.
///
/// A rejection concerns one operation only: the account is as it was before,
/// and later operations are handled as usual.
#[derive(Clone, Copy, Debug, PartialEq, Eq, Structural)]
pub enum TransactionError {
    /// The account is locked and takes no further operations.
    AccountLocked,
    /// The account has no record of the transaction that was referred to.
    UnknownReferencedTransaction,
    /// The transaction that was referred to is not under dispute.
    TransactionNotDisputed,
    /// The transaction that was referred to is already under dispute.
    TransactionAlreadyDisputed,
    /// The available funds do not cover the withdrawal.
    InsufficientFunds,
}

impl TransactionError {
    /// What the error says, in words.
    pub open spec fn explanation(self) -> Seq<char> {
        match self {
            TransactionError::AccountLocked => "account is locked"@,
            TransactionError::UnknownReferencedTransaction => "no such transaction for the client"@,
            TransactionError::TransactionNotDisputed => "transaction is not being disputed"@,
            TransactionError::TransactionAlreadyDisputed => "transaction is already disputed"@,
            TransactionError::InsufficientFunds => "insufficient funds"@,
        }
    }

    /// What the error says, in words.
    pub fn message(&self) -> (text: &'static str)
        ensures
            text@ == self.explanation(),
    {
        match self {
            TransactionError::AccountLocked => "account is locked",
            TransactionError::UnknownReferencedTransaction => "no such transaction for the client",
            TransactionError::TransactionNotDisputed => "transaction is not being disputed",
            TransactionError::TransactionAlreadyDisputed => "transaction is already disputed",
            TransactionError::InsufficientFunds => "insufficient funds",
        }
    }
}

/// The reason delimited records could not be given as text.
///
/// The report of a store is always given: these errors are for records that
/// were made elsewhere.
#[derive(Clone, Copy, Debug, PartialEq, Eq, Structural)]
pub enum ReportError {
    /// A record could not be written.
    Csv,
    /// The records that were written are not UTF-8 text.
    Utf8,
}

impl vstd::std_specs::convert::FromSpecImpl<csv::Error> for ReportError {
    open spec fn obeys_from_spec() -> bool {
        true
    }

    open spec fn from_spec(error: csv::Error) -> ReportError {
        ReportError::Csv
    }
}

impl From<csv::Error> for ReportError {
    fn from(error: csv::Error) -> (reason: ReportError) {
        ReportError::Csv
    }
}

impl vstd::std_specs::convert::FromSpecImpl<FromUtf8Error> for ReportError {
    open spec fn obeys_from_spec() -> bool {
        true
    }

    open spec fn from_spec(error: FromUtf8Error) -> ReportError {
        ReportError::Utf8
    }
}

impl From<FromUtf8Error> for ReportError {
    fn from(error: FromUtf8Error) -> (reason: ReportError) {
        ReportError::Utf8
    }
}

} // verus!
