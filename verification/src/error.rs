//! The typed failures a ledger operation can produce, and the per-record
//! policy that decides which of them abort a run.

use vstd::prelude::*;

use crate::amount::Amount;
use crate::transaction::TransactionType;

verus! {

/// Failure of a single ledger operation.
#[derive(Clone, Copy, Debug)]
pub enum Error {
    /// A withdrawal asked for more than is available.
    NoFunds { client: u16, available: Amount, requested: Amount },
    /// A deposit or withdrawal record carried no amount.
    WithoutAmount,
    /// A dispute, resolve or chargeback record carried an amount.
    WithAmount,
    /// The account is locked and the operation is not permitted on it.
    ClientLocked,
    /// A dispute, resolve or chargeback referenced a `tx` id that is not in
    /// the account's history.
    TransactionNotFound(u32),
    /// A dispute, resolve or chargeback referenced a record that is neither
    /// a deposit nor a withdrawal.
    InvalidTxType(TransactionType),
    /// A resolve or chargeback referenced a transaction that is not under
    /// dispute.
    TxNotDisputed(u32),
    /// The exact result of the balance arithmetic would not be representable.
    AmountOutOfRange,
}

/// Which failures the stream processor swallows, continuing with the next
/// record; every other failure aborts the run.
pub open spec fn spec_recoverable(e: Error) -> bool {
    match e {
        Error::NoFunds { .. } => true,
        Error::TransactionNotFound(_) => true,
        Error::TxNotDisputed(_) => true,
        _ => false,
    }
}

/// The error of a fallible operation, if any.
pub open spec fn res_err(r: Result<(), Error>) -> Option<Error> {
    match r {
        Ok(_) => None,
        Err(e) => Some(e),
    }
}

impl Error {
    /// Whether processing may continue after this failure.
    pub fn is_recoverable(&self) -> (r: bool)
        ensures
            r == spec_recoverable(*self),
    {
        match self {
            Error::NoFunds { .. } => true,
            Error::TransactionNotFound(_) => true,
            Error::TxNotDisputed(_) => true,
            _ => false,
        }
    }
}

} // verus!
