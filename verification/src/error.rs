//! The execution errors a transaction can end with. They are expected,
//! recoverable outcomes at the ledger level: the result is recorded
//! against the transaction's hash and the block goes on.

use vstd::prelude::*;

verus! {

/// An execution error of one transaction.
#[derive(Debug, PartialEq, Eq, Structural, Clone, Copy)]
pub enum Error {
    /// The paying wallet cannot cover the amount owed.
    InsufficientFunds,
    /// An asset named by the transaction has no registry record.
    AssetNotFound,
    /// A wallet or a registry record holds less of an asset than asked.
    InsufficientAssetAmount,
    /// The transaction's payload is not valid for its kind.
    InvalidTransaction,
}

impl Error {
    /// A short description of the error.
    pub fn describe(&self) -> (r: &'static str)
        ensures
            true,
    {
        match self {
            Error::InsufficientFunds => "insufficient funds",
            Error::AssetNotFound => "asset not found",
            Error::InsufficientAssetAmount => "insufficient asset amount",
            Error::InvalidTransaction => "invalid transaction",
        }
    }
}

} // verus!
