use crate::model::client::ClientId;
use crate::model::trade::TransactionId;
use vstd::prelude::*;

verus! {

/// Why a transaction, or the engine, failed.
#[derive(Debug, PartialEq, Eq)]
pub enum EngineError {
    /// A dispute, resolve or chargeback names an id absent from the table it reads.
    TransactionNotFound(TransactionId),
    /// A mutating operation reached a locked account.
    FrozenAccount(ClientId),
    /// The amount has more than four fractional digits.
    InvalidPrecision(TransactionId),
    /// The amount of a deposit or withdrawal is zero or negative.
    NegativeAmount(TransactionId),
    /// The available or held funds are below the amount asked for.
    InsufficientFunds(TransactionId),
    /// A deposit would carry the balance past the largest representable amount.
    AmountOverflow(TransactionId),
    /// A deposit or withdrawal record came without an amount.
    MissingAmount(),
    /// A record of the input could not be read.
    Csv(String),
    /// The input file could not be opened.
    FileNotFound(String),
    /// No input file was named.
    InputNotProvided(),
    /// A shard worker stopped or could not be reached.
    InternalError(),
}

pub type EngineResult<T> = Result<T, EngineError>;

} // verus!
