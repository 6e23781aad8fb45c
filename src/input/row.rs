use crate::errors::{EngineError, EngineResult};
use crate::model::amount::Amount;
use crate::model::client::ClientId;
use crate::model::trade::{Transaction, TransactionId};
use vstd::prelude::*;

verus! {

/// The kind named in the `type` column of an input record.
#[derive(Clone, Copy, Debug, PartialEq, Eq, Hash, Structural)]
pub enum TransactionType {
    Deposit,
    Withdrawal,
    Dispute,
    Resolve,
    Chargeback,
}

/// One input record: a kind, a client, a transaction id and an optional amount.
#[derive(Clone, Copy, Debug, PartialEq, Eq, Structural)]
pub struct TransactionRow {
    pub kind: TransactionType,
    pub client: ClientId,
    pub tx: TransactionId,
    pub amount: Option<Amount>,
}

/// The transaction a record describes: deposits and withdrawals need an
/// amount; the other kinds ignore it.
pub open spec fn row_transaction(row: TransactionRow) -> EngineResult<Transaction> {
    match row.kind {
        TransactionType::Deposit => match row.amount {
            Some(amount) => Ok(Transaction::Deposit { client: row.client, trade: row.tx, amount }),
            None => Err(EngineError::MissingAmount()),
        },
        TransactionType::Withdrawal => match row.amount {
            Some(amount) => Ok(
                Transaction::Withdrawal { client: row.client, trade: row.tx, amount },
            ),
            None => Err(EngineError::MissingAmount()),
        },
        TransactionType::Dispute => Ok(Transaction::Dispute { client: row.client, trade: row.tx }),
        TransactionType::Resolve => Ok(Transaction::Resolve { client: row.client, trade: row.tx }),
        TransactionType::Chargeback => Ok(
            Transaction::Chargeback { client: row.client, trade: row.tx },
        ),
    }
}

impl TransactionRow {
    fn get_amount(&self) -> (r: EngineResult<Amount>)
        ensures
            r == (match self.amount {
                Some(a) => Ok(a),
                None => Err(EngineError::MissingAmount()),
            }),
    {
        match self.amount {
            Some(a) => Ok(a),
            None => Err(EngineError::MissingAmount()),
        }
    }
}

impl Transaction {
    /// The transaction a record describes, or `MissingAmount` for a deposit or
    /// withdrawal record without an amount.
    pub fn try_from(row: TransactionRow) -> (r: EngineResult<Transaction>)
        ensures
            r == row_transaction(row),
    {
        match row.kind {
            TransactionType::Deposit => Ok(
                Transaction::Deposit { client: row.client, trade: row.tx, amount: row.get_amount()? },
            ),
            TransactionType::Withdrawal => Ok(
                Transaction::Withdrawal {
                    client: row.client,
                    trade: row.tx,
                    amount: row.get_amount()?,
                },
            ),
            TransactionType::Dispute => Ok(Transaction::Dispute { client: row.client, trade: row.tx }),
            TransactionType::Resolve => Ok(Transaction::Resolve { client: row.client, trade: row.tx }),
            TransactionType::Chargeback => Ok(
                Transaction::Chargeback { client: row.client, trade: row.tx },
            ),
        }
    }
}

} // verus!
