use crate::model::amount::Amount;
use crate::model::client::ClientId;
use vstd::prelude::*;

verus! {

/// Identifier of a transaction; disputes, resolves and chargebacks name a deposit by it.
#[derive(Clone, Copy, Debug, PartialEq, Eq, Hash, Structural)]
pub struct TransactionId(pub u32);

/// One record of the transaction log.
#[derive(Clone, Copy, Debug, PartialEq, Eq, Structural)]
pub enum Transaction {
    Deposit { client: ClientId, trade: TransactionId, amount: Amount },
    Withdrawal { client: ClientId, trade: TransactionId, amount: Amount },
    Dispute { client: ClientId, trade: TransactionId },
    Resolve { client: ClientId, trade: TransactionId },
    Chargeback { client: ClientId, trade: TransactionId },
}

impl Transaction {
    pub open spec fn client(self) -> ClientId {
        match self {
            Transaction::Deposit { client, .. } => client,
            Transaction::Withdrawal { client, .. } => client,
            Transaction::Dispute { client, .. } => client,
            Transaction::Resolve { client, .. } => client,
            Transaction::Chargeback { client, .. } => client,
        }
    }

    /// The client whose ledger this transaction applies to.
    pub fn client_id(&self) -> (r: ClientId)
        ensures
            r == self.client(),
    {
        match self {
            Transaction::Deposit { client, .. } => *client,
            Transaction::Withdrawal { client, .. } => *client,
            Transaction::Dispute { client, .. } => *client,
            Transaction::Resolve { client, .. } => *client,
            Transaction::Chargeback { client, .. } => *client,
        }
    }
}

} // verus!
