use crate::model::amount::Amount;
use crate::model::client::ClientId;
use vstd::prelude::*;

verus! {

/// Read-only snapshot of one client's ledger, its amounts in normal form.
#[derive(Clone, Copy, Debug, PartialEq, Eq, Structural)]
pub struct Account {
    pub client: ClientId,
    pub available: Amount,
    pub held: Amount,
    pub total: Amount,
    pub locked: bool,
}

} // verus!
