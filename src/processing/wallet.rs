use crate::errors::{EngineError, EngineResult};
use crate::model::account::Account;
use crate::model::amount::{pow10, Amount, MAX_MANTISSA, MAX_SCALE};
use crate::model::client::ClientId;
use crate::model::trade::{Transaction, TransactionId};
use std::collections::HashMap;
use vstd::prelude::*;

verus! {

broadcast use vstd::std_specs::hash::group_hash_axioms;

/// Largest balance, in units of `10^-MAX_SCALE`: the largest decimal mantissa.
pub const MAX_UNITS: i128 = MAX_MANTISSA;

/// The mathematical state of one client's ledger; amounts count units of `10^-MAX_SCALE`.
pub struct LedgerState {
    pub client: ClientId,
    pub available: int,
    pub held: int,
    pub total: int,
    pub locked: bool,
    /// Accepted deposits, by transaction id.
    pub deposits: Map<u32, int>,
    /// Amounts currently held by open disputes, by transaction id.
    pub disputes: Map<u32, int>,
}

/// The amount of a deposit or withdrawal, if it is strictly positive with at
/// most `MAX_SCALE` fractional digits.
pub open spec fn checked_amount(id: TransactionId, amount: Amount) -> Result<Amount, EngineError> {
    if amount.mantissa <= 0 {
        Err(EngineError::NegativeAmount(id))
    } else if amount.scale > MAX_SCALE {
        Err(EngineError::InvalidPrecision(id))
    } else {
        Ok(amount)
    }
}

impl LedgerState {
    /// The ledger of a client seen for the first time.
    pub open spec fn fresh(client: ClientId) -> LedgerState {
        LedgerState {
            client,
            available: 0,
            held: 0,
            total: 0,
            locked: false,
            deposits: Map::empty(),
            disputes: Map::empty(),
        }
    }

    /// Balances are never negative, `total == available + held` and stays within
    /// range, and every recorded amount is positive and within range.
    pub open spec fn wf(self) -> bool {
        &&& 0 <= self.available
        &&& 0 <= self.held
        &&& self.total == self.available + self.held
        &&& self.total <= MAX_UNITS
        &&& forall|k: u32| #[trigger]
            self.deposits.contains_key(k) ==> 0 < self.deposits[k] <= MAX_UNITS
        &&& forall|k: u32| #[trigger]
            self.disputes.contains_key(k) ==> 0 < self.disputes[k] <= MAX_UNITS
    }

    /// Credits `amount` and records it as deposit `id`.
    pub open spec fn deposit(self, id: TransactionId, amount: Amount) -> Result<LedgerState, EngineError> {
        match checked_amount(id, amount) {
            Err(e) => Err(e),
            Ok(a) => if self.locked {
                Err(EngineError::FrozenAccount(self.client))
            } else if self.total + a.units() > MAX_UNITS {
                Err(EngineError::AmountOverflow(id))
            } else {
                Ok(
                    LedgerState {
                        available: self.available + a.units(),
                        total: self.total + a.units(),
                        deposits: self.deposits.insert(id.0, a.units()),
                        ..self
                    },
                )
            },
        }
    }

    /// Debits `amount` when that much is available.
    pub open spec fn withdrawal(self, id: TransactionId, amount: Amount) -> Result<LedgerState, EngineError> {
        match checked_amount(id, amount) {
            Err(e) => Err(e),
            Ok(a) => if self.locked {
                Err(EngineError::FrozenAccount(self.client))
            } else if self.available < a.units() {
                Err(EngineError::InsufficientFunds(id))
            } else {
                Ok(
                    LedgerState {
                        available: self.available - a.units(),
                        total: self.total - a.units(),
                        ..self
                    },
                )
            },
        }
    }

    /// Holds the amount of deposit `id`, when that much is available.
    pub open spec fn dispute(self, id: TransactionId) -> Result<LedgerState, EngineError> {
        if !self.deposits.contains_key(id.0) {
            Err(EngineError::TransactionNotFound(id))
        } else if self.locked {
            Err(EngineError::FrozenAccount(self.client))
        } else if self.available < self.deposits[id.0] {
            Err(EngineError::InsufficientFunds(id))
        } else {
            let u = self.deposits[id.0];
            Ok(
                LedgerState {
                    available: self.available - u,
                    held: self.held + u,
                    disputes: self.disputes.insert(id.0, u),
                    ..self
                },
            )
        }
    }

    /// Releases the amount held by dispute `id`.
    pub open spec fn resolve(self, id: TransactionId) -> Result<LedgerState, EngineError> {
        if !self.disputes.contains_key(id.0) {
            Err(EngineError::TransactionNotFound(id))
        } else if self.locked {
            Err(EngineError::FrozenAccount(self.client))
        } else if self.held < self.disputes[id.0] {
            Err(EngineError::InsufficientFunds(id))
        } else {
            let u = self.disputes[id.0];
            Ok(
                LedgerState {
                    available: self.available + u,
                    held: self.held - u,
                    disputes: self.disputes.remove(id.0),
                    ..self
                },
            )
        }
    }

    /// Removes the amount held by dispute `id` and locks the ledger.
    pub open spec fn chargeback(self, id: TransactionId) -> Result<LedgerState, EngineError> {
        if !self.disputes.contains_key(id.0) {
            Err(EngineError::TransactionNotFound(id))
        } else if self.locked {
            Err(EngineError::FrozenAccount(self.client))
        } else if self.held < self.disputes[id.0] {
            Err(EngineError::InsufficientFunds(id))
        } else {
            let u = self.disputes[id.0];
            Ok(
                LedgerState {
                    total: self.total - u,
                    held: self.held - u,
                    locked: true,
                    disputes: self.disputes.remove(id.0),
                    ..self
                },
            )
        }
    }

    /// The outcome of applying `t` to this ledger, whatever client `t` names.
    pub open spec fn apply(self, t: Transaction) -> Result<LedgerState, EngineError> {
        match t {
            Transaction::Deposit { trade, amount, .. } => self.deposit(trade, amount),
            Transaction::Withdrawal { trade, amount, .. } => self.withdrawal(trade, amount),
            Transaction::Dispute { trade, .. } => self.dispute(trade),
            Transaction::Resolve { trade, .. } => self.resolve(trade),
            Transaction::Chargeback { trade, .. } => self.chargeback(trade),
        }
    }

    /// The ledger after `t`: a rejected transaction leaves it as it was.
    pub open spec fn after(self, t: Transaction) -> LedgerState {
        match self.apply(t) {
            Ok(s) => s,
            Err(_) => self,
        }
    }

    /// The snapshot that reports this ledger.
    pub open spec fn snapshot(self) -> Account {
        Account {
            client: self.client,
            available: Amount::of_units(self.available),
            held: Amount::of_units(self.held),
            total: Amount::of_units(self.total),
            locked: self.locked,
        }
    }
}

/// `r` and `after` are what `step` prescribes from `before`: the new state on
/// success; the error, with the state unchanged, on failure.
pub open spec fn follows(
    before: LedgerState,
    after: LedgerState,
    r: EngineResult<()>,
    step: Result<LedgerState, EngineError>,
) -> bool {
    match step {
        Ok(s) => r == Ok::<(), EngineError>(()) && after == s,
        Err(e) => r == Err::<(), EngineError>(e) && after == before,
    }
}

pub open spec fn as_units(m: Map<u32, i128>) -> Map<u32, int> {
    m.map_values(|v: i128| v as int)
}

proof fn lemma_as_units_insert(m: Map<u32, i128>, k: u32, v: i128)
    ensures
        as_units(m.insert(k, v)) == as_units(m).insert(k, v as int),
{
    assert(as_units(m.insert(k, v)) =~= as_units(m).insert(k, v as int));
}

proof fn lemma_as_units_remove(m: Map<u32, i128>, k: u32)
    ensures
        as_units(m.remove(k)) == as_units(m).remove(k),
{
    assert(as_units(m.remove(k)) =~= as_units(m).remove(k));
}

pub(crate) proof fn lemma_pow10_positive(n: nat)
    ensures
        pow10(n) >= 1,
    decreases n,
{
    if n > 0 {
        lemma_pow10_positive((n - 1) as nat);
    }
}

/// One client's ledger: balances, accepted deposits and open disputes.
pub struct AccountWallet {
    client: ClientId,
    available: i128,
    held: i128,
    total: i128,
    locked: bool,
    deposits: HashMap<u32, i128>,
    disputes: HashMap<u32, i128>,
}

impl View for AccountWallet {
    type V = LedgerState;

    closed spec fn view(&self) -> LedgerState {
        LedgerState {
            client: self.client,
            available: self.available as int,
            held: self.held as int,
            total: self.total as int,
            locked: self.locked,
            deposits: as_units(self.deposits@),
            disputes: as_units(self.disputes@),
        }
    }
}

/// The amount of a deposit or withdrawal, checked as `checked_amount` says.
fn validate_amount(id: TransactionId, amount: Amount) -> (r: EngineResult<Amount>)
    ensures
        r == checked_amount(id, amount),
{
    if amount.mantissa <= 0 {
        Err(EngineError::NegativeAmount(id))
    } else if amount.scale > MAX_SCALE {
        Err(EngineError::InvalidPrecision(id))
    } else {
        Ok(amount)
    }
}

/// The value of a checked amount in units of `10^-MAX_SCALE`.
fn units_of(amount: Amount) -> (u: i128)
    requires
        0 < amount.mantissa <= MAX_UNITS,
        amount.scale <= MAX_SCALE,
    ensures
        u == amount.units(),
        amount.mantissa <= u,
{
    let factor: i128 = if amount.scale == 0 {
        10000
    } else if amount.scale == 1 {
        1000
    } else if amount.scale == 2 {
        100
    } else if amount.scale == 3 {
        10
    } else {
        1
    };
    assert(factor == pow10((MAX_SCALE - amount.scale) as nat)) by {
        reveal_with_fuel(pow10, 5);
    }
    let m = amount.mantissa;
    assert(m <= m * factor <= MAX_UNITS * 10000) by (nonlinear_arith)
        requires
            0 < m <= MAX_UNITS,
            1 <= factor <= 10000,
    ;
    m * factor
}

impl AccountWallet {
    pub fn new(client_id: ClientId) -> (r: AccountWallet)
        ensures
            r@ == LedgerState::fresh(client_id),
            r@.wf(),
    {
        let r = AccountWallet {
            client: client_id,
            available: 0,
            held: 0,
            total: 0,
            locked: false,
            deposits: HashMap::new(),
            disputes: HashMap::new(),
        };
        assert(as_units(r.deposits@) =~= Map::empty());
        assert(as_units(r.disputes@) =~= Map::empty());
        r
    }

    fn check_frozen(&self) -> (r: EngineResult<()>)
        ensures
            r == (if self@.locked {
                Err(EngineError::FrozenAccount(self@.client))
            } else {
                Ok(())
            }),
    {
        if self.locked {
            Err(EngineError::FrozenAccount(self.client))
        } else {
            Ok(())
        }
    }

    fn check_available_founds(&self, id: TransactionId, amount: i128) -> (r: EngineResult<()>)
        ensures
            r == (if self@.available < amount {
                Err(EngineError::InsufficientFunds(id))
            } else {
                Ok(())
            }),
    {
        if self.available < amount {
            Err(EngineError::InsufficientFunds(id))
        } else {
            Ok(())
        }
    }

    fn check_held_founds(&self, id: TransactionId, amount: i128) -> (r: EngineResult<()>)
        ensures
            r == (if self@.held < amount {
                Err(EngineError::InsufficientFunds(id))
            } else {
                Ok(())
            }),
    {
        if self.held < amount {
            Err(EngineError::InsufficientFunds(id))
        } else {
            Ok(())
        }
    }

    fn find_deposit(&self, id: TransactionId) -> (r: EngineResult<i128>)
        ensures
            match r {
                Ok(u) => self@.deposits.contains_key(id.0) && u == self@.deposits[id.0],
                Err(e) => !self@.deposits.contains_key(id.0) && e
                    == EngineError::TransactionNotFound(id),
            },
    {
        match self.deposits.get(&id.0) {
            Some(u) => Ok(*u),
            None => Err(EngineError::TransactionNotFound(id)),
        }
    }

    fn find_dispute(&self, id: TransactionId) -> (r: EngineResult<i128>)
        ensures
            match r {
                Ok(u) => self@.disputes.contains_key(id.0) && u == self@.disputes[id.0],
                Err(e) => !self@.disputes.contains_key(id.0) && e
                    == EngineError::TransactionNotFound(id),
            },
    {
        match self.disputes.get(&id.0) {
            Some(u) => Ok(*u),
            None => Err(EngineError::TransactionNotFound(id)),
        }
    }

    /// Credits a strictly positive amount with at most four fractional digits
    /// and records it under `id`, replacing an earlier deposit of that id.
    pub fn deposit(&mut self, id: TransactionId, amount: Amount) -> (r: EngineResult<()>)
        requires
            old(self)@.wf(),
        ensures
            final(self)@.wf(),
            follows(old(self)@, final(self)@, r, old(self)@.deposit(id, amount)),
    {
        let amount = validate_amount(id, amount)?;
        self.check_frozen()?;
        if amount.mantissa > MAX_UNITS {
            proof {
                lemma_pow10_positive((MAX_SCALE - amount.scale) as nat);
                assert(amount.units() >= amount.mantissa) by (nonlinear_arith)
                    requires
                        amount.mantissa > 0,
                        pow10((MAX_SCALE - amount.scale) as nat) >= 1,
                ;
            }
            return Err(EngineError::AmountOverflow(id));
        }
        let u = units_of(amount);
        if u > MAX_UNITS - self.total {
            return Err(EngineError::AmountOverflow(id));
        }
        self.available = self.available + u;
        self.total = self.total + u;
        proof {
            lemma_as_units_insert(self.deposits@, id.0, u);
        }
        self.deposits.insert(id.0, u);
        Ok(())
    }

    /// Debits a strictly positive amount with at most four fractional digits,
    /// if that much is available.
    pub fn withdrawal(&mut self, id: TransactionId, amount: Amount) -> (r: EngineResult<()>)
        requires
            old(self)@.wf(),
        ensures
            final(self)@.wf(),
            follows(old(self)@, final(self)@, r, old(self)@.withdrawal(id, amount)),
    {
        let amount = validate_amount(id, amount)?;
        self.check_frozen()?;
        if amount.mantissa > MAX_UNITS {
            proof {
                lemma_pow10_positive((MAX_SCALE - amount.scale) as nat);
                assert(amount.units() >= amount.mantissa) by (nonlinear_arith)
                    requires
                        amount.mantissa > 0,
                        pow10((MAX_SCALE - amount.scale) as nat) >= 1,
                ;
            }
            return Err(EngineError::InsufficientFunds(id));
        }
        let u = units_of(amount);
        self.check_available_founds(id, u)?;
        self.available = self.available - u;
        self.total = self.total - u;
        Ok(())
    }

    /// Moves the amount of deposit `id` from available to held.
    pub fn dispute(&mut self, id: TransactionId) -> (r: EngineResult<()>)
        requires
            old(self)@.wf(),
        ensures
            final(self)@.wf(),
            follows(old(self)@, final(self)@, r, old(self)@.dispute(id)),
    {
        let u = self.find_deposit(id)?;
        self.check_frozen()?;
        self.check_available_founds(id, u)?;
        self.available = self.available - u;
        self.held = self.held + u;
        proof {
            lemma_as_units_insert(self.disputes@, id.0, u);
        }
        self.disputes.insert(id.0, u);
        Ok(())
    }

    /// Releases the amount held by dispute `id` back to available and closes the dispute.
    pub fn resolve(&mut self, id: TransactionId) -> (r: EngineResult<()>)
        requires
            old(self)@.wf(),
        ensures
            final(self)@.wf(),
            follows(old(self)@, final(self)@, r, old(self)@.resolve(id)),
    {
        let u = self.find_dispute(id)?;
        self.check_frozen()?;
        self.check_held_founds(id, u)?;
        self.available = self.available + u;
        self.held = self.held - u;
        proof {
            lemma_as_units_remove(self.disputes@, id.0);
        }
        self.disputes.remove(&id.0);
        Ok(())
    }

    /// Reverses disputed deposit `id`: its amount leaves held and total, the
    /// dispute closes and the account locks.
    pub fn chargeback(&mut self, id: TransactionId) -> (r: EngineResult<()>)
        requires
            old(self)@.wf(),
        ensures
            final(self)@.wf(),
            follows(old(self)@, final(self)@, r, old(self)@.chargeback(id)),
    {
        let u = self.find_dispute(id)?;
        self.check_frozen()?;
        self.check_held_founds(id, u)?;
        self.total = self.total - u;
        self.held = self.held - u;
        self.locked = true;
        proof {
            lemma_as_units_remove(self.disputes@, id.0);
        }
        self.disputes.remove(&id.0);
        Ok(())
    }

    /// Applies `t` to this ledger, whatever client `t` names.
    pub fn apply(&mut self, t: Transaction) -> (r: EngineResult<()>)
        requires
            old(self)@.wf(),
        ensures
            final(self)@.wf(),
            follows(old(self)@, final(self)@, r, old(self)@.apply(t)),
    {
        match t {
            Transaction::Deposit { trade, amount, .. } => self.deposit(trade, amount),
            Transaction::Withdrawal { trade, amount, .. } => self.withdrawal(trade, amount),
            Transaction::Dispute { trade, .. } => self.dispute(trade),
            Transaction::Resolve { trade, .. } => self.resolve(trade),
            Transaction::Chargeback { trade, .. } => self.chargeback(trade),
        }
    }

}

impl Account {
    /// The snapshot of a ledger: its client, balances in normal form, and lock.
    pub fn from(wallet: AccountWallet) -> (r: Account)
        requires
            wallet@.wf(),
        ensures
            r == wallet@.snapshot(),
    {
        Account {
            client: wallet.client,
            available: Amount::from_units(wallet.available),
            held: Amount::from_units(wallet.held),
            total: Amount::from_units(wallet.total),
            locked: wallet.locked,
        }
    }
}

} // verus!
