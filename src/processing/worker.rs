use crate::errors::EngineResult;
use crate::model::account::Account;
use crate::model::client::ClientId;
use crate::model::trade::Transaction;
use crate::processing::wallet::{follows, AccountWallet, LedgerState};
use std::collections::HashMap;
use vstd::prelude::*;

verus! {

broadcast use vstd::std_specs::hash::group_hash_axioms;

/// The ledger held for `c`, or a fresh one where none is held.
pub open spec fn ledger_of(ledgers: Map<u16, LedgerState>, c: ClientId) -> LedgerState {
    if ledgers.contains_key(c.0) {
        ledgers[c.0]
    } else {
        LedgerState::fresh(c)
    }
}

/// The ledgers after `t`: its client's ledger is created where missing, then `t`
/// is applied to it (a rejected `t` leaves it as it was).
pub open spec fn handled(ledgers: Map<u16, LedgerState>, t: Transaction) -> Map<u16, LedgerState> {
    ledgers.insert(t.client().0, ledger_of(ledgers, t.client()).after(t))
}

/// The ledgers after each transaction of `ts`, in order.
pub open spec fn run(ledgers: Map<u16, LedgerState>, ts: Seq<Transaction>) -> Map<u16, LedgerState>
    decreases ts.len(),
{
    if ts.len() == 0 {
        ledgers
    } else {
        handled(run(ledgers, ts.drop_last()), ts.last())
    }
}

/// The clients in order of first appearance, once `c` has been seen.
pub open spec fn clients_after(clients: Seq<u16>, ledgers: Map<u16, LedgerState>, c: ClientId) -> Seq<u16> {
    if ledgers.contains_key(c.0) {
        clients
    } else {
        clients.push(c.0)
    }
}

/// Each held ledger is well formed and belongs to its key; `clients` lists the
/// keys once each.
pub open spec fn ledgers_wf(ledgers: Map<u16, LedgerState>, clients: Seq<u16>) -> bool {
    &&& forall|c: u16| #[trigger]
        ledgers.contains_key(c) ==> ledgers[c].wf() && ledgers[c].client == ClientId(c)
    &&& clients.no_duplicates()
    &&& forall|c: u16| ledgers.contains_key(c) <==> #[trigger] clients.contains(c)
}

/// Snapshots of the ledgers of `clients`, in that order.
pub open spec fn rows(ledgers: Map<u16, LedgerState>, clients: Seq<u16>) -> Seq<Account> {
    clients.map_values(|c: u16| ledgers[c].snapshot())
}

pub open spec fn ledger_views(m: Map<u16, AccountWallet>) -> Map<u16, LedgerState> {
    m.map_values(|w: AccountWallet| w@)
}

/// A shard worker: it owns the ledgers of its clients and applies their
/// transactions in the order it receives them.
pub struct EngineWorker {
    id: usize,
    accounts: HashMap<u16, AccountWallet>,
    clients: Vec<u16>,
}

impl EngineWorker {
    /// The ledgers held, by client id.
    pub closed spec fn ledgers(&self) -> Map<u16, LedgerState> {
        ledger_views(self.accounts@)
    }

    /// The clients held, in order of first appearance.
    pub closed spec fn clients(&self) -> Seq<u16> {
        self.clients@
    }

    /// The index of the shard this worker serves.
    pub closed spec fn shard(&self) -> usize {
        self.id
    }

    pub open spec fn wf(&self) -> bool {
        ledgers_wf(self.ledgers(), self.clients())
    }

    /// The snapshots this worker hands over when it finishes.
    pub open spec fn rows(&self) -> Seq<Account> {
        rows(self.ledgers(), self.clients())
    }

    pub fn new(id: usize) -> (r: EngineWorker)
        ensures
            r.shard() == id,
            r.ledgers() == Map::<u16, LedgerState>::empty(),
            r.clients() == Seq::<u16>::empty(),
            r.wf(),
    {
        let r = EngineWorker { id, accounts: HashMap::new(), clients: Vec::new() };
        assert(r.ledgers() =~= Map::<u16, LedgerState>::empty());
        r
    }

    /// Takes the ledger of `client` out of the table, or a fresh one for a
    /// client seen for the first time.
    fn get_account(&mut self, client: ClientId) -> (w: AccountWallet)
        requires
            old(self).wf(),
        ensures
            w@ == ledger_of(old(self).ledgers(), client),
            w@.wf(),
            final(self).shard() == old(self).shard(),
            final(self).accounts@ == old(self).accounts@.remove(client.0),
            final(self).clients@ == clients_after(old(self).clients(), old(self).ledgers(), client),
    {
        match self.accounts.remove(&client.0) {
            Some(w) => w,
            None => {
                self.clients.push(client.0);
                AccountWallet::new(client)
            },
        }
    }

    /// Applies `trade` to its client's ledger, creating the ledger first where
    /// missing; a rejected transaction leaves the ledger as it was.
    pub fn handle(&mut self, trade: Transaction) -> (r: EngineResult<()>)
        requires
            old(self).wf(),
        ensures
            final(self).wf(),
            final(self).shard() == old(self).shard(),
            final(self).ledgers() == handled(old(self).ledgers(), trade),
            final(self).clients() == clients_after(
                old(self).clients(),
                old(self).ledgers(),
                trade.client(),
            ),
            follows(
                ledger_of(old(self).ledgers(), trade.client()),
                final(self).ledgers()[trade.client().0],
                r,
                ledger_of(old(self).ledgers(), trade.client()).apply(trade),
            ),
    {
        let client = trade.client_id();
        let mut wallet = self.get_account(client);
        let r = wallet.apply(trade);
        let ghost removed = self.accounts@;
        self.accounts.insert(client.0, wallet);
        proof {
            let before = old(self).ledgers();
            let l = ledger_of(before, client);
            assert(removed.insert(client.0, wallet) =~= old(self).accounts@.insert(client.0, wallet));
            assert(self.ledgers() =~= handled(before, trade));
            assert forall|c: u16| self.ledgers().contains_key(c) <==> #[trigger] self.clients().contains(c) by {
                if !before.contains_key(client.0) {
                    let s0 = old(self).clients@;
                    assert(self.clients@[s0.len() as int] == client.0);
                    if s0.contains(c) {
                        let k = choose|k: int| 0 <= k < s0.len() && s0[k] == c;
                        assert(self.clients@[k] == c);
                    }
                    if self.clients@.contains(c) && c != client.0 {
                        let k = choose|k: int| 0 <= k < self.clients@.len() && self.clients@[k] == c;
                        assert(s0[k] == c);
                    }
                }
            }
            if !before.contains_key(client.0) {
                assert forall|i: int, j: int|
                    0 <= i < j < self.clients@.len() implies self.clients@[i] != self.clients@[j] by {
                    if j == self.clients@.len() - 1 {
                        assert(old(self).clients().contains(self.clients@[i]));
                    }
                }
            }
        }
        r
    }

    pub fn id(&self) -> (r: usize)
        ensures
            r == self.shard(),
    {
        self.id
    }

    /// Hands over the snapshots of every ledger, in order of first appearance.
    pub fn accounts(self) -> (r: Vec<Account>)
        requires
            self.wf(),
        ensures
            r@ == self.rows(),
    {
        let ghost ledgers = self.ledgers();
        let ghost orig = self.accounts@;
        let mut accounts = self.accounts;
        let clients = self.clients;
        let mut out: Vec<Account> = Vec::new();
        let mut i: usize = 0;
        assert forall|j: int| 0 <= j < clients@.len() implies #[trigger] accounts@.contains_key(
            clients@[j],
        ) && orig.contains_key(clients@[j]) && accounts@[clients@[j]] == orig[clients@[j]] by {
            assert(clients@.contains(clients@[j]));
        }
        while i < clients.len()
            invariant
                0 <= i <= clients@.len(),
                ledgers == ledger_views(orig),
                ledgers_wf(ledgers, clients@),
                out@ == rows(ledgers, clients@.take(i as int)),
                forall|j: int|
                    i <= j < clients@.len() ==> #[trigger] accounts@.contains_key(clients@[j])
                        && orig.contains_key(clients@[j]) && accounts@[clients@[j]] == orig[clients@[j]],
            decreases clients@.len() - i,
        {
            let c = clients[i];
            assert(clients@.contains(c));
            let w = accounts.remove(&c);
            let w = w.unwrap();
            assert(w@ == ledgers[c]);
            out.push(Account::from(w));
            assert(clients@.take(i + 1) =~= clients@.take(i as int).push(c));
            assert(out@ =~= rows(ledgers, clients@.take(i + 1)));
            i = i + 1;
            assert forall|j: int| i <= j < clients@.len() implies #[trigger] accounts@.contains_key(
                clients@[j],
            ) && orig.contains_key(clients@[j]) && accounts@[clients@[j]] == orig[clients@[j]] by {
                assert(clients@[j] != c);
            }
        }
        assert(clients@.take(i as int) =~= clients@);
        out
    }
}

} // verus!
