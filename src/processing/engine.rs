use crate::model::account::Account;
use crate::model::client::ClientId;
use crate::model::report::Report;
use crate::model::trade::Transaction;
use crate::processing::worker::EngineWorker;
use vstd::prelude::*;

verus! {

pub const DEFAULT_WORKERS_SIZE: usize = 10;

pub const DEFAULT_BUFFER_SIZE: usize = 100;

/// The shard that serves client `c` in a pool of `n` workers.
pub open spec fn shard_of(n: nat, c: ClientId) -> nat {
    (c.0 as nat) % n
}

/// What the caller does with one transaction: start the worker of `shard`
/// first if `start` holds, then queue the transaction to it.
#[derive(Clone, Copy, Debug, PartialEq, Eq, Structural)]
pub struct Dispatch {
    pub shard: usize,
    pub start: bool,
}

/// Snapshots of every worker, worker after worker.
pub open spec fn all_rows(workers: Seq<EngineWorker>) -> Seq<Account>
    decreases workers.len(),
{
    if workers.len() == 0 {
        Seq::empty()
    } else {
        workers[0].rows() + all_rows(workers.drop_first())
    }
}

/// Routes transactions to a fixed pool of shard workers by client id and
/// records which workers have been started.
pub struct PaymentEngine {
    workers_size: usize,
    worker_buffer: usize,
    started: Vec<bool>,
}

impl PaymentEngine {
    /// The number of shards.
    pub closed spec fn pool_size(&self) -> nat {
        self.workers_size as nat
    }

    /// The capacity of each shard's queue.
    pub closed spec fn buffer(&self) -> usize {
        self.worker_buffer
    }

    /// Which shards have a running worker.
    pub closed spec fn started(&self) -> Seq<bool> {
        self.started@
    }

    pub open spec fn wf(&self) -> bool {
        &&& self.pool_size() > 0
        &&& self.started().len() == self.pool_size()
    }

    pub fn new(pool_size: usize) -> (r: PaymentEngine)
        requires
            pool_size > 0,
        ensures
            r.wf(),
            r.pool_size() == pool_size,
            r.buffer() == DEFAULT_BUFFER_SIZE,
            forall|i: int| 0 <= i < pool_size ==> !#[trigger] r.started()[i],
    {
        let mut started: Vec<bool> = Vec::new();
        let mut i: usize = 0;
        while i < pool_size
            invariant
                0 <= i <= pool_size,
                started@.len() == i,
                forall|k: int| 0 <= k < i ==> !#[trigger] started@[k],
            decreases pool_size - i,
        {
            started.push(false);
            i = i + 1;
        }
        PaymentEngine { workers_size: pool_size, worker_buffer: DEFAULT_BUFFER_SIZE, started }
    }

    pub fn workers_size(&self) -> (r: usize)
        ensures
            r == self.pool_size(),
    {
        self.workers_size
    }

    pub fn buffer_size(&self) -> (r: usize)
        ensures
            r == self.buffer(),
    {
        self.worker_buffer
    }

    fn worker_id(&self, id: ClientId) -> (r: usize)
        requires
            self.wf(),
        ensures
            r == shard_of(self.pool_size(), id),
            r < self.pool_size(),
    {
        (id.0 as usize) % self.workers_size
    }

    /// Routes `tx` to the shard of its client, marking that shard's worker as
    /// started; `start` says whether it was not running before.
    pub fn process(&mut self, tx: &Transaction) -> (d: Dispatch)
        requires
            old(self).wf(),
        ensures
            final(self).wf(),
            final(self).pool_size() == old(self).pool_size(),
            final(self).buffer() == old(self).buffer(),
            d.shard == shard_of(old(self).pool_size(), tx.client()),
            d.start == !old(self).started()[d.shard as int],
            final(self).started() == old(self).started().update(d.shard as int, true),
    {
        let shard = self.worker_id(tx.client_id());
        let start = !self.started[shard];
        self.started.set(shard, true);
        Dispatch { shard, start }
    }

    /// Merges the snapshots of the finished workers into one report, worker
    /// after worker.
    pub fn report(self, workers: Vec<EngineWorker>) -> (r: Report)
        requires
            forall|i: int| 0 <= i < workers@.len() ==> (#[trigger] workers@[i]).wf(),
        ensures
            r@ == all_rows(workers@),
    {
        let ghost all = workers@;
        let mut workers = workers;
        let mut accounts: Vec<Account> = Vec::new();
        while workers.len() > 0
            invariant
                forall|i: int| 0 <= i < workers@.len() ==> (#[trigger] workers@[i]).wf(),
                accounts@ + all_rows(workers@) == all_rows(all),
            decreases workers@.len(),
        {
            let ghost rest = workers@;
            let worker = workers.remove(0);
            assert(workers@ =~= rest.drop_first());
            let mut rows = worker.accounts();
            let ghost before = accounts@;
            accounts.append(&mut rows);
            assert(accounts@ + all_rows(workers@) =~= before + all_rows(rest));
        }
        Report::new(accounts)
    }
}

impl Default for PaymentEngine {
    fn default() -> (r: PaymentEngine)
        ensures
            r.wf(),
            r.pool_size() == DEFAULT_WORKERS_SIZE,
    {
        PaymentEngine::new(DEFAULT_WORKERS_SIZE)
    }
}

} // verus!
