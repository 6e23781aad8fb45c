//! Properties of the ledger state machine and of shard routing, proved over
//! the spec functions that the executable operations follow.
use crate::errors::EngineError;
use crate::model::amount::{pow10, MAX_SCALE};
use crate::model::client::ClientId;
use crate::model::trade::{Transaction, TransactionId};
use crate::processing::engine::shard_of;
use crate::processing::wallet::{checked_amount, lemma_pow10_positive, LedgerState};
use crate::processing::worker::{ledger_of, run};
use vstd::prelude::*;

verus! {

/// The ledger after each transaction of `ts`, in order, rejected ones leaving it as it was.
pub open spec fn replay(l: LedgerState, ts: Seq<Transaction>) -> LedgerState
    decreases ts.len(),
{
    if ts.len() == 0 {
        l
    } else {
        replay(l, ts.drop_last()).after(ts.last())
    }
}

/// Holds of the transactions of client `c`.
pub open spec fn of_client(c: ClientId) -> spec_fn(Transaction) -> bool {
    |t: Transaction| t.client() == c
}

/// Holds of the transactions routed to shard `k` of a pool of `n`.
pub open spec fn of_shard(n: nat, k: nat) -> spec_fn(Transaction) -> bool {
    |t: Transaction| shard_of(n, t.client()) == k
}

/// A locked ledger answers `t` with `FrozenAccount` when nothing checked before
/// the lock rejects it: the amount of a deposit or withdrawal is valid, and the
/// id of a dispute, resolve or chargeback is in the table it reads.
pub open spec fn reaches_lock_check(l: LedgerState, t: Transaction) -> bool {
    match t {
        Transaction::Deposit { trade, amount, .. } => checked_amount(trade, amount) is Ok,
        Transaction::Withdrawal { trade, amount, .. } => checked_amount(trade, amount) is Ok,
        Transaction::Dispute { trade, .. } => l.deposits.contains_key(trade.0),
        Transaction::Resolve { trade, .. } => l.disputes.contains_key(trade.0),
        Transaction::Chargeback { trade, .. } => l.disputes.contains_key(trade.0),
    }
}

/// Every accepted transaction keeps a ledger well formed.
pub proof fn lemma_after_wf(l: LedgerState, t: Transaction)
    requires
        l.wf(),
    ensures
        l.after(t).wf(),
{
    match t {
        Transaction::Deposit { trade, amount, .. } => {
            if checked_amount(trade, amount) is Ok {
                lemma_pow10_positive((MAX_SCALE - amount.scale) as nat);
                assert(amount.units() > 0) by (nonlinear_arith)
                    requires
                        amount.mantissa > 0,
                        pow10((MAX_SCALE - amount.scale) as nat) >= 1,
                ;
            }
        },
        Transaction::Withdrawal { trade, amount, .. } => {
            if checked_amount(trade, amount) is Ok {
                lemma_pow10_positive((MAX_SCALE - amount.scale) as nat);
                assert(amount.units() > 0) by (nonlinear_arith)
                    requires
                        amount.mantissa > 0,
                        pow10((MAX_SCALE - amount.scale) as nat) >= 1,
                ;
            }
        },
        _ => {},
    }
}

/// Balance identity: from a well-formed ledger, whatever transactions follow,
/// the ledger stays well formed, so `total == available + held` with
/// `available` and `held` never negative.
pub proof fn balance_identity_holds(l: LedgerState, ts: Seq<Transaction>)
    requires
        l.wf(),
    ensures
        replay(l, ts).wf(),
        replay(l, ts).total == replay(l, ts).available + replay(l, ts).held,
        replay(l, ts).available >= 0,
        replay(l, ts).held >= 0,
    decreases ts.len(),
{
    if ts.len() > 0 {
        balance_identity_holds(l, ts.drop_last());
        lemma_after_wf(replay(l, ts.drop_last()), ts.last());
    }
}

/// A locked ledger answers every transaction that gets past the checks made
/// before the lock with `FrozenAccount`.
pub proof fn locked_ledger_rejects(l: LedgerState, t: Transaction)
    requires
        l.locked,
        reaches_lock_check(l, t),
    ensures
        l.apply(t) == Err::<LedgerState, EngineError>(EngineError::FrozenAccount(l.client)),
{
}

/// A locked ledger never changes again: every later transaction is rejected.
pub proof fn locked_ledger_is_final(l: LedgerState, ts: Seq<Transaction>)
    requires
        l.locked,
    ensures
        replay(l, ts) == l,
    decreases ts.len(),
{
    if ts.len() > 0 {
        locked_ledger_is_final(l, ts.drop_last());
        assert(l.apply(ts.last()) is Err);
    }
}

/// Resolve and chargeback of an id with no open dispute fail with
/// `TransactionNotFound`.
pub proof fn closed_dispute_not_found(l: LedgerState, id: TransactionId)
    requires
        !l.disputes.contains_key(id.0),
    ensures
        l.resolve(id) == Err::<LedgerState, EngineError>(EngineError::TransactionNotFound(id)),
        l.chargeback(id) == Err::<LedgerState, EngineError>(EngineError::TransactionNotFound(id)),
{
}

/// A dispute is settled once: after a resolve or a chargeback of `id`
/// succeeds, a second resolve or chargeback of `id` fails with
/// `TransactionNotFound`.
pub proof fn dispute_settles_once(l: LedgerState, id: TransactionId)
    ensures
        l.resolve(id) matches Ok(s) ==> s.resolve(id) == Err::<LedgerState, EngineError>(
            EngineError::TransactionNotFound(id),
        ) && s.chargeback(id) == Err::<LedgerState, EngineError>(
            EngineError::TransactionNotFound(id),
        ),
        l.chargeback(id) matches Ok(s) ==> s.resolve(id) == Err::<LedgerState, EngineError>(
            EngineError::TransactionNotFound(id),
        ) && s.chargeback(id) == Err::<LedgerState, EngineError>(
            EngineError::TransactionNotFound(id),
        ),
{
}

/// Per-client order: in a worker, the final ledger of client `c` is what `c`'s
/// own transactions, in their order, make of its starting ledger, however
/// they are interleaved with other clients' transactions.
pub proof fn client_order_alone_decides(
    ledgers: Map<u16, LedgerState>,
    ts: Seq<Transaction>,
    c: ClientId,
)
    ensures
        ledger_of(run(ledgers, ts), c) == replay(ledger_of(ledgers, c), ts.filter(of_client(c))),
    decreases ts.len(),
{
    reveal(Seq::filter);
    if ts.len() > 0 {
        client_order_alone_decides(ledgers, ts.drop_last(), c);
        let t = ts.last();
        let inner = run(ledgers, ts.drop_last());
        if t.client() == c {
            assert(ts.filter(of_client(c)).drop_last() == ts.drop_last().filter(of_client(c)));
        } else {
            assert(ts.filter(of_client(c)) == ts.drop_last().filter(of_client(c)));
            if t.client().0 == c.0 {
                assert(t.client() == c);
            }
        }
    }
}

proof fn lemma_filter_narrower(
    ts: Seq<Transaction>,
    p: spec_fn(Transaction) -> bool,
    q: spec_fn(Transaction) -> bool,
)
    requires
        forall|t: Transaction| #[trigger] q(t) ==> p(t),
    ensures
        ts.filter(p).filter(q) == ts.filter(q),
    decreases ts.len(),
{
    reveal(Seq::filter);
    if ts.len() > 0 {
        lemma_filter_narrower(ts.drop_last(), p, q);
        let t = ts.last();
        if p(t) {
            assert(ts.filter(p).drop_last() =~= ts.drop_last().filter(p));
            assert(ts.filter(p).last() == t);
        }
    }
}

/// Routing keeps per-client order: when each shard of a pool of `n` receives,
/// in order, the transactions routed to it, client `c`'s final ledger in its
/// shard is what `c`'s own transactions alone make of a fresh ledger.
pub proof fn routing_keeps_client_order(n: nat, ts: Seq<Transaction>, c: ClientId)
    requires
        n > 0,
    ensures
        ledger_of(run(Map::empty(), ts.filter(of_shard(n, shard_of(n, c)))), c) == replay(
            LedgerState::fresh(c),
            ts.filter(of_client(c)),
        ),
{
    let routed = ts.filter(of_shard(n, shard_of(n, c)));
    client_order_alone_decides(Map::empty(), routed, c);
    lemma_filter_narrower(ts, of_shard(n, shard_of(n, c)), of_client(c));
}

} // verus!
