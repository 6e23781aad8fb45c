use payment_engine::errors::EngineError;
use payment_engine::model::account::Account;
use payment_engine::model::amount::Amount;
use payment_engine::model::client::ClientId;
use payment_engine::model::report::{render_line, Report};
use payment_engine::model::trade::{Transaction, TransactionId};
use payment_engine::processing::engine::PaymentEngine;
use payment_engine::processing::wallet::AccountWallet;
use payment_engine::processing::worker::EngineWorker;

fn deposit(client: u16, tx: u32, mantissa: i128, scale: u32) -> Transaction {
    Transaction::Deposit {
        client: ClientId(client),
        trade: TransactionId(tx),
        amount: Amount::new(mantissa, scale),
    }
}

fn withdrawal(client: u16, tx: u32, mantissa: i128, scale: u32) -> Transaction {
    Transaction::Withdrawal {
        client: ClientId(client),
        trade: TransactionId(tx),
        amount: Amount::new(mantissa, scale),
    }
}

fn dispute(client: u16, tx: u32) -> Transaction {
    Transaction::Dispute { client: ClientId(client), trade: TransactionId(tx) }
}

fn resolve(client: u16, tx: u32) -> Transaction {
    Transaction::Resolve { client: ClientId(client), trade: TransactionId(tx) }
}

fn chargeback(client: u16, tx: u32) -> Transaction {
    Transaction::Chargeback { client: ClientId(client), trade: TransactionId(tx) }
}

fn account(client: u16, available: (i128, u32), held: (i128, u32), total: (i128, u32), locked: bool) -> Account {
    Account {
        client: ClientId(client),
        available: Amount::new(available.0, available.1),
        held: Amount::new(held.0, held.1),
        total: Amount::new(total.0, total.1),
        locked,
    }
}

fn run_worker(transactions: &[Transaction]) -> Vec<Account> {
    let mut worker = EngineWorker::new(0);
    for t in transactions {
        let _ = worker.handle(*t);
    }
    worker.accounts()
}

/// Runs the transactions through an engine with `pool` shards, each shard
/// worker handling its transactions in arrival order.
fn run_engine(pool: usize, transactions: &[Transaction]) -> Report {
    let mut engine = PaymentEngine::new(pool);
    let mut workers: Vec<Option<EngineWorker>> = (0..pool).map(|_| None).collect();
    for t in transactions {
        let dispatch = engine.process(t);
        if dispatch.start {
            assert!(workers[dispatch.shard].is_none());
            workers[dispatch.shard] = Some(EngineWorker::new(dispatch.shard));
        }
        let _ = workers[dispatch.shard].as_mut().unwrap().handle(*t);
    }
    engine.report(workers.into_iter().flatten().collect())
}

#[test]
fn two_deposits_add_up() {
    let accounts = run_worker(&[deposit(1, 1, 20, 1), deposit(1, 2, 50, 1)]);
    assert_eq!(accounts, vec![account(1, (7, 0), (0, 0), (7, 0), false)]);
}

#[test]
fn dispute_of_spent_deposit_is_refused() {
    let mut wallet = AccountWallet::new(ClientId(1));
    assert_eq!(wallet.deposit(TransactionId(1), Amount::new(20, 1)), Ok(()));
    assert_eq!(wallet.deposit(TransactionId(2), Amount::new(50, 1)), Ok(()));
    assert_eq!(wallet.withdrawal(TransactionId(3), Amount::new(60, 1)), Ok(()));
    assert_eq!(
        wallet.dispute(TransactionId(2)),
        Err(EngineError::InsufficientFunds(TransactionId(2)))
    );
    let account = Account::from(wallet);
    assert_eq!(account.available, Amount::new(1, 0));
    assert_eq!(account.held, Amount::new(0, 0));
}

#[test]
fn chargeback_locks_account() {
    let mut wallet = AccountWallet::new(ClientId(1));
    assert_eq!(wallet.deposit(TransactionId(1), Amount::new(20, 1)), Ok(()));
    assert_eq!(wallet.deposit(TransactionId(2), Amount::new(50, 1)), Ok(()));
    assert_eq!(wallet.dispute(TransactionId(2)), Ok(()));
    assert_eq!(wallet.chargeback(TransactionId(2)), Ok(()));
    assert_eq!(
        wallet.deposit(TransactionId(4), Amount::new(1, 0)),
        Err(EngineError::FrozenAccount(ClientId(1)))
    );
    assert_eq!(
        Account::from(wallet),
        account(1, (2, 0), (0, 0), (2, 0), true)
    );
}

#[test]
fn locked_account_refuses_every_operation() {
    let mut wallet = AccountWallet::new(ClientId(7));
    assert_eq!(wallet.deposit(TransactionId(1), Amount::new(3, 0)), Ok(()));
    assert_eq!(wallet.deposit(TransactionId(2), Amount::new(4, 0)), Ok(()));
    assert_eq!(wallet.dispute(TransactionId(1)), Ok(()));
    assert_eq!(wallet.dispute(TransactionId(2)), Ok(()));
    assert_eq!(wallet.chargeback(TransactionId(1)), Ok(()));
    let frozen = Err(EngineError::FrozenAccount(ClientId(7)));
    assert_eq!(wallet.deposit(TransactionId(3), Amount::new(1, 0)), frozen);
    assert_eq!(wallet.withdrawal(TransactionId(3), Amount::new(1, 0)), frozen);
    assert_eq!(wallet.dispute(TransactionId(2)), frozen);
    assert_eq!(wallet.resolve(TransactionId(2)), frozen);
    assert_eq!(wallet.chargeback(TransactionId(2)), frozen);
    assert_eq!(
        Account::from(wallet),
        account(7, (0, 0), (4, 0), (4, 0), true)
    );
}

#[test]
fn five_fractional_digits_are_refused() {
    let mut wallet = AccountWallet::new(ClientId(1));
    assert_eq!(
        wallet.deposit(TransactionId(1), Amount::new(112345, 5)),
        Err(EngineError::InvalidPrecision(TransactionId(1)))
    );
    assert_eq!(wallet.deposit(TransactionId(2), Amount::new(11234, 4)), Ok(()));
    assert_eq!(Account::from(wallet).total, Amount::new(11234, 4));
}

#[test]
fn dispute_of_unknown_transaction_is_not_found() {
    let mut wallet = AccountWallet::new(ClientId(1));
    assert_eq!(wallet.deposit(TransactionId(1), Amount::new(1, 0)), Ok(()));
    assert_eq!(
        wallet.dispute(TransactionId(99)),
        Err(EngineError::TransactionNotFound(TransactionId(99)))
    );
}

#[test]
fn interleaved_clients_match_separate_runs() {
    let client_one = [deposit(1, 1, 10, 0), dispute(1, 1), withdrawal(1, 3, 1, 0), resolve(1, 1)];
    let client_two = [deposit(2, 2, 25, 1), withdrawal(2, 4, 5, 1), deposit(2, 5, 1, 4)];
    let interleaved = [
        client_one[0], client_two[0], client_two[1], client_one[1], client_one[2], client_two[2],
        client_one[3],
    ];

    let together = run_worker(&interleaved);
    let alone_one = run_worker(&client_one);
    let alone_two = run_worker(&client_two);

    assert_eq!(together, vec![alone_one[0], alone_two[0]]);
    assert_eq!(together[0], account(1, (10, 0), (0, 0), (10, 0), false));
    assert_eq!(together[1], account(2, (20001, 4), (0, 0), (20001, 4), false));
}

#[test]
fn rejected_transaction_still_creates_ledger() {
    let accounts = run_worker(&[dispute(5, 1), deposit(6, 2, 1, 0)]);
    assert_eq!(
        accounts,
        vec![account(5, (0, 0), (0, 0), (0, 0), false), account(6, (1, 0), (0, 0), (1, 0), false)]
    );
}

#[test]
fn engine_routes_by_client_modulo_pool() {
    let mut engine = PaymentEngine::new(3);
    let first = engine.process(&deposit(7, 1, 1, 0));
    assert_eq!(first.shard, 1);
    assert!(first.start);
    let again = engine.process(&deposit(4, 2, 1, 0));
    assert_eq!(again.shard, 1);
    assert!(!again.start);
    let other = engine.process(&dispute(3, 9));
    assert_eq!(other.shard, 0);
    assert!(other.start);
}

#[test]
fn default_engine_has_ten_shards() {
    let engine = PaymentEngine::default();
    assert_eq!(engine.workers_size(), 10);
    assert_eq!(engine.buffer_size(), 100);
}

#[test]
fn engine_report_collects_every_client() {
    let report = run_engine(
        2,
        &[
            deposit(1, 1, 10, 1),
            deposit(2, 2, 20, 1),
            deposit(1, 3, 5, 1),
            dispute(1, 1),
            chargeback(1, 1),
            withdrawal(2, 4, 0, 0),
        ],
    );
    let mut rows = report.accounts().clone();
    rows.sort_by_key(|a| a.client.0);
    assert_eq!(
        rows,
        vec![account(1, (5, 1), (0, 0), (5, 1), true), account(2, (2, 0), (0, 0), (2, 0), false)]
    );
}

#[test]
fn report_renders_header_and_rows() {
    let report = Report::new(vec![
        account(2, (2, 0), (0, 0), (2, 0), false),
        account(1, (5, 1), (0, 0), (5, 1), true),
    ]);
    assert_eq!(
        report.render(),
        "client,available,held,total,locked\n2,2,0,2,false\n1,0.5,0,0.5,true\n"
    );
}

#[test]
fn empty_report_renders_header_only() {
    assert_eq!(Report::new(vec![]).render(), "client,available,held,total,locked\n");
}

#[test]
fn amount_text_is_decimal() {
    assert_eq!(Amount::new(12345, 4).to_text(), "1.2345");
    assert_eq!(Amount::new(-15, 1).to_text(), "-1.5");
    assert_eq!(Amount::new(7, 0).to_text(), "7");
}

#[test]
fn units_are_normalised() {
    assert_eq!(Amount::from_units(35000), Amount::new(35, 1));
    assert_eq!(Amount::from_units(0), Amount::new(0, 0));
    assert_eq!(Amount::from_units(12345), Amount::new(12345, 4));
    assert_eq!(Amount::from_units(1200), Amount::new(12, 2));
}

#[test]
fn report_line_joins_fields() {
    assert_eq!(render_line("3", "1.5", "0", "1.5", false), "3,1.5,0,1.5,false\n");
    assert_eq!(render_line("", "", "", "", true), ",,,,true\n");
}
