use payment_engine::errors::EngineError;
use payment_engine::model::account::Account;
use payment_engine::model::amount::Amount;
use payment_engine::model::client::ClientId;
use payment_engine::model::trade::TransactionId;
use payment_engine::processing::wallet::AccountWallet;


#[test]
fn deposit_negative_amount() {
    let mut wallet = AccountWallet::new(ClientId(1));

    let trade = TransactionId(1);
    let amount = Amount::new(-15, 1);

    let confirmation = wallet.deposit(trade, amount);

    assert!(confirmation.is_err());
    assert_eq!(confirmation, Err(EngineError::NegativeAmount(trade)));
}

#[test]
fn deposit_zero_amount() {
    let mut wallet = AccountWallet::new(ClientId(1));

    let trade = TransactionId(1);
    let amount = Amount::new(0, 1);

    let confirmation = wallet.deposit(trade, amount);

    assert!(confirmation.is_err());
    assert_eq!(confirmation, Err(EngineError::NegativeAmount(trade)));
}

#[test]
fn deposit_positive_amount() {
    let mut wallet = AccountWallet::new(ClientId(1));

    let trade = TransactionId(1);
    let amount = Amount::new(15, 1);

    let confirmation = wallet.deposit(trade, amount);

    assert!(confirmation.is_ok());

    let trade = TransactionId(2);
    let amount = Amount::new(20, 1);

    let confirmation = wallet.deposit(trade, amount);

    assert!(confirmation.is_ok());

    let account: Account = Account::from(wallet);

    assert_eq!(account.client, ClientId(1));
    assert_eq!(account.available, Amount::new(35, 1));
    assert_eq!(account.held, Amount::new(0, 0));
    assert_eq!(account.total, Amount::new(35, 1));
    assert_eq!(account.locked, false);
}

#[test]
fn deposit_past_largest_balance_overflows() {
    let mut wallet = AccountWallet::new(ClientId(1));
    let largest = Amount::new(79228162514264337593543950335, 4);

    assert_eq!(wallet.deposit(TransactionId(1), largest), Ok(()));
    assert_eq!(
        wallet.deposit(TransactionId(2), Amount::new(1, 4)),
        Err(EngineError::AmountOverflow(TransactionId(2)))
    );

    let account = Account::from(wallet);
    assert_eq!(account.total, Amount::new(79228162514264337593543950335, 4));
}

#[test]
fn deposit_mantissa_past_decimal_range_overflows() {
    let mut wallet = AccountWallet::new(ClientId(1));

    assert_eq!(
        wallet.deposit(TransactionId(1), Amount::new(79228162514264337593543950336, 0)),
        Err(EngineError::AmountOverflow(TransactionId(1)))
    );
}
