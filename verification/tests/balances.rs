use mini_runtime::balances::Pallet;
use mini_runtime::support::DispatchError;

#[test]
fn init_balances() {
    let mut balances = Pallet::new();
    assert_eq!(balances.balance(&"alice".to_string()), 0);

    balances.set_balance(&"alice".to_string(), 100);
    assert_eq!(balances.balance(&"alice".to_string()), 100);
    assert_eq!(balances.balance(&"bob".to_string()), 0);
}

#[test]
fn transfer_balance() {
    let mut balances = Pallet::new();

    assert_eq!(
        balances.transfer(&"alice".to_string(), &"bob".to_string(), 51),
        Err(DispatchError::InsufficientFunds)
    );

    balances.set_balance(&"alice".to_string(), 100);
    assert_eq!(
        balances.transfer(&"alice".to_string(), &"bob".to_string(), 51),
        Ok(())
    );
    assert_eq!(balances.balance(&"alice".to_string()), 49);
    assert_eq!(balances.balance(&"bob".to_string()), 51);

    assert_eq!(
        balances.transfer(&"alice".to_string(), &"bob".to_string(), 51),
        Err(DispatchError::InsufficientFunds)
    );
}

#[test]
fn transfer_overflow_leaves_ledger_untouched() {
    let mut balances = Pallet::new();
    balances.set_balance(&"alice".to_string(), 1);
    balances.set_balance(&"bob".to_string(), u128::MAX);

    assert_eq!(
        balances.transfer(&"alice".to_string(), &"bob".to_string(), 1),
        Err(DispatchError::Overflow)
    );
    assert_eq!(balances.balance(&"alice".to_string()), 1);
    assert_eq!(balances.balance(&"bob".to_string()), u128::MAX);
}

#[test]
fn transfer_conserves_total() {
    let mut balances = Pallet::new();
    balances.set_balance(&"alice".to_string(), 70);
    balances.set_balance(&"bob".to_string(), 30);

    assert_eq!(
        balances.transfer(&"alice".to_string(), &"bob".to_string(), 70),
        Ok(())
    );
    assert_eq!(balances.balance(&"alice".to_string()), 0);
    assert_eq!(balances.balance(&"bob".to_string()), 100);
}

#[test]
fn set_balance_overwrites() {
    let mut balances = Pallet::new();
    balances.set_balance(&"alice".to_string(), 100);
    balances.set_balance(&"alice".to_string(), 7);
    assert_eq!(balances.balance(&"alice".to_string()), 7);
}

#[test]
fn transfer_to_self_conserves_balance() {
    // The recipient's balance is read after the debit has landed, so a
    // self-transfer nets to no change and can never overflow.
    let mut balances = Pallet::new();
    balances.set_balance(&"alice".to_string(), 100);
    assert_eq!(
        balances.transfer(&"alice".to_string(), &"alice".to_string(), 10),
        Ok(())
    );
    assert_eq!(balances.balance(&"alice".to_string()), 100);

    balances.set_balance(&"bob".to_string(), u128::MAX);
    assert_eq!(
        balances.transfer(&"bob".to_string(), &"bob".to_string(), u128::MAX),
        Ok(())
    );
    assert_eq!(balances.balance(&"bob".to_string()), u128::MAX);

    assert_eq!(
        balances.transfer(&"alice".to_string(), &"alice".to_string(), 101),
        Err(DispatchError::InsufficientFunds)
    );
    assert_eq!(balances.balance(&"alice".to_string()), 100);
}
