use accounting_engine::{AccountingEngine, Amount, CustomerId, TransactionId};

const CLIENT: u16 = 1;

// One currency unit, at four decimal places of precision.
const ONE: i128 = 10_000;

fn client() -> CustomerId {
    CustomerId::new(CLIENT)
}

fn check_account(
    engine: &AccountingEngine,
    client: CustomerId,
    available: Amount,
    held: Amount,
    locked: bool,
) {
    let states = engine.account_states();
    let state = states
        .iter()
        .find(|s| s.client == client)
        .expect("Account must exist");
    assert_eq!(state.available, available);
    assert_eq!(state.held, held);
    assert_eq!(state.locked, locked);
}

#[test]
fn test_deposit() {
    let mut engine = AccountingEngine::default();
    assert!(engine.deposit(client(), TransactionId::new(1), Amount::new(ONE)));
    check_account(&engine, client(), Amount::new(ONE), Amount::new(0), false);
}

#[test]
fn test_deposit_withdraw_all() {
    let mut engine = AccountingEngine::default();
    assert!(engine.deposit(client(), TransactionId::new(1), Amount::new(ONE)));
    assert!(engine.withdraw(client(), TransactionId::new(2), Amount::new(ONE)));
    check_account(&engine, client(), Amount::new(0), Amount::new(0), false);
}

#[test]
fn test_deposit_withdraw_insufficient_funds() {
    let mut engine = AccountingEngine::default();
    assert!(engine.deposit(client(), TransactionId::new(1), Amount::new(ONE)));
    assert!(!engine.withdraw(client(), TransactionId::new(2), Amount::new(2 * ONE)));
    check_account(&engine, client(), Amount::new(ONE), Amount::new(0), false);
}

#[test]
fn test_dispute_resolve() {
    let mut engine = AccountingEngine::default();
    assert!(engine.deposit(client(), TransactionId::new(1), Amount::new(ONE)));

    assert!(engine.dispute(client(), TransactionId::new(1)));
    check_account(&engine, client(), Amount::new(0), Amount::new(ONE), false);

    assert!(engine.resolve(client(), TransactionId::new(1)));
    check_account(&engine, client(), Amount::new(ONE), Amount::new(0), false);
}

#[test]
fn test_dispute_chargeback() {
    let mut engine = AccountingEngine::default();
    assert!(engine.deposit(client(), TransactionId::new(1), Amount::new(ONE)));

    assert!(engine.dispute(client(), TransactionId::new(1)));
    check_account(&engine, client(), Amount::new(0), Amount::new(ONE), false);

    assert!(engine.chargeback(client(), TransactionId::new(1)));
    check_account(&engine, client(), Amount::new(0), Amount::new(0), true);
}

#[test]
fn test_dispute_twice() {
    let mut engine = AccountingEngine::default();
    assert!(engine.deposit(client(), TransactionId::new(1), Amount::new(ONE)));

    assert!(engine.dispute(client(), TransactionId::new(1)));
    assert!(engine.resolve(client(), TransactionId::new(1)));

    assert!(!engine.dispute(client(), TransactionId::new(1)));
    check_account(&engine, client(), Amount::new(ONE), Amount::new(0), false);
}

#[test]
fn test_locked() {
    // A locked account holding one unit of available funds, with
    // transaction ids 1 and 2 still unused: funded by two deposits,
    // then locked by charging the second one back.
    let mut engine = AccountingEngine::default();
    assert!(engine.deposit(client(), TransactionId::new(100), Amount::new(ONE)));
    assert!(engine.deposit(client(), TransactionId::new(101), Amount::new(ONE)));
    assert!(engine.dispute(client(), TransactionId::new(101)));
    assert!(engine.chargeback(client(), TransactionId::new(101)));
    check_account(&engine, client(), Amount::new(ONE), Amount::new(0), true);

    assert!(!engine.deposit(client(), TransactionId::new(1), Amount::new(ONE)));
    assert!(!engine.withdraw(client(), TransactionId::new(2), Amount::new(ONE)));
    assert!(!engine.dispute(client(), TransactionId::new(1)));
    check_account(&engine, client(), Amount::new(ONE), Amount::new(0), true);
}

#[test]
fn test_dispute_resolve_unavailable_funds() {
    let mut engine = AccountingEngine::default();
    assert!(engine.deposit(client(), TransactionId::new(1), Amount::new(ONE)));
    assert!(engine.withdraw(client(), TransactionId::new(2), Amount::new(ONE)));

    assert!(engine.dispute(client(), TransactionId::new(1)));
    check_account(&engine, client(), Amount::new(-ONE), Amount::new(ONE), false);

    assert!(engine.resolve(client(), TransactionId::new(1)));
    check_account(&engine, client(), Amount::new(0), Amount::new(0), false);
}

#[test]
fn test_dispute_chargeback_unavailable_funds() {
    let mut engine = AccountingEngine::default();
    assert!(engine.deposit(client(), TransactionId::new(1), Amount::new(ONE)));
    assert!(engine.withdraw(client(), TransactionId::new(2), Amount::new(ONE)));

    assert!(engine.dispute(client(), TransactionId::new(1)));
    check_account(&engine, client(), Amount::new(-ONE), Amount::new(ONE), false);

    assert!(engine.chargeback(client(), TransactionId::new(1)));
    check_account(&engine, client(), Amount::new(-ONE), Amount::new(0), true);
}

#[test]
fn test_duplicate_tx_rejected() {
    let mut engine = AccountingEngine::default();
    assert!(engine.deposit(client(), TransactionId::new(1), Amount::new(ONE)));
    assert!(!engine.deposit(client(), TransactionId::new(1), Amount::new(ONE)));
    assert!(!engine.withdraw(client(), TransactionId::new(1), Amount::new(ONE)));
    check_account(&engine, client(), Amount::new(ONE), Amount::new(0), false);
}

#[test]
fn test_dispute_of_withdrawal_rejected() {
    let mut engine = AccountingEngine::default();
    assert!(engine.deposit(client(), TransactionId::new(1), Amount::new(ONE)));
    assert!(engine.withdraw(client(), TransactionId::new(2), Amount::new(ONE / 2)));
    assert!(!engine.dispute(client(), TransactionId::new(2)));
    check_account(&engine, client(), Amount::new(ONE / 2), Amount::new(0), false);
}

#[test]
fn test_locked_account_allows_dispute_lifecycle() {
    let mut engine = AccountingEngine::default();
    assert!(engine.deposit(client(), TransactionId::new(1), Amount::new(ONE)));
    assert!(engine.deposit(client(), TransactionId::new(2), Amount::new(ONE)));
    assert!(engine.dispute(client(), TransactionId::new(2)));
    assert!(engine.chargeback(client(), TransactionId::new(2)));
    check_account(&engine, client(), Amount::new(ONE), Amount::new(0), true);

    assert!(engine.dispute(client(), TransactionId::new(1)));
    check_account(&engine, client(), Amount::new(0), Amount::new(ONE), true);
    assert!(engine.resolve(client(), TransactionId::new(1)));
    check_account(&engine, client(), Amount::new(ONE), Amount::new(0), true);
}

#[test]
fn test_resolve_twice_rejected() {
    let mut engine = AccountingEngine::default();
    assert!(engine.deposit(client(), TransactionId::new(1), Amount::new(ONE)));
    assert!(engine.dispute(client(), TransactionId::new(1)));
    assert!(engine.resolve(client(), TransactionId::new(1)));
    assert!(!engine.resolve(client(), TransactionId::new(1)));
    assert!(!engine.chargeback(client(), TransactionId::new(1)));
    check_account(&engine, client(), Amount::new(ONE), Amount::new(0), false);
}

#[test]
fn test_chargeback_twice_rejected() {
    let mut engine = AccountingEngine::default();
    assert!(engine.deposit(client(), TransactionId::new(1), Amount::new(ONE)));
    assert!(engine.dispute(client(), TransactionId::new(1)));
    assert!(engine.chargeback(client(), TransactionId::new(1)));
    assert!(!engine.chargeback(client(), TransactionId::new(1)));
    assert!(!engine.resolve(client(), TransactionId::new(1)));
    check_account(&engine, client(), Amount::new(0), Amount::new(0), true);
}

#[test]
fn test_dispute_wrong_client_rejected() {
    let mut engine = AccountingEngine::default();
    assert!(engine.deposit(client(), TransactionId::new(1), Amount::new(ONE)));
    assert!(!engine.dispute(CustomerId::new(2), TransactionId::new(1)));
    check_account(&engine, client(), Amount::new(ONE), Amount::new(0), false);
}

#[test]
fn test_dispute_unknown_tx_rejected() {
    let mut engine = AccountingEngine::default();
    assert!(!engine.dispute(client(), TransactionId::new(9)));
    assert!(!engine.resolve(client(), TransactionId::new(9)));
    assert!(!engine.chargeback(client(), TransactionId::new(9)));
    assert!(engine.account_states().is_empty());
}

#[test]
fn test_rejected_withdrawal_still_creates_account() {
    let mut engine = AccountingEngine::default();
    assert!(!engine.withdraw(CustomerId::new(7), TransactionId::new(1), Amount::new(ONE)));
    let states = engine.account_states();
    assert_eq!(states.len(), 1);
    assert_eq!(states[0].client, CustomerId::new(7));
    assert_eq!(states[0].available, Amount::new(0));
    assert_eq!(states[0].held, Amount::new(0));
    assert_eq!(states[0].total, Amount::new(0));
    assert!(!states[0].locked);
}

#[test]
fn test_snapshot_total_is_available_plus_held() {
    let mut engine = AccountingEngine::default();
    assert!(engine.deposit(client(), TransactionId::new(1), Amount::new(3 * ONE)));
    assert!(engine.deposit(client(), TransactionId::new(2), Amount::new(2 * ONE)));
    assert!(engine.dispute(client(), TransactionId::new(2)));
    let states = engine.account_states();
    assert_eq!(states.len(), 1);
    assert_eq!(states[0].available, Amount::new(3 * ONE));
    assert_eq!(states[0].held, Amount::new(2 * ONE));
    assert_eq!(
        states[0].total.units(),
        states[0].available.units() + states[0].held.units()
    );
    assert_eq!(states[0].total, Amount::new(5 * ONE));
}

#[test]
fn test_snapshot_lists_clients_in_first_touch_order() {
    let mut engine = AccountingEngine::default();
    assert!(engine.deposit(CustomerId::new(3), TransactionId::new(1), Amount::new(ONE)));
    assert!(engine.deposit(CustomerId::new(1), TransactionId::new(2), Amount::new(2 * ONE)));
    assert!(engine.deposit(CustomerId::new(3), TransactionId::new(3), Amount::new(ONE)));
    let states = engine.account_states();
    assert_eq!(states.len(), 2);
    assert_eq!(states[0].client, CustomerId::new(3));
    assert_eq!(states[0].available, Amount::new(2 * ONE));
    assert_eq!(states[1].client, CustomerId::new(1));
    assert_eq!(states[1].available, Amount::new(2 * ONE));
}
