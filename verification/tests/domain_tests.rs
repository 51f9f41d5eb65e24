use accounting_engine::{
    parse_args, AccountingEngine, Amount, ArgsError, CustomerId, RowError, Transaction,
    TransactionId, TransactionKind,
};

const ONE: i128 = 10_000;

#[test]
fn test_from_row_deposit() {
    let r = Transaction::from_row(
        TransactionKind::Deposit,
        CustomerId::new(1),
        TransactionId::new(7),
        Some(Amount::new(ONE)),
    );
    assert_eq!(
        r,
        Ok(Transaction::Deposit {
            client: CustomerId::new(1),
            tx: TransactionId::new(7),
            amount: Amount::new(ONE),
        })
    );
}

#[test]
fn test_from_row_withdrawal() {
    let r = Transaction::from_row(
        TransactionKind::Withdrawal,
        CustomerId::new(2),
        TransactionId::new(8),
        Some(Amount::new(3 * ONE)),
    );
    assert_eq!(
        r,
        Ok(Transaction::Withdrawal {
            client: CustomerId::new(2),
            tx: TransactionId::new(8),
            amount: Amount::new(3 * ONE),
        })
    );
}

#[test]
fn test_from_row_dispute_resolve_chargeback() {
    let client = CustomerId::new(1);
    let tx = TransactionId::new(9);
    assert_eq!(
        Transaction::from_row(TransactionKind::Dispute, client, tx, None),
        Ok(Transaction::Dispute { client, tx })
    );
    assert_eq!(
        Transaction::from_row(TransactionKind::Resolve, client, tx, None),
        Ok(Transaction::Resolve { client, tx })
    );
    assert_eq!(
        Transaction::from_row(TransactionKind::Chargeback, client, tx, None),
        Ok(Transaction::Chargeback { client, tx })
    );
}

#[test]
fn test_from_row_missing_amount() {
    let client = CustomerId::new(1);
    let tx = TransactionId::new(1);
    assert_eq!(
        Transaction::from_row(TransactionKind::Deposit, client, tx, None),
        Err(RowError::MissingAmount)
    );
    assert_eq!(
        Transaction::from_row(TransactionKind::Withdrawal, client, tx, None),
        Err(RowError::MissingAmount)
    );
}

#[test]
fn test_from_row_unexpected_amount() {
    let client = CustomerId::new(1);
    let tx = TransactionId::new(1);
    let amount = Some(Amount::new(ONE));
    assert_eq!(
        Transaction::from_row(TransactionKind::Dispute, client, tx, amount),
        Err(RowError::UnexpectedAmount)
    );
    assert_eq!(
        Transaction::from_row(TransactionKind::Resolve, client, tx, amount),
        Err(RowError::UnexpectedAmount)
    );
    assert_eq!(
        Transaction::from_row(TransactionKind::Chargeback, client, tx, amount),
        Err(RowError::UnexpectedAmount)
    );
}

#[test]
fn test_handle_transaction_dispatch() {
    let mut engine = AccountingEngine::default();
    let client = CustomerId::new(1);
    assert!(engine.handle_transaction(Transaction::Deposit {
        client,
        tx: TransactionId::new(1),
        amount: Amount::new(ONE),
    }));
    assert!(engine.handle_transaction(Transaction::Withdrawal {
        client,
        tx: TransactionId::new(2),
        amount: Amount::new(ONE / 4),
    }));
    assert!(engine.handle_transaction(Transaction::Dispute {
        client,
        tx: TransactionId::new(1),
    }));
    assert!(engine.handle_transaction(Transaction::Resolve {
        client,
        tx: TransactionId::new(1),
    }));
    assert!(!engine.handle_transaction(Transaction::Chargeback {
        client,
        tx: TransactionId::new(1),
    }));
    let states = engine.account_states();
    assert_eq!(states.len(), 1);
    assert_eq!(states[0].available, Amount::new(ONE - ONE / 4));
    assert_eq!(states[0].held, Amount::new(0));
    assert!(!states[0].locked);
}

#[test]
fn test_identifier_and_amount_accessors() {
    assert_eq!(CustomerId::new(5).value(), 5);
    assert_eq!(TransactionId::new(70_000).value(), 70_000);
    assert_eq!(Amount::new(-ONE).units(), -ONE);
}

#[test]
fn test_parse_args_ok() {
    let args = vec!["prog".to_string(), "input.csv".to_string()];
    assert_eq!(parse_args(&args), Ok("input.csv".to_string()));
}

#[test]
fn test_parse_args_missing_input() {
    assert_eq!(parse_args(&vec![]), Err(ArgsError::MissingInput));
    assert_eq!(
        parse_args(&vec!["prog".to_string()]),
        Err(ArgsError::MissingInput)
    );
}

#[test]
fn test_parse_args_too_many() {
    let args = vec![
        "prog".to_string(),
        "a.csv".to_string(),
        "b.csv".to_string(),
    ];
    assert_eq!(parse_args(&args), Err(ArgsError::TooManyArgs));
}
