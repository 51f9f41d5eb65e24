use vstd::prelude::*;

verus! {

/// A monetary amount, stored as a fixed-point decimal: a signed count of
/// ten-thousandths of one currency unit (four decimal places of precision).
/// `Amount::new(10_000)` is one whole unit.
#[derive(Clone, Copy, Debug, PartialEq, Eq, Structural)]
pub struct Amount {
    units: i128,
}

impl View for Amount {
    type V = int;

    closed spec fn view(&self) -> int {
        self.units as int
    }
}

impl Amount {
    /// Builds an amount from a count of ten-thousandths of a unit.
    pub fn new(units: i128) -> (r: Amount)
        ensures
            r@ == units as int,
    {
        Amount { units }
    }

    /// The amount as a count of ten-thousandths of a unit.
    pub fn units(&self) -> (r: i128)
        ensures
            r as int == self@,
    {
        self.units
    }
}

/// A decoded transaction record, one of the five operations the engine
/// understands. Deposits and withdrawals carry an amount; the dispute
/// lifecycle operations refer to a prior transaction by id only.
#[derive(Clone, Copy, Debug, PartialEq, Eq, Structural)]
pub enum Transaction {
    Deposit { client: CustomerId, tx: TransactionId, amount: Amount },
    Withdrawal { client: CustomerId, tx: TransactionId, amount: Amount },
    Dispute { client: CustomerId, tx: TransactionId },
    Resolve { client: CustomerId, tx: TransactionId },
    Chargeback { client: CustomerId, tx: TransactionId },
}

/// The mathematical shape of a [`Transaction`]: identifiers as plain
/// integers and the amount as an unbounded integer count of
/// ten-thousandths of a unit.
pub enum TransactionView {
    Deposit { client: u16, tx: u32, amount: int },
    Withdrawal { client: u16, tx: u32, amount: int },
    Dispute { client: u16, tx: u32 },
    Resolve { client: u16, tx: u32 },
    Chargeback { client: u16, tx: u32 },
}

impl View for Transaction {
    type V = TransactionView;

    open spec fn view(&self) -> TransactionView {
        match *self {
            Transaction::Deposit { client, tx, amount } => (TransactionView::Deposit {
                client: client@,
                tx: tx@,
                amount: amount@,
            }),
            Transaction::Withdrawal { client, tx, amount } => (TransactionView::Withdrawal {
                client: client@,
                tx: tx@,
                amount: amount@,
            }),
            Transaction::Dispute { client, tx } => (TransactionView::Dispute {
                client: client@,
                tx: tx@,
            }),
            Transaction::Resolve { client, tx } => (TransactionView::Resolve {
                client: client@,
                tx: tx@,
            }),
            Transaction::Chargeback { client, tx } => (TransactionView::Chargeback {
                client: client@,
                tx: tx@,
            }),
        }
    }
}

/// The five transaction type tags a record may carry.
#[derive(Clone, Copy, Debug, PartialEq, Eq, Structural)]
pub enum TransactionKind {
    Deposit,
    Withdrawal,
    Dispute,
    Resolve,
    Chargeback,
}

/// A structural decoding failure: the amount field does not fit the
/// transaction type. Such a record must never reach the engine.
#[derive(Clone, Copy, Debug, PartialEq, Eq, Structural)]
pub enum RowError {
    /// A deposit or withdrawal record without an amount.
    MissingAmount,
    /// A dispute, resolve or chargeback record with an amount.
    UnexpectedAmount,
}

/// What decoding a record must return: deposits and withdrawals require
/// an amount, the dispute lifecycle operations forbid one.
pub open spec fn row_result(
    kind: TransactionKind,
    client: CustomerId,
    tx: TransactionId,
    amount: Option<Amount>,
) -> Result<Transaction, RowError> {
    match kind {
        TransactionKind::Deposit => match amount {
            Some(a) => Ok(Transaction::Deposit { client, tx, amount: a }),
            None => Err(RowError::MissingAmount),
        },
        TransactionKind::Withdrawal => match amount {
            Some(a) => Ok(Transaction::Withdrawal { client, tx, amount: a }),
            None => Err(RowError::MissingAmount),
        },
        TransactionKind::Dispute => match amount {
            Some(_) => Err(RowError::UnexpectedAmount),
            None => Ok(Transaction::Dispute { client, tx }),
        },
        TransactionKind::Resolve => match amount {
            Some(_) => Err(RowError::UnexpectedAmount),
            None => Ok(Transaction::Resolve { client, tx }),
        },
        TransactionKind::Chargeback => match amount {
            Some(_) => Err(RowError::UnexpectedAmount),
            None => Ok(Transaction::Chargeback { client, tx }),
        },
    }
}

impl Transaction {
    /// Decodes one structurally checked record into a transaction:
    /// the amount must be present for deposits and withdrawals and
    /// absent for disputes, resolves and chargebacks.
    pub fn from_row(
        kind: TransactionKind,
        client: CustomerId,
        tx: TransactionId,
        amount: Option<Amount>,
    ) -> (r: Result<Transaction, RowError>)
        ensures
            r == row_result(kind, client, tx, amount),
    {
        match kind {
            TransactionKind::Deposit => match amount {
                Some(a) => Ok(Transaction::Deposit { client, tx, amount: a }),
                None => Err(RowError::MissingAmount),
            },
            TransactionKind::Withdrawal => match amount {
                Some(a) => Ok(Transaction::Withdrawal { client, tx, amount: a }),
                None => Err(RowError::MissingAmount),
            },
            TransactionKind::Dispute => match amount {
                Some(_) => Err(RowError::UnexpectedAmount),
                None => Ok(Transaction::Dispute { client, tx }),
            },
            TransactionKind::Resolve => match amount {
                Some(_) => Err(RowError::UnexpectedAmount),
                None => Ok(Transaction::Resolve { client, tx }),
            },
            TransactionKind::Chargeback => match amount {
                Some(_) => Err(RowError::UnexpectedAmount),
                None => Ok(Transaction::Chargeback { client, tx }),
            },
        }
    }
}

/// An opaque customer identifier.
#[derive(Clone, Copy, Debug, PartialEq, Eq, Structural)]
pub struct CustomerId {
    id: u16,
}

impl View for CustomerId {
    type V = u16;

    closed spec fn view(&self) -> u16 {
        self.id
    }
}

impl CustomerId {
    pub fn new(id: u16) -> (r: CustomerId)
        ensures
            r@ == id,
    {
        CustomerId { id }
    }

    /// The numeric value of the identifier.
    pub fn value(&self) -> (r: u16)
        ensures
            r == self@,
    {
        self.id
    }
}

/// An opaque transaction identifier, globally unique across an input stream.
#[derive(Clone, Copy, Debug, PartialEq, Eq, Structural)]
pub struct TransactionId {
    id: u32,
}

impl View for TransactionId {
    type V = u32;

    closed spec fn view(&self) -> u32 {
        self.id
    }
}

impl TransactionId {
    pub fn new(id: u32) -> (r: TransactionId)
        ensures
            r@ == id,
    {
        TransactionId { id }
    }

    /// The numeric value of the identifier.
    pub fn value(&self) -> (r: u32)
        ensures
            r == self@,
    {
        self.id
    }
}

/// One row of the final per-customer snapshot. The `total` field is
/// always the sum of `available` and `held`: it is derived on read,
/// never stored.
#[derive(Clone, Copy, Debug, PartialEq, Eq, Structural)]
pub struct AccountState {
    pub client: CustomerId,
    pub available: Amount,
    pub held: Amount,
    pub total: Amount,
    pub locked: bool,
}

} // verus!
