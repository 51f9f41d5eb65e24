use vstd::prelude::*;

use std::collections::HashMap;

use crate::domain::{AccountState, Amount, CustomerId, Transaction, TransactionId, TransactionView};

verus! {

broadcast use vstd::std_specs::hash::group_hash_axioms, vstd::set::group_set_axioms;

/// Largest magnitude a single balance may take. Half of the `i128`
/// range, so that the total of two in-range balances always fits.
pub const BAL_LIMIT: i128 = 85070591730234615865843651857942052863i128;

/// Whether a value fits the representable balance range.
pub open spec fn in_range(x: int) -> bool {
    -BAL_LIMIT <= x <= BAL_LIMIT
}

fn amount_in_range(x: i128) -> (r: bool)
    ensures
        r == in_range(x as int),
{
    -BAL_LIMIT <= x && x <= BAL_LIMIT
}

/// One customer's mutable balance state. The total is never stored:
/// it is derived as `available + held` when a snapshot is taken.
#[derive(Clone, Copy, Debug, PartialEq, Eq, Structural)]
pub struct Account {
    /// Funds free to withdraw; may go negative when a deposit is
    /// disputed after its funds were already withdrawn.
    pub available: i128,
    /// Funds frozen pending dispute resolution.
    pub held: i128,
    /// Set permanently by a chargeback.
    pub locked: bool,
}

impl Account {
    /// The state of an account that has never been touched.
    pub open spec fn initial() -> Account {
        Account { available: 0, held: 0, locked: false }
    }
}

/// The recorded history of one transaction id, kept to validate later
/// disputes, resolves and chargebacks. Only deposits can be disputed,
/// so withdrawals carry no amount.
#[derive(Clone, Copy, Debug, PartialEq, Eq, Structural)]
pub enum TransactionState {
    /// A deposit that has not been disputed.
    Deposited { client: u16, amount: i128 },
    /// A withdrawal; never disputable.
    Withdrawn,
    /// A deposit whose amount is currently held.
    Disputed { client: u16, amount: i128 },
    /// A dispute released back to available funds; terminal.
    Resolved,
    /// A dispute that removed the funds and locked the account; terminal.
    ChargedBack,
}

/// The mathematical state of the engine: the per-customer accounts,
/// the customer ids in order of first touch, and the per-transaction
/// history.
#[verifier::ext_equal]
pub struct EngineView {
    pub accounts: Map<u16, Account>,
    pub clients: Seq<u16>,
    pub transactions: Map<u32, TransactionState>,
}

/// How much a recorded transaction contributes to the held balance of
/// client `c`: the amount if it is currently disputed by `c`, else zero.
pub open spec fn held_part(c: u16, ts: TransactionState) -> int {
    match ts {
        TransactionState::Disputed { client, amount } => if client == c {
            amount as int
        } else {
            0
        },
        _ => 0,
    }
}

/// The sum, over all recorded transactions, of the amounts currently
/// held in dispute by client `c`.
pub open spec fn held_sum(txs: Map<u32, TransactionState>, c: u16) -> int
    decreases txs.dom().len(),
{
    if txs.dom().finite() && txs.dom().len() > 0 {
        let t = txs.dom().choose();
        held_part(c, txs[t]) + held_sum(txs.remove(t), c)
    } else {
        0
    }
}

proof fn lemma_held_sum_remove(txs: Map<u32, TransactionState>, c: u16, t: u32)
    requires
        txs.dom().finite(),
        txs.contains_key(t),
    ensures
        held_sum(txs, c) == held_part(c, txs[t]) + held_sum(txs.remove(t), c),
    decreases txs.dom().len(),
{
    let t0 = txs.dom().choose();
    if t0 == t {
    } else {
        lemma_held_sum_remove(txs.remove(t0), c, t);
        lemma_held_sum_remove(txs.remove(t), c, t0);
        assert(txs.remove(t0).remove(t) =~= txs.remove(t).remove(t0));
    }
}

proof fn lemma_held_sum_insert_new(
    txs: Map<u32, TransactionState>,
    c: u16,
    t: u32,
    ts: TransactionState,
)
    requires
        txs.dom().finite(),
        !txs.contains_key(t),
    ensures
        held_sum(txs.insert(t, ts), c) == held_sum(txs, c) + held_part(c, ts),
{
    lemma_held_sum_remove(txs.insert(t, ts), c, t);
    assert(txs.insert(t, ts).remove(t) =~= txs);
}

proof fn lemma_held_sum_update(
    txs: Map<u32, TransactionState>,
    c: u16,
    t: u32,
    ts: TransactionState,
)
    requires
        txs.dom().finite(),
        txs.contains_key(t),
    ensures
        held_sum(txs.insert(t, ts), c) == held_sum(txs, c) - held_part(c, txs[t]) + held_part(c, ts),
{
    lemma_held_sum_remove(txs.insert(t, ts), c, t);
    lemma_held_sum_remove(txs, c, t);
    assert(txs.insert(t, ts).remove(t) =~= txs.remove(t));
}

pub proof fn lemma_held_sum_nonneg(txs: Map<u32, TransactionState>, c: u16)
    requires
        txs.dom().finite(),
        forall|t: u32| txs.contains_key(t) ==> #[trigger] held_part(c, txs[t]) >= 0,
    ensures
        held_sum(txs, c) >= 0,
    decreases txs.dom().len(),
{
    if txs.dom().finite() && txs.dom().len() > 0 {
        let t0 = txs.dom().choose();
        lemma_held_sum_nonneg(txs.remove(t0), c);
    }
}

proof fn lemma_held_sum_zero(txs: Map<u32, TransactionState>, c: u16)
    requires
        txs.dom().finite(),
        forall|t: u32| txs.contains_key(t) ==> #[trigger] held_part(c, txs[t]) == 0,
    ensures
        held_sum(txs, c) == 0,
    decreases txs.dom().len(),
{
    if txs.dom().finite() && txs.dom().len() > 0 {
        let t0 = txs.dom().choose();
        lemma_held_sum_zero(txs.remove(t0), c);
    }
}

/// Touching an account — creating it lazily with zero balances if the
/// customer was never seen — preserves well-formedness and does not
/// change which recorded amounts exist.
pub proof fn lemma_touch_preserves_inv(v: EngineView, c: u16)
    requires
        v.inv(),
    ensures
        v.touch(c).inv(),
        v.touch(c).amounts_nonneg() == v.amounts_nonneg(),
{
    if !v.accounts.contains_key(c) {
        let w = v.touch(c);
        assert forall|t: u32| v.transactions.contains_key(t) implies #[trigger] held_part(
            c,
            v.transactions[t],
        ) == 0 by {}
        lemma_held_sum_zero(v.transactions, c);
        assert forall|c2: u16| #[trigger]
            w.accounts.contains_key(c2) implies w.clients.contains(c2) by {
            if c2 == c {
                assert(w.clients[w.clients.len() - 1] == c);
            } else {
                let i = choose|i: int| 0 <= i < v.clients.len() && v.clients[i] == c2;
                assert(w.clients[i] == c2);
            }
        }
    }
}

/// Each of the five outcomes preserves well-formedness.
pub proof fn lemma_step_preserves_inv(v: EngineView, t: TransactionView)
    requires
        v.inv(),
    ensures
        v.step_outcome(t).inv(),
{
    match t {
        TransactionView::Deposit { client, tx, amount } => {
            lemma_touch_preserves_inv(v, client);
            if v.deposit_allowed(client, tx, amount) {
                let w = v.touch(client);
                let out = v.deposit_outcome(client, tx, amount);
                assert forall|c2: u16| #[trigger]
                    out.accounts.contains_key(c2) implies out.accounts[c2].held == held_sum(
                    out.transactions,
                    c2,
                ) by {
                    assert(w.accounts.contains_key(c2));
                    assert(w.accounts[c2].held == held_sum(w.transactions, c2));
                    lemma_held_sum_insert_new(
                        w.transactions,
                        c2,
                        tx,
                        TransactionState::Deposited { client, amount: amount as i128 },
                    );
                }
                assert forall|c2: u16| #[trigger]
                    out.accounts.contains_key(c2) implies out.clients.contains(c2) by {
                    assert(w.accounts.contains_key(c2));
                }
            }
        },
        TransactionView::Withdrawal { client, tx, amount } => {
            lemma_touch_preserves_inv(v, client);
            if v.withdraw_allowed(client, tx, amount) {
                let w = v.touch(client);
                let out = v.withdraw_outcome(client, tx, amount);
                assert forall|c2: u16| #[trigger]
                    out.accounts.contains_key(c2) implies out.accounts[c2].held == held_sum(
                    out.transactions,
                    c2,
                ) by {
                    assert(w.accounts.contains_key(c2));
                    assert(w.accounts[c2].held == held_sum(w.transactions, c2));
                    lemma_held_sum_insert_new(w.transactions, c2, tx, TransactionState::Withdrawn);
                }
                assert forall|c2: u16| #[trigger]
                    out.accounts.contains_key(c2) implies out.clients.contains(c2) by {
                    assert(w.accounts.contains_key(c2));
                }
            }
        },
        TransactionView::Dispute { client, tx } => {
            if v.dispute_allowed(client, tx) {
                let out = v.dispute_outcome(client, tx);
                assert forall|c2: u16| #[trigger]
                    out.accounts.contains_key(c2) implies out.accounts[c2].held == held_sum(
                    out.transactions,
                    c2,
                ) by {
                    lemma_held_sum_update(
                        v.transactions,
                        c2,
                        tx,
                        TransactionState::Disputed {
                            client,
                            amount: v.tx_amount(tx) as i128,
                        },
                    );
                }
                assert forall|c2: u16| #[trigger]
                    out.accounts.contains_key(c2) implies out.clients.contains(c2) by {
                    assert(v.accounts.contains_key(c2));
                }
            }
        },
        TransactionView::Resolve { client, tx } => {
            if v.resolve_allowed(client, tx) {
                let out = v.resolve_outcome(client, tx);
                assert forall|c2: u16| #[trigger]
                    out.accounts.contains_key(c2) implies out.accounts[c2].held == held_sum(
                    out.transactions,
                    c2,
                ) by {
                    lemma_held_sum_update(v.transactions, c2, tx, TransactionState::Resolved);
                }
                assert forall|c2: u16| #[trigger]
                    out.accounts.contains_key(c2) implies out.clients.contains(c2) by {
                    assert(v.accounts.contains_key(c2));
                }
            }
        },
        TransactionView::Chargeback { client, tx } => {
            if v.chargeback_allowed(client, tx) {
                let out = v.chargeback_outcome(client, tx);
                assert forall|c2: u16| #[trigger]
                    out.accounts.contains_key(c2) implies out.accounts[c2].held == held_sum(
                    out.transactions,
                    c2,
                ) by {
                    lemma_held_sum_update(v.transactions, c2, tx, TransactionState::ChargedBack);
                }
                assert forall|c2: u16| #[trigger]
                    out.accounts.contains_key(c2) implies out.clients.contains(c2) by {
                    assert(v.accounts.contains_key(c2));
                }
            }
        },
    }
}

impl EngineView {
    /// The state of a freshly created engine: nothing recorded.
    pub open spec fn initial() -> EngineView {
        EngineView {
            accounts: Map::empty(),
            clients: Seq::empty(),
            transactions: Map::empty(),
        }
    }

    /// The balance state of client `c`: the recorded account, or the
    /// zeroed unlocked default for a customer never seen.
    pub open spec fn acct(self, c: u16) -> Account {
        if self.accounts.contains_key(c) {
            self.accounts[c]
        } else {
            Account::initial()
        }
    }

    /// The state after client `c` is first referenced by a deposit or
    /// withdrawal: the account exists afterwards, created with zero
    /// balances if it did not. A rejected deposit or withdrawal still
    /// leaves this trace.
    pub open spec fn touch(self, c: u16) -> EngineView {
        if self.accounts.contains_key(c) {
            self
        } else {
            EngineView {
                accounts: self.accounts.insert(c, Account::initial()),
                clients: self.clients.push(c),
                transactions: self.transactions,
            }
        }
    }

    /// Well-formedness: the maps are finite, the client list mirrors
    /// the account map without duplicates, every balance and recorded
    /// amount is in range, every disputable record points at an
    /// existing account, and each held balance equals the sum of the
    /// amounts that client currently has in dispute.
    pub open spec fn inv(self) -> bool {
        &&& self.accounts.dom().finite()
        &&& self.transactions.dom().finite()
        &&& self.clients.no_duplicates()
        &&& forall|i: int|
            0 <= i < self.clients.len() ==> self.accounts.contains_key(#[trigger] self.clients[i])
        &&& forall|c: u16|
            #[trigger] self.accounts.contains_key(c) ==> self.clients.contains(c)
        &&& forall|c: u16|
            #[trigger] self.accounts.contains_key(c) ==> in_range(self.accounts[c].available as int)
                && in_range(self.accounts[c].held as int)
        &&& forall|t: u32|
            #[trigger] self.transactions.contains_key(t) ==> match self.transactions[t] {
                TransactionState::Deposited { client, amount } => self.accounts.contains_key(client)
                    && in_range(amount as int),
                TransactionState::Disputed { client, amount } => self.accounts.contains_key(client)
                    && in_range(amount as int),
                _ => true,
            }
        &&& forall|c: u16|
            #[trigger] self.accounts.contains_key(c) ==> self.accounts[c].held == held_sum(
                self.transactions,
                c,
            )
    }

    /// Whether every recorded deposit or dispute carries a
    /// non-negative amount.
    pub open spec fn amounts_nonneg(self) -> bool {
        forall|t: u32|
            #[trigger] self.transactions.contains_key(t) ==> match self.transactions[t] {
                TransactionState::Deposited { amount, .. } => amount >= 0,
                TransactionState::Disputed { amount, .. } => amount >= 0,
                _ => true,
            }
    }

    /// A deposit is applied unless the account is locked, the
    /// transaction id is already recorded, or a balance would leave
    /// the representable range.
    pub open spec fn deposit_allowed(self, c: u16, t: u32, m: int) -> bool {
        &&& !self.acct(c).locked
        &&& !self.transactions.contains_key(t)
        &&& in_range(m)
        &&& in_range(self.acct(c).available + m)
    }

    /// The state after a deposit request: the account exists in any
    /// case; on success the amount is added to available funds and
    /// the deposit is recorded.
    pub open spec fn deposit_outcome(self, c: u16, t: u32, m: int) -> EngineView {
        let touched = self.touch(c);
        if self.deposit_allowed(c, t, m) {
            EngineView {
                accounts: touched.accounts.insert(
                    c,
                    Account {
                        available: (self.acct(c).available + m) as i128,
                        held: self.acct(c).held,
                        locked: self.acct(c).locked,
                    },
                ),
                clients: touched.clients,
                transactions: touched.transactions.insert(
                    t,
                    TransactionState::Deposited { client: c, amount: m as i128 },
                ),
            }
        } else {
            touched
        }
    }

    /// A withdrawal is applied unless the account is locked, the
    /// available funds are short, the transaction id is already
    /// recorded, or a balance would leave the representable range.
    /// Sufficiency is judged strictly by available funds, never by
    /// the total.
    pub open spec fn withdraw_allowed(self, c: u16, t: u32, m: int) -> bool {
        &&& !self.acct(c).locked
        &&& self.acct(c).available >= m
        &&& !self.transactions.contains_key(t)
        &&& in_range(m)
        &&& in_range(self.acct(c).available - m)
    }

    /// The state after a withdrawal request: the account exists in
    /// any case; on success the amount leaves the available funds and
    /// the id is recorded without an amount, since withdrawals can
    /// never be disputed.
    pub open spec fn withdraw_outcome(self, c: u16, t: u32, m: int) -> EngineView {
        let touched = self.touch(c);
        if self.withdraw_allowed(c, t, m) {
            EngineView {
                accounts: touched.accounts.insert(
                    c,
                    Account {
                        available: (self.acct(c).available - m) as i128,
                        held: self.acct(c).held,
                        locked: self.acct(c).locked,
                    },
                ),
                clients: touched.clients,
                transactions: touched.transactions.insert(t, TransactionState::Withdrawn),
            }
        } else {
            touched
        }
    }

    /// Whether transaction `t` is recorded as an undisputed deposit
    /// made by client `c`.
    pub open spec fn deposited_by(self, c: u16, t: u32) -> bool {
        &&& self.transactions.contains_key(t)
        &&& self.transactions[t] matches TransactionState::Deposited { client, .. } && client == c
    }

    /// Whether transaction `t` is recorded as currently disputed by
    /// client `c`.
    pub open spec fn disputed_by(self, c: u16, t: u32) -> bool {
        &&& self.transactions.contains_key(t)
        &&& self.transactions[t] matches TransactionState::Disputed { client, .. } && client == c
    }

    /// The amount carried by the record of transaction `t` (zero for
    /// records that carry none).
    pub open spec fn tx_amount(self, t: u32) -> int {
        match self.transactions[t] {
            TransactionState::Deposited { amount, .. } => amount as int,
            TransactionState::Disputed { amount, .. } => amount as int,
            _ => 0,
        }
    }

    /// A dispute is applied only against an undisputed deposit made
    /// by the same client, and only if the moved balances stay in
    /// range. A locked account does not block it.
    pub open spec fn dispute_allowed(self, c: u16, t: u32) -> bool {
        &&& self.deposited_by(c, t)
        &&& in_range(self.acct(c).held + self.tx_amount(t))
        &&& in_range(self.acct(c).available - self.tx_amount(t))
    }

    /// The state after a dispute request: on success the deposited
    /// amount moves from available to held funds — driving available
    /// negative if those funds were already withdrawn — and the
    /// record becomes disputed. A rejected dispute changes nothing.
    pub open spec fn dispute_outcome(self, c: u16, t: u32) -> EngineView {
        if self.dispute_allowed(c, t) {
            let m = self.tx_amount(t);
            EngineView {
                accounts: self.accounts.insert(
                    c,
                    Account {
                        available: (self.acct(c).available - m) as i128,
                        held: (self.acct(c).held + m) as i128,
                        locked: self.acct(c).locked,
                    },
                ),
                clients: self.clients,
                transactions: self.transactions.insert(
                    t,
                    TransactionState::Disputed { client: c, amount: m as i128 },
                ),
            }
        } else {
            self
        }
    }

    /// A resolve is applied only against a transaction currently
    /// disputed by the same client, and only if the moved balances
    /// stay in range. A locked account does not block it.
    pub open spec fn resolve_allowed(self, c: u16, t: u32) -> bool {
        &&& self.disputed_by(c, t)
        &&& in_range(self.acct(c).held - self.tx_amount(t))
        &&& in_range(self.acct(c).available + self.tx_amount(t))
    }

    /// The state after a resolve request: on success the held amount
    /// returns to available funds and the record becomes resolved,
    /// which is terminal. A rejected resolve changes nothing.
    pub open spec fn resolve_outcome(self, c: u16, t: u32) -> EngineView {
        if self.resolve_allowed(c, t) {
            let m = self.tx_amount(t);
            EngineView {
                accounts: self.accounts.insert(
                    c,
                    Account {
                        available: (self.acct(c).available + m) as i128,
                        held: (self.acct(c).held - m) as i128,
                        locked: self.acct(c).locked,
                    },
                ),
                clients: self.clients,
                transactions: self.transactions.insert(t, TransactionState::Resolved),
            }
        } else {
            self
        }
    }

    /// A chargeback is applied only against a transaction currently
    /// disputed by the same client, and only if the held balance
    /// stays in range. A locked account does not block it.
    pub open spec fn chargeback_allowed(self, c: u16, t: u32) -> bool {
        &&& self.disputed_by(c, t)
        &&& in_range(self.acct(c).held - self.tx_amount(t))
    }

    /// The state after a chargeback request: on success the held
    /// amount is removed outright — the customer loses it — the
    /// account is locked permanently, and the record becomes charged
    /// back, which is terminal. A rejected chargeback changes nothing.
    pub open spec fn chargeback_outcome(self, c: u16, t: u32) -> EngineView {
        if self.chargeback_allowed(c, t) {
            let m = self.tx_amount(t);
            EngineView {
                accounts: self.accounts.insert(
                    c,
                    Account {
                        available: self.acct(c).available,
                        held: (self.acct(c).held - m) as i128,
                        locked: true,
                    },
                ),
                clients: self.clients,
                transactions: self.transactions.insert(t, TransactionState::ChargedBack),
            }
        } else {
            self
        }
    }

    /// Whether a transaction, dispatched on its type, is applied in
    /// this state.
    pub open spec fn step_allowed(self, t: TransactionView) -> bool {
        match t {
            TransactionView::Deposit { client, tx, amount } => self.deposit_allowed(
                client,
                tx,
                amount,
            ),
            TransactionView::Withdrawal { client, tx, amount } => self.withdraw_allowed(
                client,
                tx,
                amount,
            ),
            TransactionView::Dispute { client, tx } => self.dispute_allowed(client, tx),
            TransactionView::Resolve { client, tx } => self.resolve_allowed(client, tx),
            TransactionView::Chargeback { client, tx } => self.chargeback_allowed(client, tx),
        }
    }

    /// The state after a transaction, dispatched on its type.
    pub open spec fn step_outcome(self, t: TransactionView) -> EngineView {
        match t {
            TransactionView::Deposit { client, tx, amount } => self.deposit_outcome(
                client,
                tx,
                amount,
            ),
            TransactionView::Withdrawal { client, tx, amount } => self.withdraw_outcome(
                client,
                tx,
                amount,
            ),
            TransactionView::Dispute { client, tx } => self.dispute_outcome(client, tx),
            TransactionView::Resolve { client, tx } => self.resolve_outcome(client, tx),
            TransactionView::Chargeback { client, tx } => self.chargeback_outcome(client, tx),
        }
    }
}
/// The accounting engine: a pure in-memory state machine consuming one
/// transaction at a time and answering snapshot queries.
pub struct AccountingEngine {
    accounts: HashMap<u16, Account>,
    clients: Vec<u16>,
    transactions: HashMap<u32, TransactionState>,
}

impl View for AccountingEngine {
    type V = EngineView;

    closed spec fn view(&self) -> EngineView {
        EngineView {
            accounts: self.accounts@,
            clients: self.clients@,
            transactions: self.transactions@,
        }
    }
}

impl Default for AccountingEngine {
    /// An engine with no accounts and no recorded transactions.
    fn default() -> (r: AccountingEngine)
        ensures
            r@ == EngineView::initial(),
            r.wf(),
    {
        let r = AccountingEngine {
            accounts: HashMap::new(),
            clients: Vec::new(),
            transactions: HashMap::new(),
        };
        proof {
            assert(r@ =~= EngineView::initial());
        }
        r
    }
}

impl AccountingEngine {
    /// Well-formedness of the engine's internal state; established by
    /// `default` and preserved by every operation.
    pub open spec fn wf(self) -> bool {
        self@.inv()
    }

    /// Applies a deposit: adds the amount to the client's available
    /// funds and records the transaction id. Rejected (leaving only
    /// the lazily created account behind) if the account is locked,
    /// the id was already used, or a balance would leave the
    /// representable range.
    pub fn deposit(&mut self, client: CustomerId, tx: TransactionId, amount: Amount) -> (applied:
        bool)
        requires
            old(self).wf(),
        ensures
            final(self).wf(),
            applied == old(self)@.deposit_allowed(client@, tx@, amount@),
            final(self)@ == old(self)@.deposit_outcome(client@, tx@, amount@),
    {
        let c = client.value();
        let t = tx.value();
        let m = amount.units();
        if !self.accounts.contains_key(&c) {
            self.accounts.insert(c, Account { available: 0, held: 0, locked: false });
            self.clients.push(c);
            proof {
                lemma_touch_preserves_inv(old(self)@, c);
            }
        }
        assert(self@ == old(self)@.touch(c));
        let acct = *self.accounts.get(&c).unwrap();
        if acct.locked {
            return false;
        }
        if self.transactions.contains_key(&t) {
            return false;
        }
        if !amount_in_range(m) {
            return false;
        }
        let new_available = acct.available + m;
        if !amount_in_range(new_available) {
            return false;
        }
        self.transactions.insert(t, TransactionState::Deposited { client: c, amount: m });
        self.accounts.insert(
            c,
            Account { available: new_available, held: acct.held, locked: acct.locked },
        );
        proof {
            lemma_step_preserves_inv(
                old(self)@,
                TransactionView::Deposit { client: c, tx: t, amount: m as int },
            );
        }
        true
    }

    /// Applies a withdrawal: removes the amount from the client's
    /// available funds — judged strictly by available funds — and
    /// records the transaction id without an amount. Rejected
    /// (leaving only the lazily created account behind) if the
    /// account is locked, funds are insufficient, the id was already
    /// used, or a balance would leave the representable range.
    pub fn withdraw(&mut self, client: CustomerId, tx: TransactionId, amount: Amount) -> (applied:
        bool)
        requires
            old(self).wf(),
        ensures
            final(self).wf(),
            applied == old(self)@.withdraw_allowed(client@, tx@, amount@),
            final(self)@ == old(self)@.withdraw_outcome(client@, tx@, amount@),
    {
        let c = client.value();
        let t = tx.value();
        let m = amount.units();
        if !self.accounts.contains_key(&c) {
            self.accounts.insert(c, Account { available: 0, held: 0, locked: false });
            self.clients.push(c);
            proof {
                lemma_touch_preserves_inv(old(self)@, c);
            }
        }
        assert(self@ == old(self)@.touch(c));
        let acct = *self.accounts.get(&c).unwrap();
        if acct.locked || acct.available < m {
            return false;
        }
        if self.transactions.contains_key(&t) {
            return false;
        }
        if !amount_in_range(m) {
            return false;
        }
        let new_available = acct.available - m;
        if !amount_in_range(new_available) {
            return false;
        }
        self.transactions.insert(t, TransactionState::Withdrawn);
        self.accounts.insert(
            c,
            Account { available: new_available, held: acct.held, locked: acct.locked },
        );
        proof {
            lemma_step_preserves_inv(
                old(self)@,
                TransactionView::Withdrawal { client: c, tx: t, amount: m as int },
            );
        }
        true
    }

    /// Applies a dispute: moves the deposited amount from available
    /// to held funds — driving available negative if those funds were
    /// already withdrawn — and marks the record disputed. Rejected if
    /// the id is unknown, is not an undisputed deposit, was deposited
    /// by another client, or a balance would leave the representable
    /// range. A locked account does not block disputes.
    pub fn dispute(&mut self, client: CustomerId, tx: TransactionId) -> (applied: bool)
        requires
            old(self).wf(),
        ensures
            final(self).wf(),
            applied == old(self)@.dispute_allowed(client@, tx@),
            final(self)@ == old(self)@.dispute_outcome(client@, tx@),
    {
        let c = client.value();
        let t = tx.value();
        let state = match self.transactions.get(&t) {
            Some(state) => *state,
            None => {
                return false;
            },
        };
        let (deposit_client, m) = match state {
            TransactionState::Deposited { client: deposit_client, amount } => (
                deposit_client,
                amount,
            ),
            _ => {
                return false;
            },
        };
        if deposit_client != c {
            return false;
        }
        let acct = *self.accounts.get(&c).unwrap();
        let new_held = acct.held + m;
        let new_available = acct.available - m;
        if !amount_in_range(new_held) || !amount_in_range(new_available) {
            return false;
        }
        self.transactions.insert(t, TransactionState::Disputed { client: c, amount: m });
        self.accounts.insert(
            c,
            Account { available: new_available, held: new_held, locked: acct.locked },
        );
        proof {
            lemma_step_preserves_inv(old(self)@, TransactionView::Dispute { client: c, tx: t });
        }
        true
    }

    /// Applies a resolve: releases the disputed amount from held back
    /// to available funds and marks the record resolved, which is
    /// terminal. Rejected if the id is unknown, is not currently
    /// disputed, was deposited by another client, or a balance would
    /// leave the representable range. A locked account does not block
    /// resolves.
    pub fn resolve(&mut self, client: CustomerId, tx: TransactionId) -> (applied: bool)
        requires
            old(self).wf(),
        ensures
            final(self).wf(),
            applied == old(self)@.resolve_allowed(client@, tx@),
            final(self)@ == old(self)@.resolve_outcome(client@, tx@),
    {
        let c = client.value();
        let t = tx.value();
        let state = match self.transactions.get(&t) {
            Some(state) => *state,
            None => {
                return false;
            },
        };
        let (dispute_client, m) = match state {
            TransactionState::Disputed { client: dispute_client, amount } => (dispute_client, amount),
            _ => {
                return false;
            },
        };
        if dispute_client != c {
            return false;
        }
        let acct = *self.accounts.get(&c).unwrap();
        let new_held = acct.held - m;
        let new_available = acct.available + m;
        if !amount_in_range(new_held) || !amount_in_range(new_available) {
            return false;
        }
        self.transactions.insert(t, TransactionState::Resolved);
        self.accounts.insert(
            c,
            Account { available: new_available, held: new_held, locked: acct.locked },
        );
        proof {
            lemma_step_preserves_inv(old(self)@, TransactionView::Resolve { client: c, tx: t });
        }
        true
    }

    /// Applies a chargeback: removes the disputed amount from held
    /// funds outright — the customer loses it — locks the account
    /// permanently, and marks the record charged back, which is
    /// terminal. Rejected if the id is unknown, is not currently
    /// disputed, was deposited by another client, or the held balance
    /// would leave the representable range. A locked account does not
    /// block chargebacks.
    pub fn chargeback(&mut self, client: CustomerId, tx: TransactionId) -> (applied: bool)
        requires
            old(self).wf(),
        ensures
            final(self).wf(),
            applied == old(self)@.chargeback_allowed(client@, tx@),
            final(self)@ == old(self)@.chargeback_outcome(client@, tx@),
    {
        let c = client.value();
        let t = tx.value();
        let state = match self.transactions.get(&t) {
            Some(state) => *state,
            None => {
                return false;
            },
        };
        let (dispute_client, m) = match state {
            TransactionState::Disputed { client: dispute_client, amount } => (dispute_client, amount),
            _ => {
                return false;
            },
        };
        if dispute_client != c {
            return false;
        }
        let acct = *self.accounts.get(&c).unwrap();
        let new_held = acct.held - m;
        if !amount_in_range(new_held) {
            return false;
        }
        self.transactions.insert(t, TransactionState::ChargedBack);
        self.accounts.insert(
            c,
            Account { available: acct.available, held: new_held, locked: true },
        );
        proof {
            lemma_step_preserves_inv(old(self)@, TransactionView::Chargeback { client: c, tx: t });
        }
        true
    }

    /// Handles one transaction, dispatching on its type, and reports
    /// whether it was applied. A rejection is silent: the state keeps
    /// at most the lazily created account of a rejected deposit or
    /// withdrawal.
    pub fn handle_transaction(&mut self, tx: Transaction) -> (applied: bool)
        requires
            old(self).wf(),
        ensures
            final(self).wf(),
            applied == old(self)@.step_allowed(tx@),
            final(self)@ == old(self)@.step_outcome(tx@),
    {
        match tx {
            Transaction::Deposit { client, tx, amount } => self.deposit(client, tx, amount),
            Transaction::Withdrawal { client, tx, amount } => self.withdraw(client, tx, amount),
            Transaction::Dispute { client, tx } => self.dispute(client, tx),
            Transaction::Resolve { client, tx } => self.resolve(client, tx),
            Transaction::Chargeback { client, tx } => self.chargeback(client, tx),
        }
    }

    /// Takes the snapshot: one record per customer ever touched, in
    /// order of first touch, with the total derived as available plus
    /// held at call time.
    pub fn account_states(&self) -> (out: Vec<AccountState>)
        requires
            self.wf(),
        ensures
            out@.len() == self@.clients.len(),
            forall|i: int|
                0 <= i < out@.len() ==> {
                    let a = self@.acct(#[trigger] self@.clients[i]);
                    &&& out@[i].client@ == self@.clients[i]
                    &&& out@[i].available@ == a.available as int
                    &&& out@[i].held@ == a.held as int
                    &&& out@[i].total@ == a.available + a.held
                    &&& out@[i].locked == a.locked
                },
    {
        let mut out: Vec<AccountState> = Vec::new();
        let mut i: usize = 0;
        while i < self.clients.len()
            invariant
                self.wf(),
                i <= self.clients.len(),
                out@.len() == i,
                forall|j: int|
                    0 <= j < i ==> {
                        let a = self@.acct(#[trigger] self@.clients[j]);
                        &&& out@[j].client@ == self@.clients[j]
                        &&& out@[j].available@ == a.available as int
                        &&& out@[j].held@ == a.held as int
                        &&& out@[j].total@ == a.available + a.held
                        &&& out@[j].locked == a.locked
                    },
            decreases self.clients.len() - i,
        {
            let c = self.clients[i];
            let acct = *self.accounts.get(&c).unwrap();
            let total = acct.available + acct.held;
            out.push(
                AccountState {
                    client: CustomerId::new(c),
                    available: Amount::new(acct.available),
                    held: Amount::new(acct.held),
                    total: Amount::new(total),
                    locked: acct.locked,
                },
            );
            i += 1;
        }
        out
    }
}

} // verus!
