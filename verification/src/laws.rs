use vstd::prelude::*;

use crate::domain::TransactionView;
use crate::engine::{
    held_part, lemma_held_sum_nonneg, lemma_step_preserves_inv, Account, EngineView,
    TransactionState,
};

verus! {

/// Whether a requested transaction carries a non-negative amount
/// (trivially true for the dispute lifecycle operations, which carry
/// none).
pub open spec fn nonneg_request(t: TransactionView) -> bool {
    match t {
        TransactionView::Deposit { amount, .. } => amount >= 0,
        TransactionView::Withdrawal { amount, .. } => amount >= 0,
        _ => true,
    }
}

/// The same state with client `c`'s account locked.
pub open spec fn with_locked(v: EngineView, c: u16) -> EngineView {
    if v.accounts.contains_key(c) {
        EngineView {
            accounts: v.accounts.insert(
                c,
                Account {
                    available: v.accounts[c].available,
                    held: v.accounts[c].held,
                    locked: true,
                },
            ),
            clients: v.clients,
            transactions: v.transactions,
        }
    } else {
        v
    }
}

/// Law: in a well-formed state all of whose recorded amounts are
/// non-negative — as is the case after any sequence of operations
/// whose deposits and withdrawals carry non-negative amounts — no
/// account's held balance is negative.
pub proof fn lemma_held_never_negative(v: EngineView, c: u16)
    requires
        v.inv(),
        v.amounts_nonneg(),
        v.accounts.contains_key(c),
    ensures
        v.accounts[c].held >= 0,
{
    assert forall|t: u32| v.transactions.contains_key(t) implies #[trigger] held_part(
        c,
        v.transactions[t],
    ) >= 0 by {
        assert(v.transactions.contains_key(t));
    }
    lemma_held_sum_nonneg(v.transactions, c);
}

/// Law: a step made from a request with a non-negative amount keeps
/// every recorded amount non-negative, so along any sequence of such
/// requests `lemma_held_never_negative` applies to every state.
pub proof fn lemma_step_preserves_nonneg(v: EngineView, t: TransactionView)
    requires
        v.inv(),
        v.amounts_nonneg(),
        nonneg_request(t),
    ensures
        v.step_outcome(t).amounts_nonneg(),
{
}

/// The state after applying a sequence of transactions in order.
pub open spec fn apply_steps(v: EngineView, ts: Seq<TransactionView>) -> EngineView
    decreases ts.len(),
{
    if ts.len() == 0 {
        v
    } else {
        apply_steps(v.step_outcome(ts[0]), ts.subrange(1, ts.len() as int))
    }
}

proof fn lemma_apply_steps_safe(v: EngineView, ts: Seq<TransactionView>)
    requires
        v.inv(),
        v.amounts_nonneg(),
        forall|i: int| 0 <= i < ts.len() ==> nonneg_request(#[trigger] ts[i]),
    ensures
        apply_steps(v, ts).inv(),
        apply_steps(v, ts).amounts_nonneg(),
    decreases ts.len(),
{
    if ts.len() > 0 {
        lemma_step_preserves_inv(v, ts[0]);
        lemma_step_preserves_nonneg(v, ts[0]);
        lemma_apply_steps_safe(v.step_outcome(ts[0]), ts.subrange(1, ts.len() as int));
    }
}

/// Law: along any sequence of operations started from a fresh engine,
/// every reached state is well formed, and as long as every deposit
/// and withdrawal in the sequence carries a non-negative amount, no
/// account's held balance is ever negative.
pub proof fn lemma_sequence_keeps_held_nonnegative(ts: Seq<TransactionView>, c: u16)
    requires
        forall|i: int| 0 <= i < ts.len() ==> nonneg_request(#[trigger] ts[i]),
    ensures
        apply_steps(EngineView::initial(), ts).inv(),
        apply_steps(EngineView::initial(), ts).accounts.contains_key(c) ==> apply_steps(
            EngineView::initial(),
            ts,
        ).accounts[c].held >= 0,
{
    lemma_apply_steps_safe(EngineView::initial(), ts);
    let end = apply_steps(EngineView::initial(), ts);
    if end.accounts.contains_key(c) {
        lemma_held_never_negative(end, c);
    }
}

/// Law: a deposit or withdrawal reusing a recorded transaction id is
/// rejected, whatever the lock state of the account and whatever the
/// amount.
pub proof fn lemma_duplicate_tx_always_rejected(v: EngineView, c: u16, t: u32, m: int)
    requires
        v.transactions.contains_key(t),
    ensures
        !v.deposit_allowed(c, t, m),
        !v.withdraw_allowed(c, t, m),
{
}

/// Law: a transaction id created by a withdrawal can never be
/// disputed.
pub proof fn lemma_dispute_of_withdrawal_rejected(v: EngineView, c: u16, t: u32)
    requires
        v.transactions.contains_key(t),
        v.transactions[t] is Withdrawn,
    ensures
        !v.dispute_allowed(c, t),
{
}

/// Law: deposits and withdrawals for a locked account are rejected.
pub proof fn lemma_locked_blocks_funds_movement(v: EngineView, c: u16, t: u32, m: int)
    requires
        v.acct(c).locked,
    ensures
        !v.deposit_allowed(c, t, m),
        !v.withdraw_allowed(c, t, m),
{
}

/// Law: locking an account changes nothing about which disputes,
/// resolves and chargebacks are accepted — the dispute lifecycle
/// stays open on a locked account.
pub proof fn lemma_lock_does_not_block_dispute_lifecycle(v: EngineView, c: u16, t: u32)
    ensures
        with_locked(v, c).dispute_allowed(c, t) == v.dispute_allowed(c, t),
        with_locked(v, c).resolve_allowed(c, t) == v.resolve_allowed(c, t),
        with_locked(v, c).chargeback_allowed(c, t) == v.chargeback_allowed(c, t),
{
}

/// Law: the lock is permanent — no step unlocks a locked account.
pub proof fn lemma_lock_is_permanent(v: EngineView, t: TransactionView, c: u16)
    requires
        v.acct(c).locked,
    ensures
        v.step_outcome(t).acct(c).locked,
{
}

/// Law: a resolved or charged-back transaction id is terminal — it
/// can no longer be disputed, resolved or charged back, by any
/// client.
pub proof fn lemma_terminal_states_reject_lifecycle(v: EngineView, c: u16, t: u32)
    requires
        v.transactions.contains_key(t),
        v.transactions[t] is Resolved || v.transactions[t] is ChargedBack,
    ensures
        !v.dispute_allowed(c, t),
        !v.resolve_allowed(c, t),
        !v.chargeback_allowed(c, t),
{
}

/// Law: after a resolve is applied, a second resolve (or chargeback,
/// or dispute) of the same transaction id is rejected.
pub proof fn lemma_resolve_is_terminal(v: EngineView, c: u16, t: u32, c2: u16)
    requires
        v.resolve_allowed(c, t),
    ensures
        !v.resolve_outcome(c, t).dispute_allowed(c2, t),
        !v.resolve_outcome(c, t).resolve_allowed(c2, t),
        !v.resolve_outcome(c, t).chargeback_allowed(c2, t),
{
}

/// Law: after a chargeback is applied, a second chargeback (or
/// resolve, or dispute) of the same transaction id is rejected.
pub proof fn lemma_chargeback_is_terminal(v: EngineView, c: u16, t: u32, c2: u16)
    requires
        v.chargeback_allowed(c, t),
    ensures
        !v.chargeback_outcome(c, t).dispute_allowed(c2, t),
        !v.chargeback_outcome(c, t).resolve_allowed(c2, t),
        !v.chargeback_outcome(c, t).chargeback_allowed(c2, t),
{
}

/// Law: an accepted dispute of a deposit whose funds have since been
/// withdrawn drives the available balance below zero: the held funds
/// are money the engine no longer counts as freely available.
pub proof fn lemma_dispute_can_drive_available_negative(v: EngineView, c: u16, t: u32)
    requires
        v.dispute_allowed(c, t),
        v.acct(c).available < v.tx_amount(t),
    ensures
        v.dispute_outcome(c, t).acct(c).available < 0,
{
}

/// Law: whenever a dispute is accepted — even one that drives the
/// available balance negative because the funds were already
/// withdrawn — the matching resolve is accepted as well, and applying
/// both restores the account balances exactly, leaving only the
/// transaction's record resolved.
pub proof fn lemma_resolve_restores_dispute(v: EngineView, c: u16, t: u32)
    requires
        v.inv(),
        v.dispute_allowed(c, t),
    ensures
        v.dispute_outcome(c, t).resolve_allowed(c, t),
        (v.dispute_outcome(c, t).resolve_outcome(c, t) =~= EngineView {
            accounts: v.accounts,
            clients: v.clients,
            transactions: v.transactions.insert(t, TransactionState::Resolved),
        }),
{
    let v1 = v.dispute_outcome(c, t);
    let v2 = v1.resolve_outcome(c, t);
    assert(v.accounts.contains_key(c));
    assert(v2.accounts[c] == v.accounts[c]);
    assert(v2.accounts =~= v.accounts);
    assert(v2.transactions =~= v.transactions.insert(t, TransactionState::Resolved));
}

} // verus!
