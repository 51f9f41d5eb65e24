//! A verified accounting engine: deposits, withdrawals, and the
//! dispute/resolve/chargeback lifecycle over per-customer accounts.

mod args;
mod domain;
mod engine;
mod laws;

pub use args::ArgsError;
pub use args::parse_args;

pub use domain::AccountState;
pub use domain::Amount;
pub use domain::CustomerId;
pub use domain::RowError;
pub use domain::Transaction;
pub use domain::TransactionId;
pub use domain::TransactionKind;
pub use domain::TransactionView;
pub use domain::row_result;
pub use engine::Account;
pub use engine::AccountingEngine;
pub use engine::EngineView;
pub use engine::TransactionState;
pub use laws::apply_steps;
pub use laws::lemma_chargeback_is_terminal;
pub use laws::lemma_dispute_can_drive_available_negative;
pub use laws::lemma_dispute_of_withdrawal_rejected;
pub use laws::lemma_duplicate_tx_always_rejected;
pub use laws::lemma_held_never_negative;
pub use laws::lemma_lock_does_not_block_dispute_lifecycle;
pub use laws::lemma_lock_is_permanent;
pub use laws::lemma_locked_blocks_funds_movement;
pub use laws::lemma_resolve_is_terminal;
pub use laws::lemma_resolve_restores_dispute;
pub use laws::lemma_sequence_keeps_held_nonnegative;
pub use laws::lemma_step_preserves_nonneg;
pub use laws::lemma_terminal_states_reject_lifecycle;
