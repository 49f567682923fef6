//! Core of a recurring-purchase ("DCA") vault system.
//!
//! A vault holds funds that are swapped through an external venue in discrete
//! tranches, either on a time schedule or when a limit order at a target price
//! fills.  The library models the whole core as a single state value
//! ([`state::DcaState`]): the vault and trigger lifecycle, the multi-stage
//! execution saga with its asynchronous venue confirmations, the append-only
//! event and execution ledgers, and the optional performance-escrow overlay.
//! Every mutating operation carries a contract that pins the resulting state
//! and the messages handed back to the host for dispatch; host plumbing
//! (storage, message encoding, the venue itself) stays outside.

pub mod after_fin_swap;
pub mod cancel_vault;
pub mod create_vault;
pub mod decimal;
pub mod deposit;
pub mod escrow;
pub mod execute_trigger;
pub mod fin_limit_orders;
pub mod laws;
pub mod scheduler;
pub mod error;
pub mod event;
pub mod execution;
pub mod pair;
pub mod response;
pub mod state;
pub mod trigger;
pub mod vault;
