//! A deterministic, single-pass payments ledger.
//!
//! An ordered list of deposits, withdrawals, disputes, resolves and
//! chargebacks is checked as a batch and then replayed, one event at a time,
//! against per-client accounts. Every function stated here is verified
//! against its contract; decimal arithmetic itself is done by `rust_decimal`.

pub mod domain;
pub mod dto;
pub mod engine;
pub mod error;
pub mod money;
pub mod theorems;
pub mod validator;
