//! A personal/shared-finance ledger: users group into accounts, accounts hold
//! ordered budget categories with running balances, and balances move only
//! through recorded transactions.
//!
//! The persistent state is modelled by [`store::Store`]; every service
//! operation is an atomic, verified state transition on it. Network and
//! storage engines stay outside: callers hand in plain values (timestamps,
//! generated tokens, converted amounts) and get plain values back.

pub mod accounts;
pub mod categories;
pub mod codec;
pub mod norm;
pub mod roles;
pub mod store;
pub mod transactions;
pub mod users;
pub mod validations;
