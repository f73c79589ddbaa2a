//! A two-party, asynchronous rock-paper-scissors session manager.
//!
//! The library tracks pairwise game sessions between a host and an
//! opponent, resolves the outcome once both moves are known, and gates
//! session creation behind an access-control layer: a single
//! administrator and an administrator-maintained blacklist of accounts
//! barred from hosting.
//!
//! All state lives in a [`state::Store`] value; every entry point in
//! [`contract`] is a deterministic transition on it, proved to follow
//! the pure transition functions of [`model`]. A surrounding runtime is
//! expected to load the store, apply one transition, and persist the
//! result atomically; account-identifier validation is likewise the
//! runtime's, injected as a verdict argument.

pub mod contract;
pub mod error;
pub mod laws;
pub mod model;
pub mod msg;
pub mod order;
pub mod state;
