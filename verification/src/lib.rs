//! The deterministic core of an append-only, bi-temporal, provenance-aware claim store.
//!
//! Claims are written once and never changed. Belief is not stored: it is folded from the claim
//! history at read time. Every function of this crate states in its contract what it returns,
//! and the laws that tie several functions together are proof functions beside them.

pub mod config;
pub mod coordination;
pub mod domain;
pub mod engine;
pub mod error;
pub mod ident;
pub mod json;
pub mod laws;
pub mod noop;
pub mod ports;
pub mod score;
pub mod sequences;
pub mod text;
pub mod time;
