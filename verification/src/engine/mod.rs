//! The deterministic engine: every decision is a function of what is handed in.

pub mod audit_ledger;
pub mod firewall;
pub mod fold_laws;
pub mod gate;
pub mod gateway;
pub mod history;
pub mod memory_laws;
pub mod ordering;
pub mod projection;
pub mod reconciler;
pub mod supersession;
pub mod truth_engine;
pub mod valid_time_helpers;
