//! What the engine promises, stated on the claims, instants and records themselves.
//!
//! Each law here says how a result relates to what was handed in, or how two results relate, and
//! goes by instants, dispositions, values and references alone.

pub mod answers;
pub mod bounds;
pub mod fold;
pub mod gate;
pub mod history;
pub mod intake;
pub mod projection;
pub mod reconciler;
pub mod records;
pub mod sweep;
pub mod values;
pub mod windows;
