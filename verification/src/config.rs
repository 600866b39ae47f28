//! The engine's tuning parameters.
use vstd::prelude::*;

use crate::score::Score;

verus! {

/// The engine's tuning parameters.
#[derive(Clone, Copy, Debug)]
pub struct EngineConfig {
    /// From this confidence on a valid time is trusted.
    pub valid_time_confidence_threshold: Score,
    /// From this age in days on a claim is aging.
    pub aging_unconfirmed_threshold_days: u32,
    /// From this age in days on a claim is decayed.
    pub decayed_threshold_days: u32,
    /// From this number of identical re-entries in a batch on they are quarantined.
    pub quarantine_burst_threshold: u32,
    /// Beyond this derivation depth a claim cannot overturn.
    pub derivation_depth_cap_for_overturning: u32,
    /// Beyond this derivation depth a claim cannot be refreshed.
    pub derivation_depth_cap_for_currency_boost: u32,
}

/// The bit pattern of 0.7 in single precision, widened to a double.
pub const DEFAULT_THRESHOLD_BITS: u64 = 0x3fe6_6666_6000_0000;

impl Default for EngineConfig {
    fn default() -> (r: Self)
        ensures
            r.valid_time_confidence_threshold.bits == DEFAULT_THRESHOLD_BITS,
            r.aging_unconfirmed_threshold_days == 30,
            r.decayed_threshold_days == 90,
            r.quarantine_burst_threshold == 10,
            r.derivation_depth_cap_for_overturning == 2,
            r.derivation_depth_cap_for_currency_boost == 3,
    {
        EngineConfig {
            valid_time_confidence_threshold: Score { bits: DEFAULT_THRESHOLD_BITS },
            aging_unconfirmed_threshold_days: 30,
            decayed_threshold_days: 90,
            quarantine_burst_threshold: 10,
            derivation_depth_cap_for_overturning: 2,
            derivation_depth_cap_for_currency_boost: 3,
        }
    }
}

} // verus!
