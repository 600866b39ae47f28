//! The amplification guard: keeps the engine's own output from coming back as fresh evidence.
//!
//! Re-entries of known content collapse to the claim that they re-state, bursts of them are
//! quarantined, and content that is too far from first-hand evidence cannot overturn a belief.
use std::sync::Arc;

use vstd::prelude::*;

use crate::config::EngineConfig;
use crate::domain::claim::Claim;
use crate::ident::ClaimRef;
use crate::text::{decimal_text, join};

verus! {

/// What the guard decides about a candidate. Only an admitted candidate becomes a claim of its own.
#[derive(Clone, Debug, PartialEq)]
pub enum FirewallVerdict {
    /// The candidate goes on to the reconciler.
    Admit,
    /// The candidate re-states a claim that exists already.
    CorroborateByIdentity { existing_claim: ClaimRef, provenance_independent: bool },
    /// The candidate is parked: there is a burst.
    Quarantine { reason: String },
    /// The candidate is derived too deeply to overturn a belief.
    DepthCapExceeded { depth: u32, cap: u32 },
}

/// What a [`FirewallVerdict`] stands for.
pub enum Verdict {
    Admit,
    CorroborateByIdentity { existing_claim: ClaimRef, provenance_independent: bool },
    Quarantine { reason: Seq<char> },
    DepthCapExceeded { depth: u32, cap: u32 },
}

impl View for FirewallVerdict {
    type V = Verdict;

    open spec fn view(&self) -> Verdict {
        match self {
            FirewallVerdict::Admit => Verdict::Admit,
            FirewallVerdict::CorroborateByIdentity {
                existing_claim,
                provenance_independent,
            } => Verdict::CorroborateByIdentity {
                existing_claim: *existing_claim,
                provenance_independent: *provenance_independent,
            },
            FirewallVerdict::Quarantine { reason } => Verdict::Quarantine { reason: reason@ },
            FirewallVerdict::DepthCapExceeded { depth, cap } => Verdict::DepthCapExceeded {
                depth: *depth,
                cap: *cap,
            },
        }
    }
}

/// The claim that a re-entry re-states: the first one that it is derived from, else the first one
/// that was served in the session.
pub open spec fn restated(candidate: Claim, injected: Seq<ClaimRef>) -> Option<ClaimRef> {
    if candidate.derived_from()@.len() > 0 {
        Some(candidate.derived_from()@[0])
    } else if injected.len() > 0 {
        Some(injected[0])
    } else {
        None
    }
}

/// The reason that is given for a burst.
pub open spec fn burst_reason(count: u32, threshold: u32) -> Seq<char> {
    "burst_detected: "@ + crate::text::decimal(count as nat) + " identical re-entries in batch (threshold: "@
        + crate::text::decimal(threshold as nat) + ")"@
}

/// What the guard decides, the first rule that applies first.
pub open spec fn verdict(
    config: EngineConfig,
    candidate: Claim,
    injected: Seq<ClaimRef>,
    burst_count: u32,
) -> Verdict {
    let depth = candidate.external_anchor().derivation_depth;
    let cap = config.derivation_depth_cap_for_overturning;
    if burst_count >= config.quarantine_burst_threshold {
        Verdict::Quarantine { reason: burst_reason(burst_count, config.quarantine_burst_threshold) }
    } else if candidate.provenance() is RecallReEntry && restated(candidate, injected) is Some {
        Verdict::CorroborateByIdentity {
            existing_claim: restated(candidate, injected)->0,
            provenance_independent: false,
        }
    } else if depth > cap {
        Verdict::DepthCapExceeded { depth, cap }
    } else {
        Verdict::Admit
    }
}

/// The amplification guard. It holds its parameters and no state.
pub struct AmplificationGuard {
    config: Arc<EngineConfig>,
}

impl AmplificationGuard {
    /// The parameters of the guard.
    pub closed spec fn parameters(self) -> EngineConfig {
        *self.config
    }

    /// A guard with these parameters.
    pub fn new(config: Arc<EngineConfig>) -> (r: AmplificationGuard)
        ensures
            r.parameters() == *config,
    {
        AmplificationGuard { config }
    }

    /// Decides about a candidate. `injected_claim_refs` are the claims that were served in the
    /// session; `burst_count_this_batch` is the number of identical candidates that came before
    /// this one in the batch.
    pub fn check(
        &self,
        candidate: &Claim,
        injected_claim_refs: &[ClaimRef],
        burst_count_this_batch: u32,
    ) -> (r: FirewallVerdict)
        ensures
            r@ == verdict(
                self.parameters(),
                *candidate,
                injected_claim_refs@,
                burst_count_this_batch,
            ),
    {
        if burst_count_this_batch >= self.config.quarantine_burst_threshold {
            return FirewallVerdict::Quarantine {
                reason: burst_text(
                    burst_count_this_batch,
                    self.config.quarantine_burst_threshold,
                ),
            };
        }
        if candidate.provenance().is_recall_reentry() {
            let existing: Option<ClaimRef> = if candidate.derived_from().len() > 0 {
                Some(candidate.derived_from()[0])
            } else if injected_claim_refs.len() > 0 {
                Some(injected_claim_refs[0])
            } else {
                None
            };
            if let Some(existing_claim) = existing {
                return FirewallVerdict::CorroborateByIdentity {
                    existing_claim,
                    provenance_independent: false,
                };
            }
        }
        let depth: u32 = candidate.external_anchor().derivation_depth;
        let cap: u32 = self.config.derivation_depth_cap_for_overturning;
        if depth > cap {
            return FirewallVerdict::DepthCapExceeded { depth, cap };
        }
        FirewallVerdict::Admit
    }
}

fn burst_text(count: u32, threshold: u32) -> (r: String)
    ensures
        r@ == burst_reason(count, threshold),
{
    let mut text = join("burst_detected: ", decimal_text(count).as_str());
    text.append(" identical re-entries in batch (threshold: ");
    text.append(decimal_text(threshold).as_str());
    text.append(")");
    text
}

/// Bursts are looked for first: at the threshold and above it everything is quarantined,
/// and below it nothing is.
pub proof fn law_bursts_are_looked_for_first(
    config: EngineConfig,
    candidate: Claim,
    injected: Seq<ClaimRef>,
    burst_count: u32,
)
    ensures
        verdict(config, candidate, injected, burst_count) is Quarantine <==> burst_count
            >= config.quarantine_burst_threshold,
{
}

/// A re-entry of content that is known never becomes a claim of its own, and never counts as
/// independent evidence: below the burst threshold it collapses to the claim that it re-states,
/// however often it comes.
pub proof fn law_known_reentry_is_never_admitted(
    config: EngineConfig,
    candidate: Claim,
    injected: Seq<ClaimRef>,
    burst_count: u32,
)
    requires
        candidate.provenance() is RecallReEntry,
        restated(candidate, injected) is Some,
    ensures
        verdict(config, candidate, injected, burst_count) !is Admit,
        verdict(config, candidate, injected, burst_count) !is DepthCapExceeded,
        burst_count < config.quarantine_burst_threshold ==> verdict(
            config,
            candidate,
            injected,
            burst_count,
        ) == (Verdict::CorroborateByIdentity {
            existing_claim: restated(candidate, injected)->0,
            provenance_independent: false,
        }),
{
}

/// No verdict ever counts a re-entry as independent evidence.
pub proof fn law_reentry_is_never_independent(
    config: EngineConfig,
    candidate: Claim,
    injected: Seq<ClaimRef>,
    burst_count: u32,
)
    ensures
        verdict(config, candidate, injected, burst_count) matches Verdict::CorroborateByIdentity {
            provenance_independent,
            ..
        } ==> !provenance_independent && candidate.provenance() is RecallReEntry,
{
}

/// Content beyond the depth cap is never admitted.
pub proof fn law_deep_content_is_never_admitted(
    config: EngineConfig,
    candidate: Claim,
    injected: Seq<ClaimRef>,
    burst_count: u32,
)
    requires
        candidate.external_anchor().derivation_depth > config.derivation_depth_cap_for_overturning,
    ensures
        verdict(config, candidate, injected, burst_count) !is Admit,
{
}

} // verus!
