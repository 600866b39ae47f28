//! The extractor port: proposes claims, and never commits any.
use vstd::prelude::*;

verus! {

/// Extracts proposals from raw content. The engine decides about every one of them.
pub trait ExtractorPort: Send + Sync + 'static {
    type Error;

    /// What the extractor proposes.
    type Proposal;

    fn extract(&self, raw_content: &str, context: &str) -> Result<
        Vec<Self::Proposal>,
        Self::Error,
    >;
}

} // verus!
