//! The ports of the engine: what the host supplies.
//!
//! All ports are synchronous. What they return is up to the host; the engine relies on what their
//! contracts say and on nothing else.

pub mod embedding;
pub mod extractor;
pub mod oracle;
pub mod pending_adjudication;
pub mod persistence;

pub use embedding::{EmbeddingPort, VectorPort};
pub use extractor::ExtractorPort;
pub use oracle::OraclePort;
pub use pending_adjudication::PendingAdjudicationPort;
pub use persistence::{PersistencePort, Txn};
