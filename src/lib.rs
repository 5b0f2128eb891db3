//! Ingest pipeline and feed logic for a social-graph firehose consumer: event
//! classification and filtering, batched graph mutations with ordered commits,
//! feed composition, backfill planning and transport decisions.

pub mod backfill;
pub mod dispatch;
pub mod drift;
pub mod fetch;
pub mod filter;
pub mod monitor;
pub mod queue;
pub mod server;
pub mod text;
pub mod types;
