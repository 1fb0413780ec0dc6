//! Local coordination core of a decentralized content-sharing client.
//!
//! The crate covers the retrying download orchestrator (bounded attempt
//! budget, exponential backoff, bounded-history metrics) and the relay
//! directory (health-ranked, TTL-evicted registry of peer relay nodes),
//! together with the content store and the bounded event queue that feed
//! them.

pub mod backoff;
pub mod bootstrap;
pub mod events;
pub mod metrics;
pub mod orchestrator;
pub mod relay;
pub mod store;
pub mod transfer;
