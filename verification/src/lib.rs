//! Verified status-derivation logic for subgraph indexing reports.
//!
//! The library turns raw, partially optional indexing-status fields and a
//! raw manifest document into a well-defined report record: start-block
//! resolution, graft detection, sync-percentage arithmetic, blocks-behind
//! severity bands, feature reconciliation and per-deployment aggregation.
//! All I/O (status queries, manifest fetches, rendering) lives outside.

pub mod endpoint;
pub mod errors;
pub mod features;
pub mod manifest;
pub mod metrics;
pub mod numbers;
pub mod report;
pub mod status;
pub mod text;
