//! Verified core of a market-data ingestion service.
//!
//! The library covers the four mechanisms that carry the system's logic:
//! a resilient bulk writer that isolates poison records, a checkpointed
//! day-granular backfill pipeline, a time-window-gated job scheduler, and
//! an append-only liquidity reconciler.  Store and network plumbing stays
//! outside; the logic here is verified against explicit store contracts.

pub mod bulk;
pub mod checkpoint;
pub mod clock;
pub mod config;
pub mod days;
pub mod errors;
pub mod fetch;
pub mod memstore;
pub mod models;
pub mod pipeline;
pub mod reconcile;
pub mod records;
pub mod refresh;
pub mod sqlfmt;
pub mod window;
