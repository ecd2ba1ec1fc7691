//! Core of a live player map: player records, immutable snapshots,
//! event-driven and poll-driven ingestion, the shared snapshot store and
//! the per-viewer delivery state machine.

pub mod ingest;
pub mod model;
pub mod snapshot;
pub mod store;
pub mod util;
pub mod viewer;
