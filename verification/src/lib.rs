//! Per-keyword rolling-window statistics over a stream of match events:
//! counts bucketed by minute over the last hour, by hour over the last day,
//! and by day over the last week, with an exact moving average and percent
//! trend for each resolution, all maintained in O(1) per rollover. A
//! single-writer aggregator serializes every mutation through an ordered
//! event queue and publishes value-copied snapshots to consumers.

pub mod aggregator;
pub mod keytable;
pub mod laws;
pub mod messages;
pub mod rollup;
pub mod snapshot;
pub mod sums;
pub mod tracking;
