//! A file-access probe for a kernel-instrumentation agent, and the metrics
//! data model that probes use to describe what they observed.
//!
//! `grains` holds the probe: decoding of fixed-layout kernel records, the
//! table of decoded accesses keyed by inode, the reconciliation of that table
//! against the keys drained from a bounded kernel table, and the probe's
//! lifecycle. `metrics` holds tags, units and measurements.

pub mod grains;
pub mod metrics;
