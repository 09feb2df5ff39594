//! Verified core of a TCP latency observation pipeline.
//!
//! The library models the two halves of the system: the kernel-side
//! event-production state machine (socket parsing, latency measurement,
//! connection lifecycle, packet-drop capture, XDP packet accounting) and the
//! userspace aggregation pipeline (event decoding, sampling, histogram,
//! percentile and standard-deviation statistics).  All I/O — probe loading,
//! per-CPU channel reads, metric export — lives outside the library and hands
//! it plain values.

pub mod codec;
pub mod collector;
pub mod exporter;
pub mod histogram;
pub mod kernel;
pub mod metrics;
pub mod processor;
pub mod socket;
pub mod stats;
pub mod types;
pub mod xdp;
