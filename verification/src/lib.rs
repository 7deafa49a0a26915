//! A latency telemetry pipeline for a developer's workstation.
//!
//! Samplers classify the processes of each scan and turn them into latency
//! events ([`sampler`]). The events pass over a bounded bus that drops and
//! counts what it has no room for ([`bus`]). Two consumers take them off
//! the bus: the store, which keeps them in the order of their timestamps
//! under unique identifiers ([`storage`], with the stored row in
//! [`record`] and the retry rules for failed writes in [`retry`]), and the
//! aggregator, which keeps per class a rolling window of per-minute
//! histograms and reads percentiles off them ([`aggregator`]). The
//! [`monitor`] runs these parts step by step; [`report`] renders what is
//! stored.
//!
//! Scans, instants and the outcomes of durable writes are handed to the
//! library as plain values, so that each operation is a function of what
//! it is given. What each operation does is stated in its contract and
//! proved.

pub mod aggregator;
pub mod bus;
pub mod clock;
pub mod config;
pub mod models;
pub mod monitor;
pub mod network;
pub mod record;
pub mod report;
pub mod retry;
pub mod sampler;
pub mod storage;
pub mod text;
