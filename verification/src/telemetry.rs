//! Telemetry: counters of the stages a request goes through and analyses of
//! the responses and tiles served.

pub mod counters;
pub mod interface;
pub mod inventory;
pub mod metric_table;
pub mod metrics;
pub mod observer;
pub mod response;
pub mod tile_handling;
pub mod transaction;
