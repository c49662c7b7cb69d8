//! Tile serving logic of an Apache 2 tile module: the meta tile store format,
//! request handling decisions and the telemetry that the module keeps.

pub mod communication;
pub mod config;
pub mod context;
pub mod handler;
pub mod http;
pub mod meta_tile;
pub mod renderer;
pub mod slippy;
pub mod storage;
pub mod sums;
pub mod telemetry;
pub mod text;
pub mod tile;
pub mod time;
pub mod writer;
