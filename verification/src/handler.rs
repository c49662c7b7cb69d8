//! The handlers of requests: the description of a layer, the statistics
//! report and the tiles, and what each of them is given to work with.

pub mod context;
pub mod description;
pub mod inventory;
pub mod statistics;
pub mod tile;
