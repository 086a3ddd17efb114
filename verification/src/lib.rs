//! Order matching core: price-time priority order book, command sequencing,
//! deduplication, ingress validation and the engine's decision step.

pub mod config;
pub mod domain;
pub mod engine;
pub mod events;
pub mod kernel;
pub mod recovery;
pub mod shared;
pub mod storage;
pub mod transport;
pub mod utils;
