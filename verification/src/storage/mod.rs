pub mod manifest;
pub mod snapshot_store;
