pub mod deduplicator;
pub mod engine;
pub mod sequencer;
pub mod log_writer;
