pub mod loader;
pub mod replayer;
