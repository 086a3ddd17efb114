pub mod command;
pub mod event;
pub mod types;
