pub mod time;
pub mod text;
