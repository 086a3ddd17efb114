pub mod matching;
pub mod order;
pub mod orderbook;
pub mod trade;
