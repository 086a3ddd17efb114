pub mod book_laws;
pub mod clock;
pub mod linked_hashmap;
pub mod order;
pub mod order_book;
pub mod price_set;
pub mod trade;
