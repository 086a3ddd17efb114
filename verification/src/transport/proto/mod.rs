//! Messages of the order-command service (`matchcore.v1`). Enumerations
//! travel as `i32`; doubles travel as their IEEE-754 bit patterns.

pub mod pb;
