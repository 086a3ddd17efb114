use vstd::prelude::*;

pub use super::types::{Side, TimeInForce, Type};
use super::types::{CommandId, OrderId, Price, Quantity, Symbol, Timestamp, UserId};

verus! {

/// Request to place an order. `price` and `quantity` are the bit patterns of
/// their 64-bit float values.
#[derive(Debug, Clone)]
pub struct NewOrderCommand {
    pub command_id: CommandId,
    pub order_id: OrderId,
    pub user_id: UserId,
    pub symbol: Symbol,
    pub side: Side,
    pub order_type: Type,
    pub price: Price,
    pub quantity: Quantity,
    pub timestamp: Timestamp,
    pub time_in_force: TimeInForce,
}

/// Request to cancel an order.
#[derive(Debug, Clone)]
pub struct CancelOrderCommand {
    pub command_id: CommandId,
    pub order_id: OrderId,
    pub timestamp: Timestamp,
}

#[derive(Debug, Clone)]
pub enum Command {
    NewOrder(NewOrderCommand),
    CancelOrder(CancelOrderCommand),
}

/// The idempotency key of a command.
pub open spec fn command_key(command: Command) -> Seq<char> {
    match command {
        Command::NewOrder(c) => c.command_id@,
        Command::CancelOrder(c) => c.command_id@,
    }
}

/// The idempotency key of a command is its whole command id, whatever its
/// kind: two commands are one delivery exactly when their command ids are
/// equal.
pub proof fn law_key_is_the_whole_command_id(a: Command, b: Command)
    ensures
        a matches Command::NewOrder(c) ==> command_key(a) == c.command_id@,
        a matches Command::CancelOrder(c) ==> command_key(a) == c.command_id@,
        (command_key(a) == command_key(b)) <==> (match a {
            Command::NewOrder(c) => c.command_id@,
            Command::CancelOrder(c) => c.command_id@,
        }) == (match b {
            Command::NewOrder(c) => c.command_id@,
            Command::CancelOrder(c) => c.command_id@,
        }),
{
}

} // verus!
