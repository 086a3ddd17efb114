//! Validation of order-command payloads before dispatch.

use vstd::prelude::*;

use crate::shared::command::{Side, TimeInForce, Type};
use crate::transport::proto::pb;
use crate::transport::proto::pb::CmdErr;

verus! {

/// A double given by its bit pattern is finite and greater than zero: its
/// sign bit is clear, its exponent is not all ones, and it is not +0.
pub open spec fn positive_finite(bits: u64) -> bool {
    0 < bits < 0x7ff0_0000_0000_0000u64
}

pub open spec fn side_of(code: i32) -> Option<Side> {
    if code == pb::SIDE_BUY {
        Some(Side::Buy)
    } else if code == pb::SIDE_SELL {
        Some(Side::Sell)
    } else {
        None
    }
}

pub open spec fn type_of(code: i32) -> Option<Type> {
    if code == pb::TYPE_LIMIT {
        Some(Type::Limit)
    } else if code == pb::TYPE_MARKET {
        Some(Type::Market)
    } else {
        None
    }
}

pub open spec fn time_in_force_of(code: i32) -> Option<TimeInForce> {
    if code == pb::TIME_IN_FORCE_GTC {
        Some(TimeInForce::GTC)
    } else if code == pb::TIME_IN_FORCE_IOC {
        Some(TimeInForce::IOC)
    } else if code == pb::TIME_IN_FORCE_FOK {
        Some(TimeInForce::FOK)
    } else {
        None
    }
}

/// The verdict on a submit request for the shard trading `symbol`: the first
/// failed check, in the order the checks are listed, or the decoded side,
/// type and time in force.
pub open spec fn submit_verdict(symbol: Seq<char>, req: pb::SubmitOrderCmdRequest) -> Result<
    (Side, Type, TimeInForce),
    CmdErr,
> {
    if req.side == pb::UNSPECIFIED {
        Err(CmdErr::SubmitSideUnspecified)
    } else if req.order_type == pb::UNSPECIFIED {
        Err(CmdErr::SubmitOrderTypeUnspecified)
    } else if !positive_finite(req.price) {
        Err(CmdErr::SubmitPriceInvalid)
    } else if !positive_finite(req.quantity) {
        Err(CmdErr::SubmitQtyInvalid)
    } else if req.command_id@.len() == 0 {
        Err(CmdErr::SubmitCmdIdEmpty)
    } else if req.order_id@.len() == 0 {
        Err(CmdErr::SubmitOrderIdEmpty)
    } else if req.user_id@.len() == 0 {
        Err(CmdErr::SubmitUserIdEmpty)
    } else if req.symbol@.len() == 0 {
        Err(CmdErr::SubmitSymbolEmpty)
    } else if req.timestamp == 0 {
        Err(CmdErr::SubmitTimestampZero)
    } else if req.symbol@ != symbol {
        Err(CmdErr::SubmitSymbolShardMismatch)
    } else if side_of(req.side) is None {
        Err(CmdErr::SubmitSideInvalid)
    } else if type_of(req.order_type) is None {
        Err(CmdErr::SubmitOrderTypeInvalid)
    } else if req.time_in_force == pb::UNSPECIFIED {
        Err(CmdErr::SubmitOrderTimeInForceUnspecified)
    } else if time_in_force_of(req.time_in_force) is None {
        Err(CmdErr::SubmitOrderTimeInForceInvalid)
    } else {
        Ok((side_of(req.side)->0, type_of(req.order_type)->0, time_in_force_of(req.time_in_force)->0))
    }
}

/// The verdict on a cancel request: the first failed check, or `Ok`.
pub open spec fn cancel_verdict(req: pb::CancelOrderCmdRequest) -> Result<(), CmdErr> {
    if req.command_id@.len() == 0 {
        Err(CmdErr::CancelCmdIdEmpty)
    } else if req.order_id@.len() == 0 {
        Err(CmdErr::CancelOrderIdEmpty)
    } else if req.timestamp == 0 {
        Err(CmdErr::CancelTimestampZero)
    } else {
        Ok(())
    }
}

fn is_empty(s: &String) -> (b: bool)
    ensures
        b == (s@.len() == 0),
{
    s.as_str().is_empty()
}

fn decode_side(code: i32) -> (r: Option<Side>)
    ensures
        r == side_of(code),
{
    if code == pb::SIDE_BUY {
        Some(Side::Buy)
    } else if code == pb::SIDE_SELL {
        Some(Side::Sell)
    } else {
        None
    }
}

fn decode_type(code: i32) -> (r: Option<Type>)
    ensures
        r == type_of(code),
{
    if code == pb::TYPE_LIMIT {
        Some(Type::Limit)
    } else if code == pb::TYPE_MARKET {
        Some(Type::Market)
    } else {
        None
    }
}

fn decode_time_in_force(code: i32) -> (r: Option<TimeInForce>)
    ensures
        r == time_in_force_of(code),
{
    if code == pb::TIME_IN_FORCE_GTC {
        Some(TimeInForce::GTC)
    } else if code == pb::TIME_IN_FORCE_IOC {
        Some(TimeInForce::IOC)
    } else if code == pb::TIME_IN_FORCE_FOK {
        Some(TimeInForce::FOK)
    } else {
        None
    }
}

/// Checks order-command payloads for the shard that trades `symbol`.
pub struct Validator {
    symbol: String,
}

impl Validator {
    /// The symbol this shard trades.
    pub closed spec fn symbol(&self) -> Seq<char> {
        self.symbol@
    }

    pub fn new(symbol: String) -> (v: Self)
        ensures
            v.symbol() == symbol@,
    {
        Validator { symbol }
    }

    fn validate_symbol(&self, symbol: &String) -> (b: bool)
        ensures
            b == (symbol@ == self.symbol()),
    {
        *symbol == self.symbol
    }

    pub fn validate_submit_order_command(&self, req: &pb::SubmitOrderCmdRequest) -> (r: Result<
        (Side, Type, TimeInForce),
        CmdErr,
    >)
        ensures
            r == submit_verdict(self.symbol(), *req),
    {
        if req.side == pb::UNSPECIFIED {
            return Err(CmdErr::SubmitSideUnspecified);
        }
        if req.order_type == pb::UNSPECIFIED {
            return Err(CmdErr::SubmitOrderTypeUnspecified);
        }
        if !(0 < req.price && req.price < 0x7ff0_0000_0000_0000u64) {
            return Err(CmdErr::SubmitPriceInvalid);
        }
        if !(0 < req.quantity && req.quantity < 0x7ff0_0000_0000_0000u64) {
            return Err(CmdErr::SubmitQtyInvalid);
        }
        if is_empty(&req.command_id) {
            return Err(CmdErr::SubmitCmdIdEmpty);
        }
        if is_empty(&req.order_id) {
            return Err(CmdErr::SubmitOrderIdEmpty);
        }
        if is_empty(&req.user_id) {
            return Err(CmdErr::SubmitUserIdEmpty);
        }
        if is_empty(&req.symbol) {
            return Err(CmdErr::SubmitSymbolEmpty);
        }
        if req.timestamp == 0 {
            return Err(CmdErr::SubmitTimestampZero);
        }
        if !self.validate_symbol(&req.symbol) {
            return Err(CmdErr::SubmitSymbolShardMismatch);
        }
        let side = match decode_side(req.side) {
            Some(s) => s,
            None => {
                return Err(CmdErr::SubmitSideInvalid);
            },
        };
        let order_type = match decode_type(req.order_type) {
            Some(t) => t,
            None => {
                return Err(CmdErr::SubmitOrderTypeInvalid);
            },
        };
        if req.time_in_force == pb::UNSPECIFIED {
            return Err(CmdErr::SubmitOrderTimeInForceUnspecified);
        }
        let time_in_force = match decode_time_in_force(req.time_in_force) {
            Some(t) => t,
            None => {
                return Err(CmdErr::SubmitOrderTimeInForceInvalid);
            },
        };
        Ok((side, order_type, time_in_force))
    }

    pub fn validate_cancel_order_command(&self, req: &pb::CancelOrderCmdRequest) -> (r: Result<
        (),
        CmdErr,
    >)
        ensures
            r == cancel_verdict(*req),
    {
        if is_empty(&req.command_id) {
            return Err(CmdErr::CancelCmdIdEmpty);
        }
        if is_empty(&req.order_id) {
            return Err(CmdErr::CancelOrderIdEmpty);
        }
        if req.timestamp == 0 {
            return Err(CmdErr::CancelTimestampZero);
        }
        Ok(())
    }
}

/// A submit request is accepted exactly when every check passes: it names
/// the shard's own symbol (not merely one that begins with it), its
/// command, order and user ids are not empty, its time stamp is set, its
/// price and quantity are positive and finite, and its side, type and time
/// in force are known codes, which come back decoded. A request that passes
/// every earlier check but names another symbol is refused as a shard
/// mismatch.
pub proof fn law_submit_accepted_only_for_this_shard(symbol: Seq<char>, req: pb::SubmitOrderCmdRequest)
    ensures
        (submit_verdict(symbol, req) is Ok) <==> {
            &&& req.symbol@ == symbol
            &&& symbol.len() > 0
            &&& req.command_id@.len() > 0
            &&& req.order_id@.len() > 0
            &&& req.user_id@.len() > 0
            &&& req.timestamp != 0
            &&& 0 < req.price < 0x7ff0_0000_0000_0000u64
            &&& 0 < req.quantity < 0x7ff0_0000_0000_0000u64
            &&& (req.side == pb::SIDE_BUY || req.side == pb::SIDE_SELL)
            &&& (req.order_type == pb::TYPE_LIMIT || req.order_type == pb::TYPE_MARKET)
            &&& (req.time_in_force == pb::TIME_IN_FORCE_GTC || req.time_in_force
                == pb::TIME_IN_FORCE_IOC || req.time_in_force == pb::TIME_IN_FORCE_FOK)
        },
        submit_verdict(symbol, req) matches Ok(v) ==> {
            &&& (v.0 == Side::Buy <==> req.side == pb::SIDE_BUY)
            &&& (v.1 == Type::Limit <==> req.order_type == pb::TYPE_LIMIT)
            &&& (v.2 == TimeInForce::GTC <==> req.time_in_force == pb::TIME_IN_FORCE_GTC)
            &&& (v.2 == TimeInForce::IOC <==> req.time_in_force == pb::TIME_IN_FORCE_IOC)
        },
        ({
            &&& req.side != pb::UNSPECIFIED
            &&& req.order_type != pb::UNSPECIFIED
            &&& 0 < req.price < 0x7ff0_0000_0000_0000u64
            &&& 0 < req.quantity < 0x7ff0_0000_0000_0000u64
            &&& req.command_id@.len() > 0
            &&& req.order_id@.len() > 0
            &&& req.user_id@.len() > 0
            &&& req.symbol@.len() > 0
            &&& req.timestamp != 0
            &&& req.symbol@ != symbol
        }) ==> submit_verdict(symbol, req) == Err::<(Side, Type, TimeInForce), CmdErr>(
            CmdErr::SubmitSymbolShardMismatch,
        ),
{
}

} // verus!
