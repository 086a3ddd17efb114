use vstd::prelude::*;

verus! {

/// Wire code of an unset enumeration field.
pub const UNSPECIFIED: i32 = 0;

pub const SIDE_BUY: i32 = 1;

pub const SIDE_SELL: i32 = 2;

pub const TYPE_LIMIT: i32 = 1;

pub const TYPE_MARKET: i32 = 2;

pub const TIME_IN_FORCE_GTC: i32 = 1;

pub const TIME_IN_FORCE_IOC: i32 = 2;

pub const TIME_IN_FORCE_FOK: i32 = 3;

pub struct SubmitOrderCmdRequest {
    pub command_id: String,
    pub order_id: String,
    pub user_id: String,
    pub symbol: String,
    pub side: i32,
    pub order_type: i32,
    /// Bit pattern of the price (a double).
    pub price: u64,
    /// Bit pattern of the quantity (a double).
    pub quantity: u64,
    pub timestamp: u64,
    pub time_in_force: i32,
}

pub struct CancelOrderCmdRequest {
    pub command_id: String,
    pub order_id: String,
    pub timestamp: u64,
}

pub struct OrderCmdReply {
    pub order_id: String,
    pub status: i32,
    pub error_code: Option<i32>,
}

/// Acknowledgement status of a command.
#[derive(Debug, Clone, Copy, PartialEq, Eq, Structural)]
pub enum OrderCmdAck {
    Unspecified,
    Queued,
    Rejected,
}

impl OrderCmdAck {
    pub open spec fn spec_code(self) -> i32 {
        match self {
            OrderCmdAck::Unspecified => 0,
            OrderCmdAck::Queued => 1,
            OrderCmdAck::Rejected => 2,
        }
    }

    /// Wire code of the status.
    #[verifier::when_used_as_spec(spec_code)]
    pub fn code(self) -> (c: i32)
        ensures
            c == self.spec_code(),
    {
        match self {
            OrderCmdAck::Unspecified => 0,
            OrderCmdAck::Queued => 1,
            OrderCmdAck::Rejected => 2,
        }
    }
}

/// Why a command was rejected.
#[derive(Debug, Clone, Copy, PartialEq, Eq, Structural)]
pub enum CmdErr {
    Unspecified,
    SubmitSideUnspecified,
    SubmitOrderTypeUnspecified,
    SubmitPriceInvalid,
    SubmitQtyInvalid,
    SubmitCmdIdEmpty,
    SubmitOrderIdEmpty,
    SubmitUserIdEmpty,
    SubmitSymbolEmpty,
    SubmitTimestampZero,
    SubmitSymbolShardMismatch,
    SubmitSideInvalid,
    SubmitOrderTypeInvalid,
    SubmitOrderTimeInForceUnspecified,
    SubmitOrderTimeInForceInvalid,
    SubmitEngineUnavailable,
    SubmitCommandQueueTimeout,
    CancelCmdIdEmpty,
    CancelOrderIdEmpty,
    CancelTimestampZero,
    CancelEngineUnavailable,
    CancelCommandQueueTimeout,
}

impl CmdErr {
    pub open spec fn spec_code(self) -> i32 {
        match self {
            CmdErr::Unspecified => 0,
            CmdErr::SubmitSideUnspecified => 1,
            CmdErr::SubmitOrderTypeUnspecified => 2,
            CmdErr::SubmitPriceInvalid => 3,
            CmdErr::SubmitQtyInvalid => 4,
            CmdErr::SubmitCmdIdEmpty => 5,
            CmdErr::SubmitOrderIdEmpty => 6,
            CmdErr::SubmitUserIdEmpty => 7,
            CmdErr::SubmitSymbolEmpty => 8,
            CmdErr::SubmitTimestampZero => 9,
            CmdErr::SubmitSymbolShardMismatch => 10,
            CmdErr::SubmitSideInvalid => 11,
            CmdErr::SubmitOrderTypeInvalid => 12,
            CmdErr::SubmitOrderTimeInForceUnspecified => 13,
            CmdErr::SubmitOrderTimeInForceInvalid => 14,
            CmdErr::SubmitEngineUnavailable => 15,
            CmdErr::SubmitCommandQueueTimeout => 16,
            CmdErr::CancelCmdIdEmpty => 17,
            CmdErr::CancelOrderIdEmpty => 18,
            CmdErr::CancelTimestampZero => 19,
            CmdErr::CancelEngineUnavailable => 20,
            CmdErr::CancelCommandQueueTimeout => 21,
        }
    }

    /// Wire code of the error, its position in the declaration.
    #[verifier::when_used_as_spec(spec_code)]
    pub fn code(self) -> (c: i32)
        ensures
            c == self.spec_code(),
    {
        match self {
            CmdErr::Unspecified => 0,
            CmdErr::SubmitSideUnspecified => 1,
            CmdErr::SubmitOrderTypeUnspecified => 2,
            CmdErr::SubmitPriceInvalid => 3,
            CmdErr::SubmitQtyInvalid => 4,
            CmdErr::SubmitCmdIdEmpty => 5,
            CmdErr::SubmitOrderIdEmpty => 6,
            CmdErr::SubmitUserIdEmpty => 7,
            CmdErr::SubmitSymbolEmpty => 8,
            CmdErr::SubmitTimestampZero => 9,
            CmdErr::SubmitSymbolShardMismatch => 10,
            CmdErr::SubmitSideInvalid => 11,
            CmdErr::SubmitOrderTypeInvalid => 12,
            CmdErr::SubmitOrderTimeInForceUnspecified => 13,
            CmdErr::SubmitOrderTimeInForceInvalid => 14,
            CmdErr::SubmitEngineUnavailable => 15,
            CmdErr::SubmitCommandQueueTimeout => 16,
            CmdErr::CancelCmdIdEmpty => 17,
            CmdErr::CancelOrderIdEmpty => 18,
            CmdErr::CancelTimestampZero => 19,
            CmdErr::CancelEngineUnavailable => 20,
            CmdErr::CancelCommandQueueTimeout => 21,
        }
    }
}

} // verus!
