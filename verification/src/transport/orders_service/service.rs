//! The decisions of the order-command service: which command a request
//! becomes, and which reply it gets.

use vstd::prelude::*;

use super::validator::{cancel_verdict, submit_verdict, Validator};
use crate::shared::command::{CancelOrderCommand, Command, NewOrderCommand};
use crate::transport::dispatcher::DispatchError;
use crate::transport::proto::pb;
use crate::transport::proto::pb::{CmdErr, OrderCmdAck};

verus! {

pub fn order_cmd_reply(order_id: String, status: i32, error_code: Option<i32>) -> (r: pb::OrderCmdReply)
    ensures
        r == (pb::OrderCmdReply { order_id, status, error_code }),
{
    pb::OrderCmdReply { order_id, status, error_code }
}

/// The two remote calls of the service.
#[derive(Clone, Copy, PartialEq, Eq, Structural)]
pub enum OrderCmdRpc {
    Submit,
    Cancel,
}

impl OrderCmdRpc {
    /// Name of the call in traces.
    pub fn trace_rpc(self) -> (s: &'static str)
        ensures
            self == OrderCmdRpc::Submit ==> s@ == "Submit"@,
            self == OrderCmdRpc::Cancel ==> s@ == "Cancel"@,
    {
        match self {
            OrderCmdRpc::Submit => "Submit",
            OrderCmdRpc::Cancel => "Cancel",
        }
    }

    /// Name of the call in metrics.
    pub fn metric_rpc(self) -> (s: &'static str)
        ensures
            self == OrderCmdRpc::Submit ==> s@ == "submit"@,
            self == OrderCmdRpc::Cancel ==> s@ == "cancel"@,
    {
        match self {
            OrderCmdRpc::Submit => "submit",
            OrderCmdRpc::Cancel => "cancel",
        }
    }

    pub open spec fn spec_engine_unavailable_err(self) -> CmdErr {
        match self {
            OrderCmdRpc::Submit => CmdErr::SubmitEngineUnavailable,
            OrderCmdRpc::Cancel => CmdErr::CancelEngineUnavailable,
        }
    }

    /// The rejection code when the engine cannot take commands.
    #[verifier::when_used_as_spec(spec_engine_unavailable_err)]
    pub fn engine_unavailable_err(self) -> (e: CmdErr)
        ensures
            e == self.spec_engine_unavailable_err(),
    {
        match self {
            OrderCmdRpc::Submit => CmdErr::SubmitEngineUnavailable,
            OrderCmdRpc::Cancel => CmdErr::CancelEngineUnavailable,
        }
    }

    pub open spec fn spec_command_queue_timeout_err(self) -> CmdErr {
        match self {
            OrderCmdRpc::Submit => CmdErr::SubmitCommandQueueTimeout,
            OrderCmdRpc::Cancel => CmdErr::CancelCommandQueueTimeout,
        }
    }

    /// The rejection code when the engine queue stayed full.
    #[verifier::when_used_as_spec(spec_command_queue_timeout_err)]
    pub fn command_queue_timeout_err(self) -> (e: CmdErr)
        ensures
            e == self.spec_command_queue_timeout_err(),
    {
        match self {
            OrderCmdRpc::Submit => CmdErr::SubmitCommandQueueTimeout,
            OrderCmdRpc::Cancel => CmdErr::CancelCommandQueueTimeout,
        }
    }
}

/// The reply to a request that failed validation with `code`.
pub open spec fn rejection(order_id: String, code: CmdErr) -> pb::OrderCmdReply {
    pb::OrderCmdReply {
        order_id,
        status: OrderCmdAck::Rejected.spec_code(),
        error_code: Some(code.spec_code()),
    }
}

/// The reply once the engine queue answered `outcome`.
pub open spec fn dispatched(rpc: OrderCmdRpc, order_id: String, outcome: Result<(), DispatchError>) -> pb::OrderCmdReply {
    match outcome {
        Ok(()) => pb::OrderCmdReply {
            order_id,
            status: OrderCmdAck::Queued.spec_code(),
            error_code: None,
        },
        Err(DispatchError::ChannelClosed) => pb::OrderCmdReply {
            order_id,
            status: OrderCmdAck::Rejected.spec_code(),
            error_code: Some(rpc.spec_engine_unavailable_err().spec_code()),
        },
        Err(DispatchError::EnqueueTimeout) => pb::OrderCmdReply {
            order_id,
            status: OrderCmdAck::Rejected.spec_code(),
            error_code: Some(rpc.spec_command_queue_timeout_err().spec_code()),
        },
    }
}

/// The reply to a request that failed validation.
pub fn reject_validation(order_id: &String, code: CmdErr) -> (r: pb::OrderCmdReply)
    ensures
        r == rejection(*order_id, code),
{
    order_cmd_reply(order_id.clone(), OrderCmdAck::Rejected.code(), Some(code.code()))
}

/// The reply once the engine queue answered `outcome`: queued, or rejected
/// with the code of the failure for this call.
pub fn dispatch_reply(rpc: OrderCmdRpc, order_id: &String, outcome: Result<(), DispatchError>) -> (r: pb::OrderCmdReply)
    ensures
        r == dispatched(rpc, *order_id, outcome),
{
    match outcome {
        Ok(()) => order_cmd_reply(order_id.clone(), OrderCmdAck::Queued.code(), None),
        Err(DispatchError::ChannelClosed) => order_cmd_reply(
            order_id.clone(),
            OrderCmdAck::Rejected.code(),
            Some(rpc.engine_unavailable_err().code()),
        ),
        Err(DispatchError::EnqueueTimeout) => order_cmd_reply(
            order_id.clone(),
            OrderCmdAck::Rejected.code(),
            Some(rpc.command_queue_timeout_err().code()),
        ),
    }
}

/// Label of a dispatch outcome in the request counter.
pub fn dispatch_outcome(outcome: Result<(), DispatchError>) -> (s: &'static str)
    ensures
        outcome is Ok ==> s@ == "queued"@,
        outcome == Err::<(), DispatchError>(DispatchError::ChannelClosed) ==> s@ == "rejected_engine_unavailable"@,
        outcome == Err::<(), DispatchError>(DispatchError::EnqueueTimeout) ==> s@ == "rejected_command_queue_timeout"@,
{
    match outcome {
        Ok(()) => "queued",
        Err(DispatchError::ChannelClosed) => "rejected_engine_unavailable",
        Err(DispatchError::EnqueueTimeout) => "rejected_command_queue_timeout",
    }
}

/// The command a valid submit request becomes.
pub open spec fn submit_command_of(req: pb::SubmitOrderCmdRequest, v: (crate::shared::command::Side, crate::shared::command::Type, crate::shared::command::TimeInForce)) -> Command {
    Command::NewOrder(NewOrderCommand {
        command_id: req.command_id,
        order_id: req.order_id,
        user_id: req.user_id,
        symbol: req.symbol,
        side: v.0,
        order_type: v.1,
        price: req.price,
        quantity: req.quantity,
        timestamp: req.timestamp,
        time_in_force: v.2,
    })
}

/// The order-command service of one shard: turns requests into engine
/// commands, or into rejections.
pub struct OrderCmdService {
    validator: Validator,
}

impl OrderCmdService {
    /// The symbol the shard trades.
    pub closed spec fn symbol(&self) -> Seq<char> {
        self.validator.symbol()
    }

    pub fn new(symbol: String) -> (s: Self)
        ensures
            s.symbol() == symbol@,
    {
        OrderCmdService { validator: Validator::new(symbol) }
    }

    /// A submit request becomes a new-order command, or the rejection reply
    /// for the first check it fails.
    pub fn submit(&self, req: pb::SubmitOrderCmdRequest) -> (r: Result<Command, pb::OrderCmdReply>)
        ensures
            match submit_verdict(self.symbol(), req) {
                Ok(v) => r == Ok::<Command, pb::OrderCmdReply>(submit_command_of(req, v)),
                Err(code) => r == Err::<Command, pb::OrderCmdReply>(rejection(req.order_id, code)),
            },
    {
        match self.validator.validate_submit_order_command(&req) {
            Ok((side, order_type, time_in_force)) => Ok(
                Command::NewOrder(NewOrderCommand {
                    command_id: req.command_id,
                    order_id: req.order_id,
                    user_id: req.user_id,
                    symbol: req.symbol,
                    side,
                    order_type,
                    price: req.price,
                    quantity: req.quantity,
                    timestamp: req.timestamp,
                    time_in_force,
                }),
            ),
            Err(code) => Err(reject_validation(&req.order_id, code)),
        }
    }

    /// A cancel request becomes a cancel command, or the rejection reply for
    /// the first check it fails.
    pub fn cancel(&self, req: pb::CancelOrderCmdRequest) -> (r: Result<Command, pb::OrderCmdReply>)
        ensures
            match cancel_verdict(req) {
                Ok(()) => r == Ok::<Command, pb::OrderCmdReply>(
                    Command::CancelOrder(
                        CancelOrderCommand {
                            command_id: req.command_id,
                            order_id: req.order_id,
                            timestamp: req.timestamp,
                        },
                    ),
                ),
                Err(code) => r == Err::<Command, pb::OrderCmdReply>(rejection(req.order_id, code)),
            },
    {
        match self.validator.validate_cancel_order_command(&req) {
            Ok(()) => Ok(
                Command::CancelOrder(
                    CancelOrderCommand {
                        command_id: req.command_id,
                        order_id: req.order_id,
                        timestamp: req.timestamp,
                    },
                ),
            ),
            Err(code) => Err(reject_validation(&req.order_id, code)),
        }
    }
}

} // verus!
