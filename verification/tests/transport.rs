use match_core::config::grpc_bridge::grpc_serve_options;
use match_core::config::types::{
    default_engine_command_channel_capacity, default_grpc_command_enqueue_timeout_ms,
    default_grpc_concurrency_limit_per_connection, default_grpc_max_decoding_message_bytes,
    default_grpc_max_encoding_message_bytes, default_grpc_request_timeout_secs, GrpcConfig,
    GrpcTlsConfig,
};
use match_core::shared::command::{Command, Side, TimeInForce, Type};
use match_core::transport::dispatcher::DispatchError;
use match_core::transport::orders_service::service::{
    dispatch_outcome, dispatch_reply, order_cmd_reply, reject_validation, OrderCmdRpc,
    OrderCmdService,
};
use match_core::transport::proto::pb;
use match_core::transport::settings::{GrpcServeOptions, GrpcTlsOptions, ServeOptionsError};

fn options() -> GrpcServeOptions {
    GrpcServeOptions {
        request_timeout_secs: 30,
        concurrency_limit_per_connection: 256,
        max_decoding_message_bytes: 4 << 20,
        max_encoding_message_bytes: 4 << 20,
        command_enqueue_timeout_ms: 5000,
        tls: None,
    }
}

#[test]
fn serve_options_validation_names_the_first_problem() {
    assert_eq!(options().validate(), Ok(()));
    let mut o = options();
    o.request_timeout_secs = 0;
    o.concurrency_limit_per_connection = 0;
    assert_eq!(o.validate(), Err(ServeOptionsError::RequestTimeoutZero));
    let mut o = options();
    o.concurrency_limit_per_connection = 0;
    assert_eq!(o.validate(), Err(ServeOptionsError::ConcurrencyLimitZero));
    let mut o = options();
    o.max_encoding_message_bytes = 0;
    assert_eq!(o.validate(), Err(ServeOptionsError::MessageSizeZero));
    let mut o = options();
    o.command_enqueue_timeout_ms = 0;
    assert_eq!(o.validate(), Err(ServeOptionsError::EnqueueTimeoutZero));
    let mut o = options();
    o.tls = Some(GrpcTlsOptions {
        cert_path: "c.pem".into(),
        key_path: "k.pem".into(),
        client_ca_path: Some(String::new()),
        client_auth_optional: false,
    });
    assert_eq!(o.validate(), Err(ServeOptionsError::ClientCaPathEmpty));
    assert_eq!(
        ServeOptionsError::ClientCaPathEmpty.message(),
        "grpc TLS client_ca_path must not be empty when set"
    );
    let mut o = options();
    o.tls = Some(GrpcTlsOptions {
        cert_path: "c.pem".into(),
        key_path: "k.pem".into(),
        client_ca_path: Some("ca.pem".into()),
        client_auth_optional: true,
    });
    assert_eq!(o.validate(), Ok(()));
}

#[test]
fn config_defaults() {
    assert_eq!(default_grpc_request_timeout_secs(), 30);
    assert_eq!(default_grpc_concurrency_limit_per_connection(), 256);
    assert_eq!(default_grpc_max_decoding_message_bytes(), 4 * 1024 * 1024);
    assert_eq!(default_grpc_max_encoding_message_bytes(), 4 * 1024 * 1024);
    assert_eq!(default_grpc_command_enqueue_timeout_ms(), 5_000);
    assert_eq!(default_engine_command_channel_capacity(), 65_536);
}

#[test]
fn grpc_config_maps_field_for_field() {
    let cfg = GrpcConfig {
        port: 50051,
        tls: Some(GrpcTlsConfig {
            cert_path: "cert".into(),
            key_path: "key".into(),
            client_ca_path: Some("ca".into()),
            client_auth_optional: true,
        }),
        request_timeout_secs: 7,
        concurrency_limit_per_connection: 3,
        max_decoding_message_bytes: 11,
        max_encoding_message_bytes: 13,
        command_enqueue_timeout_ms: 17,
    };
    let o = grpc_serve_options(&cfg);
    assert_eq!(o.request_timeout_secs, 7);
    assert_eq!(o.concurrency_limit_per_connection, 3);
    assert_eq!(o.max_decoding_message_bytes, 11);
    assert_eq!(o.max_encoding_message_bytes, 13);
    assert_eq!(o.command_enqueue_timeout_ms, 17);
    let tls = o.tls.unwrap();
    assert_eq!(tls.cert_path, "cert");
    assert_eq!(tls.key_path, "key");
    assert_eq!(tls.client_ca_path.as_deref(), Some("ca"));
    assert!(tls.client_auth_optional);
    let plain = GrpcConfig { tls: None, ..cfg };
    assert!(grpc_serve_options(&plain).tls.is_none());
}

#[test]
fn rpc_names_and_codes() {
    assert_eq!(OrderCmdRpc::Submit.trace_rpc(), "Submit");
    assert_eq!(OrderCmdRpc::Cancel.trace_rpc(), "Cancel");
    assert_eq!(OrderCmdRpc::Submit.metric_rpc(), "submit");
    assert_eq!(OrderCmdRpc::Cancel.metric_rpc(), "cancel");
    assert_eq!(OrderCmdRpc::Submit.engine_unavailable_err(), pb::CmdErr::SubmitEngineUnavailable);
    assert_eq!(OrderCmdRpc::Cancel.engine_unavailable_err(), pb::CmdErr::CancelEngineUnavailable);
    assert_eq!(OrderCmdRpc::Submit.command_queue_timeout_err(), pb::CmdErr::SubmitCommandQueueTimeout);
    assert_eq!(OrderCmdRpc::Cancel.command_queue_timeout_err(), pb::CmdErr::CancelCommandQueueTimeout);
    assert_eq!(pb::CmdErr::Unspecified.code(), 0);
    assert_eq!(pb::CmdErr::SubmitSymbolShardMismatch.code(), 10);
    assert_eq!(pb::CmdErr::CancelCommandQueueTimeout.code(), 21);
    assert_eq!(pb::OrderCmdAck::Queued.code(), 1);
    assert_eq!(pb::OrderCmdAck::Rejected.code(), 2);
}

#[test]
fn replies_for_each_outcome() {
    let id = String::from("ord-9");
    let r = order_cmd_reply(id.clone(), 1, None);
    assert_eq!((r.order_id.as_str(), r.status, r.error_code), ("ord-9", 1, None));
    let r = reject_validation(&id, pb::CmdErr::SubmitQtyInvalid);
    assert_eq!((r.order_id.as_str(), r.status, r.error_code), ("ord-9", 2, Some(4)));
    let r = dispatch_reply(OrderCmdRpc::Submit, &id, Ok(()));
    assert_eq!((r.status, r.error_code), (1, None));
    let r = dispatch_reply(OrderCmdRpc::Cancel, &id, Err(DispatchError::ChannelClosed));
    assert_eq!((r.status, r.error_code), (2, Some(20)));
    let r = dispatch_reply(OrderCmdRpc::Submit, &id, Err(DispatchError::EnqueueTimeout));
    assert_eq!((r.order_id.as_str(), r.status, r.error_code), ("ord-9", 2, Some(16)));
    assert_eq!(dispatch_outcome(Ok(())), "queued");
    assert_eq!(dispatch_outcome(Err(DispatchError::ChannelClosed)), "rejected_engine_unavailable");
    assert_eq!(dispatch_outcome(Err(DispatchError::EnqueueTimeout)), "rejected_command_queue_timeout");
}

fn submit_request() -> pb::SubmitOrderCmdRequest {
    pb::SubmitOrderCmdRequest {
        command_id: "cmd-1".into(),
        order_id: "ord-1".into(),
        user_id: "user-1".into(),
        symbol: "BTC-USD".into(),
        side: pb::SIDE_SELL,
        order_type: pb::TYPE_MARKET,
        price: 100.5f64.to_bits(),
        quantity: 2.0f64.to_bits(),
        timestamp: 99,
        time_in_force: pb::TIME_IN_FORCE_IOC,
    }
}

#[test]
fn service_turns_requests_into_commands_or_rejections() {
    let svc = OrderCmdService::new("BTC-USD".into());
    match svc.submit(submit_request()) {
        Ok(Command::NewOrder(c)) => {
            assert_eq!(c.command_id, "cmd-1");
            assert_eq!(c.order_id, "ord-1");
            assert_eq!(c.user_id, "user-1");
            assert_eq!(c.symbol, "BTC-USD");
            assert_eq!(c.side, Side::Sell);
            assert_eq!(c.order_type, Type::Market);
            assert_eq!(c.time_in_force, TimeInForce::IOC);
            assert_eq!(f64::from_bits(c.price), 100.5);
            assert_eq!(f64::from_bits(c.quantity), 2.0);
            assert_eq!(c.timestamp, 99);
        }
        _ => panic!("expected a new-order command"),
    }
    let mut bad = submit_request();
    bad.symbol = "ETH-USD".into();
    let reply = svc.submit(bad).err().unwrap();
    assert_eq!(reply.order_id, "ord-1");
    assert_eq!(reply.error_code, Some(pb::CmdErr::SubmitSymbolShardMismatch.code()));

    let cancel = pb::CancelOrderCmdRequest { command_id: "c".into(), order_id: "o".into(), timestamp: 1 };
    match svc.cancel(cancel) {
        Ok(Command::CancelOrder(c)) => {
            assert_eq!((c.command_id.as_str(), c.order_id.as_str(), c.timestamp), ("c", "o", 1));
        }
        _ => panic!("expected a cancel command"),
    }
    let cancel = pb::CancelOrderCmdRequest { command_id: "c".into(), order_id: String::new(), timestamp: 1 };
    let reply = svc.cancel(cancel).err().unwrap();
    assert_eq!(reply.status, 2);
    assert_eq!(reply.error_code, Some(pb::CmdErr::CancelOrderIdEmpty.code()));
}
