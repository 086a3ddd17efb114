use match_core::shared::command::{Side, TimeInForce, Type};
use match_core::transport::orders_service::validator::Validator;
use match_core::transport::proto::pb;

fn make_validator() -> Validator {
    Validator::new("BTC-USD".into())
}

fn valid_submit() -> pb::SubmitOrderCmdRequest {
    pb::SubmitOrderCmdRequest {
        command_id: "cmd-1".into(),
        order_id: "ord-1".into(),
        user_id: "user-1".into(),
        symbol: "BTC-USD".into(),
        side: pb::SIDE_BUY,
        order_type: pb::TYPE_LIMIT,
        price: 42_000.0f64.to_bits(),
        quantity: 0.25f64.to_bits(),
        timestamp: 1,
        time_in_force: pb::TIME_IN_FORCE_GTC,
    }
}

#[test]
fn submit_ok_for_valid_limit_order() {
    let v = make_validator();
    let req = valid_submit();
    let (side, ty, tif) = v.validate_submit_order_command(&req).unwrap();
    assert!(matches!(side, Side::Buy));
    assert!(matches!(ty, Type::Limit));
    assert!(matches!(tif, TimeInForce::GTC));
}

#[test]
fn submit_rejects_symbol_mismatch() {
    let v = make_validator();
    let mut req = valid_submit();
    req.symbol = "ETH-USD".into();
    assert_eq!(
        v.validate_submit_order_command(&req).unwrap_err(),
        pb::CmdErr::SubmitSymbolShardMismatch
    );
}

#[test]
fn submit_rejects_unspecified_side() {
    let v = make_validator();
    let mut req = valid_submit();
    req.side = pb::UNSPECIFIED;
    assert_eq!(
        v.validate_submit_order_command(&req).unwrap_err(),
        pb::CmdErr::SubmitSideUnspecified
    );
}

#[test]
fn submit_rejects_zero_timestamp() {
    let v = make_validator();
    let mut req = valid_submit();
    req.timestamp = 0;
    assert_eq!(
        v.validate_submit_order_command(&req).unwrap_err(),
        pb::CmdErr::SubmitTimestampZero
    );
}

#[test]
fn cancel_ok_when_ids_and_timestamp_present() {
    let v = make_validator();
    let req = pb::CancelOrderCmdRequest {
        command_id: "c1".into(),
        order_id: "o1".into(),
        timestamp: 1,
    };
    assert!(v.validate_cancel_order_command(&req).is_ok());
}

#[test]
fn cancel_rejects_zero_timestamp() {
    let v = make_validator();
    let req = pb::CancelOrderCmdRequest {
        command_id: "c1".into(),
        order_id: "o1".into(),
        timestamp: 0,
    };
    assert_eq!(
        v.validate_cancel_order_command(&req).unwrap_err(),
        pb::CmdErr::CancelTimestampZero
    );
}

fn submit_err(req: &pb::SubmitOrderCmdRequest) -> pb::CmdErr {
    make_validator().validate_submit_order_command(req).unwrap_err()
}

#[test]
fn submit_rejects_each_invalid_field_in_order() {
    let mut req = valid_submit();
    req.order_type = pb::UNSPECIFIED;
    assert_eq!(submit_err(&req), pb::CmdErr::SubmitOrderTypeUnspecified);

    for bad in [0.0f64, -1.0, f64::NAN, f64::INFINITY, f64::NEG_INFINITY, -0.0] {
        let mut req = valid_submit();
        req.price = bad.to_bits();
        assert_eq!(submit_err(&req), pb::CmdErr::SubmitPriceInvalid);
        let mut req = valid_submit();
        req.quantity = bad.to_bits();
        assert_eq!(submit_err(&req), pb::CmdErr::SubmitQtyInvalid);
    }

    let mut req = valid_submit();
    req.command_id = String::new();
    assert_eq!(submit_err(&req), pb::CmdErr::SubmitCmdIdEmpty);
    let mut req = valid_submit();
    req.order_id = String::new();
    assert_eq!(submit_err(&req), pb::CmdErr::SubmitOrderIdEmpty);
    let mut req = valid_submit();
    req.user_id = String::new();
    assert_eq!(submit_err(&req), pb::CmdErr::SubmitUserIdEmpty);
    let mut req = valid_submit();
    req.symbol = String::new();
    assert_eq!(submit_err(&req), pb::CmdErr::SubmitSymbolEmpty);
    let mut req = valid_submit();
    req.side = 7;
    assert_eq!(submit_err(&req), pb::CmdErr::SubmitSideInvalid);
    let mut req = valid_submit();
    req.order_type = 9;
    assert_eq!(submit_err(&req), pb::CmdErr::SubmitOrderTypeInvalid);
    let mut req = valid_submit();
    req.time_in_force = pb::UNSPECIFIED;
    assert_eq!(submit_err(&req), pb::CmdErr::SubmitOrderTimeInForceUnspecified);
    let mut req = valid_submit();
    req.time_in_force = 4;
    assert_eq!(submit_err(&req), pb::CmdErr::SubmitOrderTimeInForceInvalid);

    // the side check comes before the price check
    let mut req = valid_submit();
    req.side = pb::UNSPECIFIED;
    req.price = 0;
    assert_eq!(submit_err(&req), pb::CmdErr::SubmitSideUnspecified);
}

#[test]
fn submit_accepts_smallest_positive_and_decodes_every_code() {
    let mut req = valid_submit();
    req.price = 1; // smallest positive subnormal
    req.quantity = f64::MAX.to_bits();
    req.side = pb::SIDE_SELL;
    req.order_type = pb::TYPE_MARKET;
    req.time_in_force = pb::TIME_IN_FORCE_FOK;
    let (side, ty, tif) = make_validator().validate_submit_order_command(&req).unwrap();
    assert_eq!(side, Side::Sell);
    assert_eq!(ty, Type::Market);
    assert_eq!(tif, TimeInForce::FOK);
    req.time_in_force = pb::TIME_IN_FORCE_IOC;
    let (_, _, tif) = make_validator().validate_submit_order_command(&req).unwrap();
    assert_eq!(tif, TimeInForce::IOC);
}

#[test]
fn cancel_rejects_empty_ids() {
    let v = make_validator();
    let req = pb::CancelOrderCmdRequest { command_id: String::new(), order_id: "o1".into(), timestamp: 1 };
    assert_eq!(v.validate_cancel_order_command(&req).unwrap_err(), pb::CmdErr::CancelCmdIdEmpty);
    let req = pb::CancelOrderCmdRequest { command_id: "c1".into(), order_id: String::new(), timestamp: 1 };
    assert_eq!(v.validate_cancel_order_command(&req).unwrap_err(), pb::CmdErr::CancelOrderIdEmpty);
}
