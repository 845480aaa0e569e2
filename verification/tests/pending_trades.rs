use binary_options_tools::pocketoption::pending_trades::{cancel_order_context, open_order_context};
use binary_options_tools::json::JsonValue;
use binary_options_tools::message::Message;
use binary_options_tools::pocketoption::pending_trades::{
    cancel_outcome, decode_fail_cancel, extract_ticket_from_value, mismatch_error, open_outcome,
    parse_server_response, server_event_of, server_response, timeout_error, CancelPendingOrderResult,
    CommandResponse, PendingOrderError, PendingTradesApiModule, ResponseCache, ResponseError, ResponseWait,
    ServerEvent, ServerMessage, ServerReply, ServerResponse, WaitStep, MAX_MISMATCH_RETRIES,
};

const TICKET: &str = "2f561661-334c-4de3-920f-f095c7b1193f";
const TICKET_ID: u128 = 0x2f561661_334c_4de3_920f_f095c7b1193f;

fn s(x: &str) -> JsonValue {
    JsonValue::Str(x.to_string())
}

fn obj(members: Vec<(&str, JsonValue)>) -> JsonValue {
    JsonValue::Object(members.into_iter().map(|(k, v)| (k.to_string(), v)).collect())
}

#[test]
fn event_names_of_answers() {
    assert_eq!(server_event_of("successopenPendingOrder"), Some(ServerEvent::OpenSuccess));
    assert_eq!(server_event_of("failopenPendingOrder"), Some(ServerEvent::OpenFail));
    assert_eq!(server_event_of("successcancelPendingOrder"), Some(ServerEvent::CancelSuccess));
    assert_eq!(server_event_of("failcancelPendingOrder"), Some(ServerEvent::CancelFail));
    assert_eq!(server_event_of("unknown"), None);
}

#[test]
fn whole_json_documents() {
    match parse_server_response(&Message::Text(r#"{"ticket":"x","amount":1}"#.to_string())) {
        Ok(ServerMessage::Document(JsonValue::Object(ms))) => assert_eq!(ms.len(), 2),
        other => panic!("unexpected {:?}", other),
    }
    match parse_server_response(&Message::Binary(b"[1,2]".to_vec())) {
        Ok(ServerMessage::Document(JsonValue::Array(items))) => assert_eq!(items.len(), 2),
        other => panic!("unexpected {:?}", other),
    }
}

#[test]
fn socket_io_frames() {
    match parse_server_response(&Message::Text(r#"42["successopenPendingOrder",{"a":1}]"#.to_string())) {
        Ok(ServerMessage::Event(ServerEvent::OpenSuccess, JsonValue::Object(_))) => {},
        other => panic!("unexpected {:?}", other),
    }
    match parse_server_response(&Message::Text(r#"42["failcancelPendingOrder","oops"]"#.to_string())) {
        Ok(ServerMessage::Event(ServerEvent::CancelFail, JsonValue::Str(t))) => assert_eq!(t, "oops"),
        other => panic!("unexpected {:?}", other),
    }
}

#[test]
fn refused_messages() {
    assert!(matches!(
        parse_server_response(&Message::Text(r#"42["unknown",{}]"#.to_string())),
        Err(ResponseError::NotJson)
    ));
    assert!(matches!(
        parse_server_response(&Message::Text(r#"42["successopenPendingOrder"]"#.to_string())),
        Err(ResponseError::NotJson)
    ));
    assert!(matches!(
        parse_server_response(&Message::Text("invalid json data".to_string())),
        Err(ResponseError::NotJson)
    ));
    assert!(matches!(
        parse_server_response(&Message::Binary(vec![0xff, 0xfe])),
        Err(ResponseError::NotJson)
    ));
    let err = parse_server_response(&Message::Ping(vec![])).unwrap_err();
    assert_eq!(err, ResponseError::Unsupported);
    assert_eq!(err.message(), "unsupported message type");
}

#[test]
fn documents_are_told_by_shape() {
    let doc = || ServerMessage::Document(obj(vec![("x", s("y"))]));
    assert!(matches!(server_response::<u8, u8>(doc(), Some(1), Some(2)), Ok(ServerResponse::Success(1))));
    assert!(matches!(server_response::<u8, u8>(doc(), None, Some(2)), Ok(ServerResponse::Fail(2))));
    assert!(matches!(server_response::<u8, u8>(doc(), None, None), Ok(ServerResponse::CancelSuccess(_))));
}

#[test]
fn events_need_their_shape() {
    let ev = |e| ServerMessage::Event(e, JsonValue::Null);
    assert!(matches!(server_response::<u8, u8>(ev(ServerEvent::OpenSuccess), Some(1), Some(2)), Ok(ServerResponse::Success(1))));
    assert!(matches!(server_response::<u8, u8>(ev(ServerEvent::OpenSuccess), None, Some(2)), Err(ResponseError::InvalidPayload)));
    assert!(matches!(server_response::<u8, u8>(ev(ServerEvent::OpenFail), Some(1), Some(2)), Ok(ServerResponse::Fail(2))));
    assert!(matches!(server_response::<u8, u8>(ev(ServerEvent::OpenFail), Some(1), None), Err(ResponseError::InvalidPayload)));
    assert!(matches!(server_response::<u8, u8>(ev(ServerEvent::CancelSuccess), None, None), Ok(ServerResponse::CancelSuccess(JsonValue::Null))));
    assert!(matches!(server_response::<u8, u8>(ev(ServerEvent::CancelFail), None, None), Err(ResponseError::InvalidPayload)));
    let fail = ServerMessage::Event(ServerEvent::CancelFail, obj(vec![("error", s("no such order")), ("ticket", s(TICKET))]));
    match server_response::<u8, u8>(fail, None, None) {
        Ok(ServerResponse::CancelFail(f)) => {
            assert_eq!(f.error, "no such order");
            assert_eq!(f.ticket, Some(TICKET_ID));
        },
        other => panic!("unexpected {:?}", other),
    }
}

#[test]
fn refusals_to_cancel() {
    let f = decode_fail_cancel(&obj(vec![("error", s("e"))])).unwrap();
    assert_eq!(f.error, "e");
    assert_eq!(f.ticket, None);
    assert_eq!(decode_fail_cancel(&obj(vec![("error", s("e")), ("ticket", JsonValue::Null)])).unwrap().ticket, None);
    assert!(decode_fail_cancel(&obj(vec![("error", s("e")), ("ticket", s("nope"))])).is_none());
    assert!(decode_fail_cancel(&obj(vec![("ticket", s(TICKET))])).is_none());
    assert!(decode_fail_cancel(&s("e")).is_none());
    let listed = decode_fail_cancel(&JsonValue::Array(vec![s("e"), s(TICKET)])).unwrap();
    assert_eq!(listed.error, "e");
    assert_eq!(listed.ticket, Some(TICKET_ID));
    assert_eq!(decode_fail_cancel(&JsonValue::Array(vec![s("e")])).unwrap().ticket, None);
    assert!(decode_fail_cancel(&JsonValue::Array(vec![s("e"), JsonValue::Null, JsonValue::Null])).is_none());
}

#[test]
fn tickets_of_cancellations() {
    assert_eq!(extract_ticket_from_value(&obj(vec![("ticket", s(TICKET))])), Some(TICKET_ID));
    assert_eq!(extract_ticket_from_value(&s(TICKET)), Some(TICKET_ID));
    assert_eq!(extract_ticket_from_value(&s("2F561661334C4DE3920FF095C7B1193F")), Some(TICKET_ID));
    assert_eq!(extract_ticket_from_value(&obj(vec![("ticket", s("bad"))])), None);
    assert_eq!(extract_ticket_from_value(&obj(vec![("ticket", JsonValue::Null)])), None);
    assert_eq!(extract_ticket_from_value(&JsonValue::Bool(true)), None);
}

#[test]
fn answers_go_to_requests_in_order() {
    let mut m = PendingTradesApiModule::new();
    m.on_open_command(1);
    m.on_open_command(2);
    m.on_cancel_command(3, 30);
    match m.on_server_response::<&str, &str>(ServerResponse::Success("order-a")) {
        ServerReply::Opened(o, Some(1)) => assert_eq!(o, "order-a"),
        other => panic!("unexpected {:?}", other),
    }
    match m.on_server_response::<&str, &str>(ServerResponse::Fail("refused")) {
        ServerReply::Respond(CommandResponse::Error { req_id: 2, fail }) => assert_eq!(fail, "refused"),
        other => panic!("unexpected {:?}", other),
    }
    match m.on_server_response::<&str, &str>(ServerResponse::CancelSuccess(JsonValue::Null)) {
        ServerReply::Respond(CommandResponse::CancelSuccess { req_id: 3, result }) => {
            assert_eq!(result.ticket, 30);
            assert_eq!(result.status, "cancelled");
        },
        other => panic!("unexpected {:?}", other),
    }
}

#[test]
fn answers_without_requests() {
    let mut m = PendingTradesApiModule::new();
    assert!(matches!(m.on_server_response::<u8, u8>(ServerResponse::Success(9)), ServerReply::Opened(9, None)));
    assert!(matches!(m.on_server_response::<u8, u8>(ServerResponse::Fail(9)), ServerReply::Unclaimed));
    assert!(matches!(m.on_server_response::<u8, u8>(ServerResponse::CancelSuccess(JsonValue::Null)), ServerReply::Unclaimed));
    m.on_open_command(5);
    assert!(matches!(m.on_server_response::<u8, u8>(ServerResponse::CancelSuccess(JsonValue::Null)), ServerReply::Unclaimed));
    assert!(matches!(m.on_server_response::<u8, u8>(ServerResponse::Success(1)), ServerReply::Opened(1, Some(5))));
}

#[test]
fn cancellation_tickets_prefer_the_answer() {
    let mut m = PendingTradesApiModule::new();
    m.on_cancel_command(1, 11);
    m.on_cancel_command(2, 22);
    match m.on_server_response::<u8, u8>(ServerResponse::CancelSuccess(obj(vec![("ticket", s(TICKET))]))) {
        ServerReply::Respond(CommandResponse::CancelSuccess { req_id: 1, result }) => assert_eq!(result.ticket, TICKET_ID),
        other => panic!("unexpected {:?}", other),
    }
    let refusal = decode_fail_cancel(&obj(vec![("error", s("too late"))])).unwrap();
    match m.on_server_response::<u8, u8>(ServerResponse::CancelFail(refusal)) {
        ServerReply::Respond(CommandResponse::CancelError { req_id: 2, ticket, error }) => {
            assert_eq!(ticket, 22);
            assert_eq!(error, "too late");
        },
        other => panic!("unexpected {:?}", other),
    }
}

fn success(req_id: u128) -> CommandResponse<u8, u8> {
    CommandResponse::Success { req_id, pending_order: 0 }
}

#[test]
fn test_open_pending_order_mismatch_retry() {
    let mut cache = ResponseCache::new();
    let mut wait = ResponseWait::new(3);
    assert!(wait.from_cache(&mut cache).is_none());
    assert!(matches!(wait.on_received(success(1), &mut cache), WaitStep::KeepWaiting));
    assert!(matches!(wait.on_received(success(2), &mut cache), WaitStep::KeepWaiting));
    match wait.on_received(success(3), &mut cache) {
        WaitStep::Done(r) => assert_eq!(r.req_id(), 3),
        other => panic!("unexpected {:?}", other),
    }
    // The answers to the other requests were kept for their callers.
    let other = ResponseWait::new(1);
    assert_eq!(other.from_cache(&mut cache).map(|r| r.req_id()), Some(1));
    assert!(other.from_cache(&mut cache).is_none());
    assert_eq!(cache.take(2).map(|r| r.req_id()), Some(2));
}

#[test]
fn test_open_pending_order_mismatch_max_retries_exceeded() {
    let mut cache = ResponseCache::new();
    let mut wait = ResponseWait::new(100);
    for i in 0..MAX_MISMATCH_RETRIES - 1 {
        assert!(matches!(wait.on_received(success(i as u128), &mut cache), WaitStep::KeepWaiting));
    }
    assert!(matches!(wait.on_received(success(99), &mut cache), WaitStep::GiveUp));
    match mismatch_error::<u8>("open_pending_order", "asset: EURUSD_otc, open_type: 1") {
        PendingOrderError::Timeout { task, context, duration_secs } => {
            assert_eq!(task, "open_pending_order");
            assert_eq!(context, "asset: EURUSD_otc, open_type: 1, exceeded mismatch retries");
            assert_eq!(duration_secs, 30);
        },
        other => panic!("unexpected {:?}", other),
    }
    assert!(matches!(
        timeout_error::<u8>("cancel_pending_order", "ticket: x".to_string()),
        PendingOrderError::Timeout { duration_secs: 30, .. }
    ));
}

#[test]
fn outcomes_of_answers() {
    assert!(matches!(open_outcome::<u8, u8>(success(1)), Ok(0)));
    assert!(matches!(open_outcome::<u8, u8>(CommandResponse::Error { req_id: 1, fail: 7 }), Err(PendingOrderError::FailOpenOrder(7))));
    match open_outcome::<u8, u8>(CommandResponse::CancelError { req_id: 1, ticket: 0, error: String::new() }) {
        Err(PendingOrderError::General(m)) => assert_eq!(m, "unexpected response type for open_pending_order"),
        other => panic!("unexpected {:?}", other),
    }
    let done = CommandResponse::<u8, u8>::CancelSuccess {
        req_id: 1,
        result: CancelPendingOrderResult { ticket: 5, status: "cancelled".to_string() },
    };
    assert_eq!(cancel_outcome(done).unwrap().ticket, 5);
    match cancel_outcome::<u8, u8>(CommandResponse::CancelError { req_id: 1, ticket: TICKET_ID, error: "gone".to_string() }) {
        Err(PendingOrderError::General(m)) => assert_eq!(m, format!("Failed to cancel ticket {}: gone", TICKET)),
        other => panic!("unexpected {:?}", other),
    }
    match cancel_outcome::<u8, u8>(success(1)) {
        Err(PendingOrderError::General(m)) => assert_eq!(m, "unexpected response type for cancel_pending_order"),
        other => panic!("unexpected {:?}", other),
    }
}

#[test]
fn wait_contexts() {
    assert_eq!(open_order_context("EURUSD_otc", 1), "asset: EURUSD_otc, open_type: 1");
    assert_eq!(open_order_context("X", 4294967295), "asset: X, open_type: 4294967295");
    assert_eq!(cancel_order_context(TICKET_ID), format!("ticket: {}", TICKET));
}

fn claims(text: &str) -> bool {
    parse_server_response(&Message::Text(text.to_string())).is_ok()
}

#[test]
fn test_new_creates_module() {
    let _module = PendingTradesApiModule::new();
    assert!(claims("42[\"successopenPendingOrder\",{}]"));
    assert!(claims("42[\"failopenPendingOrder\",{}]"));
    assert!(!claims("42[\"unknown\",{}]"));
}

#[test]
fn test_rule_returns_multi_pattern_rule() {
    assert!(claims("42[\"successopenPendingOrder\",{}]"));
    assert!(claims("42[\"failopenPendingOrder\",{}]"));
    assert!(!claims("42[\"unknown\",{}]"));
}

#[test]
fn mixed_requests_are_answered_in_order() {
    let mut m = PendingTradesApiModule::new();
    m.on_open_command(1);
    m.on_cancel_command(2, TICKET_ID);
    m.on_open_command(3);
    let first: ServerReply<u8, u8> = m.on_server_response(ServerResponse::Fail(9));
    assert!(matches!(first, ServerReply::Respond(CommandResponse::Error { req_id: 1, fail: 9 })));
    let second: ServerReply<u8, u8> = m.on_server_response(ServerResponse::CancelSuccess(s(TICKET)));
    assert!(matches!(second, ServerReply::Respond(CommandResponse::CancelSuccess { req_id: 2, .. })));
    let third: ServerReply<u8, u8> = m.on_server_response(ServerResponse::Success(4));
    assert!(matches!(third, ServerReply::Opened(4, Some(3))));
    let unclaimed: ServerReply<u8, u8> = m.on_server_response(ServerResponse::Success(5));
    assert!(matches!(unclaimed, ServerReply::Opened(5, None)));
}
