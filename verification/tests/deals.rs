use binary_options_tools::json::JsonValue;
use binary_options_tools::message::Message;
use binary_options_tools::pocketoption::deal_book::{deals_of_payload, DealBook};
use binary_options_tools::pocketoption::deals::{
    check_result_timeout, event_kind_of, CheckOutcome, DealAction, DealPayload, DealsApiModule, DealsError,
    ExpectedMessage,
};

fn text(s: &str) -> Message {
    Message::Text(s.to_string())
}

#[test]
fn event_names() {
    assert_eq!(event_kind_of("updateOpenedDeals"), ExpectedMessage::UpdateOpenedDeals);
    assert_eq!(event_kind_of("updateClosedDeals"), ExpectedMessage::UpdateClosedDeals);
    assert_eq!(event_kind_of("successcloseOrder"), ExpectedMessage::SuccessCloseOrder);
    assert_eq!(event_kind_of("updateBalance"), ExpectedMessage::Idle);
}

#[test]
fn single_message_update_is_processed() {
    let mut m: DealsApiModule<u32> = DealsApiModule::new();
    match m.on_message(text(r#"42["updateOpenedDeals",[{"id":"2f561661-334c-4de3-920f-f095c7b1193f"}]]"#)) {
        DealAction::Process(ExpectedMessage::UpdateOpenedDeals, DealPayload::Json(JsonValue::Array(items))) => {
            assert_eq!(items.len(), 1);
            match &items[0] {
                JsonValue::Object(members) => assert_eq!(members[0].0, "id"),
                other => panic!("unexpected item {:?}", other),
            }
        },
        other => panic!("unexpected action {:?}", other),
    }
    // Nothing is awaited afterwards: a binary message is ignored.
    assert!(matches!(m.on_message(Message::Binary(vec![1, 2])), DealAction::Ignore));
}

#[test]
fn legacy_prefix_is_read_too() {
    let mut m: DealsApiModule<u32> = DealsApiModule::new();
    assert!(matches!(
        m.on_message(text(r#"451-["updateClosedDeals",[]]"#)),
        DealAction::Process(ExpectedMessage::UpdateClosedDeals, DealPayload::Json(JsonValue::Array(_)))
    ));
}

#[test]
fn header_then_binary_payload() {
    let mut m: DealsApiModule<u32> = DealsApiModule::new();
    assert!(matches!(m.on_message(text(r#"451-["successcloseOrder"]"#)), DealAction::Ignore));
    match m.on_message(Message::Binary(b"{\"profit\":1,\"deals\":[]}".to_vec())) {
        DealAction::Process(ExpectedMessage::SuccessCloseOrder, DealPayload::Bytes(b)) => {
            assert_eq!(b, b"{\"profit\":1,\"deals\":[]}".to_vec())
        },
        other => panic!("unexpected action {:?}", other),
    }
    assert!(matches!(m.on_message(Message::Binary(vec![0])), DealAction::Ignore));
}

#[test]
fn header_then_text_payload() {
    let mut m: DealsApiModule<u32> = DealsApiModule::new();
    assert!(matches!(m.on_message(text(r#"42["updateOpenedDeals"]"#)), DealAction::Ignore));
    match m.on_message(text("[]")) {
        DealAction::Process(ExpectedMessage::UpdateOpenedDeals, DealPayload::Text(t)) => assert_eq!(t, "[]"),
        other => panic!("unexpected action {:?}", other),
    }
}

#[test]
fn other_messages_are_ignored() {
    let mut m: DealsApiModule<u32> = DealsApiModule::new();
    assert!(matches!(m.on_message(text(r#"42["updateBalance",{}]"#)), DealAction::Ignore));
    assert!(matches!(m.on_message(text("not a frame")), DealAction::Ignore));
    assert!(matches!(m.on_message(Message::Ping(vec![])), DealAction::Ignore));
    assert!(matches!(m.on_message(Message::Binary(vec![1])), DealAction::Ignore));
}

#[test]
fn ping_keeps_the_awaited_kind() {
    let mut m: DealsApiModule<u32> = DealsApiModule::new();
    m.on_message(text(r#"42["updateClosedDeals"]"#));
    assert!(matches!(m.on_message(Message::Pong(vec![])), DealAction::Ignore));
    assert!(matches!(
        m.on_message(Message::Binary(vec![b'[', b']'])),
        DealAction::Process(ExpectedMessage::UpdateClosedDeals, DealPayload::Bytes(_))
    ));
}

#[test]
fn check_result_outcomes() {
    let mut m: DealsApiModule<&str> = DealsApiModule::new();
    assert!(matches!(m.on_check_result::<u8>(7, true, None, "first"), CheckOutcome::Waiting));
    assert!(matches!(m.on_check_result::<u8>(7, true, Some(3), "second"), CheckOutcome::Waiting));
    match m.on_check_result(8, false, Some(42u8), "third") {
        CheckOutcome::Closed(d, w) => {
            assert_eq!(d, 42);
            assert_eq!(w, "third");
        },
        other => panic!("unexpected outcome {:?}", other),
    }
    match m.on_check_result::<u8>(9, false, None, "fourth") {
        CheckOutcome::DealNotFound(id, w) => {
            assert_eq!(id, 9);
            assert_eq!(w, "fourth");
        },
        other => panic!("unexpected outcome {:?}", other),
    }
    assert_eq!(m.take_waiters(7), vec!["first", "second"]);
    assert!(m.take_waiters(7).is_empty());
}

#[test]
fn closing_deals_releases_waiters_once() {
    let mut m: DealsApiModule<u32> = DealsApiModule::new();
    m.wait_for(10, 1);
    m.wait_for(20, 2);
    m.wait_for(10, 3);
    m.wait_for(30, 4);
    let released = m.on_deals_closed(&vec![5, 10, 20, 10]);
    assert_eq!(released, vec![(1, vec![1, 3]), (2, vec![2])]);
    assert!(m.on_deals_closed(&vec![10, 20]).is_empty());
    assert_eq!(m.take_waiters(30), vec![4]);
}

#[test]
fn check_result_timeout_names_the_trade() {
    let id: u128 = 0x2f561661_334c_4de3_920f_f095c7b1193f;
    match check_result_timeout(id, 5) {
        DealsError::Timeout { task, context, duration_secs } => {
            assert_eq!(task, "check_result");
            assert_eq!(context, "Waiting for trade '2f561661-334c-4de3-920f-f095c7b1193f' result");
            assert_eq!(duration_secs, 5);
        },
        other => panic!("unexpected error {:?}", other),
    }
}

#[test]
fn test_deals_module_resilient_parsing() {
    let mut m: DealsApiModule<u32> = DealsApiModule::new();
    assert!(
        matches!(
            m.on_message(text(r#"451-["updateOpenedDeals",[]]"#)),
            DealAction::Process(ExpectedMessage::UpdateOpenedDeals, DealPayload::Json(JsonValue::Array(_)))
        ),
        "451- prefix should be read for deals"
    );
    assert!(
        matches!(
            m.on_message(text(r#"42["updateOpenedDeals",[]]"#)),
            DealAction::Process(ExpectedMessage::UpdateOpenedDeals, DealPayload::Json(JsonValue::Array(_)))
        ),
        "42 prefix should be read for deals"
    );
    let deal_json = r#"{
        "id": "2f561661-334c-4de3-920f-f095c7b1193f",
        "openTime": "2024-12-05 00:52:26",
        "closeTime": "2024-12-05 01:22:26",
        "openTimestamp": 1733359946,
        "closeTimestamp": 1733361746,
        "uid": 87742848,
        "amount": 1,
        "profit": 0.87,
        "percentProfit": 87,
        "percentLoss": 100,
        "openPrice": 37.81371,
        "closePrice": 0,
        "command": 1,
        "asset": "EURTRY_otc",
        "isDemo": 1,
        "copyTicket": "",
        "openMs": 61,
        "optionType": 100,
        "isRollover": false,
        "isCopySignal": false,
        "currency": "USD",
        "amountUSD": 1
    }"#;
    let msg = format!(r#"42["updateOpenedDeals",[{}]]"#, deal_json);
    match m.on_message(text(&msg)) {
        DealAction::Process(ExpectedMessage::UpdateOpenedDeals, DealPayload::Json(JsonValue::Array(items))) => {
            assert_eq!(items.len(), 1);
            match &items[0] {
                JsonValue::Object(members) => {
                    let id = members.iter().find(|(k, _)| k == "id").map(|(_, v)| v);
                    match id {
                        Some(JsonValue::Str(s)) => assert_eq!(s, "2f561661-334c-4de3-920f-f095c7b1193f"),
                        other => panic!("deal id missing: {:?}", other),
                    }
                },
                other => panic!("unexpected item {:?}", other),
            }
        },
        other => panic!("unexpected action {:?}", other),
    }
}

const DEAL_ID: u128 = 0x2f561661_334c_4de3_920f_f095c7b1193f;

fn ids_of(kind: ExpectedMessage, payload: DealPayload) -> Option<Vec<u128>> {
    deals_of_payload(kind, payload).map(|(ids, _)| ids)
}

#[test]
fn deal_lists_of_payloads() {
    let list = r#"[{"id":"2f561661-334c-4de3-920f-f095c7b1193f","amount":1},{"id":"00000000-0000-4000-8000-000000000001"}]"#;
    assert_eq!(
        ids_of(ExpectedMessage::UpdateOpenedDeals, DealPayload::Text(list.to_string())),
        Some(vec![DEAL_ID, 0x00000000_0000_4000_8000_000000000001])
    );
    assert_eq!(ids_of(ExpectedMessage::UpdateClosedDeals, DealPayload::Bytes(list.as_bytes().to_vec())), Some(vec![DEAL_ID, 0x00000000_0000_4000_8000_000000000001]));
    // A closed order: its deals.
    let order = r#"{"profit":0.87,"deals":[{"id":"2f561661-334c-4de3-920f-f095c7b1193f"}]}"#;
    assert_eq!(ids_of(ExpectedMessage::SuccessCloseOrder, DealPayload::Text(order.to_string())), Some(vec![DEAL_ID]));
    // The same order as a list of its two fields.
    let pair = r#"["0.87",[{"id":"2f561661-334c-4de3-920f-f095c7b1193f"}]]"#;
    assert_eq!(ids_of(ExpectedMessage::SuccessCloseOrder, DealPayload::Text(pair.to_string())), Some(vec![DEAL_ID]));
    // Only a closed order is read as one.
    assert_eq!(ids_of(ExpectedMessage::UpdateClosedDeals, DealPayload::Text(order.to_string())), None);
    // A plain list is read for a closed order too.
    assert_eq!(ids_of(ExpectedMessage::SuccessCloseOrder, DealPayload::Text(list.to_string())).map(|v| v.len()), Some(2));
    // Refusals: a deal without a UUID id, an order without profit, text that is not JSON.
    assert_eq!(ids_of(ExpectedMessage::UpdateOpenedDeals, DealPayload::Text(r#"[{"id":"x"}]"#.to_string())), None);
    assert_eq!(ids_of(ExpectedMessage::SuccessCloseOrder, DealPayload::Text(r#"{"deals":[]}"#.to_string())), None);
    assert_eq!(ids_of(ExpectedMessage::UpdateOpenedDeals, DealPayload::Text("not json".to_string())), None);
    assert_eq!(ids_of(ExpectedMessage::UpdateOpenedDeals, DealPayload::Bytes(vec![0xff, 0xfe])), None);
    assert_eq!(ids_of(ExpectedMessage::Idle, DealPayload::Text("[]".to_string())), None);
    assert_eq!(ids_of(ExpectedMessage::UpdateOpenedDeals, DealPayload::Text("[]".to_string())), Some(vec![]));
}

#[test]
fn one_step_update_fills_the_opened_deals() {
    let mut m: DealsApiModule<u32> = DealsApiModule::new();
    let mut book: DealBook<&str> = DealBook::new();
    let msg = r#"42["updateOpenedDeals",[{"id":"2f561661-334c-4de3-920f-f095c7b1193f","asset":"EURTRY_otc","profit":0.87}]]"#;
    let (kind, payload) = match m.on_message(text(msg)) {
        DealAction::Process(kind, payload) => (kind, payload),
        other => panic!("unexpected action {:?}", other),
    };
    let (ids, items) = deals_of_payload(kind, payload).unwrap();
    assert_eq!(ids, vec![DEAL_ID]);
    assert_eq!(items.len(), 1);
    let released = m.on_deal_list(&mut book, kind, vec![(ids[0], "deal")]);
    assert!(released.is_empty());
    assert!(book.is_open(DEAL_ID));
    assert_eq!(book.opened_deal(DEAL_ID), Some(&"deal"));
    assert_eq!(book.closed_deal(DEAL_ID), None);
}

#[test]
fn closed_deals_enter_the_book_and_release_waiters() {
    let mut m: DealsApiModule<u32> = DealsApiModule::new();
    let mut book: DealBook<&str> = DealBook::new();
    m.on_deal_list(&mut book, ExpectedMessage::UpdateOpenedDeals, vec![(DEAL_ID, "open"), (7, "other")]);
    assert!(matches!(m.on_check_result::<&str>(DEAL_ID, book.is_open(DEAL_ID), None, 1), CheckOutcome::Waiting));
    assert!(matches!(m.on_check_result::<&str>(DEAL_ID, book.is_open(DEAL_ID), None, 2), CheckOutcome::Waiting));
    let released = m.on_deal_list(&mut book, ExpectedMessage::SuccessCloseOrder, vec![(DEAL_ID, "closed")]);
    assert_eq!(released, vec![(0, vec![1, 2])]);
    assert!(!book.is_open(DEAL_ID));
    assert!(book.is_open(7));
    assert_eq!(book.closed_deal(DEAL_ID), Some(&"closed"));
    assert!(m.take_waiters(DEAL_ID).is_empty());
    // A later request is answered at once from the closed deals.
    match m.on_check_result(DEAL_ID, book.is_open(DEAL_ID), book.closed_deal(DEAL_ID).cloned(), 3) {
        CheckOutcome::Closed(d, w) => {
            assert_eq!(d, "closed");
            assert_eq!(w, 3);
        },
        other => panic!("unexpected outcome {:?}", other),
    }
    // An idle kind changes nothing.
    assert!(m.on_deal_list(&mut book, ExpectedMessage::Idle, vec![(7, "x")]).is_empty());
    assert_eq!(book.opened_deal(7), Some(&"other"));
}
