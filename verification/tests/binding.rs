use binary_options_tools::message::Message;
use binary_options_tools::pocketoption::deal_book::DealBook;
use binary_options_tools::uni::client::PocketOption;
use binary_options_tools::uni::doc::{uniffi_doc, DocError, UniffiDocArgs};
use binary_options_tools::uni::error::UniError;
use binary_options_tools::uni::raw_handler::{message_to_string, RawHandler};
use binary_options_tools::uni::types::{Action, AssetType, CandleLength};

#[test]
fn message_text() {
    assert_eq!(message_to_string(&Message::Text("hi".to_string())), "hi");
    assert_eq!(message_to_string(&Message::Binary(b"bin".to_vec())), "bin");
    assert_eq!(message_to_string(&Message::Binary("héllo €".as_bytes().to_vec())), "héllo €");
    assert_eq!(message_to_string(&Message::Binary(vec![b'a', 0xff])), "a\u{FFFD}");
    assert_eq!(message_to_string(&Message::Close), "");
}

#[test]
fn raw_handler_wraps_its_handle() {
    let h = RawHandler::from_inner(17u32);
    assert_eq!(*h.inner(), 17);
}

#[test]
fn trade_ids() {
    assert_eq!(
        PocketOption::<()>::trade_id("2f561661-334c-4de3-920f-f095c7b1193f").unwrap(),
        0x2f561661_334c_4de3_920f_f095c7b1193f
    );
    match PocketOption::<()>::trade_id("nope") {
        Err(UniError::Uuid(m)) => assert!(m.starts_with("Invalid UUID: ")),
        other => panic!("unexpected {:?}", other),
    }
    let client = PocketOption::from_inner("client");
    assert_eq!(*client.inner(), "client");
}

#[test]
fn deal_end_time_prefers_closed_deals() {
    let a: u128 = 0x2f561661_334c_4de3_920f_f095c7b1193f;
    let b: u128 = 0x00000000_0000_4000_8000_000000000001;
    let mut book: DealBook<i64> = DealBook::new();
    book.replace_opened(vec![(a, 9), (b, 20)]);
    assert_eq!(PocketOption::<()>::deal_for_end_time("2f561661-334c-4de3-920f-f095c7b1193f", &book), Some(&9));
    book.close(vec![(a, 5)]);
    assert_eq!(PocketOption::<()>::deal_for_end_time("2f561661-334c-4de3-920f-f095c7b1193f", &book), Some(&5));
    assert_eq!(PocketOption::<()>::deal_for_end_time("00000000-0000-4000-8000-000000000001", &book), Some(&20));
    assert_eq!(PocketOption::<()>::deal_for_end_time("00000000-0000-4000-8000-000000000002", &book), None);
    assert_eq!(PocketOption::<()>::deal_for_end_time("not a uuid", &book), None);
}

#[test]
fn plain_records() {
    assert_ne!(Action::Call, Action::Put);
    assert_eq!(AssetType::Index, AssetType::Index);
    assert_eq!(CandleLength { time: 60 }.time, 60);
}

#[test]
fn documentation_of_a_named_item() {
    let args = UniffiDocArgs { name: Some("Action".to_string()), path: "types.json".to_string() };
    let content = r#"{"Action":{"default":"Direction.","python":"Py doc","kotlin":"Kt doc"},"Other":{}}"#;
    let plan = uniffi_doc(&args, content).unwrap();
    assert_eq!(plan.default.as_deref(), Some("Direction.\n"));
    let mut features = plan.features.clone();
    features.sort();
    assert_eq!(features, vec![("kotlin".to_string(), "Kt doc".to_string()), ("python".to_string(), "Py doc".to_string())]);
}

#[test]
fn documentation_of_a_whole_file() {
    let args = UniffiDocArgs { name: None, path: "x.json".to_string() };
    let plan = uniffi_doc(&args, r#"{"swift":"Swift doc"}"#).unwrap();
    assert_eq!(plan.default, None);
    assert_eq!(plan.features, vec![("swift".to_string(), "Swift doc".to_string())]);
}

#[test]
fn documentation_errors() {
    let named = UniffiDocArgs { name: Some("Missing".to_string()), path: "x.json".to_string() };
    assert_eq!(uniffi_doc(&named, r#"{"Action":{}}"#).unwrap_err(), DocError::MissingEntry);
    assert_eq!(uniffi_doc(&named, "not json").unwrap_err(), DocError::InvalidJson);
    assert_eq!(uniffi_doc(&named, r#"{"Action":{"default":1}}"#).unwrap_err(), DocError::InvalidJson);
    let whole = UniffiDocArgs { name: None, path: "x.json".to_string() };
    assert_eq!(uniffi_doc(&whole, r#"{"Action":{}}"#).unwrap_err(), DocError::InvalidJson);
}
