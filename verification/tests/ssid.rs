use std::collections::HashMap;

use binary_options_tools::numbers::{u32_text, u64_text};
use binary_options_tools::json::JsonValue;
use binary_options_tools::pocketoption::ssid::{auth_fields, parse_auth, session_retry_bytes, SessionData, Ssid, SsidError};

fn sample_session() -> SessionData {
    SessionData {
        session_id: "00000000000000000000000000000000".to_string(),
        ip_address: "0.0.0.0".to_string(),
        user_agent: "Mozilla/5.0 (Windows NT 10.0; Win64; x64) AppleWebKit/537.36 (KHTML, like Gecko) Chrome/144.0.0.0 Safari/537.36".to_string(),
        last_activity: 1732926685,
    }
}

fn php_text(v: &serde_json::Value) -> Option<String> {
    let bytes: Option<Vec<u8>> = v.as_array()?.iter().map(|b| b.as_u64().map(|x| x as u8)).collect();
    String::from_utf8(bytes?).ok()
}

/// Decodes a PHP-serialized session with `php_serde`, as a map of its
/// members (PHP strings come back as their bytes).
fn decode_session(bytes: &[u8]) -> Result<SessionData, String> {
    let map: HashMap<String, serde_json::Value> = php_serde::from_bytes(bytes).map_err(|e| e.to_string())?;
    let text = |k: &str| map.get(k).and_then(php_text).ok_or_else(|| format!("missing {}", k));
    Ok(SessionData {
        session_id: text("session_id")?,
        ip_address: text("ip_address")?,
        user_agent: text("user_agent")?,
        last_activity: map.get("last_activity").and_then(|v| v.as_u64()).ok_or("missing last_activity")?,
    })
}

/// Reads an SSID as the original does: the record, then for a live account
/// its session decoded whole or, failing that, without its hash.
fn parse_with(data: &str) -> Result<Ssid, SsidError> {
    let auth = parse_auth(data)?;
    if auth.is_demo_record() {
        return Ssid::from_auth(auth, Err(String::new()), None);
    }
    let full = decode_session(auth.session.as_bytes());
    let stripped = if full.is_err() {
        session_retry_bytes(&auth.session).map(|bytes| decode_session(&bytes))
    } else {
        None
    };
    Ssid::from_auth(auth, full, stripped)
}

#[test]
fn test_parse_ssid() {
    let ssids = [
        r#"42["auth",{"session":"a:4:{s:10:\"session_id\";s:32:\"00000000000000000000000000000000\";s:10:\"ip_address\";s:7:\"0.0.0.0\";s:10:\"user_agent\";s:111:\"Mozilla/5.0 (Windows NT 10.0; Win64; x64) AppleWebKit/537.36 (KHTML, like Gecko) Chrome/144.0.0.0 Safari/537.36\";s:13:\"last_activity\";i:1732926685;}00000000000000000000000000000000","isDemo":0,"uid":12345678,"platform":2}]"#,
        r#"42["auth",{"session":"dummy_session_id","isDemo":1,"uid":87654321,"platform":2}]"#,
    ];
    for ssid in ssids {
        let parsed = parse_with(ssid).ok().unwrap();
        let reconstructed = parsed.to_string();
        let re_parsed = parse_with(&reconstructed).ok().unwrap();
        assert_eq!(parsed.redacted_debug(), re_parsed.redacted_debug());
        assert!(reconstructed.starts_with("42[\"auth\","));
    }

    let json_only = r#"{"session":"dummy_session_id","isDemo":1,"uid":87654321,"platform":2}"#;
    let parsed = parse_with(json_only).ok().unwrap();
    let reconstructed = parsed.to_string();
    assert!(reconstructed.starts_with("42[\"auth\","));
    assert!(reconstructed.contains(json_only));
}

#[test]
fn live_session_is_decoded() {
    let ssid = r#"42["auth",{"session":"a:4:{s:10:\"session_id\";s:32:\"00000000000000000000000000000000\";s:10:\"ip_address\";s:7:\"0.0.0.0\";s:10:\"user_agent\";s:111:\"Mozilla/5.0 (Windows NT 10.0; Win64; x64) AppleWebKit/537.36 (KHTML, like Gecko) Chrome/144.0.0.0 Safari/537.36\";s:13:\"last_activity\";i:1732926685;}00000000000000000000000000000000","isDemo":0,"uid":12345678,"platform":2}]"#;
    let parsed = parse_with(ssid).ok().unwrap();
    assert!(!parsed.demo());
    assert_eq!(parsed.ip_address(), Some("0.0.0.0"));
    assert_eq!(parsed.user_agent(), sample_session().user_agent);
}

#[test]
fn undecodable_session_is_retried_without_its_hash() {
    let session = "x".repeat(40);
    let data = format!("{{\"session\":\"{}\",\"isDemo\":0,\"uid\":5}}", session);
    let auth = parse_auth(&data).ok().unwrap();
    let retry = session_retry_bytes(&auth.session).unwrap();
    assert_eq!(retry, b"xxxxxxxx".to_vec());
    let stripped_err = decode_session(&retry).err().unwrap();
    match parse_with(&data) {
        Err(SsidError::SessionData(m)) => assert_eq!(m, stripped_err),
        Err(e) => panic!("unexpected error {}", e.message()),
        Ok(s) => panic!("unexpected success {}", s.redacted_debug()),
    }
    match parse_with(r#"{"session":"short","isDemo":0,"uid":5}"#) {
        Err(SsidError::SessionDataUnreadable) => {},
        _ => panic!("a short session has no hash to strip"),
    }
}

#[test]
fn descriptions_hide_secrets() {
    let demo = parse_auth(r#"42["auth",{"session":"secret","isDemo":1,"uid":123,"platform":2,"lang":"en"}]"#).ok().unwrap();
    assert_eq!(
        demo.redacted_debug(),
        r#"Demo { session: "REDACTED", is_demo: 1, uid: 123, platform: 2, current_url: None, is_fast_history: None, is_optimized: None, extra: ["lang"] }"#
    );
    let ssid = Ssid::from_auth(demo, Err(String::new()), None).ok().unwrap();
    assert!(ssid.redacted_debug().starts_with("Demo(Demo { session: \"REDACTED\""));
    assert!(!ssid.redacted_debug().contains("secret"));
    let s = sample_session();
    assert_eq!(
        s.redacted_debug(),
        format!(
            "SessionData {{ session_id: \"REDACTED\", ip_address: \"REDACTED\", user_agent: \"{}\", last_activity: 1732926685 }}",
            s.user_agent
        )
    );
    let auth = parse_auth(r#"{"session":"live-secret","isDemo":0,"uid":9,"isOptimized":true}"#).ok().unwrap();
    let real = Ssid::from_auth(auth, Ok(s), None).ok().unwrap();
    let shown = real.redacted_debug();
    assert!(shown.starts_with("Real(Real { session: SessionData { session_id: \"REDACTED\""));
    assert!(shown.contains("session_raw: \"REDACTED\""));
    assert!(shown.contains("raw: \"REDACTED\""));
    assert!(shown.contains("is_optimized: Some(true)"));
    assert!(!shown.contains("live-secret"));
    assert!(!shown.contains("0.0.0.0"));
}

#[test]
fn test_ssid_rejects_double_encoded_json() {
    let malicious = r#"42["auth","{\"session\":\"dummy\",\"isDemo\":1,\"uid\":123,\"platform\":2}"]"#;
    let result = parse_auth(malicious);
    assert!(result.is_err());
    let err = result.err().unwrap();
    assert!(err.message().contains("Invalid SSID format: double-encoding detected"));
}

#[test]
fn demo_record_fields() {
    let demo = parse_auth(r#"42["auth",{"session":"dummy","isDemo":1,"uid":123,"platform":2}]"#).unwrap();
    assert_eq!(demo.session, "dummy");
    assert_eq!(demo.is_demo, 1);
    assert_eq!(demo.uid, 123);
    assert_eq!(demo.platform, 2);
    assert_eq!(demo.current_url, None);
    assert_eq!(demo.raw, r#"42["auth",{"session":"dummy","isDemo":1,"uid":123,"platform":2}]"#);
    assert_eq!(demo.json_raw, r#"{"session":"dummy","isDemo":1,"uid":123,"platform":2}"#);
    assert!(demo.extra.is_empty());
}

#[test]
fn raw_json_is_framed() {
    let demo = parse_auth("  {\"session\":\"s\",\"uid\":\"42\"}  ").unwrap();
    assert_eq!(demo.raw, "42[\"auth\",{\"session\":\"s\",\"uid\":\"42\"}]");
    assert_eq!(demo.uid, 42);
    assert_eq!(demo.is_demo, 0);
    assert_eq!(demo.platform, 0);
}

#[test]
fn session_token_alias_and_extra_members() {
    let demo = parse_auth(r#"{"sessionToken":"tok","uid":7,"currentUrl":"https://demo.example","lang":"en"}"#).unwrap();
    assert_eq!(demo.session, "tok");
    assert_eq!(demo.current_url.as_deref(), Some("https://demo.example"));
    assert_eq!(demo.extra.len(), 1);
    assert_eq!(demo.extra[0].0, "lang");
    let ssid = Ssid::from_auth(demo, Err("unused".to_string()), None).unwrap();
    assert!(ssid.demo());
}

#[test]
fn refusals() {
    assert!(matches!(parse_auth("\"quoted\""), Err(SsidError::DoubleEncoding)));
    assert!(matches!(parse_auth("'single"), Err(SsidError::DoubleEncoding)));
    assert!(matches!(parse_auth(r#"42["auth",{"session":"s","uid":1}"#), Err(SsidError::MissingClosingBracket)));
    assert!(matches!(parse_auth("not json"), Err(SsidError::InvalidJson)));
    assert!(matches!(parse_auth("[1,2]"), Err(SsidError::NotAnObject)));
    assert!(matches!(parse_auth(r#"{"uid":1}"#), Err(SsidError::MissingField(_))));
    assert!(matches!(parse_auth(r#"{"session":"s"}"#), Err(SsidError::MissingField(_))));
    assert!(matches!(parse_auth(r#"{"session":"s","uid":"x"}"#), Err(SsidError::InvalidUidString)));
    assert!(matches!(parse_auth(r#"{"session":"s","sessionToken":"t","uid":1}"#), Err(SsidError::DuplicateField(_))));
    assert_eq!(SsidError::MissingClosingBracket.message(), "Error parsing ssid: missing closing bracket");
}

#[test]
fn uid_number_is_truncated_to_32_bits() {
    let demo = parse_auth(r#"{"session":"s","uid":4294967297,"isDemo":1}"#).unwrap();
    assert_eq!(demo.uid, 1);
}

#[test]
fn real_session_from_stripped_bytes() {
    let session = "a:0:{}".to_string() + &"f".repeat(32);
    let data = format!("{{\"session\":\"{}\",\"isDemo\":0,\"uid\":5}}", session);
    let auth = parse_auth(&data).unwrap();
    let retry = session_retry_bytes(&auth.session).unwrap();
    assert_eq!(retry, b"a:0:{}".to_vec());
    let ssid = Ssid::from_auth(auth, Err("trailing data".to_string()), Some(Ok(sample_session()))).unwrap();
    assert!(!ssid.demo());
    assert_eq!(ssid.ip_address(), Some("0.0.0.0"));
    assert_eq!(ssid.session_id(), session);
    assert!(ssid.user_agent().contains("Chrome/144.0.0.0"));
}

#[test]
fn real_session_decode_failures() {
    let short = parse_auth(r#"{"session":"short","isDemo":0,"uid":5}"#).unwrap();
    assert!(session_retry_bytes(&short.session).is_none());
    assert!(matches!(Ssid::from_auth(short, Err("bad".to_string()), None), Err(SsidError::SessionDataUnreadable)));
    let long = parse_auth(&format!("{{\"session\":\"{}\",\"uid\":5}}", "x".repeat(40))).unwrap();
    let err = Ssid::from_auth(long, Err("bad".to_string()), Some(Err("still bad".to_string()))).err().unwrap();
    assert_eq!(err.message(), "Error parsing session data: still bad");
}

#[test]
fn demo_user_agent_and_current_url() {
    let demo = parse_auth(r#"{"session":"s","uid":1,"currentUrl":"https://po.market/demo"}"#).unwrap();
    assert_eq!(demo.is_demo, 0);
    let ssid = Ssid::from_auth(demo, Err(String::new()), None).unwrap();
    assert!(ssid.demo());
    assert_eq!(ssid.current_url().as_deref(), Some("https://po.market/demo"));
    let other = parse_auth(r#"{"session":"s","uid":1,"isDemo":1,"current_url":"x"}"#).unwrap();
    assert_eq!(other.current_url, None);
    assert_eq!(other.extra.len(), 1);
    assert_eq!(ssid.ip_address(), None);
    assert!(ssid.user_agent().starts_with("Mozilla/5.0"));
}

#[test]
fn decimal_numerals() {
    assert_eq!(u32_text(0), "0");
    assert_eq!(u32_text(10), "10");
    assert_eq!(u32_text(87654321), "87654321");
    assert_eq!(u32_text(u32::MAX), "4294967295");
    assert_eq!(u64_text(u64::MAX), "18446744073709551615");
}

#[test]
fn uid_errors_keep_their_messages() {
    let number = parse_auth(r#"{"session":"s","uid":-5}"#).err().unwrap();
    assert!(matches!(number, SsidError::InvalidUidNumber));
    assert!(number.message().contains("Invalid number for uid"));
    let fraction = parse_auth(r#"{"session":"s","uid":1.5}"#).err().unwrap();
    assert!(matches!(fraction, SsidError::InvalidUidNumber));
    let string = parse_auth(r#"{"session":"s","uid":"12a"}"#).err().unwrap();
    assert!(matches!(string, SsidError::InvalidUidString));
    assert!(string.message().contains("Invalid string for uid"));
    let other = parse_auth(r#"{"session":"s","uid":true}"#).err().unwrap();
    assert!(matches!(other, SsidError::InvalidUidType));
    assert!(other.message().contains("Invalid type for uid"));
    assert!(matches!(parse_auth(r#"{"session":"s","uid":null}"#), Err(SsidError::InvalidUidType)));
    assert!(number.message().starts_with("JSON parsing error: "));
}

#[test]
fn fields_of_a_parsed_payload() {
    let obj = JsonValue::Object(vec![
        ("session".to_string(), JsonValue::Str("s".to_string())),
        ("uid".to_string(), JsonValue::Str("77".to_string())),
        ("isDemo".to_string(), JsonValue::Number("1".to_string())),
        ("lang".to_string(), JsonValue::Str("en".to_string())),
    ]);
    let demo = auth_fields(&obj, "raw".to_string(), "json".to_string()).ok().unwrap();
    assert_eq!(demo.uid, 77);
    assert_eq!(demo.is_demo, 1);
    assert_eq!(demo.extra.len(), 1);
    assert_eq!(demo.raw, "raw");
    let bad = JsonValue::Object(vec![
        ("session".to_string(), JsonValue::Str("s".to_string())),
        ("uid".to_string(), JsonValue::Bool(true)),
    ]);
    assert!(matches!(auth_fields(&bad, String::new(), String::new()), Err(SsidError::InvalidUidType)));
    assert!(matches!(auth_fields(&JsonValue::Null, String::new(), String::new()), Err(SsidError::NotAnObject)));
}
