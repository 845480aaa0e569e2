use binary_options_tools::connector::ConnectorError;
use binary_options_tools::expertoptions::connect::ExpertConnect;
use binary_options_tools::pocketoption::connect::{ConnectAttempt, ConnectStep, PocketConnect};

fn tried(step: &ConnectStep) -> Option<String> {
    match step {
        ConnectStep::Try(u) => Some(u.clone()),
        _ => None,
    }
}

/// Drives an attempt in which every connection fails; returns the URLs tried.
fn run_failing(mut attempt: ConnectAttempt, mut step: ConnectStep, servers: Option<Vec<String>>) -> (Vec<String>, usize) {
    let mut urls = Vec::new();
    let mut pauses: usize = 0;
    let mut servers = Some(servers);
    loop {
        step = match step {
            ConnectStep::Try(u) => {
                urls.push(u);
                attempt.after_failure()
            },
            ConnectStep::Pause => {
                pauses += 1;
                attempt.after_pause()
            },
            ConnectStep::FetchServers => attempt.after_servers(servers.take().expect("servers asked for twice")),
            ConnectStep::GiveUp(ConnectorError::Custom(m)) => {
                assert_eq!(m, "Failed to connect to any of the provided URLs");
                return (urls, pauses);
            },
            ConnectStep::GiveUp(e) => panic!("unexpected error {:?}", e),
        };
    }
}

#[test]
fn every_url_is_tried_once_in_order() {
    let (attempt, step) = PocketConnect.begin(Some("wss://default".to_string()), vec!["wss://a".to_string(), "wss://b".to_string()]);
    assert_eq!(tried(&step).as_deref(), Some("wss://default"));
    let (urls, pauses) = run_failing(attempt, step, Some(vec!["wss://p".to_string()]));
    assert_eq!(urls, vec!["wss://default", "wss://a", "wss://b", "wss://p"]);
    assert_eq!(pauses, 3);
}

#[test]
fn fallbacks_when_the_platform_cannot_be_asked() {
    let (attempt, step) = PocketConnect.begin(None, vec![]);
    assert!(matches!(step, ConnectStep::FetchServers));
    let (urls, pauses) = run_failing(attempt, step, None);
    assert_eq!(
        urls,
        vec![
            "wss://api-eu.po.market/socket.io/?EIO=4&transport=websocket",
            "wss://api-us-south.po.market/socket.io/?EIO=4&transport=websocket",
            "wss://api-asia.po.market/socket.io/?EIO=4&transport=websocket",
        ]
    );
    assert_eq!(pauses, 3);
}

#[test]
fn no_platform_servers_gives_up() {
    let (attempt, step) = PocketConnect.begin(None, vec!["wss://a".to_string()]);
    assert_eq!(tried(&step).as_deref(), Some("wss://a"));
    let (urls, _) = run_failing(attempt, step, Some(vec![]));
    assert_eq!(urls, vec!["wss://a"]);
}

#[test]
fn expert_upgrade_request() {
    let req = ExpertConnect::connect_request(
        true,
        "agent/1.0".to_string(),
        "wss://fr24g1us.expertoption.finance/ws/v40",
        "key==".to_string(),
    )
    .unwrap();
    assert_eq!(req.uri, "wss://fr24g1us.expertoption.finance/ws/v40");
    let expected: Vec<(String, String)> = [
        ("Origin", "https://app.expertoption.com"),
        ("Cache-Control", "no-cache"),
        ("User-Agent", "agent/1.0"),
        ("Upgrade", "websocket"),
        ("Connection", "upgrade"),
        ("Sec-Websocket-Key", "key=="),
        ("Sec-Websocket-Version", "13"),
        ("Host", "fr24g1us.expertoption.finance"),
    ]
    .iter()
    .map(|(k, v)| (k.to_string(), v.to_string()))
    .collect();
    assert_eq!(req.headers, expected);
}

#[test]
fn expert_request_refusals() {
    assert!(matches!(
        ExpertConnect::connect_request(false, String::new(), "wss://x", String::new()),
        Err(ConnectorError::Custom(m)) if m == "Could not load any native certificates"
    ));
    assert!(matches!(
        ExpertConnect::connect_request(true, String::new(), "not a url", String::new()),
        Err(ConnectorError::UrlParsing(m)) if m == "relative URL without a base"
    ));
    assert!(matches!(
        ExpertConnect::connect_request(true, String::new(), "unix:/run/foo.socket", String::new()),
        Err(ConnectorError::UrlParsing(m)) if m == "Host not found"
    ));
    assert!(matches!(
        ExpertConnect::connect_request(true, "bad\nagent".to_string(), "wss://x.example/ws", String::new()),
        Err(ConnectorError::HttpRequestBuild(m)) if m == "failed to parse header value"
    ));
    assert!(ExpertConnect::connect_request(true, "Mozilla/5.0\tü".to_string(), "wss://x.example/ws", String::new()).is_ok());
}
