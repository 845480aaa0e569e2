//! Connecting to ExpertOption: the WebSocket upgrade request.

use vstd::prelude::*;

use crate::connector::{parse_url, url_parts, ConnectorError};
use crate::text::chars_of;

verus! {

/// The connector of the ExpertOption platform.
#[derive(Debug, Clone, Copy)]
pub struct ExpertConnect;

/// A WebSocket upgrade request: the URL and the headers, in order.
#[derive(Debug)]
pub struct UpgradeRequest {
    pub uri: String,
    pub headers: Vec<(String, String)>,
}

/// The plain form of a header list.
pub open spec fn headers_view(h: Seq<(String, String)>) -> Seq<(Seq<char>, Seq<char>)> {
    h.map_values(|p: (String, String)| (p.0@, p.1@))
}

/// The headers of an upgrade request to the host `host`, with the user
/// agent `agent` and the handshake key `key`.
pub open spec fn expert_headers(agent: Seq<char>, key: Seq<char>, host: Seq<char>) -> Seq<
    (Seq<char>, Seq<char>),
> {
    seq![
        ("Origin"@, "https://app.expertoption.com"@),
        ("Cache-Control"@, "no-cache"@),
        ("User-Agent"@, agent),
        ("Upgrade"@, "websocket"@),
        ("Connection"@, "upgrade"@),
        ("Sec-Websocket-Key"@, key),
        ("Sec-Websocket-Version"@, "13"@),
        ("Host"@, host),
    ]
}

/// Whether a character may stand in an HTTP header value: a tab, or any
/// character but the other control characters (below a space, and DEL).
pub open spec fn is_header_char(c: char) -> bool {
    c == '\t' || (c as u32 >= 32 && c as u32 != 127)
}

/// Whether a text may be an HTTP header value.
pub open spec fn is_header_value(s: Seq<char>) -> bool {
    forall|i: int| 0 <= i < s.len() ==> is_header_char(#[trigger] s[i])
}

/// Whether a text may be an HTTP header value.
fn header_value_ok(s: &str) -> (r: bool)
    ensures
        r == is_header_value(s@),
{
    let chars = chars_of(s);
    let mut i: usize = 0;
    while i < chars.len()
        invariant
            i <= chars.len(),
            chars@ == s@,
            forall|j: int| 0 <= j < i ==> is_header_char(#[trigger] chars@[j]),
        decreases chars.len() - i,
    {
        let c = chars[i];
        let code = c as u32;
        if !(c == '\t' || (code >= 32 && code != 127)) {
            return false;
        }
        i = i + 1;
    }
    true
}

fn header(name: &str, value: String) -> (r: (String, String))
    ensures
        r.0@ == name@,
        r.1@ == value@,
{
    (name.to_string(), value)
}

impl ExpertConnect {
    /// The upgrade request for `url`, made as the web app makes it, once
    /// the trusted certificates are loaded: none loaded is an error; so is
    /// a URL that does not parse (with the parser's message), or one without
    /// a host; so is a user agent or key that cannot be a header value, as
    /// the request builder refuses it.
    pub fn connect_request(certificates_loaded: bool, agent: String, url: &str, key: String) -> (r: Result<
        UpgradeRequest,
        ConnectorError,
    >)
        ensures
            !certificates_loaded ==> (r matches Err(ConnectorError::Custom(m)) && m@
                == "Could not load any native certificates"@),
            certificates_loaded ==> match url_parts(url@) {
                Err(message) => r matches Err(ConnectorError::UrlParsing(m)) && m@ == message,
                Ok((_, None)) => r matches Err(ConnectorError::UrlParsing(m)) && m@ == "Host not found"@,
                Ok((serialized, Some(host))) => if is_header_value(agent@) && is_header_value(key@) {
                    r matches Ok(req) && req.uri@ == serialized
                        && headers_view(req.headers@) == expert_headers(agent@, key@, host)
                } else {
                    r matches Err(ConnectorError::HttpRequestBuild(m)) && m@ == "failed to parse header value"@
                },
            },
    {
        if !certificates_loaded {
            return Err(ConnectorError::Custom(String::from_str("Could not load any native certificates")));
        }
        let (uri, host) = match parse_url(url) {
            Ok(parts) => parts,
            Err(e) => {
                return Err(ConnectorError::UrlParsing(e));
            },
        };
        let host = match host {
            Some(h) => h,
            None => {
                return Err(ConnectorError::UrlParsing(String::from_str("Host not found")));
            },
        };
        if !header_value_ok(agent.as_str()) || !header_value_ok(key.as_str()) {
            return Err(ConnectorError::HttpRequestBuild(String::from_str("failed to parse header value")));
        }
        let mut headers: Vec<(String, String)> = Vec::new();
        headers.push(header("Origin", String::from_str("https://app.expertoption.com")));
        headers.push(header("Cache-Control", String::from_str("no-cache")));
        headers.push(header("User-Agent", agent));
        headers.push(header("Upgrade", String::from_str("websocket")));
        headers.push(header("Connection", String::from_str("upgrade")));
        headers.push(header("Sec-Websocket-Key", key));
        headers.push(header("Sec-Websocket-Version", String::from_str("13")));
        headers.push(header("Host", host));
        let req = UpgradeRequest { uri, headers };
        assert(headers_view(req.headers@) =~= expert_headers(agent@, key@, host@));
        Ok(req)
    }
}

} // verus!
