//! What the WebSocket connectors share: their errors and the URLs they read.

use vstd::prelude::*;

verus! {

/// Why a connection could not be made.
#[derive(Debug)]
pub enum ConnectorError {
    /// The URL could not be read, or has no host.
    UrlParsing(String),
    /// The request could not be built.
    HttpRequestBuild(String),
    /// Any other failure.
    Custom(String),
}

/// The plain form of a [`ConnectorError`].
pub enum ConnectorErrorView {
    UrlParsing(Seq<char>),
    HttpRequestBuild(Seq<char>),
    Custom(Seq<char>),
}

impl View for ConnectorError {
    type V = ConnectorErrorView;

    open spec fn view(&self) -> ConnectorErrorView {
        match self {
            ConnectorError::UrlParsing(m) => ConnectorErrorView::UrlParsing(m@),
            ConnectorError::HttpRequestBuild(m) => ConnectorErrorView::HttpRequestBuild(m@),
            ConnectorError::Custom(m) => ConnectorErrorView::Custom(m@),
        }
    }
}

/// The serialization and the host of the URL that `url::Url::parse` reads
/// from `text`, or the text of its `ParseError` where it refuses the text.
pub uninterp spec fn url_parts(text: Seq<char>) -> Result<(Seq<char>, Option<Seq<char>>), Seq<char>>;

/// The characters of an optional string.
pub open spec fn opt_text(s: Option<String>) -> Option<Seq<char>> {
    match s {
        Some(x) => Some(x@),
        None => None,
    }
}

/// Reads an absolute URL with `url::Url::parse` and returns its
/// serialization (`Url`'s `Display`) and its host (`Url::host_str`), or the
/// parser's message (`ParseError`'s `Display`). The contract claims that
/// the outcome, message included, is a function of the text (the name
/// `url_parts`).
#[verifier::external_body]
pub(crate) fn parse_url(text: &str) -> (r: Result<(String, Option<String>), String>)
    ensures
        r is Ok ==> url_parts(text@) == Ok::<_, Seq<char>>((r->Ok_0.0@, opt_text(r->Ok_0.1))),
        r is Err ==> url_parts(text@) == Err::<(Seq<char>, Option<Seq<char>>), _>(r->Err_0@),
{
    url::Url::parse(text).map(|u| (u.to_string(), u.host_str().map(|h| h.to_string()))).map_err(
        |e| e.to_string(),
    )
}

} // verus!
