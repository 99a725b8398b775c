//! The structured request that the parser produces, and the ways in which a
//! request line can be refused.

use vstd::prelude::*;

verus! {

/// A parsed request line.
///
/// `http_version` holds the three characters behind `HTTP/`; `path` is the
/// request-target up to its first `?`, and `query` what follows that `?`.
#[derive(Debug, Clone, PartialEq, Eq)]
pub struct HttpRequestStatus {
    pub method: String,
    pub http_version: String,
    pub path: String,
    pub query: Option<String>,
}

/// What a request holds, as sequences of characters.
pub struct RequestView {
    pub method: Seq<char>,
    pub http_version: Seq<char>,
    pub path: Seq<char>,
    pub query: Option<Seq<char>>,
}

impl View for HttpRequestStatus {
    type V = RequestView;

    open spec fn view(&self) -> RequestView {
        RequestView {
            method: self.method@,
            http_version: self.http_version@,
            path: self.path@,
            query: match self.query {
                Some(q) => Some(q@),
                None => None,
            },
        }
    }
}

/// Why a request line was refused.
#[derive(Debug, Clone, Copy, PartialEq, Eq, Structural)]
pub enum ParseError {
    /// The line does not consist of exactly three tokens.
    MalformedStatusLine,
    /// The first token is not one of the nine known verbs.
    UnsupportedMethod,
    /// The request-target does not begin with `/`.
    InvalidPath,
    /// The third token does not have the shape `HTTP/x.y`.
    InvalidVersion,
    /// The third token names a version other than 1.1 and 1.2.
    UnsupportedVersion,
}

impl ParseError {
    /// The text of the diagnostic for each refusal.
    pub open spec fn text(self) -> Seq<char> {
        match self {
            ParseError::MalformedStatusLine => "The HTTP Request status is invalid"@,
            ParseError::UnsupportedMethod => "The method is not correct."@,
            ParseError::InvalidPath => "The path is invalid."@,
            ParseError::InvalidVersion => "The HTTP version is invalid."@,
            ParseError::UnsupportedVersion => "The HTTP version is invalid/not supported."@,
        }
    }

    /// A diagnostic for the log.
    pub fn message(&self) -> (m: &'static str)
        ensures
            m@ == self.text(),
    {
        match self {
            ParseError::MalformedStatusLine => "The HTTP Request status is invalid",
            ParseError::UnsupportedMethod => "The method is not correct.",
            ParseError::InvalidPath => "The path is invalid.",
            ParseError::InvalidVersion => "The HTTP version is invalid.",
            ParseError::UnsupportedVersion => "The HTTP version is invalid/not supported.",
        }
    }
}

} // verus!
