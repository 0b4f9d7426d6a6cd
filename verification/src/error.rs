//! What can go wrong between an address typed by a user and the bytes that a
//! Gopher server sends back.

use vstd::prelude::*;
use vstd::string::StringExecFns;

verus! {

/// The failures of the gateway's Gopher side. None of them ends the process:
/// each becomes a page shown to the requester.
#[derive(Debug)]
pub enum GopherError {
    /// The address text holds no host, or a port above 65535.
    UrlParse,
    /// The server could not be reached, or the connection broke.
    Connection(String),
    /// The server answered with an error line; this is that line's label.
    GopherProtocol(String),
    /// The source has used up its requests for this window.
    RateLimit,
}

/// The text that describes a failure.
pub open spec fn error_text(e: GopherError) -> Seq<char> {
    match e {
        GopherError::UrlParse => "failed to parse URL"@,
        GopherError::Connection(why) => why@,
        GopherError::GopherProtocol(label) => label@,
        GopherError::RateLimit => "rate limited"@,
    }
}

impl GopherError {
    /// The text that describes this failure to the requester.
    pub fn message(&self) -> (text: String)
        ensures
            text@ == error_text(*self),
    {
        match self {
            GopherError::UrlParse => String::from_str("failed to parse URL"),
            GopherError::Connection(why) => why.clone(),
            GopherError::GopherProtocol(label) => label.clone(),
            GopherError::RateLimit => String::from_str("rate limited"),
        }
    }
}

} // verus!
