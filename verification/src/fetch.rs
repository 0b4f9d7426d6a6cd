//! The two decisions of a fetch: what to send to which server, and whether
//! the first bytes that come back are the server's way of saying no.
//!
//! Gopher has no status line. A server that cannot serve a selector answers
//! with a menu line of type `3`, and a client can only tell by looking. So
//! the first bytes of an answer are read ahead and checked; unless they are
//! such a line they are handed back unchanged, to be put in front of the rest
//! of the answer again.

use vstd::prelude::*;
use vstd::string::{StrSliceExecFns, StringExecFns};
use vstd::utf8::{decode_utf8, encode_utf8, valid_utf8};
use crate::entry::{entry_of_line, DirEntry};
use crate::error::GopherError;
use crate::item::GopherItem;
use crate::number::{decimal, push_decimal};
use crate::text::{chars_of, continues_at, text_of};
use crate::url::{escape_prefix, is_escape, GopherURL, UrlView};

verus! {

/// How many bytes of an answer are read ahead, at most.
pub const LOOKAHEAD: usize = 256;

/// What a fetch has to do for an address.
#[derive(Debug)]
pub enum FetchPlan {
    /// The selector points outside Gopher-space, to this target: there is
    /// nothing to ask a Gopher server for.
    External(String),
    /// Connect to `address`, send `request`, and read until the server closes.
    Gopher { address: String, request: Vec<u8> },
}

/// The line that asks for a selector: the selector, a tab and the search
/// words where there are any, and the line's end.
pub open spec fn request_line(selector: Seq<char>, query: Option<Seq<char>>) -> Seq<char> {
    match query {
        Some(words) => selector + seq!['\t'] + words + seq!['\r', '\n'],
        None => selector + seq!['\r', '\n'],
    }
}

/// The host and the port as one connects to them: `host:port`.
pub open spec fn address_text(u: UrlView) -> Seq<char> {
    u.host + seq![':'] + decimal(u.port as nat)
}

/// The label of the error line that the first bytes of an answer are, if they
/// are one: UTF-8 that reads as a menu line of type `Error`.
pub open spec fn error_label(head: Seq<u8>) -> Option<Seq<char>> {
    if valid_utf8(head) && entry_of_line(decode_utf8(head)).item_type == GopherItem::Error {
        Some(entry_of_line(decode_utf8(head)).label)
    } else {
        None
    }
}

/// The search words as plain values.
pub open spec fn words_of(query: Option<String>) -> Option<Seq<char>> {
    match query {
        Some(words) => Some(words@),
        None => None,
    }
}

/// Says what a fetch has to do for `url`, with the search words `query` where
/// the item is a search. An address that points outside Gopher-space is
/// recognised before anything is sent anywhere; for every other address the
/// request is the request line as it stands, in UTF-8.
pub fn plan_fetch(url: &GopherURL, query: Option<String>) -> (plan: FetchPlan)
    ensures
        match plan {
            FetchPlan::External(target) => is_escape(url@.selector) && target@
                == url@.selector.subrange(4, url@.selector.len() as int),
            FetchPlan::Gopher { address, request } => !is_escape(url@.selector) && address@
                == address_text(url@) && request@ == encode_utf8(
                request_line(url@.selector, words_of(query)),
            ),
        },
{
    let selector = chars_of(url.selector.as_str());
    let escape = continues_at(selector.as_slice(), 0, "URL:");
    proof {
        reveal_strlit("URL:");
        assert("URL:"@ =~= escape_prefix());
    }
    if escape {
        return FetchPlan::External(text_of(selector.as_slice(), 4, selector.len()));
    }
    let mut line = url.selector.clone();
    match &query {
        Some(words) => {
            line.push('\t');
            line.append(words.as_str());
        },
        None => {},
    }
    line.push('\r');
    line.push('\n');
    assert(line@ =~= request_line(url@.selector, words_of(query)));
    let mut address = url.host.clone();
    address.push(':');
    push_decimal(&mut address, url.port as u64);
    assert(address@ =~= address_text(url@));
    FetchPlan::Gopher { address, request: line.as_str().as_bytes_vec() }
}

/// Checks the first bytes of an answer. An error line fails the fetch with
/// its label; anything else, text or not, is handed back as it came.
pub fn accept_head(head: Vec<u8>) -> (checked: Result<Vec<u8>, GopherError>)
    ensures
        match checked {
            Ok(bytes) => error_label(head@) is None && bytes@ == head@,
            Err(e) => e matches GopherError::GopherProtocol(label) && error_label(head@) == Some(
                label@,
            ),
        },
{
    match String::from_utf8(head.clone()) {
        Ok(text) => {
            let entry = DirEntry::from(text.as_str());
            if entry.item_type == GopherItem::Error {
                Err(GopherError::GopherProtocol(entry.label))
            } else {
                Ok(head)
            }
        },
        Err(_) => Ok(head),
    }
}

} // verus!
