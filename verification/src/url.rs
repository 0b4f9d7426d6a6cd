//! Gopher addresses: the value, the grammar that address text is read by, and
//! the canonical text that an address is written as.
//!
//! Address text has the shape `[gopher://]host[:port][/type[selector]]`. The
//! host is a run of characters other than `:` and `/`, the port a run of
//! digits, the type one character, and the selector everything after it, as
//! it stands. Text is read at the first position from which it has that shape
//! through to its end, so anything in front of that position is passed over.

use vstd::prelude::*;
use vstd::string::StringExecFns;
use vstd::utf8::encode_utf8;
use crate::error::GopherError;
use crate::escape::{percent_encode, percent_encoded};
use crate::item::{char_of_item, item_of_char, GopherItem};
use crate::number::{
    all_digits, decimal, decimal_value, is_digit, port_of_text, push_decimal, read_decimal,
    read_port,
};
use crate::text::{chars_of, continues_at, continues_with, matches_at, text_of};
use crate::url_laws::{
    lemma_nothing_at_run_end, lemma_nothing_in_scheme, lemma_pass_over, lemma_run_reads_alike,
    lemma_scheme_in_run,
};

verus! {

/// The address of a Gopher resource.
#[derive(Debug)]
pub struct GopherURL {
    pub host: String,
    pub port: u16,
    pub gopher_type: GopherItem,
    pub selector: String,
}

/// An address as plain values.
pub struct UrlView {
    pub host: Seq<char>,
    pub port: u16,
    pub gopher_type: GopherItem,
    pub selector: Seq<char>,
}

impl View for GopherURL {
    type V = UrlView;

    open spec fn view(&self) -> UrlView {
        UrlView {
            host: self.host@,
            port: self.port,
            gopher_type: self.gopher_type,
            selector: self.selector@,
        }
    }
}

/// The parts that the grammar tells apart in address text.
pub struct UrlParts {
    pub host: Seq<char>,
    /// The digits after the host's `:`, where there are any.
    pub port: Option<Seq<char>>,
    /// The character after the `/`, where there is one.
    pub marker: Option<char>,
    pub selector: Seq<char>,
}

/// The port of an address that names none.
pub const DEFAULT_PORT: u16 = 70;

/// The scheme that address text may begin with.
pub open spec fn scheme() -> Seq<char> {
    seq!['g', 'o', 'p', 'h', 'e', 'r', ':', '/', '/']
}

/// The prefix that marks a selector as the address of something outside
/// Gopher-space.
pub open spec fn escape_prefix() -> Seq<char> {
    seq!['U', 'R', 'L', ':']
}

/// Whether a selector points outside Gopher-space.
pub open spec fn is_escape(selector: Seq<char>) -> bool {
    continues_with(selector, 0, escape_prefix())
}

/// Whether `c` can stand in a host.
pub open spec fn is_host_char(c: char) -> bool {
    c != ':' && c != '/'
}

/// Whether `c` can stand where address text names the item type: a letter or
/// one of the six characters between `Z` and `a`, a digit, or one of `:`,
/// `+`, `;`, `<`, `?`.
pub open spec fn is_type_marker(c: char) -> bool {
    ('A' <= c && c <= 'z') || is_digit(c) || c == ':' || c == '+' || c == ';' || c == '<' || c
        == '?'
}

/// Whether `s` is made of host characters only.
pub open spec fn all_host_chars(s: Seq<char>) -> bool {
    forall|i: int| 0 <= i < s.len() ==> is_host_char(#[trigger] s[i])
}

/// Whether the parts are such as the grammar can find.
pub open spec fn well_formed(p: UrlParts) -> bool {
    &&& p.host.len() > 0
    &&& all_host_chars(p.host)
    &&& (p.port matches Some(digits) ==> digits.len() > 0 && all_digits(digits))
    &&& (p.marker matches Some(c) ==> is_type_marker(c))
    &&& (p.marker is None ==> p.selector.len() == 0)
}

/// The parts written out one after the other, without a scheme.
pub open spec fn parts_text(p: UrlParts) -> Seq<char> {
    p.host + (match p.port {
        Some(digits) => seq![':'] + digits,
        None => Seq::<char>::empty(),
    }) + (match p.marker {
        Some(c) => seq!['/', c] + p.selector,
        None => Seq::<char>::empty(),
    })
}

/// Whether the whole of `t` has the shape of an address with the parts `p`,
/// with the scheme in front or without it.
pub open spec fn reads_as(t: Seq<char>, p: UrlParts) -> bool {
    well_formed(p) && (t == parts_text(p) || t == scheme() + parts_text(p))
}

/// The end of the run of host characters that begins at `from`.
pub open spec fn host_end(s: Seq<char>, from: int) -> int
    decreases s.len() - from,
{
    if 0 <= from < s.len() && is_host_char(s[from]) {
        host_end(s, from + 1)
    } else {
        from
    }
}

/// The end of the run of digits that begins at `from`.
pub open spec fn digits_end(s: Seq<char>, from: int) -> int
    decreases s.len() - from,
{
    if 0 <= from < s.len() && is_digit(s[from]) {
        digits_end(s, from + 1)
    } else {
        from
    }
}

/// The parts of the address without a scheme that `s` holds from `a` through
/// to its end, if it holds one there. The host and the port are the longest
/// runs that can be had.
pub open spec fn body_at(s: Seq<char>, a: int) -> Option<UrlParts> {
    let h = host_end(s, a);
    let d = if h + 1 < s.len() && s[h] == ':' && is_digit(s[h + 1]) {
        digits_end(s, h + 1)
    } else {
        h
    };
    let port = if d > h {
        Some(s.subrange(h + 1, d))
    } else {
        None
    };
    if h == a {
        None
    } else if d == s.len() {
        Some(UrlParts { host: s.subrange(a, h), port, marker: None, selector: Seq::empty() })
    } else if s[d] == '/' && d + 1 < s.len() && is_type_marker(s[d + 1]) {
        Some(
            UrlParts {
                host: s.subrange(a, h),
                port,
                marker: Some(s[d + 1]),
                selector: s.subrange(d + 2, s.len() as int),
            },
        )
    } else {
        None
    }
}

/// The parts of the address that `s` holds from `at` through to its end, if
/// it holds one there. A scheme at `at` belongs to the address.
pub open spec fn parts_at(s: Seq<char>, at: int) -> Option<UrlParts> {
    if at < 0 || at > s.len() {
        None
    } else if continues_with(s, at, scheme()) {
        body_at(s, at + 9)
    } else {
        body_at(s, at)
    }
}

/// The parts of the first address that `s` holds from `from` or later
/// through to its end.
pub open spec fn first_parts(s: Seq<char>, from: int) -> Option<UrlParts>
    decreases s.len() + 1 - from,
{
    if from > s.len() {
        None
    } else if parts_at(s, from) is Some {
        parts_at(s, from)
    } else {
        first_parts(s, from + 1)
    }
}

/// The address that the parts stand for, unless their port is above 65535.
/// Without a port it is 70; without a type it is a submenu with an empty
/// selector.
pub open spec fn url_of_parts(p: UrlParts) -> Option<UrlView> {
    let port: Option<u16> = match p.port {
        Some(digits) => if decimal_value(digits) <= u16::MAX {
            Some(decimal_value(digits) as u16)
        } else {
            None
        },
        None => Some(DEFAULT_PORT),
    };
    let gopher_type = match p.marker {
        Some(c) => item_of_char(c),
        None => GopherItem::Submenu,
    };
    match port {
        Some(port) => Some(UrlView { host: p.host, port, gopher_type, selector: p.selector }),
        None => None,
    }
}

/// The address that `s` is read as, if it is read as one.
pub open spec fn url_of_text(s: Seq<char>) -> Option<UrlView> {
    match first_parts(s, 0) {
        Some(p) => url_of_parts(p),
        None => None,
    }
}

/// The canonical text of an address: scheme, host and port, then `/`, the
/// type character and the selector. A submenu with an empty selector, which
/// is what text without a type is read as, is written without them.
pub open spec fn url_text(u: UrlView) -> Seq<char> {
    let origin = scheme() + u.host + seq![':'] + decimal(u.port as nat);
    if u.selector.len() == 0 && u.gopher_type == GopherItem::Submenu {
        origin
    } else {
        origin + seq!['/', char_of_item(u.gopher_type)] + u.selector
    }
}

/// The reference that a page uses for an address. A selector that points
/// outside Gopher-space is that reference itself, without its prefix; any
/// other address becomes a query that leads back to the gateway, with the
/// canonical text percent-encoded as the value of `url`.
pub open spec fn href_of(u: UrlView) -> Seq<char> {
    if is_escape(u.selector) {
        u.selector.subrange(4, u.selector.len() as int)
    } else {
        "?url="@ + percent_encoded(encode_utf8(url_text(u)))
    }
}

/// The address made of a host, the text of a port, an item type and a
/// selector. A port text that writes no port stands for 70.
pub open spec fn url_of_fields(
    host: Seq<char>,
    port: Seq<char>,
    item_type: GopherItem,
    selector: Seq<char>,
) -> UrlView {
    UrlView {
        host,
        port: match port_of_text(port) {
            Some(p) => p,
            None => DEFAULT_PORT,
        },
        gopher_type: item_type,
        selector,
    }
}

/// The run of host characters from `from` ends where `host_end` says.
pub proof fn lemma_host_end(s: Seq<char>, from: int)
    requires
        0 <= from <= s.len(),
    ensures
        from <= host_end(s, from) <= s.len(),
        all_host_chars(s.subrange(from, host_end(s, from))),
        host_end(s, from) < s.len() ==> !is_host_char(s[host_end(s, from)]),
    decreases s.len() - from,
{
    if from < s.len() && is_host_char(s[from]) {
        lemma_host_end(s, from + 1);
        let e = host_end(s, from);
        assert forall|i: int| 0 <= i < e - from implies is_host_char(
            #[trigger] s.subrange(from, e)[i],
        ) by {
            if i > 0 {
                assert(s.subrange(from, e)[i] == s.subrange(from + 1, e)[i - 1]);
            }
        }
    }
}

/// The run of digits from `from` ends where `digits_end` says.
pub proof fn lemma_digits_end(s: Seq<char>, from: int)
    requires
        0 <= from <= s.len(),
    ensures
        from <= digits_end(s, from) <= s.len(),
        all_digits(s.subrange(from, digits_end(s, from))),
        digits_end(s, from) < s.len() ==> !is_digit(s[digits_end(s, from)]),
    decreases s.len() - from,
{
    if from < s.len() && is_digit(s[from]) {
        lemma_digits_end(s, from + 1);
        let e = digits_end(s, from);
        assert forall|i: int| 0 <= i < e - from implies is_digit(
            #[trigger] s.subrange(from, e)[i],
        ) by {
            if i > 0 {
                assert(s.subrange(from, e)[i] == s.subrange(from + 1, e)[i - 1]);
            }
        }
    }
}

/// The end of the run of host characters of `v` that begins at `from`.
fn scan_host(v: &[char], from: usize) -> (end: usize)
    requires
        from <= v.len(),
    ensures
        end == host_end(v@, from as int),
        from <= end <= v.len(),
{
    let mut i: usize = from;
    while i < v.len() && v[i] != ':' && v[i] != '/'
        invariant
            from <= i <= v.len(),
            host_end(v@, from as int) == host_end(v@, i as int),
        decreases v.len() - i,
    {
        i += 1;
    }
    i
}

/// The end of the run of digits of `v` that begins at `from`.
fn scan_digits(v: &[char], from: usize) -> (end: usize)
    requires
        from <= v.len(),
    ensures
        end == digits_end(v@, from as int),
        from <= end <= v.len(),
{
    let mut i: usize = from;
    while i < v.len() && '0' <= v[i] && v[i] <= '9'
        invariant
            from <= i <= v.len(),
            digits_end(v@, from as int) == digits_end(v@, i as int),
        decreases v.len() - i,
    {
        i += 1;
    }
    i
}

/// Whether `c` can stand where address text names the item type.
fn type_marker(c: char) -> (yes: bool)
    ensures
        yes == is_type_marker(c),
{
    ('A' <= c && c <= 'z') || ('0' <= c && c <= '9') || c == ':' || c == '+' || c == ';' || c
        == '<' || c == '?'
}

/// The address without a scheme that `v` holds from `a` through to its end,
/// where its run of host characters ends at `h`: `None` where it holds none
/// there, `Some(None)` where it holds one whose port is above 65535.
fn read_body(v: &[char], a: usize, h: usize) -> (found: Option<Option<GopherURL>>)
    requires
        a <= v.len(),
        h == host_end(v@, a as int),
    ensures
        found is None <==> body_at(v@, a as int) is None,
        found matches Some(Some(u)) ==> url_of_parts(body_at(v@, a as int).unwrap()) == Some(u@),
        found matches Some(None) ==> url_of_parts(body_at(v@, a as int).unwrap()) is None,
{
    let n = v.len();
    proof {
        lemma_host_end(v@, a as int);
    }
    if h == a {
        return None;
    }
    let mut d: usize = h;
    if h < n && n - h > 1 && v[h] == ':' && '0' <= v[h + 1] && v[h + 1] <= '9' {
        d = scan_digits(v, h + 1);
    }
    proof {
        if d > h {
            lemma_digits_end(v@, h + 1);
        }
    }
    let port: Option<u16> = if d > h {
        match read_decimal(v, h + 1, d, 65535) {
            Some(p) => Some(p as u16),
            None => None,
        }
    } else {
        Some(DEFAULT_PORT)
    };
    if d == n {
        match port {
            Some(port) => Some(
                Some(
                    GopherURL {
                        host: text_of(v, a, h),
                        port,
                        gopher_type: GopherItem::Submenu,
                        selector: String::new(),
                    },
                ),
            ),
            None => Some(None),
        }
    } else if v[d] == '/' && n - d > 1 && type_marker(v[d + 1]) {
        match port {
            Some(port) => Some(
                Some(
                    GopherURL {
                        host: text_of(v, a, h),
                        port,
                        gopher_type: GopherItem::from_char(v[d + 1]),
                        selector: text_of(v, d + 2, n),
                    },
                ),
            ),
            None => Some(None),
        }
    } else {
        None
    }
}

impl Clone for GopherURL {
    fn clone(&self) -> (copy: GopherURL)
        ensures
            copy@ == self@,
    {
        GopherURL {
            host: self.host.clone(),
            port: self.port,
            gopher_type: self.gopher_type,
            selector: self.selector.clone(),
        }
    }
}

impl TryFrom<&str> for GopherURL {
    type Error = GopherError;

    /// Reads address text. The text is read at the first position from which
    /// it has the shape of an address through to its end; it fails where there
    /// is no such position, and where the address found names a port above
    /// 65535.
    fn try_from(url_str: &str) -> (parsed: Result<GopherURL, GopherError>)
        ensures
            match parsed {
                Ok(u) => url_of_text(url_str@) == Some(u@),
                Err(e) => url_of_text(url_str@) is None && e is UrlParse,
            },
    {
        let text = chars_of(url_str);
        let v = text.as_slice();
        let n = v.len();
        let marks = chars_of("gopher://");
        proof {
            reveal_strlit("gopher://");
            assert(marks@ =~= scheme());
        }
        let mut at: usize = 0;
        while at < n
            invariant
                at <= n,
                n == v@.len(),
                v@ == url_str@,
                marks@ == scheme(),
                first_parts(v@, 0) == first_parts(v@, at as int),
            decreases n - at,
        {
            let with_scheme = matches_at(v, at, marks.as_slice());
            let a: usize = if with_scheme {
                at + 9
            } else {
                at
            };
            let h = scan_host(v, a);
            match read_body(v, a, h) {
                Some(Some(u)) => {
                    return Ok(u);
                },
                Some(None) => {
                    return Err(GopherError::UrlParse);
                },
                None => {},
            }
            // Nothing is read here, nor in what shares the run of host
            // characters with this position: go on behind it.
            let next: usize = if with_scheme {
                at + 9
            } else if h == at {
                at + 1
            } else if h - at > 6 && matches_at(v, h - 6, marks.as_slice()) {
                h - 6
            } else if h < n {
                h + 1
            } else {
                n
            };
            proof {
                assert forall|q: int| at <= q < next implies parts_at(v@, q) is None by {
                    if q == at {
                    } else if with_scheme {
                        lemma_nothing_in_scheme(v@, at as int, q);
                    } else if q == h {
                        lemma_nothing_at_run_end(v@, at as int);
                    } else {
                        if continues_with(v@, q, scheme()) {
                            lemma_scheme_in_run(v@, at as int, q);
                        }
                        lemma_run_reads_alike(v@, at as int, q);
                    }
                }
                lemma_pass_over(v@, at as int, next as int);
            }
            at = next;
        }
        assert(first_parts(v@, v@.len() as int) is None) by {
            assert(parts_at(v@, v@.len() as int) is None);
            assert(first_parts(v@, v@.len() as int + 1) is None);
        }
        Err(GopherError::UrlParse)
    }
}

impl vstd::std_specs::convert::TryFromSpecImpl<&str> for GopherURL {
    open spec fn obeys_try_from_spec() -> bool {
        false
    }

    open spec fn try_from_spec(url_str: &str) -> Result<GopherURL, GopherError> {
        arbitrary()
    }
}

impl GopherURL {
    /// The address with the given host, item type and selector, and with the
    /// port that `port` writes, or 70 where it writes none.
    pub fn new(host: &str, port: &str, item_type: &GopherItem, selector: &str) -> (u: GopherURL)
        ensures
            u@ == url_of_fields(host@, port@, *item_type, selector@),
    {
        let digits = chars_of(port);
        GopherURL {
            host: String::from_str(host),
            port: match read_port(digits.as_slice()) {
                Some(p) => p,
                None => DEFAULT_PORT,
            },
            gopher_type: *item_type,
            selector: String::from_str(selector),
        }
    }

    /// The reference that a page uses for this address.
    pub fn to_href(&self) -> (href: String)
        ensures
            href@ == href_of(self@),
    {
        let selector = chars_of(self.selector.as_str());
        let escape = continues_at(selector.as_slice(), 0, "URL:");
        proof {
            reveal_strlit("URL:");
            assert("URL:"@ =~= escape_prefix());
        }
        if escape {
            text_of(selector.as_slice(), 4, selector.len())
        } else {
            let text = self.to_string();
            let encoded = percent_encode(text.as_str());
            String::from_str("?url=").concat(encoded.as_str())
        }
    }

    /// The canonical text of this address.
    pub fn to_string(&self) -> (text: String)
        ensures
            text@ == url_text(self@),
    {
        let mut text = String::from_str("gopher://");
        proof {
            reveal_strlit("gopher://");
            assert("gopher://"@ =~= scheme());
        }
        text.append(self.host.as_str());
        text.push(':');
        push_decimal(&mut text, self.port as u64);
        let ghost origin = scheme() + self.host@ + seq![':'] + decimal(self.port as nat);
        assert(text@ =~= origin);
        if !(self.selector.as_str().is_empty() && self.gopher_type == GopherItem::Submenu) {
            text.push('/');
            text.push(self.gopher_type.to_char());
            text.append(self.selector.as_str());
            assert(text@ =~= origin + seq!['/', char_of_item(self.gopher_type)]
                + self.selector@);
        }
        text
    }
}

} // verus!
