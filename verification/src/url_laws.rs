//! What holds of reading and writing addresses: the reader accepts exactly
//! the grammar, finds the leftmost address, and reads back what was written.

use vstd::prelude::*;
use crate::item::{char_of_item, item_of_char, GopherItem};
use crate::number::{decimal, is_digit, lemma_decimal_digits, lemma_decimal_roundtrip};
use crate::text::continues_with;
use crate::url::{
    all_host_chars, body_at, digits_end, first_parts, host_end, is_host_char, is_type_marker,
    lemma_digits_end, lemma_host_end, parts_at, parts_text, reads_as, scheme, url_of_parts,
    url_of_text, url_text, well_formed, UrlParts, UrlView,
};

verus! {

/// A run of host characters that cannot be made longer ends where `host_end`
/// says.
pub proof fn lemma_host_end_is(s: Seq<char>, from: int, end: int)
    requires
        0 <= from <= end <= s.len(),
        forall|i: int| from <= i < end ==> is_host_char(s[i]),
        end < s.len() ==> !is_host_char(s[end]),
    ensures
        host_end(s, from) == end,
    decreases end - from,
{
    if from < end {
        lemma_host_end_is(s, from + 1, end);
    }
}

/// A run of digits that cannot be made longer ends where `digits_end` says.
pub proof fn lemma_digits_end_is(s: Seq<char>, from: int, end: int)
    requires
        0 <= from <= end <= s.len(),
        forall|i: int| from <= i < end ==> is_digit(s[i]),
        end < s.len() ==> !is_digit(s[end]),
    ensures
        digits_end(s, from) == end,
    decreases end - from,
{
    if from < end {
        lemma_digits_end_is(s, from + 1, end);
    }
}

/// What is read without a scheme has the shape of an address, and written out
/// it is the text it was read from.
pub proof fn lemma_body_sound(s: Seq<char>, a: int)
    requires
        0 <= a <= s.len(),
        body_at(s, a) is Some,
    ensures
        well_formed(body_at(s, a).unwrap()),
        s.subrange(a, s.len() as int) == parts_text(body_at(s, a).unwrap()),
{
    let p = body_at(s, a).unwrap();
    let n = s.len() as int;
    let h = host_end(s, a);
    lemma_host_end(s, a);
    if h + 1 <= n {
        lemma_digits_end(s, h + 1);
    }
    let d = if h + 1 < n && s[h] == ':' && is_digit(s[h + 1]) {
        digits_end(s, h + 1)
    } else {
        h
    };
    assert(s.subrange(a, n) =~= parts_text(p));
}

/// Text that has the shape of an address without a scheme is read as the
/// parts it was written from.
pub proof fn lemma_body_complete(s: Seq<char>, a: int, p: UrlParts)
    requires
        0 <= a <= s.len(),
        well_formed(p),
        s.subrange(a, s.len() as int) == parts_text(p),
    ensures
        body_at(s, a) == Some(p),
{
    let n = s.len() as int;
    let t = parts_text(p);
    let hl = p.host.len() as int;
    let port_text = match p.port {
        Some(digits) => seq![':'] + digits,
        None => Seq::<char>::empty(),
    };
    let rest = match p.marker {
        Some(c) => seq!['/', c] + p.selector,
        None => Seq::<char>::empty(),
    };
    let pl = port_text.len() as int;
    let h = a + hl;
    let d = h + pl;
    assert(t == p.host + port_text + rest);
    assert(n - a == hl + pl + rest.len());
    assert forall|i: int| 0 <= i < n - a implies s[a + i] == t[i] by {
        assert(s.subrange(a, n)[i] == s[a + i]);
    }
    assert forall|i: int| 0 <= i < hl implies s[a + i] == p.host[i] by {
        assert(s[a + i] == t[i]);
    }
    assert forall|i: int| 0 <= i < pl implies s[h + i] == port_text[i] by {
        assert(s[a + (hl + i)] == t[hl + i]);
    }
    assert forall|i: int| 0 <= i < rest.len() implies s[d + i] == rest[i] by {
        assert(s[a + (hl + pl + i)] == t[hl + pl + i]);
    }
    // the host
    assert forall|i: int| a <= i < h implies is_host_char(s[i]) by {
        assert(s[a + (i - a)] == p.host[i - a]);
    }
    if h < n {
        if pl > 0 {
            assert(s[h + 0] == port_text[0]);
        } else {
            assert(s[d + 0] == rest[0]);
        }
        assert(!is_host_char(s[h]));
    }
    lemma_host_end_is(s, a, h);
    assert(s.subrange(a, h) =~= p.host);
    // the port
    match p.port {
        Some(digits) => {
            assert(s[h + 0] == port_text[0]);
            assert forall|i: int| 0 <= i < digits.len() implies s[h + 1 + i] == digits[i] by {
                assert(s[h + (i + 1)] == port_text[i + 1]);
            }
            assert forall|i: int| h + 1 <= i < d implies is_digit(s[i]) by {
                assert(s[h + 1 + (i - h - 1)] == digits[i - h - 1]);
            }
            assert(s[h + 1 + 0] == digits[0]);
            if d < n {
                assert(s[d + 0] == rest[0]);
                assert(!is_digit(s[d]));
            }
            lemma_digits_end_is(s, h + 1, d);
            assert(s.subrange(h + 1, d) =~= digits);
        },
        None => {
            if h < n {
                assert(s[d + 0] == rest[0]);
            }
        },
    }
    // the type and the selector
    match p.marker {
        Some(c) => {
            assert(s[d + 0] == rest[0]);
            assert(s[d + 1] == rest[1]);
            assert forall|i: int| 0 <= i < p.selector.len() implies s[d + 2 + i]
                == p.selector[i] by {
                assert(s[d + (i + 2)] == rest[i + 2]);
            }
            assert(s.subrange(d + 2, n) =~= p.selector);
        },
        None => {
            assert(p.selector =~= Seq::<char>::empty());
        },
    }
}

/// No address without a scheme begins with the scheme: the port after `:`
/// begins with a digit.
pub proof fn lemma_scheme_is_no_address(s: Seq<char>, at: int, p: UrlParts)
    requires
        0 <= at <= s.len(),
        well_formed(p),
        s.subrange(at, s.len() as int) == parts_text(p),
    ensures
        !continues_with(s, at, scheme()),
{
    lemma_body_complete(s, at, p);
    if continues_with(s, at, scheme()) {
        let sch = s.subrange(at, at + 9);
        assert(sch == scheme());
        assert forall|i: int| at <= i < at + 6 implies is_host_char(s[i]) by {
            assert(s[i] == sch[i - at]);
        }
        assert(s[at + 6] == sch[6]);
        assert(s[at + 7] == sch[7]);
        lemma_host_end_is(s, at, at + 6);
        assert(body_at(s, at) is None);
    }
}

/// What is read at a position has the shape of an address, and the text from
/// that position on is that address written out, with or without a scheme.
pub proof fn lemma_parts_sound(s: Seq<char>, at: int)
    requires
        parts_at(s, at) is Some,
    ensures
        0 <= at <= s.len(),
        reads_as(s.subrange(at, s.len() as int), parts_at(s, at).unwrap()),
{
    let n = s.len() as int;
    let p = parts_at(s, at).unwrap();
    if continues_with(s, at, scheme()) {
        lemma_body_sound(s, at + 9);
        assert(s.subrange(at, n) =~= s.subrange(at, at + 9) + s.subrange(at + 9, n));
    } else {
        lemma_body_sound(s, at);
    }
}

/// Text that from a position on has the shape of an address, with or without
/// a scheme, is read there as the parts it was written from. So the grammar
/// is read in one way only.
pub proof fn lemma_parts_complete(s: Seq<char>, at: int, p: UrlParts)
    requires
        0 <= at <= s.len(),
        reads_as(s.subrange(at, s.len() as int), p),
    ensures
        parts_at(s, at) == Some(p),
{
    let n = s.len() as int;
    let t = s.subrange(at, n);
    if t == parts_text(p) {
        lemma_scheme_is_no_address(s, at, p);
        lemma_body_complete(s, at, p);
    } else {
        assert(t == scheme() + parts_text(p));
        assert(s.subrange(at, at + 9) =~= scheme()) by {
            assert forall|i: int| 0 <= i < 9 implies s.subrange(at, at + 9)[i] == scheme()[i] by {
                assert(s.subrange(at, at + 9)[i] == t[i]);
            }
        }
        assert(s.subrange(at + 9, n) =~= parts_text(p)) by {
            assert forall|i: int| 0 <= i < n - at - 9 implies s.subrange(at + 9, n)[i]
                == parts_text(p)[i] by {
                assert(s.subrange(at + 9, n)[i] == t[i + 9]);
            }
        }
        lemma_body_complete(s, at + 9, p);
    }
}

/// What `first_parts` finds is read at some position that nothing can be
/// read in front of; it finds nothing only where nothing can be read at all.
pub proof fn lemma_first_parts(s: Seq<char>, from: int)
    requires
        0 <= from,
    ensures
        first_parts(s, from) is Some ==> exists|at: int|
            from <= at <= s.len() && #[trigger] parts_at(s, at) == first_parts(s, from) && forall|
                q: int,
            |
                from <= q < at ==> parts_at(s, q) is None,
        first_parts(s, from) is None ==> forall|q: int| from <= q ==> parts_at(s, q) is None,
    decreases s.len() + 1 - from,
{
    if from <= s.len() {
        if parts_at(s, from) is Some {
            assert(parts_at(s, from) == first_parts(s, from));
        } else {
            lemma_first_parts(s, from + 1);
            if first_parts(s, from) is Some {
                let at = choose|at: int|
                    from + 1 <= at <= s.len() && #[trigger] parts_at(s, at) == first_parts(
                        s,
                        from + 1,
                    ) && forall|q: int| from + 1 <= q < at ==> parts_at(s, q) is None;
                assert(parts_at(s, at) == first_parts(s, from));
            }
        }
    }
}

/// Where nothing can be read at any position of a range, the search goes on
/// behind the range.
pub proof fn lemma_pass_over(s: Seq<char>, from: int, to: int)
    requires
        0 <= from <= to,
        forall|q: int| from <= q < to ==> parts_at(s, q) is None,
    ensures
        first_parts(s, from) == first_parts(s, to),
    decreases to - from,
{
    if from < to {
        lemma_pass_over(s, from + 1, to);
        if from > s.len() {
            assert(first_parts(s, to) is None);
        }
    }
}

/// From every position of a run of host characters, the run ends at the same
/// place.
pub proof fn lemma_same_run(s: Seq<char>, at: int, q: int)
    requires
        0 <= at <= q <= host_end(s, at),
    ensures
        host_end(s, q) == host_end(s, at),
    decreases q - at,
{
    if at < q {
        lemma_same_run(s, at + 1, q);
    }
}

/// Where nothing is read at the beginning of a run of host characters,
/// nothing is read from a later position of the run either, a scheme there
/// left aside: what follows the run is the same.
pub proof fn lemma_run_reads_alike(s: Seq<char>, at: int, q: int)
    requires
        0 <= at < q < host_end(s, at),
        body_at(s, at) is None,
    ensures
        body_at(s, q) is None,
{
    lemma_same_run(s, at, q);
}

/// A scheme that begins inside a run of host characters begins six
/// characters before the run's end: its colon ends the run.
pub proof fn lemma_scheme_in_run(s: Seq<char>, at: int, q: int)
    requires
        0 <= at <= q < host_end(s, at),
        continues_with(s, q, scheme()),
    ensures
        q + 6 == host_end(s, at),
{
    lemma_same_run(s, at, q);
    let part = s.subrange(q, q + 9);
    assert(part == scheme());
    assert forall|i: int| q <= i < q + 6 implies is_host_char(s[i]) by {
        assert(s[i] == part[i - q]);
    }
    assert(s[q + 6] == part[6]);
    lemma_host_end_is(s, q, q + 6);
}

/// Nothing is read at the place where a run of host characters ends.
pub proof fn lemma_nothing_at_run_end(s: Seq<char>, a: int)
    requires
        0 <= a <= s.len(),
    ensures
        parts_at(s, host_end(s, a)) is None,
{
    let h = host_end(s, a);
    lemma_host_end(s, a);
    if continues_with(s, h, scheme()) {
        assert(s.subrange(h, h + 9)[0] == s[h]);
    }
}

/// The characters of a scheme, where the text holds one.
pub proof fn lemma_scheme_chars(s: Seq<char>, at: int)
    requires
        continues_with(s, at, scheme()),
    ensures
        0 <= at,
        at + 9 <= s.len(),
        s[at] == 'g',
        s[at + 1] == 'o',
        s[at + 2] == 'p',
        s[at + 3] == 'h',
        s[at + 4] == 'e',
        s[at + 5] == 'r',
        s[at + 6] == ':',
        s[at + 7] == '/',
        s[at + 8] == '/',
{
    let part = s.subrange(at, at + 9);
    assert(part == scheme());
    assert(s[at] == part[0]);
    assert(s[at + 1] == part[1]);
    assert(s[at + 2] == part[2]);
    assert(s[at + 3] == part[3]);
    assert(s[at + 4] == part[4]);
    assert(s[at + 5] == part[5]);
    assert(s[at + 6] == part[6]);
    assert(s[at + 7] == part[7]);
    assert(s[at + 8] == part[8]);
}

/// Nothing is read from inside a scheme.
pub proof fn lemma_nothing_in_scheme(s: Seq<char>, at: int, q: int)
    requires
        continues_with(s, at, scheme()),
        at < q < at + 9,
    ensures
        parts_at(s, q) is None,
{
    lemma_scheme_chars(s, at);
    if continues_with(s, q, scheme()) {
        lemma_scheme_chars(s, q);
    }
    assert(body_at(s, q) is None) by {
        if q < at + 6 {
            lemma_host_end_is(s, q, at + 6);
        }
    }
}

/// Text that as a whole has the shape of an address is read as that address:
/// nothing in it is passed over.
pub proof fn lemma_whole_text(s: Seq<char>, p: UrlParts)
    requires
        reads_as(s, p),
    ensures
        first_parts(s, 0) == Some(p),
        url_of_text(s) == url_of_parts(p),
{
    assert(s.subrange(0, s.len() as int) =~= s);
    lemma_parts_complete(s, 0, p);
}

/// Whether an address is read back from its canonical text: its host has to
/// be one that the grammar can read, not empty and without `:` and `/`.
pub open spec fn reads_back(u: UrlView) -> bool {
    u.host.len() > 0 && all_host_chars(u.host)
}

/// Reading the canonical text of an address gives the address back: the same
/// host, port, item type and selector, whatever the selector holds and
/// whether or not it points outside Gopher-space.
pub proof fn lemma_url_roundtrip(u: UrlView)
    requires
        reads_back(u),
    ensures
        url_of_text(url_text(u)) == Some(u),
{
    let digits = decimal(u.port as nat);
    lemma_decimal_digits(u.port as nat);
    lemma_decimal_roundtrip(u.port as nat);
    let c = char_of_item(u.gopher_type);
    let p = UrlParts {
        host: u.host,
        port: Some(digits),
        marker: if u.selector.len() == 0 && u.gopher_type == GopherItem::Submenu {
            None
        } else {
            Some(c)
        },
        selector: u.selector,
    };
    assert(is_type_marker(c));
    assert(item_of_char(c) == u.gopher_type);
    assert(url_text(u) =~= scheme() + parts_text(p));
    lemma_whole_text(url_text(u), p);
}

} // verus!
