//! Characters and strings as sequences: conversions between `&str` and
//! vectors of characters, searching and splitting, and decimal numbers.

use vstd::prelude::*;
use vstd::utf8::{decode_utf8, valid_utf8};

verus! {

/// Why bytes were refused as text: `std::string::FromUtf8Error`.
#[verifier::external_type_specification]
#[verifier::external_body]
pub struct ExFromUtf8Error(std::string::FromUtf8Error);

/// `String::from_utf8` turns bytes into the text they encode, and fails
/// exactly where they are not UTF-8.
pub assume_specification[ String::from_utf8 ](bytes: Vec<u8>) -> (text: Result<
    String,
    std::string::FromUtf8Error,
>)
    ensures
        text is Ok <==> valid_utf8(bytes@),
        text matches Ok(t) ==> t@ == decode_utf8(bytes@),
;

/// `String::push` appends one character at the end.
pub assume_specification[ String::push ](s: &mut String, ch: char)
    ensures
        final(s)@ == old(s)@.push(ch),
;

/// The first position at or after `from` at which `s` holds `x`, and the
/// length of `s` where it holds none there.
pub open spec fn position_of<T>(s: Seq<T>, x: T, from: int) -> int
    decreases s.len() - from,
{
    if from >= s.len() {
        s.len() as int
    } else if from >= 0 && s[from] == x {
        from
    } else {
        position_of(s, x, from + 1)
    }
}

/// Whether `s` holds `x` anywhere.
pub open spec fn holds<T>(s: Seq<T>, x: T) -> bool {
    exists|i: int| 0 <= i < s.len() && s[i] == x
}

/// Whether `s` continues with all of `part` from position `at` on.
pub open spec fn continues_with<T>(s: Seq<T>, at: int, part: Seq<T>) -> bool {
    0 <= at && at + part.len() <= s.len() && s.subrange(at, at + part.len()) == part
}

/// The pieces that `sep` cuts `s` into: one more than `sep` occurs in `s`,
/// each without the separators around it, in order.
pub open spec fn split<T>(s: Seq<T>, sep: T) -> Seq<Seq<T>>
    decreases s.len(),
{
    if s.len() == 0 {
        seq![Seq::<T>::empty()]
    } else {
        let before = split(s.drop_last(), sep);
        if s.last() == sep {
            before.push(Seq::<T>::empty())
        } else {
            before.update(before.len() - 1, before.last().push(s.last()))
        }
    }
}

/// The views of a sequence of strings.
pub open spec fn texts(v: Seq<String>) -> Seq<Seq<char>> {
    Seq::new(v.len(), |i: int| v[i]@)
}

/// The views of a sequence of byte vectors.
pub open spec fn byte_runs(v: Seq<Vec<u8>>) -> Seq<Seq<u8>> {
    Seq::new(v.len(), |i: int| v[i]@)
}

/// What `position_of` finds is the first occurrence from `from` on.
pub proof fn lemma_position_of<T>(s: Seq<T>, x: T, from: int)
    requires
        0 <= from <= s.len(),
    ensures
        from <= position_of(s, x, from) <= s.len(),
        position_of(s, x, from) < s.len() ==> s[position_of(s, x, from)] == x,
        forall|i: int| from <= i < position_of(s, x, from) ==> s[i] != x,
    decreases s.len() - from,
{
    if from < s.len() && s[from] != x {
        lemma_position_of(s, x, from + 1);
    }
}

/// A position that holds `x` with none before it back to `from` is what
/// `position_of` finds; so is the length where nothing from `from` on is `x`.
pub proof fn lemma_position_of_is<T>(s: Seq<T>, x: T, from: int, at: int)
    requires
        0 <= from <= at <= s.len(),
        at < s.len() ==> s[at] == x,
        forall|i: int| from <= i < at ==> s[i] != x,
    ensures
        position_of(s, x, from) == at,
    decreases at - from,
{
    if from < at {
        lemma_position_of_is(s, x, from + 1, at);
    }
}

/// There is always at least one piece.
pub proof fn lemma_split_nonempty<T>(s: Seq<T>, sep: T)
    ensures
        split(s, sep).len() >= 1,
    decreases s.len(),
{
    if s.len() > 0 {
        lemma_split_nonempty(s.drop_last(), sep);
    }
}

/// A sequence without the separator is its own single piece.
pub proof fn lemma_split_whole<T>(s: Seq<T>, sep: T)
    requires
        !holds(s, sep),
    ensures
        split(s, sep) == seq![s],
    decreases s.len(),
{
    if s.len() > 0 {
        let t = s.drop_last();
        assert forall|i: int| 0 <= i < t.len() implies t[i] != sep by {
            assert(t[i] == s[i]);
        }
        lemma_split_whole(t, sep);
        assert(s.last() != sep);
        assert(seq![t].update(0, t.push(s.last())) == seq![s]) by {
            assert(t.push(s.last()) == s);
        }
    } else {
        assert(s == Seq::<T>::empty());
    }
}

/// The pieces of two sequences joined by one separator are the pieces of the
/// first followed by those of the second.
pub proof fn lemma_split_join<T>(a: Seq<T>, b: Seq<T>, sep: T)
    ensures
        split(a.push(sep) + b, sep) == split(a, sep) + split(b, sep),
    decreases b.len(),
{
    let whole = a.push(sep) + b;
    lemma_split_nonempty(a, sep);
    if b.len() == 0 {
        assert(whole == a.push(sep));
        assert(whole.drop_last() == a);
        assert(split(b, sep) == seq![Seq::<T>::empty()]);
        assert(split(a, sep).push(Seq::<T>::empty()) == split(a, sep) + seq![Seq::<T>::empty()]);
    } else {
        let b0 = b.drop_last();
        lemma_split_join(a, b0, sep);
        lemma_split_nonempty(b0, sep);
        assert(whole.drop_last() == a.push(sep) + b0);
        assert(whole.last() == b.last());
        let pa = split(a, sep);
        let pb = split(b0, sep);
        if b.last() == sep {
            assert((pa + pb).push(Seq::<T>::empty()) == pa + pb.push(Seq::<T>::empty()));
        } else {
            assert((pa + pb).update((pa + pb).len() - 1, (pa + pb).last().push(b.last())) == pa
                + pb.update(pb.len() - 1, pb.last().push(b.last())));
        }
    }
}

/// The characters of `s`, in order.
pub fn chars_of(s: &str) -> (v: Vec<char>)
    ensures
        v@ == s@,
{
    let mut v: Vec<char> = Vec::new();
    for c in it: s.chars()
        invariant
            it.seq() == s@,
            v@ == s@.take(it.index()),
    {
        assert(s@.take(it.index() + 1) == s@.take(it.index()).push(c));
        v.push(c);
    }
    assert(s@.take(s@.len() as int) == s@);
    v
}

/// The string made of `v[from..to]`.
pub fn text_of(v: &[char], from: usize, to: usize) -> (s: String)
    requires
        from <= to <= v.len(),
    ensures
        s@ == v@.subrange(from as int, to as int),
{
    let mut s = String::new();
    let mut i: usize = from;
    while i < to
        invariant
            from <= i <= to <= v.len(),
            s@ == v@.subrange(from as int, i as int),
        decreases to - i,
    {
        s.push(v[i]);
        i += 1;
        assert(v@.subrange(from as int, i as int) == v@.subrange(from as int, i - 1).push(
            v@[i - 1],
        ));
    }
    s
}

/// Whether `v` continues with all of `part` from `at` on.
pub fn matches_at(v: &[char], at: usize, part: &[char]) -> (yes: bool)
    requires
        at <= v.len(),
    ensures
        yes == continues_with(v@, at as int, part@),
{
    if part.len() > v.len() - at {
        return false;
    }
    let mut i: usize = 0;
    while i < part.len()
        invariant
            at + part.len() <= v.len(),
            i <= part.len(),
            forall|k: int| 0 <= k < i ==> v@[at + k] == part@[k],
        decreases part.len() - i,
    {
        if v[at + i] != part[i] {
            assert(v@.subrange(at as int, at + part@.len())[i as int] != part@[i as int]);
            return false;
        }
        i += 1;
    }
    assert(v@.subrange(at as int, at + part@.len()) =~= part@);
    true
}

/// Whether `v` continues with the characters of `part` from `at` on.
pub fn continues_at(v: &[char], at: usize, part: &str) -> (yes: bool)
    requires
        at <= v.len(),
    ensures
        yes == continues_with(v@, at as int, part@),
{
    let p = chars_of(part);
    matches_at(v, at, p.as_slice())
}

/// The pieces that the byte `sep` cuts `v` into.
pub fn split_bytes(v: &[u8], sep: u8) -> (pieces: Vec<Vec<u8>>)
    ensures
        byte_runs(pieces@) == split(v@, sep),
{
    let mut pieces: Vec<Vec<u8>> = Vec::new();
    let mut piece: Vec<u8> = Vec::new();
    let mut i: usize = 0;
    assert(v@.take(0) == Seq::<u8>::empty());
    assert(byte_runs(pieces@).push(piece@) == seq![Seq::<u8>::empty()]);
    while i < v.len()
        invariant
            i <= v.len(),
            byte_runs(pieces@).push(piece@) == split(v@.take(i as int), sep),
        decreases v.len() - i,
    {
        let ghost before = byte_runs(pieces@).push(piece@);
        let b = v[i];
        assert(v@.take(i + 1).drop_last() == v@.take(i as int));
        assert(v@.take(i + 1).last() == b);
        if b == sep {
            pieces.push(piece);
            piece = Vec::new();
            assert(byte_runs(pieces@) == before);
        } else {
            piece.push(b);
            assert(byte_runs(pieces@).push(piece@) == before.update(
                before.len() - 1,
                before.last().push(b),
            ));
        }
        i += 1;
    }
    assert(v@.take(v@.len() as int) == v@);
    let ghost before = byte_runs(pieces@).push(piece@);
    pieces.push(piece);
    assert(byte_runs(pieces@) == before);
    pieces
}

/// The pieces that `sep` cuts `v` into, each as a string.
pub fn split_text(v: &[char], sep: char) -> (pieces: Vec<String>)
    ensures
        texts(pieces@) == split(v@, sep),
{
    let mut pieces: Vec<String> = Vec::new();
    let mut piece = String::new();
    let mut i: usize = 0;
    assert(v@.take(0) == Seq::<char>::empty());
    assert(texts(pieces@).push(piece@) == seq![Seq::<char>::empty()]);
    while i < v.len()
        invariant
            i <= v.len(),
            texts(pieces@).push(piece@) == split(v@.take(i as int), sep),
        decreases v.len() - i,
    {
        let ghost before = texts(pieces@).push(piece@);
        let c = v[i];
        assert(v@.take(i + 1).drop_last() == v@.take(i as int));
        assert(v@.take(i + 1).last() == c);
        if c == sep {
            pieces.push(piece);
            piece = String::new();
            assert(texts(pieces@) == before);
        } else {
            piece.push(c);
            assert(texts(pieces@).push(piece@) == before.update(
                before.len() - 1,
                before.last().push(c),
            ));
        }
        i += 1;
    }
    assert(v@.take(v@.len() as int) == v@);
    let ghost before = texts(pieces@).push(piece@);
    pieces.push(piece);
    assert(texts(pieces@) == before);
    pieces
}

} // verus!
