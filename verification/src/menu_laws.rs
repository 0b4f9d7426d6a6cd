//! What holds of reading menu lines and of putting menus together.

use vstd::prelude::*;
use crate::entry::{entry_of_fields, entry_of_line, invalid_entry, well_formed, EntryView};
use crate::item::{is_type_char, item_of_char, GopherItem};
use crate::menu::{end_line, menu_of_entries, menu_of_lines, menu_with};
use crate::text::{
    holds, lemma_split_join, lemma_split_nonempty, lemma_split_whole, position_of, split,
};

verus! {

/// How often `s` holds `x`.
pub open spec fn count_of<T>(s: Seq<T>, x: T) -> nat
    decreases s.len(),
{
    if s.len() == 0 {
        0
    } else if s.last() == x {
        count_of(s.drop_last(), x) + 1
    } else {
        count_of(s.drop_last(), x)
    }
}

/// A menu line written from its fields.
pub open spec fn line_of_fields(
    marker: char,
    label: Seq<char>,
    selector: Seq<char>,
    host: Seq<char>,
    port: Seq<char>,
) -> Seq<char> {
    seq![marker] + label + seq!['\t'] + selector + seq!['\t'] + host + seq!['\t'] + port
}

/// Whether a menu is such as putting it together leaves it: without an
/// `Unknown` entry, without two `Info` entries in a row, and with an address
/// in every entry but the `Info` entries.
pub open spec fn tidy(items: Seq<EntryView>) -> bool {
    &&& forall|i: int|
        0 <= i < items.len() ==> (#[trigger] items[i]).item_type != GopherItem::Unknown
    &&& forall|i: int| 0 <= i < items.len() ==> well_formed(#[trigger] items[i])
    &&& forall|i: int, j: int|
        0 <= i < items.len() && j == i + 1 && j < items.len() ==> !((#[trigger] items[i]).item_type
            == GopherItem::Info && (#[trigger] items[j]).item_type == GopherItem::Info)
}

/// There is one more piece than there are separators.
pub proof fn lemma_split_len<T>(s: Seq<T>, sep: T)
    ensures
        split(s, sep).len() == count_of(s, sep) + 1,
    decreases s.len(),
{
    if s.len() > 0 {
        lemma_split_len(s.drop_last(), sep);
    }
}

/// A line with fewer than three tabs, so with fewer than four fields, is read
/// as the invalid entry; so is a line that does not begin with a type
/// character, the empty line among them.
pub proof fn lemma_short_line(line: Seq<char>)
    requires
        count_of(line, '\t') < 3 || line.len() == 0 || !is_type_char(line[0]),
    ensures
        entry_of_line(line) == invalid_entry(),
{
    lemma_split_len(line, '\t');
    if count_of(line, '\t') >= 3 && line.len() > 0 {
        lemma_first_piece(line, '\t');
    }
}

/// Every line is read as the invalid entry or as an entry of a type other
/// than `Unknown`.
pub proof fn lemma_unknown_is_invalid(line: Seq<char>)
    ensures
        entry_of_line(line).item_type == GopherItem::Unknown ==> entry_of_line(line)
            == invalid_entry(),
{
}

/// The first piece is empty exactly where the sequence is empty or begins
/// with the separator.
pub proof fn lemma_first_piece<T>(s: Seq<T>, sep: T)
    ensures
        split(s, sep).len() >= 1,
        split(s, sep)[0].len() == 0 <==> s.len() == 0 || s[0] == sep,
        s.len() > 0 && s[0] != sep ==> split(s, sep)[0][0] == s[0],
        s.len() > 0 && s[0] == sep ==> split(s, sep).len() >= 2,
    decreases s.len(),
{
    lemma_split_nonempty(s, sep);
    if s.len() > 0 {
        lemma_first_piece(s.drop_last(), sep);
        lemma_split_nonempty(s.drop_last(), sep);
        if s.len() > 1 {
            assert(s.drop_last()[0] == s[0]);
        }
    }
}

/// A line written from a type character and fields that hold no tab is read
/// as the entry of those fields.
pub proof fn lemma_line_of_fields(
    marker: char,
    label: Seq<char>,
    selector: Seq<char>,
    host: Seq<char>,
    port: Seq<char>,
)
    requires
        is_type_char(marker),
        !holds(label, '\t'),
        !holds(selector, '\t'),
        !holds(host, '\t'),
        !holds(port, '\t'),
    ensures
        entry_of_line(line_of_fields(marker, label, selector, host, port)) == entry_of_fields(
            item_of_char(marker),
            label,
            selector,
            host,
            port,
        ),
{
    let first = seq![marker] + label;
    assert(!holds(first, '\t')) by {
        if holds(first, '\t') {
            let i = choose|i: int| 0 <= i < first.len() && first[i] == '\t';
            assert(i > 0);
            assert(label[i - 1] == '\t');
        }
    }
    lemma_split_whole(first, '\t');
    lemma_split_whole(selector, '\t');
    lemma_split_whole(host, '\t');
    lemma_split_whole(port, '\t');
    let two = first.push('\t') + selector;
    let three = two.push('\t') + host;
    let four = three.push('\t') + port;
    lemma_split_join(first, selector, '\t');
    lemma_split_join(two, host, '\t');
    lemma_split_join(three, port, '\t');
    assert(four =~= line_of_fields(marker, label, selector, host, port));
    let fields = split(four, '\t');
    assert(fields =~= seq![first, selector, host, port]);
    assert(first.subrange(1, first.len() as int) =~= label);
}

/// Every line is read as an entry that leads somewhere, unless it is read as
/// `Info` or `Unknown`.
pub proof fn lemma_entry_of_line_well_formed(line: Seq<char>)
    ensures
        well_formed(entry_of_line(line)),
{
}

/// Taking an entry into a tidy menu leaves the menu tidy.
pub proof fn lemma_menu_with_tidy(items: Seq<EntryView>, entry: EntryView)
    requires
        tidy(items),
        well_formed(entry),
    ensures
        tidy(menu_with(items, entry)),
{
    let after = menu_with(items, entry);
    if entry.item_type == GopherItem::Unknown {
    } else if entry.item_type == GopherItem::Info && items.len() > 0 && items.last().item_type
        == GopherItem::Info {
        assert forall|i: int, j: int|
            0 <= i < after.len() && j == i + 1 && j < after.len() implies !((
        #[trigger] after[i]).item_type == GopherItem::Info && (#[trigger] after[j]).item_type
            == GopherItem::Info) by {
            if j == after.len() - 1 {
                assert(after[i] == items[i]);
                assert(items[j].item_type == GopherItem::Info);
            } else {
                assert(after[i] == items[i]);
                assert(after[j] == items[j]);
            }
        }
    } else {
        assert forall|i: int, j: int|
            0 <= i < after.len() && j == i + 1 && j < after.len() implies !((
        #[trigger] after[i]).item_type == GopherItem::Info && (#[trigger] after[j]).item_type
            == GopherItem::Info) by {
            if j < items.len() {
                assert(after[i] == items[i]);
                assert(after[j] == items[j]);
            } else {
                assert(after[i] == items.last());
            }
        }
    }
}

/// A menu put together from all of the given lines is tidy: a line that is
/// read as `Unknown` is left out, and `Info` lines in a row become one entry.
pub proof fn lemma_menu_entries_tidy(lines: Seq<Seq<char>>)
    ensures
        tidy(menu_of_entries(lines)),
    decreases lines.len(),
{
    if lines.len() > 0 {
        lemma_menu_entries_tidy(lines.drop_last());
        lemma_menu_with_tidy(menu_of_entries(lines.drop_last()), entry_of_line(lines.last()));
    }
}

/// A menu put together from lines up to the end line is tidy.
pub proof fn lemma_menu_tidy(lines: Seq<Seq<char>>)
    ensures
        tidy(menu_of_lines(lines)),
{
    lemma_menu_entries_tidy(lines.take(position_of(lines, end_line(), 0)));
}

/// A menu has no more entries than lines went into it.
pub proof fn lemma_menu_len(lines: Seq<Seq<char>>)
    ensures
        menu_of_entries(lines).len() <= lines.len(),
    decreases lines.len(),
{
    if lines.len() > 0 {
        lemma_menu_len(lines.drop_last());
    }
}

} // verus!
