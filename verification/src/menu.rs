//! Menus: the entries that a server's answer to a menu request is made of.
//!
//! A menu is put together line by line. A line that reads as `Unknown` is
//! left out; an `Info` line that follows an `Info` entry is joined to it, so
//! that banners drawn over several lines stay in one piece; a line that holds
//! a single `.` ends the menu.

use vstd::prelude::*;
use vstd::string::StringExecFns;
use vstd::utf8::{decode_utf8, valid_utf8};
use crate::entry::{entry_of_line, DirEntry, EntryView};
use crate::item::GopherItem;
use crate::menu_laws::{lemma_menu_tidy, tidy};
use crate::text::{byte_runs, chars_of, position_of, split, split_bytes, texts};

verus! {

/// The entries of a menu, in order.
pub struct Menu {
    pub items: Vec<DirEntry>,
}

impl View for Menu {
    type V = Seq<EntryView>;

    open spec fn view(&self) -> Seq<EntryView> {
        Seq::new(self.items@.len(), |i: int| self.items@[i]@)
    }
}

/// The line that ends a menu.
pub open spec fn end_line() -> Seq<char> {
    seq!['.']
}

/// A menu with one more entry taken in.
pub open spec fn menu_with(items: Seq<EntryView>, entry: EntryView) -> Seq<EntryView> {
    if entry.item_type == GopherItem::Unknown {
        items
    } else if entry.item_type == GopherItem::Info && items.len() > 0 && items.last().item_type
        == GopherItem::Info {
        items.update(
            items.len() - 1,
            EntryView {
                item_type: items.last().item_type,
                label: items.last().label + seq!['\n'] + entry.label,
                url: items.last().url,
            },
        )
    } else {
        items.push(entry)
    }
}

/// The menu that all of the given lines make.
pub open spec fn menu_of_entries(lines: Seq<Seq<char>>) -> Seq<EntryView>
    decreases lines.len(),
{
    if lines.len() == 0 {
        Seq::empty()
    } else {
        menu_with(menu_of_entries(lines.drop_last()), entry_of_line(lines.last()))
    }
}

/// The menu that the given lines make: that of the lines in front of the
/// first end line, or of all of them where there is none.
pub open spec fn menu_of_lines(lines: Seq<Seq<char>>) -> Seq<EntryView> {
    menu_of_entries(lines.take(position_of(lines, end_line(), 0)))
}

/// A line without the carriage return that it may end with.
pub open spec fn without_return(line: Seq<u8>) -> Seq<u8> {
    if line.len() > 0 && line.last() == 13u8 {
        line.drop_last()
    } else {
        line
    }
}

/// The lines that a stream of bytes holds. A line feed ends a line, and the
/// carriage return in front of it goes with it. What follows the last line
/// feed is a line too, unless nothing follows it; that line keeps a carriage
/// return at its end.
pub open spec fn byte_lines(bytes: Seq<u8>) -> Seq<Seq<u8>> {
    let pieces = split(bytes, 10u8);
    let ended = Seq::new((pieces.len() - 1) as nat, |i: int| without_return(pieces[i]));
    if pieces.last().len() == 0 {
        ended
    } else {
        ended.push(pieces.last())
    }
}

/// The lines up to the first that is not UTF-8, as text.
pub open spec fn readable_lines(lines: Seq<Seq<u8>>) -> Seq<Seq<char>>
    decreases lines.len(),
{
    if lines.len() == 0 {
        Seq::empty()
    } else {
        let before = readable_lines(lines.drop_last());
        if before.len() == lines.len() - 1 && valid_utf8(lines.last()) {
            before.push(decode_utf8(lines.last()))
        } else {
            before
        }
    }
}

/// The menu that a server's answer holds. Reading ends at the end line, at
/// the first line that is not UTF-8, or with the answer.
pub open spec fn menu_of_response(bytes: Seq<u8>) -> Seq<EntryView> {
    menu_of_lines(readable_lines(byte_lines(bytes)))
}

impl Menu {
    /// The menu without entries.
    pub fn new() -> (menu: Menu)
        ensures
            menu@ == Seq::<EntryView>::empty(),
    {
        Menu { items: Vec::new() }
    }

    /// Takes one more entry in.
    pub fn push(&mut self, entry: DirEntry)
        ensures
            final(self)@ == menu_with(old(self)@, entry@),
    {
        match entry.item_type {
            GopherItem::Unknown => {},
            GopherItem::Info => {
                let n = self.items.len();
                if n > 0 && self.items[n - 1].item_type == GopherItem::Info {
                    let mut last = self.items.pop().unwrap();
                    let ghost joined = last.label@ + seq!['\n'] + entry.label@;
                    last.label.push('\n');
                    last.label.append(entry.label.as_str());
                    assert(last.label@ =~= joined);
                    self.items.push(last);
                    assert(self@ =~= menu_with(old(self)@, entry@));
                } else {
                    self.items.push(entry);
                    assert(self@ =~= menu_with(old(self)@, entry@));
                }
            },
            _ => {
                self.items.push(entry);
                assert(self@ =~= menu_with(old(self)@, entry@));
            },
        }
    }

    /// Takes one more line in, unless it is the end line. Says whether the
    /// menu goes on after this line.
    pub fn push_line(&mut self, line: &str) -> (more: bool)
        ensures
            more == (line@ != end_line()),
            more ==> final(self)@ == menu_with(old(self)@, entry_of_line(line@)),
            !more ==> final(self)@ == old(self)@,
    {
        let v = chars_of(line);
        if v.len() == 1 && v[0] == '.' {
            assert(line@ =~= end_line());
            false
        } else {
            self.push(DirEntry::from(line));
            true
        }
    }

    /// The menu that the given lines make.
    pub fn from_lines(lines: &Vec<String>) -> (menu: Menu)
        ensures
            menu@ == menu_of_lines(texts(lines@)),
            tidy(menu@),
    {
        proof {
            lemma_menu_tidy(texts(lines@));
        }
        let mut menu = Menu::new();
        let mut i: usize = 0;
        let ghost all = texts(lines@);
        assert(all.take(0) == Seq::<Seq<char>>::empty());
        while i < lines.len()
            invariant
                i <= lines.len(),
                all == texts(lines@),
                tidy(menu_of_lines(all)),
                menu@ == menu_of_entries(all.take(i as int)),
                position_of(all, end_line(), 0) == position_of(all, end_line(), i as int),
            decreases lines.len() - i,
        {
            assert(all[i as int] == lines@[i as int]@);
            assert(all.take(i + 1).drop_last() == all.take(i as int));
            if !menu.push_line(lines[i].as_str()) {
                return menu;
            }
            i += 1;
        }
        menu
    }

    /// The menu that a server's answer holds.
    pub fn from_response(bytes: &[u8]) -> (menu: Menu)
        ensures
            menu@ == menu_of_response(bytes@),
            tidy(menu@),
    {
        let lines = lines_of(bytes);
        let readable = read_lines(&lines);
        Menu::from_lines(&readable)
    }
}

/// The lines that a stream of bytes holds.
pub fn lines_of(bytes: &[u8]) -> (lines: Vec<Vec<u8>>)
    ensures
        byte_runs(lines@) == byte_lines(bytes@),
{
    let mut pieces = split_bytes(bytes, 10u8);
    proof {
        crate::text::lemma_split_nonempty(bytes@, 10u8);
    }
    let ghost all = byte_runs(pieces@);
    assert(all.len() == pieces@.len());
    let last = pieces.pop().unwrap();
    assert(last@ == all.last());
    let mut lines: Vec<Vec<u8>> = Vec::new();
    let mut i: usize = 0;
    while i < pieces.len()
        invariant
            i <= pieces.len(),
            pieces@.len() == all.len() - 1,
            forall|k: int| 0 <= k < pieces@.len() ==> pieces@[k]@ == all[k],
            byte_runs(lines@) == Seq::new(i as nat, |k: int| without_return(all[k])),
        decreases pieces.len() - i,
    {
        let piece = &pieces[i];
        let n = piece.len();
        let line = if n > 0 && piece[n - 1] == 13u8 {
            let mut line = piece.clone();
            line.pop();
            line
        } else {
            piece.clone()
        };
        assert(line@ == without_return(all[i as int]));
        let ghost before = byte_runs(lines@);
        lines.push(line);
        assert(byte_runs(lines@) =~= before.push(line@));
        assert(byte_runs(lines@) =~= Seq::new((i + 1) as nat, |k: int| without_return(all[k])));
        i += 1;
    }
    if last.len() > 0 {
        let ghost ended = byte_runs(lines@);
        lines.push(last);
        assert(byte_runs(lines@) =~= ended.push(all.last()));
    }
    lines
}

/// The lines up to the first that is not UTF-8, as text.
pub fn read_lines(lines: &Vec<Vec<u8>>) -> (readable: Vec<String>)
    ensures
        texts(readable@) == readable_lines(byte_runs(lines@)),
{
    let mut readable: Vec<String> = Vec::new();
    let mut i: usize = 0;
    let ghost all = byte_runs(lines@);
    assert(all.take(0) == Seq::<Seq<u8>>::empty());
    while i < lines.len()
        invariant
            i <= lines.len(),
            all == byte_runs(lines@),
            readable@.len() == i,
            texts(readable@) == readable_lines(all.take(i as int)),
        decreases lines.len() - i,
    {
        assert(all[i as int] == lines@[i as int]@);
        assert(all.take(i + 1).drop_last() == all.take(i as int));
        match String::from_utf8(lines[i].clone()) {
            Ok(line) => {
                let ghost before = texts(readable@);
                readable.push(line);
                assert(texts(readable@) =~= before.push(line@));
            },
            Err(_) => {
                proof {
                    lemma_unreadable_from(all, i as int);
                }
                return readable;
            },
        }
        i += 1;
    }
    assert(all.take(all.len() as int) == all);
    readable
}

/// Nothing is read past a line that is not UTF-8.
pub proof fn lemma_unreadable_from(lines: Seq<Seq<u8>>, at: int)
    requires
        0 <= at < lines.len(),
        !valid_utf8(lines[at]),
    ensures
        readable_lines(lines) == readable_lines(lines.take(at)),
        readable_lines(lines).len() <= at,
    decreases lines.len(),
{
    lemma_readable_len(lines.take(at));
    if at == lines.len() - 1 {
        assert(lines.drop_last() == lines.take(at));
    } else {
        lemma_unreadable_from(lines.drop_last(), at);
        assert(lines.drop_last().take(at) == lines.take(at));
    }
}

/// No more lines are read than there are.
pub proof fn lemma_readable_len(lines: Seq<Seq<u8>>)
    ensures
        readable_lines(lines).len() <= lines.len(),
    decreases lines.len(),
{
    if lines.len() > 0 {
        lemma_readable_len(lines.drop_last());
    }
}

} // verus!
