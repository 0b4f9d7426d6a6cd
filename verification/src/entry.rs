//! Menu lines: one line of a Gopher menu as an item type, a label and,
//! unless the line is only there to be read, the address it leads to.

use vstd::prelude::*;
use vstd::string::StringExecFns;
use crate::item::{is_type_char, item_of_char, GopherItem};
use crate::text::{chars_of, split, split_text, text_of, texts};
use crate::url::{href_of, url_of_fields, GopherURL, UrlView};

verus! {

/// One line of a menu.
#[derive(Debug)]
pub struct DirEntry {
    pub item_type: GopherItem,
    pub label: String,
    pub url: Option<GopherURL>,
}

/// A menu line as plain values.
pub struct EntryView {
    pub item_type: GopherItem,
    pub label: Seq<char>,
    pub url: Option<UrlView>,
}

impl View for DirEntry {
    type V = EntryView;

    open spec fn view(&self) -> EntryView {
        EntryView {
            item_type: self.item_type,
            label: self.label@,
            url: match self.url {
                Some(u) => Some(u@),
                None => None,
            },
        }
    }
}

/// What a line that is no menu line is read as: `Unknown`, without a label
/// and without an address.
pub open spec fn invalid_entry() -> EntryView {
    EntryView { item_type: GopherItem::Unknown, label: Seq::empty(), url: None }
}

/// The entry made of the fields of a menu line. An `Info` line leads
/// nowhere; any other leads to the address that the fields give.
pub open spec fn entry_of_fields(
    item_type: GopherItem,
    label: Seq<char>,
    selector: Seq<char>,
    host: Seq<char>,
    port: Seq<char>,
) -> EntryView {
    EntryView {
        item_type,
        label,
        url: if item_type == GopherItem::Info {
            None
        } else {
            Some(url_of_fields(host, port, item_type, selector))
        },
    }
}

/// Whether an entry leads somewhere unless it is one of those that need not:
/// only an `Info` or an `Unknown` entry may be without an address.
pub open spec fn well_formed(entry: EntryView) -> bool {
    entry.url is None ==> entry.item_type == GopherItem::Info || entry.item_type
        == GopherItem::Unknown
}

/// The entry that a line is read as. Tabs cut the line into fields: the type
/// character with the label, the selector, the host and the port; what
/// follows a fourth tab is passed over. A line of fewer than four fields, and
/// one that does not begin with a type character, is read as the invalid
/// entry.
pub open spec fn entry_of_line(line: Seq<char>) -> EntryView {
    let fields = split(line, '\t');
    if fields.len() >= 4 && fields[0].len() > 0 && is_type_char(fields[0][0]) {
        entry_of_fields(
            item_of_char(fields[0][0]),
            fields[0].subrange(1, fields[0].len() as int),
            fields[1],
            fields[2],
            fields[3],
        )
    } else {
        invalid_entry()
    }
}

impl From<&str> for DirEntry {
    /// Reads one menu line.
    fn from(value: &str) -> (entry: DirEntry)
        ensures
            entry@ == entry_of_line(value@),
            well_formed(entry@),
    {
        let line = chars_of(value);
        let fields = split_text(line.as_slice(), '\t');
        assert(texts(fields@).len() == fields@.len());
        if fields.len() < 4 {
            return DirEntry { item_type: GopherItem::Unknown, label: String::new(), url: None };
        }
        assert(texts(fields@)[0] == fields@[0]@);
        assert(texts(fields@)[1] == fields@[1]@);
        assert(texts(fields@)[2] == fields@[2]@);
        assert(texts(fields@)[3] == fields@[3]@);
        let first = chars_of(fields[0].as_str());
        if first.len() == 0 {
            return DirEntry { item_type: GopherItem::Unknown, label: String::new(), url: None };
        }
        let item_type = GopherItem::from_char(first[0]);
        if item_type == GopherItem::Unknown {
            return DirEntry { item_type: GopherItem::Unknown, label: String::new(), url: None };
        }
        let label = text_of(first.as_slice(), 1, first.len());
        DirEntry::new(
            item_type,
            label.as_str(),
            fields[1].as_str(),
            fields[2].as_str(),
            fields[3].as_str(),
        )
    }
}

impl vstd::std_specs::convert::FromSpecImpl<&str> for DirEntry {
    open spec fn obeys_from_spec() -> bool {
        false
    }

    open spec fn from_spec(value: &str) -> DirEntry {
        arbitrary()
    }
}

impl DirEntry {
    /// The entry made of the fields of a menu line.
    pub fn new(item_type: GopherItem, label: &str, selector: &str, host: &str, port: &str) -> (entry:
        DirEntry)
        ensures
            entry@ == entry_of_fields(item_type, label@, selector@, host@, port@),
            well_formed(entry@),
    {
        match item_type {
            GopherItem::Info => DirEntry { item_type, label: String::from_str(label), url: None },
            _ => DirEntry {
                item_type,
                label: String::from_str(label),
                url: Some(GopherURL::new(host, port, &item_type, selector)),
            },
        }
    }

    /// The reference that a page uses for this entry, where it leads anywhere.
    pub fn to_href(&self) -> (href: Option<String>)
        ensures
            href is Some <==> self@.url is Some,
            href matches Some(h) ==> h@ == href_of(self@.url.unwrap()),
    {
        match &self.url {
            Some(url) => Some(url.to_href()),
            None => None,
        }
    }
}

} // verus!

