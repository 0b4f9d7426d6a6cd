//! What the gateway puts on a page: the table of a menu, the body of a text
//! file, the name that a file is saved under, and the words for a failure.

use vstd::prelude::*;
use vstd::string::StringExecFns;
use crate::entry::{well_formed, EntryView};
use crate::error::{error_text, GopherError};
use crate::escape::{escape_text, html_escaped};
use crate::item::GopherItem;
use crate::menu::{byte_lines, end_line, lines_of, read_lines, readable_lines, Menu};
use crate::row::row_of;
use crate::text::{chars_of, lemma_split_nonempty, position_of, split, split_text, texts};
use crate::url::{GopherURL, UrlView};

verus! {

/// How the gateway answers a request for an item.
#[derive(Clone, Copy, Debug, PartialEq, Eq, Structural)]
pub enum Route {
    /// Fetch a menu and show it as a table.
    Menu,
    /// Fetch the menu that a search for the requester's words gives.
    Search,
    /// Fetch a text file and show it.
    Text,
    /// Hand the bytes through, to be saved or shown by the browser.
    File,
}

/// How the gateway answers a request for an item of a type.
pub open spec fn route_of(t: GopherItem) -> Route {
    match t {
        GopherItem::Submenu => Route::Menu,
        GopherItem::FullTextSearch => Route::Search,
        GopherItem::TextFile => Route::Text,
        _ => Route::File,
    }
}

/// The rows of a table, one for each entry that has one.
pub open spec fn rows_of(items: Seq<EntryView>) -> Seq<char>
    decreases items.len(),
{
    if items.len() == 0 {
        Seq::empty()
    } else {
        match row_of(items.last()) {
            Some(cells) => rows_of(items.drop_last()) + "<tr>"@ + cells + "</tr>"@,
            None => rows_of(items.drop_last()),
        }
    }
}

/// The table that shows a menu.
pub open spec fn table_of(items: Seq<EntryView>) -> Seq<char> {
    "<table>\n"@ + rows_of(items) + "</table>\n"@
}

/// The given lines as page text, each followed by a line feed.
pub open spec fn escaped_lines(lines: Seq<Seq<char>>) -> Seq<char>
    decreases lines.len(),
{
    if lines.len() == 0 {
        Seq::empty()
    } else {
        escaped_lines(lines.drop_last()) + html_escaped(lines.last()) + seq!['\n']
    }
}

/// The body that shows the lines of a text file: those in front of the
/// first end line, preformatted.
pub open spec fn text_body_of(lines: Seq<Seq<char>>) -> Seq<char> {
    "<pre>\n"@ + escaped_lines(lines.take(position_of(lines, end_line(), 0))) + "</pre>"@
}

/// The name for the file that an address leads to: what follows the last `/`
/// of the selector, or all of it.
pub open spec fn file_name_of(u: UrlView) -> Seq<char> {
    split(u.selector, '/').last()
}

/// The header value that makes a browser save a file under its name.
pub open spec fn disposition_of(u: UrlView) -> Seq<char> {
    "attachement; filename=\""@ + file_name_of(u) + "\""@
}

/// The body that tells of a failure.
pub open spec fn error_body_of(e: GopherError) -> Seq<char> {
    "<pre>error loading resource: "@ + error_text(e) + " </pre>"@
}

/// How the gateway answers a request for an item of type `t`.
pub fn route(t: GopherItem) -> (way: Route)
    ensures
        way == route_of(t),
{
    match t {
        GopherItem::Submenu => Route::Menu,
        GopherItem::FullTextSearch => Route::Search,
        GopherItem::TextFile => Route::Text,
        _ => Route::File,
    }
}

/// The body of a text file while its lines come in.
pub struct TextBody {
    escaped: String,
}

impl View for TextBody {
    type V = Seq<char>;

    /// The lines taken in so far, as page text.
    closed spec fn view(&self) -> Seq<char> {
        self.escaped@
    }
}

impl TextBody {
    /// A body without lines.
    pub fn new() -> (body: TextBody)
        ensures
            body@ == Seq::<char>::empty(),
    {
        TextBody { escaped: String::new() }
    }

    /// Takes one more line in, unless it is the end line. Says whether the
    /// file goes on after this line.
    pub fn push_line(&mut self, line: &str) -> (more: bool)
        ensures
            more == (line@ != end_line()),
            more ==> final(self)@ == old(self)@ + html_escaped(line@) + seq!['\n'],
            !more ==> final(self)@ == old(self)@,
    {
        let v = chars_of(line);
        if v.len() == 1 && v[0] == '.' {
            assert(line@ =~= end_line());
            false
        } else {
            self.escaped.append(escape_text(line).as_str());
            self.escaped.push('\n');
            assert(self@ =~= old(self)@ + html_escaped(line@) + seq!['\n']);
            true
        }
    }

    /// The body with the lines taken in, preformatted.
    pub fn finish(self) -> (html: String)
        ensures
            html@ == "<pre>\n"@ + self@ + "</pre>"@,
    {
        let mut html = String::from_str("<pre>\n");
        html.append(self.escaped.as_str());
        html.append("</pre>");
        html
    }
}

/// The body that shows a text file, given the server's answer.
pub fn text_body(bytes: &[u8]) -> (html: String)
    ensures
        html@ == text_body_of(readable_lines(byte_lines(bytes@))),
{
    let lines = read_lines(&lines_of(bytes));
    let ghost all = texts(lines@);
    let mut body = TextBody::new();
    let mut i: usize = 0;
    assert(all.take(0) == Seq::<Seq<char>>::empty());
    while i < lines.len()
        invariant
            i <= lines.len(),
            all == texts(lines@),
            body@ == escaped_lines(all.take(i as int)),
            position_of(all, end_line(), 0) == position_of(all, end_line(), i as int),
        ensures
            body@ == escaped_lines(all.take(position_of(all, end_line(), 0))),
        decreases lines.len() - i,
    {
        assert(all[i as int] == lines@[i as int]@);
        assert(all.take(i + 1).drop_last() == all.take(i as int));
        if !body.push_line(lines[i].as_str()) {
            break;
        }
        i += 1;
    }
    body.finish()
}

/// The body that tells of a failure.
pub fn error_body(e: &GopherError) -> (html: String)
    ensures
        html@ == error_body_of(*e),
{
    let mut html = String::from_str("<pre>error loading resource: ");
    html.append(e.message().as_str());
    html.append(" </pre>");
    assert(html@ =~= error_body_of(*e));
    html
}

impl Menu {
    /// The table that shows this menu.
    pub fn to_table(&self) -> (html: String)
        requires
            forall|i: int| 0 <= i < self@.len() ==> well_formed(#[trigger] self@[i]),
        ensures
            html@ == table_of(self@),
    {
        let mut html = String::from_str("<table>\n");
        let mut i: usize = 0;
        let ghost all = self@;
        assert(all.take(0) == Seq::<EntryView>::empty());
        while i < self.items.len()
            invariant
                i <= self.items.len(),
                all == self@,
                all.len() == self.items@.len(),
                forall|k: int| 0 <= k < all.len() ==> well_formed(#[trigger] all[k]),
                html@ == "<table>\n"@ + rows_of(all.take(i as int)),
            decreases self.items.len() - i,
        {
            assert(all[i as int] == self.items@[i as int]@);
            assert(all.take(i + 1).drop_last() == all.take(i as int));
            match self.items[i].format_row() {
                Some(cells) => {
                    html.append("<tr>");
                    html.append(cells.as_str());
                    html.append("</tr>");
                    assert(html@ =~= "<table>\n"@ + rows_of(all.take(i + 1)));
                },
                None => {},
            }
            i += 1;
        }
        assert(all.take(all.len() as int) == all);
        html.append("</table>\n");
        html
    }
}

impl GopherURL {
    /// The name for the file that this address leads to.
    pub fn file_name(&self) -> (name: String)
        ensures
            name@ == file_name_of(self@),
    {
        let selector = chars_of(self.selector.as_str());
        let mut pieces = split_text(selector.as_slice(), '/');
        proof {
            lemma_split_nonempty(selector@, '/');
        }
        assert(texts(pieces@).len() == pieces@.len());
        assert(texts(pieces@).last() == pieces@.last()@);
        pieces.pop().unwrap()
    }

    /// The header value that makes a browser save the file under its name.
    pub fn content_disposition(&self) -> (value: String)
        ensures
            value@ == disposition_of(self@),
    {
        let mut value = String::from_str("attachement; filename=\"");
        value.append(self.file_name().as_str());
        value.append("\"");
        assert(value@ =~= disposition_of(self@));
        value
    }
}

} // verus!
