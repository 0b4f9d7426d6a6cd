//! Menu entries as the cells of a table row.

use vstd::prelude::*;
use vstd::string::StringExecFns;
use crate::ansi::{decode_ansi_style, html_of_pieces, pieces_of};
use crate::entry::{well_formed, DirEntry, EntryView};
use crate::escape::{escape_text, html_escaped};
use crate::item::{char_of_item, GopherItem};
use crate::url::{href_of, url_text, UrlView};

verus! {

/// A label as a cell's content, given the label as page text: preformatted,
/// and as a link where there is an address to lead to.
pub open spec fn label_cell(url: Option<UrlView>, styled: Seq<char>) -> Seq<char> {
    match url {
        Some(url) => "<pre><a href=\""@ + href_of(url) + "\"\">"@ + styled + "</a></pre>"@,
        None => "<pre>"@ + styled + "</pre>"@,
    }
}

/// The label of an entry as a cell's content, with its colours as styles.
pub open spec fn label_html(entry: EntryView) -> Seq<char> {
    label_cell(entry.url, html_of_pieces(pieces_of(entry.label)))
}

/// A row made of an icon and a label.
pub open spec fn icon_row(icon: Seq<char>, label: Seq<char>) -> Seq<char> {
    "<td><i class=\""@ + icon + "\"></i></td><td>"@ + label + "</td>"@
}

/// The row of a sound: its label, a link to fetch it, and a player.
pub open spec fn sound_row(entry: EntryView) -> Seq<char> {
    "<td></td><td>\n                    <pre>"@ + html_escaped(entry.label) + " (<a href=\""@
        + href_of(entry.url.unwrap())
        + "\">download</a>)</pre>\n                    <audio controls><source src=\""@ + href_of(
        entry.url.unwrap(),
    )
        + "\">Your browser does not support audio element.</audio>\n                </td></tr>"@
}

/// The row of a search: a form that sends the words typed into it back to
/// the gateway, along with the address and the type of the search.
pub open spec fn search_row(entry: EntryView) -> Seq<char> {
    "<td><i class=\"fa fa-search\"></i></td>\n                    <td><form action=\"/\" method=\"get\">\n                        <input name=\"query\"  placeholder=\""@
        + html_escaped(entry.label)
        + "\" type=\"text\">\n                        <input type=\"hidden\" name=\"url\" value=\""@
        + url_text(entry.url.unwrap())
        + "\">\n                        <input type=\"hidden\" name=\"t\" value=\""@ + seq![
        char_of_item(entry.item_type),
    ]
        + "\">\n                        <input type=\"submit\" value=\"Submit\">\n                    </form></td><tr>"@
}

/// The row of a picture: the picture itself.
pub open spec fn image_row(entry: EntryView) -> Seq<char> {
    "<td></td><td><img src=\""@ + href_of(entry.url.unwrap()) + "\" />\n</tr>"@
}

/// The cells of the row that shows an entry, given the content of its label
/// cell; none for an `Unknown` entry. Sounds, searches and pictures have rows
/// of their own, which do without that content.
pub open spec fn row_cells(entry: EntryView, label: Seq<char>) -> Option<Seq<char>> {
    match entry.item_type {
        GopherItem::Unknown => None,
        GopherItem::Info => Some("<td></td><td>"@ + label + "</td>"@),
        GopherItem::Submenu => Some(icon_row("fa fa-folder-o"@, label)),
        GopherItem::TextFile => Some(icon_row("fa fa-file-text-o"@, label)),
        GopherItem::HtmlFile => Some(icon_row("fa fa-external-link"@, label)),
        GopherItem::WavFile | GopherItem::SoundFile => Some(sound_row(entry)),
        GopherItem::FullTextSearch => Some(search_row(entry)),
        GopherItem::ImageFile
        | GopherItem::BitmapFile
        | GopherItem::GifFile
        | GopherItem::PngFile => Some(image_row(entry)),
        _ => Some(icon_row("fa fa-file-o"@, label)),
    }
}

/// The cells of the row that shows an entry; none for an `Unknown` entry.
pub open spec fn row_of(entry: EntryView) -> Option<Seq<char>> {
    row_cells(entry, label_html(entry))
}

/// A row made of an icon and a label.
fn format_icon_row(icon: &str, label: &str) -> (html: String)
    ensures
        html@ == icon_row(icon@, label@),
{
    let mut html = String::from_str("<td><i class=\"");
    html.append(icon);
    html.append("\"></i></td><td>");
    html.append(label);
    html.append("</td>");
    assert(html@ =~= icon_row(icon@, label@));
    html
}

impl DirEntry {
    /// The content of this entry's label cell, given the label as page text.
    pub fn label_around(&self, styled: &str) -> (html: String)
        ensures
            html@ == label_cell(self@.url, styled@),
    {
        match self.to_href() {
            Some(href) => {
                let mut html = String::from_str("<pre><a href=\"");
                html.append(href.as_str());
                html.append("\"\">");
                html.append(styled);
                html.append("</a></pre>");
                assert(html@ =~= label_cell(self@.url, styled@));
                html
            },
            None => {
                let mut html = String::from_str("<pre>");
                html.append(styled);
                html.append("</pre>");
                assert(html@ =~= label_cell(self@.url, styled@));
                html
            },
        }
    }

    /// The content of this entry's label cell.
    pub fn format_label(&self) -> (html: String)
        ensures
            html@ == label_html(self@),
    {
        self.label_around(decode_ansi_style(self.label.as_str()).as_str())
    }

    /// The cells of the row that shows this entry, given the content of its
    /// label cell; none for an `Unknown` entry.
    pub fn row_around(&self, label: &str) -> (row: Option<String>)
        requires
            well_formed(self@),
        ensures
            row is Some <==> row_cells(self@, label@) is Some,
            row matches Some(html) ==> row_cells(self@, label@) == Some(html@),
    {
        match self.item_type {
            GopherItem::Unknown => None,
            GopherItem::Info => {
                let mut html = String::from_str("<td></td><td>");
                html.append(label);
                html.append("</td>");
                assert(html@ =~= "<td></td><td>"@ + label@ + "</td>"@);
                Some(html)
            },
            GopherItem::Submenu => Some(format_icon_row("fa fa-folder-o", label)),
            GopherItem::TextFile => Some(format_icon_row("fa fa-file-text-o", label)),
            GopherItem::HtmlFile => Some(format_icon_row("fa fa-external-link", label)),
            GopherItem::WavFile | GopherItem::SoundFile => {
                let href = self.to_href().unwrap();
                let mut html = String::from_str("<td></td><td>\n                    <pre>");
                html.append(escape_text(self.label.as_str()).as_str());
                html.append(" (<a href=\"");
                html.append(href.as_str());
                html.append(
                    "\">download</a>)</pre>\n                    <audio controls><source src=\"",
                );
                html.append(href.as_str());
                html.append(
                    "\">Your browser does not support audio element.</audio>\n                </td></tr>",
                );
                assert(html@ =~= sound_row(self@));
                Some(html)
            },
            GopherItem::FullTextSearch => {
                let url = match &self.url {
                    Some(url) => url.to_string(),
                    None => String::new(),
                };
                let mut html = String::from_str(
                    "<td><i class=\"fa fa-search\"></i></td>\n                    <td><form action=\"/\" method=\"get\">\n                        <input name=\"query\"  placeholder=\"",
                );
                html.append(escape_text(self.label.as_str()).as_str());
                html.append(
                    "\" type=\"text\">\n                        <input type=\"hidden\" name=\"url\" value=\"",
                );
                html.append(url.as_str());
                html.append(
                    "\">\n                        <input type=\"hidden\" name=\"t\" value=\"",
                );
                html.push(self.item_type.to_char());
                html.append(
                    "\">\n                        <input type=\"submit\" value=\"Submit\">\n                    </form></td><tr>",
                );
                assert(html@ =~= search_row(self@));
                Some(html)
            },
            GopherItem::ImageFile
            | GopherItem::BitmapFile
            | GopherItem::GifFile
            | GopherItem::PngFile => {
                let href = self.to_href().unwrap();
                let mut html = String::from_str("<td></td><td><img src=\"");
                html.append(href.as_str());
                html.append("\" />\n</tr>");
                assert(html@ =~= image_row(self@));
                Some(html)
            },
            _ => Some(format_icon_row("fa fa-file-o", label)),
        }
    }

    /// The cells of the row that shows this entry; none for an `Unknown`
    /// entry.
    pub fn format_row(&self) -> (row: Option<String>)
        requires
            well_formed(self@),
        ensures
            row is Some <==> row_of(self@) is Some,
            row matches Some(html) ==> row_of(self@) == Some(html@),
    {
        match self.item_type {
            GopherItem::Unknown
            | GopherItem::WavFile
            | GopherItem::SoundFile
            | GopherItem::FullTextSearch
            | GopherItem::ImageFile
            | GopherItem::BitmapFile
            | GopherItem::GifFile
            | GopherItem::PngFile => self.row_around(""),
            _ => self.row_around(self.format_label().as_str()),
        }
    }
}

} // verus!
