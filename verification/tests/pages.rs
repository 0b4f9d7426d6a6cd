use proxy70::error::GopherError;
use proxy70::item::GopherItem;
use proxy70::menu::Menu;
use proxy70::page::{error_body, route, text_body, Route};
use proxy70::url::GopherURL;

#[test]
fn routes() {
    assert_eq!(route(GopherItem::Submenu), Route::Menu);
    assert_eq!(route(GopherItem::FullTextSearch), Route::Search);
    assert_eq!(route(GopherItem::TextFile), Route::Text);
    for t in [
        GopherItem::BinaryFile,
        GopherItem::GifFile,
        GopherItem::HtmlFile,
        GopherItem::Info,
        GopherItem::Error,
        GopherItem::Unknown,
        GopherItem::PdfFile,
    ] {
        assert_eq!(route(t), Route::File);
    }
}

#[test]
fn a_menu_as_a_table() {
    let menu = Menu::from_response(b"iHi\t\t\t\r\nbroken\r\n1Dir\t/d\th\t70\r\n.\r\n");
    assert_eq!(
        menu.to_table(),
        "<table>\n<tr><td></td><td><pre>Hi</pre></td></tr>\
         <tr><td><i class=\"fa fa-folder-o\"></i></td><td>\
         <pre><a href=\"?url=gopher%3A%2F%2Fh%3A70%2F1%2Fd\"\">Dir</a></pre></td></tr></table>\n"
    );
    assert_eq!(Menu::new().to_table(), "<table>\n</table>\n");
}

#[test]
fn a_text_file_as_a_body() {
    assert_eq!(
        String::from(text_body(b"one <1>\r\ntwo & 2\n\nlast\r\n.\r\nnot shown\r\n")),
        "<pre>\none &lt;1&gt;\ntwo &amp; 2\n\nlast\n</pre>"
    );
    assert_eq!(text_body(b""), "<pre>\n</pre>");
    assert_eq!(text_body(b"no end"), "<pre>\nno end\n</pre>");
    assert_eq!(text_body(b"a\n\xff\nb\n"), "<pre>\na\n</pre>");
    assert_eq!(text_body(b".\n"), "<pre>\n</pre>");
    assert_eq!(text_body(b"..\n. \n"), "<pre>\n..\n. \n</pre>");
}

#[test]
fn file_names() {
    let name = |selector: &str| GopherURL::new("h", "70", &GopherItem::BinaryFile, selector).file_name();
    assert_eq!(name("/a/b/c.bin"), "c.bin");
    assert_eq!(name("c.bin"), "c.bin");
    assert_eq!(name("/a/b/"), "");
    assert_eq!(name(""), "");
    assert_eq!(name("/"), "");
    assert_eq!(name("a//b"), "b");
    assert_eq!(name("/é/ü.txt"), "ü.txt");
}

#[test]
fn content_disposition() {
    let u = GopherURL::new("h", "70", &GopherItem::BinaryFile, "/files/a b.zip");
    assert_eq!(u.content_disposition(), "attachement; filename=\"a b.zip\"");
    let u = GopherURL::new("h", "70", &GopherItem::BinaryFile, "");
    assert_eq!(u.content_disposition(), "attachement; filename=\"\"");
}

#[test]
fn error_bodies_and_messages() {
    assert_eq!(GopherError::UrlParse.message(), "failed to parse URL");
    assert_eq!(GopherError::RateLimit.message(), "rate limited");
    assert_eq!(GopherError::Connection("refused".to_string()).message(), "refused");
    assert_eq!(GopherError::GopherProtocol("No such file".to_string()).message(), "No such file");
    assert_eq!(
        error_body(&GopherError::GopherProtocol("No such file".to_string())),
        "<pre>error loading resource: No such file </pre>"
    );
    assert_eq!(
        error_body(&GopherError::UrlParse),
        "<pre>error loading resource: failed to parse URL </pre>"
    );
}
