use proxy70::entry::DirEntry;
use proxy70::item::GopherItem;

#[test]
fn parsing_entries() {
    let mut e = DirEntry::from("1Test entry\t/test\texample.com\t70\r\n");
    assert_eq!(e.label, "Test entry");
    assert_eq!(e.item_type, GopherItem::Submenu);
    assert_eq!(e.url.unwrap().host, "example.com");
    e = DirEntry::from("0test2	selector	1.1.1.1	70\r\n");
    assert_eq!(e.label, "test2");
    assert_eq!(e.item_type, GopherItem::TextFile);
    let url = e.url.unwrap();
    assert_eq!(url.host, "1.1.1.1");
    assert_eq!(url.selector, "selector");
    assert_eq!(url.gopher_type, GopherItem::TextFile);
}

#[test]
fn a_submenu_line() {
    let e = DirEntry::from("1Test entry\t/test\texample.com\t70");
    assert_eq!(e.item_type, GopherItem::Submenu);
    assert_eq!(e.label, "Test entry");
    let url = e.url.unwrap();
    assert_eq!(url.host, "example.com");
    assert_eq!(url.port, 70);
    assert_eq!(url.selector, "/test");
    assert_eq!(url.gopher_type, GopherItem::Submenu);
}

#[test]
fn the_port_is_read() {
    let e = DirEntry::from("0doc\t/d\th\t7070");
    assert_eq!(e.url.unwrap().port, 7070);
    let e = DirEntry::from("0doc\t/d\th\tseventy");
    assert_eq!(e.url.unwrap().port, 70);
    let e = DirEntry::from("0doc\t/d\th\t7070\r\n");
    assert_eq!(e.url.unwrap().port, 70);
    let e = DirEntry::from("0doc\t/d\th\t");
    assert_eq!(e.url.unwrap().port, 70);
}

#[test]
fn an_info_line_leads_nowhere() {
    let e = DirEntry::from("iWelcome!\tfake\t(NULL)\t0");
    assert_eq!(e.item_type, GopherItem::Info);
    assert_eq!(e.label, "Welcome!");
    assert!(e.url.is_none());
    assert!(e.to_href().is_none());
}

#[test]
fn too_few_fields_give_the_invalid_entry() {
    for line in ["", ".", "1", "1label", "1label\t/sel", "1label\t/sel\thost", "iinfo", "\t", "\t\t", "3error\t\t"] {
        let e = DirEntry::from(line);
        assert_eq!(e.item_type, GopherItem::Unknown, "{:?}", line);
        assert_eq!(e.label, "", "{:?}", line);
        assert!(e.url.is_none(), "{:?}", line);
    }
}

#[test]
fn a_line_without_a_type_gives_the_invalid_entry() {
    let e = DirEntry::from("\t/sel\thost\t70");
    assert_eq!(e.item_type, GopherItem::Unknown);
    assert_eq!(e.label, "");
    assert!(e.url.is_none());
}

#[test]
fn a_line_that_begins_with_no_type_character_gives_the_invalid_entry() {
    for line in ["zLabel\t/s\th\t70", "Zlabel\t/sel\thost\t71", "?x\t/s\th\t70", " 1x\t/s\th\t70", "é0\t/s\th\t70"] {
        let e = DirEntry::from(line);
        assert_eq!(e.item_type, GopherItem::Unknown, "{:?}", line);
        assert_eq!(e.label, "", "{:?}", line);
        assert!(e.url.is_none(), "{:?}", line);
        assert!(e.to_href().is_none());
    }
}

#[test]
fn fields_after_the_fourth_are_passed_over() {
    let e = DirEntry::from("1label\t/sel\thost\t71\t+\textra");
    assert_eq!(e.label, "label");
    let url = e.url.unwrap();
    assert_eq!(url.port, 71);
    assert_eq!(url.selector, "/sel");
}

#[test]
fn empty_fields_are_fields() {
    let e = DirEntry::from("1\t\t\t");
    assert_eq!(e.item_type, GopherItem::Submenu);
    assert_eq!(e.label, "");
    let url = e.url.unwrap();
    assert_eq!(url.host, "");
    assert_eq!(url.selector, "");
    assert_eq!(url.port, 70);
}

#[test]
fn labels_keep_their_characters() {
    let e = DirEntry::from("0é ü\u{1b}[0m 1\t/s\th\t70");
    assert_eq!(e.label, "é ü\u{1b}[0m 1");
}

#[test]
fn new_makes_the_entry_of_its_fields() {
    let e = DirEntry::new(GopherItem::GifFile, "pic", "/p.gif", "h", "71");
    assert_eq!(e.item_type, GopherItem::GifFile);
    assert_eq!(e.label, "pic");
    let url = e.url.unwrap();
    assert_eq!(url.host, "h");
    assert_eq!(url.port, 71);
    assert_eq!(url.gopher_type, GopherItem::GifFile);
    assert_eq!(url.selector, "/p.gif");
    let e = DirEntry::new(GopherItem::Info, "text", "/p", "h", "71");
    assert_eq!(e.label, "text");
    assert!(e.url.is_none());
    let e = DirEntry::new(GopherItem::Unknown, "text", "/p", "h", "x");
    assert_eq!(e.url.unwrap().port, 70);
}

#[test]
fn href_of_an_entry() {
    let e = DirEntry::from("1Test entry\t/test\texample.com\t70");
    assert_eq!(e.to_href().unwrap(), "?url=gopher%3A%2F%2Fexample.com%3A70%2F1%2Ftest");
    let e = DirEntry::from("hSite\tURL:https://example.com/\texample.com\t70");
    assert_eq!(e.to_href().unwrap(), "https://example.com/");
    let e = DirEntry::from("1Root\t\texample.com\t70");
    assert_eq!(e.to_href().unwrap(), "?url=gopher%3A%2F%2Fexample.com%3A70");
}

#[test]
fn into_reads_a_line_too() {
    let e: DirEntry = "9file\t/f.bin\th\t70".into();
    assert_eq!(e.item_type, GopherItem::BinaryFile);
}
