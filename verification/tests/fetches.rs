use proxy70::error::GopherError;
use proxy70::fetch::{accept_head, plan_fetch, FetchPlan, LOOKAHEAD};
use proxy70::item::GopherItem;
use proxy70::url::GopherURL;

fn request(selector: &str, query: Option<&str>) -> Vec<u8> {
    let url = GopherURL::new("example.com", "7070", &GopherItem::Submenu, selector);
    match plan_fetch(&url, query.map(|q| q.to_string())) {
        FetchPlan::Gopher { address, request } => {
            assert_eq!(address, "example.com:7070");
            request
        }
        FetchPlan::External(target) => panic!("external: {}", target),
    }
}

#[test]
fn the_request_is_the_selector_and_a_line_end() {
    assert_eq!(request("/path/to/doc", None), b"/path/to/doc\r\n");
    assert_eq!(request("", None), b"\r\n");
    assert_eq!(request("é/ü", None), "é/ü\r\n".as_bytes());
}

#[test]
fn search_words_follow_a_tab() {
    assert_eq!(request("/v2/vs", Some("verified gophers")), b"/v2/vs\tverified gophers\r\n");
    assert_eq!(request("/v2/vs", Some("")), b"/v2/vs\t\r\n");
}

#[test]
fn the_selector_is_sent_as_it_stands() {
    assert_eq!(request("%25FF", None), b"%25FF\r\n");
    assert_eq!(request("/a%20b", None), b"/a%20b\r\n");
    assert_eq!(request("/%ff", None), b"/%ff\r\n");
    assert_eq!(request("/100%", None), b"/100%\r\n");
    assert_eq!(request("/s", Some("a%26b")), b"/s\ta%26b\r\n");
    assert_eq!(request("a\tb\r\nc", None), b"a\tb\r\nc\r\n");
    assert_eq!(request("url:x", None), b"url:x\r\n");
}

#[test]
fn an_address_outside_gopher_is_not_fetched() {
    let url = GopherURL::new("h", "70", &GopherItem::HtmlFile, "URL:http://example.com/%20x");
    match plan_fetch(&url, None) {
        FetchPlan::External(target) => assert_eq!(target, "http://example.com/%20x"),
        other => panic!("{:?}", other),
    }
    let url = GopherURL::new("h", "70", &GopherItem::HtmlFile, "URL:%ff");
    assert!(matches!(plan_fetch(&url, Some("q".to_string())), FetchPlan::External(_)));
}

#[test]
fn the_address_names_host_and_port() {
    let url = GopherURL::new("gopher.example", "70", &GopherItem::TextFile, "/x");
    match plan_fetch(&url, None) {
        FetchPlan::Gopher { address, .. } => assert_eq!(address, "gopher.example:70"),
        other => panic!("{:?}", other),
    }
}

#[test]
fn an_error_line_fails_the_fetch() {
    let head = b"3'/nothing' does not exist\t\terror.host\t1\r\n.\r\n".to_vec();
    match accept_head(head) {
        Err(GopherError::GopherProtocol(label)) => assert_eq!(label, "'/nothing' does not exist"),
        other => panic!("{:?}", other),
    }
    match accept_head(b"3\t\t\t".to_vec()) {
        Err(GopherError::GopherProtocol(label)) => assert_eq!(label, ""),
        other => panic!("{:?}", other),
    }
}

#[test]
fn anything_else_is_handed_back_as_it_came() {
    let heads: Vec<Vec<u8>> = vec![
        b"".to_vec(),
        b"Just a text file.\r\nWith lines.\r\n".to_vec(),
        b"3 is a number, and this is a text file".to_vec(),
        b"3error without\ttabs enough\t".to_vec(),
        b"1Menu\t/m\thost\t70\r\n0File\t/f\thost\t70\r\n.\r\n".to_vec(),
        b"iinfo\t\t\t\r\n3error further down\t\t\t\r\n".to_vec(),
        b"\t\t\t\t".to_vec(),
        b"3\xff not text\t\t\t".to_vec(),
        vec![0x89, b'P', b'N', b'G', 0x0d, 0x0a, 0x1a, 0x0a, 0, 0, 0],
        vec![0u8; LOOKAHEAD],
        (0..=255u8).collect(),
        "3é".as_bytes()[..2].to_vec(),
    ];
    for head in heads {
        assert_eq!(accept_head(head.clone()).unwrap(), head);
    }
}

#[test]
fn the_head_and_the_rest_make_the_answer_again() {
    let answer: Vec<u8> = (0..1000u32).map(|i| (i % 251) as u8).collect();
    let (head, rest) = answer.split_at(LOOKAHEAD);
    let mut seen = accept_head(head.to_vec()).unwrap();
    seen.extend_from_slice(rest);
    assert_eq!(seen, answer);
    let short = b"0short".to_vec();
    assert_eq!(accept_head(short.clone()).unwrap(), short);
}

#[test]
fn the_window_is_256_bytes() {
    assert_eq!(LOOKAHEAD, 256);
}
