use proxy70::item::GopherItem;
use proxy70::url::GopherURL;
use regex::Regex;

fn pattern() -> Regex {
    Regex::new(
        r#"(?:gopher://)?(?P<host>[^:/]+)(?::(?P<port>\d+))?(?:/(?P<type>[A-z0-9:+:;<?])(?P<selector>(?s:.*)))?$"#,
    )
    .unwrap()
}

/// What the pattern finds in `text`: `None` where it finds nothing or a port
/// above the range, else host, port, type and selector.
fn by_pattern(re: &Regex, text: &str) -> Option<(String, u16, GopherItem, String)> {
    let caps = re.captures(text)?;
    let port: u16 = match caps.name("port") {
        Some(p) => p.as_str().parse().ok()?,
        None => 70,
    };
    let gopher_type = match caps.name("type") {
        Some(t) => GopherItem::from_char(t.as_str().chars().next().unwrap()),
        None => GopherItem::Submenu,
    };
    let selector = match caps.name("selector") {
        Some(s) => s.as_str().to_string(),
        None => String::new(),
    };
    Some((caps.name("host").unwrap().as_str().to_string(), port, gopher_type, selector))
}

fn agree(re: &Regex, text: &str) {
    let expected = by_pattern(re, text);
    let got = GopherURL::try_from(text).ok().map(|u| (u.host, u.port, u.gopher_type, u.selector));
    assert_eq!(got, expected, "on {:?}", text);
}

#[test]
fn chosen_texts_read_as_the_pattern_does() {
    let re = pattern();
    for text in [
        "",
        "gopher://example.com/0/path/to/document",
        "gopher://example2.com:71",
        "gopher://khzae.net:70/</music/khzae/khzae.ogg",
        "example.com",
        "example.com/",
        "example.com:",
        "example.com:/1",
        "example.com:70x",
        "example.com:70/",
        "example.com:70/1",
        "example.com:70/!x",
        "example.com:70/[x",
        "example.com:70/`x",
        "example.com:70/{x",
        "example.com:70/@x",
        "gopher://",
        "gopher:///",
        "gopher://gopher://h",
        "gopher:/h",
        "gopher:h",
        "Gopher://h/1",
        "gopher://h:1:2",
        "gopher://h:12/3:4/5",
        "h/1a\nb",
        "h/1a\n",
        "h\n",
        "\n",
        "h/1a\r\nb:c",
        "a b c",
        "é/1ü",
        "gopher://h:65535/1",
        "gopher://h:65536/1",
        "//h",
        "::h",
        "h//1",
        "h/1/",
        "h/11",
        "h:1/1:1/1",
        "ggopher://h",
        "gopher://h/1gopher://i/0x",
    ] {
        agree(&re, text);
    }
}

#[test]
fn made_up_texts_read_as_the_pattern_does() {
    let re = pattern();
    let pieces = [
        "gopher://", "g", "o", "h", ":", "/", "1", "0", "7", "99999", "a", "Z", "_", "?", "+",
        "\n", "\r", "\t", " ", "é", ".", "URL:", "//", ":7", "/1",
    ];
    let mut state: u64 = 0x2545f4914f6cdd1d;
    for _ in 0..60000 {
        let mut text = String::new();
        state = state.wrapping_mul(6364136223846793005).wrapping_add(1442695040888963407);
        let count = (state >> 60) as usize % 9;
        for _ in 0..count {
            state = state.wrapping_mul(6364136223846793005).wrapping_add(1442695040888963407);
            text.push_str(pieces[(state >> 33) as usize % pieces.len()]);
        }
        agree(&re, &text);
    }
}
