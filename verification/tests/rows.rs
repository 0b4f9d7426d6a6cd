use proxy70::entry::DirEntry;
use proxy70::item::GopherItem;
use proxy70::url::GopherURL;

fn entry(line: &str) -> DirEntry {
    DirEntry::from(line)
}

#[test]
fn label_with_a_link() {
    let e = entry("1Folder <x>\t/sel\thost\t70");
    assert_eq!(
        e.format_label(),
        "<pre><a href=\"?url=gopher%3A%2F%2Fhost%3A70%2F1%2Fsel\"\">Folder <x></a></pre>"
    );
}

#[test]
fn label_without_a_link() {
    let e = entry("iJust \u{1b}[31mred & so\u{1b}[0m on\t\t\t");
    assert_eq!(
        e.format_label(),
        "<pre>Just <span style=\"color:#0087af\">red &amp; so</span> on</pre>"
    );
}

#[test]
fn label_that_leads_outside() {
    let e = entry("hSite\tURL:https://example.com/?a=b\thost\t70");
    assert_eq!(e.format_label(), "<pre><a href=\"https://example.com/?a=b\"\">Site</a></pre>");
}

#[test]
fn unknown_entries_have_no_row() {
    assert!(entry("broken").format_row().is_none());
    assert!(entry("Zlabel\t/sel\thost\t70").format_row().is_none());
}

#[test]
fn info_row() {
    let e = entry("iHello\t\t\t");
    assert_eq!(e.format_row().unwrap(), "<td></td><td><pre>Hello</pre></td>");
}

#[test]
fn rows_with_an_icon() {
    let label = "<pre><a href=\"?url=gopher%3A%2F%2Fh%3A70%2FX%2Fs\"\">L</a></pre>";
    for (marker, icon) in [
        ('1', "fa fa-folder-o"),
        ('0', "fa fa-file-text-o"),
        ('h', "fa fa-external-link"),
        ('9', "fa fa-file-o"),
        ('3', "fa fa-file-o"),
        ('P', "fa fa-file-o"),
        ('d', "fa fa-file-o"),
        ('+', "fa fa-file-o"),
        (';', "fa fa-file-o"),
    ] {
        let e = entry(&format!("{}L\t/s\th\t70", marker));
        let expected = format!(
            "<td><i class=\"{}\"></i></td><td>{}</td>",
            icon,
            label.replace("%2FX%2Fs", &format!("%2F{}%2Fs", urlencoding::encode(&marker.to_string())))
        );
        assert_eq!(e.format_row().unwrap(), expected, "{}", marker);
    }
}

#[test]
fn sound_rows() {
    for marker in ['s', '<'] {
        let e = entry(&format!("{}Tune <1>\t/t.ogg\th\t70", marker));
        let href = e.to_href().unwrap();
        let expected = format!(
            r#"<td></td><td>
                    <pre>{0} (<a href="{1}">download</a>)</pre>
                    <audio controls><source src="{1}">Your browser does not support audio element.</audio>
                </td></tr>"#,
            "Tune &lt;1&gt;", href,
        );
        assert_eq!(e.format_row().unwrap(), expected);
    }
}

#[test]
fn search_row() {
    let e = entry("7Search & find\t/v2/vs\tgopher.example\t7070");
    let expected = format!(
        r#"<td><i class="fa fa-search"></i></td>
                    <td><form action="/" method="get">
                        <input name="query"  placeholder="{}" type="text">
                        <input type="hidden" name="url" value="{}">
                        <input type="hidden" name="t" value="{}">
                        <input type="submit" value="Submit">
                    </form></td><tr>"#,
        "Search &amp; find", "gopher://gopher.example:7070/7/v2/vs", '7',
    );
    assert_eq!(e.format_row().unwrap(), expected);
}

#[test]
fn image_rows() {
    for marker in ['I', ':', 'g', 'p'] {
        let e = entry(&format!("{}Pic\t/p\th\t70", marker));
        let expected = format!("<td></td><td><img src=\"{}\" />\n</tr>", e.to_href().unwrap());
        assert_eq!(e.format_row().unwrap(), expected);
    }
    let e = entry("gPic\t/p.gif\th\t70");
    assert_eq!(
        e.format_row().unwrap(),
        "<td></td><td><img src=\"?url=gopher%3A%2F%2Fh%3A70%2Fg%2Fp.gif\" />\n</tr>"
    );
}

#[test]
fn an_entry_made_by_hand_without_address() {
    let e = DirEntry { item_type: GopherItem::Info, label: "x".to_string(), url: None };
    assert_eq!(e.format_row().unwrap(), "<td></td><td><pre>x</pre></td>");
    let e = DirEntry {
        item_type: GopherItem::Info,
        label: "x".to_string(),
        url: Some(GopherURL::new("h", "70", &GopherItem::Info, "/i")),
    };
    assert_eq!(
        e.format_row().unwrap(),
        "<td></td><td><pre><a href=\"?url=gopher%3A%2F%2Fh%3A70%2Fi%2Fi\"\">x</a></pre></td>"
    );
}

#[test]
fn a_label_around_given_text() {
    let e = entry("1Folder\t/sel\thost\t70");
    assert_eq!(
        e.label_around("<b>any</b>"),
        "<pre><a href=\"?url=gopher%3A%2F%2Fhost%3A70%2F1%2Fsel\"\"><b>any</b></a></pre>"
    );
    let e = entry("iInfo\t\t\t");
    assert_eq!(e.label_around("x"), "<pre>x</pre>");
    assert_eq!(e.label_around(""), "<pre></pre>");
}

#[test]
fn a_row_around_a_given_label() {
    assert_eq!(entry("iInfo\t\t\t").row_around("LABEL").unwrap(), "<td></td><td>LABEL</td>");
    assert_eq!(
        entry("1Dir\t/d\th\t70").row_around("LABEL").unwrap(),
        "<td><i class=\"fa fa-folder-o\"></i></td><td>LABEL</td>"
    );
    assert_eq!(
        entry("0Doc\t/d\th\t70").row_around("LABEL").unwrap(),
        "<td><i class=\"fa fa-file-text-o\"></i></td><td>LABEL</td>"
    );
    assert_eq!(
        entry("hWeb\t/d\th\t70").row_around("LABEL").unwrap(),
        "<td><i class=\"fa fa-external-link\"></i></td><td>LABEL</td>"
    );
    assert_eq!(
        entry("5Old\t/d\th\t70").row_around("LABEL").unwrap(),
        "<td><i class=\"fa fa-file-o\"></i></td><td>LABEL</td>"
    );
    assert_eq!(
        entry("IPic\t/p\th\t70").row_around("LABEL").unwrap(),
        "<td></td><td><img src=\"?url=gopher%3A%2F%2Fh%3A70%2FI%2Fp\" />\n</tr>"
    );
    assert!(entry("nothing").row_around("LABEL").is_none());
}
