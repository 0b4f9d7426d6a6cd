use proxy70::item::{ContentType, GopherItem};

const ALL: [(GopherItem, char); 26] = [
    (GopherItem::TextFile, '0'),
    (GopherItem::Submenu, '1'),
    (GopherItem::Nameserver, '2'),
    (GopherItem::Error, '3'),
    (GopherItem::BinHex, '4'),
    (GopherItem::Dos, '5'),
    (GopherItem::UuencodeFile, '6'),
    (GopherItem::FullTextSearch, '7'),
    (GopherItem::Telnet, '8'),
    (GopherItem::BinaryFile, '9'),
    (GopherItem::Mirror, '+'),
    (GopherItem::GifFile, 'g'),
    (GopherItem::ImageFile, 'I'),
    (GopherItem::Telnet3270, 'T'),
    (GopherItem::BitmapFile, ':'),
    (GopherItem::MovieFile, ';'),
    (GopherItem::SoundFile, '<'),
    (GopherItem::DocFile, 'd'),
    (GopherItem::HtmlFile, 'h'),
    (GopherItem::Info, 'i'),
    (GopherItem::PngFile, 'p'),
    (GopherItem::RtfFile, 'r'),
    (GopherItem::WavFile, 's'),
    (GopherItem::PdfFile, 'P'),
    (GopherItem::XmlFile, 'X'),
    (GopherItem::Unknown, '?'),
];

#[test]
fn every_item_has_its_character() {
    for (item, c) in ALL {
        assert_eq!(item.to_char(), c);
        assert_eq!(GopherItem::from_char(c), item);
        assert_eq!(GopherItem::from(c), item);
        assert_eq!(char::from(item), c);
        let into: char = item.into();
        assert_eq!(into, c);
    }
}

#[test]
fn characters_survive_the_round_trip() {
    for (item, c) in ALL {
        assert_eq!(GopherItem::from_char(item.to_char()), item);
        if item != GopherItem::Unknown {
            assert_eq!(GopherItem::from_char(c).to_char(), c);
        }
    }
}

#[test]
fn unknown_is_written_as_question_mark() {
    assert_eq!(GopherItem::Unknown.to_char(), '?');
    assert_eq!(GopherItem::from_char('?'), GopherItem::Unknown);
}

#[test]
fn other_characters_are_unknown() {
    let mut known = 0;
    for code in 0u32..0x3000 {
        let c = char::from_u32(code).unwrap();
        let item = GopherItem::from_char(c);
        if item == GopherItem::Unknown {
            assert!(ALL.iter().all(|(i, k)| *k != c || *i == GopherItem::Unknown));
        } else {
            known += 1;
            assert_eq!(item.to_char(), c);
        }
    }
    assert_eq!(known, 25);
    assert_eq!(GopherItem::from_char('é'), GopherItem::Unknown);
    assert_eq!(GopherItem::from_char('\t'), GopherItem::Unknown);
    assert_eq!(GopherItem::from_char('G'), GopherItem::Unknown);
}

#[test]
fn content_types() {
    assert_eq!(GopherItem::TextFile.content_type(), ContentType::Plain);
    assert_eq!(GopherItem::Submenu.content_type(), ContentType::Html);
    assert_eq!(GopherItem::Nameserver.content_type(), ContentType::Plain);
    assert_eq!(GopherItem::Error.content_type(), ContentType::Plain);
    assert_eq!(GopherItem::BinHex.content_type(), ContentType::ByteStream);
    assert_eq!(GopherItem::Dos.content_type(), ContentType::ByteStream);
    assert_eq!(GopherItem::UuencodeFile.content_type(), ContentType::Plain);
    assert_eq!(GopherItem::FullTextSearch.content_type(), ContentType::Html);
    assert_eq!(GopherItem::Telnet.content_type(), ContentType::Plain);
    assert_eq!(GopherItem::BinaryFile.content_type(), ContentType::ByteStream);
    assert_eq!(GopherItem::Mirror.content_type(), ContentType::Plain);
    assert_eq!(GopherItem::GifFile.content_type(), ContentType::Gif);
    assert_eq!(GopherItem::ImageFile.content_type(), ContentType::Jpeg);
    assert_eq!(GopherItem::Telnet3270.content_type(), ContentType::Plain);
    assert_eq!(GopherItem::BitmapFile.content_type(), ContentType::Bmp);
    assert_eq!(GopherItem::MovieFile.content_type(), ContentType::ByteStream);
    assert_eq!(GopherItem::SoundFile.content_type(), ContentType::ByteStream);
    assert_eq!(GopherItem::DocFile.content_type(), ContentType::ByteStream);
    assert_eq!(GopherItem::HtmlFile.content_type(), ContentType::Html);
    assert_eq!(GopherItem::Info.content_type(), ContentType::Plain);
    assert_eq!(GopherItem::PngFile.content_type(), ContentType::Png);
    assert_eq!(GopherItem::RtfFile.content_type(), ContentType::ByteStream);
    assert_eq!(GopherItem::WavFile.content_type(), ContentType::ByteStream);
    assert_eq!(GopherItem::PdfFile.content_type(), ContentType::Pdf);
    assert_eq!(GopherItem::XmlFile.content_type(), ContentType::Xml);
    assert_eq!(GopherItem::Unknown.content_type(), ContentType::Plain);
}

#[test]
fn names_of_content_types() {
    assert_eq!(ContentType::Plain.essence(), "text/plain");
    assert_eq!(ContentType::Html.essence(), "text/html");
    assert_eq!(ContentType::ByteStream.essence(), "application/octet-stream");
    assert_eq!(ContentType::Gif.essence(), "image/gif");
    assert_eq!(ContentType::Jpeg.essence(), "image/jpeg");
    assert_eq!(ContentType::Bmp.essence(), "image/bmp");
    assert_eq!(ContentType::Png.essence(), "image/png");
    assert_eq!(ContentType::Pdf.essence(), "application/pdf");
    assert_eq!(ContentType::Xml.essence(), "application/xml");
    assert_eq!(GopherItem::Submenu.content_type().essence(), "text/html");
    assert_eq!(GopherItem::BinaryFile.content_type().essence(), "application/octet-stream");
    assert_eq!(GopherItem::ImageFile.content_type().essence(), "image/jpeg");
}
