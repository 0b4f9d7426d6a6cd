//! Gopher item types and their three representations: the type character on
//! the wire, the variant, and the content type a gateway answers with.

use vstd::prelude::*;
use vstd::string::StringExecFns;

verus! {

/// The kind of resource a menu line or an address points to.
#[derive(Clone, Copy, Debug, PartialEq, Eq, Structural)]
pub enum GopherItem {
    TextFile,
    Submenu,
    Nameserver,
    Error,
    BinHex,
    Dos,
    UuencodeFile,
    FullTextSearch,
    Telnet,
    BinaryFile,
    Mirror,
    GifFile,
    ImageFile,
    Telnet3270,
    BitmapFile,
    MovieFile,
    SoundFile,
    DocFile,
    HtmlFile,
    Info,
    PngFile,
    RtfFile,
    WavFile,
    PdfFile,
    XmlFile,
    Unknown,
}

/// What a gateway declares as the content type of an item's bytes.
#[derive(Clone, Copy, Debug, PartialEq, Eq, Structural)]
pub enum ContentType {
    Plain,
    Html,
    ByteStream,
    Gif,
    Jpeg,
    Bmp,
    Png,
    Pdf,
    Xml,
}

/// The item type that a type character stands for; `Unknown` for every
/// character that is no type character.
pub open spec fn item_of_char(c: char) -> GopherItem {
    if c == '0' {
        GopherItem::TextFile
    } else if c == '1' {
        GopherItem::Submenu
    } else if c == '2' {
        GopherItem::Nameserver
    } else if c == '3' {
        GopherItem::Error
    } else if c == '4' {
        GopherItem::BinHex
    } else if c == '5' {
        GopherItem::Dos
    } else if c == '6' {
        GopherItem::UuencodeFile
    } else if c == '7' {
        GopherItem::FullTextSearch
    } else if c == '8' {
        GopherItem::Telnet
    } else if c == '9' {
        GopherItem::BinaryFile
    } else if c == '+' {
        GopherItem::Mirror
    } else if c == 'g' {
        GopherItem::GifFile
    } else if c == 'I' {
        GopherItem::ImageFile
    } else if c == 'T' {
        GopherItem::Telnet3270
    } else if c == ':' {
        GopherItem::BitmapFile
    } else if c == ';' {
        GopherItem::MovieFile
    } else if c == '<' {
        GopherItem::SoundFile
    } else if c == 'd' {
        GopherItem::DocFile
    } else if c == 'h' {
        GopherItem::HtmlFile
    } else if c == 'i' {
        GopherItem::Info
    } else if c == 'p' {
        GopherItem::PngFile
    } else if c == 'r' {
        GopherItem::RtfFile
    } else if c == 's' {
        GopherItem::WavFile
    } else if c == 'P' {
        GopherItem::PdfFile
    } else if c == 'X' {
        GopherItem::XmlFile
    } else {
        GopherItem::Unknown
    }
}

/// The character that writes an item type on the wire; `'?'` for `Unknown`.
pub open spec fn char_of_item(t: GopherItem) -> char {
    match t {
        GopherItem::TextFile => '0',
        GopherItem::Submenu => '1',
        GopherItem::Nameserver => '2',
        GopherItem::Error => '3',
        GopherItem::BinHex => '4',
        GopherItem::Dos => '5',
        GopherItem::UuencodeFile => '6',
        GopherItem::FullTextSearch => '7',
        GopherItem::Telnet => '8',
        GopherItem::BinaryFile => '9',
        GopherItem::Mirror => '+',
        GopherItem::GifFile => 'g',
        GopherItem::ImageFile => 'I',
        GopherItem::Telnet3270 => 'T',
        GopherItem::BitmapFile => ':',
        GopherItem::MovieFile => ';',
        GopherItem::SoundFile => '<',
        GopherItem::DocFile => 'd',
        GopherItem::HtmlFile => 'h',
        GopherItem::Info => 'i',
        GopherItem::PngFile => 'p',
        GopherItem::RtfFile => 'r',
        GopherItem::WavFile => 's',
        GopherItem::PdfFile => 'P',
        GopherItem::XmlFile => 'X',
        GopherItem::Unknown => '?',
    }
}

/// The content type that goes with an item type.
pub open spec fn content_type_of(t: GopherItem) -> ContentType {
    match t {
        GopherItem::TextFile => ContentType::Plain,
        GopherItem::Submenu => ContentType::Html,
        GopherItem::Nameserver => ContentType::Plain,
        GopherItem::Error => ContentType::Plain,
        GopherItem::BinHex => ContentType::ByteStream,
        GopherItem::Dos => ContentType::ByteStream,
        GopherItem::UuencodeFile => ContentType::Plain,
        GopherItem::FullTextSearch => ContentType::Html,
        GopherItem::Telnet => ContentType::Plain,
        GopherItem::BinaryFile => ContentType::ByteStream,
        GopherItem::Mirror => ContentType::Plain,
        GopherItem::GifFile => ContentType::Gif,
        GopherItem::ImageFile => ContentType::Jpeg,
        GopherItem::Telnet3270 => ContentType::Plain,
        GopherItem::BitmapFile => ContentType::Bmp,
        GopherItem::MovieFile => ContentType::ByteStream,
        GopherItem::SoundFile => ContentType::ByteStream,
        GopherItem::DocFile => ContentType::ByteStream,
        GopherItem::HtmlFile => ContentType::Html,
        GopherItem::Info => ContentType::Plain,
        GopherItem::PngFile => ContentType::Png,
        GopherItem::RtfFile => ContentType::ByteStream,
        GopherItem::WavFile => ContentType::ByteStream,
        GopherItem::PdfFile => ContentType::Pdf,
        GopherItem::XmlFile => ContentType::Xml,
        GopherItem::Unknown => ContentType::Plain,
    }
}

/// The name of a content type as a response header gives it, without
/// parameters.
pub open spec fn essence_of(kind: ContentType) -> Seq<char> {
    match kind {
        ContentType::Plain => "text/plain"@,
        ContentType::Html => "text/html"@,
        ContentType::ByteStream => "application/octet-stream"@,
        ContentType::Gif => "image/gif"@,
        ContentType::Jpeg => "image/jpeg"@,
        ContentType::Bmp => "image/bmp"@,
        ContentType::Png => "image/png"@,
        ContentType::Pdf => "application/pdf"@,
        ContentType::Xml => "application/xml"@,
    }
}

impl ContentType {
    /// The name of this content type, without parameters.
    pub fn essence(self) -> (name: String)
        ensures
            name@ == essence_of(self),
    {
        match self {
            ContentType::Plain => String::from_str("text/plain"),
            ContentType::Html => String::from_str("text/html"),
            ContentType::ByteStream => String::from_str("application/octet-stream"),
            ContentType::Gif => String::from_str("image/gif"),
            ContentType::Jpeg => String::from_str("image/jpeg"),
            ContentType::Bmp => String::from_str("image/bmp"),
            ContentType::Png => String::from_str("image/png"),
            ContentType::Pdf => String::from_str("application/pdf"),
            ContentType::Xml => String::from_str("application/xml"),
        }
    }
}

impl GopherItem {
    /// The item type that `c` stands for.
    pub fn from_char(c: char) -> (t: GopherItem)
        ensures
            t == item_of_char(c),
    {
        match c {
            '0' => GopherItem::TextFile,
            '1' => GopherItem::Submenu,
            '2' => GopherItem::Nameserver,
            '3' => GopherItem::Error,
            '4' => GopherItem::BinHex,
            '5' => GopherItem::Dos,
            '6' => GopherItem::UuencodeFile,
            '7' => GopherItem::FullTextSearch,
            '8' => GopherItem::Telnet,
            '9' => GopherItem::BinaryFile,
            '+' => GopherItem::Mirror,
            'g' => GopherItem::GifFile,
            'I' => GopherItem::ImageFile,
            'T' => GopherItem::Telnet3270,
            ':' => GopherItem::BitmapFile,
            ';' => GopherItem::MovieFile,
            '<' => GopherItem::SoundFile,
            'd' => GopherItem::DocFile,
            'h' => GopherItem::HtmlFile,
            'i' => GopherItem::Info,
            'p' => GopherItem::PngFile,
            'r' => GopherItem::RtfFile,
            's' => GopherItem::WavFile,
            'P' => GopherItem::PdfFile,
            'X' => GopherItem::XmlFile,
            _ => GopherItem::Unknown,
        }
    }

    /// The content type that goes with this item type.
    pub fn content_type(self) -> (kind: ContentType)
        ensures
            kind == content_type_of(self),
    {
        match self {
            GopherItem::Submenu | GopherItem::FullTextSearch | GopherItem::HtmlFile => {
                ContentType::Html
            },
            GopherItem::BinHex
            | GopherItem::Dos
            | GopherItem::BinaryFile
            | GopherItem::MovieFile
            | GopherItem::SoundFile
            | GopherItem::DocFile
            | GopherItem::RtfFile
            | GopherItem::WavFile => ContentType::ByteStream,
            GopherItem::GifFile => ContentType::Gif,
            GopherItem::ImageFile => ContentType::Jpeg,
            GopherItem::BitmapFile => ContentType::Bmp,
            GopherItem::PngFile => ContentType::Png,
            GopherItem::PdfFile => ContentType::Pdf,
            GopherItem::XmlFile => ContentType::Xml,
            _ => ContentType::Plain,
        }
    }

    /// The character that writes this item type on the wire.
    pub fn to_char(self) -> (c: char)
        ensures
            c == char_of_item(self),
    {
        match self {
            GopherItem::TextFile => '0',
            GopherItem::Submenu => '1',
            GopherItem::Nameserver => '2',
            GopherItem::Error => '3',
            GopherItem::BinHex => '4',
            GopherItem::Dos => '5',
            GopherItem::UuencodeFile => '6',
            GopherItem::FullTextSearch => '7',
            GopherItem::Telnet => '8',
            GopherItem::BinaryFile => '9',
            GopherItem::Mirror => '+',
            GopherItem::GifFile => 'g',
            GopherItem::ImageFile => 'I',
            GopherItem::Telnet3270 => 'T',
            GopherItem::BitmapFile => ':',
            GopherItem::MovieFile => ';',
            GopherItem::SoundFile => '<',
            GopherItem::DocFile => 'd',
            GopherItem::HtmlFile => 'h',
            GopherItem::Info => 'i',
            GopherItem::PngFile => 'p',
            GopherItem::RtfFile => 'r',
            GopherItem::WavFile => 's',
            GopherItem::PdfFile => 'P',
            GopherItem::XmlFile => 'X',
            GopherItem::Unknown => '?',
        }
    }
}

impl From<char> for GopherItem {
    fn from(c: char) -> (t: GopherItem) {
        GopherItem::from_char(c)
    }
}

impl vstd::std_specs::convert::FromSpecImpl<char> for GopherItem {
    open spec fn obeys_from_spec() -> bool {
        true
    }

    open spec fn from_spec(c: char) -> GopherItem {
        item_of_char(c)
    }
}

impl From<GopherItem> for char {
    fn from(t: GopherItem) -> (c: char) {
        t.to_char()
    }
}

impl vstd::std_specs::convert::FromSpecImpl<GopherItem> for char {
    open spec fn obeys_from_spec() -> bool {
        true
    }

    open spec fn from_spec(t: GopherItem) -> char {
        char_of_item(t)
    }
}

/// Whether `c` is one of the characters that write an item type other than
/// `Unknown`.
pub open spec fn is_type_char(c: char) -> bool {
    item_of_char(c) != GopherItem::Unknown
}

/// Writing an item type as its character and reading that character gives the
/// item type back. `Unknown` is written `'?'`, which reads as `Unknown`.
pub proof fn lemma_item_char_roundtrip(t: GopherItem)
    ensures
        item_of_char(char_of_item(t)) == t,
        char_of_item(GopherItem::Unknown) == '?',
        item_of_char('?') == GopherItem::Unknown,
        t != GopherItem::Unknown ==> is_type_char(char_of_item(t)),
{
}

/// Reading a type character and writing the item type gives the character
/// back; every other character reads as `Unknown`, so that direction loses it.
pub proof fn lemma_char_item_roundtrip(c: char)
    ensures
        is_type_char(c) ==> char_of_item(item_of_char(c)) == c,
        !is_type_char(c) ==> char_of_item(item_of_char(c)) == '?',
{
}

} // verus!
