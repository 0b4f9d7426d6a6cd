//! Labels with terminal colours, as page text.
//!
//! Menu authors colour their banners with ANSI escape sequences. A label is
//! cut into text and escape sequences; the colours that the sequences select
//! are kept as styles, and each run of text is wrapped in a `span` that
//! carries the styles in force.

use vstd::prelude::*;
use vstd::string::StringExecFns;
use ansitok::AnsiColor::{Bit24, Bit4, Bit8};
use ansitok::VisualAttribute::{BgColor, FgColor, Reset};
use ansitok::{parse_ansi, parse_ansi_sgr, ElementKind};
use crate::escape::{escape_text, html_escaped};
use crate::number::{decimal, push_decimal};

verus! {

/// What a piece of a label with escape sequences is.
#[derive(Clone, Copy, Debug, PartialEq, Eq, Structural)]
pub enum TokenKind {
    Esc,
    Sgr,
    Csi,
    Osc,
    Text,
}

/// A piece of a label: its kind and its characters.
#[derive(Debug)]
pub struct Token {
    pub kind: TokenKind,
    pub text: String,
}

/// A piece of a label as plain values.
pub struct TokenView {
    pub kind: TokenKind,
    pub text: Seq<char>,
}

impl View for Token {
    type V = TokenView;

    open spec fn view(&self) -> TokenView {
        TokenView { kind: self.kind, text: self.text@ }
    }
}

/// A colour as an escape sequence names it: by the number of a graphics
/// mode, by its place in the table of 256 colours, or by its parts.
#[derive(Clone, Copy, Debug, PartialEq, Eq, Structural)]
pub enum Color {
    Mode(u8),
    Indexed(u8),
    Rgb { r: u8, g: u8, b: u8 },
}

/// What one parameter of a graphics sequence asks for.
#[derive(Clone, Copy, Debug, PartialEq, Eq, Structural)]
pub enum Style {
    Foreground(Color),
    Background(Color),
    /// Back to the defaults, for all attributes or for one.
    Reset,
    /// An attribute that is no colour, or something that is no attribute.
    Other,
}

/// The views of a sequence of tokens.
pub open spec fn token_views(tokens: Seq<Token>) -> Seq<TokenView> {
    Seq::new(tokens.len(), |i: int| tokens[i]@)
}

/// The pieces that `ansitok` cuts a text into.
pub uninterp spec fn ansi_tokens_of(text: Seq<char>) -> Seq<TokenView>;

/// What `ansitok` reads the parameters of a graphics sequence as.
pub uninterp spec fn sgr_styles_of(sequence: Seq<char>) -> Seq<Style>;

/// `ansitok::parse_ansi`: the elements of the text in order, each with its
/// kind and with the characters in its range of the text, or with none where
/// the range is no part of the text.
#[verifier::external_body]
fn ansi_tokens(text: &str) -> (tokens: Vec<Token>)
    ensures
        token_views(tokens@) == ansi_tokens_of(text@),
{
    parse_ansi(text).map(
        |e| Token {
            kind: match e.kind() {
                ElementKind::Esc => TokenKind::Esc,
                ElementKind::Sgr => TokenKind::Sgr,
                ElementKind::Csi => TokenKind::Csi,
                ElementKind::Osc => TokenKind::Osc,
                ElementKind::Text => TokenKind::Text,
            },
            text: text.get(e.start()..e.end()).unwrap_or_default().to_owned(),
        },
    ).collect()
}

/// `ansitok::parse_ansi_sgr`: the attributes that the parameters of a
/// graphics sequence select, in order. Colours and resets are told apart;
/// every other attribute, and text that is no attribute, is `Other`.
#[verifier::external_body]
fn sgr_styles(sequence: &str) -> (styles: Vec<Style>)
    ensures
        styles@ == sgr_styles_of(sequence@),
{
    parse_ansi_sgr(sequence).map(
        |found| match found.as_escape() {
            Some(FgColor(Bit4(v))) => Style::Foreground(Color::Mode(v)),
            Some(FgColor(Bit8(v))) => Style::Foreground(Color::Indexed(v)),
            Some(FgColor(Bit24 { r, g, b })) => Style::Foreground(Color::Rgb { r, g, b }),
            Some(BgColor(Bit4(v))) => Style::Background(Color::Mode(v)),
            Some(BgColor(Bit8(v))) => Style::Background(Color::Indexed(v)),
            Some(BgColor(Bit24 { r, g, b })) => Style::Background(Color::Rgb { r, g, b }),
            Some(Reset(_)) => Style::Reset,
            _ => Style::Other,
        },
    ).collect()
}

/// The strength of one part of a colour in the cube of 216: 0, 95, 135, 175,
/// 215, 255.
pub open spec fn cube_level(step: int) -> int {
    if step == 0 {
        0
    } else {
        55 + 40 * step
    }
}

/// The red, green and blue of a place in the table of 256 colours: sixteen
/// named colours, a cube of six levels for each part, and 24 greys.
pub open spec fn palette(index: u8) -> (int, int, int) {
    if index == 7 {
        (0xc0, 0xc0, 0xc0)
    } else if index == 8 {
        (0x80, 0x80, 0x80)
    } else if index < 16 {
        let on: int = if index < 8 {
            0x80
        } else {
            0xff
        };
        (on * (index % 2), on * ((index / 2) % 2), on * ((index / 4) % 2))
    } else if index < 232 {
        let place = index - 16;
        (cube_level(place / 36), cube_level((place / 6) % 6), cube_level(place % 6))
    } else {
        let grey = 8 + 10 * (index - 232);
        (grey, grey, grey)
    }
}

/// The hexadecimal digit for a number below sixteen, in lower case.
pub open spec fn hex_lower(d: int) -> char {
    if d < 10 {
        (0x30 + d) as char
    } else {
        (0x61 + d - 10) as char
    }
}

/// The two hexadecimal digits of a number below 256.
pub open spec fn hex_pair(n: int) -> Seq<char> {
    seq![hex_lower(n / 16), hex_lower(n % 16)]
}

/// A colour as a style sheet writes it: `#rrggbb` for a place in the table,
/// which a mode number is taken as too; for a colour given by its parts,
/// `rgb(` and the three parts in decimal, divided by a comma and a space.
pub open spec fn color_text(c: Color) -> Seq<char> {
    match c {
        Color::Mode(v) | Color::Indexed(v) => seq!['#'] + hex_pair(palette(v).0) + hex_pair(
            palette(v).1,
        ) + hex_pair(palette(v).2),
        Color::Rgb { r, g, b } => "rgb("@ + decimal(r as nat) + ", "@ + decimal(g as nat) + ", "@
            + decimal(b as nat),
    }
}

/// The red, green and blue of a place in the table of 256 colours.
pub fn palette_of(index: u8) -> (rgb: (u8, u8, u8))
    ensures
        rgb.0 == palette(index).0,
        rgb.1 == palette(index).1,
        rgb.2 == palette(index).2,
{
    if index == 7 {
        (0xc0, 0xc0, 0xc0)
    } else if index == 8 {
        (0x80, 0x80, 0x80)
    } else if index < 16 {
        let on: u8 = if index < 8 {
            0x80
        } else {
            0xff
        };
        (on * (index % 2), on * ((index / 2) % 2), on * ((index / 4) % 2))
    } else if index < 232 {
        let place = index - 16;
        (level_of(place / 36), level_of((place / 6) % 6), level_of(place % 6))
    } else {
        let grey = 8 + 10 * (index - 232);
        (grey, grey, grey)
    }
}

/// The strength of one part of a colour in the cube.
fn level_of(step: u8) -> (level: u8)
    requires
        step < 6,
    ensures
        level == cube_level(step as int),
{
    if step == 0 {
        0
    } else {
        55 + 40 * step
    }
}

/// Appends the two hexadecimal digits of `n` to `out`.
fn push_hex_pair(out: &mut String, n: u8)
    ensures
        final(out)@ == old(out)@ + hex_pair(n as int),
{
    let high = n / 16;
    let low = n % 16;
    let first: char = if high < 10 {
        (0x30u8 + high) as char
    } else {
        (0x61u8 + high - 10) as char
    };
    let second: char = if low < 10 {
        (0x30u8 + low) as char
    } else {
        (0x61u8 + low - 10) as char
    };
    out.push(first);
    out.push(second);
    assert(out@ =~= old(out)@ + hex_pair(n as int));
}

/// A colour as a style sheet writes it.
pub fn to_color(c: Color) -> (text: String)
    ensures
        text@ == color_text(c),
{
    match c {
        Color::Mode(v) | Color::Indexed(v) => {
            let (r, g, b) = palette_of(v);
            let mut text = String::new();
            text.push('#');
            push_hex_pair(&mut text, r);
            push_hex_pair(&mut text, g);
            push_hex_pair(&mut text, b);
            assert(text@ =~= color_text(c));
            text
        },
        Color::Rgb { r, g, b } => {
            let mut text = String::from_str("rgb(");
            push_decimal(&mut text, r as u64);
            text.append(", ");
            push_decimal(&mut text, g as u64);
            text.append(", ");
            push_decimal(&mut text, b as u64);
            assert(text@ =~= color_text(c));
            text
        },
    }
}

/// A piece of a label, ready to be written: text, the styles that a graphics
/// sequence selects, or a sequence that changes nothing on a page.
#[derive(Debug)]
pub enum Piece {
    Text(String),
    Styles(Vec<Style>),
    Other,
}

/// A piece of a label as plain values.
pub enum PieceView {
    Text(Seq<char>),
    Styles(Seq<Style>),
    Other,
}

impl View for Piece {
    type V = PieceView;

    open spec fn view(&self) -> PieceView {
        match self {
            Piece::Text(text) => PieceView::Text(text@),
            Piece::Styles(styles) => PieceView::Styles(styles@),
            Piece::Other => PieceView::Other,
        }
    }
}

/// The views of a sequence of pieces.
pub open spec fn piece_views(pieces: Seq<Piece>) -> Seq<PieceView> {
    Seq::new(pieces.len(), |i: int| pieces[i]@)
}

/// The piece that a token is: text is text, a graphics sequence is the
/// styles it selects, and every other sequence changes nothing.
pub open spec fn piece_of_token(token: TokenView) -> PieceView {
    match token.kind {
        TokenKind::Text => PieceView::Text(token.text),
        TokenKind::Sgr => PieceView::Styles(sgr_styles_of(token.text)),
        _ => PieceView::Other,
    }
}

/// The pieces of a label.
pub open spec fn pieces_of(text: Seq<char>) -> Seq<PieceView> {
    Seq::new(ansi_tokens_of(text).len(), |i: int| piece_of_token(ansi_tokens_of(text)[i]))
}

/// The styles in force once one more is taken in. A colour adds a rule, for
/// the background as for the foreground; a reset drops all rules.
pub open spec fn styles_with(styles: Seq<Seq<char>>, style: Style) -> Seq<Seq<char>> {
    match style {
        Style::Foreground(c) | Style::Background(c) => styles.push("color:"@ + color_text(c)),
        Style::Reset => Seq::empty(),
        Style::Other => styles,
    }
}

/// The styles in force once all of `added` are taken in, in order.
pub open spec fn styles_with_all(styles: Seq<Seq<char>>, added: Seq<Style>) -> Seq<Seq<char>>
    decreases added.len(),
{
    if added.len() == 0 {
        styles
    } else {
        styles_with(styles_with_all(styles, added.drop_last()), added.last())
    }
}

/// The styles in force after the given pieces.
pub open spec fn styles_after(pieces: Seq<PieceView>) -> Seq<Seq<char>>
    decreases pieces.len(),
{
    if pieces.len() == 0 {
        Seq::empty()
    } else {
        match pieces.last() {
            PieceView::Styles(added) => styles_with_all(styles_after(pieces.drop_last()), added),
            _ => styles_after(pieces.drop_last()),
        }
    }
}

/// The parts written one after the other, with `;` between them.
pub open spec fn joined(parts: Seq<Seq<char>>) -> Seq<char>
    decreases parts.len(),
{
    if parts.len() == 0 {
        Seq::empty()
    } else if parts.len() == 1 {
        parts[0]
    } else {
        joined(parts.drop_last()) + seq![';'] + parts.last()
    }
}

/// A run of text under the styles in force. With styles it is escaped and
/// wrapped in a `span`; without any it is written as it stands.
pub open spec fn styled_text(styles: Seq<Seq<char>>, text: Seq<char>) -> Seq<char> {
    if styles.len() == 0 {
        text
    } else {
        "<span style=\""@ + joined(styles) + "\">"@ + html_escaped(text) + "</span>"@
    }
}

/// The page text of the given pieces.
pub open spec fn html_of_pieces(pieces: Seq<PieceView>) -> Seq<char>
    decreases pieces.len(),
{
    if pieces.len() == 0 {
        Seq::empty()
    } else {
        match pieces.last() {
            PieceView::Text(text) => html_of_pieces(pieces.drop_last()) + styled_text(
                styles_after(pieces.drop_last()),
                text,
            ),
            _ => html_of_pieces(pieces.drop_last()),
        }
    }
}

/// The views of a sequence of strings.
pub open spec fn rule_views(rules: Seq<String>) -> Seq<Seq<char>> {
    Seq::new(rules.len(), |i: int| rules[i]@)
}

/// The pieces of a label.
pub fn pieces(text: &str) -> (found: Vec<Piece>)
    ensures
        piece_views(found@) == pieces_of(text@),
{
    let tokens = ansi_tokens(text);
    let ghost views = ansi_tokens_of(text@);
    assert(views.len() == tokens@.len());
    let mut found: Vec<Piece> = Vec::new();
    let mut i: usize = 0;
    while i < tokens.len()
        invariant
            i <= tokens.len(),
            views == token_views(tokens@),
            piece_views(found@) == Seq::new(i as nat, |k: int| piece_of_token(views[k])),
        decreases tokens.len() - i,
    {
        let token = &tokens[i];
        assert(views[i as int] == token@);
        let piece = match token.kind {
            TokenKind::Text => Piece::Text(token.text.clone()),
            TokenKind::Sgr => Piece::Styles(sgr_styles(token.text.as_str())),
            _ => Piece::Other,
        };
        assert(piece@ == piece_of_token(views[i as int]));
        let ghost before = piece_views(found@);
        found.push(piece);
        assert(piece_views(found@) =~= before.push(piece@));
        assert(piece_views(found@) =~= Seq::new((i + 1) as nat, |k: int| piece_of_token(views[k])));
        i += 1;
    }
    assert(piece_views(found@) =~= pieces_of(text@));
    found
}

/// The parts written one after the other, with `;` between them.
pub fn join_rules(rules: &Vec<String>) -> (text: String)
    ensures
        text@ == joined(rule_views(rules@)),
{
    let mut text = String::new();
    let mut i: usize = 0;
    let ghost all = rule_views(rules@);
    assert(all.take(0) == Seq::<Seq<char>>::empty());
    while i < rules.len()
        invariant
            i <= rules.len(),
            all == rule_views(rules@),
            text@ == joined(all.take(i as int)),
        decreases rules.len() - i,
    {
        assert(all.take(i + 1).drop_last() == all.take(i as int));
        assert(all.take(i + 1).last() == rules@[i as int]@);
        if i > 0 {
            text.push(';');
        }
        text.append(rules[i].as_str());
        assert(text@ =~= joined(all.take(i + 1)));
        i += 1;
    }
    assert(all.take(all.len() as int) == all);
    text
}

/// Takes the styles of one graphics sequence in.
fn take_styles(rules: &mut Vec<String>, added: &Vec<Style>)
    ensures
        rule_views(final(rules)@) == styles_with_all(rule_views(old(rules)@), added@),
{
    let mut i: usize = 0;
    assert(added@.take(0) == Seq::<Style>::empty());
    while i < added.len()
        invariant
            i <= added.len(),
            rule_views(rules@) == styles_with_all(rule_views(old(rules)@), added@.take(i as int)),
        decreases added.len() - i,
    {
        assert(added@.take(i + 1).drop_last() == added@.take(i as int));
        let ghost before = rule_views(rules@);
        match added[i] {
            Style::Foreground(c) | Style::Background(c) => {
                let rule = String::from_str("color:").concat(to_color(c).as_str());
                rules.push(rule);
                assert(rule_views(rules@) =~= before.push(rule@));
            },
            Style::Reset => {
                rules.clear();
                assert(rule_views(rules@) =~= Seq::<Seq<char>>::empty());
            },
            Style::Other => {},
        }
        i += 1;
    }
    assert(added@.take(added@.len() as int) == added@);
}

/// The page text of the given pieces.
pub fn render_pieces(pieces: &Vec<Piece>) -> (html: String)
    ensures
        html@ == html_of_pieces(piece_views(pieces@)),
{
    let mut html = String::new();
    let mut rules: Vec<String> = Vec::new();
    let mut i: usize = 0;
    let ghost all = piece_views(pieces@);
    assert(all.take(0) == Seq::<PieceView>::empty());
    assert(rule_views(rules@) =~= Seq::<Seq<char>>::empty());
    while i < pieces.len()
        invariant
            i <= pieces.len(),
            all == piece_views(pieces@),
            html@ == html_of_pieces(all.take(i as int)),
            rule_views(rules@) == styles_after(all.take(i as int)),
        decreases pieces.len() - i,
    {
        assert(all.take(i + 1).drop_last() == all.take(i as int));
        assert(all.take(i + 1).last() == pieces@[i as int]@);
        match &pieces[i] {
            Piece::Text(text) => {
                if rules.len() > 0 {
                    assert(rule_views(rules@).len() == rules@.len());
                    let ghost before = html@;
                    html.append("<span style=\"");
                    html.append(join_rules(&rules).as_str());
                    html.append("\">");
                    html.append(escape_text(text.as_str()).as_str());
                    html.append("</span>");
                    assert(html@ =~= before + styled_text(rule_views(rules@), text@));
                } else {
                    assert(rule_views(rules@).len() == rules@.len());
                    html.append(text.as_str());
                }
            },
            Piece::Styles(added) => {
                take_styles(&mut rules, added);
            },
            Piece::Other => {},
        }
        i += 1;
    }
    assert(all.take(all.len() as int) == all);
    html
}

/// A label as page text, with its terminal colours as styles.
pub fn decode_ansi_style(text: &str) -> (html: String)
    ensures
        html@ == html_of_pieces(pieces_of(text@)),
{
    let found = pieces(text);
    render_pieces(&found)
}

} // verus!
