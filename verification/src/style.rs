//! Styled text.
//!
//! What the library renders is a sequence of pieces, each a text with a
//! style. The pieces are exact. A styled piece is written to a terminal by
//! the `colored` crate, which decides when the program runs whether it
//! writes escape codes at all: so what is written for it is one of two
//! texts, and both are stated.

use vstd::prelude::*;
use vstd::string::*;
use colored::Colorize;
use crate::text::{join_all, texts};

verus! {

/// How a piece of text is to be shown.
#[derive(Debug, Clone, Copy, PartialEq, Eq, Structural)]
pub enum Style {
    /// As it is.
    Plain,
    /// Red and bold: the word that names an error.
    Alert,
    /// Bright white and bold: messages, places and the summary.
    Strong,
    /// Cyan: numbers.
    Number,
    /// Green: characters and strings.
    Text,
}

/// A text with its style.
#[derive(Debug, PartialEq, Eq)]
pub struct Piece {
    pub text: String,
    pub style: Style,
}

/// Mathematical model of a [`Piece`].
pub struct PieceView {
    pub text: Seq<char>,
    pub style: Style,
}

impl View for Piece {
    type V = PieceView;

    open spec fn view(&self) -> PieceView {
        PieceView { text: self.text@, style: self.style }
    }
}

/// The models of a sequence of pieces, in order.
pub open spec fn piece_views(pieces: Seq<Piece>) -> Seq<PieceView> {
    pieces.map_values(|p: Piece| p@)
}

/// A piece of unstyled text.
pub open spec fn plain(text: Seq<char>) -> PieceView {
    PieceView { text, style: Style::Plain }
}

/// A piece of text in the style `style`.
pub open spec fn styled(text: Seq<char>, style: Style) -> PieceView {
    PieceView { text, style }
}

impl Piece {
    /// A piece of text in the style `style`.
    pub fn new(text: String, style: Style) -> (piece: Self)
        ensures
            piece@ == styled(text@, style),
    {
        Self { text, style }
    }

    /// A piece of unstyled text.
    pub fn plain(text: String) -> (piece: Self)
        ensures
            piece@ == plain(text@),
    {
        Self { text, style: Style::Plain }
    }
}

/// The character that starts an escape code.
pub open spec fn escape() -> char {
    '\u{1b}'
}

/// The escape code that ends every colored text.
pub open spec fn reset_code() -> Seq<char> {
    "\u{1b}[0m"@
}

/// The escape code that starts a text in the style `style`.
pub open spec fn style_code(style: Style) -> Seq<char> {
    match style {
        Style::Plain => Seq::empty(),
        Style::Alert => "\u{1b}[1;31m"@,
        Style::Strong => "\u{1b}[1;97m"@,
        Style::Number => "\u{1b}[36m"@,
        Style::Text => "\u{1b}[32m"@,
    }
}

/// Whether `out` may be what is written for `text` in a style whose escape
/// code is `code`. Nothing of a text is ever lost. A text that holds no
/// escape character is written as it is where colors are switched off, and
/// between the code of its style and the reset code where they are on.
pub open spec fn colored_as(out: Seq<char>, text: Seq<char>, code: Seq<char>) -> bool {
    &&& out.len() >= text.len()
    &&& !text.contains(escape()) ==> out == text || out == code + text + reset_code()
}

/// Whether `out` may be what is written for `piece`: the text itself for an
/// unstyled piece, and a colored form of it for a styled one.
pub open spec fn painted_as(out: Seq<char>, piece: PieceView) -> bool {
    if piece.style is Plain {
        out == piece.text
    } else {
        colored_as(out, piece.text, style_code(piece.style))
    }
}

/// Whether `out` holds `text` as one stretch.
pub open spec fn holds(out: Seq<char>, text: Seq<char>) -> bool {
    exists|before: Seq<char>, after: Seq<char>| out == before + text + after
}

/// What is written for a piece without an escape character in its text
/// holds that text, whether colors are switched on or not.
pub proof fn lemma_painted_holds_text(out: Seq<char>, piece: PieceView)
    requires
        painted_as(out, piece),
        piece.style is Plain || !piece.text.contains(escape()),
    ensures
        holds(out, piece.text),
{
    if out == piece.text {
        assert(out =~= Seq::<char>::empty() + piece.text + Seq::<char>::empty());
    }
}

/// `Colorize::red`, then `Colorize::bold`, then the `Display` form, of the
/// `colored` crate. `Display` writes the text as it is where colors are
/// switched off. Where they are on it writes the code of red and bold, the
/// text, in which it repeats that code after each reset code, and the reset
/// code.
#[verifier::external_body]
fn red_bold(text: &str) -> (out: String)
    ensures
        colored_as(out@, text@, style_code(Style::Alert)),
{
    text.red().bold().to_string()
}

/// `Colorize::bright_white`, then `Colorize::bold`, then the `Display` form,
/// of the `colored` crate. `Display` writes the text as it is where colors
/// are switched off. Where they are on it writes the code of bright white
/// and bold, the text, in which it repeats that code after each reset code,
/// and the reset code.
#[verifier::external_body]
fn bright_white_bold(text: &str) -> (out: String)
    ensures
        colored_as(out@, text@, style_code(Style::Strong)),
{
    text.bright_white().bold().to_string()
}

/// `Colorize::cyan`, then the `Display` form, of the `colored` crate.
/// `Display` writes the text as it is where colors are switched off. Where
/// they are on it writes the code of cyan, the text, in which it repeats
/// that code after each reset code, and the reset code.
#[verifier::external_body]
fn cyan(text: &str) -> (out: String)
    ensures
        colored_as(out@, text@, style_code(Style::Number)),
{
    text.cyan().to_string()
}

/// `Colorize::green`, then the `Display` form, of the `colored` crate.
/// `Display` writes the text as it is where colors are switched off. Where
/// they are on it writes the code of green, the text, in which it repeats
/// that code after each reset code, and the reset code.
#[verifier::external_body]
fn green(text: &str) -> (out: String)
    ensures
        colored_as(out@, text@, style_code(Style::Text)),
{
    text.green().to_string()
}

/// The text of `piece` as it is written to a terminal. An unstyled piece is
/// written as it is, a styled one in its colors where colors are switched
/// on.
pub fn paint(piece: &Piece) -> (out: String)
    ensures
        painted_as(out@, piece@),
        piece.style is Plain || !piece.text@.contains(escape()) ==> holds(out@, piece.text@),
{
    let text = piece.text.as_str();
    let out = match piece.style {
        Style::Plain => piece.text.clone(),
        Style::Alert => red_bold(text),
        Style::Strong => bright_white_bold(text),
        Style::Number => cyan(text),
        Style::Text => green(text),
    };
    proof {
        if piece.style is Plain || !piece.text@.contains(escape()) {
            lemma_painted_holds_text(out@, piece@);
        }
    }
    out
}

/// Whether `painted` holds, for each of `pieces`, a text that may be what is
/// written for it.
pub open spec fn paints(painted: Seq<Seq<char>>, pieces: Seq<PieceView>) -> bool {
    &&& painted.len() == pieces.len()
    &&& forall|i: int| 0 <= i < pieces.len() ==> painted_as(#[trigger] painted[i], pieces[i])
}

/// The text of each of `pieces` as it is written to a terminal.
pub fn paint_each(pieces: &Vec<Piece>) -> (painted: Vec<String>)
    ensures
        paints(texts(painted@), piece_views(pieces@)),
{
    let mut painted: Vec<String> = Vec::new();
    let mut i: usize = 0;
    while i < pieces.len()
        invariant
            i <= pieces.len(),
            paints(texts(painted@), piece_views(pieces@).take(i as int)),
        decreases pieces.len() - i,
    {
        let ghost before = texts(painted@);
        let one = paint(&pieces[i]);
        painted.push(one);
        proof {
            assert(texts(painted@) =~= before.push(one@));
            assert(piece_views(pieces@).take(i + 1) =~= piece_views(pieces@).take(i as int).push(
                pieces@[i as int]@,
            ));
        }
        i = i + 1;
    }
    assert(piece_views(pieces@).take(i as int) =~= piece_views(pieces@));
    painted
}

/// The texts of `pieces` as they are written to a terminal, one after the
/// other.
pub fn paint_all(pieces: &Vec<Piece>) -> (out: String)
    ensures
        exists|painted: Seq<Seq<char>>|
            paints(painted, piece_views(pieces@)) && out@ == painted.flatten(),
{
    let painted = paint_each(pieces);
    join_all(&painted)
}

} // verus!
