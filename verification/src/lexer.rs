//! The lexer: from source text to tokens.
//!
//! The first half of this module says, as functions on sequences of
//! characters, which tokens and diagnostics a text has. The second half is
//! the scanner, which is proved to produce exactly those.

use vstd::prelude::*;
use vstd::string::*;
use vstd::utf8::is_scalar;
use crate::diagnostic::{
    error_at, Diagnostic, DiagnosticLevel, DiagnosticReporter, DiagnosticView,
};
use crate::lexer_proofs::{lemma_eof_exactly_once, lemma_spans_within};
use crate::text::{
    byte_len, char_width, chars_of, lemma_offset_monotonic, lemma_offset_step, offset_of,
    push_char, string_of,
};
use crate::utils::{
    token_views, LiteralKind, LiteralKindView, Span, Token, TokenType, TokenTypeView, TokenView,
};

verus! {

/// What `char::is_whitespace` answers for `c`.
pub uninterp spec fn unicode_whitespace(c: char) -> bool;

/// What `char::is_alphanumeric` answers for `c`.
pub uninterp spec fn unicode_alphanumeric(c: char) -> bool;

/// Whether `c` is one of the first 128 characters.
pub open spec fn is_ascii(c: char) -> bool {
    (c as u32) < 128
}

/// Whitespace: a space or one of the five control characters from tab to
/// carriage return, and beyond the first 128 characters whatever Unicode
/// calls white space.
pub open spec fn is_space(c: char) -> bool {
    if is_ascii(c) {
        c == ' ' || 9 <= (c as u32) <= 13
    } else {
        unicode_whitespace(c)
    }
}

/// A decimal digit.
pub open spec fn is_digit(c: char) -> bool {
    '0' <= c <= '9'
}

/// A letter of the English alphabet.
pub open spec fn is_letter(c: char) -> bool {
    'a' <= c <= 'z' || 'A' <= c <= 'Z'
}

/// A character that may start an identifier.
pub open spec fn is_ident_start(c: char) -> bool {
    c == '_' || is_letter(c)
}

/// A character that may continue an identifier: an underscore, a letter or a
/// digit, and beyond the first 128 characters whatever Unicode calls
/// alphabetic or numeric.
pub open spec fn is_ident_part(c: char) -> bool {
    if is_ascii(c) {
        c == '_' || is_letter(c) || is_digit(c)
    } else {
        unicode_alphanumeric(c)
    }
}

/// A hexadecimal digit, in either case.
pub open spec fn is_hex_digit(c: char) -> bool {
    is_digit(c) || 'a' <= c <= 'f' || 'A' <= c <= 'F'
}

/// The value of a hexadecimal digit.
pub open spec fn hex_digit_value(c: char) -> nat
    recommends
        is_hex_digit(c),
{
    if is_digit(c) {
        (c as u32 - '0' as u32) as nat
    } else if 'a' <= c <= 'f' {
        (c as u32 - 'a' as u32 + 10) as nat
    } else {
        (c as u32 - 'A' as u32 + 10) as nat
    }
}

/// The number that a sequence of hexadecimal digits writes.
pub open spec fn hex_value(digits: Seq<char>) -> nat
    decreases digits.len(),
{
    if digits.len() == 0 {
        0
    } else {
        hex_value(digits.drop_last()) * 16 + hex_digit_value(digits.last())
    }
}

/// The classes of characters of which the lexer scans runs.
#[derive(Debug, Clone, Copy, PartialEq, Eq)]
pub enum CharClass {
    Space,
    Digit,
    HexDigit,
    IdentPart,
}

/// Whether `c` belongs to `class`.
pub open spec fn in_class(c: char, class: CharClass) -> bool {
    match class {
        CharClass::Space => is_space(c),
        CharClass::Digit => is_digit(c),
        CharClass::HexDigit => is_hex_digit(c),
        CharClass::IdentPart => is_ident_part(c),
    }
}

/// Where the longest run of characters of `class` that starts at `i` ends:
/// the index of the first character at or after `i` that is not in the
/// class, or the length of `s`.
pub open spec fn run_end(s: Seq<char>, i: int, class: CharClass) -> int
    decreases s.len() - i,
{
    if 0 <= i < s.len() && in_class(s[i], class) {
        run_end(s, i + 1, class)
    } else {
        i
    }
}

/// A lexical error: its message and the characters it is about.
pub struct LexError {
    pub message: Seq<char>,
    pub start: int,
    pub end: int,
}

/// What the lexer finds at one place: the type of the token, the index
/// just past its last character, and the error it raises, if any.
pub struct Lexeme {
    pub ty: TokenTypeView,
    pub end: int,
    pub error: Option<LexError>,
}

/// A token without an error.
pub open spec fn plain(ty: TokenTypeView, end: int) -> Lexeme {
    Lexeme { ty, end, error: None }
}

/// An `Unknown` token for the characters up to `end`, with an error about
/// the characters from `start` to `end`.
pub open spec fn failed(message: Seq<char>, start: int, end: int) -> Lexeme {
    Lexeme { ty: TokenTypeView::Unknown, end, error: Some(LexError { message, start, end }) }
}

/// The type of a word: a keyword where the text is one, else an identifier
/// that carries the text.
pub open spec fn word_type(text: Seq<char>) -> TokenTypeView {
    if text == "var"@ {
        TokenTypeView::KVariable
    } else if text == "mut"@ {
        TokenTypeView::KMutable
    } else if text == "const"@ {
        TokenTypeView::KConstant
    } else if text == "func"@ {
        TokenTypeView::KFunction
    } else if text == "struct"@ {
        TokenTypeView::KStruct
    } else if text == "class"@ {
        TokenTypeView::KClass
    } else if text == "return"@ {
        TokenTypeView::KReturn
    } else {
        TokenTypeView::Identifier(text)
    }
}

/// A word that starts at `i`: the longest run of identifier characters.
pub open spec fn scan_word(s: Seq<char>, i: int) -> Lexeme {
    let end = run_end(s, i + 1, CharClass::IdentPart);
    plain(word_type(s.subrange(i, end)), end)
}

/// A number that starts at `i`: digits, then at most one dot with the digits
/// that follow it. A dot that another dot follows is left for the range
/// operator.
pub open spec fn scan_number(s: Seq<char>, i: int) -> Lexeme {
    let whole = run_end(s, i, CharClass::Digit);
    if whole < s.len() && s[whole] == '.' && !(whole + 1 < s.len() && s[whole + 1] == '.') {
        let end = run_end(s, whole + 1, CharClass::Digit);
        plain(TokenTypeView::Literal(LiteralKindView::Float(s.subrange(i, end))), end)
    } else {
        plain(TokenTypeView::Literal(LiteralKindView::Integer(s.subrange(i, whole))), whole)
    }
}

/// A character literal whose opening quote is at `i`: the quote, one
/// character that is no backslash, and the closing quote. Any other shape is
/// an error about the opening quote.
pub open spec fn scan_char(s: Seq<char>, i: int) -> Lexeme {
    let message = "expected end of char quote"@;
    if i + 1 < s.len() && s[i + 1] != '\\' {
        if i + 2 < s.len() && s[i + 2] == '\'' {
            plain(TokenTypeView::Literal(LiteralKindView::Char(s[i + 1])), i + 3)
        } else {
            Lexeme {
                ty: TokenTypeView::Unknown,
                end: i + 2,
                error: Some(LexError { message, start: i, end: i + 1 }),
            }
        }
    } else {
        Lexeme {
            ty: TokenTypeView::Unknown,
            end: i + 1,
            error: Some(LexError { message, start: i, end: i + 1 }),
        }
    }
}

/// What an escape sequence in a string stands for.
pub enum Escape {
    /// The character it denotes and the index just past the sequence.
    Char { value: char, end: int },
    /// The sequence is malformed.
    Error(LexError),
}

/// A malformed escape that starts at `start` and is given up at `end`.
pub open spec fn bad_escape(message: Seq<char>, start: int, end: int) -> Escape {
    Escape::Error(LexError { message, start, end })
}

/// The escape `\xNN`, whose backslash is at `j`: two hexadecimal digits
/// give the character with that number.
pub open spec fn scan_hex_escape(s: Seq<char>, j: int) -> Escape {
    if j + 3 < s.len() {
        if is_hex_digit(s[j + 2]) && is_hex_digit(s[j + 3]) {
            Escape::Char {
                value: ((hex_digit_value(s[j + 2]) * 16 + hex_digit_value(s[j + 3])) as u8) as char,
                end: j + 4,
            }
        } else {
            bad_escape("Invalid hex escape"@, j, j + 4)
        }
    } else {
        bad_escape("Incomplete hex escape"@, j, s.len() as int)
    }
}

/// The escape `\u{...}`, whose backslash is at `j`: the hexadecimal digits
/// between the braces give a code point, which must be a Unicode scalar
/// value.
pub open spec fn scan_unicode_escape(s: Seq<char>, j: int) -> Escape {
    if j + 2 < s.len() && s[j + 2] == '{' {
        let close = run_end(s, j + 3, CharClass::HexDigit);
        if close < s.len() && s[close] == '}' {
            let code = hex_value(s.subrange(j + 3, close));
            if close == j + 3 {
                bad_escape("Invalid Unicode escape"@, j, close + 1)
            } else if code <= 0x10FFFF && is_scalar(code as u32) {
                Escape::Char { value: (code as u32) as char, end: close + 1 }
            } else {
                bad_escape("Invalid Unicode code point"@, j, close + 1)
            }
        } else {
            bad_escape("Invalid Unicode escape"@, j, close)
        }
    } else {
        bad_escape("Expected '{' after \\u"@, j, j + 2)
    }
}

/// The escape sequence whose backslash is at `j`.
pub open spec fn scan_escape(s: Seq<char>, j: int) -> Escape {
    if j + 1 >= s.len() {
        bad_escape("Unexpected end of input after \\"@, j, s.len() as int)
    } else {
        let c = s[j + 1];
        if c == 'n' {
            Escape::Char { value: '\n', end: j + 2 }
        } else if c == 't' {
            Escape::Char { value: '\t', end: j + 2 }
        } else if c == 'r' {
            Escape::Char { value: '\r', end: j + 2 }
        } else if c == '\\' {
            Escape::Char { value: '\\', end: j + 2 }
        } else if c == '"' {
            Escape::Char { value: '"', end: j + 2 }
        } else if c == 'x' {
            scan_hex_escape(s, j)
        } else if c == 'u' {
            scan_unicode_escape(s, j)
        } else {
            bad_escape("Unknown escape: \\"@.push(c), j, j + 2)
        }
    }
}

/// The rest of a string literal whose opening quote is at `open`, read from
/// `j` on, after the characters `value` were gathered. The literal ends at
/// the next quote that no backslash precedes. A malformed escape ends the
/// token where the escape is given up; a text that ends first leaves the
/// string unterminated.
pub open spec fn scan_string(s: Seq<char>, open: int, j: int, value: Seq<char>) -> Lexeme
    decreases s.len() - j,
{
    if j < 0 || j >= s.len() {
        failed("Unterminated string literal"@, open, s.len() as int)
    } else if s[j] == '"' {
        plain(TokenTypeView::Literal(LiteralKindView::String(value)), j + 1)
    } else if s[j] == '\\' {
        match scan_escape(s, j) {
            Escape::Char { value: c, end } => {
                proof {
                    lemma_run_end_bounds(s, j + 3, CharClass::HexDigit);
                }
                scan_string(s, open, end, value.push(c))
            },
            Escape::Error(error) => Lexeme {
                ty: TokenTypeView::Unknown,
                end: error.end,
                error: Some(error),
            },
        }
    } else {
        scan_string(s, open, j + 1, value.push(s[j]))
    }
}

/// The message for a character that starts no token.
pub open spec fn unknown_char_message(c: char) -> Seq<char> {
    "Unknown token used: '"@.push(c).push('\'')
}

/// Whether the character after the one at `i` is `d`.
pub open spec fn followed_by(s: Seq<char>, i: int, d: char) -> bool {
    i + 1 < s.len() && s[i + 1] == d
}

/// The punctuation mark or operator that starts at `i`. An operator of two
/// characters is preferred to its first character alone. A character that
/// starts no token is an error.
pub open spec fn scan_symbol(s: Seq<char>, i: int) -> Lexeme {
    let c = s[i];
    if c == ';' {
        plain(TokenTypeView::Semicolon, i + 1)
    } else if c == '(' {
        plain(TokenTypeView::LParen, i + 1)
    } else if c == ')' {
        plain(TokenTypeView::RParen, i + 1)
    } else if c == '{' {
        plain(TokenTypeView::LCurly, i + 1)
    } else if c == '}' {
        plain(TokenTypeView::RCurly, i + 1)
    } else if c == '[' {
        plain(TokenTypeView::LBoxed, i + 1)
    } else if c == ']' {
        plain(TokenTypeView::RBoxed, i + 1)
    } else if c == ',' {
        plain(TokenTypeView::Comma, i + 1)
    } else if c == ':' {
        plain(TokenTypeView::Colon, i + 1)
    } else if c == '+' {
        plain(TokenTypeView::Plus, i + 1)
    } else if c == '*' {
        plain(TokenTypeView::Asterisk, i + 1)
    } else if c == '/' {
        plain(TokenTypeView::Slash, i + 1)
    } else if c == '<' {
        if followed_by(s, i, '=') {
            plain(TokenTypeView::LTEq, i + 2)
        } else {
            plain(TokenTypeView::LT, i + 1)
        }
    } else if c == '>' {
        if followed_by(s, i, '=') {
            plain(TokenTypeView::GTEq, i + 2)
        } else {
            plain(TokenTypeView::GT, i + 1)
        }
    } else if c == '!' {
        if followed_by(s, i, '=') {
            plain(TokenTypeView::NotEq, i + 2)
        } else {
            plain(TokenTypeView::Not, i + 1)
        }
    } else if c == '=' {
        if followed_by(s, i, '=') {
            plain(TokenTypeView::DoubleEq, i + 2)
        } else if followed_by(s, i, '>') {
            plain(TokenTypeView::RightFatArrow, i + 2)
        } else {
            plain(TokenTypeView::Eq, i + 1)
        }
    } else if c == '-' {
        if followed_by(s, i, '>') {
            plain(TokenTypeView::RightArrow, i + 2)
        } else {
            plain(TokenTypeView::Minus, i + 1)
        }
    } else if c == '.' {
        if followed_by(s, i, '.') {
            plain(TokenTypeView::DoubleDot, i + 2)
        } else {
            plain(TokenTypeView::Dot, i + 1)
        }
    } else {
        failed(unknown_char_message(c), i, i + 1)
    }
}

/// The token that starts at `i`, where `s[i]` is no whitespace.
pub open spec fn scan(s: Seq<char>, i: int) -> Lexeme
    recommends
        0 <= i < s.len(),
{
    let c = s[i];
    if c == '\'' {
        scan_char(s, i)
    } else if c == '"' {
        scan_string(s, i, i + 1, Seq::empty())
    } else if is_ident_start(c) {
        scan_word(s, i)
    } else if is_digit(c) {
        scan_number(s, i)
    } else {
        scan_symbol(s, i)
    }
}

/// The span of the characters from index `a` to index `b`, in bytes.
pub open spec fn span_of(s: Seq<char>, file_id: usize, a: int, b: int) -> Span {
    Span { start: offset_of(s, a) as usize, end: offset_of(s, b) as usize, file_id }
}

/// The token that starts at `i`, with its place in the file.
pub open spec fn token_at(s: Seq<char>, file_id: usize, i: int) -> TokenView {
    let found = scan(s, i);
    TokenView { ty: found.ty, span: span_of(s, file_id, i, found.end) }
}

/// The diagnostics that the token starting at `i` raises: one error, or none.
pub open spec fn diagnostics_at(s: Seq<char>, file_id: usize, i: int) -> Seq<DiagnosticView> {
    match scan(s, i).error {
        Some(error) => seq![error_at(error.message, span_of(s, file_id, error.start, error.end))],
        None => Seq::empty(),
    }
}

/// The end-of-input token of `s`: empty, at the end of the text.
pub open spec fn eof_token(s: Seq<char>, file_id: usize) -> TokenView {
    TokenView { ty: TokenTypeView::Eof, span: span_of(s, file_id, s.len() as int, s.len() as int) }
}

/// The tokens and diagnostics of a text.
pub struct LexOutput {
    pub tokens: Seq<TokenView>,
    pub diagnostics: Seq<DiagnosticView>,
}

/// The tokens and diagnostics of `s` from index `i` on: whitespace is
/// skipped, each token starts where the one before it ended, and the end of
/// the text gives the end-of-input token.
pub open spec fn lex_from(s: Seq<char>, file_id: usize, i: int) -> LexOutput
    decreases s.len() - i,
{
    let start = run_end(s, i, CharClass::Space);
    if i < 0 || start >= s.len() {
        LexOutput { tokens: seq![eof_token(s, file_id)], diagnostics: Seq::empty() }
    } else {
        proof {
            lemma_run_end_bounds(s, i, CharClass::Space);
            lemma_scan_advances(s, start);
        }
        let rest = lex_from(s, file_id, scan(s, start).end);
        LexOutput {
            tokens: seq![token_at(s, file_id, start)] + rest.tokens,
            diagnostics: diagnostics_at(s, file_id, start) + rest.diagnostics,
        }
    }
}

/// The tokens and diagnostics of the text `s` of file `file_id`.
pub open spec fn lex(s: Seq<char>, file_id: usize) -> LexOutput {
    lex_from(s, file_id, 0)
}

/// A run ends at or after its start, within the text, at a character that
/// is not of the class, and holds only characters of the class.
pub proof fn lemma_run_end_bounds(s: Seq<char>, i: int, class: CharClass)
    requires
        0 <= i,
    ensures
        i <= run_end(s, i, class),
        i <= s.len() ==> run_end(s, i, class) <= s.len(),
        run_end(s, i, class) < s.len() ==> !in_class(s[run_end(s, i, class)], class),
        forall|k: int| i <= k < run_end(s, i, class) ==> in_class(#[trigger] s[k], class),
    decreases s.len() - i,
{
    if i < s.len() && in_class(s[i], class) {
        lemma_run_end_bounds(s, i + 1, class);
    }
}

/// An escape that denotes a character ends after its backslash, within the
/// text; a malformed one is given up after its backslash, within the text.
pub proof fn lemma_escape_advances(s: Seq<char>, j: int)
    requires
        0 <= j < s.len(),
    ensures
        match scan_escape(s, j) {
            Escape::Char { value, end } => j < end <= s.len(),
            Escape::Error(error) => j == error.start < error.end <= s.len(),
        },
{
    lemma_run_end_bounds(s, j + 3, CharClass::HexDigit);
}

/// A string literal ends after the place it is read from, within the text,
/// and its error, if any, lies between its opening quote and its end.
pub proof fn lemma_string_advances(s: Seq<char>, open: int, j: int, value: Seq<char>)
    requires
        0 <= open < j <= s.len(),
    ensures
        j <= scan_string(s, open, j, value).end <= s.len(),
        match scan_string(s, open, j, value).error {
            Some(error) => open <= error.start < error.end == scan_string(s, open, j, value).end,
            None => j < scan_string(s, open, j, value).end,
        },
    decreases s.len() - j,
{
    if j < s.len() && s[j] == '\\' {
        lemma_escape_advances(s, j);
        match scan_escape(s, j) {
            Escape::Char { value: c, end } => {
                lemma_string_advances(s, open, end, value.push(c));
            },
            Escape::Error(error) => {},
        }
    } else if j < s.len() && s[j] != '"' {
        lemma_string_advances(s, open, j + 1, value.push(s[j]));
    }
}

/// Every token holds at least one character and ends within the text, and
/// its error, if any, lies within the token.
pub proof fn lemma_scan_advances(s: Seq<char>, i: int)
    requires
        0 <= i < s.len(),
    ensures
        i < scan(s, i).end <= s.len(),
        match scan(s, i).error {
            Some(error) => i <= error.start < error.end <= scan(s, i).end,
            None => true,
        },
{
    let c = s[i];
    if c == '"' {
        lemma_string_advances(s, i, i + 1, Seq::empty());
    } else if is_ident_start(c) {
        lemma_run_end_bounds(s, i + 1, CharClass::IdentPart);
    } else if is_digit(c) {
        lemma_run_end_bounds(s, i, CharClass::Digit);
        let whole = run_end(s, i, CharClass::Digit);
        if whole < s.len() {
            lemma_run_end_bounds(s, whole + 1, CharClass::Digit);
        }
    }
}

/// `char::is_whitespace` tells whether a character is white space in
/// Unicode. The contract only names its answer.
#[verifier::external_body]
fn unicode_is_whitespace(c: char) -> (answer: bool)
    ensures
        answer == unicode_whitespace(c),
{
    c.is_whitespace()
}

/// `char::is_alphanumeric` tells whether a character is alphabetic or
/// numeric in Unicode. The contract only names its answer.
#[verifier::external_body]
fn unicode_is_alphanumeric(c: char) -> (answer: bool)
    ensures
        answer == unicode_alphanumeric(c),
{
    c.is_alphanumeric()
}

/// `char::from_u32` gives the character with the code point `code`, and
/// nothing where `code` is no Unicode scalar value.
#[verifier::external_body]
fn char_from_code(code: u32) -> (c: Option<char>)
    ensures
        c is Some <==> is_scalar(code),
        c matches Some(value) ==> value as u32 == code,
{
    char::from_u32(code)
}

/// Whether `c` is whitespace.
pub fn char_is_space(c: char) -> (answer: bool)
    ensures
        answer == is_space(c),
{
    if (c as u32) < 128 {
        c == ' ' || (9 <= c as u32 && c as u32 <= 13)
    } else {
        unicode_is_whitespace(c)
    }
}

/// Whether `c` is a decimal digit.
pub fn char_is_digit(c: char) -> (answer: bool)
    ensures
        answer == is_digit(c),
{
    '0' <= c && c <= '9'
}

/// Whether `c` may start an identifier.
pub fn char_is_ident_start(c: char) -> (answer: bool)
    ensures
        answer == is_ident_start(c),
{
    c == '_' || ('a' <= c && c <= 'z') || ('A' <= c && c <= 'Z')
}

/// Whether `c` may continue an identifier.
pub fn char_is_ident_part(c: char) -> (answer: bool)
    ensures
        answer == is_ident_part(c),
{
    if (c as u32) < 128 {
        char_is_ident_start(c) || char_is_digit(c)
    } else {
        unicode_is_alphanumeric(c)
    }
}

/// The value of `c` as a hexadecimal digit, if it is one.
pub fn hex_digit(c: char) -> (value: Option<u32>)
    ensures
        value is Some <==> is_hex_digit(c),
        value matches Some(v) ==> v == hex_digit_value(c) && v < 16,
{
    if '0' <= c && c <= '9' {
        Some(c as u32 - '0' as u32)
    } else if 'a' <= c && c <= 'f' {
        Some(c as u32 - 'a' as u32 + 10)
    } else if 'A' <= c && c <= 'F' {
        Some(c as u32 - 'A' as u32 + 10)
    } else {
        None
    }
}

/// Whether `c` is a hexadecimal digit.
pub fn char_is_hex_digit(c: char) -> (answer: bool)
    ensures
        answer == is_hex_digit(c),
{
    hex_digit(c).is_some()
}

/// Whether `c` belongs to `class`.
pub fn char_in_class(c: char, class: CharClass) -> (answer: bool)
    ensures
        answer == in_class(c, class),
{
    match class {
        CharClass::Space => char_is_space(c),
        CharClass::Digit => char_is_digit(c),
        CharClass::HexDigit => char_is_hex_digit(c),
        CharClass::IdentPart => char_is_ident_part(c),
    }
}

/// A scanner over one source text. It reads the text from left to right and
/// never goes back.
#[derive(Debug)]
pub struct Lexer {
    chars: Vec<char>,
    pos: usize,
    index: usize,
    file_id: usize,
}

impl Lexer {
    /// The text that is scanned.
    pub closed spec fn text(&self) -> Seq<char> {
        self.chars@
    }

    /// The index of the next character to read.
    pub closed spec fn position(&self) -> int {
        self.pos as int
    }

    /// The file that the text belongs to.
    pub closed spec fn file(&self) -> usize {
        self.file_id
    }

    /// The scanner stands within its text, knows the byte offset of the
    /// place it stands at, and every offset of the text fits a `usize`.
    pub closed spec fn wf(&self) -> bool {
        &&& self.pos <= self.chars@.len()
        &&& self.index == offset_of(self.chars@, self.pos as int)
        &&& byte_len(self.chars@) <= usize::MAX
    }

    /// A well-formed scanner stands within its text, and every byte offset
    /// of that text fits a `usize`.
    pub proof fn lemma_wf_bounds(&self)
        requires
            self.wf(),
        ensures
            0 <= self.position() <= self.text().len(),
            byte_len(self.text()) <= usize::MAX,
    {
    }

    /// A scanner at the start of `source`.
    pub fn new(source: &str, file_id: usize) -> (lexer: Self)
        ensures
            lexer.wf(),
            lexer.text() == source@,
            lexer.position() == 0,
            lexer.file() == file_id,
            byte_len(source@) <= usize::MAX,
    {
        let chars = chars_of(source);
        // The text lies in memory as bytes, so every offset into it fits a
        // `usize`.
        let _size: usize = source.as_bytes().len();
        Self { chars, pos: 0, index: 0, file_id }
    }

    /// All tokens from the place the scanner stands at to the end of the
    /// text, closed by the end-of-input token. Each lexical error is added
    /// to `reporter`, in the order of the text.
    pub fn identify_tokens(self, reporter: &mut DiagnosticReporter) -> (tokens: Vec<Token>)
        requires
            self.wf(),
            old(reporter).wf(),
        ensures
            final(reporter).wf(),
            token_views(tokens@) == lex_from(
                self.text(),
                self.file(),
                self.position(),
            ).tokens,
            final(reporter)@ == old(reporter)@ + lex_from(
                self.text(),
                self.file(),
                self.position(),
            ).diagnostics,
            tokens@.len() >= 1,
            tokens@.last()@.ty is Eof,
            forall|k: int| 0 <= k < tokens@.len() - 1 ==> !(#[trigger] tokens@[k]@.ty is Eof),
            forall|k: int|
                0 <= k < tokens@.len() ==> (#[trigger] tokens@[k]).span.start
                    <= tokens@[k].span.end <= byte_len(self.text()),
    {
        let mut lexer = self;
        let mut tokens: Vec<Token> = Vec::new();
        let ghost s = self.text();
        let ghost whole = lex_from(s, self.file(), self.position());
        loop
            invariant_except_break
                whole.tokens == token_views(tokens@) + lex_from(
                    s,
                    self.file(),
                    lexer.position(),
                ).tokens,
                old(reporter)@ + whole.diagnostics == reporter@ + lex_from(
                    s,
                    self.file(),
                    lexer.position(),
                ).diagnostics,
            invariant
                lexer.wf(),
                reporter.wf(),
                lexer.text() == s,
                lexer.file() == self.file(),
            ensures
                reporter.wf(),
                token_views(tokens@) == whole.tokens,
                reporter@ == old(reporter)@ + whole.diagnostics,
            decreases s.len() - lexer.position(),
        {
            let ghost before = lexer.position();
            let ghost held = reporter@;
            let ghost start = run_end(s, before, CharClass::Space);
            proof {
                lemma_run_end_bounds(s, before, CharClass::Space);
                if start < s.len() {
                    lemma_scan_advances(s, start);
                }
            }
            match lexer.next(reporter) {
                Some(token) => {
                    tokens.push(token);
                    proof {
                        let rest = lex_from(s, self.file(), lexer.position());
                        assert(token_views(tokens@) + rest.tokens
                            =~= token_views(tokens@.drop_last()) + (seq![token@]
                            + rest.tokens));
                        assert(reporter@ + rest.diagnostics =~= held + (diagnostics_at(
                            s,
                            self.file(),
                            start,
                        ) + rest.diagnostics));
                    }
                },
                None => {
                    let end = Span::new(lexer.index, lexer.index, lexer.file_id);
                    tokens.push(Token::new(TokenType::Eof, end));
                    proof {
                        assert(token_views(tokens@) =~= token_views(
                            tokens@.drop_last(),
                        ) + seq![eof_token(s, self.file())]);
                    }
                    break ;
                },
            }
        }
        proof {
            lemma_eof_exactly_once(s, self.file(), self.position());
            lemma_spans_within(s, self.file(), self.position());
            assert forall|k: int| 0 <= k < tokens@.len() implies (#[trigger] tokens@[k]).span.start
                <= tokens@[k].span.end <= byte_len(s) by {
                assert(token_views(tokens@)[k] == tokens@[k]@);
                assert(whole.tokens[k].span == tokens@[k].span);
            }
            assert forall|k: int| 0 <= k < tokens@.len() implies #[trigger] tokens@[k]@
                == whole.tokens[k] by {
                assert(token_views(tokens@)[k] == tokens@[k]@);
            }
        }
        tokens
    }

    /// The character at index `i`, if the text has one there.
    fn char_at(&self, i: usize) -> (c: Option<char>)
        ensures
            c == if i < self.text().len() {
                Some(self.text()[i as int])
            } else {
                None
            },
    {
        if i < self.chars.len() {
            Some(self.chars[i])
        } else {
            None
        }
    }

    /// The next character, which is not consumed.
    fn peek(&self) -> (c: Option<char>)
        ensures
            c == if self.position() < self.text().len() {
                Some(self.text()[self.position()])
            } else {
                None
            },
    {
        self.char_at(self.pos)
    }

    /// Whether the next character is `d`.
    fn follows(&self, d: char) -> (answer: bool)
        ensures
            answer == (self.position() < self.text().len() && self.text()[self.position()] == d),
    {
        match self.peek() {
            Some(c) => c == d,
            None => false,
        }
    }

    /// Consumes one character, unless the text has ended.
    fn advance(&mut self)
        requires
            old(self).wf(),
        ensures
            final(self).wf(),
            final(self).text() == old(self).text(),
            final(self).file() == old(self).file(),
            final(self).position() == if old(self).position() < old(self).text().len() {
                old(self).position() + 1
            } else {
                old(self).position()
            },
            old(self).index <= final(self).index,
    {
        if self.pos < self.chars.len() {
            let width = char_width(self.chars[self.pos]);
            proof {
                lemma_offset_step(self.chars@, self.pos as int);
                lemma_offset_monotonic(self.chars@, self.pos + 1, self.chars@.len() as int);
            }
            self.index = self.index + width;
            self.pos = self.pos + 1;
        }
    }

    /// Consumes the longest run of characters of `class`.
    fn skip_run(&mut self, class: CharClass)
        requires
            old(self).wf(),
        ensures
            final(self).wf(),
            final(self).text() == old(self).text(),
            final(self).file() == old(self).file(),
            final(self).position() == run_end(old(self).text(), old(self).position(), class),
            old(self).index <= final(self).index,
    {
        loop
            invariant
                self.wf(),
                self.text() == old(self).text(),
                self.file() == old(self).file(),
                old(self).position() <= self.position(),
                run_end(self.text(), self.position(), class) == run_end(
                    old(self).text(),
                    old(self).position(),
                    class,
                ),
                old(self).index <= self.index,
            ensures
                self.wf(),
                self.text() == old(self).text(),
                self.file() == old(self).file(),
                self.position() == run_end(old(self).text(), old(self).position(), class),
                old(self).index <= self.index,
            decreases self.text().len() - self.position(),
        {
            match self.peek() {
                Some(c) => {
                    if char_in_class(c, class) {
                        self.advance();
                    } else {
                        break ;
                    }
                },
                None => {
                    break ;
                },
            }
        }
    }

    /// An error diagnostic with this message at this span.
    fn error(&self, message: String, span: Span) -> (diagnostic: Diagnostic)
        ensures
            diagnostic@ == error_at(message@, span),
    {
        Diagnostic::new(DiagnosticLevel::Error, message, span)
    }

    /// The span from the byte offset `start` to the place the scanner stands
    /// at.
    fn span_from(&self, start: usize) -> (span: Span)
        requires
            start <= self.index,
        ensures
            span == (Span { start, end: self.index, file_id: self.file() }),
    {
        Span::new(start, self.index, self.file_id)
    }

    /// Whether the characters from index `start` to index `end` spell `word`.
    fn spells(&self, start: usize, end: usize, word: &str) -> (answer: bool)
        requires
            start <= end <= self.text().len(),
        ensures
            answer == (self.text().subrange(start as int, end as int) == word@),
    {
        let length = word.unicode_len();
        if end - start != length {
            return false;
        }
        let mut k: usize = 0;
        while k < length
            invariant
                k <= length,
                length == word@.len(),
                end - start == length,
                start <= end <= self.text().len(),
                forall|m: int| 0 <= m < k ==> self.text()[start + m] == word@[m],
            decreases length - k,
        {
            if self.chars[start + k] != word.get_char(k) {
                return false;
            }
            k = k + 1;
        }
        assert(self.text().subrange(start as int, end as int) =~= word@);
        true
    }

    /// The word whose first character, at index `start`, was consumed: a
    /// keyword or an identifier.
    fn identify_keyword_or_id(&mut self, start: usize) -> (ty: TokenType)
        requires
            old(self).wf(),
            old(self).position() == start + 1,
        ensures
            final(self).wf(),
            final(self).text() == old(self).text(),
            final(self).file() == old(self).file(),
            final(self).position() == scan_word(old(self).text(), start as int).end,
            ty@ == scan_word(old(self).text(), start as int).ty,
            old(self).index <= final(self).index,
    {
        self.skip_run(CharClass::IdentPart);
        proof {
            lemma_run_end_bounds(self.text(), start + 1, CharClass::IdentPart);
        }
        let end = self.pos;
        if self.spells(start, end, "var") {
            TokenType::KVariable
        } else if self.spells(start, end, "mut") {
            TokenType::KMutable
        } else if self.spells(start, end, "const") {
            TokenType::KConstant
        } else if self.spells(start, end, "func") {
            TokenType::KFunction
        } else if self.spells(start, end, "struct") {
            TokenType::KStruct
        } else if self.spells(start, end, "class") {
            TokenType::KClass
        } else if self.spells(start, end, "return") {
            TokenType::KReturn
        } else {
            TokenType::Identifier(string_of(&self.chars, start, end))
        }
    }

    /// The number whose first digit, at index `start`, was consumed.
    fn identify_number(&mut self, start: usize) -> (ty: TokenType)
        requires
            old(self).wf(),
            old(self).position() == start + 1,
            is_digit(old(self).text()[start as int]),
        ensures
            final(self).wf(),
            final(self).text() == old(self).text(),
            final(self).file() == old(self).file(),
            final(self).position() == scan_number(old(self).text(), start as int).end,
            ty@ == scan_number(old(self).text(), start as int).ty,
            old(self).index <= final(self).index,
    {
        self.skip_run(CharClass::Digit);
        proof {
            lemma_run_end_bounds(self.text(), start + 1, CharClass::Digit);
        }
        let whole = self.pos;
        let dot = self.follows('.');
        let range = whole < self.chars.len() && match self.char_at(whole + 1) {
            Some(c) => c == '.',
            None => false,
        };
        if dot && !range {
            self.advance();
            self.skip_run(CharClass::Digit);
            proof {
                lemma_run_end_bounds(self.text(), whole + 1, CharClass::Digit);
            }
            TokenType::Literal(LiteralKind::Float(string_of(&self.chars, start, self.pos)))
        } else {
            TokenType::Literal(LiteralKind::Integer(string_of(&self.chars, start, whole)))
        }
    }
    /// The escape `\xNN` whose first two characters, of which the backslash
    /// is at the byte offset `from`, were consumed.
    fn identify_hex_escape(&mut self, from: usize) -> (escape: Result<char, Diagnostic>)
        requires
            old(self).wf(),
            old(self).position() >= 2,
            from == offset_of(old(self).text(), old(self).position() - 2),
        ensures
            final(self).wf(),
            final(self).text() == old(self).text(),
            final(self).file() == old(self).file(),
            old(self).index <= final(self).index,
            match scan_hex_escape(old(self).text(), old(self).position() - 2) {
                Escape::Char { value, end } => escape == Ok::<char, Diagnostic>(value)
                    && final(self).position() == end,
                Escape::Error(error) => escape is Err && escape->Err_0@ == error_at(
                    error.message,
                    span_of(old(self).text(), old(self).file(), error.start, error.end),
                ) && final(self).position() == error.end,
            },
    {
        proof {
            lemma_offset_monotonic(self.text(), self.position() - 2, self.position());
        }
        let first = self.peek();
        self.advance();
        let second = self.peek();
        self.advance();
        match (first, second) {
            (Some(high), Some(low)) => {
                match (hex_digit(high), hex_digit(low)) {
                    (Some(h), Some(l)) => {
                        let byte: u8 = (h * 16 + l) as u8;
                        Ok(byte as char)
                    },
                    _ => Err(self.error(String::from_str("Invalid hex escape"), self.span_from(from))),
                }
            },
            _ => Err(self.error(String::from_str("Incomplete hex escape"), self.span_from(from))),
        }
    }

    /// The escape `\u{...}` whose first two characters, of which the
    /// backslash is at the byte offset `from`, were consumed.
    fn identify_unicode_escape(&mut self, from: usize) -> (escape: Result<char, Diagnostic>)
        requires
            old(self).wf(),
            old(self).position() >= 2,
            from == offset_of(old(self).text(), old(self).position() - 2),
        ensures
            final(self).wf(),
            final(self).text() == old(self).text(),
            final(self).file() == old(self).file(),
            old(self).index <= final(self).index,
            match scan_unicode_escape(old(self).text(), old(self).position() - 2) {
                Escape::Char { value, end } => escape == Ok::<char, Diagnostic>(value)
                    && final(self).position() == end,
                Escape::Error(error) => escape is Err && escape->Err_0@ == error_at(
                    error.message,
                    span_of(old(self).text(), old(self).file(), error.start, error.end),
                ) && final(self).position() == error.end,
            },
    {
        proof {
            lemma_offset_monotonic(self.text(), self.position() - 2, self.position());
        }
        if !self.follows('{') {
            return Err(self.error(String::from_str("Expected '{' after \\u"), self.span_from(from)));
        }
        self.advance();
        let first: usize = self.pos;
        let mut code: u32 = 0;
        let mut too_large = false;
        proof {
            lemma_run_end_bounds(self.text(), first as int, CharClass::HexDigit);
        }
        loop
            invariant
                self.wf(),
                self.text() == old(self).text(),
                self.file() == old(self).file(),
                old(self).index <= self.index,
                first == old(self).position() + 1,
                first <= self.position() <= self.text().len(),
                run_end(self.text(), self.position(), CharClass::HexDigit) == run_end(
                    self.text(),
                    first as int,
                    CharClass::HexDigit,
                ),
                too_large ==> hex_value(self.text().subrange(first as int, self.position()))
                    > 0x10FFFF,
                !too_large ==> code == hex_value(
                    self.text().subrange(first as int, self.position()),
                ),
                code <= 0x10FFFF,
            ensures
                self.wf(),
                self.text() == old(self).text(),
                self.file() == old(self).file(),
                old(self).index <= self.index,
                first <= self.position() <= self.text().len(),
                self.position() == run_end(self.text(), first as int, CharClass::HexDigit),
                too_large ==> hex_value(self.text().subrange(first as int, self.position()))
                    > 0x10FFFF,
                !too_large ==> code == hex_value(
                    self.text().subrange(first as int, self.position()),
                ),
                code <= 0x10FFFF,
            decreases self.text().len() - self.position(),
        {
            let digit = match self.peek() {
                Some(c) => hex_digit(c),
                None => None,
            };
            match digit {
                Some(d) => {
                    proof {
                        let read = self.text().subrange(first as int, self.position());
                        let more = self.text().subrange(first as int, self.position() + 1);
                        assert(more.drop_last() =~= read);
                    }
                    if !too_large {
                        let wider: u32 = code * 16 + d;
                        if wider > 0x10FFFF {
                            too_large = true;
                        } else {
                            code = wider;
                        }
                    }
                    self.advance();
                },
                None => {
                    break ;
                },
            }
        }
        let close: usize = self.pos;
        if !self.follows('}') {
            return Err(self.error(String::from_str("Invalid Unicode escape"), self.span_from(from)));
        }
        self.advance();
        if close == first {
            return Err(self.error(String::from_str("Invalid Unicode escape"), self.span_from(from)));
        }
        let value = if too_large {
            None
        } else {
            char_from_code(code)
        };
        match value {
            Some(c) => {
                proof {
                    vstd::utf8::char_u32_cast(c, code);
                }
                Ok(c)
            },
            None => Err(
                self.error(String::from_str("Invalid Unicode code point"), self.span_from(from)),
            ),
        }
    }

    /// The escape sequence whose backslash is the next character.
    fn identify_escape(&mut self) -> (escape: Result<char, Diagnostic>)
        requires
            old(self).wf(),
            old(self).position() < old(self).text().len(),
        ensures
            final(self).wf(),
            final(self).text() == old(self).text(),
            final(self).file() == old(self).file(),
            old(self).index <= final(self).index,
            match scan_escape(old(self).text(), old(self).position()) {
                Escape::Char { value, end } => escape == Ok::<char, Diagnostic>(value)
                    && final(self).position() == end,
                Escape::Error(error) => escape is Err && escape->Err_0@ == error_at(
                    error.message,
                    span_of(old(self).text(), old(self).file(), error.start, error.end),
                ) && final(self).position() == error.end,
            },
    {
        let from: usize = self.index;
        self.advance();
        let code = match self.peek() {
            Some(c) => c,
            None => {
                return Err(
                    self.error(
                        String::from_str("Unexpected end of input after \\"),
                        self.span_from(from),
                    ),
                );
            },
        };
        self.advance();
        if code == 'n' {
            Ok('\n')
        } else if code == 't' {
            Ok('\t')
        } else if code == 'r' {
            Ok('\r')
        } else if code == '\\' {
            Ok('\\')
        } else if code == '"' {
            Ok('"')
        } else if code == 'x' {
            self.identify_hex_escape(from)
        } else if code == 'u' {
            self.identify_unicode_escape(from)
        } else {
            let mut message = String::from_str("Unknown escape: \\");
            push_char(&mut message, code);
            Err(self.error(message, self.span_from(from)))
        }
    }

    /// The string literal whose opening quote, at index `open` and byte
    /// offset `from`, was consumed: its value, or the error that ends it.
    fn identify_string_literal(&mut self, open: usize, from: usize) -> (literal: Result<
        String,
        Diagnostic,
    >)
        requires
            old(self).wf(),
            old(self).position() == open + 1,
            from == offset_of(old(self).text(), open as int),
        ensures
            final(self).wf(),
            final(self).text() == old(self).text(),
            final(self).file() == old(self).file(),
            old(self).index <= final(self).index,
            ({
                let found = scan_string(old(self).text(), open as int, open + 1, Seq::empty());
                &&& final(self).position() == found.end
                &&& match literal {
                    Ok(value) => found.error is None && found.ty == TokenTypeView::Literal(
                        LiteralKindView::String(value@),
                    ),
                    Err(diagnostic) => found.ty == TokenTypeView::Unknown && found.error is Some
                        && diagnostic@ == error_at(
                        found.error->0.message,
                        span_of(
                            old(self).text(),
                            old(self).file(),
                            found.error->0.start,
                            found.error->0.end,
                        ),
                    ),
                }
            }),
    {
        let mut value = String::new();
        let ghost s = self.text();
        proof {
            lemma_offset_monotonic(s, open as int, open + 1);
        }
        loop
            invariant
                self.wf(),
                self.text() == s,
                s == old(self).text(),
                self.file() == old(self).file(),
                old(self).index <= self.index,
                from <= self.index,
                from == offset_of(s, open as int),
                open < self.position() <= s.len(),
                scan_string(s, open as int, self.position(), value@) == scan_string(
                    s,
                    open as int,
                    open + 1,
                    Seq::empty(),
                ),
            decreases s.len() - self.position(),
        {
            let c = match self.peek() {
                Some(c) => c,
                None => {
                    return Err(
                        self.error(
                            String::from_str("Unterminated string literal"),
                            self.span_from(from),
                        ),
                    );
                },
            };
            if c == '"' {
                self.advance();
                return Ok(value);
            } else if c == '\\' {
                proof {
                    lemma_escape_advances(s, self.position());
                }
                match self.identify_escape() {
                    Ok(denoted) => {
                        push_char(&mut value, denoted);
                    },
                    Err(diagnostic) => {
                        return Err(diagnostic);
                    },
                }
            } else {
                push_char(&mut value, c);
                self.advance();
            }
        }
    }

    /// The character literal whose opening quote, at the byte offset `from`,
    /// was consumed. A malformed literal is reported at the quote.
    fn identify_char_literal(&mut self, from: usize, reporter: &mut DiagnosticReporter) -> (ty:
        TokenType)
        requires
            old(self).wf(),
            old(reporter).wf(),
            old(self).position() >= 1,
            old(self).text()[old(self).position() - 1] == '\'',
            from == offset_of(old(self).text(), old(self).position() - 1),
        ensures
            final(self).wf(),
            final(reporter).wf(),
            final(self).text() == old(self).text(),
            final(self).file() == old(self).file(),
            old(self).index <= final(self).index,
            ({
                let found = scan_char(old(self).text(), old(self).position() - 1);
                &&& final(self).position() == found.end
                &&& ty@ == found.ty
                &&& final(reporter)@ == old(reporter)@ + match found.error {
                    Some(error) => seq![
                        error_at(
                            error.message,
                            span_of(old(self).text(), old(self).file(), error.start, error.end),
                        ),
                    ],
                    None => Seq::empty(),
                }
            }),
    {
        proof {
            lemma_offset_monotonic(self.text(), self.position() - 1, self.position());
        }
        let quote = self.span_from(from);
        let closed = match self.peek() {
            Some(c) => {
                if c != '\\' {
                    self.advance();
                    if self.follows('\'') {
                        self.advance();
                        Some(c)
                    } else {
                        None
                    }
                } else {
                    None
                }
            },
            None => None,
        };
        match closed {
            Some(c) => {
                TokenType::Literal(LiteralKind::Char(c))
            },
            None => {
                let diagnostic = self.error(String::from_str("expected end of char quote"), quote);
                reporter.add(diagnostic);
                TokenType::Unknown
            },
        }
    }

    /// The next token, or nothing when only whitespace is left. A lexical
    /// error is added to `reporter` and gives an `Unknown` token.
    pub fn next(&mut self, reporter: &mut DiagnosticReporter) -> (token: Option<Token>)
        requires
            old(self).wf(),
            old(reporter).wf(),
        ensures
            final(self).wf(),
            final(reporter).wf(),
            final(self).text() == old(self).text(),
            final(self).file() == old(self).file(),
            0 <= old(self).position() <= final(self).position() <= old(self).text().len(),
            ({
                let s = old(self).text();
                let start = run_end(s, old(self).position(), CharClass::Space);
                match token {
                    None => {
                        &&& start >= s.len()
                        &&& final(self).position() == s.len()
                        &&& final(reporter)@ == old(reporter)@
                    },
                    Some(t) => {
                        &&& old(self).position() <= start < scan(s, start).end <= s.len()
                        &&& t@ == token_at(s, old(self).file(), start)
                        &&& t.span.start < t.span.end <= byte_len(s)
                        &&& final(self).position() == scan(s, start).end
                        &&& final(reporter)@ == old(reporter)@ + diagnostics_at(
                            s,
                            old(self).file(),
                            start,
                        )
                    },
                }
            }),
    {
        proof {
            lemma_run_end_bounds(self.text(), self.position(), CharClass::Space);
        }
        self.skip_run(CharClass::Space);
        let c = match self.peek() {
            Some(c) => c,
            None => {
                return None;
            },
        };
        let start: usize = self.pos;
        let from: usize = self.index;
        let ghost s = self.text();
        self.advance();
        proof {
            lemma_offset_monotonic(s, start as int, start + 1);
        }
        let ty = if c == ';' {
            TokenType::Semicolon
        } else if c == '(' {
            TokenType::LParen
        } else if c == ')' {
            TokenType::RParen
        } else if c == '{' {
            TokenType::LCurly
        } else if c == '}' {
            TokenType::RCurly
        } else if c == '[' {
            TokenType::LBoxed
        } else if c == ']' {
            TokenType::RBoxed
        } else if c == ',' {
            TokenType::Comma
        } else if c == ':' {
            TokenType::Colon
        } else if c == '+' {
            TokenType::Plus
        } else if c == '*' {
            TokenType::Asterisk
        } else if c == '/' {
            TokenType::Slash
        } else if c == '<' {
            if self.follows('=') {
                self.advance();
                TokenType::LTEq
            } else {
                TokenType::LT
            }
        } else if c == '>' {
            if self.follows('=') {
                self.advance();
                TokenType::GTEq
            } else {
                TokenType::GT
            }
        } else if c == '!' {
            if self.follows('=') {
                self.advance();
                TokenType::NotEq
            } else {
                TokenType::Not
            }
        } else if c == '=' {
            if self.follows('=') {
                self.advance();
                TokenType::DoubleEq
            } else if self.follows('>') {
                self.advance();
                TokenType::RightFatArrow
            } else {
                TokenType::Eq
            }
        } else if c == '-' {
            if self.follows('>') {
                self.advance();
                TokenType::RightArrow
            } else {
                TokenType::Minus
            }
        } else if c == '.' {
            if self.follows('.') {
                self.advance();
                TokenType::DoubleDot
            } else {
                TokenType::Dot
            }
        } else if c == '\'' {
            self.identify_char_literal(from, reporter)
        } else if c == '"' {
            match self.identify_string_literal(start, from) {
                Ok(value) => TokenType::Literal(LiteralKind::String(value)),
                Err(diagnostic) => {
                    reporter.add(diagnostic);
                    TokenType::Unknown
                },
            }
        } else if char_is_ident_start(c) {
            self.identify_keyword_or_id(start)
        } else if char_is_digit(c) {
            self.identify_number(start)
        } else {
            let mut message = String::from_str("Unknown token used: '");
            push_char(&mut message, c);
            push_char(&mut message, '\'');
            let diagnostic = self.error(message, self.span_from(from));
            reporter.add(diagnostic);
            TokenType::Unknown
        };
        proof {
            lemma_scan_advances(s, start as int);
            lemma_offset_monotonic(s, start as int, self.position());
        }
        Some(Token::new(ty, self.span_from(from)))
    }
}

} // verus!
