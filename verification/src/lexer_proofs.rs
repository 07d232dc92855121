//! Theorems about the token sequence of a text.

use vstd::prelude::*;
use vstd::string::*;
use crate::lexer::{
    diagnostics_at, eof_token, in_class, is_digit, is_ident_part, is_ident_start, is_space,
    lemma_escape_advances, lemma_run_end_bounds, lemma_scan_advances, lemma_string_advances, lex,
    lex_from, run_end, scan, scan_char, scan_escape, scan_number, scan_string,
    scan_symbol, scan_word, token_at, CharClass, Escape, LexError, Lexeme,
};
use crate::text::{byte_len, char_index, lemma_char_index_of_offset, lemma_offset_monotonic};
use crate::utils::{fixed_lexeme, TokenTypeView};

verus! {

/// A string literal is a string token or an `Unknown` token.
pub proof fn lemma_string_type(s: Seq<char>, open: int, j: int, value: Seq<char>)
    requires
        0 <= open < j <= s.len(),
    ensures
        scan_string(s, open, j, value).ty is Literal || scan_string(s, open, j, value).ty
            is Unknown,
    decreases s.len() - j,
{
    if j < s.len() && s[j] == '\\' {
        lemma_escape_advances(s, j);
        match scan_escape(s, j) {
            Escape::Char { value: c, end } => {
                lemma_string_type(s, open, end, value.push(c));
            },
            Escape::Error(error) => {},
        }
    } else if j < s.len() && s[j] != '"' {
        lemma_string_type(s, open, j + 1, value.push(s[j]));
    }
}

/// No token that is read from the text is the end-of-input token.
pub proof fn lemma_scan_never_eof(s: Seq<char>, i: int)
    requires
        0 <= i < s.len(),
    ensures
        !(scan(s, i).ty is Eof),
{
    if s[i] == '"' {
        lemma_string_type(s, i, i + 1, Seq::empty());
    }
}

/// Lexing ends every token sequence with the end-of-input token, and that
/// token occurs nowhere else in it, whatever the text holds.
pub proof fn lemma_eof_exactly_once(s: Seq<char>, file_id: usize, i: int)
    ensures
        lex_from(s, file_id, i).tokens.len() >= 1,
        lex_from(s, file_id, i).tokens.last() == eof_token(s, file_id),
        forall|k: int|
            0 <= k < lex_from(s, file_id, i).tokens.len() - 1 ==> !(#[trigger] lex_from(
                s,
                file_id,
                i,
            ).tokens[k].ty is Eof),
    decreases s.len() - i,
{
    let start = run_end(s, i, CharClass::Space);
    if 0 <= i && start < s.len() {
        lemma_run_end_bounds(s, i, CharClass::Space);
        lemma_scan_advances(s, start);
        lemma_scan_never_eof(s, start);
        lemma_eof_exactly_once(s, file_id, scan(s, start).end);
    }
}

/// The span of every token of a text lies within the bytes of the text and
/// does not end before it starts.
pub proof fn lemma_spans_within(s: Seq<char>, file_id: usize, i: int)
    requires
        byte_len(s) <= usize::MAX,
        0 <= i <= s.len(),
    ensures
        forall|k: int|
            0 <= k < lex_from(s, file_id, i).tokens.len() ==> {
                let span = (#[trigger] lex_from(s, file_id, i).tokens[k]).span;
                span.start <= span.end <= byte_len(s)
            },
    decreases s.len() - i,
{
    let start = run_end(s, i, CharClass::Space);
    let n = s.len() as int;
    lemma_run_end_bounds(s, i, CharClass::Space);
    lemma_offset_monotonic(s, n, n);
    if start < s.len() {
        lemma_scan_advances(s, start);
        let end = scan(s, start).end;
        lemma_offset_monotonic(s, start, end);
        lemma_spans_within(s, file_id, end);
        let rest = lex_from(s, file_id, end).tokens;
        assert forall|k: int| 0 <= k < lex_from(s, file_id, i).tokens.len() implies {
            let span = (#[trigger] lex_from(s, file_id, i).tokens[k]).span;
            span.start <= span.end <= byte_len(s)
        } by {
            if k > 0 {
                assert(lex_from(s, file_id, i).tokens[k] == rest[k - 1]);
            }
        }
    }
}

/// An error with its indices counted from `a`.
pub open spec fn shift_error(error: LexError, a: int) -> LexError {
    LexError { message: error.message, start: error.start - a, end: error.end - a }
}

/// An escape with its indices counted from `a`.
pub open spec fn shift_escape(escape: Escape, a: int) -> Escape {
    match escape {
        Escape::Char { value, end } => Escape::Char { value, end: end - a },
        Escape::Error(error) => Escape::Error(shift_error(error, a)),
    }
}

/// A lexeme with its indices counted from `a`.
pub open spec fn shift_lexeme(found: Lexeme, a: int) -> Lexeme {
    Lexeme {
        ty: found.ty,
        end: found.end - a,
        error: match found.error {
            Some(error) => Some(shift_error(error, a)),
            None => None,
        },
    }
}

/// Where an escape ends or is given up.
pub open spec fn escape_end(escape: Escape) -> int {
    match escape {
        Escape::Char { value, end } => end,
        Escape::Error(error) => error.end,
    }
}

/// In the piece of `s` from `a` to `b`, a run ends where it ends in `s`, or
/// at the end of the piece if that comes first.
pub proof fn lemma_run_end_in_piece(s: Seq<char>, a: int, b: int, j: int, class: CharClass)
    requires
        0 <= a <= j <= b <= s.len(),
    ensures
        run_end(s.subrange(a, b), j - a, class) == (if run_end(s, j, class) <= b {
            run_end(s, j, class)
        } else {
            b
        }) - a,
    decreases b - j,
{
    lemma_run_end_bounds(s, j, class);
    if j < b && in_class(s[j], class) {
        lemma_run_end_in_piece(s, a, b, j + 1, class);
    }
}

/// An escape that ends within the piece of `s` from `a` to `b` reads the same
/// in the piece as in `s`.
pub proof fn lemma_escape_in_piece(s: Seq<char>, a: int, b: int, j: int)
    requires
        0 <= a <= j < b <= s.len(),
        escape_end(scan_escape(s, j)) <= b,
    ensures
        scan_escape(s.subrange(a, b), j - a) == shift_escape(scan_escape(s, j), a),
{
    let piece = s.subrange(a, b);
    lemma_escape_advances(s, j);
    lemma_run_end_bounds(s, j + 3, CharClass::HexDigit);
    if j + 2 < s.len() && s[j + 1] == 'u' && s[j + 2] == '{' {
        let close = run_end(s, j + 3, CharClass::HexDigit);
        lemma_run_end_in_piece(s, a, b, j + 3, CharClass::HexDigit);
        if close < s.len() && s[close] == '}' {
            assert(piece.subrange(j + 3 - a, close - a) =~= s.subrange(j + 3, close));
        }
    }
}

/// A string literal that ends within the piece of `s` from `a` to `b` reads
/// the same in the piece as in `s`.
pub proof fn lemma_string_in_piece(
    s: Seq<char>,
    a: int,
    b: int,
    open: int,
    j: int,
    value: Seq<char>,
)
    requires
        0 <= a <= open < j <= b <= s.len(),
        scan_string(s, open, j, value).end <= b,
    ensures
        scan_string(s.subrange(a, b), open - a, j - a, value) == shift_lexeme(
            scan_string(s, open, j, value),
            a,
        ),
    decreases s.len() - j,
{
    lemma_string_advances(s, open, j, value);
    if j < s.len() && s[j] == '\\' {
        lemma_escape_advances(s, j);
        match scan_escape(s, j) {
            Escape::Char { value: c, end } => {
                lemma_string_advances(s, open, end, value.push(c));
                lemma_escape_in_piece(s, a, b, j);
                lemma_string_in_piece(s, a, b, open, end, value.push(c));
            },
            Escape::Error(error) => {
                lemma_escape_in_piece(s, a, b, j);
            },
        }
    } else if j < s.len() && s[j] != '"' {
        lemma_string_advances(s, open, j + 1, value.push(s[j]));
        lemma_string_in_piece(s, a, b, open, j + 1, value.push(s[j]));
    }
}

/// A punctuation mark or an operator, taken alone, reads as itself.
pub proof fn lemma_symbol_in_piece(s: Seq<char>, i: int)
    requires
        0 <= i < s.len(),
    ensures
        scan_symbol(s.subrange(i, scan_symbol(s, i).end), 0) == shift_lexeme(scan_symbol(s, i), i),
{
    let piece = s.subrange(i, scan_symbol(s, i).end);
    assert(piece[0] == s[i]);
}

/// A character literal, taken alone, reads as itself.
pub proof fn lemma_char_in_piece(s: Seq<char>, i: int)
    requires
        0 <= i < s.len(),
    ensures
        scan_char(s.subrange(i, scan_char(s, i).end), 0) == shift_lexeme(scan_char(s, i), i),
{
    let piece = s.subrange(i, scan_char(s, i).end);
    assert(piece[0] == s[i]);
}

/// A word, taken alone, reads as itself.
pub proof fn lemma_word_in_piece(s: Seq<char>, i: int)
    requires
        0 <= i < s.len(),
    ensures
        scan_word(s.subrange(i, scan_word(s, i).end), 0) == shift_lexeme(scan_word(s, i), i),
{
    let e = scan_word(s, i).end;
    let piece = s.subrange(i, e);
    lemma_run_end_bounds(s, i + 1, CharClass::IdentPart);
    lemma_run_end_in_piece(s, i, e, i + 1, CharClass::IdentPart);
    assert(piece.subrange(0, e - i) =~= s.subrange(i, e));
}

/// A number, taken alone, reads as itself.
pub proof fn lemma_number_in_piece(s: Seq<char>, i: int)
    requires
        0 <= i < s.len(),
    ensures
        scan_number(s.subrange(i, scan_number(s, i).end), 0) == shift_lexeme(scan_number(s, i), i),
{
    let e = scan_number(s, i).end;
    let piece = s.subrange(i, e);
    let whole = run_end(s, i, CharClass::Digit);
    lemma_run_end_bounds(s, i, CharClass::Digit);
    if whole < s.len() && s[whole] == '.' && !(whole + 1 < s.len() && s[whole + 1] == '.') {
        lemma_run_end_bounds(s, whole + 1, CharClass::Digit);
        lemma_run_end_in_piece(s, i, e, i, CharClass::Digit);
        lemma_run_end_in_piece(s, i, e, whole + 1, CharClass::Digit);
        assert(piece.subrange(0, e - i) =~= s.subrange(i, e));
    } else {
        lemma_run_end_in_piece(s, i, e, i, CharClass::Digit);
        assert(piece.subrange(0, whole - i) =~= s.subrange(i, whole));
    }
}

/// The characters of a token, taken alone, read as the same token: what
/// follows a token in the text has no part in it.
pub proof fn lemma_scan_in_piece(s: Seq<char>, i: int)
    requires
        0 <= i < s.len(),
    ensures
        scan(s.subrange(i, scan(s, i).end), 0) == shift_lexeme(scan(s, i), i),
{
    lemma_scan_advances(s, i);
    let e = scan(s, i).end;
    let c = s[i];
    assert(s.subrange(i, e)[0] == c);
    if c == '\'' {
        lemma_char_in_piece(s, i);
    } else if c == '"' {
        lemma_string_in_piece(s, i, e, i, i + 1, Seq::empty());
    } else if is_ident_start(c) {
        lemma_word_in_piece(s, i);
    } else if is_digit(c) {
        lemma_number_in_piece(s, i);
    } else {
        lemma_symbol_in_piece(s, i);
    }
}

/// A text that holds one token from its first to its last character has
/// that token, then the end-of-input token, and the diagnostics of that
/// token.
pub proof fn lemma_single_token(s: Seq<char>, file_id: usize)
    requires
        s.len() >= 1,
        !is_space(s[0]),
        scan(s, 0).end == s.len(),
    ensures
        lex(s, file_id).tokens == seq![token_at(s, file_id, 0), eof_token(s, file_id)],
        lex(s, file_id).diagnostics == diagnostics_at(s, file_id, 0),
{
    assert(lex_from(s, file_id, s.len() as int).tokens == seq![eof_token(s, file_id)]);
}

/// The piece of `s` that a span denotes: the characters that lie between
/// its two byte offsets.
pub open spec fn piece_at(s: Seq<char>, start: usize, end: usize) -> Seq<char> {
    s.subrange(char_index(s, start as nat) as int, char_index(s, end as nat) as int)
}

/// Lexing again the piece of the text that the span of a token denotes
/// gives a token of the same type first. Stated from index `i` on.
pub proof fn lemma_relex_from(s: Seq<char>, file_id: usize, i: int, k: int)
    requires
        byte_len(s) <= usize::MAX,
        0 <= i <= s.len(),
        0 <= k < lex_from(s, file_id, i).tokens.len(),
    ensures
        ({
            let token = lex_from(s, file_id, i).tokens[k];
            lex(piece_at(s, token.span.start, token.span.end), file_id).tokens[0].ty == token.ty
        }),
    decreases s.len() - i,
{
    let start = run_end(s, i, CharClass::Space);
    lemma_run_end_bounds(s, i, CharClass::Space);
    let n = s.len() as int;
    if start >= s.len() {
        lemma_offset_monotonic(s, n, n);
        lemma_char_index_of_offset(s, n);
    } else {
        lemma_scan_advances(s, start);
        let e = scan(s, start).end;
        if k == 0 {
            lemma_offset_monotonic(s, start, e);
            lemma_offset_monotonic(s, e, n);
            lemma_char_index_of_offset(s, start);
            lemma_char_index_of_offset(s, e);
            lemma_scan_in_piece(s, start);
            lemma_single_token(s.subrange(start, e), file_id);
        } else {
            lemma_relex_from(s, file_id, e, k - 1);
        }
    }
}

/// Lexing again the piece of the text that the span of a token denotes
/// gives a token of the same type first.
pub proof fn lemma_relex(s: Seq<char>, file_id: usize, k: int)
    requires
        byte_len(s) <= usize::MAX,
        0 <= k < lex(s, file_id).tokens.len(),
    ensures
        ({
            let token = lex(s, file_id).tokens[k];
            lex(piece_at(s, token.span.start, token.span.end), file_id).tokens[0].ty == token.ty
        }),
{
    lemma_relex_from(s, file_id, 0, k);
}

/// A run that meets only characters of its class ends with the text.
pub proof fn lemma_run_to_end(s: Seq<char>, i: int, class: CharClass)
    requires
        0 <= i <= s.len(),
        forall|k: int| i <= k < s.len() ==> in_class(#[trigger] s[k], class),
    ensures
        run_end(s, i, class) == s.len(),
    decreases s.len() - i,
{
    if i < s.len() {
        lemma_run_to_end(s, i + 1, class);
    }
}

/// The characters of the keywords.
pub proof fn lemma_keyword_texts()
    ensures
        "var"@ == seq!['v', 'a', 'r'],
        "mut"@ == seq!['m', 'u', 't'],
        "const"@ == seq!['c', 'o', 'n', 's', 't'],
        "func"@ == seq!['f', 'u', 'n', 'c'],
        "struct"@ == seq!['s', 't', 'r', 'u', 'c', 't'],
        "class"@ == seq!['c', 'l', 'a', 's', 's'],
        "return"@ == seq!['r', 'e', 't', 'u', 'r', 'n'],
{
    reveal_strlit("var");
    reveal_strlit("mut");
    reveal_strlit("const");
    reveal_strlit("func");
    reveal_strlit("struct");
    reveal_strlit("class");
    reveal_strlit("return");
}

/// Lexing the text of a keyword gives the keyword, and then the end of
/// input, without a diagnostic.
pub proof fn lemma_keyword_round_trip(ty: TokenTypeView, file_id: usize)
    requires
        ty is KVariable || ty is KMutable || ty is KConstant || ty is KFunction || ty is KStruct
            || ty is KClass || ty is KReturn,
    ensures
        ({
            let out = lex(fixed_lexeme(ty)->0, file_id);
            &&& out.tokens.len() == 2
            &&& out.tokens[0].ty == ty
            &&& out.tokens[1].ty is Eof
            &&& out.diagnostics.len() == 0
        }),
{
    let text = fixed_lexeme(ty)->0;
    lemma_keyword_texts();
    assert forall|k: int| 1 <= k < text.len() implies in_class(
        #[trigger] text[k],
        CharClass::IdentPart,
    ) by {
        assert(is_ident_part(text[k]));
    }
    lemma_run_to_end(text, 1, CharClass::IdentPart);
    assert(text.subrange(0, text.len() as int) =~= text);
    lemma_single_token(text, file_id);
}

/// Lexing the text of a punctuation mark or an operator gives that token,
/// and then the end of input, without a diagnostic.
pub proof fn lemma_symbol_round_trip(ty: TokenTypeView, file_id: usize)
    requires
        fixed_lexeme(ty) is Some,
        !(ty is KVariable || ty is KMutable || ty is KConstant || ty is KFunction || ty is KStruct
            || ty is KClass || ty is KReturn),
    ensures
        ({
            let out = lex(fixed_lexeme(ty)->0, file_id);
            &&& out.tokens.len() == 2
            &&& out.tokens[0].ty == ty
            &&& out.tokens[1].ty is Eof
            &&& out.diagnostics.len() == 0
        }),
{
    let text = fixed_lexeme(ty)->0;
    match ty {
        TokenTypeView::LParen => reveal_strlit("("),
        TokenTypeView::RParen => reveal_strlit(")"),
        TokenTypeView::LCurly => reveal_strlit("{"),
        TokenTypeView::RCurly => reveal_strlit("}"),
        TokenTypeView::LBoxed => reveal_strlit("["),
        TokenTypeView::RBoxed => reveal_strlit("]"),
        TokenTypeView::Dot => reveal_strlit("."),
        TokenTypeView::LT => reveal_strlit("<"),
        TokenTypeView::GT => reveal_strlit(">"),
        TokenTypeView::Eq => reveal_strlit("="),
        TokenTypeView::Not => reveal_strlit("!"),
        TokenTypeView::Plus => reveal_strlit("+"),
        TokenTypeView::Minus => reveal_strlit("-"),
        TokenTypeView::Asterisk => reveal_strlit("*"),
        TokenTypeView::Slash => reveal_strlit("/"),
        TokenTypeView::Colon => reveal_strlit(":"),
        TokenTypeView::Comma => reveal_strlit(","),
        TokenTypeView::Semicolon => reveal_strlit(";"),
        TokenTypeView::DoubleDot => reveal_strlit(".."),
        TokenTypeView::DoubleEq => reveal_strlit("=="),
        TokenTypeView::NotEq => reveal_strlit("!="),
        TokenTypeView::LTEq => reveal_strlit("<="),
        TokenTypeView::GTEq => reveal_strlit(">="),
        TokenTypeView::RightFatArrow => reveal_strlit("=>"),
        TokenTypeView::RightArrow => reveal_strlit("->"),
        _ => {},
    }
    lemma_single_token(text, file_id);
}

/// Lexing the text that a punctuation mark, an operator or a keyword is
/// always written with gives a token of that type, and then the end of
/// input, without a diagnostic.
pub proof fn lemma_fixed_lexeme_round_trip(ty: TokenTypeView, file_id: usize)
    requires
        fixed_lexeme(ty) is Some,
    ensures
        ({
            let out = lex(fixed_lexeme(ty)->0, file_id);
            &&& out.tokens.len() == 2
            &&& out.tokens[0].ty == ty
            &&& out.tokens[1].ty is Eof
            &&& out.diagnostics.len() == 0
        }),
{
    if ty is KVariable || ty is KMutable || ty is KConstant || ty is KFunction || ty is KStruct
        || ty is KClass || ty is KReturn {
        lemma_keyword_round_trip(ty, file_id);
    } else {
        lemma_symbol_round_trip(ty, file_id);
    }
}

} // verus!
