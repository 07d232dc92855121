//! Source positions and tokens.

use vstd::prelude::*;
use vstd::string::*;
use crate::text::push_char;

verus! {

/// A byte range of one source file. `start` is the offset of the first byte,
/// `end` the offset just past the last one.
#[derive(Debug, Copy, Clone, PartialEq, Eq, Structural)]
pub struct Span {
    pub start: usize,
    pub end: usize,
    pub file_id: usize,
}

impl Span {
    /// A span never ends before it starts.
    pub open spec fn well_formed(&self) -> bool {
        self.start <= self.end
    }

    pub fn new(start: usize, end: usize, file_id: usize) -> (span: Self)
        requires
            start <= end,
        ensures
            span == (Span { start, end, file_id }),
            span.well_formed(),
    {
        Self { start, end, file_id }
    }
}

impl Default for Span {
    fn default() -> (span: Self)
        ensures
            span == (Span { start: 0, end: 0, file_id: 0 }),
    {
        Self { start: 0, end: 0, file_id: 0 }
    }
}

/// A literal as the lexer found it. Numbers keep the text they were written
/// with; characters and strings hold the value that the text denotes.
#[derive(Debug, PartialEq, Eq)]
pub enum LiteralKind {
    Integer(String),
    Float(String),
    Char(char),
    String(String),
}

/// Mathematical model of a [`LiteralKind`].
pub enum LiteralKindView {
    Integer(Seq<char>),
    Float(Seq<char>),
    Char(char),
    String(Seq<char>),
}

impl View for LiteralKind {
    type V = LiteralKindView;

    open spec fn view(&self) -> LiteralKindView {
        match self {
            LiteralKind::Integer(text) => LiteralKindView::Integer(text@),
            LiteralKind::Float(text) => LiteralKindView::Float(text@),
            LiteralKind::Char(c) => LiteralKindView::Char(*c),
            LiteralKind::String(text) => LiteralKindView::String(text@),
        }
    }
}

impl Clone for LiteralKind {
    fn clone(&self) -> (copy: Self)
        ensures
            copy == *self,
    {
        match self {
            LiteralKind::Integer(text) => LiteralKind::Integer(text.clone()),
            LiteralKind::Float(text) => LiteralKind::Float(text.clone()),
            LiteralKind::Char(c) => LiteralKind::Char(*c),
            LiteralKind::String(text) => LiteralKind::String(text.clone()),
        }
    }
}

/// The lexical category of a token.
#[derive(Debug, PartialEq, Eq)]
pub enum TokenType {
    LParen,
    RParen,
    LCurly,
    RCurly,
    LBoxed,
    RBoxed,
    Dot,
    DoubleDot,
    LT,
    GT,
    Eq,
    DoubleEq,
    Not,
    NotEq,
    LTEq,
    GTEq,
    RightFatArrow,
    RightArrow,
    Plus,
    Minus,
    Asterisk,
    Slash,
    Colon,
    Comma,
    Semicolon,
    KVariable,
    KMutable,
    KConstant,
    KFunction,
    KStruct,
    KClass,
    KReturn,
    Literal(LiteralKind),
    Identifier(String),
    Unknown,
    Eof,
}

/// Mathematical model of a [`TokenType`].
pub enum TokenTypeView {
    LParen,
    RParen,
    LCurly,
    RCurly,
    LBoxed,
    RBoxed,
    Dot,
    DoubleDot,
    LT,
    GT,
    Eq,
    DoubleEq,
    Not,
    NotEq,
    LTEq,
    GTEq,
    RightFatArrow,
    RightArrow,
    Plus,
    Minus,
    Asterisk,
    Slash,
    Colon,
    Comma,
    Semicolon,
    KVariable,
    KMutable,
    KConstant,
    KFunction,
    KStruct,
    KClass,
    KReturn,
    Literal(LiteralKindView),
    Identifier(Seq<char>),
    Unknown,
    Eof,
}

impl View for TokenType {
    type V = TokenTypeView;

    open spec fn view(&self) -> TokenTypeView {
        match self {
            TokenType::LParen => TokenTypeView::LParen,
            TokenType::RParen => TokenTypeView::RParen,
            TokenType::LCurly => TokenTypeView::LCurly,
            TokenType::RCurly => TokenTypeView::RCurly,
            TokenType::LBoxed => TokenTypeView::LBoxed,
            TokenType::RBoxed => TokenTypeView::RBoxed,
            TokenType::Dot => TokenTypeView::Dot,
            TokenType::DoubleDot => TokenTypeView::DoubleDot,
            TokenType::LT => TokenTypeView::LT,
            TokenType::GT => TokenTypeView::GT,
            TokenType::Eq => TokenTypeView::Eq,
            TokenType::DoubleEq => TokenTypeView::DoubleEq,
            TokenType::Not => TokenTypeView::Not,
            TokenType::NotEq => TokenTypeView::NotEq,
            TokenType::LTEq => TokenTypeView::LTEq,
            TokenType::GTEq => TokenTypeView::GTEq,
            TokenType::RightFatArrow => TokenTypeView::RightFatArrow,
            TokenType::RightArrow => TokenTypeView::RightArrow,
            TokenType::Plus => TokenTypeView::Plus,
            TokenType::Minus => TokenTypeView::Minus,
            TokenType::Asterisk => TokenTypeView::Asterisk,
            TokenType::Slash => TokenTypeView::Slash,
            TokenType::Colon => TokenTypeView::Colon,
            TokenType::Comma => TokenTypeView::Comma,
            TokenType::Semicolon => TokenTypeView::Semicolon,
            TokenType::KVariable => TokenTypeView::KVariable,
            TokenType::KMutable => TokenTypeView::KMutable,
            TokenType::KConstant => TokenTypeView::KConstant,
            TokenType::KFunction => TokenTypeView::KFunction,
            TokenType::KStruct => TokenTypeView::KStruct,
            TokenType::KClass => TokenTypeView::KClass,
            TokenType::KReturn => TokenTypeView::KReturn,
            TokenType::Literal(kind) => TokenTypeView::Literal(kind@),
            TokenType::Identifier(name) => TokenTypeView::Identifier(name@),
            TokenType::Unknown => TokenTypeView::Unknown,
            TokenType::Eof => TokenTypeView::Eof,
        }
    }
}

impl Clone for TokenType {
    fn clone(&self) -> (copy: Self)
        ensures
            copy == *self,
    {
        match self {
            TokenType::LParen => TokenType::LParen,
            TokenType::RParen => TokenType::RParen,
            TokenType::LCurly => TokenType::LCurly,
            TokenType::RCurly => TokenType::RCurly,
            TokenType::LBoxed => TokenType::LBoxed,
            TokenType::RBoxed => TokenType::RBoxed,
            TokenType::Dot => TokenType::Dot,
            TokenType::DoubleDot => TokenType::DoubleDot,
            TokenType::LT => TokenType::LT,
            TokenType::GT => TokenType::GT,
            TokenType::Eq => TokenType::Eq,
            TokenType::DoubleEq => TokenType::DoubleEq,
            TokenType::Not => TokenType::Not,
            TokenType::NotEq => TokenType::NotEq,
            TokenType::LTEq => TokenType::LTEq,
            TokenType::GTEq => TokenType::GTEq,
            TokenType::RightFatArrow => TokenType::RightFatArrow,
            TokenType::RightArrow => TokenType::RightArrow,
            TokenType::Plus => TokenType::Plus,
            TokenType::Minus => TokenType::Minus,
            TokenType::Asterisk => TokenType::Asterisk,
            TokenType::Slash => TokenType::Slash,
            TokenType::Colon => TokenType::Colon,
            TokenType::Comma => TokenType::Comma,
            TokenType::Semicolon => TokenType::Semicolon,
            TokenType::KVariable => TokenType::KVariable,
            TokenType::KMutable => TokenType::KMutable,
            TokenType::KConstant => TokenType::KConstant,
            TokenType::KFunction => TokenType::KFunction,
            TokenType::KStruct => TokenType::KStruct,
            TokenType::KClass => TokenType::KClass,
            TokenType::KReturn => TokenType::KReturn,
            TokenType::Literal(kind) => TokenType::Literal(kind.clone()),
            TokenType::Identifier(name) => TokenType::Identifier(name.clone()),
            TokenType::Unknown => TokenType::Unknown,
            TokenType::Eof => TokenType::Eof,
        }
    }
}

/// The text that a punctuation mark, an operator or a keyword is always
/// written with. Literals, identifiers and the two sentinels have none.
pub open spec fn fixed_lexeme(ty: TokenTypeView) -> Option<Seq<char>> {
    match ty {
        TokenTypeView::LParen => Some("("@),
        TokenTypeView::RParen => Some(")"@),
        TokenTypeView::LCurly => Some("{"@),
        TokenTypeView::RCurly => Some("}"@),
        TokenTypeView::LBoxed => Some("["@),
        TokenTypeView::RBoxed => Some("]"@),
        TokenTypeView::Dot => Some("."@),
        TokenTypeView::DoubleDot => Some(".."@),
        TokenTypeView::LT => Some("<"@),
        TokenTypeView::GT => Some(">"@),
        TokenTypeView::Eq => Some("="@),
        TokenTypeView::DoubleEq => Some("=="@),
        TokenTypeView::Not => Some("!"@),
        TokenTypeView::NotEq => Some("!="@),
        TokenTypeView::LTEq => Some("<="@),
        TokenTypeView::GTEq => Some(">="@),
        TokenTypeView::RightFatArrow => Some("=>"@),
        TokenTypeView::RightArrow => Some("->"@),
        TokenTypeView::Plus => Some("+"@),
        TokenTypeView::Minus => Some("-"@),
        TokenTypeView::Asterisk => Some("*"@),
        TokenTypeView::Slash => Some("/"@),
        TokenTypeView::Colon => Some(":"@),
        TokenTypeView::Comma => Some(","@),
        TokenTypeView::Semicolon => Some(";"@),
        TokenTypeView::KVariable => Some("var"@),
        TokenTypeView::KMutable => Some("mut"@),
        TokenTypeView::KConstant => Some("const"@),
        TokenTypeView::KFunction => Some("func"@),
        TokenTypeView::KStruct => Some("struct"@),
        TokenTypeView::KClass => Some("class"@),
        TokenTypeView::KReturn => Some("return"@),
        TokenTypeView::Literal(_) => None,
        TokenTypeView::Identifier(_) => None,
        TokenTypeView::Unknown => None,
        TokenTypeView::Eof => None,
    }
}

/// How a token type is shown in a message: its fixed text where it has one,
/// the text of a number or an identifier, a character or a string between
/// its quotes, and a bracketed word for the two sentinels.
pub open spec fn describe(ty: TokenTypeView) -> Seq<char> {
    match ty {
        TokenTypeView::Literal(LiteralKindView::Integer(text)) => text,
        TokenTypeView::Literal(LiteralKindView::Float(text)) => text,
        TokenTypeView::Literal(LiteralKindView::Char(c)) => seq!['\'', c, '\''],
        TokenTypeView::Literal(LiteralKindView::String(text)) => seq!['"'] + text + seq!['"'],
        TokenTypeView::Identifier(name) => name,
        TokenTypeView::Unknown => "<unknown>"@,
        TokenTypeView::Eof => "<EOF>"@,
        _ => fixed_lexeme(ty).unwrap(),
    }
}

impl LiteralKind {
    /// Whether the two literals have the same model.
    pub fn same(&self, other: &LiteralKind) -> (answer: bool)
        ensures
            answer == (self@ == other@),
    {
        match (self, other) {
            (LiteralKind::Integer(a), LiteralKind::Integer(b)) => *a == *b,
            (LiteralKind::Float(a), LiteralKind::Float(b)) => *a == *b,
            (LiteralKind::Char(a), LiteralKind::Char(b)) => *a == *b,
            (LiteralKind::String(a), LiteralKind::String(b)) => *a == *b,
            _ => false,
        }
    }
}

impl TokenType {
    /// Whether the two token types have the same model.
    pub fn same(&self, other: &TokenType) -> (answer: bool)
        ensures
            answer == (self@ == other@),
    {
        match (self, other) {
            (TokenType::LParen, TokenType::LParen) => true,
            (TokenType::RParen, TokenType::RParen) => true,
            (TokenType::LCurly, TokenType::LCurly) => true,
            (TokenType::RCurly, TokenType::RCurly) => true,
            (TokenType::LBoxed, TokenType::LBoxed) => true,
            (TokenType::RBoxed, TokenType::RBoxed) => true,
            (TokenType::Dot, TokenType::Dot) => true,
            (TokenType::DoubleDot, TokenType::DoubleDot) => true,
            (TokenType::LT, TokenType::LT) => true,
            (TokenType::GT, TokenType::GT) => true,
            (TokenType::Eq, TokenType::Eq) => true,
            (TokenType::DoubleEq, TokenType::DoubleEq) => true,
            (TokenType::Not, TokenType::Not) => true,
            (TokenType::NotEq, TokenType::NotEq) => true,
            (TokenType::LTEq, TokenType::LTEq) => true,
            (TokenType::GTEq, TokenType::GTEq) => true,
            (TokenType::RightFatArrow, TokenType::RightFatArrow) => true,
            (TokenType::RightArrow, TokenType::RightArrow) => true,
            (TokenType::Plus, TokenType::Plus) => true,
            (TokenType::Minus, TokenType::Minus) => true,
            (TokenType::Asterisk, TokenType::Asterisk) => true,
            (TokenType::Slash, TokenType::Slash) => true,
            (TokenType::Colon, TokenType::Colon) => true,
            (TokenType::Comma, TokenType::Comma) => true,
            (TokenType::Semicolon, TokenType::Semicolon) => true,
            (TokenType::KVariable, TokenType::KVariable) => true,
            (TokenType::KMutable, TokenType::KMutable) => true,
            (TokenType::KConstant, TokenType::KConstant) => true,
            (TokenType::KFunction, TokenType::KFunction) => true,
            (TokenType::KStruct, TokenType::KStruct) => true,
            (TokenType::KClass, TokenType::KClass) => true,
            (TokenType::KReturn, TokenType::KReturn) => true,
            (TokenType::Unknown, TokenType::Unknown) => true,
            (TokenType::Eof, TokenType::Eof) => true,
            (TokenType::Literal(a), TokenType::Literal(b)) => a.same(b),
            (TokenType::Identifier(a), TokenType::Identifier(b)) => *a == *b,
            _ => false,
        }
    }

    /// The fixed text of this token type, if it has one.
    pub fn lexeme(&self) -> (text: Option<&'static str>)
        ensures
            match text {
                Some(t) => fixed_lexeme(self@) == Some(t@),
                None => fixed_lexeme(self@) is None,
            },
    {
        match self {
            TokenType::LParen => Some("("),
            TokenType::RParen => Some(")"),
            TokenType::LCurly => Some("{"),
            TokenType::RCurly => Some("}"),
            TokenType::LBoxed => Some("["),
            TokenType::RBoxed => Some("]"),
            TokenType::Dot => Some("."),
            TokenType::DoubleDot => Some(".."),
            TokenType::LT => Some("<"),
            TokenType::GT => Some(">"),
            TokenType::Eq => Some("="),
            TokenType::DoubleEq => Some("=="),
            TokenType::Not => Some("!"),
            TokenType::NotEq => Some("!="),
            TokenType::LTEq => Some("<="),
            TokenType::GTEq => Some(">="),
            TokenType::RightFatArrow => Some("=>"),
            TokenType::RightArrow => Some("->"),
            TokenType::Plus => Some("+"),
            TokenType::Minus => Some("-"),
            TokenType::Asterisk => Some("*"),
            TokenType::Slash => Some("/"),
            TokenType::Colon => Some(":"),
            TokenType::Comma => Some(","),
            TokenType::Semicolon => Some(";"),
            TokenType::KVariable => Some("var"),
            TokenType::KMutable => Some("mut"),
            TokenType::KConstant => Some("const"),
            TokenType::KFunction => Some("func"),
            TokenType::KStruct => Some("struct"),
            TokenType::KClass => Some("class"),
            TokenType::KReturn => Some("return"),
            TokenType::Literal(_) => None,
            TokenType::Identifier(_) => None,
            TokenType::Unknown => None,
            TokenType::Eof => None,
        }
    }

    /// This token type as it is shown in a message.
    pub fn describe(&self) -> (text: String)
        ensures
            text@ == describe(self@),
    {
        match self {
            TokenType::Literal(LiteralKind::Integer(text)) => text.clone(),
            TokenType::Literal(LiteralKind::Float(text)) => text.clone(),
            TokenType::Literal(LiteralKind::Char(c)) => {
                let mut out = String::new();
                push_char(&mut out, '\'');
                push_char(&mut out, *c);
                push_char(&mut out, '\'');
                out
            },
            TokenType::Literal(LiteralKind::String(text)) => {
                let mut out = String::new();
                push_char(&mut out, '"');
                out.append(text.as_str());
                push_char(&mut out, '"');
                out
            },
            TokenType::Identifier(name) => name.clone(),
            TokenType::Unknown => String::from_str("<unknown>"),
            TokenType::Eof => String::from_str("<EOF>"),
            _ => {
                match self.lexeme() {
                    Some(text) => String::from_str(text),
                    None => String::new(),
                }
            },
        }
    }
}

/// The atomic lexical unit: a category and the place it was found at.
#[derive(Debug, PartialEq, Eq)]
pub struct Token {
    pub ty: TokenType,
    pub span: Span,
}

/// Mathematical model of a [`Token`].
pub struct TokenView {
    pub ty: TokenTypeView,
    pub span: Span,
}

impl View for Token {
    type V = TokenView;

    open spec fn view(&self) -> TokenView {
        TokenView { ty: self.ty@, span: self.span }
    }
}

impl Clone for Token {
    fn clone(&self) -> (copy: Self)
        ensures
            copy == *self,
    {
        Token { ty: self.ty.clone(), span: self.span }
    }
}

impl Token {
    pub fn new(ty: TokenType, span: Span) -> (token: Self)
        ensures
            token == (Token { ty, span }),
    {
        Self { ty, span }
    }
}

/// The models of a sequence of tokens, in order.
pub open spec fn token_views(tokens: Seq<Token>) -> Seq<TokenView> {
    tokens.map_values(|t: Token| t@)
}

} // verus!
