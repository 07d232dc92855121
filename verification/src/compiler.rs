//! One run of the front end over one source text.

use vstd::prelude::*;
use vstd::string::*;
use vstd::utf8::{encode_utf8, valid_utf8};
use crate::ast::AST;
use crate::diagnostic::{error_at, Diagnostic, DiagnosticLevel, DiagnosticReporter};
use crate::lexer::{lex, Lexer};
use crate::parser::{parse_program, Parser};
use crate::utils::{token_views, Span, Token};

verus! {

/// The source text that is compiled.
#[derive(Debug)]
pub struct Compiler<'a> {
    pub source: &'a str,
}

/// `core::str::Utf8Error`: why bytes are no valid UTF-8. The library only
/// tells it from success.
#[verifier::external_type_specification]
#[verifier::external_body]
pub struct ExUtf8Error(core::str::Utf8Error);

/// `core::str::from_utf8` gives the bytes as text, unchanged, where they
/// are valid UTF-8, and an error where they are not.
#[verifier::external_body]
fn text_of<'a>(bytes: &'a [u8]) -> (text: Result<&'a str, core::str::Utf8Error>)
    ensures
        text is Ok <==> valid_utf8(bytes@),
        text matches Ok(t) ==> encode_utf8(t@) == bytes@,
{
    core::str::from_utf8(bytes)
}

impl<'a> Compiler<'a> {
    /// A run over `source`.
    pub fn new(source: &'a str) -> (compiler: Self)
        ensures
            compiler.source@ == source@,
    {
        Self { source }
    }

    /// A run over the text that `bytes` encode. Bytes that are no valid
    /// UTF-8 are reported as an error at the start of the file, and the run
    /// is over the empty text.
    pub fn load(bytes: &'a [u8], file_id: usize, reporter: &mut DiagnosticReporter) -> (compiler:
        Self)
        requires
            old(reporter).wf(),
        ensures
            final(reporter).wf(),
            valid_utf8(bytes@) ==> encode_utf8(compiler.source@) == bytes@ && final(reporter)@
                == old(reporter)@,
            !valid_utf8(bytes@) ==> compiler.source@ == Seq::<char>::empty() && final(reporter)@
                == old(reporter)@.push(
                error_at("invalid encoding"@, Span { start: 0, end: 0, file_id }),
            ),
    {
        match text_of(bytes) {
            Ok(source) => Self { source },
            Err(_) => {
                reporter.add(
                    Diagnostic::new(
                        DiagnosticLevel::Error,
                        String::from_str("invalid encoding"),
                        Span::new(0, 0, file_id),
                    ),
                );
                proof {
                    reveal_strlit("");
                }
                Self { source: "" }
            },
        }
    }

    /// The tokens of the source, as the text of the file `file_id`. Lexical
    /// errors are added to `reporter`.
    pub fn tokenize(&self, file_id: usize, reporter: &mut DiagnosticReporter) -> (tokens: Vec<
        Token,
    >)
        requires
            old(reporter).wf(),
        ensures
            final(reporter).wf(),
            token_views(tokens@) == lex(self.source@, file_id).tokens,
            final(reporter)@ == old(reporter)@ + lex(self.source@, file_id).diagnostics,
    {
        Lexer::new(self.source, file_id).identify_tokens(reporter)
    }

    /// The program that the source is, as the text of the file `file_id`:
    /// the source is lexed, and its tokens are parsed. Lexical errors, and
    /// after them syntax errors, are added to `reporter`.
    pub fn compile(&self, file_id: usize, reporter: &mut DiagnosticReporter) -> (ast: AST)
        requires
            old(reporter).wf(),
        ensures
            final(reporter).wf(),
            ast@ == parse_program(lex(self.source@, file_id).tokens).value,
            final(reporter)@ == old(reporter)@ + lex(self.source@, file_id).diagnostics
                + parse_program(lex(self.source@, file_id).tokens).diagnostics,
    {
        let tokens = self.tokenize(file_id, reporter);
        let mut parser = Parser::new(tokens);
        parser.parse(reporter)
    }
}

} // verus!
