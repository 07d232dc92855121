//! The parser: from tokens to a syntax tree.
//!
//! The first half of this module says, as functions on sequences of tokens,
//! which tree and which diagnostics a token sequence has. The second half is
//! the recursive-descent parser, which is proved to produce exactly those.

use vstd::prelude::*;
use vstd::string::*;
use crate::ast::{
    parameter_views, statement_views, BinOp, Block, Element, ElementView, Expr, ExprView,
    Function, FunctionView, Parameter, ParameterView, Statement, StatementView, UnaryOp, AST,
};
use crate::diagnostic::{
    error_at, Diagnostic, DiagnosticLevel, DiagnosticReporter, DiagnosticView,
};
use crate::parser_proofs::lemma_elements_within;
use crate::utils::{describe, token_views, Span, Token, TokenType, TokenTypeView, TokenView};

verus! {

/// The span at which the end of the tokens is reported: that of the last
/// token, or an empty span at the start where there is no token.
pub open spec fn end_span(ts: Seq<TokenView>) -> Span {
    if ts.len() > 0 {
        ts.last().span
    } else {
        Span { start: 0, end: 0, file_id: 0 }
    }
}

/// The token at `pos`, or an end-of-input token when `pos` is past the last
/// token.
pub open spec fn current(ts: Seq<TokenView>, pos: nat) -> TokenView {
    if pos < ts.len() {
        ts[pos as int]
    } else {
        TokenView { ty: TokenTypeView::Eof, span: end_span(ts) }
    }
}

/// Whether the input ends at `pos`.
pub open spec fn at_end(ts: Seq<TokenView>, pos: nat) -> bool {
    current(ts, pos).ty is Eof
}

/// Number of tokens from `pos` on.
pub open spec fn remaining(ts: Seq<TokenView>, pos: nat) -> nat {
    if pos <= ts.len() {
        (ts.len() - pos) as nat
    } else {
        0
    }
}

/// What parsing one construct gives: its value, the number of tokens it
/// consumed, and the diagnostics it raised, in order.
pub struct Parsed<T> {
    pub value: T,
    pub used: nat,
    pub diagnostics: Seq<DiagnosticView>,
}

/// The message for a token of type `ty` that is missing.
pub open spec fn expected_message(ty: TokenTypeView) -> Seq<char> {
    "Expected token: `"@ + describe(ty) + "`"@
}

/// Consumes a token of type `ty`. Where the current token is another, it is
/// not consumed and an error is raised at it; at the end of the input the
/// error says so.
pub open spec fn expect(ts: Seq<TokenView>, pos: nat, ty: TokenTypeView) -> Parsed<bool> {
    let token = current(ts, pos);
    if pos < ts.len() && token.ty == ty {
        Parsed { value: true, used: 1, diagnostics: Seq::empty() }
    } else if token.ty is Eof {
        Parsed {
            value: false,
            used: 0,
            diagnostics: seq![error_at("Unexpected <EOF>."@, token.span)],
        }
    } else {
        Parsed {
            value: false,
            used: 0,
            diagnostics: seq![error_at(expected_message(ty), token.span)],
        }
    }
}

/// Consumes a token of type `ty` as [`expect`] does, but raises no error
/// when `quiet` is set: after an error in a construct, what else is missing
/// at the same place is not reported again.
pub open spec fn expect_quietly(ts: Seq<TokenView>, pos: nat, ty: TokenTypeView, quiet: bool)
    -> Parsed<bool> {
    let loud = expect(ts, pos, ty);
    if quiet {
        Parsed { value: loud.value, used: loud.used, diagnostics: Seq::empty() }
    } else {
        loud
    }
}

/// The identifier without a name that stands in for a missing one.
pub open spec fn placeholder(span: Span) -> TokenView {
    TokenView { ty: TokenTypeView::Identifier(Seq::empty()), span }
}

/// Consumes an identifier. Where the current token is none, it is not
/// consumed, an error is raised at it, and a placeholder stands in.
pub open spec fn expect_identifier(ts: Seq<TokenView>, pos: nat) -> Parsed<TokenView> {
    let token = current(ts, pos);
    if pos < ts.len() && token.ty is Identifier {
        Parsed { value: token, used: 1, diagnostics: Seq::empty() }
    } else if token.ty is Eof {
        Parsed {
            value: placeholder(token.span),
            used: 0,
            diagnostics: seq![error_at("Unexpected <EOF>."@, token.span)],
        }
    } else {
        Parsed {
            value: placeholder(token.span),
            used: 0,
            diagnostics: seq![error_at("Expected an Identifier."@, token.span)],
        }
    }
}

/// Number of levels of binary operators.
pub open spec fn binary_levels() -> nat {
    4
}

/// The binary operator that a token of type `ty` is at `level`, if it is
/// one. Level 0 binds loosest: equality, then comparison, sum and product.
pub open spec fn binary_op(level: nat, ty: TokenTypeView) -> Option<BinOp> {
    if level == 0 {
        match ty {
            TokenTypeView::DoubleEq => Some(BinOp::Equal),
            TokenTypeView::NotEq => Some(BinOp::NotEqual),
            _ => None,
        }
    } else if level == 1 {
        match ty {
            TokenTypeView::GT => Some(BinOp::Greater),
            TokenTypeView::GTEq => Some(BinOp::GreaterEqual),
            TokenTypeView::LT => Some(BinOp::Less),
            TokenTypeView::LTEq => Some(BinOp::LessEqual),
            _ => None,
        }
    } else if level == 2 {
        match ty {
            TokenTypeView::Plus => Some(BinOp::Add),
            TokenTypeView::Minus => Some(BinOp::Subtract),
            _ => None,
        }
    } else if level == 3 {
        match ty {
            TokenTypeView::Asterisk => Some(BinOp::Multiply),
            TokenTypeView::Slash => Some(BinOp::Divide),
            _ => None,
        }
    } else {
        None
    }
}

/// The prefix operator that a token of type `ty` is, if it is one.
pub open spec fn unary_op(ty: TokenTypeView) -> Option<UnaryOp> {
    match ty {
        TokenTypeView::Not => Some(UnaryOp::Not),
        TokenTypeView::Minus => Some(UnaryOp::Negate),
        _ => None,
    }
}

/// How far `level` is from the tightest level. It orders the expression
/// functions that are called at one position.
pub open spec fn height(level: nat) -> nat {
    if level >= binary_levels() {
        0
    } else {
        (binary_levels() - level) as nat
    }
}

/// An expression at `level`: an operand of the next tighter level, then any
/// number of operators of this level, each with its operand. The operators
/// associate to the left.
pub open spec fn parse_binary(ts: Seq<TokenView>, pos: nat, level: nat) -> Parsed<ExprView>
    decreases remaining(ts, pos), 3 + 2 * height(level),
{
    if level >= binary_levels() {
        parse_unary(ts, pos)
    } else {
        let first = parse_binary(ts, pos, level + 1);
        let rest = parse_binary_rest(ts, pos + first.used, level, first.value);
        Parsed {
            value: rest.value,
            used: first.used + rest.used,
            diagnostics: first.diagnostics + rest.diagnostics,
        }
    }
}

/// The operators of `level` that follow the operand `left`, each with its
/// operand, folded into `left` from the left.
pub open spec fn parse_binary_rest(ts: Seq<TokenView>, pos: nat, level: nat, left: ExprView)
    -> Parsed<ExprView>
    decreases remaining(ts, pos), 2 + 2 * height(level),
{
    match binary_op(level, current(ts, pos).ty) {
        Some(op) => {
            if pos < ts.len() && level < binary_levels() {
                let right = parse_binary(ts, pos + 1, level + 1);
                let folded = ExprView::Binary {
                    lhs: Box::new(left),
                    op,
                    rhs: Box::new(right.value),
                };
                let rest = parse_binary_rest(ts, pos + 1 + right.used, level, folded);
                Parsed {
                    value: rest.value,
                    used: 1 + right.used + rest.used,
                    diagnostics: right.diagnostics + rest.diagnostics,
                }
            } else {
                Parsed { value: left, used: 0, diagnostics: Seq::empty() }
            }
        },
        None => Parsed { value: left, used: 0, diagnostics: Seq::empty() },
    }
}

/// A prefix operator with its operand, or a primary expression.
pub open spec fn parse_unary(ts: Seq<TokenView>, pos: nat) -> Parsed<ExprView>
    decreases remaining(ts, pos), 1nat,
{
    match unary_op(current(ts, pos).ty) {
        Some(operator) => {
            if pos < ts.len() {
                let operand = parse_unary(ts, pos + 1);
                Parsed {
                    value: ExprView::Unary { operator, operand: Box::new(operand.value) },
                    used: 1 + operand.used,
                    diagnostics: operand.diagnostics,
                }
            } else {
                parse_primary(ts, pos)
            }
        },
        None => parse_primary(ts, pos),
    }
}

/// A literal, a variable or an expression in parentheses. A semicolon
/// stands for an expression that was left out and is not consumed. Any other
/// token is an error and gives the `Unknown` expression.
pub open spec fn parse_primary(ts: Seq<TokenView>, pos: nat) -> Parsed<ExprView>
    decreases remaining(ts, pos), 0nat,
{
    let token = current(ts, pos);
    if pos >= ts.len() {
        Parsed {
            value: ExprView::Unknown,
            used: 0,
            diagnostics: seq![error_at("Expected an expression"@, token.span)],
        }
    } else {
        match token.ty {
            TokenTypeView::Literal(_) => Parsed {
                value: ExprView::Literal(token),
                used: 1,
                diagnostics: Seq::empty(),
            },
            TokenTypeView::Identifier(_) => Parsed {
                value: ExprView::Var(token),
                used: 1,
                diagnostics: Seq::empty(),
            },
            TokenTypeView::LParen => {
                let inner = parse_binary(ts, pos + 1, 0);
                let close = expect(ts, pos + 1 + inner.used, TokenTypeView::RParen);
                Parsed {
                    value: ExprView::Grouping(Box::new(inner.value)),
                    used: 1 + inner.used + close.used,
                    diagnostics: inner.diagnostics + close.diagnostics,
                }
            },
            TokenTypeView::Semicolon => Parsed {
                value: ExprView::Absent,
                used: 0,
                diagnostics: Seq::empty(),
            },
            _ => Parsed {
                value: ExprView::Unknown,
                used: 0,
                diagnostics: seq![error_at("Expected an expression"@, token.span)],
            },
        }
    }
}

/// An expression: the loosest level.
pub open spec fn parse_expr(ts: Seq<TokenView>, pos: nat) -> Parsed<ExprView> {
    parse_binary(ts, pos, 0)
}

/// Whether a token of type `ty` starts an item, or, inside a function, a
/// statement: the places at which parsing is taken up again after an error.
pub open spec fn restarts(ty: TokenTypeView, in_body: bool) -> bool {
    ty is KClass || ty is KStruct || ty is KFunction || (in_body && ty is KVariable)
}

/// Number of tokens that are skipped from `pos` on to get over an error:
/// all up to and with the next semicolon, or up to the next token that
/// starts an item or a statement, or up to the end of the input.
pub open spec fn synchronize(ts: Seq<TokenView>, pos: nat, in_body: bool) -> nat
    decreases remaining(ts, pos),
{
    let ty = current(ts, pos).ty;
    if pos >= ts.len() || ty is Eof || restarts(ty, in_body) {
        0
    } else if ty is Semicolon {
        1
    } else {
        1 + synchronize(ts, pos + 1, in_body)
    }
}

/// The span of the token before `pos`, or of the one at `pos` where there is
/// none before it.
pub open spec fn previous_span(ts: Seq<TokenView>, pos: nat) -> Span {
    if pos > 0 {
        current(ts, (pos - 1) as nat).span
    } else {
        current(ts, pos).span
    }
}

/// The name of a type that is given after the mark `mark`, where the
/// current token is that mark; nothing where it is not.
#[verifier::opaque]
pub open spec fn parse_type_after(ts: Seq<TokenView>, pos: nat, mark: TokenTypeView) -> Parsed<
    Option<TokenView>,
> {
    if pos < ts.len() && current(ts, pos).ty == mark {
        let named = expect_identifier(ts, pos + 1);
        Parsed { value: Some(named.value), used: 1 + named.used, diagnostics: named.diagnostics }
    } else {
        Parsed { value: None, used: 0, diagnostics: Seq::empty() }
    }
}

/// A variable declaration whose keyword is at `pos`: a name, a type after a
/// colon where one is given, an initial value after an equals sign where one
/// is given, and a semicolon.
#[verifier::opaque]
pub open spec fn parse_var_decl(ts: Seq<TokenView>, pos: nat) -> Parsed<StatementView> {
    let name = expect_identifier(ts, pos + 1);
    let after_name = pos + 1 + name.used;
    let ty = parse_type_after(ts, after_name, TokenTypeView::Colon);
    let after_ty = after_name + ty.used;
    let init = if after_ty < ts.len() && current(ts, after_ty).ty is Eq {
        let value = parse_expr(ts, after_ty + 1);
        Parsed {
            value: value.value,
            used: 1 + value.used,
            diagnostics: if value.value is Absent {
                value.diagnostics.push(
                    error_at("unexpected '=' without expression"@, current(ts, after_ty).span),
                )
            } else {
                value.diagnostics
            },
        }
    } else {
        Parsed { value: ExprView::Absent, used: 0, diagnostics: Seq::empty() }
    };
    let end = expect(ts, after_ty + init.used, TokenTypeView::Semicolon);
    Parsed {
        value: StatementView::VarDecl { name: name.value, ty: ty.value, expr: init.value },
        used: 1 + name.used + ty.used + init.used + end.used,
        diagnostics: name.diagnostics + ty.diagnostics + init.diagnostics + end.diagnostics,
    }
}

/// A return statement whose keyword is at `pos`: an expression and a
/// semicolon.
#[verifier::opaque]
pub open spec fn parse_return(ts: Seq<TokenView>, pos: nat) -> Parsed<StatementView> {
    let value = parse_expr(ts, pos + 1);
    let end = expect(ts, pos + 1 + value.used, TokenTypeView::Semicolon);
    Parsed {
        value: StatementView::Return(value.value),
        used: 1 + value.used + end.used,
        diagnostics: value.diagnostics + end.diagnostics,
    }
}

/// An expression statement at `pos`: an expression and a semicolon. Where
/// no expression can be read, an error is raised at the token before, the
/// token that cannot be read is skipped with what follows it up to the next
/// place to take up parsing, and the statement is `Unknown`.
#[verifier::opaque]
pub open spec fn parse_expr_stmt(ts: Seq<TokenView>, pos: nat) -> Parsed<StatementView> {
    let value = parse_expr(ts, pos);
    let after = pos + value.used;
    if value.value is Unknown {
        let skipped = if after < ts.len() {
            1 + synchronize(ts, after + 1, true)
        } else {
            0
        };
        Parsed {
            value: StatementView::Unknown,
            used: value.used + skipped,
            diagnostics: value.diagnostics.push(
                error_at("Unexpected token found"@, previous_span(ts, after)),
            ),
        }
    } else {
        let end = expect(ts, after, TokenTypeView::Semicolon);
        Parsed {
            value: StatementView::Expression(value.value),
            used: value.used + end.used,
            diagnostics: value.diagnostics + end.diagnostics,
        }
    }
}

/// The statement that starts at `pos`.
#[verifier::opaque]
pub open spec fn parse_stmt(ts: Seq<TokenView>, pos: nat) -> Parsed<StatementView> {
    let ty = current(ts, pos).ty;
    if pos < ts.len() && ty is KVariable {
        parse_var_decl(ts, pos)
    } else if pos < ts.len() && ty is KReturn {
        parse_return(ts, pos)
    } else {
        parse_expr_stmt(ts, pos)
    }
}

/// Whether a block ends at `pos`: at a closing brace or at the end of the
/// input.
pub open spec fn block_ends(ts: Seq<TokenView>, pos: nat) -> bool {
    pos >= ts.len() || current(ts, pos).ty is RCurly || current(ts, pos).ty is Eof
}

/// The statements from `pos` up to the closing brace or the end of the
/// input.
pub open spec fn parse_block(ts: Seq<TokenView>, pos: nat) -> Parsed<Seq<StatementView>>
    decreases remaining(ts, pos),
{
    if block_ends(ts, pos) {
        Parsed { value: Seq::empty(), used: 0, diagnostics: Seq::empty() }
    } else {
        let first = parse_stmt(ts, pos);
        proof {
            lemma_stmt_progress(ts, pos);
        }
        let rest = parse_block(ts, pos + first.used);
        Parsed {
            value: seq![first.value] + rest.value,
            used: first.used + rest.used,
            diagnostics: first.diagnostics + rest.diagnostics,
        }
    }
}

/// The parameter whose name is at `pos`: the name, a colon and the name of
/// the type. Where the colon is missing, no type is looked for and a
/// placeholder stands in.
#[verifier::opaque]
pub open spec fn parse_param(ts: Seq<TokenView>, pos: nat) -> Parsed<ParameterView> {
    let name = current(ts, pos);
    let colon = expect(ts, pos + 1, TokenTypeView::Colon);
    let ty = if colon.value {
        expect_identifier(ts, pos + 2)
    } else {
        Parsed {
            value: placeholder(current(ts, pos + 1).span),
            used: 0,
            diagnostics: Seq::empty(),
        }
    };
    Parsed {
        value: ParameterView { name, ty: ty.value },
        used: 1 + colon.used + ty.used,
        diagnostics: colon.diagnostics + ty.diagnostics,
    }
}

/// The parameters from `pos` on, separated by commas. A list may be empty;
/// after a comma (`more`) a parameter must follow.
pub open spec fn parse_params(ts: Seq<TokenView>, pos: nat, more: bool) -> Parsed<
    Seq<ParameterView>,
>
    decreases remaining(ts, pos),
{
    let token = current(ts, pos);
    if pos < ts.len() && token.ty is Identifier {
        let first = parse_param(ts, pos);
        let after = pos + first.used;
        if after < ts.len() && current(ts, after).ty is Comma {
            let rest = parse_params(ts, after + 1, true);
            Parsed {
                value: seq![first.value] + rest.value,
                used: first.used + 1 + rest.used,
                diagnostics: first.diagnostics + rest.diagnostics,
            }
        } else {
            Parsed { value: seq![first.value], used: first.used, diagnostics: first.diagnostics }
        }
    } else if more {
        Parsed {
            value: Seq::empty(),
            used: 0,
            diagnostics: expect_identifier(ts, pos).diagnostics,
        }
    } else {
        Parsed { value: Seq::empty(), used: 0, diagnostics: Seq::empty() }
    }
}

/// The body of a function, from `pos` on: an opening brace, statements and
/// a closing brace. Where the opening brace is missing, the body is empty,
/// and the tokens up to the next item are skipped.
#[verifier::opaque]
pub open spec fn parse_body(ts: Seq<TokenView>, pos: nat, quiet: bool) -> Parsed<
    Seq<StatementView>,
> {
    let open = expect_quietly(ts, pos, TokenTypeView::LCurly, quiet);
    if open.value {
        let block = parse_block(ts, pos + 1);
        let close = expect(ts, pos + 1 + block.used, TokenTypeView::RCurly);
        Parsed {
            value: block.value,
            used: 1 + block.used + close.used,
            diagnostics: block.diagnostics + close.diagnostics,
        }
    } else {
        Parsed {
            value: Seq::empty(),
            used: synchronize(ts, pos, false),
            diagnostics: open.diagnostics,
        }
    }
}

/// The parameters of a function in their parentheses, from `pos` on.
#[verifier::opaque]
pub open spec fn parse_param_list(ts: Seq<TokenView>, pos: nat, quiet: bool) -> Parsed<
    Seq<ParameterView>,
> {
    let open = expect_quietly(ts, pos, TokenTypeView::LParen, quiet);
    let params = parse_params(ts, pos + open.used, false);
    let close = expect_quietly(
        ts,
        pos + open.used + params.used,
        TokenTypeView::RParen,
        quiet || open.diagnostics.len() > 0 || params.diagnostics.len() > 0,
    );
    Parsed {
        value: params.value,
        used: open.used + params.used + close.used,
        diagnostics: open.diagnostics + params.diagnostics + close.diagnostics,
    }
}

/// A function whose keyword is at `pos`: a name, parameters in parentheses,
/// the name of a return type after an arrow where one is given, and a body.
/// Once an error was raised in the head of the function, a parenthesis or
/// an opening brace that is missing is not reported on top of it.
#[verifier::opaque]
pub open spec fn parse_function(ts: Seq<TokenView>, pos: nat) -> Parsed<FunctionView> {
    let name = expect_identifier(ts, pos + 1);
    let after_name = pos + 1 + name.used;
    let params = parse_param_list(ts, after_name, name.diagnostics.len() > 0);
    let after_params = after_name + params.used;
    let return_ty = parse_type_after(ts, after_params, TokenTypeView::RightArrow);
    let head = name.diagnostics + params.diagnostics + return_ty.diagnostics;
    let body = parse_body(ts, after_params + return_ty.used, head.len() > 0);
    Parsed {
        value: FunctionView {
            name: name.value,
            params: params.value,
            return_ty: return_ty.value,
            body: body.value,
        },
        used: 1 + name.used + params.used + return_ty.used + body.used,
        diagnostics: head + body.diagnostics,
    }
}

/// The item that starts at `pos`, where the input does not end: a function,
/// or, for a token that starts none, an error at it and the `Unknown` item,
/// for which that token is skipped with what follows it up to the next place
/// to take up parsing.
#[verifier::opaque]
pub open spec fn parse_element(ts: Seq<TokenView>, pos: nat) -> Parsed<ElementView> {
    let token = current(ts, pos);
    if token.ty is KFunction {
        let function = parse_function(ts, pos);
        Parsed {
            value: ElementView::Function(function.value),
            used: function.used,
            diagnostics: function.diagnostics,
        }
    } else {
        Parsed {
            value: ElementView::Unknown,
            used: 1 + synchronize(ts, pos + 1, false),
            diagnostics: seq![error_at("Unexpected token found"@, token.span)],
        }
    }
}

/// The items from `pos` up to the end of the input.
pub open spec fn parse_elements(ts: Seq<TokenView>, pos: nat) -> Parsed<Seq<ElementView>>
    decreases remaining(ts, pos),
{
    if pos >= ts.len() || at_end(ts, pos) {
        Parsed { value: Seq::empty(), used: 0, diagnostics: Seq::empty() }
    } else {
        let first = parse_element(ts, pos);
        proof {
            lemma_element_progress(ts, pos);
        }
        let rest = parse_elements(ts, pos + first.used);
        Parsed {
            value: seq![first.value] + rest.value,
            used: first.used + rest.used,
            diagnostics: first.diagnostics + rest.diagnostics,
        }
    }
}

/// The program that the tokens `ts` are, with its diagnostics.
pub open spec fn parse_program(ts: Seq<TokenView>) -> Parsed<Seq<ElementView>> {
    parse_elements(ts, 0)
}

/// Operators that follow an operand either consume nothing and leave the
/// operand as it is, or give a binary expression.
pub proof fn lemma_binary_rest_shape(ts: Seq<TokenView>, pos: nat, level: nat, left: ExprView)
    ensures
        parse_binary_rest(ts, pos, level, left).used == 0 ==> parse_binary_rest(
            ts,
            pos,
            level,
            left,
        ).value == left,
        parse_binary_rest(ts, pos, level, left).used > 0 ==> parse_binary_rest(
            ts,
            pos,
            level,
            left,
        ).value is Binary,
    decreases remaining(ts, pos),
{
    match binary_op(level, current(ts, pos).ty) {
        Some(op) => {
            if pos < ts.len() && level < binary_levels() {
                let right = parse_binary(ts, pos + 1, level + 1);
                let folded = ExprView::Binary {
                    lhs: Box::new(left),
                    op,
                    rhs: Box::new(right.value),
                };
                lemma_binary_rest_shape(ts, pos + 1 + right.used, level, folded);
            }
        },
        None => {},
    }
}

/// A prefix or primary expression that consumed no token is `Absent`, at a
/// semicolon, or `Unknown`; an `Absent` one consumed no token and stands at
/// a semicolon.
pub proof fn lemma_unary_progress(ts: Seq<TokenView>, pos: nat)
    ensures
        parse_unary(ts, pos).used == 0 ==> parse_unary(ts, pos).value is Absent || parse_unary(
            ts,
            pos,
        ).value is Unknown,
        parse_unary(ts, pos).value is Absent ==> parse_unary(ts, pos).used == 0 && pos < ts.len()
            && current(ts, pos).ty is Semicolon,
{
    assert(parse_primary(ts, pos).used == 0 ==> parse_primary(ts, pos).value is Absent
        || parse_primary(ts, pos).value is Unknown);
    assert(parse_primary(ts, pos).value is Absent ==> parse_primary(ts, pos).used == 0 && pos
        < ts.len() && current(ts, pos).ty is Semicolon);
}

/// An expression that consumed no token is `Absent`, at a semicolon, or
/// `Unknown`; an `Absent` one consumed no token and stands at a semicolon.
pub proof fn lemma_expr_progress(ts: Seq<TokenView>, pos: nat, level: nat)
    ensures
        parse_binary(ts, pos, level).used == 0 ==> parse_binary(ts, pos, level).value is Absent
            || parse_binary(ts, pos, level).value is Unknown,
        parse_binary(ts, pos, level).value is Absent ==> parse_binary(ts, pos, level).used == 0
            && pos < ts.len() && current(ts, pos).ty is Semicolon,
    decreases height(level),
{
    if level >= binary_levels() {
        lemma_unary_progress(ts, pos);
    } else {
        lemma_expr_progress(ts, pos, level + 1);
        let first = parse_binary(ts, pos, level + 1);
        lemma_binary_rest_shape(ts, pos + first.used, level, first.value);
    }
}

/// Every item consumes a token.
pub proof fn lemma_element_progress(ts: Seq<TokenView>, pos: nat)
    ensures
        parse_element(ts, pos).used >= 1,
{
    reveal(parse_element);
    reveal(parse_function);
}

/// Every statement that starts before the end of a block consumes a token.
pub proof fn lemma_stmt_progress(ts: Seq<TokenView>, pos: nat)
    requires
        !block_ends(ts, pos),
    ensures
        parse_stmt(ts, pos).used >= 1,
{
    reveal(parse_stmt);
    reveal(parse_var_decl);
    reveal(parse_return);
    reveal(parse_expr_stmt);
    lemma_expr_progress(ts, pos, 0);
}

/// The recursive-descent parser over one token sequence. It reads the tokens
/// from left to right and never goes back.
#[derive(Debug)]
pub struct Parser {
    current: usize,
    tokens: Vec<Token>,
}

/// What one step of the parser does: the tokens stay, the position moves on
/// by `used`, and `raised` is appended to the diagnostics.
pub open spec fn stepped(
    before: Parser,
    after: Parser,
    held: Seq<DiagnosticView>,
    now: Seq<DiagnosticView>,
    used: nat,
    raised: Seq<DiagnosticView>,
) -> bool {
    &&& after.tokens() == before.tokens()
    &&& after.position() == before.position() + used
    &&& now =~= held + raised
}

/// Appends an error with this message at this span to `reporter`.
fn raise(reporter: &mut DiagnosticReporter, message: String, span: Span)
    requires
        old(reporter).wf(),
    ensures
        final(reporter).wf(),
        final(reporter)@ == old(reporter)@.push(error_at(message@, span)),
{
    reporter.add(Diagnostic::new(DiagnosticLevel::Error, message, span));
}

impl Parser {
    /// The models of the tokens that are parsed.
    pub closed spec fn tokens(&self) -> Seq<TokenView> {
        token_views(self.tokens@)
    }

    /// The index of the current token.
    pub closed spec fn position(&self) -> nat {
        self.current as nat
    }

    /// A parser at the first of `tokens`.
    pub fn new(tokens: Vec<Token>) -> (parser: Self)
        ensures
            parser.tokens() == token_views(tokens@),
            parser.position() == 0,
    {
        Self { current: 0, tokens }
    }

    /// The program that the tokens from the current one on are. Each syntax
    /// error is added to `reporter`, in the order of the tokens; none stops
    /// the parser.
    pub fn parse(&mut self, reporter: &mut DiagnosticReporter) -> (ast: AST)
        requires
            old(reporter).wf(),
        ensures
            final(reporter).wf(),
            ast@ == parse_elements(old(self).tokens(), old(self).position()).value,
            stepped(
                *old(self),
                *final(self),
                old(reporter)@,
                final(reporter)@,
                parse_elements(old(self).tokens(), old(self).position()).used,
                parse_elements(old(self).tokens(), old(self).position()).diagnostics,
            ),
            ast@.len() <= final(self).position() - old(self).position() <= remaining(
                old(self).tokens(),
                old(self).position(),
            ),
    {
        let mut ast = AST::new();
        let ghost ts = self.tokens();
        let ghost start = self.position();
        let ghost whole = parse_elements(ts, start);
        while !self.is_at_end()
            invariant
                reporter.wf(),
                self.tokens() == ts,
                start <= self.position(),
                whole.value =~= ast@ + parse_elements(ts, self.position()).value,
                whole.used == (self.position() - start) + parse_elements(ts, self.position()).used,
                old(reporter)@ + whole.diagnostics =~= reporter@ + parse_elements(
                    ts,
                    self.position(),
                ).diagnostics,
            decreases remaining(ts, self.position()),
        {
            proof {
                lemma_element_progress(ts, self.position());
            }
            let element = self.parse_element(reporter);
            ast.add_element(element);
        }
        proof {
            lemma_elements_within(ts, start);
        }
        ast
    }

    /// The item that starts at the current token, which is not the end of
    /// the input.
    fn parse_element(&mut self, reporter: &mut DiagnosticReporter) -> (element: Element)
        requires
            old(reporter).wf(),
            !at_end(old(self).tokens(), old(self).position()),
        ensures
            final(reporter).wf(),
            element@ == parse_element(old(self).tokens(), old(self).position()).value,
            stepped(
                *old(self),
                *final(self),
                old(reporter)@,
                final(reporter)@,
                parse_element(old(self).tokens(), old(self).position()).used,
                parse_element(old(self).tokens(), old(self).position()).diagnostics,
            ),
    {
        proof {
            reveal(parse_element);
        }
        if self.check(&TokenType::KFunction) {
            Element::Function(self.parse_function(reporter))
        } else {
            self.error(String::from_str("Unexpected token found"), reporter);
            self.advance();
            self.synchronize(false);
            Element::Unknown
        }
    }

    /// The function whose keyword is the current token.
    fn parse_function(&mut self, reporter: &mut DiagnosticReporter) -> (function: Function)
        requires
            old(reporter).wf(),
            old(self).position() < old(self).tokens().len(),
        ensures
            final(reporter).wf(),
            function@ == parse_function(old(self).tokens(), old(self).position()).value,
            stepped(
                *old(self),
                *final(self),
                old(reporter)@,
                final(reporter)@,
                parse_function(old(self).tokens(), old(self).position()).used,
                parse_function(old(self).tokens(), old(self).position()).diagnostics,
            ),
    {
        proof {
            reveal(parse_function);
        }
        let held = reporter.len();
        self.advance();
        let name = self.must_consume_identifier(reporter);
        let params = self.parse_param_list(reporter.len() > held, reporter);
        let return_ty = self.parse_type_after(TokenType::RightArrow, reporter);
        let body = self.parse_body(reporter.len() > held, reporter);
        Function { name, params, return_ty, body }
    }

    /// The parameters of a function in their parentheses.
    fn parse_param_list(&mut self, quiet: bool, reporter: &mut DiagnosticReporter) -> (params: Vec<
        Parameter,
    >)
        requires
            old(reporter).wf(),
        ensures
            final(reporter).wf(),
            parameter_views(params@) == parse_param_list(
                old(self).tokens(),
                old(self).position(),
                quiet,
            ).value,
            stepped(
                *old(self),
                *final(self),
                old(reporter)@,
                final(reporter)@,
                parse_param_list(old(self).tokens(), old(self).position(), quiet).used,
                parse_param_list(old(self).tokens(), old(self).position(), quiet).diagnostics,
            ),
    {
        proof {
            reveal(parse_param_list);
        }
        let held = reporter.len();
        self.consume_quietly(TokenType::LParen, quiet, reporter);
        let params = self.parse_params(reporter);
        self.consume_quietly(TokenType::RParen, quiet || reporter.len() > held, reporter);
        params
    }

    /// The name of a type after the mark `mark`, if the current token is
    /// that mark.
    fn parse_type_after(&mut self, mark: TokenType, reporter: &mut DiagnosticReporter) -> (ty:
        Option<Token>)
        requires
            old(reporter).wf(),
        ensures
            final(reporter).wf(),
            match ty {
                Some(token) => parse_type_after(
                    old(self).tokens(),
                    old(self).position(),
                    mark@,
                ).value == Some(token@),
                None => parse_type_after(old(self).tokens(), old(self).position(), mark@).value
                    is None,
            },
            stepped(
                *old(self),
                *final(self),
                old(reporter)@,
                final(reporter)@,
                parse_type_after(old(self).tokens(), old(self).position(), mark@).used,
                parse_type_after(old(self).tokens(), old(self).position(), mark@).diagnostics,
            ),
    {
        proof {
            reveal(parse_type_after);
        }
        if self.check(&mark) {
            self.advance();
            Some(self.must_consume_identifier(reporter))
        } else {
            None
        }
    }

    /// The parameters from the current token on.
    fn parse_params(&mut self, reporter: &mut DiagnosticReporter) -> (params: Vec<Parameter>)
        requires
            old(reporter).wf(),
        ensures
            final(reporter).wf(),
            parameter_views(params@) == parse_params(
                old(self).tokens(),
                old(self).position(),
                false,
            ).value,
            stepped(
                *old(self),
                *final(self),
                old(reporter)@,
                final(reporter)@,
                parse_params(old(self).tokens(), old(self).position(), false).used,
                parse_params(old(self).tokens(), old(self).position(), false).diagnostics,
            ),
    {
        let mut params: Vec<Parameter> = Vec::new();
        let mut more = false;
        let ghost ts = self.tokens();
        let ghost start = self.position();
        let ghost whole = parse_params(ts, start, false);
        loop
            invariant_except_break
                whole.value =~= parameter_views(params@) + parse_params(
                    ts,
                    self.position(),
                    more,
                ).value,
                whole.used == (self.position() - start) + parse_params(
                    ts,
                    self.position(),
                    more,
                ).used,
                old(reporter)@ + whole.diagnostics =~= reporter@ + parse_params(
                    ts,
                    self.position(),
                    more,
                ).diagnostics,
            invariant
                reporter.wf(),
                self.tokens() == ts,
                start <= self.position(),
            ensures
                whole.value =~= parameter_views(params@),
                whole.used == self.position() - start,
                old(reporter)@ + whole.diagnostics =~= reporter@,
            decreases remaining(ts, self.position()),
        {
            if !self.at_identifier() {
                if more {
                    self.must_consume_identifier(reporter);
                }
                break ;
            }
            let param = self.parse_param(reporter);
            params.push(param);
            if self.check(&TokenType::Comma) {
                self.advance();
                more = true;
            } else {
                break ;
            }
        }
        params
    }

    /// The parameter whose name is the current token.
    fn parse_param(&mut self, reporter: &mut DiagnosticReporter) -> (param: Parameter)
        requires
            old(reporter).wf(),
            old(self).position() < old(self).tokens().len(),
        ensures
            final(reporter).wf(),
            param@ == parse_param(old(self).tokens(), old(self).position()).value,
            stepped(
                *old(self),
                *final(self),
                old(reporter)@,
                final(reporter)@,
                parse_param(old(self).tokens(), old(self).position()).used,
                parse_param(old(self).tokens(), old(self).position()).diagnostics,
            ),
    {
        proof {
            reveal(parse_param);
        }
        let name = self.advance();
        let after = self.current_span();
        let ty = if self.consume(TokenType::Colon, reporter) {
            self.must_consume_identifier(reporter)
        } else {
            Token::new(TokenType::Identifier(String::new()), after)
        };
        Parameter { name, ty }
    }

    /// The body of a function, from the current token on.
    fn parse_body(&mut self, quiet: bool, reporter: &mut DiagnosticReporter) -> (body: Block)
        requires
            old(reporter).wf(),
        ensures
            final(reporter).wf(),
            body@ == parse_body(old(self).tokens(), old(self).position(), quiet).value,
            stepped(
                *old(self),
                *final(self),
                old(reporter)@,
                final(reporter)@,
                parse_body(old(self).tokens(), old(self).position(), quiet).used,
                parse_body(old(self).tokens(), old(self).position(), quiet).diagnostics,
            ),
    {
        proof {
            reveal(parse_body);
        }
        if self.consume_quietly(TokenType::LCurly, quiet, reporter) {
            let statements = self.parse_block(reporter);
            self.consume(TokenType::RCurly, reporter);
            Block(statements)
        } else {
            self.synchronize(false);
            let body = Block(Vec::new());
            body
        }
    }

    /// The statements from the current token up to the closing brace or the
    /// end of the input.
    fn parse_block(&mut self, reporter: &mut DiagnosticReporter) -> (statements: Vec<Statement>)
        requires
            old(reporter).wf(),
        ensures
            final(reporter).wf(),
            statement_views(statements@) == parse_block(
                old(self).tokens(),
                old(self).position(),
            ).value,
            stepped(
                *old(self),
                *final(self),
                old(reporter)@,
                final(reporter)@,
                parse_block(old(self).tokens(), old(self).position()).used,
                parse_block(old(self).tokens(), old(self).position()).diagnostics,
            ),
    {
        let mut statements: Vec<Statement> = Vec::new();
        let ghost ts = self.tokens();
        let ghost start = self.position();
        let ghost whole = parse_block(ts, start);
        while !self.block_ends()
            invariant
                reporter.wf(),
                self.tokens() == ts,
                start <= self.position(),
                whole.value =~= statement_views(statements@) + parse_block(
                    ts,
                    self.position(),
                ).value,
                whole.used == (self.position() - start) + parse_block(ts, self.position()).used,
                old(reporter)@ + whole.diagnostics =~= reporter@ + parse_block(
                    ts,
                    self.position(),
                ).diagnostics,
            decreases remaining(ts, self.position()),
        {
            proof {
                lemma_stmt_progress(ts, self.position());
            }
            let statement = self.parse_stmt(reporter);
            statements.push(statement);
        }
        statements
    }

    /// The statement that starts at the current token.
    pub fn parse_stmt(&mut self, reporter: &mut DiagnosticReporter) -> (statement: Statement)
        requires
            old(reporter).wf(),
        ensures
            final(reporter).wf(),
            statement@ == parse_stmt(old(self).tokens(), old(self).position()).value,
            stepped(
                *old(self),
                *final(self),
                old(reporter)@,
                final(reporter)@,
                parse_stmt(old(self).tokens(), old(self).position()).used,
                parse_stmt(old(self).tokens(), old(self).position()).diagnostics,
            ),
    {
        proof {
            reveal(parse_stmt);
        }
        if self.check(&TokenType::KVariable) {
            self.parse_var_decl(reporter)
        } else if self.check(&TokenType::KReturn) {
            self.parse_return(reporter)
        } else {
            self.parse_expr_stmt(reporter)
        }
    }

    /// The variable declaration whose keyword is the current token.
    fn parse_var_decl(&mut self, reporter: &mut DiagnosticReporter) -> (statement: Statement)
        requires
            old(reporter).wf(),
            old(self).position() < old(self).tokens().len(),
        ensures
            final(reporter).wf(),
            statement@ == parse_var_decl(old(self).tokens(), old(self).position()).value,
            stepped(
                *old(self),
                *final(self),
                old(reporter)@,
                final(reporter)@,
                parse_var_decl(old(self).tokens(), old(self).position()).used,
                parse_var_decl(old(self).tokens(), old(self).position()).diagnostics,
            ),
    {
        proof {
            reveal(parse_var_decl);
        }
        self.advance();
        let name = self.must_consume_identifier(reporter);
        let ty = self.parse_type_after(TokenType::Colon, reporter);
        let expr = if self.check(&TokenType::Eq) {
            let equals = self.current_span();
            self.advance();
            let value = self.parse_expr(reporter);
            if matches!(value, Expr::Absent) {
                raise(reporter, String::from_str("unexpected '=' without expression"), equals);
            }
            value
        } else {
            Expr::Absent
        };
        self.consume(TokenType::Semicolon, reporter);
        Statement::VarDecl { name, ty, expr }
    }

    /// The return statement whose keyword is the current token.
    fn parse_return(&mut self, reporter: &mut DiagnosticReporter) -> (statement: Statement)
        requires
            old(reporter).wf(),
            old(self).position() < old(self).tokens().len(),
        ensures
            final(reporter).wf(),
            statement@ == parse_return(old(self).tokens(), old(self).position()).value,
            stepped(
                *old(self),
                *final(self),
                old(reporter)@,
                final(reporter)@,
                parse_return(old(self).tokens(), old(self).position()).used,
                parse_return(old(self).tokens(), old(self).position()).diagnostics,
            ),
    {
        proof {
            reveal(parse_return);
        }
        self.advance();
        let value = self.parse_expr(reporter);
        self.consume(TokenType::Semicolon, reporter);
        Statement::Return(value)
    }

    /// The expression statement that starts at the current token.
    fn parse_expr_stmt(&mut self, reporter: &mut DiagnosticReporter) -> (statement: Statement)
        requires
            old(reporter).wf(),
        ensures
            final(reporter).wf(),
            statement@ == parse_expr_stmt(old(self).tokens(), old(self).position()).value,
            stepped(
                *old(self),
                *final(self),
                old(reporter)@,
                final(reporter)@,
                parse_expr_stmt(old(self).tokens(), old(self).position()).used,
                parse_expr_stmt(old(self).tokens(), old(self).position()).diagnostics,
            ),
    {
        proof {
            reveal(parse_expr_stmt);
        }
        let value = self.parse_expr(reporter);
        if matches!(value, Expr::Unknown) {
            let before = self.previous_span();
            raise(reporter, String::from_str("Unexpected token found"), before);
            if self.current < self.tokens.len() {
                self.advance();
                self.synchronize(true);
            }
            Statement::Unknown
        } else {
            self.consume(TokenType::Semicolon, reporter);
            Statement::Expression(value)
        }
    }

    /// Skips the tokens that lie before the next place at which parsing can
    /// be taken up again.
    fn synchronize(&mut self, in_body: bool)
        ensures
            final(self).tokens() == old(self).tokens(),
            final(self).position() == old(self).position() + synchronize(
                old(self).tokens(),
                old(self).position(),
                in_body,
            ),
    {
        let ghost ts = self.tokens();
        let ghost start = self.position();
        loop
            invariant_except_break
                synchronize(ts, start, in_body) == (self.position() - start) + synchronize(
                    ts,
                    self.position(),
                    in_body,
                ),
            invariant
                self.tokens() == ts,
                start <= self.position(),
            ensures
                self.position() == start + synchronize(ts, start, in_body),
            decreases remaining(ts, self.position()),
        {
            let (stop, last) = match self.current() {
                Some(token) => (
                    matches!(
                        token.ty,
                        TokenType::Eof | TokenType::KClass | TokenType::KStruct
                            | TokenType::KFunction
                    ) || (in_body && matches!(token.ty, TokenType::KVariable)),
                    matches!(token.ty, TokenType::Semicolon),
                ),
                None => (true, false),
            };
            if stop {
                break ;
            }
            self.advance();
            if last {
                break ;
            }
        }
    }

    /// An expression.
    pub fn parse_expr(&mut self, reporter: &mut DiagnosticReporter) -> (expr: Expr)
        requires
            old(reporter).wf(),
        ensures
            final(reporter).wf(),
            expr@ == parse_expr(old(self).tokens(), old(self).position()).value,
            stepped(
                *old(self),
                *final(self),
                old(reporter)@,
                final(reporter)@,
                parse_expr(old(self).tokens(), old(self).position()).used,
                parse_expr(old(self).tokens(), old(self).position()).diagnostics,
            ),
    {
        self.parse_binary(0, reporter)
    }

    /// An expression at `level`.
    fn parse_binary(&mut self, level: u8, reporter: &mut DiagnosticReporter) -> (expr: Expr)
        requires
            old(reporter).wf(),
        ensures
            final(reporter).wf(),
            expr@ == parse_binary(old(self).tokens(), old(self).position(), level as nat).value,
            stepped(
                *old(self),
                *final(self),
                old(reporter)@,
                final(reporter)@,
                parse_binary(old(self).tokens(), old(self).position(), level as nat).used,
                parse_binary(old(self).tokens(), old(self).position(), level as nat).diagnostics,
            ),
        decreases remaining(old(self).tokens(), old(self).position()), 3 + 2 * height(level as nat),
    {
        if level >= 4 {
            return self.parse_unary(reporter);
        }
        let ghost ts = self.tokens();
        let ghost start = self.position();
        let mut left = self.parse_binary(level + 1, reporter);
        let ghost from = self.position();
        let ghost held = reporter@;
        let ghost whole = parse_binary_rest(ts, from, level as nat, left@);
        loop
            invariant_except_break
                whole.value == parse_binary_rest(ts, self.position(), level as nat, left@).value,
                whole.used == (self.position() - from) + parse_binary_rest(
                    ts,
                    self.position(),
                    level as nat,
                    left@,
                ).used,
                held + whole.diagnostics =~= reporter@ + parse_binary_rest(
                    ts,
                    self.position(),
                    level as nat,
                    left@,
                ).diagnostics,
            invariant
                reporter.wf(),
                self.tokens() == ts,
                level < 4,
                start <= from <= self.position(),
                ts == old(self).tokens(),
                start == old(self).position(),
            ensures
                whole.value == left@,
                whole.used == self.position() - from,
                held + whole.diagnostics =~= reporter@,
            decreases remaining(ts, self.position()),
        {
            let op = match self.binary_operator(level) {
                Some(op) => op,
                None => {
                    break ;
                },
            };
            self.advance();
            let right = self.parse_binary(level + 1, reporter);
            left = Expr::Binary { lhs: Box::new(left), op, rhs: Box::new(right) };
        }
        left
    }

    /// A prefix operator with its operand, or a primary expression.
    fn parse_unary(&mut self, reporter: &mut DiagnosticReporter) -> (expr: Expr)
        requires
            old(reporter).wf(),
        ensures
            final(reporter).wf(),
            expr@ == parse_unary(old(self).tokens(), old(self).position()).value,
            stepped(
                *old(self),
                *final(self),
                old(reporter)@,
                final(reporter)@,
                parse_unary(old(self).tokens(), old(self).position()).used,
                parse_unary(old(self).tokens(), old(self).position()).diagnostics,
            ),
        decreases remaining(old(self).tokens(), old(self).position()), 1nat,
    {
        match self.unary_operator() {
            Some(operator) => {
                self.advance();
                let operand = self.parse_unary(reporter);
                Expr::Unary { operator, operand: Box::new(operand) }
            },
            None => self.parse_primary(reporter),
        }
    }

    /// A literal, a variable or an expression in parentheses.
    fn parse_primary(&mut self, reporter: &mut DiagnosticReporter) -> (expr: Expr)
        requires
            old(reporter).wf(),
        ensures
            final(reporter).wf(),
            expr@ == parse_primary(old(self).tokens(), old(self).position()).value,
            stepped(
                *old(self),
                *final(self),
                old(reporter)@,
                final(reporter)@,
                parse_primary(old(self).tokens(), old(self).position()).used,
                parse_primary(old(self).tokens(), old(self).position()).diagnostics,
            ),
        decreases remaining(old(self).tokens(), old(self).position()), 0nat,
    {
        if self.at_literal() {
            Expr::Literal(self.advance())
        } else if self.at_identifier() {
            Expr::Var(self.advance())
        } else if self.check(&TokenType::LParen) {
            self.advance();
            let inner = self.parse_binary(0, reporter);
            self.consume(TokenType::RParen, reporter);
            Expr::Grouping(Box::new(inner))
        } else if self.check(&TokenType::Semicolon) {
            Expr::Absent
        } else {
            self.error(String::from_str("Expected an expression"), reporter);
            Expr::Unknown
        }
    }

    /// The binary operator of `level` that the current token is, if it is
    /// one.
    fn binary_operator(&self, level: u8) -> (op: Option<BinOp>)
        ensures
            op == binary_op(level as nat, current(self.tokens(), self.position()).ty),
            op is Some ==> self.position() < self.tokens().len() && level < 4,
    {
        let token = match self.current() {
            Some(token) => token,
            None => {
                return None;
            },
        };
        if level == 0 {
            match token.ty {
                TokenType::DoubleEq => Some(BinOp::Equal),
                TokenType::NotEq => Some(BinOp::NotEqual),
                _ => None,
            }
        } else if level == 1 {
            match token.ty {
                TokenType::GT => Some(BinOp::Greater),
                TokenType::GTEq => Some(BinOp::GreaterEqual),
                TokenType::LT => Some(BinOp::Less),
                TokenType::LTEq => Some(BinOp::LessEqual),
                _ => None,
            }
        } else if level == 2 {
            match token.ty {
                TokenType::Plus => Some(BinOp::Add),
                TokenType::Minus => Some(BinOp::Subtract),
                _ => None,
            }
        } else if level == 3 {
            match token.ty {
                TokenType::Asterisk => Some(BinOp::Multiply),
                TokenType::Slash => Some(BinOp::Divide),
                _ => None,
            }
        } else {
            None
        }
    }

    /// The prefix operator that the current token is, if it is one.
    fn unary_operator(&self) -> (op: Option<UnaryOp>)
        ensures
            op == unary_op(current(self.tokens(), self.position()).ty),
            op is Some ==> self.position() < self.tokens().len(),
    {
        match self.current() {
            Some(token) => match token.ty {
                TokenType::Not => Some(UnaryOp::Not),
                TokenType::Minus => Some(UnaryOp::Negate),
                _ => None,
            },
            None => None,
        }
    }

    /// Consumes the current token if it is of the type `expected`. If it is
    /// not, an error is raised at it and it stays.
    fn consume(&mut self, expected: TokenType, reporter: &mut DiagnosticReporter) -> (found: bool)
        requires
            old(reporter).wf(),
        ensures
            final(reporter).wf(),
            found == expect(old(self).tokens(), old(self).position(), expected@).value,
            stepped(
                *old(self),
                *final(self),
                old(reporter)@,
                final(reporter)@,
                expect(old(self).tokens(), old(self).position(), expected@).used,
                expect(old(self).tokens(), old(self).position(), expected@).diagnostics,
            ),
    {
        if self.check(&expected) {
            self.advance();
            true
        } else if self.is_at_end() {
            self.error(String::from_str("Unexpected <EOF>."), reporter);
            false
        } else {
            let mut message = String::from_str("Expected token: `");
            let shown = expected.describe();
            message.append(shown.as_str());
            message.append("`");
            self.error(message, reporter);
            false
        }
    }

    /// Consumes the current token if it is of the type `expected`, and
    /// raises an error if it is not, unless `quiet` is set.
    fn consume_quietly(
        &mut self,
        expected: TokenType,
        quiet: bool,
        reporter: &mut DiagnosticReporter,
    ) -> (found: bool)
        requires
            old(reporter).wf(),
        ensures
            final(reporter).wf(),
            found == expect_quietly(
                old(self).tokens(),
                old(self).position(),
                expected@,
                quiet,
            ).value,
            stepped(
                *old(self),
                *final(self),
                old(reporter)@,
                final(reporter)@,
                expect_quietly(old(self).tokens(), old(self).position(), expected@, quiet).used,
                expect_quietly(
                    old(self).tokens(),
                    old(self).position(),
                    expected@,
                    quiet,
                ).diagnostics,
            ),
    {
        if quiet {
            if self.check(&expected) {
                self.advance();
                true
            } else {
                false
            }
        } else {
            self.consume(expected, reporter)
        }
    }

    /// Consumes the current token if it is an identifier. If it is not, an
    /// error is raised at it, it stays, and a placeholder is returned.
    fn must_consume_identifier(&mut self, reporter: &mut DiagnosticReporter) -> (token: Token)
        requires
            old(reporter).wf(),
        ensures
            final(reporter).wf(),
            token@ == expect_identifier(old(self).tokens(), old(self).position()).value,
            stepped(
                *old(self),
                *final(self),
                old(reporter)@,
                final(reporter)@,
                expect_identifier(old(self).tokens(), old(self).position()).used,
                expect_identifier(old(self).tokens(), old(self).position()).diagnostics,
            ),
    {
        if self.at_identifier() {
            self.advance()
        } else {
            let span = self.current_span();
            if self.is_at_end() {
                self.error(String::from_str("Unexpected <EOF>."), reporter);
            } else {
                self.error(String::from_str("Expected an Identifier."), reporter);
            }
            Token::new(TokenType::Identifier(String::new()), span)
        }
    }

    /// The token `offset` places after the current one, if there is one.
    fn peek(&self, offset: usize) -> (token: Option<&Token>)
        ensures
            match token {
                Some(t) => self.position() + offset < self.tokens().len() && t@
                    == self.tokens()[self.position() + offset],
                None => self.position() + offset >= self.tokens().len(),
            },
    {
        let count: usize = self.tokens.len();
        if self.current < count && offset < count - self.current {
            Some(&self.tokens[self.current + offset])
        } else {
            None
        }
    }

    /// The current token, if the tokens have not run out.
    fn current(&self) -> (token: Option<&Token>)
        ensures
            match token {
                Some(t) => self.position() < self.tokens().len() && t@ == current(
                    self.tokens(),
                    self.position(),
                ),
                None => self.position() >= self.tokens().len(),
            },
    {
        self.peek(0)
    }

    /// Whether the current token is of the type `ty`.
    fn check(&self, ty: &TokenType) -> (answer: bool)
        ensures
            answer == (self.position() < self.tokens().len() && current(
                self.tokens(),
                self.position(),
            ).ty == ty@),
    {
        match self.current() {
            Some(token) => token.ty.same(ty),
            None => false,
        }
    }

    /// The span of the current token.
    fn current_span(&self) -> (span: Span)
        ensures
            span == current(self.tokens(), self.position()).span,
    {
        match self.current() {
            Some(token) => token.span,
            None => {
                let count: usize = self.tokens.len();
                if count > 0 {
                    self.tokens[count - 1].span
                } else {
                    Span::default()
                }
            },
        }
    }

    /// The span of the token before the current one.
    fn previous_span(&self) -> (span: Span)
        ensures
            span == previous_span(self.tokens(), self.position()),
    {
        if self.current > 0 {
            let count: usize = self.tokens.len();
            if self.current - 1 < count {
                self.tokens[self.current - 1].span
            } else if count > 0 {
                self.tokens[count - 1].span
            } else {
                Span::default()
            }
        } else {
            self.current_span()
        }
    }

    /// Whether a block ends at the current token.
    fn block_ends(&self) -> (answer: bool)
        ensures
            answer == block_ends(self.tokens(), self.position()),
    {
        match self.current() {
            Some(token) => matches!(token.ty, TokenType::RCurly | TokenType::Eof),
            None => true,
        }
    }

    /// Appends an error with this message at the current token.
    fn error(&self, message: String, reporter: &mut DiagnosticReporter)
        requires
            old(reporter).wf(),
        ensures
            final(reporter).wf(),
            final(reporter)@ == old(reporter)@.push(
                error_at(message@, current(self.tokens(), self.position()).span),
            ),
    {
        raise(reporter, message, self.current_span());
    }

    /// Consumes the current token and returns it. Where the tokens have run
    /// out, nothing is consumed and an end-of-input token is returned.
    fn advance(&mut self) -> (previous: Token)
        ensures
            previous@ == current(old(self).tokens(), old(self).position()),
            final(self).tokens() == old(self).tokens(),
            final(self).position() == if old(self).position() < old(self).tokens().len() {
                old(self).position() + 1
            } else {
                old(self).position()
            },
    {
        if self.current < self.tokens.len() {
            let previous = self.tokens[self.current].clone();
            self.current = self.current + 1;
            previous
        } else {
            Token::new(TokenType::Eof, self.current_span())
        }
    }

    /// Whether the current token is an identifier.
    fn at_identifier(&self) -> (answer: bool)
        ensures
            answer == (self.position() < self.tokens().len() && current(
                self.tokens(),
                self.position(),
            ).ty is Identifier),
    {
        match self.current() {
            Some(token) => matches!(token.ty, TokenType::Identifier(_)),
            None => false,
        }
    }

    /// Whether the current token is a literal.
    fn at_literal(&self) -> (answer: bool)
        ensures
            answer == (self.position() < self.tokens().len() && current(
                self.tokens(),
                self.position(),
            ).ty is Literal),
    {
        match self.current() {
            Some(token) => matches!(token.ty, TokenType::Literal(_)),
            None => false,
        }
    }

    /// Whether the input ends at the current token.
    fn is_at_end(&self) -> (answer: bool)
        ensures
            answer == at_end(self.tokens(), self.position()),
    {
        match self.current() {
            Some(token) => matches!(token.ty, TokenType::Eof),
            None => true,
        }
    }
}

} // verus!
