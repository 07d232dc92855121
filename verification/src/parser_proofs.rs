//! Theorems about the tree of a token sequence.

use vstd::prelude::*;
use crate::ast::ExprView;
use crate::parser::{
    at_end, binary_levels, binary_op, block_ends, current, expect_identifier, expect_quietly, height,
    lemma_element_progress, lemma_stmt_progress, parse_binary, parse_binary_rest, parse_block,
    parse_body, parse_element, parse_elements, parse_expr, parse_expr_stmt, parse_function,
    parse_param, parse_param_list, parse_params, parse_primary, parse_program, parse_return,
    parse_stmt, parse_type_after, parse_unary, parse_var_decl, remaining, restarts, synchronize,
    unary_op,
};
use crate::utils::{TokenTypeView, TokenView};

verus! {

/// Skipping to the next place to take up parsing stays within the tokens.
pub proof fn lemma_synchronize_within(ts: Seq<TokenView>, pos: nat, in_body: bool)
    ensures
        synchronize(ts, pos, in_body) <= remaining(ts, pos),
    decreases remaining(ts, pos),
{
    let ty = current(ts, pos).ty;
    if pos < ts.len() && !(ty is Eof) && !restarts(ty, in_body) && !(ty
        is Semicolon) {
        lemma_synchronize_within(ts, pos + 1, in_body);
    }
}

/// An expression at any level stays within the tokens.
pub proof fn lemma_binary_within(ts: Seq<TokenView>, pos: nat, level: nat)
    ensures
        parse_binary(ts, pos, level).used <= remaining(ts, pos),
    decreases remaining(ts, pos), 3 + 2 * height(level),
{
    if level >= binary_levels() {
        lemma_unary_within(ts, pos);
    } else {
        lemma_binary_within(ts, pos, level + 1);
        let first = parse_binary(ts, pos, level + 1);
        lemma_binary_rest_within(ts, pos + first.used, level, first.value);
    }
}

/// The operators that follow an operand stay within the tokens.
pub proof fn lemma_binary_rest_within(ts: Seq<TokenView>, pos: nat, level: nat, left: ExprView)
    ensures
        parse_binary_rest(ts, pos, level, left).used <= remaining(ts, pos),
    decreases remaining(ts, pos), 2 + 2 * height(level),
{
    match binary_op(level, current(ts, pos).ty) {
        Some(op) => {
            if pos < ts.len() && level < binary_levels() {
                lemma_binary_within(ts, pos + 1, level + 1);
                let right = parse_binary(ts, pos + 1, level + 1);
                let folded = ExprView::Binary {
                    lhs: Box::new(left),
                    op,
                    rhs: Box::new(right.value),
                };
                lemma_binary_rest_within(ts, pos + 1 + right.used, level, folded);
            }
        },
        None => {},
    }
}

/// A prefix expression stays within the tokens.
pub proof fn lemma_unary_within(ts: Seq<TokenView>, pos: nat)
    ensures
        parse_unary(ts, pos).used <= remaining(ts, pos),
    decreases remaining(ts, pos), 1nat,
{
    match unary_op(current(ts, pos).ty) {
        Some(operator) => {
            if pos < ts.len() {
                lemma_unary_within(ts, pos + 1);
            } else {
                lemma_primary_within(ts, pos);
            }
        },
        None => {
            lemma_primary_within(ts, pos);
        },
    }
}

/// A primary expression stays within the tokens.
pub proof fn lemma_primary_within(ts: Seq<TokenView>, pos: nat)
    ensures
        parse_primary(ts, pos).used <= remaining(ts, pos),
    decreases remaining(ts, pos), 0nat,
{
    if pos < ts.len() && current(ts, pos).ty is LParen {
        lemma_binary_within(ts, pos + 1, 0);
    }
}

/// A statement stays within the tokens.
pub proof fn lemma_stmt_within(ts: Seq<TokenView>, pos: nat)
    ensures
        parse_stmt(ts, pos).used <= remaining(ts, pos),
{
    reveal(parse_stmt);
    reveal(parse_var_decl);
    reveal(parse_return);
    reveal(parse_expr_stmt);
    reveal(parse_type_after);
    let ty = current(ts, pos).ty;
    if pos < ts.len() && ty is KVariable {
        let name = expect_identifier(ts, pos + 1);
        let after_name = pos + 1 + name.used;
        let given = parse_type_after(ts, after_name, TokenTypeView::Colon);
        let after_ty = after_name + given.used;
        if after_ty < ts.len() && current(ts, after_ty).ty is Eq {
            lemma_binary_within(ts, after_ty + 1, 0);
        }
    } else if pos < ts.len() && ty is KReturn {
        lemma_binary_within(ts, pos + 1, 0);
    } else {
        lemma_binary_within(ts, pos, 0);
        let value = parse_expr(ts, pos);
        let after = pos + value.used;
        if after < ts.len() {
            lemma_synchronize_within(ts, after + 1, true);
        }
    }
}

/// The statements of a block stay within the tokens.
pub proof fn lemma_block_within(ts: Seq<TokenView>, pos: nat)
    ensures
        parse_block(ts, pos).used <= remaining(ts, pos),
    decreases remaining(ts, pos),
{
    if !block_ends(ts, pos) {
        lemma_stmt_progress(ts, pos);
        lemma_stmt_within(ts, pos);
        lemma_block_within(ts, pos + parse_stmt(ts, pos).used);
    }
}

/// A list of parameters stays within the tokens.
pub proof fn lemma_params_within(ts: Seq<TokenView>, pos: nat, more: bool)
    ensures
        parse_params(ts, pos, more).used <= remaining(ts, pos),
    decreases remaining(ts, pos),
{
    reveal(parse_param);
    if pos < ts.len() && current(ts, pos).ty is Identifier {
        let first = parse_param(ts, pos);
        let after = pos + first.used;
        if after < ts.len() && current(ts, after).ty is Comma {
            lemma_params_within(ts, after + 1, true);
        }
    }
}

/// A function stays within the tokens.
pub proof fn lemma_function_within(ts: Seq<TokenView>, pos: nat)
    requires
        pos < ts.len(),
    ensures
        parse_function(ts, pos).used <= remaining(ts, pos),
{
    reveal(parse_function);
    reveal(parse_param_list);
    reveal(parse_type_after);
    reveal(parse_body);
    let name = expect_identifier(ts, pos + 1);
    let after_name = pos + 1 + name.used;
    let quiet = name.diagnostics.len() > 0;
    let open = expect_quietly(ts, after_name, TokenTypeView::LParen, quiet);
    lemma_params_within(ts, after_name + open.used, false);
    let params = parse_param_list(ts, after_name, quiet);
    let after_params = after_name + params.used;
    let return_ty = parse_type_after(ts, after_params, TokenTypeView::RightArrow);
    let at_body = after_params + return_ty.used;
    let head = name.diagnostics + params.diagnostics + return_ty.diagnostics;
    if expect_quietly(ts, at_body, TokenTypeView::LCurly, head.len() > 0).value {
        lemma_block_within(ts, at_body + 1);
    } else {
        lemma_synchronize_within(ts, at_body, false);
    }
}

/// An item that starts within the tokens stays within them.
pub proof fn lemma_element_within(ts: Seq<TokenView>, pos: nat)
    requires
        pos < ts.len(),
    ensures
        parse_element(ts, pos).used <= remaining(ts, pos),
{
    reveal(parse_element);
    if current(ts, pos).ty is KFunction {
        lemma_function_within(ts, pos);
    } else {
        lemma_synchronize_within(ts, pos + 1, false);
    }
}

/// Parsing from `pos` on consumes no more tokens than there are, and gives
/// no more items than it consumes tokens.
pub proof fn lemma_elements_within(ts: Seq<TokenView>, pos: nat)
    ensures
        parse_elements(ts, pos).value.len() <= parse_elements(ts, pos).used <= remaining(ts, pos),
    decreases remaining(ts, pos),
{
    if pos < ts.len() && !at_end(ts, pos) {
        lemma_element_progress(ts, pos);
        lemma_element_within(ts, pos);
        lemma_elements_within(ts, pos + parse_element(ts, pos).used);
    }
}

/// Every token sequence has a program, whatever it holds. Parsing consumes
/// no more tokens than there are, and the program has no more items than
/// there are tokens.
pub proof fn lemma_parse_bounded(ts: Seq<TokenView>)
    ensures
        parse_program(ts).value.len() <= parse_program(ts).used <= ts.len(),
{
    lemma_elements_within(ts, 0);
}

} // verus!
