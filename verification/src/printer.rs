//! A printer for syntax trees.
//!
//! The printer writes a tree as indented lines. Every kind of node has its
//! form, the placeholders of error recovery too, so that any tree that the
//! parser result_line can be printed.

use vstd::prelude::*;
use vstd::string::*;
use crate::ast::{
    element_views, parameter_views, statement_views, BinOp, Block, Element, ElementView, Expr,
    ExprView, Function, FunctionView, Parameter, ParameterView, Statement, StatementView, UnaryOp,
    AST,
};
use crate::style::{paint_all, paints, piece_views, plain, styled, Piece, PieceView, Style};
use crate::text::push_char;
use crate::utils::{
    describe, LiteralKind, LiteralKindView, Token, TokenType, TokenTypeView, TokenView,
};

verus! {

/// One line of unstyled text behind the margin `margin`.
pub open spec fn line(margin: Seq<char>, text: Seq<char>) -> Seq<PieceView> {
    seq![plain(margin + text + "\n"@)]
}

/// One line that holds `text` in the style `style` behind the margin
/// `margin`.
pub open spec fn styled_line(margin: Seq<char>, text: Seq<char>, style: Style) -> Seq<PieceView> {
    seq![plain(margin), styled(text, style), plain("\n"@)]
}

/// The margin of what is nested in something with the margin `margin`: two
/// spaces more.
pub open spec fn deeper(margin: Seq<char>) -> Seq<char> {
    margin + "  "@
}

/// How a binary operator is written.
pub open spec fn op_text(op: BinOp) -> Seq<char> {
    match op {
        BinOp::Equal => "=="@,
        BinOp::NotEqual => "!="@,
        BinOp::Greater => ">"@,
        BinOp::GreaterEqual => ">="@,
        BinOp::Less => "<"@,
        BinOp::LessEqual => "<="@,
        BinOp::Add => "+"@,
        BinOp::Subtract => "-"@,
        BinOp::Multiply => "*"@,
        BinOp::Divide => "/"@,
    }
}

/// How a prefix operator is written.
pub open spec fn unary_text(op: UnaryOp) -> Seq<char> {
    match op {
        UnaryOp::Not => "!"@,
        UnaryOp::Negate => "-"@,
    }
}

/// The line of a literal: a number in the style of numbers, a string
/// between its quotes and a character with its quotes in the style of
/// texts. A token that is no literal is written as it is shown in messages.
pub open spec fn literal_layout(token: TokenView, margin: Seq<char>) -> Seq<PieceView> {
    match token.ty {
        TokenTypeView::Literal(LiteralKindView::Integer(text)) => styled_line(
            margin,
            text,
            Style::Number,
        ),
        TokenTypeView::Literal(LiteralKindView::Float(text)) => styled_line(
            margin,
            text,
            Style::Number,
        ),
        TokenTypeView::Literal(LiteralKindView::String(text)) => seq![
            plain(margin + "\""@),
            styled(text, Style::Text),
            plain("\"\n"@),
        ],
        TokenTypeView::Literal(LiteralKindView::Char(c)) => styled_line(
            margin,
            seq!['\'', c, '\''],
            Style::Text,
        ),
        _ => line(margin, describe(token.ty)),
    }
}

/// The lines of an expression.
pub open spec fn expr_layout(expr: ExprView, margin: Seq<char>) -> Seq<PieceView>
    decreases expr,
{
    match expr {
        ExprView::Binary { lhs, op, rhs } => line(margin, "lhs: {"@) + expr_layout(
            *lhs,
            deeper(margin),
        ) + line(margin, "}"@) + line(margin, "op: "@ + op_text(op)) + line(margin, "rhs: {"@)
            + expr_layout(*rhs, deeper(margin)) + line(margin, "}"@),
        ExprView::Unary { operator, operand } => line(margin, "op: "@ + unary_text(operator))
            + line(margin, "operand: {"@) + expr_layout(*operand, deeper(margin)) + line(
            margin,
            "}"@,
        ),
        ExprView::Literal(token) => literal_layout(token, margin),
        ExprView::Var(token) => line(margin, describe(token.ty)),
        ExprView::Grouping(inner) => line(margin, "group: {"@) + expr_layout(
            *inner,
            deeper(margin),
        ) + line(margin, "}"@),
        ExprView::Absent => line(margin, "()"@),
        ExprView::Unknown => styled_line(margin, "Invalid Expression!"@, Style::Alert),
    }
}

/// How a type that may be left out is written: its name, or `()`.
pub open spec fn optional_text(token: Option<TokenView>) -> Seq<char> {
    match token {
        Some(t) => describe(t.ty),
        None => "()"@,
    }
}

/// The lines of a variable declaration.
pub open spec fn var_decl_layout(
    name: TokenView,
    ty: Option<TokenView>,
    expr: ExprView,
    margin: Seq<char>,
) -> Seq<PieceView> {
    let inner = deeper(margin);
    line(margin, "VarDecl: {"@) + line(inner, "name: "@ + describe(name.ty)) + line(
        inner,
        "ty: "@ + optional_text(ty),
    ) + (if expr is Absent {
        line(inner, "expr: ()"@)
    } else {
        line(inner, "expr: {"@) + expr_layout(expr, deeper(inner)) + line(inner, "}"@)
    }) + line(margin, "}"@)
}

/// The lines of a statement.
pub open spec fn statement_layout(statement: StatementView, margin: Seq<char>) -> Seq<PieceView> {
    match statement {
        StatementView::VarDecl { name, ty, expr } => var_decl_layout(name, ty, expr, margin),
        StatementView::Return(expr) => line(margin, "Return: {"@) + expr_layout(
            expr,
            deeper(margin),
        ) + line(margin, "}"@),
        StatementView::Expression(expr) => expr_layout(expr, margin),
        StatementView::Unknown => styled_line(margin, "Invalid Statement!"@, Style::Alert),
    }
}

/// The lines of a sequence of statements, in order.
pub open spec fn statements_layout(statements: Seq<StatementView>, margin: Seq<char>) -> Seq<
    PieceView,
>
    decreases statements.len(),
{
    if statements.len() == 0 {
        Seq::empty()
    } else {
        statements_layout(statements.drop_last(), margin) + statement_layout(
            statements.last(),
            margin,
        )
    }
}

/// The lines of a block: its statements between braces.
pub open spec fn block_layout(statements: Seq<StatementView>, margin: Seq<char>) -> Seq<
    PieceView,
> {
    line(margin, "body: {"@) + statements_layout(statements, deeper(margin)) + line(margin, "}"@)
}

/// The line of a parameter: its name and the name of its type.
pub open spec fn parameter_layout(parameter: ParameterView, margin: Seq<char>) -> Seq<PieceView> {
    line(margin, describe(parameter.name.ty) + ": "@ + describe(parameter.ty.ty))
}

/// The lines of a sequence of parameters, in order.
pub open spec fn parameters_layout(parameters: Seq<ParameterView>, margin: Seq<char>) -> Seq<
    PieceView,
>
    decreases parameters.len(),
{
    if parameters.len() == 0 {
        Seq::empty()
    } else {
        parameters_layout(parameters.drop_last(), margin) + parameter_layout(
            parameters.last(),
            margin,
        )
    }
}

/// The lines of a function.
pub open spec fn function_layout(function: FunctionView, margin: Seq<char>) -> Seq<PieceView> {
    let inner = deeper(margin);
    line(margin, describe(function.name.ty) + ": Function {"@) + (if function.params.len() != 0 {
        line(inner, "params: ["@) + parameters_layout(function.params, deeper(inner)) + line(
            inner,
            "]"@,
        )
    } else {
        line(inner, "params: []"@)
    }) + line(inner, "return_type: "@ + optional_text(function.return_ty)) + block_layout(
        function.body,
        inner,
    ) + line(margin, "}"@)
}

/// The lines of an item.
pub open spec fn element_layout(element: ElementView, margin: Seq<char>) -> Seq<PieceView> {
    match element {
        ElementView::Function(function) => function_layout(function, margin),
        ElementView::Unknown => styled_line(margin, "Invalid Item!"@, Style::Alert),
    }
}

/// The lines of a program: those of its items, in order.
pub open spec fn program_layout(elements: Seq<ElementView>, margin: Seq<char>) -> Seq<PieceView>
    decreases elements.len(),
{
    if elements.len() == 0 {
        Seq::empty()
    } else {
        program_layout(elements.drop_last(), margin) + element_layout(elements.last(), margin)
    }
}

/// Number of nodes of an expression.
pub open spec fn nodes(expr: Expr) -> nat
    decreases expr,
{
    match expr {
        Expr::Binary { lhs, op, rhs } => 1 + nodes(*lhs) + nodes(*rhs),
        Expr::Unary { operator, operand } => 1 + nodes(*operand),
        Expr::Grouping(inner) => 1 + nodes(*inner),
        _ => 1,
    }
}

/// How a binary operator is written.
pub fn op_str(op: BinOp) -> (text: &'static str)
    ensures
        text@ == op_text(op),
{
    match op {
        BinOp::Equal => "==",
        BinOp::NotEqual => "!=",
        BinOp::Greater => ">",
        BinOp::GreaterEqual => ">=",
        BinOp::Less => "<",
        BinOp::LessEqual => "<=",
        BinOp::Add => "+",
        BinOp::Subtract => "-",
        BinOp::Multiply => "*",
        BinOp::Divide => "/",
    }
}

/// How a prefix operator is written.
pub fn unary_str(op: UnaryOp) -> (text: &'static str)
    ensures
        text@ == unary_text(op),
{
    match op {
        UnaryOp::Not => "!",
        UnaryOp::Negate => "-",
    }
}

/// The margin of what is nested in something with the margin `margin`.
fn nested(margin: &str) -> (inner: String)
    ensures
        inner@ == deeper(margin@),
{
    let mut inner = String::from_str(margin);
    inner.append("  ");
    inner
}

/// How a type that may be left out is written.
fn optional_str(token: &Option<Token>) -> (text: String)
    ensures
        text@ == optional_text(
            match token {
                Some(t) => Some(t@),
                None => None,
            },
        ),
{
    match token {
        Some(t) => t.ty.describe(),
        None => String::from_str("()"),
    }
}

/// Writes syntax trees as indented lines of styled text.
#[derive(Debug)]
pub struct AstPrinter {
    out: Vec<Piece>,
}

impl View for AstPrinter {
    type V = Seq<PieceView>;

    closed spec fn view(&self) -> Seq<PieceView> {
        piece_views(self.out@)
    }
}

impl AstPrinter {
    /// A printer that has written nothing.
    pub fn new() -> (printer: Self)
        ensures
            printer@ == Seq::<PieceView>::empty(),
    {
        let printer = Self { out: Vec::new() };
        printer
    }

    /// What was written, as pieces of styled text.
    pub fn output(&self) -> (pieces: &Vec<Piece>)
        ensures
            piece_views(pieces@) == self@,
    {
        &self.out
    }

    /// What was written, as it is sent to a terminal: each styled piece
    /// painted.
    pub fn text(&self) -> (out: String)
        ensures
            exists|painted: Seq<Seq<char>>| paints(painted, self@) && out@ == painted.flatten(),
    {
        paint_all(&self.out)
    }

    /// Writes one line of unstyled text behind `margin`.
    fn print_with_indent(&mut self, margin: &str, text: &str)
        ensures
            final(self)@ == old(self)@ + line(margin@, text@),
    {
        let mut whole = String::from_str(margin);
        whole.append(text);
        whole.append("\n");
        self.out.push(Piece::plain(whole));
    }

    /// Writes one line that holds `text` in the style `style` behind
    /// `margin`.
    fn print_styled(&mut self, margin: &str, text: String, style: Style)
        ensures
            final(self)@ == old(self)@ + styled_line(margin@, text@, style),
    {
        self.out.push(Piece::plain(String::from_str(margin)));
        self.out.push(Piece::new(text, style));
        self.out.push(Piece::plain(String::from_str("\n")));
    }

    /// Writes the program `ast` behind `margin`.
    pub fn print(&mut self, ast: &AST, margin: &str)
        ensures
            final(self)@ == old(self)@ + program_layout(ast@, margin@),
    {
        let elements = ast.elements();
        let mut i: usize = 0;
        while i < elements.len()
            invariant
                i <= elements.len(),
                element_views(elements@) == ast@,
                self@ == old(self)@ + program_layout(ast@.take(i as int), margin@),
            decreases elements.len() - i,
        {
            self.write_item(&elements[i], margin);
            proof {
                let now = ast@.take(i + 1);
                assert(now.drop_last() =~= ast@.take(i as int));
            }
            i = i + 1;
        }
        proof {
            assert(ast@.take(i as int) =~= ast@);
        }
    }

    /// Writes an item behind `margin`.
    pub fn write_item(&mut self, item: &Element, margin: &str)
        ensures
            final(self)@ == old(self)@ + element_layout(item@, margin@),
    {
        match item {
            Element::Function(function) => self.write_function(function, margin),
            Element::Unknown => self.print_styled(
                margin,
                String::from_str("Invalid Item!"),
                Style::Alert,
            ),
        }
    }

    /// Writes a function behind `margin`.
    pub fn write_function(&mut self, function: &Function, margin: &str)
        ensures
            final(self)@ == old(self)@ + function_layout(function@, margin@),
    {
        let inner = nested(margin);
        let mut head = function.name.ty.describe();
        head.append(": Function {");
        self.print_with_indent(margin, head.as_str());
        if function.params.len() != 0 {
            self.print_with_indent(inner.as_str(), "params: [");
            self.write_params(&function.params, nested(inner.as_str()).as_str());
            self.print_with_indent(inner.as_str(), "]");
        } else {
            self.print_with_indent(inner.as_str(), "params: []");
        }
        let mut result_line = String::from_str("return_type: ");
        result_line.append(optional_str(&function.return_ty).as_str());
        self.print_with_indent(inner.as_str(), result_line.as_str());
        self.write_block(&function.body, inner.as_str());
        self.print_with_indent(margin, "}");
    }

    /// Writes the parameters `params` behind `margin`, one on a line.
    fn write_params(&mut self, params: &Vec<Parameter>, margin: &str)
        ensures
            final(self)@ == old(self)@ + parameters_layout(
                parameter_views(params@),
                margin@,
            ),
    {
        let ghost all = parameter_views(params@);
        let mut i: usize = 0;
        while i < params.len()
            invariant
                i <= params.len(),
                all == parameter_views(params@),
                self@ == old(self)@ + parameters_layout(all.take(i as int), margin@),
            decreases params.len() - i,
        {
            let mut text = params[i].name.ty.describe();
            text.append(": ");
            text.append(params[i].ty.ty.describe().as_str());
            self.print_with_indent(margin, text.as_str());
            proof {
                let now = all.take(i + 1);
                assert(now.drop_last() =~= all.take(i as int));
            }
            i = i + 1;
        }
        proof {
            assert(all.take(i as int) =~= all);
        }
    }

    /// Writes a block behind `margin`.
    pub fn write_block(&mut self, block: &Block, margin: &str)
        ensures
            final(self)@ == old(self)@ + block_layout(block@, margin@),
    {
        let inner = nested(margin);
        self.print_with_indent(margin, "body: {");
        let ghost opened = self@;
        let ghost all = block@;
        let mut i: usize = 0;
        while i < block.0.len()
            invariant
                i <= block.0.len(),
                all == block@,
                all == statement_views(block.0@),
                self@ == opened + statements_layout(all.take(i as int), inner@),
            decreases block.0.len() - i,
        {
            self.write_statement(&block.0[i], inner.as_str());
            proof {
                let now = all.take(i + 1);
                assert(now.drop_last() =~= all.take(i as int));
            }
            i = i + 1;
        }
        proof {
            assert(all.take(i as int) =~= all);
        }
        self.print_with_indent(margin, "}");
    }

    /// Writes a statement behind `margin`.
    pub fn write_statement(&mut self, statement: &Statement, margin: &str)
        ensures
            final(self)@ == old(self)@ + statement_layout(statement@, margin@),
    {
        match statement {
            Statement::VarDecl { name, ty, expr } => self.write_var_decl(name, ty, expr, margin),
            Statement::Return(expr) => self.write_return(expr, margin),
            Statement::Expression(expr) => self.write_expr(expr, margin),
            Statement::Unknown => self.print_styled(
                margin,
                String::from_str("Invalid Statement!"),
                Style::Alert,
            ),
        }
    }

    /// Writes a return statement behind `margin`.
    pub fn write_return(&mut self, expr: &Expr, margin: &str)
        ensures
            final(self)@ == old(self)@ + statement_layout(StatementView::Return(expr@), margin@),
    {
        self.print_with_indent(margin, "Return: {");
        self.write_expr(expr, nested(margin).as_str());
        self.print_with_indent(margin, "}");
    }

    /// Writes a variable declaration behind `margin`.
    pub fn write_var_decl(&mut self, name: &Token, ty: &Option<Token>, expr: &Expr, margin: &str)
        ensures
            final(self)@ == old(self)@ + var_decl_layout(
                name@,
                match ty {
                    Some(t) => Some(t@),
                    None => None,
                },
                expr@,
                margin@,
            ),
    {
        let inner = nested(margin);
        self.print_with_indent(margin, "VarDecl: {");
        let mut named = String::from_str("name: ");
        named.append(name.ty.describe().as_str());
        self.print_with_indent(inner.as_str(), named.as_str());
        let mut typed = String::from_str("ty: ");
        typed.append(optional_str(ty).as_str());
        self.print_with_indent(inner.as_str(), typed.as_str());
        if matches!(expr, Expr::Absent) {
            self.print_with_indent(inner.as_str(), "expr: ()");
        } else {
            self.print_with_indent(inner.as_str(), "expr: {");
            self.write_expr(expr, nested(inner.as_str()).as_str());
            self.print_with_indent(inner.as_str(), "}");
        }
        self.print_with_indent(margin, "}");
        assert(self@ =~= old(self)@ + var_decl_layout(
            name@,
            match ty {
                Some(t) => Some(t@),
                None => None,
            },
            expr@,
            margin@,
        ));
    }

    /// Writes an expression behind `margin`.
    pub fn write_expr(&mut self, expr: &Expr, margin: &str)
        ensures
            final(self)@ == old(self)@ + expr_layout(expr@, margin@),
        decreases nodes(*expr), 1nat,
    {
        match expr {
            Expr::Binary { lhs, op, rhs } => self.write_binary_expr(lhs, op, rhs, margin),
            Expr::Unary { operator, operand } => self.write_unary_expr(operator, operand, margin),
            Expr::Literal(token) => self.write_literal(token, margin),
            Expr::Var(token) => self.write_ident(token, margin),
            Expr::Grouping(inner) => self.write_grouping(inner, margin),
            Expr::Absent => self.print_with_indent(margin, "()"),
            Expr::Unknown => self.print_styled(
                margin,
                String::from_str("Invalid Expression!"),
                Style::Alert,
            ),
        }
    }

    /// Writes a binary expression behind `margin`: its left operand, its
    /// operator and its right operand.
    pub fn write_binary_expr(&mut self, lhs: &Box<Expr>, op: &BinOp, rhs: &Box<Expr>, margin: &str)
        ensures
            final(self)@ == old(self)@ + expr_layout(
                ExprView::Binary { lhs: Box::new(lhs@), op: *op, rhs: Box::new(rhs@) },
                margin@,
            ),
        decreases 1 + nodes(**lhs) + nodes(**rhs), 0nat,
    {
        let inner = nested(margin);
        self.print_with_indent(margin, "lhs: {");
        self.write_expr(lhs, inner.as_str());
        self.print_with_indent(margin, "}");
        let mut middle = String::from_str("op: ");
        middle.append(op_str(*op));
        self.print_with_indent(margin, middle.as_str());
        self.print_with_indent(margin, "rhs: {");
        self.write_expr(rhs, inner.as_str());
        self.print_with_indent(margin, "}");
        assert(self@ =~= old(self)@ + expr_layout(
            ExprView::Binary { lhs: Box::new(lhs@), op: *op, rhs: Box::new(rhs@) },
            margin@,
        ));
    }

    /// Writes a prefix expression behind `margin`: its operator and its
    /// operand.
    pub fn write_unary_expr(&mut self, operator: &UnaryOp, operand: &Box<Expr>, margin: &str)
        ensures
            final(self)@ == old(self)@ + expr_layout(
                ExprView::Unary { operator: *operator, operand: Box::new(operand@) },
                margin@,
            ),
        decreases 1 + nodes(**operand), 0nat,
    {
        let mut head = String::from_str("op: ");
        head.append(unary_str(*operator));
        self.print_with_indent(margin, head.as_str());
        self.print_with_indent(margin, "operand: {");
        self.write_expr(operand, nested(margin).as_str());
        self.print_with_indent(margin, "}");
        assert(self@ =~= old(self)@ + expr_layout(
            ExprView::Unary { operator: *operator, operand: Box::new(operand@) },
            margin@,
        ));
    }

    /// Writes an expression in parentheses behind `margin`.
    pub fn write_grouping(&mut self, inner: &Box<Expr>, margin: &str)
        ensures
            final(self)@ == old(self)@ + expr_layout(
                ExprView::Grouping(Box::new(inner@)),
                margin@,
            ),
        decreases 1 + nodes(**inner), 0nat,
    {
        self.print_with_indent(margin, "group: {");
        self.write_expr(inner, nested(margin).as_str());
        self.print_with_indent(margin, "}");
    }

    /// Writes the name of a variable behind `margin`.
    pub fn write_ident(&mut self, ident: &Token, margin: &str)
        ensures
            final(self)@ == old(self)@ + line(margin@, describe(ident@.ty)),
    {
        self.print_with_indent(margin, ident.ty.describe().as_str());
    }

    /// Writes a literal behind `margin`.
    pub fn write_literal(&mut self, literal: &Token, margin: &str)
        ensures
            final(self)@ == old(self)@ + literal_layout(literal@, margin@),
    {
        match &literal.ty {
            TokenType::Literal(LiteralKind::Integer(text)) => self.print_styled(
                margin,
                text.clone(),
                Style::Number,
            ),
            TokenType::Literal(LiteralKind::Float(text)) => self.print_styled(
                margin,
                text.clone(),
                Style::Number,
            ),
            TokenType::Literal(LiteralKind::String(text)) => {
                let mut open = String::from_str(margin);
                open.append("\"");
                self.out.push(Piece::plain(open));
                self.out.push(Piece::new(text.clone(), Style::Text));
                self.out.push(Piece::plain(String::from_str("\"\n")));
            },
            TokenType::Literal(LiteralKind::Char(c)) => {
                let mut quoted = String::new();
                push_char(&mut quoted, '\'');
                push_char(&mut quoted, *c);
                push_char(&mut quoted, '\'');
                assert(quoted@ =~= seq!['\'', *c, '\'']);
                self.print_styled(margin, quoted, Style::Text);
            },
            _ => self.print_with_indent(margin, literal.ty.describe().as_str()),
        }
    }
}

/// A node of a syntax tree as a visitor meets it.
pub enum Node {
    Function(FunctionView),
    UnknownItem,
    Block(Seq<StatementView>),
    VarDecl { name: TokenView, ty: Option<TokenView>, expr: ExprView },
    Return(ExprView),
    UnknownStatement,
    Binary { lhs: ExprView, op: BinOp, rhs: ExprView },
    Unary { operator: UnaryOp, operand: ExprView },
    Ident(TokenView),
    Literal(TokenView),
    Grouping(ExprView),
    Absent,
    UnknownExpr,
}

/// The node that an expression is.
pub open spec fn expr_node(expr: ExprView) -> Node {
    match expr {
        ExprView::Binary { lhs, op, rhs } => Node::Binary { lhs: *lhs, op, rhs: *rhs },
        ExprView::Unary { operator, operand } => Node::Unary { operator, operand: *operand },
        ExprView::Literal(token) => Node::Literal(token),
        ExprView::Var(token) => Node::Ident(token),
        ExprView::Grouping(inner) => Node::Grouping(*inner),
        ExprView::Absent => Node::Absent,
        ExprView::Unknown => Node::UnknownExpr,
    }
}

/// The node that a statement is. An expression statement is the node of its
/// expression.
pub open spec fn statement_node(statement: StatementView) -> Node {
    match statement {
        StatementView::VarDecl { name, ty, expr } => Node::VarDecl { name, ty, expr },
        StatementView::Return(expr) => Node::Return(expr),
        StatementView::Expression(expr) => expr_node(expr),
        StatementView::Unknown => Node::UnknownStatement,
    }
}

/// The node that an item is.
pub open spec fn item_node(element: ElementView) -> Node {
    match element {
        ElementView::Function(function) => Node::Function(function),
        ElementView::Unknown => Node::UnknownItem,
    }
}

/// The lines of a node.
pub open spec fn node_layout(node: Node, margin: Seq<char>) -> Seq<PieceView> {
    match node {
        Node::Function(function) => function_layout(function, margin),
        Node::UnknownItem => element_layout(ElementView::Unknown, margin),
        Node::Block(statements) => block_layout(statements, margin),
        Node::VarDecl { name, ty, expr } => var_decl_layout(name, ty, expr, margin),
        Node::Return(expr) => statement_layout(StatementView::Return(expr), margin),
        Node::UnknownStatement => statement_layout(StatementView::Unknown, margin),
        Node::Binary { lhs, op, rhs } => expr_layout(
            ExprView::Binary { lhs: Box::new(lhs), op, rhs: Box::new(rhs) },
            margin,
        ),
        Node::Unary { operator, operand } => expr_layout(
            ExprView::Unary { operator, operand: Box::new(operand) },
            margin,
        ),
        Node::Ident(token) => expr_layout(ExprView::Var(token), margin),
        Node::Literal(token) => expr_layout(ExprView::Literal(token), margin),
        Node::Grouping(inner) => expr_layout(ExprView::Grouping(Box::new(inner)), margin),
        Node::Absent => expr_layout(ExprView::Absent, margin),
        Node::UnknownExpr => expr_layout(ExprView::Unknown, margin),
    }
}

/// The model of a token that may be missing.
pub open spec fn optional_view(token: Option<Token>) -> Option<TokenView> {
    match token {
        Some(t) => Some(t@),
        None => None,
    }
}

/// A visitor of syntax trees. It has one method for each kind of node; the
/// three methods that take an item, a statement or an expression hand the
/// node to the method of its kind. What visiting a node does to a visitor is
/// for each visitor to say, in `visited`.
pub trait Visitor: Sized {
    /// Whether visiting `node` takes the visitor from `before` to `after`.
    /// A visitor that does not say otherwise promises nothing.
    open spec fn visited(before: Self, node: Node, after: Self) -> bool {
        true
    }

    fn visit_func(&mut self, function: &Function)
        ensures
            Self::visited(*old(self), Node::Function(function@), *final(self)),
    ;

    fn visit_unknown_item(&mut self)
        ensures
            Self::visited(*old(self), Node::UnknownItem, *final(self)),
    ;

    fn visit_block(&mut self, block: &Block)
        ensures
            Self::visited(*old(self), Node::Block(block@), *final(self)),
    ;

    fn visit_var_decl(&mut self, name: &Token, ty: &Option<Token>, expr: &Expr)
        ensures
            Self::visited(
                *old(self),
                Node::VarDecl { name: name@, ty: optional_view(*ty), expr: expr@ },
                *final(self),
            ),
    ;

    fn visit_return(&mut self, expr: &Expr)
        ensures
            Self::visited(*old(self), Node::Return(expr@), *final(self)),
    ;

    fn visit_unknown_stmt(&mut self)
        ensures
            Self::visited(*old(self), Node::UnknownStatement, *final(self)),
    ;

    fn visit_binary_expr(&mut self, lhs: &Box<Expr>, op: &BinOp, rhs: &Box<Expr>)
        ensures
            Self::visited(
                *old(self),
                Node::Binary { lhs: lhs@, op: *op, rhs: rhs@ },
                *final(self),
            ),
    ;

    fn visit_unary_expr(&mut self, operator: &UnaryOp, operand: &Box<Expr>)
        ensures
            Self::visited(
                *old(self),
                Node::Unary { operator: *operator, operand: operand@ },
                *final(self),
            ),
    ;

    fn visit_ident(&mut self, ident: &Token)
        ensures
            Self::visited(*old(self), Node::Ident(ident@), *final(self)),
    ;

    fn visit_literal(&mut self, literal: &Token)
        ensures
            Self::visited(*old(self), Node::Literal(literal@), *final(self)),
    ;

    fn visit_grouping(&mut self, inner: &Box<Expr>)
        ensures
            Self::visited(*old(self), Node::Grouping(inner@), *final(self)),
    ;

    fn visit_absent(&mut self)
        ensures
            Self::visited(*old(self), Node::Absent, *final(self)),
    ;

    fn visit_unknown_expr(&mut self)
        ensures
            Self::visited(*old(self), Node::UnknownExpr, *final(self)),
    ;

    /// Hands an item to the method of its kind.
    fn do_visit_item(&mut self, item: &Element)
        ensures
            Self::visited(*old(self), item_node(item@), *final(self)),
    {
        match item {
            Element::Function(function) => self.visit_func(function),
            Element::Unknown => self.visit_unknown_item(),
        }
    }

    /// Visits an item.
    fn visit_item(&mut self, item: &Element)
        ensures
            Self::visited(*old(self), item_node(item@), *final(self)),
    {
        self.do_visit_item(item);
    }

    /// Hands a statement to the method of its kind.
    fn do_visit_stmt(&mut self, stmt: &Statement)
        ensures
            Self::visited(*old(self), statement_node(stmt@), *final(self)),
    {
        match stmt {
            Statement::VarDecl { name, ty, expr } => self.visit_var_decl(name, ty, expr),
            Statement::Return(expr) => self.visit_return(expr),
            Statement::Expression(expr) => self.visit_expr(expr),
            Statement::Unknown => self.visit_unknown_stmt(),
        }
    }

    /// Visits a statement.
    fn visit_stmt(&mut self, stmt: &Statement)
        ensures
            Self::visited(*old(self), statement_node(stmt@), *final(self)),
    {
        self.do_visit_stmt(stmt);
    }

    /// Hands an expression to the method of its kind.
    fn do_visit_expr(&mut self, expr: &Expr)
        ensures
            Self::visited(*old(self), expr_node(expr@), *final(self)),
    {
        match expr {
            Expr::Binary { lhs, op, rhs } => self.visit_binary_expr(lhs, op, rhs),
            Expr::Unary { operator, operand } => self.visit_unary_expr(operator, operand),
            Expr::Literal(literal) => self.visit_literal(literal),
            Expr::Var(ident) => self.visit_ident(ident),
            Expr::Grouping(inner) => self.visit_grouping(inner),
            Expr::Absent => self.visit_absent(),
            Expr::Unknown => self.visit_unknown_expr(),
        }
    }

    /// Visits an expression.
    fn visit_expr(&mut self, expr: &Expr)
        ensures
            Self::visited(*old(self), expr_node(expr@), *final(self)),
    {
        self.do_visit_expr(expr);
    }
}

/// The printer visits a node by writing its lines, without a margin, after
/// what it has written.
impl Visitor for AstPrinter {
    open spec fn visited(before: Self, node: Node, after: Self) -> bool {
        after@ == before@ + node_layout(node, ""@)
    }

    fn visit_func(&mut self, function: &Function) {
        self.write_function(function, "");
    }

    fn visit_unknown_item(&mut self) {
        self.write_item(&Element::Unknown, "");
    }

    fn visit_block(&mut self, block: &Block) {
        self.write_block(block, "");
    }

    fn visit_var_decl(&mut self, name: &Token, ty: &Option<Token>, expr: &Expr) {
        self.write_var_decl(name, ty, expr, "");
    }

    fn visit_return(&mut self, expr: &Expr) {
        self.write_return(expr, "");
    }

    fn visit_unknown_stmt(&mut self) {
        self.write_statement(&Statement::Unknown, "");
    }

    fn visit_binary_expr(&mut self, lhs: &Box<Expr>, op: &BinOp, rhs: &Box<Expr>) {
        self.write_binary_expr(lhs, op, rhs, "");
    }

    fn visit_unary_expr(&mut self, operator: &UnaryOp, operand: &Box<Expr>) {
        self.write_unary_expr(operator, operand, "");
    }

    fn visit_ident(&mut self, ident: &Token) {
        self.write_ident(ident, "");
    }

    fn visit_literal(&mut self, literal: &Token) {
        self.write_literal(literal, "");
    }

    fn visit_grouping(&mut self, inner: &Box<Expr>) {
        self.write_grouping(inner, "");
    }

    fn visit_absent(&mut self) {
        self.write_expr(&Expr::Absent, "");
    }

    fn visit_unknown_expr(&mut self) {
        self.write_expr(&Expr::Unknown, "");
    }
}

} // verus!
