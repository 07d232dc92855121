//! The syntax tree that the parser builds.
//!
//! Each node owns its children. A node that stands for something in the
//! source keeps the token it came from, so that later stages can point at it.

use vstd::prelude::*;
use crate::utils::{Token, TokenView};

verus! {

/// The binary operators, from the loosest to the tightest binding.
#[derive(Debug, Clone, Copy, PartialEq, Eq, Structural)]
pub enum BinOp {
    Equal,
    NotEqual,
    Greater,
    GreaterEqual,
    Less,
    LessEqual,
    Add,
    Subtract,
    Multiply,
    Divide,
}

/// The prefix operators.
#[derive(Debug, Clone, Copy, PartialEq, Eq, Structural)]
pub enum UnaryOp {
    Not,
    Negate,
}

/// An expression.
#[derive(Debug, PartialEq, Eq)]
pub enum Expr {
    Binary { lhs: Box<Expr>, op: BinOp, rhs: Box<Expr> },
    Unary { operator: UnaryOp, operand: Box<Expr> },
    Literal(Token),
    Var(Token),
    Grouping(Box<Expr>),
    /// No expression was written where one may be left out.
    Absent,
    /// No expression could be read where one was needed.
    Unknown,
}

/// Mathematical model of an [`Expr`].
pub enum ExprView {
    Binary { lhs: Box<ExprView>, op: BinOp, rhs: Box<ExprView> },
    Unary { operator: UnaryOp, operand: Box<ExprView> },
    Literal(TokenView),
    Var(TokenView),
    Grouping(Box<ExprView>),
    Absent,
    Unknown,
}

/// The model of an expression: the same tree over the models of its tokens.
pub open spec fn expr_view(expr: Expr) -> ExprView
    decreases expr,
{
    match expr {
        Expr::Binary { lhs, op, rhs } => ExprView::Binary {
            lhs: Box::new(expr_view(*lhs)),
            op,
            rhs: Box::new(expr_view(*rhs)),
        },
        Expr::Unary { operator, operand } => ExprView::Unary {
            operator,
            operand: Box::new(expr_view(*operand)),
        },
        Expr::Literal(token) => ExprView::Literal(token@),
        Expr::Var(token) => ExprView::Var(token@),
        Expr::Grouping(inner) => ExprView::Grouping(Box::new(expr_view(*inner))),
        Expr::Absent => ExprView::Absent,
        Expr::Unknown => ExprView::Unknown,
    }
}

impl View for Expr {
    type V = ExprView;

    open spec fn view(&self) -> ExprView {
        expr_view(*self)
    }
}

/// A statement of a function body.
#[derive(Debug, PartialEq, Eq)]
pub enum Statement {
    VarDecl { name: Token, ty: Option<Token>, expr: Expr },
    Return(Expr),
    Expression(Expr),
    /// What is left of a statement that could not be read.
    Unknown,
}

/// Mathematical model of a [`Statement`].
pub enum StatementView {
    VarDecl { name: TokenView, ty: Option<TokenView>, expr: ExprView },
    Return(ExprView),
    Expression(ExprView),
    Unknown,
}

impl View for Statement {
    type V = StatementView;

    open spec fn view(&self) -> StatementView {
        match self {
            Statement::VarDecl { name, ty, expr } => StatementView::VarDecl {
                name: name@,
                ty: match ty {
                    Some(token) => Some(token@),
                    None => None,
                },
                expr: expr@,
            },
            Statement::Return(expr) => StatementView::Return(expr@),
            Statement::Expression(expr) => StatementView::Expression(expr@),
            Statement::Unknown => StatementView::Unknown,
        }
    }
}

/// The models of a sequence of statements, in order.
pub open spec fn statement_views(statements: Seq<Statement>) -> Seq<StatementView> {
    statements.map_values(|s: Statement| s@)
}

/// The statements between the braces of a function.
#[derive(Debug, PartialEq, Eq)]
pub struct Block(pub Vec<Statement>);

impl View for Block {
    type V = Seq<StatementView>;

    open spec fn view(&self) -> Seq<StatementView> {
        statement_views(self.0@)
    }
}

/// A parameter of a function: its name and the name of its type.
#[derive(Debug, PartialEq, Eq)]
pub struct Parameter {
    pub name: Token,
    pub ty: Token,
}

/// Mathematical model of a [`Parameter`].
pub struct ParameterView {
    pub name: TokenView,
    pub ty: TokenView,
}

impl View for Parameter {
    type V = ParameterView;

    open spec fn view(&self) -> ParameterView {
        ParameterView { name: self.name@, ty: self.ty@ }
    }
}

/// The models of a sequence of parameters, in order.
pub open spec fn parameter_views(parameters: Seq<Parameter>) -> Seq<ParameterView> {
    parameters.map_values(|p: Parameter| p@)
}

/// A function: its name, its parameters, the name of its return type where
/// one is given, and its body.
#[derive(Debug, PartialEq, Eq)]
pub struct Function {
    pub name: Token,
    pub params: Vec<Parameter>,
    pub return_ty: Option<Token>,
    pub body: Block,
}

/// Mathematical model of a [`Function`].
pub struct FunctionView {
    pub name: TokenView,
    pub params: Seq<ParameterView>,
    pub return_ty: Option<TokenView>,
    pub body: Seq<StatementView>,
}

impl View for Function {
    type V = FunctionView;

    open spec fn view(&self) -> FunctionView {
        FunctionView {
            name: self.name@,
            params: parameter_views(self.params@),
            return_ty: match self.return_ty {
                Some(token) => Some(token@),
                None => None,
            },
            body: self.body@,
        }
    }
}

/// An item at the top level of a file.
#[derive(Debug, PartialEq, Eq)]
pub enum Element {
    Function(Function),
    /// What is left of an item that could not be read.
    Unknown,
}

/// Mathematical model of an [`Element`].
pub enum ElementView {
    Function(FunctionView),
    Unknown,
}

impl View for Element {
    type V = ElementView;

    open spec fn view(&self) -> ElementView {
        match self {
            Element::Function(function) => ElementView::Function(function@),
            Element::Unknown => ElementView::Unknown,
        }
    }
}

/// The models of a sequence of items, in order.
pub open spec fn element_views(elements: Seq<Element>) -> Seq<ElementView> {
    elements.map_values(|e: Element| e@)
}

/// A program: the items of one file, in the order of the source.
#[derive(Debug, PartialEq, Eq)]
pub struct AST {
    elements: Vec<Element>,
}

impl View for AST {
    type V = Seq<ElementView>;

    closed spec fn view(&self) -> Seq<ElementView> {
        element_views(self.elements@)
    }
}

impl AST {
    /// A program without items.
    pub fn new() -> (ast: Self)
        ensures
            ast@ == Seq::<ElementView>::empty(),
    {
        let ast = Self { elements: Vec::new() };
        ast
    }

    /// Appends `element` after the items that the program has.
    pub fn add_element(&mut self, element: Element)
        ensures
            final(self)@ == old(self)@.push(element@),
    {
        self.elements.push(element);
    }

    /// The items of the program, in the order of the source.
    pub fn elements(&self) -> (all: &Vec<Element>)
        ensures
            element_views(all@) == self@,
    {
        &self.elements
    }
}

} // verus!
