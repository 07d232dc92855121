use glacier::ast::{BinOp, Block, Element, Expr, Function, UnaryOp, AST};
use glacier::compiler::Compiler;
use glacier::diagnostic::DiagnosticReporter;
use glacier::printer::{op_str, unary_str, AstPrinter, Visitor};
use glacier::style::{Piece, Style};
use glacier::utils::{LiteralKind, Span, Token, TokenType};

fn parse(source: &str) -> AST {
    let mut reporter = DiagnosticReporter::new();
    Compiler::new(source).compile(0, &mut reporter)
}

fn printed(source: &str) -> Vec<Piece> {
    let mut printer = AstPrinter::new();
    printer.print(&parse(source), "");
    printer.output().iter().map(|p| Piece::new(p.text.clone(), p.style)).collect()
}

fn plain(text: &str) -> Piece {
    Piece::plain(text.to_string())
}

fn styled(text: &str, style: Style) -> Piece {
    Piece::new(text.to_string(), style)
}

#[test]
fn new_printer_has_written_nothing() {
    let printer = AstPrinter::new();
    assert!(printer.output().is_empty());
    assert_eq!(printer.text(), "");
}

#[test]
fn empty_program_prints_nothing() {
    assert!(printed("").is_empty());
}

#[test]
fn printing_a_function() {
    assert_eq!(
        printed("func add(a: int, b: int) -> int { var x: int = a + 1; return x; }"),
        vec![
            plain("add: Function {\n"),
            plain("  params: [\n"),
            plain("    a: int\n"),
            plain("    b: int\n"),
            plain("  ]\n"),
            plain("  return_type: int\n"),
            plain("  body: {\n"),
            plain("    VarDecl: {\n"),
            plain("      name: x\n"),
            plain("      ty: int\n"),
            plain("      expr: {\n"),
            plain("        lhs: {\n"),
            plain("          a\n"),
            plain("        }\n"),
            plain("        op: +\n"),
            plain("        rhs: {\n"),
            plain("          "),
            styled("1", Style::Number),
            plain("\n"),
            plain("        }\n"),
            plain("      }\n"),
            plain("    }\n"),
            plain("    Return: {\n"),
            plain("      x\n"),
            plain("    }\n"),
            plain("  }\n"),
            plain("}\n"),
        ]
    );
}

#[test]
fn printing_without_parameters_type_or_value() {
    assert_eq!(
        printed("func main() { var x; }"),
        vec![
            plain("main: Function {\n"),
            plain("  params: []\n"),
            plain("  return_type: ()\n"),
            plain("  body: {\n"),
            plain("    VarDecl: {\n"),
            plain("      name: x\n"),
            plain("      ty: ()\n"),
            plain("      expr: ()\n"),
            plain("    }\n"),
            plain("  }\n"),
            plain("}\n"),
        ]
    );
}

#[test]
fn printing_literals() {
    assert_eq!(
        printed("func f() { 1.5; \"s\"; 'c'; }"),
        vec![
            plain("f: Function {\n"),
            plain("  params: []\n"),
            plain("  return_type: ()\n"),
            plain("  body: {\n"),
            plain("    "),
            styled("1.5", Style::Number),
            plain("\n"),
            plain("    \""),
            styled("s", Style::Text),
            plain("\"\n"),
            plain("    "),
            styled("'c'", Style::Text),
            plain("\n"),
            plain("  }\n"),
            plain("}\n"),
        ]
    );
}

#[test]
fn printing_placeholders() {
    assert_eq!(
        printed(") ; func f() { ) ; ; return (-x) * ; }"),
        vec![
            plain(""),
            styled("Invalid Item!", Style::Alert),
            plain("\n"),
            plain("f: Function {\n"),
            plain("  params: []\n"),
            plain("  return_type: ()\n"),
            plain("  body: {\n"),
            plain("    "),
            styled("Invalid Statement!", Style::Alert),
            plain("\n"),
            plain("    ()\n"),
            plain("    Return: {\n"),
            plain("      lhs: {\n"),
            plain("        group: {\n"),
            plain("          op: -\n"),
            plain("          operand: {\n"),
            plain("            x\n"),
            plain("          }\n"),
            plain("        }\n"),
            plain("      }\n"),
            plain("      op: *\n"),
            plain("      rhs: {\n"),
            plain("        ()\n"),
            plain("      }\n"),
            plain("    }\n"),
            plain("  }\n"),
            plain("}\n"),
        ]
    );
    let mut printer = AstPrinter::new();
    printer.write_expr(&Expr::Unknown, "  ");
    assert_eq!(
        printer.output(),
        &vec![plain("  "), styled("Invalid Expression!", Style::Alert), plain("\n")]
    );
}

#[test]
fn printing_behind_a_margin() {
    let mut printer = AstPrinter::new();
    printer.print(&parse("func f() {}"), "> ");
    let texts: Vec<&str> = printer.output().iter().map(|p| p.text.as_str()).collect();
    assert_eq!(
        texts,
        vec![
            "> f: Function {\n",
            ">   params: []\n",
            ">   return_type: ()\n",
            ">   body: {\n",
            ">   }\n",
            "> }\n",
        ]
    );
    assert_eq!(printer.text(), texts.concat());
}

#[test]
fn printing_appends() {
    let mut printer = AstPrinter::new();
    let x = Token::new(TokenType::Identifier("x".to_string()), Span::new(0, 1, 0));
    printer.write_ident(&x, "");
    printer.write_expr(
        &Expr::Unary { operator: UnaryOp::Not, operand: Box::new(Expr::Var(x.clone())) },
        " ",
    );
    printer.write_literal(
        &Token::new(TokenType::Literal(LiteralKind::Integer("7".to_string())), Span::new(0, 1, 0)),
        "",
    );
    printer.write_literal(&x, "");
    let texts: Vec<&str> = printer.output().iter().map(|p| p.text.as_str()).collect();
    assert_eq!(
        texts,
        vec!["x\n", " op: !\n", " operand: {\n", "   x\n", " }\n", "", "7", "\n", "x\n"]
    );
}

#[test]
fn operators_are_written_as_in_the_source() {
    let all = [
        (BinOp::Equal, "=="),
        (BinOp::NotEqual, "!="),
        (BinOp::Greater, ">"),
        (BinOp::GreaterEqual, ">="),
        (BinOp::Less, "<"),
        (BinOp::LessEqual, "<="),
        (BinOp::Add, "+"),
        (BinOp::Subtract, "-"),
        (BinOp::Multiply, "*"),
        (BinOp::Divide, "/"),
    ];
    for (op, text) in all {
        assert_eq!(op_str(op), text);
    }
    assert_eq!(unary_str(UnaryOp::Not), "!");
    assert_eq!(unary_str(UnaryOp::Negate), "-");
}

#[test]
fn visiting_items_prints_the_program() {
    let ast = parse("x func f(a: int) -> int { var x = (1); ; ) ; return -a * 2; }");
    let mut visited = AstPrinter::new();
    for item in ast.elements() {
        visited.visit_item(item);
    }
    let mut direct = AstPrinter::new();
    direct.print(&ast, "");
    assert_eq!(visited.output(), direct.output());
    assert!(!direct.output().is_empty());
}

#[test]
fn visiting_statements_and_expressions() {
    let ast = parse("func f() { var x = 1; return x; x + 1; ) ; }");
    let function = match &ast.elements()[0] {
        Element::Function(function) => function,
        Element::Unknown => panic!("no function"),
    };
    for statement in &function.body.0 {
        let mut visited = AstPrinter::new();
        visited.visit_stmt(statement);
        let mut again = AstPrinter::new();
        again.do_visit_stmt(statement);
        let mut direct = AstPrinter::new();
        direct.write_statement(statement, "");
        assert_eq!(visited.output(), direct.output());
        assert_eq!(again.output(), direct.output());
    }
    let x = Token::new(TokenType::Identifier("x".to_string()), Span::new(0, 1, 0));
    let expressions = vec![
        Expr::Var(x.clone()),
        Expr::Absent,
        Expr::Unknown,
        Expr::Grouping(Box::new(Expr::Var(x.clone()))),
        Expr::Unary { operator: UnaryOp::Negate, operand: Box::new(Expr::Var(x.clone())) },
        Expr::Binary {
            lhs: Box::new(Expr::Var(x.clone())),
            op: BinOp::Less,
            rhs: Box::new(Expr::Absent),
        },
        Expr::Literal(Token::new(TokenType::Literal(LiteralKind::Char('c')), Span::new(0, 3, 0))),
    ];
    for expr in &expressions {
        let mut visited = AstPrinter::new();
        visited.visit_expr(expr);
        let mut direct = AstPrinter::new();
        direct.write_expr(expr, "");
        assert_eq!(visited.output(), direct.output());
        assert!(!direct.output().is_empty());
    }
    let mut printer = AstPrinter::new();
    printer.visit_block(&function.body);
    assert_eq!(printer.output()[0], plain("body: {\n"));
}

struct Counter {
    functions: usize,
    unknown_items: usize,
    statements: usize,
    expressions: usize,
}

impl Visitor for Counter {
    fn visit_func(&mut self, function: &Function) {
        self.functions += 1;
        self.visit_block(&function.body);
    }

    fn visit_unknown_item(&mut self) {
        self.unknown_items += 1;
    }

    fn visit_block(&mut self, block: &Block) {
        for statement in &block.0 {
            self.visit_stmt(statement);
        }
    }

    fn visit_var_decl(&mut self, _name: &Token, _ty: &Option<Token>, expr: &Expr) {
        self.statements += 1;
        self.visit_expr(expr);
    }

    fn visit_return(&mut self, expr: &Expr) {
        self.statements += 1;
        self.visit_expr(expr);
    }

    fn visit_unknown_stmt(&mut self) {
        self.statements += 1;
    }

    fn visit_binary_expr(&mut self, lhs: &Box<Expr>, _op: &BinOp, rhs: &Box<Expr>) {
        self.expressions += 1;
        self.visit_expr(lhs);
        self.visit_expr(rhs);
    }

    fn visit_unary_expr(&mut self, _operator: &UnaryOp, operand: &Box<Expr>) {
        self.expressions += 1;
        self.visit_expr(operand);
    }

    fn visit_ident(&mut self, _ident: &Token) {
        self.expressions += 1;
    }

    fn visit_literal(&mut self, _literal: &Token) {
        self.expressions += 1;
    }

    fn visit_grouping(&mut self, inner: &Box<Expr>) {
        self.expressions += 1;
        self.visit_expr(inner);
    }

    fn visit_absent(&mut self) {
        self.expressions += 1;
    }

    fn visit_unknown_expr(&mut self) {
        self.expressions += 1;
    }
}

#[test]
fn a_visitor_of_ones_own_meets_every_node() {
    let ast = parse(") ; func f() { var x = (1 + -y); return; ) ; } func g() {}");
    let mut counter = Counter { functions: 0, unknown_items: 0, statements: 0, expressions: 0 };
    for item in ast.elements() {
        counter.visit_item(item);
    }
    assert_eq!(counter.functions, 2);
    assert_eq!(counter.unknown_items, 1);
    assert_eq!(counter.statements, 3);
    // (1 + -y): group, sum, 1, negation, y; and the value that `return` lacks.
    assert_eq!(counter.expressions, 6);
}
