use glacier::ast::{BinOp, Block, Element, Expr, Function, Parameter, Statement, UnaryOp, AST};
use glacier::compiler::Compiler;
use glacier::diagnostic::{DiagnosticLevel, DiagnosticReporter};
use glacier::lexer::Lexer;
use glacier::parser::Parser;
use glacier::utils::{LiteralKind, Span, Token, TokenType};

fn parse(source: &str) -> (AST, DiagnosticReporter) {
    let mut reporter = DiagnosticReporter::new();
    let ast = Compiler::new(source).compile(0, &mut reporter);
    (ast, reporter)
}

fn parse_expr(source: &str) -> (Expr, DiagnosticReporter) {
    let mut reporter = DiagnosticReporter::new();
    let tokens = Lexer::new(source, 0).identify_tokens(&mut reporter);
    let expr = Parser::new(tokens).parse_expr(&mut reporter);
    (expr, reporter)
}

fn parse_stmt(source: &str) -> (Statement, DiagnosticReporter) {
    let mut reporter = DiagnosticReporter::new();
    let tokens = Lexer::new(source, 0).identify_tokens(&mut reporter);
    let statement = Parser::new(tokens).parse_stmt(&mut reporter);
    (statement, reporter)
}

fn messages(reporter: &DiagnosticReporter) -> Vec<String> {
    reporter.diagnostics().iter().map(|d| d.message.clone()).collect()
}

fn number(text: &str, start: usize) -> Expr {
    Expr::Literal(Token::new(
        TokenType::Literal(LiteralKind::Integer(text.to_string())),
        Span::new(start, start + text.len(), 0),
    ))
}

fn name(text: &str, start: usize) -> Token {
    Token::new(TokenType::Identifier(text.to_string()), Span::new(start, start + text.len(), 0))
}

fn var(text: &str, start: usize) -> Expr {
    Expr::Var(name(text, start))
}

fn binary(lhs: Expr, op: BinOp, rhs: Expr) -> Expr {
    Expr::Binary { lhs: Box::new(lhs), op, rhs: Box::new(rhs) }
}

fn unary(operator: UnaryOp, operand: Expr) -> Expr {
    Expr::Unary { operator, operand: Box::new(operand) }
}

fn functions(ast: &AST) -> Vec<&Function> {
    ast.elements()
        .iter()
        .filter_map(|e| match e {
            Element::Function(f) => Some(f),
            Element::Unknown => None,
        })
        .collect()
}

#[test]
fn multiplication_binds_tighter_than_addition() {
    let (expr, reporter) = parse_expr("1 + 2 * 3");
    assert_eq!(
        expr,
        binary(number("1", 0), BinOp::Add, binary(number("2", 4), BinOp::Multiply, number("3", 8)))
    );
    assert!(!reporter.has_error());
}

#[test]
fn grouping_overrides_precedence() {
    let (expr, reporter) = parse_expr("(1 + 2) * 3");
    assert_eq!(
        expr,
        binary(
            Expr::Grouping(Box::new(binary(number("1", 1), BinOp::Add, number("2", 5)))),
            BinOp::Multiply,
            number("3", 10)
        )
    );
    assert!(!reporter.has_error());
}

#[test]
fn binary_operators_associate_to_the_left() {
    let (expr, _) = parse_expr("1 - 2 - 3");
    assert_eq!(
        expr,
        binary(binary(number("1", 0), BinOp::Subtract, number("2", 4)), BinOp::Subtract, number("3", 8))
    );
    let (expr, _) = parse_expr("8 / 4 * 2");
    assert_eq!(
        expr,
        binary(binary(number("8", 0), BinOp::Divide, number("4", 4)), BinOp::Multiply, number("2", 8))
    );
}

#[test]
fn all_levels_of_precedence() {
    let (expr, reporter) = parse_expr("a == b < c + d * e");
    assert_eq!(
        expr,
        binary(
            var("a", 0),
            BinOp::Equal,
            binary(
                var("b", 5),
                BinOp::Less,
                binary(
                    var("c", 9),
                    BinOp::Add,
                    binary(var("d", 13), BinOp::Multiply, var("e", 17))
                )
            )
        )
    );
    assert!(!reporter.has_error());
    let (expr, _) = parse_expr("a * b + c >= d != e");
    assert_eq!(
        expr,
        binary(
            binary(
                binary(
                    binary(var("a", 0), BinOp::Multiply, var("b", 4)),
                    BinOp::Add,
                    var("c", 8)
                ),
                BinOp::GreaterEqual,
                var("d", 13)
            ),
            BinOp::NotEqual,
            var("e", 18)
        )
    );
    let (expr, _) = parse_expr("a > b <= c");
    assert_eq!(
        expr,
        binary(binary(var("a", 0), BinOp::Greater, var("b", 4)), BinOp::LessEqual, var("c", 9))
    );
}

#[test]
fn prefix_operators() {
    let (expr, reporter) = parse_expr("-!x");
    assert_eq!(expr, unary(UnaryOp::Negate, unary(UnaryOp::Not, var("x", 2))));
    assert!(!reporter.has_error());
    let (expr, _) = parse_expr("-a * -b");
    assert_eq!(
        expr,
        binary(
            unary(UnaryOp::Negate, var("a", 1)),
            BinOp::Multiply,
            unary(UnaryOp::Negate, var("b", 6))
        )
    );
    let (expr, _) = parse_expr("a - -b");
    assert_eq!(
        expr,
        binary(var("a", 0), BinOp::Subtract, unary(UnaryOp::Negate, var("b", 5)))
    );
}

#[test]
fn primary_expressions() {
    let (expr, _) = parse_expr("1.5");
    assert_eq!(
        expr,
        Expr::Literal(Token::new(
            TokenType::Literal(LiteralKind::Float("1.5".to_string())),
            Span::new(0, 3, 0)
        ))
    );
    let (expr, _) = parse_expr("'c'");
    assert_eq!(
        expr,
        Expr::Literal(Token::new(TokenType::Literal(LiteralKind::Char('c')), Span::new(0, 3, 0)))
    );
    let (expr, _) = parse_expr("\"s\"");
    assert_eq!(
        expr,
        Expr::Literal(Token::new(
            TokenType::Literal(LiteralKind::String("s".to_string())),
            Span::new(0, 3, 0)
        ))
    );
    let (expr, _) = parse_expr("x");
    assert_eq!(expr, var("x", 0));
    let (expr, reporter) = parse_expr(";");
    assert_eq!(expr, Expr::Absent);
    assert!(reporter.diagnostics().is_empty());
}

#[test]
fn missing_expression() {
    let (expr, reporter) = parse_expr(")");
    assert_eq!(expr, Expr::Unknown);
    assert_eq!(messages(&reporter), vec!["Expected an expression".to_string()]);
    assert_eq!(reporter.diagnostics()[0].span, Span::new(0, 1, 0));
    assert_eq!(reporter.diagnostics()[0].level, DiagnosticLevel::Error);

    let (expr, reporter) = parse_expr("");
    assert_eq!(expr, Expr::Unknown);
    assert_eq!(messages(&reporter), vec!["Expected an expression".to_string()]);

    let (expr, reporter) = parse_expr("1 + ");
    assert_eq!(expr, binary(number("1", 0), BinOp::Add, Expr::Unknown));
    assert_eq!(messages(&reporter), vec!["Expected an expression".to_string()]);

    let (expr, reporter) = parse_expr("* 3");
    assert_eq!(expr, binary(Expr::Unknown, BinOp::Multiply, number("3", 2)));
    assert_eq!(reporter.errors(), 1);
}

#[test]
fn unclosed_group() {
    let (expr, reporter) = parse_expr("(1");
    assert_eq!(expr, Expr::Grouping(Box::new(number("1", 1))));
    assert_eq!(messages(&reporter), vec!["Unexpected <EOF>.".to_string()]);

    let (expr, reporter) = parse_expr("(1 ;");
    assert_eq!(expr, Expr::Grouping(Box::new(number("1", 1))));
    assert_eq!(messages(&reporter), vec!["Expected token: `)`".to_string()]);
    assert_eq!(reporter.diagnostics()[0].span, Span::new(3, 4, 0));
}

#[test]
fn variable_declarations() {
    let (statement, reporter) = parse_stmt("var x: int = 1 + 2;");
    assert_eq!(
        statement,
        Statement::VarDecl {
            name: name("x", 4),
            ty: Some(name("int", 7)),
            expr: binary(number("1", 13), BinOp::Add, number("2", 17)),
        }
    );
    assert!(!reporter.has_error());

    let (statement, reporter) = parse_stmt("var x = y;");
    assert_eq!(
        statement,
        Statement::VarDecl { name: name("x", 4), ty: None, expr: var("y", 8) }
    );
    assert!(!reporter.has_error());

    let (statement, reporter) = parse_stmt("var x;");
    assert_eq!(
        statement,
        Statement::VarDecl { name: name("x", 4), ty: None, expr: Expr::Absent }
    );
    assert!(!reporter.has_error());

    let (statement, reporter) = parse_stmt("var x: int;");
    assert_eq!(
        statement,
        Statement::VarDecl { name: name("x", 4), ty: Some(name("int", 7)), expr: Expr::Absent }
    );
    assert!(!reporter.has_error());
}

#[test]
fn equals_without_expression() {
    let (statement, reporter) = parse_stmt("var x = ;");
    assert_eq!(
        statement,
        Statement::VarDecl { name: name("x", 4), ty: None, expr: Expr::Absent }
    );
    assert_eq!(messages(&reporter), vec!["unexpected '=' without expression".to_string()]);
    assert_eq!(reporter.diagnostics()[0].span, Span::new(6, 7, 0));
}

#[test]
fn malformed_variable_declarations() {
    let (statement, reporter) = parse_stmt("var = 1;");
    assert_eq!(
        statement,
        Statement::VarDecl {
            name: Token::new(TokenType::Identifier(String::new()), Span::new(4, 5, 0)),
            ty: None,
            expr: number("1", 6),
        }
    );
    assert_eq!(messages(&reporter), vec!["Expected an Identifier.".to_string()]);

    let (statement, reporter) = parse_stmt("var x: = 1;");
    assert_eq!(
        statement,
        Statement::VarDecl {
            name: name("x", 4),
            ty: Some(Token::new(TokenType::Identifier(String::new()), Span::new(7, 8, 0))),
            expr: number("1", 9),
        }
    );
    assert_eq!(messages(&reporter), vec!["Expected an Identifier.".to_string()]);

    let (statement, reporter) = parse_stmt("var x = 1");
    assert_eq!(
        statement,
        Statement::VarDecl { name: name("x", 4), ty: None, expr: number("1", 8) }
    );
    assert_eq!(messages(&reporter), vec!["Unexpected <EOF>.".to_string()]);

    let (_, reporter) = parse_stmt("var x = 1 }");
    assert_eq!(messages(&reporter), vec!["Expected token: `;`".to_string()]);
    assert_eq!(reporter.diagnostics()[0].span, Span::new(10, 11, 0));

    let (_, reporter) = parse_stmt("var");
    assert_eq!(
        messages(&reporter),
        vec!["Unexpected <EOF>.".to_string(), "Unexpected <EOF>.".to_string()]
    );
}

#[test]
fn return_statements() {
    let (statement, reporter) = parse_stmt("return a * 2;");
    assert_eq!(
        statement,
        Statement::Return(binary(var("a", 7), BinOp::Multiply, number("2", 11)))
    );
    assert!(!reporter.has_error());
    let (statement, reporter) = parse_stmt("return;");
    assert_eq!(statement, Statement::Return(Expr::Absent));
    assert!(!reporter.has_error());
}

#[test]
fn expression_statements() {
    let (statement, reporter) = parse_stmt("a + 1;");
    assert_eq!(statement, Statement::Expression(binary(var("a", 0), BinOp::Add, number("1", 4))));
    assert!(!reporter.has_error());

    let (statement, reporter) = parse_stmt(";");
    assert_eq!(statement, Statement::Expression(Expr::Absent));
    assert!(!reporter.has_error());

    let (statement, reporter) = parse_stmt("a b;");
    assert_eq!(statement, Statement::Expression(var("a", 0)));
    assert_eq!(messages(&reporter), vec!["Expected token: `;`".to_string()]);
}

#[test]
fn statement_that_starts_with_no_expression() {
    let mut reporter = DiagnosticReporter::new();
    let tokens = Lexer::new("a; ) b c; d;", 0).identify_tokens(&mut reporter);
    let mut parser = Parser::new(tokens);
    assert_eq!(parser.parse_stmt(&mut reporter), Statement::Expression(var("a", 0)));
    assert_eq!(parser.parse_stmt(&mut reporter), Statement::Unknown);
    assert_eq!(parser.parse_stmt(&mut reporter), Statement::Expression(var("d", 10)));
    assert_eq!(
        messages(&reporter),
        vec!["Expected an expression".to_string(), "Unexpected token found".to_string()]
    );
    // The first error is at the token that cannot be read, the second at the
    // token before it.
    assert_eq!(reporter.diagnostics()[0].span, Span::new(3, 4, 0));
    assert_eq!(reporter.diagnostics()[1].span, Span::new(1, 2, 0));
}

#[test]
fn recovery_stops_before_a_declaration() {
    let mut reporter = DiagnosticReporter::new();
    let tokens = Lexer::new(") x y var z;", 0).identify_tokens(&mut reporter);
    let mut parser = Parser::new(tokens);
    assert_eq!(parser.parse_stmt(&mut reporter), Statement::Unknown);
    assert_eq!(
        parser.parse_stmt(&mut reporter),
        Statement::VarDecl { name: name("z", 10), ty: None, expr: Expr::Absent }
    );
    assert_eq!(reporter.errors(), 2);
}

#[test]
fn a_function() {
    let (ast, reporter) = parse("func add(a: int, b: int) -> int { return a + b; }");
    assert!(!reporter.has_error());
    assert_eq!(
        ast.elements(),
        &vec![Element::Function(Function {
            name: name("add", 5),
            params: vec![
                Parameter { name: name("a", 9), ty: name("int", 12) },
                Parameter { name: name("b", 17), ty: name("int", 20) },
            ],
            return_ty: Some(name("int", 28)),
            body: Block(vec![Statement::Return(binary(var("a", 41), BinOp::Add, var("b", 45)))]),
        })]
    );
}

#[test]
fn a_function_without_parameters_and_return_type() {
    let (ast, reporter) = parse("func main() { }");
    assert!(!reporter.has_error());
    assert_eq!(
        ast.elements(),
        &vec![Element::Function(Function {
            name: name("main", 5),
            params: vec![],
            return_ty: None,
            body: Block(vec![]),
        })]
    );
}

#[test]
fn several_functions() {
    let (ast, reporter) = parse("func a() {} func b() { var x = 1; x; } func c() {}");
    assert!(!reporter.has_error());
    let found = functions(&ast);
    assert_eq!(found.len(), 3);
    assert_eq!(found[0].name.ty, TokenType::Identifier("a".to_string()));
    assert_eq!(found[1].body.0.len(), 2);
    assert_eq!(found[2].name.ty, TokenType::Identifier("c".to_string()));
}

#[test]
fn empty_input_is_an_empty_program() {
    let (ast, reporter) = parse("");
    assert!(ast.elements().is_empty());
    assert!(!reporter.has_error());
    let mut reporter = DiagnosticReporter::new();
    let ast = Parser::new(vec![]).parse(&mut reporter);
    assert!(ast.elements().is_empty());
    assert!(reporter.diagnostics().is_empty());
    assert_eq!(AST::new(), ast);
}

#[test]
fn recovery_keeps_the_function() {
    let (ast, reporter) = parse("func f( { var x = ; } ");
    assert!(reporter.diagnostics().len() >= 2);
    assert!(reporter.has_error());
    assert_eq!(
        messages(&reporter),
        vec![
            "Expected token: `)`".to_string(),
            "unexpected '=' without expression".to_string(),
        ]
    );
    assert_eq!(ast.elements().len(), 1);
    match &ast.elements()[0] {
        Element::Function(function) => {
            assert_eq!(function.name, name("f", 5));
            assert!(function.params.is_empty());
            assert_eq!(
                function.body,
                Block(vec![Statement::VarDecl {
                    name: name("x", 14),
                    ty: None,
                    expr: Expr::Absent,
                }])
            );
        }
        Element::Unknown => panic!("the function was dropped"),
    }
}

#[test]
fn unexpected_token_at_the_top_level() {
    let (ast, reporter) = parse("x y func f() {}");
    assert_eq!(messages(&reporter), vec!["Unexpected token found".to_string()]);
    assert_eq!(reporter.diagnostics()[0].span, Span::new(0, 1, 0));
    assert_eq!(ast.elements().len(), 2);
    assert_eq!(ast.elements()[0], Element::Unknown);
    assert_eq!(functions(&ast).len(), 1);
}

#[test]
fn every_item_unknown() {
    let (ast, reporter) = parse(") ; ) ; 1 2 3");
    assert_eq!(
        ast.elements(),
        &vec![Element::Unknown, Element::Unknown, Element::Unknown]
    );
    assert_eq!(reporter.errors(), 3);
    for diagnostic in reporter.diagnostics() {
        assert_eq!(diagnostic.message, "Unexpected token found");
    }
}

#[test]
fn item_keywords_restart_parsing() {
    let (ast, reporter) = parse("struct a b class c func f() {}");
    assert_eq!(
        messages(&reporter),
        vec!["Unexpected token found".to_string(), "Unexpected token found".to_string()]
    );
    assert_eq!(ast.elements().len(), 3);
    assert_eq!(functions(&ast).len(), 1);
}

#[test]
fn parameters() {
    let (ast, reporter) = parse("func f(a: int,) {}");
    assert_eq!(messages(&reporter), vec!["Expected an Identifier.".to_string()]);
    assert_eq!(functions(&ast)[0].params.len(), 1);

    // One error for one place: the parenthesis and the brace that are
    // missing at the same token are not reported on top of the colon.
    let (ast, reporter) = parse("func f(a int) {}");
    assert_eq!(messages(&reporter), vec!["Expected token: `:`".to_string()]);
    assert_eq!(ast.elements().len(), 1);
    assert_eq!(
        functions(&ast)[0].params,
        vec![Parameter {
            name: name("a", 7),
            ty: Token::new(TokenType::Identifier(String::new()), Span::new(9, 12, 0)),
        }]
    );

    let (ast, reporter) = parse("func f(a: ) {}");
    assert_eq!(messages(&reporter), vec!["Expected an Identifier.".to_string()]);
    assert_eq!(functions(&ast)[0].params.len(), 1);
}

#[test]
fn function_without_name_or_body() {
    let (ast, reporter) = parse("func () {}");
    assert_eq!(messages(&reporter), vec!["Expected an Identifier.".to_string()]);
    assert_eq!(
        functions(&ast)[0].name,
        Token::new(TokenType::Identifier(String::new()), Span::new(5, 6, 0))
    );

    let (ast, reporter) = parse("func f()");
    assert_eq!(messages(&reporter), vec!["Unexpected <EOF>.".to_string()]);
    assert_eq!(functions(&ast).len(), 1);
    assert!(functions(&ast)[0].body.0.is_empty());

    let (ast, reporter) = parse("func f() -> { }");
    assert_eq!(messages(&reporter), vec!["Expected an Identifier.".to_string()]);
    assert!(functions(&ast)[0].return_ty.is_some());

    let (ast, reporter) = parse("func f() { var x = 1;");
    assert_eq!(messages(&reporter), vec!["Unexpected <EOF>.".to_string()]);
    assert_eq!(functions(&ast)[0].body.0.len(), 1);
}

#[test]
fn tokens_without_a_closing_eof() {
    let mut reporter = DiagnosticReporter::new();
    let tokens = vec![
        Token::new(TokenType::KFunction, Span::new(0, 4, 0)),
        Token::new(TokenType::Identifier("f".to_string()), Span::new(5, 6, 0)),
    ];
    let ast = Parser::new(tokens).parse(&mut reporter);
    assert_eq!(ast.elements().len(), 1);
    assert!(reporter.has_error());
    for diagnostic in reporter.diagnostics() {
        assert_eq!(diagnostic.message, "Unexpected <EOF>.");
        assert_eq!(diagnostic.span, Span::new(5, 6, 0));
    }
}

#[test]
fn parsing_stops_at_eof() {
    let mut reporter = DiagnosticReporter::new();
    let tokens = vec![
        Token::new(TokenType::Eof, Span::new(0, 0, 0)),
        Token::new(TokenType::KFunction, Span::new(0, 4, 0)),
    ];
    let ast = Parser::new(tokens).parse(&mut reporter);
    assert!(ast.elements().is_empty());
    assert!(reporter.diagnostics().is_empty());
}

#[test]
fn items_are_bounded_by_tokens() {
    for source in ["", ")", ") ) )", "; ; ;", "func", "func func func", "x; y; z;", "{ } { }"] {
        let mut reporter = DiagnosticReporter::new();
        let tokens = Lexer::new(source, 0).identify_tokens(&mut reporter);
        let count = tokens.len();
        let ast = Parser::new(tokens).parse(&mut reporter);
        assert!(ast.elements().len() <= count, "source {:?}", source);
    }
}

#[test]
fn lexical_errors_come_before_syntax_errors() {
    let (_, reporter) = parse("func f() { var x = @; }");
    let all = messages(&reporter);
    assert_eq!(all[0], "Unknown token used: '@'");
    assert!(all.len() >= 2);
    assert_eq!(all[1], "Expected an expression");
}

#[test]
fn load_refuses_bytes_that_are_no_text() {
    let mut reporter = DiagnosticReporter::new();
    let bytes = [b'f', b'u', 0xff, 0xfe];
    let compiler = Compiler::load(&bytes, 3, &mut reporter);
    assert_eq!(compiler.source, "");
    assert_eq!(messages(&reporter), vec!["invalid encoding".to_string()]);
    assert_eq!(reporter.diagnostics()[0].span, Span::new(0, 0, 3));
    let ast = compiler.compile(3, &mut reporter);
    assert!(ast.elements().is_empty());
    assert_eq!(reporter.errors(), 1);
}

#[test]
fn load_takes_bytes_that_are_text() {
    let mut reporter = DiagnosticReporter::new();
    let bytes = "func caf\u{e9}() {}".as_bytes();
    let compiler = Compiler::load(bytes, 0, &mut reporter);
    assert_eq!(compiler.source, "func caf\u{e9}() {}");
    assert!(reporter.diagnostics().is_empty());
    let tokens = compiler.tokenize(0, &mut reporter);
    assert_eq!(tokens.len(), 7);
    let ast = compiler.compile(0, &mut reporter);
    assert_eq!(functions(&ast).len(), 1);
    assert!(!reporter.has_error());
}
