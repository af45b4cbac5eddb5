use langscript::ast::{BinaryOp, Expr, Stmt, UnaryOp};
use langscript::lexer::Lexer;
use langscript::parser::Parser;
use langscript::token::Token;
use langscript::value::LiteralValueAst;

fn stmt_vec_to_string(stmts: &Vec<Stmt>) -> String {
    stmts.iter().map(|stmt| stmt.to_string()).collect::<Vec<String>>().join("\n")
}

fn parse_source(source: &str) -> Vec<Stmt> {
    let mut lexer: Lexer = Lexer::new(source);
    let tokens: Vec<Token> = lexer.scan_tokens().unwrap();
    let mut parser: Parser = Parser::new(tokens);
    parser.parse().unwrap().statements
}

#[test]
fn test_addition_parser() {
    let parsed_expr: Vec<Stmt> = parse_source("1 + 2;");
    let string_expr: String = stmt_vec_to_string(&parsed_expr);
    assert_eq!(string_expr, "1 + 2");
}

#[test]
fn test_comparison() {
    let parsed_expr: Vec<Stmt> = parse_source("3 + 5 == 7 - 5");
    let string_expr: String = stmt_vec_to_string(&parsed_expr);
    assert_eq!(string_expr, "3 + 5 == 7 - 5")
}

#[test]
fn test_quality_paren() {
    let parsed_expr: Vec<Stmt> = parse_source("4 == (2 + 2)");
    let string_expr: String = stmt_vec_to_string(&parsed_expr);
    assert_eq!(string_expr, "4 == (group 2 + 2)")
}

#[test]
fn test_ternary_expr() {
    let parsed_expr: Vec<Stmt> = parse_source("1 ? 2 : 3");
    let string_expr: String = stmt_vec_to_string(&parsed_expr);
    assert_eq!(string_expr, "1 ? 2 : 3")
}

#[test]
fn pretty_print_ast() {
    let one_two_three = Expr::Literal { value: LiteralValueAst::Number(123_000_000) };
    let group = Expr::Grouping {
        expression: Box::new(Expr::Literal { value: LiteralValueAst::Number(45_670_000) }),
    };
    let ast = Expr::Binary {
        left: Box::new(Expr::Unary { op: UnaryOp::Negate, value: Box::new(one_two_three), line: 1 }),
        op: BinaryOp::Multiply,
        right: Box::new(group),
        line: 1,
    };

    let result: String = ast.to_string();

    assert_eq!(result, "(- 123) * (group 45.67)");
}

#[test]
fn pretty_ternary_expr() {
    let condition = Box::new(Expr::Literal { value: LiteralValueAst::Number(1_000_000) });
    let expr_true = Box::new(Expr::Literal { value: LiteralValueAst::Number(2_000_000) });
    let expr_false = Box::new(Expr::Literal { value: LiteralValueAst::Number(3_000_000) });

    let ternary_expr = Expr::Ternary { condition, expr_true, expr_false };

    assert_eq!(format!("{}", ternary_expr.to_string()), "1 ? 2 : 3");
}

#[test]
fn precedence_of_factors_over_terms() {
    assert_eq!(stmt_vec_to_string(&parse_source("1 + 2 * 3 - 4 / 2;")), "1 + 2 * 3 - 4 / 2");
    match &parse_source("1 + 2 * 3;")[0] {
        Stmt::Expression { expression: Expr::Binary { op, right, .. } } => {
            assert_eq!(*op, BinaryOp::Add);
            assert!(matches!(**right, Expr::Binary { op: BinaryOp::Multiply, .. }));
        },
        _ => panic!("expected an addition"),
    }
}

#[test]
fn for_loop_becomes_a_while_loop() {
    let stmts = parse_source("for (let i = 0; i < 3; i = i + 1) print i;");
    assert_eq!(stmts.len(), 1);
    match &stmts[0] {
        Stmt::Block { statements } => {
            assert_eq!(statements.len(), 2);
            assert!(matches!(statements[0], Stmt::Let { .. }));
            match &statements[1] {
                Stmt::WhileStmt { body, .. } => match &**body {
                    Stmt::Block { statements } => {
                        assert!(matches!(statements[0], Stmt::Print { .. }));
                        assert!(matches!(statements[1], Stmt::Expression { .. }));
                    },
                    _ => panic!("expected the body with its increment"),
                },
                _ => panic!("expected a while loop"),
            }
        },
        _ => panic!("expected a block"),
    }
}

#[test]
fn for_loop_without_clauses_loops_on_true() {
    let stmts = parse_source("for (;;) break;");
    match &stmts[0] {
        Stmt::WhileStmt { condition: Expr::Literal { value: LiteralValueAst::True }, body } => {
            assert!(matches!(**body, Stmt::BreakStmt));
        },
        _ => panic!("expected a while loop on true"),
    }
}

#[test]
fn invalid_assignment_target_is_an_error() {
    let mut lexer = Lexer::new("1 + 2 = 3;");
    let mut parser = Parser::new(lexer.scan_tokens().unwrap());
    let errors = parser.parse().unwrap_err();
    assert_eq!(errors.len(), 1);
    assert_eq!(errors[0].message, "Invalid assignment target");
}

#[test]
fn several_errors_are_collected() {
    let mut lexer = Lexer::new("print ;\nlet = 3;\nprint 1;\nprint );");
    let mut parser = Parser::new(lexer.scan_tokens().unwrap());
    let errors = parser.parse().unwrap_err();
    assert_eq!(errors.len(), 3);
    assert_eq!(errors[0].span.line, 1);
    assert_eq!(errors[1].span.line, 2);
    assert_eq!(errors[2].span.line, 4);
}

#[test]
fn missing_paren_names_the_expectation() {
    let mut lexer = Lexer::new("print (1 + 2;");
    let mut parser = Parser::new(lexer.scan_tokens().unwrap());
    let errors = parser.parse().unwrap_err();
    assert_eq!(errors[0].message, "Expected ')'");
}

#[test]
fn too_many_arguments_is_an_error() {
    let args: Vec<String> = (0..300).map(|i| i.to_string()).collect();
    let source = format!("f({});", args.join(", "));
    let mut lexer = Lexer::new(&source);
    let mut parser = Parser::new(lexer.scan_tokens().unwrap());
    let errors = parser.parse().unwrap_err();
    assert!(errors[0].message.contains("more than 255 arguments"));
}

#[test]
fn functions_and_anonymous_functions_parse() {
    let stmts = parse_source("fn add(a, b) { return a + b; } let f = fn (x) { return x; };");
    match &stmts[0] {
        Stmt::Function { decl } => {
            assert_eq!(decl.name, "add");
            assert_eq!(decl.params, vec!["a".to_string(), "b".to_string()]);
            assert_eq!(decl.body.len(), 1);
        },
        _ => panic!("expected a function"),
    }
    match &stmts[1] {
        Stmt::Let { initializer: Expr::AnonFunction { decl }, .. } => {
            assert_eq!(decl.params.len(), 1);
        },
        _ => panic!("expected an anonymous function"),
    }
}
