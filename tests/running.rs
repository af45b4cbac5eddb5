use langscript::ast::{BinaryOp, Expr};
use langscript::driver::{compile, run};
use langscript::lexer::Lexer;
use langscript::env::Environment;
use langscript::interpreter::{run_statements, Interpreter, RuntimeErrorKind};
use langscript::value::LiteralValueAst;

fn lines(source: &str) -> Vec<String> {
    run(source).unwrap()
}

#[test]
fn try_init() {
    let _environment: Environment = Environment::new();
}

#[test]
fn closures_share_their_captured_binding() {
    let out = lines(
        "let x=1; let f = fn() { return fn() { x = x + 1; return x; }; }(); print(f()); print(f());",
    );
    assert_eq!(out, vec!["2", "3"]);
}

#[test]
fn counters_from_separate_calls_do_not_share_state() {
    let out = lines(
        "fn make() { let n = 0; return fn() { n = n + 1; return n; }; }
         let a = make(); let b = make();
         print a(); print a(); print b(); print a();",
    );
    assert_eq!(out, vec!["1", "2", "1", "3"]);
}

#[test]
fn shadowing_in_a_block() {
    let out = lines("let x = 1; { let x = 2; print(x); } print(x);");
    assert_eq!(out, vec!["2", "1"]);
}

#[test]
fn self_reference_fails_at_resolution() {
    let err = compile("{ let x = x; }").unwrap_err();
    assert!(err.contains("own initializer"));
    assert!(run("{ let x = x; }").is_err());
}

#[test]
fn loop_stops_on_the_iteration_of_break() {
    let out = lines(
        "let i = 0; while (true) { i = i + 1; if (i == 3) { break; print \"after\"; } print i; } print i;",
    );
    assert_eq!(out, vec!["1", "2", "3"]);
}

#[test]
fn return_inside_if_short_circuits() {
    let out = lines(
        "fn f(n) { if (n > 0) { return \"pos\"; } print \"not skipped\"; return \"other\"; }
         print f(1); print f(0);",
    );
    assert_eq!(out, vec!["pos", "not skipped", "other"]);
}

#[test]
fn arity_errors_name_both_counts() {
    let one = run("fn f(a, b) { return a; } f(1);").unwrap_err();
    assert!(one.contains("expected 2 arguments but got 1"));
    let three = run("fn f(a, b) { return a; } f(1, 2, 3);").unwrap_err();
    assert!(three.contains("expected 2 arguments but got 3"));
}

#[test]
fn string_and_number_are_not_coerced() {
    let err = run("print 1 + \"a\";").unwrap_err();
    assert!(err.contains("string and number"));
    let program = compile("1 + \"a\";").unwrap();
    let report = run_statements(&program.statements);
    assert_eq!(report.error.unwrap().kind, RuntimeErrorKind::StringAndNumber);
}

#[test]
fn fibonacci_with_a_for_loop() {
    let out = lines(
        "let a=0; let b=1; for (let i=0; i<5; i=i+1) { print(a); let t=b; b=a+b; a=t; }",
    );
    assert_eq!(out, vec!["0", "1", "1", "2", "3"]);
}

#[test]
fn running_twice_prints_the_same() {
    let source = "let s = \"\"; for (let i = 0; i < 4; i = i + 1) { s = s + \"ab\"; print s; }";
    assert_eq!(run(source), run(source));
}

#[test]
fn printed_expression_reparses_to_the_same_value() {
    let source = "1 + 2 * 3 - 8 / 4 == 5 ? 10 - 3 : 2;";
    let program = compile(source).unwrap();
    let text = program.statements[0].to_string();
    let again = format!("print {};", text);
    let first = format!("print {}", source);
    assert_eq!(run(&again), run(&first));
    assert_eq!(run(&again).unwrap(), vec!["7"]);
}

#[test]
fn numbers_print_as_decimals() {
    let out = lines("print 1 / 4; print 10 / 4; print 7 - 10; print 2.50 * 2; print 1 / 3; print 0;");
    assert_eq!(out, vec!["0.25", "2.5", "-3", "5", "0.333333", "0"]);
}

#[test]
fn division_by_zero_is_an_error() {
    let err = run("print 1 / 0;").unwrap_err();
    assert!(err.contains("Division by zero"));
}

#[test]
fn values_print_canonically() {
    let out = lines("fn f(a, b) {} print f; print true; print false; print null; print \"hi\"; print clock;");
    assert_eq!(out, vec!["f|2", "true", "false", "null", "hi", "clock|0"]);
}

#[test]
fn logical_operators_short_circuit() {
    let out = lines("print 1 or nope; print 0 and nope; print 0 or 2; print 1 and \"x\"; print \"\" or 0;");
    assert_eq!(out, vec!["true", "0", "2", "x", "0"]);
}

#[test]
fn truthiness_and_negation() {
    let out = lines("print !0; print !\"\"; print !\"a\"; print !null; print !true; print -(2 - 5);");
    assert_eq!(out, vec!["true", "true", "false", "true", "false", "3"]);
}

#[test]
fn ternary_evaluates_one_branch() {
    let out = lines("let n = 0; fn bump() { n = n + 1; return n; } print 1 ? bump() : bump(); print n;");
    assert_eq!(out, vec!["1", "1"]);
}

#[test]
fn strings_concatenate_and_compare() {
    let out = lines("print \"ab\" + \"cd\"; print \"ab\" < \"b\"; print \"b\" <= \"ab\"; print \"x\" == \"x\"; print 1 == \"1\"; print 1 != \"1\";");
    assert_eq!(out, vec!["abcd", "true", "false", "true", "false", "true"]);
}

#[test]
fn assigning_an_undeclared_name_fails() {
    let err = run("y = 3;").unwrap_err();
    assert!(err.contains("Variable 'y' has not been declared"));
    let err = run("print z;").unwrap_err();
    assert!(err.contains("'z'"));
}

#[test]
fn calling_a_non_callable_fails() {
    let err = run("let x = 3; x();").unwrap_err();
    assert!(err.contains("not callable"));
}

#[test]
fn callable_in_a_condition_fails() {
    let err = run("fn f() {} if (f) print 1;").unwrap_err();
    assert!(err.contains("truth value"));
}

#[test]
fn recursion_works() {
    let out = lines("fn fib(n) { if (n < 2) return n; return fib(n - 1) + fib(n - 2); } print fib(15);");
    assert_eq!(out, vec!["610"]);
}

#[test]
fn unbounded_recursion_fails_safely() {
    let err = run("fn f(n) { return f(n + 1); } f(0);").unwrap_err();
    assert!(err.contains("nested too deeply"));
}

#[test]
fn number_overflow_is_an_error() {
    let err = run("let x = 9000000000000; print x * x;").unwrap_err();
    assert!(err.contains("out of range"));
}

#[test]
fn clock_returns_a_number() {
    let out = lines("let t = clock(); print t > 0;");
    assert_eq!(out, vec!["true"]);
}

#[test]
fn interpreter_keeps_globals_between_runs() {
    let mut it = Interpreter::new();
    let first = compile("let x = 40;").unwrap();
    it.interpret(&first.statements).unwrap();
    let second = compile("print x + 2;").unwrap();
    it.interpret(&second.statements).unwrap();
    assert_eq!(it.output(), &vec!["42".to_string()]);
}

#[test]
fn environment_define_get_assign() {
    let mut env = Environment::new();
    let child = env.push_frame(0);
    env.define(0, "a".to_string(), LiteralValueAst::Number(1_000_000));
    env.define(child, "b".to_string(), LiteralValueAst::True);
    assert!(matches!(env.get(child, "a"), Some(LiteralValueAst::Number(1_000_000))));
    assert!(env.get(0, "b").is_none());
    assert!(env.assign(child, "a", LiteralValueAst::Null));
    assert!(matches!(env.get(0, "a"), Some(LiteralValueAst::Null)));
    assert!(!env.assign(child, "zzz", LiteralValueAst::Null));
    assert!(env.get(child, "zzz").is_none());
    env.define_top_level("g".to_string(), LiteralValueAst::False);
    assert!(matches!(env.get(child, "g"), Some(LiteralValueAst::False)));
}

#[test]
fn evaluate_an_expression_tree() {
    let e = Expr::Binary {
        left: Box::new(Expr::Literal { value: LiteralValueAst::Number(1_500_000) }),
        op: BinaryOp::Add,
        right: Box::new(Expr::Literal { value: LiteralValueAst::Number(2_000_000) }),
        line: 1,
    };
    let mut it = Interpreter::new();
    let v = it.evaluate(&e).unwrap();
    assert_eq!(v.to_string(), "3.5");
}

#[test]
fn literal_values_from_tokens() {
    let mut lexer = Lexer::new("12.5 \"s\" true null x");
    let ts = lexer.scan_tokens().unwrap();
    assert!(matches!(LiteralValueAst::from_token(&ts[0]), Some(LiteralValueAst::Number(12_500_000))));
    match LiteralValueAst::from_token(&ts[1]) {
        Some(LiteralValueAst::StringValue(s)) => assert_eq!(s, "s"),
        _ => panic!("expected a string"),
    }
    assert!(matches!(LiteralValueAst::from_token(&ts[2]), Some(LiteralValueAst::True)));
    assert!(matches!(LiteralValueAst::from_token(&ts[3]), Some(LiteralValueAst::Null)));
    assert!(LiteralValueAst::from_token(&ts[4]).is_none());
}

#[test]
fn value_equality_and_type_names() {
    let a = LiteralValueAst::StringValue("x".to_string());
    let b = LiteralValueAst::StringValue("x".to_string());
    assert!(a.equals(&b));
    assert!(!a.equals(&LiteralValueAst::Null));
    assert_eq!(a.to_type(), "String");
    assert_eq!(LiteralValueAst::True.to_type(), "Boolean");
    assert!(matches!(LiteralValueAst::Number(0).is_truthy(), Some(LiteralValueAst::False)));
    assert!(matches!(LiteralValueAst::Number(0).is_falsy(), Some(LiteralValueAst::True)));
}
