//! End-to-end runs of the pipeline: source text in, printed lines out.

use mps_lang::execution::interpreter::Interpreter;
use mps_lang::execution::value::RuntimeError;
use mps_lang::parsing::analyzer::StaticAnalyzer;
use mps_lang::parsing::ast::AST;
use mps_lang::parsing::ast::Expression;
use mps_lang::parsing::lexer::Lexer;
use mps_lang::parsing::parser::Parser;
use mps_lang::parsing::token::Operator;

const FUEL: u64 = 1_000_000;

fn parse_program(src: &str) -> AST {
    let text = src.to_string();
    let mut lexer = Lexer::new(&text);
    let tokens = lexer.lex().expect("lexing failed");
    let mut parser = Parser::new(&tokens);
    parser.parse().expect("parsing failed")
}

fn run(src: &str) -> Vec<String> {
    let ast = parse_program(src);
    let mut analyzer = StaticAnalyzer::new();
    if let Some(err) = analyzer.analyze(&ast) {
        panic!("analysis failed: {:?}", err);
    }
    let mut interpreter = Interpreter::new();
    interpreter.eval(&ast, FUEL).expect("evaluation failed");
    interpreter.output().clone()
}

fn run_for_runtime_error(src: &str) -> RuntimeError {
    let ast = parse_program(src);
    let mut analyzer = StaticAnalyzer::new();
    if let Some(err) = analyzer.analyze(&ast) {
        panic!("analysis failed: {:?}", err);
    }
    let mut interpreter = Interpreter::new();
    interpreter.eval(&ast, FUEL).expect_err("evaluation unexpectedly succeeded")
}

#[test]
fn addition_and_multiplication_precedence() {
    assert_eq!(run("int x := 2; int y := 3; print x + y * 2"), vec!["8".to_string()]);
}

#[test]
fn for_loop_factorial() {
    assert_eq!(
        run("int n := 5; int r := 1; for int i := 1; i < n; i := i + 1 { r := r * i } print r"),
        vec!["24".to_string()]
    );
}

#[test]
fn boolean_and_or_ties_group_left() {
    assert_eq!(run("bool a := true; bool b := false; print a & b | true"), vec![
        "true".to_string()
    ]);
}

#[test]
fn float_power_prints_eight() {
    assert_eq!(run("float x := 2.0; print x ^ 3.0"), vec!["8".to_string()]);
}

#[test]
fn if_scope_prints_inner_then_outer() {
    assert_eq!(run("int x := 1; if x = 1 { int y := 2; print y } print x"), vec![
        "2".to_string(),
        "1".to_string()
    ]);
}

#[test]
fn division_by_zero_is_a_runtime_error() {
    assert_eq!(
        run_for_runtime_error("int x := 5; int y := 0; print x / y"),
        RuntimeError::DivisionByZero
    );
}

#[test]
fn multiplication_binds_tighter_than_addition() {
    assert_eq!(run("print 1 + 2 * 3;"), vec!["7".to_string()]);
    let ast = parse_program("print 1 + 2 * 3;");
    let expected = AST::Block(vec![AST::Print(Expression::BinaryOperation(
        Box::new(Expression::IntegerLiteral(1)),
        Operator::Add,
        Box::new(Expression::BinaryOperation(
            Box::new(Expression::IntegerLiteral(2)),
            Operator::Mul,
            Box::new(Expression::IntegerLiteral(3)),
        )),
    ))]);
    assert_eq!(ast, expected);
}

#[test]
fn subtraction_groups_left() {
    assert_eq!(run("print 1 - 2 - 3;"), vec!["-4".to_string()]);
    let ast = parse_program("print 1 - 2 - 3;");
    let expected = AST::Block(vec![AST::Print(Expression::BinaryOperation(
        Box::new(Expression::BinaryOperation(
            Box::new(Expression::IntegerLiteral(1)),
            Operator::Sub,
            Box::new(Expression::IntegerLiteral(2)),
        )),
        Operator::Sub,
        Box::new(Expression::IntegerLiteral(3)),
    ))]);
    assert_eq!(ast, expected);
}

#[test]
fn power_groups_left_by_the_table() {
    assert_eq!(run("print 2 ^ 3 ^ 2;"), vec!["64".to_string()]);
}

#[test]
fn parentheses_override_precedence() {
    assert_eq!(run("print (1 + 2) * 3;"), vec!["9".to_string()]);
}

#[test]
fn while_false_changes_nothing() {
    assert_eq!(run("int x := 1; while false { x := 5; print x } print x"), vec![
        "1".to_string()
    ]);
}

#[test]
fn parse_twice_yields_identical_trees() {
    let src = "int n := 3; while n > 0 { print n; n := n - 1 }";
    let first = parse_program(src);
    let second = parse_program(src);
    assert_eq!(first, second);
}

#[test]
fn analyzer_verdict_is_stable_on_a_clone() {
    let src = "int x := 1; if x = 1 { int y := 2; print y } print x";
    let ast = parse_program(src);
    let copy = ast.clone();
    let mut first = StaticAnalyzer::new();
    let mut second = StaticAnalyzer::new();
    assert_eq!(first.analyze(&ast), second.analyze(&copy));
    let bad = parse_program("print y;");
    let bad_copy = bad.clone();
    let mut third = StaticAnalyzer::new();
    let mut fourth = StaticAnalyzer::new();
    assert_eq!(third.analyze(&bad), fourth.analyze(&bad_copy));
}

#[test]
fn uninitialised_variable_prints_unit() {
    assert_eq!(run("int x print x"), vec!["unit".to_string()]);
}

#[test]
fn boolean_power_is_exclusive_or() {
    assert_eq!(run("print true ^ true;"), vec!["false".to_string()]);
    assert_eq!(run("print true ^ false;"), vec!["true".to_string()]);
}

#[test]
fn float_arithmetic_runs_through_the_algebra() {
    assert_eq!(run("print 1.5 + 2.25;"), vec!["3.75".to_string()]);
    assert_eq!(run("print 7.5 / 2.5;"), vec!["3".to_string()]);
    assert_eq!(run("print 4.5 - 1.25;"), vec!["3.25".to_string()]);
    assert_eq!(run("print 1.5 * 2.0;"), vec!["3".to_string()]);
}

#[test]
fn float_comparisons() {
    assert_eq!(run("print 1.5 < 2.0;"), vec!["true".to_string()]);
    assert_eq!(run("print 1.5 > 2.0;"), vec!["false".to_string()]);
    assert_eq!(run("print 1.5 = 1.5;"), vec!["true".to_string()]);
}

#[test]
fn integer_comparisons_and_equality() {
    assert_eq!(run("print 2 < 3; print 2 > 3; print 2 = 2;"), vec![
        "true".to_string(),
        "false".to_string(),
        "true".to_string()
    ]);
}

#[test]
fn boolean_ordering_false_below_true() {
    assert_eq!(run("print false < true; print true > false; print true < false;"), vec![
        "true".to_string(),
        "true".to_string(),
        "false".to_string()
    ]);
}

#[test]
fn bitwise_and_or_on_integers() {
    assert_eq!(run("print 12 & 10; print 12 | 10;"), vec!["8".to_string(), "14".to_string()]);
}

#[test]
fn nested_loops_and_shadow_free_scopes() {
    let src = "int total := 0; for int i := 1; i < 4; i := i + 1 { for int j := 1; j < 4; j := j + 1 { total := total + i * j } } print total";
    assert_eq!(run(src), vec!["36".to_string()]);
}

#[test]
fn runaway_loop_stops_out_of_fuel() {
    let ast = parse_program("int x := 0; while true { x := x + 1 }");
    let mut analyzer = StaticAnalyzer::new();
    assert!(analyzer.analyze(&ast).is_none());
    let mut interpreter = Interpreter::new();
    assert_eq!(interpreter.eval(&ast, 10), Err(RuntimeError::OutOfFuel));
}

#[test]
fn negative_integer_exponent_fails() {
    assert_eq!(
        run_for_runtime_error("print 2 ^ (0 - 1);"),
        RuntimeError::NegativeExponent
    );
}

#[test]
fn arithmetic_on_an_unassigned_variable_fails() {
    let err = run_for_runtime_error("int x print x + 1");
    match err {
        RuntimeError::InvalidOperands(_, _, _) => {},
        other => panic!("unexpected failure: {:?}", other),
    }
}

#[test]
fn a_top_level_closing_brace_ends_the_program() {
    assert_eq!(run("print 1; } print 2"), vec!["1".to_string()]);
}

#[test]
fn a_program_across_lines_runs_the_same() {
    let src = "int x := 2;\nint y := 3;\nprint x + y * 2";
    assert_eq!(run(src), vec!["8".to_string()]);
}
