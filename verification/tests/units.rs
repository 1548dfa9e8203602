//! Direct exercises of the pipeline's pieces: the lexer's tokens and
//! positions, the value algebra, the scoped tables, and the stack peek.

use mps_lang::execution::memory::Memory;
use mps_lang::parsing::ast::AST;
use mps_lang::parsing::parser::Parser;
use mps_lang::execution::value::{apply_operator, RuntimeError, Value};
use mps_lang::parsing::ast::Type;
use mps_lang::parsing::lexer::Lexer;
use mps_lang::parsing::symbol_table::SymbolTable;
use mps_lang::parsing::token::{Operator, Token, TokenType};
use mps_lang::stack::Stack;

fn lex_ok(src: &str) -> Vec<Token> {
    let text = src.to_string();
    let mut lexer = Lexer::new(&text);
    lexer.lex().expect("lexing failed")
}

#[test]
fn keywords_and_identifiers_are_told_apart() {
    let toks = lex_ok("if while for Fn true false print ifx");
    let kinds: Vec<TokenType> = toks.into_iter().map(|t| t.t_type).collect();
    assert_eq!(kinds, vec![
        TokenType::If,
        TokenType::While,
        TokenType::For,
        TokenType::Fn,
        TokenType::BooleanLiteral(true),
        TokenType::BooleanLiteral(false),
        TokenType::Print,
        TokenType::Id("ifx".to_string()),
    ]);
}

#[test]
fn punctuation_and_operators_carry_the_table() {
    let toks = lex_ok(", ; { } ( ) := = > < + - & | * / ^");
    let kinds: Vec<TokenType> = toks.into_iter().map(|t| t.t_type).collect();
    assert_eq!(kinds, vec![
        TokenType::Comma,
        TokenType::Semicolon,
        TokenType::LCurlyBracket,
        TokenType::RCurlyBracket,
        TokenType::LRoundBracket,
        TokenType::RRoundBracket,
        TokenType::Assignment,
        TokenType::Operator(Operator::Eq, 0, false),
        TokenType::Operator(Operator::Gt, 0, false),
        TokenType::Operator(Operator::Lt, 0, false),
        TokenType::Operator(Operator::Add, 1, true),
        TokenType::Operator(Operator::Sub, 1, true),
        TokenType::Operator(Operator::And, 1, true),
        TokenType::Operator(Operator::Or, 1, true),
        TokenType::Operator(Operator::Mul, 2, true),
        TokenType::Operator(Operator::Div, 2, true),
        TokenType::Operator(Operator::Pow, 3, true),
    ]);
}

#[test]
fn positions_follow_lines_and_columns() {
    let toks = lex_ok("ab cd\nx");
    assert_eq!(toks.len(), 3);
    assert_eq!((toks[0].line, toks[0].char), (0, 2));
    assert_eq!((toks[1].line, toks[1].char), (0, 5));
    assert_eq!((toks[2].line, toks[2].char), (1, 1));
}

#[test]
fn number_literals_take_their_values() {
    let toks = lex_ok("0 7 007 2147483647");
    let kinds: Vec<TokenType> = toks.into_iter().map(|t| t.t_type).collect();
    assert_eq!(kinds, vec![
        TokenType::IntegerLiteral(0),
        TokenType::IntegerLiteral(7),
        TokenType::IntegerLiteral(7),
        TokenType::IntegerLiteral(2147483647),
    ]);
}

#[test]
fn float_literals_carry_their_bit_patterns() {
    let toks = lex_ok("2.5 2. 0.25");
    let kinds: Vec<TokenType> = toks.into_iter().map(|t| t.t_type).collect();
    assert_eq!(kinds, vec![
        TokenType::FloatLiteral(2.5f32.to_bits()),
        TokenType::FloatLiteral(2.0f32.to_bits()),
        TokenType::FloatLiteral(0.25f32.to_bits()),
    ]);
}

#[test]
fn integer_arithmetic_wraps() {
    let max = Value::IntegerValue(i32::MAX);
    let one = Value::IntegerValue(1);
    assert_eq!(apply_operator(Operator::Add, max, one), Ok(Value::IntegerValue(i32::MIN)));
    let min = Value::IntegerValue(i32::MIN);
    assert_eq!(apply_operator(Operator::Sub, min, one), Ok(Value::IntegerValue(i32::MAX)));
    assert_eq!(
        apply_operator(Operator::Div, min, Value::IntegerValue(-1)),
        Ok(Value::IntegerValue(i32::MIN))
    );
}

#[test]
fn integer_division_truncates_toward_zero() {
    let div = |a: i32, b: i32| apply_operator(
        Operator::Div,
        Value::IntegerValue(a),
        Value::IntegerValue(b),
    );
    assert_eq!(div(7, 2), Ok(Value::IntegerValue(3)));
    assert_eq!(div(-7, 2), Ok(Value::IntegerValue(-3)));
    assert_eq!(div(7, -2), Ok(Value::IntegerValue(-3)));
    assert_eq!(div(-7, -2), Ok(Value::IntegerValue(3)));
    assert_eq!(div(1, 0), Err(RuntimeError::DivisionByZero));
}

#[test]
fn integer_power_is_unsigned_exponentiation() {
    let pow = |a: i32, b: i32| apply_operator(
        Operator::Pow,
        Value::IntegerValue(a),
        Value::IntegerValue(b),
    );
    assert_eq!(pow(2, 10), Ok(Value::IntegerValue(1024)));
    assert_eq!(pow(5, 0), Ok(Value::IntegerValue(1)));
    assert_eq!(pow(-3, 3), Ok(Value::IntegerValue(-27)));
    assert_eq!(pow(2, -1), Err(RuntimeError::NegativeExponent));
}

#[test]
fn mixed_variants_are_invalid_operands() {
    let r = apply_operator(Operator::Add, Value::IntegerValue(1), Value::BooleanValue(true));
    assert_eq!(
        r,
        Err(RuntimeError::InvalidOperands(
            Operator::Add,
            Value::IntegerValue(1),
            Value::BooleanValue(true),
        ))
    );
    let q = apply_operator(Operator::Eq, Value::Unit, Value::Unit);
    assert_eq!(q, Err(RuntimeError::InvalidOperands(Operator::Eq, Value::Unit, Value::Unit)));
}

#[test]
fn symbol_table_rejects_redeclaration_across_frames() {
    let mut table = SymbolTable::new();
    assert!(table.declare("x".to_string(), Type::Integer));
    assert!(!table.declare("x".to_string(), Type::Boolean));
    table.create_frame();
    assert!(!table.declare("x".to_string(), Type::Boolean));
    assert!(table.declare("y".to_string(), Type::Boolean));
    assert_eq!(table.retrieve_type("x".to_string()), Some(Type::Integer));
    assert_eq!(table.retrieve_type("y".to_string()), Some(Type::Boolean));
    table.remove_frame();
    assert_eq!(table.retrieve_type("y".to_string()), None);
    assert!(table.declare("y".to_string(), Type::FloatingPoint));
}

#[test]
fn memory_binds_and_assigns_innermost_first() {
    let mut memory = Memory::new();
    memory.declare("x".to_string());
    assert_eq!(memory.retrieve_val("x".to_string()), Some(Value::Unit));
    memory.declare_assign("x".to_string(), Value::IntegerValue(1));
    assert_eq!(memory.retrieve_val("x".to_string()), Some(Value::IntegerValue(1)));
    memory.create_frame();
    assert_eq!(memory.retrieve_val("x".to_string()), Some(Value::IntegerValue(1)));
    memory.assign("x".to_string(), Value::IntegerValue(9));
    assert_eq!(memory.retrieve_val("x".to_string()), Some(Value::IntegerValue(9)));
    memory.remove_frame();
    assert_eq!(memory.retrieve_val("x".to_string()), Some(Value::IntegerValue(9)));
    assert_eq!(memory.retrieve_val("zz".to_string()), None);
}

#[test]
fn expect_accessors_return_the_payloads() {
    assert_eq!(Value::IntegerValue(4).expect_int(), 4);
    assert_eq!(Value::BooleanValue(true).expect_bool(), true);
    assert_eq!(Value::FloatValue(2.5f32.to_bits()).expect_float(), 2.5f32.to_bits());
}

#[test]
fn stack_top_peeks_the_last_element() {
    let empty: Vec<i32> = Vec::new();
    assert_eq!(empty.top(), None);
    let items = vec![1, 2, 3];
    assert_eq!(items.top(), Some(3));
    assert_eq!(items.len(), 3);
}

#[test]
fn empty_input_lexes_and_parses_to_an_empty_block() {
    let toks = lex_ok("");
    assert_eq!(toks, Vec::new());
    let mut parser = Parser::new(&toks);
    assert_eq!(parser.parse(), Ok(AST::Block(Vec::new())));
}

#[test]
fn whitespace_only_input_has_no_tokens() {
    assert_eq!(lex_ok("  \t\n \n\t"), Vec::new());
}

#[test]
fn assignment_pair_counts_two_columns() {
    let toks = lex_ok("x := 1");
    assert_eq!((toks[0].line, toks[0].char), (0, 1));
    assert_eq!((toks[1].line, toks[1].char), (0, 4));
    assert_eq!((toks[2].line, toks[2].char), (0, 6));
}
