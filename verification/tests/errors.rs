//! Each failure the pipeline can report, provoked by an input that
//! raises it.

use mps_lang::parsing::analyzer::{AnalyzeError, StaticAnalyzer};
use mps_lang::parsing::ast::{Type, AST};
use mps_lang::parsing::lexer::{LexError, Lexer};
use mps_lang::parsing::parser::{ParseError, Parser};
use mps_lang::parsing::token::{Operator, Token, TokenKind};

fn lex(src: &str) -> Result<Vec<Token>, LexError> {
    let text = src.to_string();
    let mut lexer = Lexer::new(&text);
    lexer.lex()
}

fn parse(src: &str) -> Result<AST, ParseError> {
    let tokens = lex(src).expect("lexing failed");
    let mut parser = Parser::new(&tokens);
    parser.parse()
}

fn analyze(src: &str) -> Option<AnalyzeError> {
    let ast = parse(src).expect("parsing failed");
    let mut analyzer = StaticAnalyzer::new();
    analyzer.analyze(&ast)
}

#[test]
fn unexpected_character_is_a_lex_error() {
    assert_eq!(lex("print ?;"), Err(LexError::UnexpectedChar { c: '?', line: 0, char: 6 }));
}

#[test]
fn colon_without_equals_is_a_lex_error() {
    assert_eq!(lex("x : 1"), Err(LexError::ExpectedEquals { found: Some(' '), line: 0, char: 3 }));
    assert_eq!(lex("x :"), Err(LexError::ExpectedEquals { found: None, line: 0, char: 3 }));
}

#[test]
fn oversized_integer_literal_is_a_lex_error() {
    assert_eq!(lex("print 99999999999;"), Err(LexError::IntegerOverflow { line: 0, char: 6 }));
    assert!(lex("print 2147483647;").is_ok());
    assert_eq!(lex("print 2147483648;"), Err(LexError::IntegerOverflow { line: 0, char: 6 }));
}

#[test]
fn statement_cannot_start_with_a_literal() {
    assert_eq!(
        parse("1 + 2;"),
        Err(ParseError::UnexpectedStatementToken {
            found: TokenKind::IntegerLiteral,
            line: 0,
            char: 1,
        })
    );
}

#[test]
fn function_declarations_are_not_implemented() {
    assert_eq!(parse("Fn f"), Err(ParseError::FnNotImplemented { line: 0, char: 2 }));
}

#[test]
fn unmatched_parentheses_are_parse_errors() {
    assert_eq!(parse("print (1 + 2;"), Err(ParseError::UnmatchedLParen));
    assert_eq!(parse("print 1 + 2);"), Err(ParseError::UnmatchedRParen { line: 0, char: 12 }));
}

#[test]
fn empty_expression_is_rejected() {
    assert_eq!(parse("print ;"), Err(ParseError::EmptyExpression));
}

#[test]
fn missing_operand_is_rejected() {
    assert_eq!(parse("print 1 + ;"), Err(ParseError::MalformedExpression));
}

#[test]
fn missing_operator_is_rejected() {
    assert_eq!(parse("print 1 2;"), Err(ParseError::MalformedExpression));
}

#[test]
fn unterminated_block_is_rejected() {
    assert_eq!(parse("if true { print 1;"), Err(ParseError::ExpectedRCurlyEof));
}

#[test]
fn use_of_an_undeclared_variable_is_rejected() {
    assert_eq!(analyze("print y;"), Some(AnalyzeError::UndeclaredVariable { name:
        "y".to_string() }));
}

#[test]
fn assignment_to_an_undeclared_variable_is_rejected() {
    assert_eq!(analyze("x := 1;"), Some(AnalyzeError::AssignUndeclared { name: "x".to_string() }));
}

#[test]
fn redeclaration_in_the_same_scope_is_rejected() {
    assert_eq!(analyze("int x := 1; int x := 2;"), Some(AnalyzeError::Redeclaration { name:
        "x".to_string() }));
}

#[test]
fn redeclaration_in_a_nested_scope_is_rejected() {
    assert_eq!(
        analyze("int x := 1; if x = 1 { int x := 2; print x }"),
        Some(AnalyzeError::Redeclaration { name: "x".to_string() })
    );
}

#[test]
fn scope_ends_at_the_closing_brace() {
    assert_eq!(
        analyze("int x := 1; if x = 1 { int y := 2; print y } print y"),
        Some(AnalyzeError::UndeclaredVariable { name: "y".to_string() })
    );
}

#[test]
fn declaration_type_mismatch_is_rejected() {
    assert_eq!(
        analyze("int x := 1.5;"),
        Some(AnalyzeError::DeclarationTypeMismatch {
            name: "x".to_string(),
            declared: Type::Integer,
            found: Type::FloatingPoint,
        })
    );
}

#[test]
fn assignment_type_mismatch_is_rejected() {
    assert_eq!(
        analyze("int x := 1; x := true;"),
        Some(AnalyzeError::AssignTypeMismatch {
            name: "x".to_string(),
            declared: Type::Integer,
            found: Type::Boolean,
        })
    );
}

#[test]
fn mixed_operand_types_are_rejected() {
    assert_eq!(
        analyze("print 1 + 1.5;"),
        Some(AnalyzeError::MixedOperandTypes {
            left: Type::Integer,
            right: Type::FloatingPoint,
            op: Operator::Add,
        })
    );
}

#[test]
fn bitwise_symbols_reject_floats() {
    assert_eq!(analyze("print 1.5 & 2.5;"), Some(AnalyzeError::FloatBitwise { op: Operator::And
    }));
}

#[test]
fn arithmetic_rejects_booleans() {
    assert_eq!(analyze("print true + false;"), Some(AnalyzeError::BooleanArithmetic { op:
        Operator::Add }));
}

#[test]
fn unit_operands_are_rejected() {
    assert_eq!(analyze("unit u print u + u"), Some(AnalyzeError::InvalidLeftOperand { op:
        Operator::Add }));
}

#[test]
fn custom_typed_operands_are_rejected() {
    assert_eq!(analyze("widget w print w + 1"), Some(AnalyzeError::InvalidLeftOperand { op:
        Operator::Add }));
}

#[test]
fn non_boolean_conditions_are_rejected() {
    assert_eq!(analyze("if 1 { print 1; }"), Some(AnalyzeError::ConditionNotBoolean { found:
        Type::Integer }));
    assert_eq!(analyze("while 1.5 { print 1; }"), Some(AnalyzeError::ConditionNotBoolean {
        found: Type::FloatingPoint }));
}
