//! Lexical and syntactic analysis: tokens, the token stream, the abstract
//! syntax tree, and the static analyzer's symbol table.

pub mod analyzer;
pub mod ast;
pub mod lexer;
pub mod parser;
pub mod symbol_table;
pub mod text;
pub mod token;
