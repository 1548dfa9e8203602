//! A verified front end and evaluator for a small statically typed
//! imperative scripting language: a lexer producing position-tagged
//! tokens, a recursive-descent statement parser with a shunting-yard
//! expression parser, a scope-checking static analyzer, and a
//! tree-walking interpreter over a scoped value store.

pub mod execution;
pub mod float;
pub mod laws;
pub mod parsing;
pub mod stack;
