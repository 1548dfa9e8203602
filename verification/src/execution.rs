//! Execution: runtime values, the scoped value store, and the
//! tree-walking interpreter.

pub mod interpreter;
pub mod memory;
pub mod render;
pub mod value;
