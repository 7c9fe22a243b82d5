//! Generator for X11 protocol bindings: parses XML protocol descriptions
//! into an abstract syntax tree, resolves type references across module
//! imports, computes binary layouts, and emits FFI declarations.

pub mod ast;
pub mod emit;
pub mod names;
pub mod parse;
pub mod strutil;
pub mod xml;
