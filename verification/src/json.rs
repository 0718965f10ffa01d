//! The JSON description language used for syntax highlighting grammars:
//! its syntax tree and its printers.
pub mod ast;
pub mod to_source;
