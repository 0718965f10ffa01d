//! The description language itself: its syntax tree, its parser and its printer.
pub mod ast;
pub mod parsers;
pub mod to_source;
