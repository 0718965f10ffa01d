//! A description of a subset of Rust item declarations: its syntax tree and
//! its printer.
pub mod ast;
pub mod parsers;
pub mod to_source;
