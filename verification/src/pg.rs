//! The playground language: a small description used to try out the
//! generator, with its syntax tree and printer.
pub mod ast;
pub mod to_source;
pub mod backup;
pub mod parsers;
