//! What the generator knows about a described language: annotations,
//! tokens, parser rules, and the AST types they give rise to.
pub mod annotations;
pub mod typed_part;
pub mod ast;
pub mod rule;
pub mod data;
pub mod lifetimes;
pub mod rule_part;
pub mod rule_parser;
pub mod rule_source;
pub mod rule_syntax;
