//! Descr: a small language for describing other languages, and the
//! generator that turns a description into AST types, parsers, a
//! to-source printer and syntax highlighting rules.
pub mod text;
pub mod strmap;
pub mod descr_lang;
pub mod json;
pub mod rust_lang;
pub mod pg;
pub mod lang_data;
pub mod process;
pub mod common;
pub mod laws;
