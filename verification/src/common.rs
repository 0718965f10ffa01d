//! Helpers shared by the described languages: ordered traversal of a map,
//! and parsers for identifiers and runs of special characters.
pub mod util;
pub mod parsers;
