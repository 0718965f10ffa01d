//! The earlier playground language, with a single kind of item.
use vstd::prelude::*;
use crate::text::cat;
use super::ast::Test;

verus! {

#[derive(Debug)]
pub struct Source<'a> {
    pub items: Vec<SourceItem<'a>>,
}

#[derive(Debug)]
pub struct TestItem<'a> {
    pub ident: &'a str,
}

#[derive(Debug)]
pub enum SourceItem<'a> {
    TestItemItem(TestItem<'a>),
}

pub struct ToSource;

impl ToSource {
    /// A test item prints as its two fixed keywords.
    pub fn test(s: String, node: &Test) -> (r: String)
        ensures
            r@ == s@ + (" "@ + "First"@ + " "@ + "Second"@),
    {
        let ghost s0 = s@;
        let s = cat(s, " ");
        let s = cat(s, "First");
        let s = cat(s, " ");
        let s = cat(s, "Second");
        assert(s@ =~= s0 + (" "@ + "First"@ + " "@ + "Second"@));
        s
    }
}

} // verus!
