//! Syntax tree of the playground language.
use vstd::prelude::*;

verus! {

#[derive(Debug)]
pub struct Test {
    pub key1: bool,
    pub key2: bool,
}

impl Test {
    pub fn new(key1: bool, key2: bool) -> (r: Test)
        ensures
            r == (Test { key1, key2 }),
    {
        Test { key1, key2 }
    }
}

#[derive(Debug)]
pub struct AstSingle<'a> {
    pub ident: &'a str,
    pub tokens: Vec<Token<'a>>,
}

#[derive(Debug)]
pub struct KeyToken<'a> {
    pub key: &'a str,
}

#[derive(Debug)]
pub struct NamedToken<'a> {
    pub token_type: TokenType<'a>,
    pub name: &'a str,
    pub not: bool,
    pub optional: bool,
}

#[derive(Debug)]
pub struct Quoted<'a> {
    pub string: &'a str,
}

#[derive(Debug)]
pub struct SimpleToken<'a> {
    pub token_type: TokenType<'a>,
    pub not: bool,
    pub optional: bool,
}

#[derive(Debug)]
pub struct Source<'a> {
    pub items: Vec<SourceItem<'a>>,
}

#[derive(Debug)]
pub struct TokenGroup<'a> {
    pub not: bool,
    pub optional: bool,
    pub token_list: Vec<Token<'a>>,
}

#[derive(Debug)]
pub enum SourceItem<'a> {
    AstSingleItem(AstSingle<'a>),
}

#[derive(Debug)]
pub enum Token<'a> {
    NamedTokenItem(NamedToken<'a>),
    SimpleTokenItem(SimpleToken<'a>),
    TokenGroupItem(TokenGroup<'a>),
}

#[derive(Debug)]
pub enum TokenType<'a> {
    KeyTokenItem(KeyToken<'a>),
    QuotedItem(Quoted<'a>),
}

} // verus!
