//! Prints playground syntax trees back to source text.
use vstd::prelude::*;
use crate::text::{cat, cat_char, join, join_upto, lemma_join_step};
use crate::descr_lang::to_source::flag;
use super::ast::{
    AstSingle, KeyToken, NamedToken, Quoted, SimpleToken, Source, SourceItem, Token, TokenGroup,
    TokenType,
};

verus! {

pub open spec fn quoted_src(node: Quoted) -> Seq<char> {
    " "@ + "\""@ + node.string@ + "\""@
}

pub open spec fn key_token_src(node: KeyToken) -> Seq<char> {
    " "@ + node.key@
}

pub open spec fn token_type_src(node: TokenType) -> Seq<char> {
    match node {
        TokenType::KeyTokenItem(inner) => key_token_src(inner),
        TokenType::QuotedItem(inner) => quoted_src(inner),
    }
}

pub open spec fn named_token_src(node: NamedToken) -> Seq<char> {
    " "@ + node.name@ + " "@ + seq![':'] + " "@ + flag(node.not, '!') + " "@ + token_type_src(
        node.token_type,
    ) + " "@ + flag(node.optional, '?')
}

pub open spec fn simple_token_src(node: SimpleToken) -> Seq<char> {
    " "@ + flag(node.not, '!') + " "@ + token_type_src(node.token_type) + " "@ + flag(
        node.optional,
        '?',
    )
}

pub open spec fn token_src(node: Token) -> Seq<char>
    decreases node, 0int,
{
    match node {
        Token::NamedTokenItem(inner) => named_token_src(inner),
        Token::SimpleTokenItem(inner) => simple_token_src(inner),
        Token::TokenGroupItem(inner) => token_group_src(inner),
    }
}

/// The first `n` tokens, separated by spaces.
pub open spec fn tokens_upto(v: Seq<Token>, n: int) -> Seq<char>
    decreases v, n,
{
    if n <= 0 || n > v.len() {
        Seq::empty()
    } else {
        tokens_upto(v, n - 1) + token_src(v[n - 1]) + (if n - 1 < v.len() - 1 {
            " "@
        } else {
            Seq::empty()
        })
    }
}

pub open spec fn token_group_src(node: TokenGroup) -> Seq<char>
    decreases node, 0int,
{
    " "@ + flag(node.not, '!') + " "@ + seq!['('] + " "@ + tokens_upto(
        node.token_list@,
        node.token_list@.len() as int,
    ) + " "@ + seq![')'] + " "@ + flag(node.optional, '?')
}

pub open spec fn ast_single_src(node: AstSingle) -> Seq<char> {
    " "@ + node.ident@ + " "@ + seq!['('] + " "@ + tokens_upto(
        node.tokens@,
        node.tokens@.len() as int,
    ) + " "@ + seq![')']
}

pub open spec fn source_item_src(node: SourceItem) -> Seq<char> {
    match node {
        SourceItem::AstSingleItem(inner) => ast_single_src(inner),
    }
}

pub open spec fn source_src(node: Source) -> Seq<char> {
    " "@ + join(node.items@.map_values(|i: SourceItem| source_item_src(i)), " "@)
}

pub struct ToSource;

impl ToSource {
    fn tokens(s: String, v: &Vec<Token>) -> (r: String)
        ensures
            r@ == s@ + tokens_upto(v@, v@.len() as int),
        decreases v@, v@.len() + 1,
    {
        let len = v.len();
        let mut s = s;
        let ghost s0 = s@;
        let mut i: usize = 0;
        while i < len
            invariant
                len == v@.len(),
                i <= len,
                s@ == s0 + tokens_upto(v@, i as int),
            decreases len - i,
        {
            s = Self::token(s, &v[i]);
            if i < len - 1 {
                s = cat(s, " ");
            }
            i += 1;
        }
        s
    }

    #[verifier::spinoff_prover]
    pub fn token_group(s: String, node: &TokenGroup) -> (r: String)
        ensures
            r@ == s@ + token_group_src(*node),
        decreases *node, 0int,
    {
        let ghost s0 = s@;
        let mut s = cat(s, " ");
        if node.not {
            s = cat_char(s, '!');
        }
        s = cat(s, " ");
        s = cat_char(s, '(');
        s = cat(s, " ");
        s = Self::tokens(s, &node.token_list);
        s = cat(s, " ");
        s = cat_char(s, ')');
        s = cat(s, " ");
        if node.optional {
            s = cat_char(s, '?');
        }
        assert(s@ =~= s0 + token_group_src(*node));
        s
    }

    #[verifier::spinoff_prover]
    pub fn ast_single(s: String, node: &AstSingle) -> (r: String)
        ensures
            r@ == s@ + ast_single_src(*node),
    {
        let ghost s0 = s@;
        let mut s = cat(s, " ");
        s = cat(s, node.ident);
        s = cat(s, " ");
        s = cat_char(s, '(');
        s = cat(s, " ");
        s = Self::tokens(s, &node.tokens);
        s = cat(s, " ");
        s = cat_char(s, ')');
        assert(s@ =~= s0 + ast_single_src(*node));
        s
    }

    pub fn quoted(s: String, node: &Quoted) -> (r: String)
        ensures
            r@ == s@ + quoted_src(*node),
    {
        let ghost s0 = s@;
        let mut s = cat(s, " ");
        s = cat(s, "\"");
        s = cat(s, node.string);
        s = cat(s, "\"");
        assert(s@ =~= s0 + quoted_src(*node));
        s
    }

    #[verifier::spinoff_prover]
    pub fn simple_token(s: String, node: &SimpleToken) -> (r: String)
        ensures
            r@ == s@ + simple_token_src(*node),
    {
        let ghost s0 = s@;
        let mut s = cat(s, " ");
        if node.not {
            s = cat_char(s, '!');
        }
        s = cat(s, " ");
        s = Self::token_type(s, &node.token_type);
        s = cat(s, " ");
        if node.optional {
            s = cat_char(s, '?');
        }
        assert(s@ =~= s0 + simple_token_src(*node));
        s
    }

    pub fn source(s: String, node: &Source) -> (r: String)
        ensures
            r@ == s@ + source_src(*node),
    {
        let ghost s0 = s@;
        let mut s = cat(s, " ");
        let ghost parts = node.items@.map_values(|i: SourceItem| source_item_src(i));
        let ghost s1 = s@;
        let len = node.items.len();
        let mut i: usize = 0;
        while i < len
            invariant
                len == node.items@.len(),
                parts == node.items@.map_values(|i: SourceItem| source_item_src(i)),
                i <= len,
                s@ == s1 + join_upto(parts, " "@, i as int),
            decreases len - i,
        {
            s = Self::source_item(s, &node.items[i]);
            if i < len - 1 {
                s = cat(s, " ");
            }
            proof {
                lemma_join_step(parts, " "@, i as int);
            }
            i += 1;
        }
        assert(s@ =~= s0 + source_src(*node));
        s
    }

    pub fn key_token(s: String, node: &KeyToken) -> (r: String)
        ensures
            r@ == s@ + key_token_src(*node),
    {
        let ghost s0 = s@;
        let s = cat(s, " ");
        let s = cat(s, node.key);
        assert(s@ =~= s0 + key_token_src(*node));
        s
    }

    #[verifier::spinoff_prover]
    pub fn named_token(s: String, node: &NamedToken) -> (r: String)
        ensures
            r@ == s@ + named_token_src(*node),
    {
        let ghost s0 = s@;
        let mut s = cat(s, " ");
        s = cat(s, node.name);
        s = cat(s, " ");
        s = cat_char(s, ':');
        s = cat(s, " ");
        if node.not {
            s = cat_char(s, '!');
        }
        s = cat(s, " ");
        s = Self::token_type(s, &node.token_type);
        s = cat(s, " ");
        if node.optional {
            s = cat_char(s, '?');
        }
        assert(s@ =~= s0 + named_token_src(*node));
        s
    }

    pub fn source_item(s: String, node: &SourceItem) -> (r: String)
        ensures
            r@ == s@ + source_item_src(*node),
    {
        match node {
            SourceItem::AstSingleItem(inner) => Self::ast_single(s, inner),
        }
    }

    pub fn token(s: String, node: &Token) -> (r: String)
        ensures
            r@ == s@ + token_src(*node),
        decreases *node, 1int,
    {
        match node {
            Token::NamedTokenItem(inner) => Self::named_token(s, inner),
            Token::SimpleTokenItem(inner) => Self::simple_token(s, inner),
            Token::TokenGroupItem(inner) => Self::token_group(s, inner),
        }
    }

    pub fn token_type(s: String, node: &TokenType) -> (r: String)
        ensures
            r@ == s@ + token_type_src(*node),
    {
        match node {
            TokenType::KeyTokenItem(inner) => Self::key_token(s, inner),
            TokenType::QuotedItem(inner) => Self::quoted(s, inner),
        }
    }
}

} // verus!
