//! Prints a description syntax tree back to source text.
//!
//! Each printer appends to the string it is given; tokens are separated by
//! single spaces, as the generated printers of the description language do.
use vstd::prelude::*;
use crate::text::{cat, cat_char, decimal, join, join_upto, lemma_join_step, usize_to_string};
use super::ast::{
    AnnotArg, AnnotArgVal, AnnotArgs, Annotation, AstDef, AstItem, AstMany, AstRef, AstSingle, Comment,
    FuncArg, FuncToken, Ident, IntConst, KeyToken, List, ListItem, ListMany, ListSingle, NamedToken,
    Quoted, SimpleToken, Source, SourceItem, Token, TokenGroup, TokenType,
};

verus! {

pub open spec fn opt_str(o: Option<&str>) -> Seq<char> {
    match o {
        Some(v) => v@,
        None => Seq::empty(),
    }
}

pub open spec fn flag(b: bool, c: char) -> Seq<char> {
    if b {
        seq![c]
    } else {
        Seq::empty()
    }
}

/// A quoted string, in double quotes.
pub open spec fn src_quoted(node: Quoted) -> Seq<char> {
    " "@ + "\""@ + node.string@ + "\""@
}

pub open spec fn src_ident(node: Ident) -> Seq<char> {
    " "@ + node.ident@
}

pub open spec fn src_int_const(node: IntConst) -> Seq<char> {
    " "@ + decimal(node.int as nat)
}

pub open spec fn src_annot_arg_val(node: AnnotArgVal) -> Seq<char> {
    match node {
        AnnotArgVal::QuotedItem(inner) => src_quoted(inner),
        AnnotArgVal::IdentItem(inner) => src_ident(inner),
        AnnotArgVal::IntConstItem(inner) => src_int_const(inner),
    }
}

pub open spec fn src_annot_arg(node: AnnotArg) -> Seq<char> {
    " "@ + node.key@ + " "@ + seq!['='] + " "@ + src_annot_arg_val(node.annot_arg_val)
}

pub open spec fn src_annot_args(node: AnnotArgs) -> Seq<char> {
    " "@ + seq!['('] + " "@ + join(
        node.annot_arg_list@.map_values(|a: AnnotArg| src_annot_arg(a)),
        seq![','],
    ) + " "@ + seq![')']
}

pub open spec fn src_annotation(node: Annotation) -> Seq<char> {
    " "@ + "@"@ + " "@ + node.ident@ + " "@ + match node.annot_args {
        Some(args) => src_annot_args(args),
        None => Seq::empty(),
    }
}

pub open spec fn src_annotations(annots: Seq<Annotation>) -> Seq<char> {
    join(annots.map_values(|a: Annotation| src_annotation(a)), " "@)
}

pub open spec fn src_func_arg(node: FuncArg) -> Seq<char> {
    match node {
        FuncArg::QuotedItem(inner) => src_quoted(inner),
    }
}

pub open spec fn src_func_token(node: FuncToken) -> Seq<char> {
    " "@ + node.ident@ + " "@ + seq!['('] + " "@ + join(
        node.fn_args@.map_values(|a: FuncArg| src_func_arg(a)),
        seq![','],
    ) + " "@ + seq![')']
}

pub open spec fn src_key_token(node: KeyToken) -> Seq<char> {
    " "@ + node.key@
}

pub open spec fn src_token_type(node: TokenType) -> Seq<char> {
    match node {
        TokenType::FuncTokenItem(inner) => src_func_token(inner),
        TokenType::KeyTokenItem(inner) => src_key_token(inner),
        TokenType::QuotedItem(inner) => src_quoted(inner),
    }
}

pub open spec fn src_named_token(node: NamedToken) -> Seq<char> {
    " "@ + src_annotations(node.annots@) + " "@ + node.name@ + " "@ + seq![':'] + " "@ + flag(
        node.not,
        '!',
    ) + " "@ + src_token_type(node.token_type) + " "@ + flag(node.optional, '?')
}

pub open spec fn src_simple_token(node: SimpleToken) -> Seq<char> {
    " "@ + src_annotations(node.annots@) + " "@ + flag(node.not, '!') + " "@ + src_token_type(
        node.token_type,
    ) + " "@ + flag(node.optional, '?')
}

pub open spec fn src_token(node: Token) -> Seq<char>
    decreases node, 0int,
{
    match node {
        Token::NamedTokenItem(inner) => src_named_token(inner),
        Token::SimpleTokenItem(inner) => src_simple_token(inner),
        Token::TokenGroupItem(inner) => src_token_group(inner),
    }
}

/// The first `n` tokens of `v`, separated by spaces.
pub open spec fn src_tokens_upto(v: Seq<Token>, n: int) -> Seq<char>
    decreases v, n,
{
    if n <= 0 || n > v.len() {
        Seq::empty()
    } else {
        src_tokens_upto(v, n - 1) + src_token(v[n - 1]) + (if n - 1 < v.len() - 1 {
            " "@
        } else {
            Seq::empty()
        })
    }
}

pub open spec fn src_tokens(v: Seq<Token>) -> Seq<char> {
    src_tokens_upto(v, v.len() as int)
}

pub open spec fn src_token_group(node: TokenGroup) -> Seq<char>
    decreases node, 0int,
{
    " "@ + src_annotations(node.annots@) + " "@ + flag(node.not, '!') + " "@ + seq!['('] + " "@
        + src_tokens_upto(node.token_list@, node.token_list@.len() as int) + " "@ + seq![')'] + " "@
        + flag(node.optional, '?')
}

/// A definition among alternatives: its annotations, then its name, if it
/// has one, followed by its tokens in parentheses.
pub open spec fn src_ast_def(node: AstDef) -> Seq<char> {
    " "@ + src_annotations(node.annots@) + " "@ + opt_str(node.ident) + " "@ + seq!['('] + " "@ + src_tokens(
        node.tokens@,
    ) + " "@ + seq![')']
}

pub open spec fn src_ast_ref(node: AstRef) -> Seq<char> {
    " "@ + node.ident@
}

pub open spec fn src_ast_item(node: AstItem) -> Seq<char> {
    match node {
        AstItem::AstDefItem(inner) => src_ast_def(inner),
        AstItem::AstRefItem(inner) => src_ast_ref(inner),
    }
}

pub open spec fn src_ast_many(node: AstMany) -> Seq<char> {
    " "@ + src_annotations(node.annots@) + " "@ + node.ident@ + " "@ + seq!['{'] + " "@ + join(
        node.items@.map_values(|a: AstItem| src_ast_item(a)),
        seq![','],
    ) + " "@ + seq!['}']
}

pub open spec fn src_ast_single(node: AstSingle) -> Seq<char> {
    " "@ + src_annotations(node.annots@) + " "@ + node.ident@ + " "@ + seq!['('] + " "@ + src_tokens(
        node.tokens@,
    ) + " "@ + seq![')']
}

pub open spec fn src_list_item(node: ListItem) -> Seq<char> {
    " "@ + src_ast_item(node.ast_item) + " "@ + opt_str(node.sep)
}

pub open spec fn src_list_single(node: ListSingle) -> Seq<char> {
    " "@ + src_annotations(node.annots@) + " "@ + node.ident@ + " "@ + seq!['['] + " "@ + seq![']']
        + " "@ + node.sep@ + " "@ + node.reference@
}

pub open spec fn src_list_many(node: ListMany) -> Seq<char> {
    " "@ + src_annotations(node.annots@) + " "@ + node.ident@ + " "@ + seq![':'] + " "@
        + node.ast_type@ + " "@ + seq!['['] + " "@ + seq![']'] + " "@ + opt_str(node.sep) + " "@
        + seq!['{'] + " "@ + join(node.items@.map_values(|a: ListItem| src_list_item(a)), seq![','])
        + " "@ + seq!['}']
}

pub open spec fn src_list(node: List) -> Seq<char> {
    match node {
        List::ListSingleItem(inner) => src_list_single(inner),
        List::ListManyItem(inner) => src_list_many(inner),
    }
}

pub open spec fn src_comment(node: Comment) -> Seq<char> {
    " "@ + "(*"@ + " "@ + node.comment@ + " "@ + "*)"@
}

pub open spec fn src_source_item(node: SourceItem) -> Seq<char> {
    match node {
        SourceItem::AstSingleItem(inner) => src_ast_single(inner),
        SourceItem::AstManyItem(inner) => src_ast_many(inner),
        SourceItem::ListItem(inner) => src_list(inner),
        SourceItem::CommentItem(inner) => src_comment(inner),
    }
}

pub open spec fn src_source(node: Source) -> Seq<char> {
    " "@ + join(node.items@.map_values(|a: SourceItem| src_source_item(a)), " "@)
}

pub struct ToSource;

impl ToSource {
    fn annotations(s: String, v: &Vec<Annotation>) -> (r: String)
        ensures
            r@ == s@ + src_annotations(v@),
    {
        let ghost parts = v@.map_values(|a: Annotation| src_annotation(a));
        let len = v.len();
        let mut s = s;
        let ghost s0 = s@;
        let mut i: usize = 0;
        while i < len
            invariant
                len == v@.len(),
                parts == v@.map_values(|a: Annotation| src_annotation(a)),
                i <= len,
                s@ == s0 + join_upto(parts, " "@, i as int),
            decreases len - i,
        {
            s = Self::annotation(s, &v[i]);
            if i < len - 1 {
                s = cat(s, " ");
            }
            proof {
                lemma_join_step(parts, " "@, i as int);
            }
            i += 1;
        }
        s
    }

    fn tokens(s: String, v: &Vec<Token>) -> (r: String)
        ensures
            r@ == s@ + src_tokens(v@),
        decreases v@, v@.len() + 1,
    {
        let len = v.len();
        let mut s = s;
        let ghost s0 = s@;
        let mut i: usize = 0;
        while i < len
            invariant
                len == v@.len(),
                i <= len,
                s@ == s0 + src_tokens_upto(v@, i as int),
            decreases len - i,
        {
            s = Self::token(s, &v[i]);
            if i < len - 1 {
                s = cat(s, " ");
            }
            i += 1;
        }
        s
    }


    #[verifier::spinoff_prover]
    #[verifier::rlimit(40)]
    pub fn list_single(s: String, node: &ListSingle) -> (r: String)
        ensures
            r@ == s@ + src_list_single(*node),
    {
        let ghost s0 = s@;
        let mut s = s;
        s = cat(s, " ");
        s = Self::annotations(s, &node.annots);
        s = cat(s, " ");
        s = cat(s, node.ident);
        s = cat(s, " ");
        s = cat_char(s, '[');
        s = cat(s, " ");
        s = cat_char(s, ']');
        s = cat(s, " ");
        s = cat(s, node.sep);
        s = cat(s, " ");
        s = cat(s, node.reference);
        assert(s@ =~= s0 + src_list_single(*node));
        s
    }

    #[verifier::spinoff_prover]
    #[verifier::rlimit(40)]
    pub fn func_token(s: String, node: &FuncToken) -> (r: String)
        ensures
            r@ == s@ + src_func_token(*node),
    {
        let ghost s0 = s@;
        let mut s = s;
        s = cat(s, " ");
        s = cat(s, node.ident);
        s = cat(s, " ");
        s = cat_char(s, '(');
        s = cat(s, " ");
        let ghost parts = node.fn_args@.map_values(|a: FuncArg| src_func_arg(a));
        let len = node.fn_args.len();
        let ghost s1 = s@;
        let mut i: usize = 0;
        while i < len
            invariant
                len == node.fn_args@.len(),
                parts == node.fn_args@.map_values(|a: FuncArg| src_func_arg(a)),
                i <= len,
                s@ == s1 + join_upto(parts, seq![','], i as int),
            decreases len - i,
        {
            s = Self::func_arg(s, &node.fn_args[i]);
            if i < len - 1 {
                s = cat_char(s, ',');
            }
            proof {
                lemma_join_step(parts, seq![','], i as int);
            }
            i += 1;
        }
        s = cat(s, " ");
        s = cat_char(s, ')');
        assert(s@ =~= s0 + src_func_token(*node));
        s
    }

    #[verifier::spinoff_prover]
    #[verifier::rlimit(40)]
    fn ast_def_parts(s: String, node: &AstDef) -> (r: String)
        ensures
            r@ == s@ + (" "@ + src_annotations(node.annots@) + " "@ + opt_str(node.ident) + " "@
                + seq!['('] + " "@ + src_tokens(node.tokens@) + " "@ + seq![')']),
    {
        let ghost s0 = s@;
        let mut s = cat(s, " ");
        s = Self::annotations(s, &node.annots);
        s = cat(s, " ");
        if let Some(some_val) = node.ident {
            s = cat(s, some_val);
        }
        s = cat(s, " ");
        s = cat_char(s, '(');
        s = cat(s, " ");
        s = Self::tokens(s, &node.tokens);
        s = cat(s, " ");
        s = cat_char(s, ')');
        assert(s@ =~= s0 + (" "@ + src_annotations(node.annots@) + " "@ + opt_str(node.ident)
            + " "@ + seq!['('] + " "@ + src_tokens(node.tokens@) + " "@ + seq![')']));
        s
    }

    pub fn ast_def(s: String, node: &AstDef) -> (r: String)
        ensures
            r@ == s@ + src_ast_def(*node),
    {
        Self::ast_def_parts(s, node)
    }

    #[verifier::spinoff_prover]
    #[verifier::rlimit(40)]
    pub fn ast_many(s: String, node: &AstMany) -> (r: String)
        ensures
            r@ == s@ + src_ast_many(*node),
    {
        let ghost s0 = s@;
        let mut s = s;
        s = cat(s, " ");
        s = Self::annotations(s, &node.annots);
        s = cat(s, " ");
        s = cat(s, node.ident);
        s = cat(s, " ");
        s = cat_char(s, '{');
        s = cat(s, " ");
        let ghost parts = node.items@.map_values(|a: AstItem| src_ast_item(a));
        let len = node.items.len();
        let ghost s1 = s@;
        let mut i: usize = 0;
        while i < len
            invariant
                len == node.items@.len(),
                parts == node.items@.map_values(|a: AstItem| src_ast_item(a)),
                i <= len,
                s@ == s1 + join_upto(parts, seq![','], i as int),
            decreases len - i,
        {
            s = Self::ast_item(s, &node.items[i]);
            if i < len - 1 {
                s = cat_char(s, ',');
            }
            proof {
                lemma_join_step(parts, seq![','], i as int);
            }
            i += 1;
        }
        s = cat(s, " ");
        s = cat_char(s, '}');
        assert(s@ =~= s0 + src_ast_many(*node));
        s
    }

    pub fn key_token(s: String, node: &KeyToken) -> (r: String)
        ensures
            r@ == s@ + src_key_token(*node),
    {
        let ghost s0 = s@;
        let mut s = s;
        s = cat(s, " ");
        s = cat(s, node.key);
        assert(s@ =~= s0 + src_key_token(*node));
        s
    }

    #[verifier::spinoff_prover]
    #[verifier::rlimit(40)]
    pub fn token_group(s: String, node: &TokenGroup) -> (r: String)
        ensures
            r@ == s@ + src_token_group(*node),
        decreases node, 0int,
    {
        let ghost s0 = s@;
        let mut s = s;
        s = cat(s, " ");
        s = Self::annotations(s, &node.annots);
        s = cat(s, " ");
        if node.not {
            s = cat_char(s, '!');
        }
        s = cat(s, " ");
        s = cat_char(s, '(');
        s = cat(s, " ");
        s = Self::tokens(s, &node.token_list);
        s = cat(s, " ");
        s = cat_char(s, ')');
        s = cat(s, " ");
        if node.optional {
            s = cat_char(s, '?');
        }
        assert(s@ =~= s0 + src_token_group(*node));
        s
    }

    #[verifier::spinoff_prover]
    #[verifier::rlimit(40)]
    pub fn list_item(s: String, node: &ListItem) -> (r: String)
        ensures
            r@ == s@ + src_list_item(*node),
    {
        let ghost s0 = s@;
        let mut s = s;
        s = cat(s, " ");
        s = Self::ast_item(s, &node.ast_item);
        s = cat(s, " ");
        if let Some(some_val) = node.sep {
            s = cat(s, some_val);
        }
        assert(s@ =~= s0 + src_list_item(*node));
        s
    }

    pub fn ident(s: String, node: &Ident) -> (r: String)
        ensures
            r@ == s@ + src_ident(*node),
    {
        let ghost s0 = s@;
        let mut s = s;
        s = cat(s, " ");
        s = cat(s, node.ident);
        assert(s@ =~= s0 + src_ident(*node));
        s
    }

    pub fn int_const(s: String, node: &IntConst) -> (r: String)
        ensures
            r@ == s@ + src_int_const(*node),
    {
        let ghost s0 = s@;
        let mut s = s;
        s = cat(s, " ");
        s = cat(s, usize_to_string(node.int as usize).as_str());
        assert(s@ =~= s0 + src_int_const(*node));
        s
    }

    #[verifier::spinoff_prover]
    #[verifier::rlimit(40)]
    pub fn annotation(s: String, node: &Annotation) -> (r: String)
        ensures
            r@ == s@ + src_annotation(*node),
    {
        let ghost s0 = s@;
        let mut s = s;
        s = cat(s, " ");
        s = cat(s, "@");
        s = cat(s, " ");
        s = cat(s, node.ident);
        s = cat(s, " ");
        if let Some(some_val) = &node.annot_args {
            s = Self::annot_args(s, some_val);
        }
        assert(s@ =~= s0 + src_annotation(*node));
        s
    }

    #[verifier::spinoff_prover]
    #[verifier::rlimit(40)]
    pub fn ast_single(s: String, node: &AstSingle) -> (r: String)
        ensures
            r@ == s@ + src_ast_single(*node),
    {
        let ghost s0 = s@;
        let mut s = s;
        s = cat(s, " ");
        s = Self::annotations(s, &node.annots);
        s = cat(s, " ");
        s = cat(s, node.ident);
        s = cat(s, " ");
        s = cat_char(s, '(');
        s = cat(s, " ");
        s = Self::tokens(s, &node.tokens);
        s = cat(s, " ");
        s = cat_char(s, ')');
        assert(s@ =~= s0 + src_ast_single(*node));
        s
    }

    #[verifier::spinoff_prover]
    #[verifier::rlimit(40)]
    pub fn list_many(s: String, node: &ListMany) -> (r: String)
        ensures
            r@ == s@ + src_list_many(*node),
    {
        let ghost s0 = s@;
        let mut s = s;
        s = cat(s, " ");
        s = Self::annotations(s, &node.annots);
        s = cat(s, " ");
        s = cat(s, node.ident);
        s = cat(s, " ");
        s = cat_char(s, ':');
        s = cat(s, " ");
        s = cat(s, node.ast_type);
        s = cat(s, " ");
        s = cat_char(s, '[');
        s = cat(s, " ");
        s = cat_char(s, ']');
        s = cat(s, " ");
        if let Some(some_val) = node.sep {
            s = cat(s, some_val);
        }
        s = cat(s, " ");
        s = cat_char(s, '{');
        s = cat(s, " ");
        let ghost parts = node.items@.map_values(|a: ListItem| src_list_item(a));
        let len = node.items.len();
        let ghost s1 = s@;
        let mut i: usize = 0;
        while i < len
            invariant
                len == node.items@.len(),
                parts == node.items@.map_values(|a: ListItem| src_list_item(a)),
                i <= len,
                s@ == s1 + join_upto(parts, seq![','], i as int),
            decreases len - i,
        {
            s = Self::list_item(s, &node.items[i]);
            if i < len - 1 {
                s = cat_char(s, ',');
            }
            proof {
                lemma_join_step(parts, seq![','], i as int);
            }
            i += 1;
        }
        s = cat(s, " ");
        s = cat_char(s, '}');
        assert(s@ =~= s0 + src_list_many(*node));
        s
    }

    #[verifier::spinoff_prover]
    #[verifier::rlimit(40)]
    pub fn source(s: String, node: &Source) -> (r: String)
        ensures
            r@ == s@ + src_source(*node),
    {
        let ghost s0 = s@;
        let mut s = s;
        s = cat(s, " ");
        let ghost parts = node.items@.map_values(|a: SourceItem| src_source_item(a));
        let len = node.items.len();
        let ghost s1 = s@;
        let mut i: usize = 0;
        while i < len
            invariant
                len == node.items@.len(),
                parts == node.items@.map_values(|a: SourceItem| src_source_item(a)),
                i <= len,
                s@ == s1 + join_upto(parts, " "@, i as int),
            decreases len - i,
        {
            s = Self::source_item(s, &node.items[i]);
            if i < len - 1 {
                s = cat(s, " ");
            }
            proof {
                lemma_join_step(parts, " "@, i as int);
            }
            i += 1;
        }
        assert(s@ =~= s0 + src_source(*node));
        s
    }

    #[verifier::spinoff_prover]
    #[verifier::rlimit(40)]
    pub fn annot_arg(s: String, node: &AnnotArg) -> (r: String)
        ensures
            r@ == s@ + src_annot_arg(*node),
    {
        let ghost s0 = s@;
        let mut s = s;
        s = cat(s, " ");
        s = cat(s, node.key);
        s = cat(s, " ");
        s = cat_char(s, '=');
        s = cat(s, " ");
        s = Self::annot_arg_val(s, &node.annot_arg_val);
        assert(s@ =~= s0 + src_annot_arg(*node));
        s
    }

    pub fn ast_ref(s: String, node: &AstRef) -> (r: String)
        ensures
            r@ == s@ + src_ast_ref(*node),
    {
        let ghost s0 = s@;
        let mut s = s;
        s = cat(s, " ");
        s = cat(s, node.ident);
        assert(s@ =~= s0 + src_ast_ref(*node));
        s
    }

    #[verifier::spinoff_prover]
    #[verifier::rlimit(40)]
    pub fn comment(s: String, node: &Comment) -> (r: String)
        ensures
            r@ == s@ + src_comment(*node),
    {
        let ghost s0 = s@;
        let mut s = s;
        s = cat(s, " ");
        s = cat(s, "(*");
        s = cat(s, " ");
        s = cat(s, node.comment);
        s = cat(s, " ");
        s = cat(s, "*)");
        assert(s@ =~= s0 + src_comment(*node));
        s
    }

    #[verifier::spinoff_prover]
    #[verifier::rlimit(40)]
    pub fn quoted(s: String, node: &Quoted) -> (r: String)
        ensures
            r@ == s@ + src_quoted(*node),
    {
        let ghost s0 = s@;
        let mut s = s;
        s = cat(s, " ");
        s = cat(s, "\"");
        s = cat(s, node.string);
        s = cat(s, "\"");
        assert(s@ =~= s0 + src_quoted(*node));
        s
    }

    #[verifier::spinoff_prover]
    #[verifier::rlimit(40)]
    pub fn annot_args(s: String, node: &AnnotArgs) -> (r: String)
        ensures
            r@ == s@ + src_annot_args(*node),
    {
        let ghost s0 = s@;
        let mut s = s;
        s = cat(s, " ");
        s = cat_char(s, '(');
        s = cat(s, " ");
        let ghost parts = node.annot_arg_list@.map_values(|a: AnnotArg| src_annot_arg(a));
        let len = node.annot_arg_list.len();
        let ghost s1 = s@;
        let mut i: usize = 0;
        while i < len
            invariant
                len == node.annot_arg_list@.len(),
                parts == node.annot_arg_list@.map_values(|a: AnnotArg| src_annot_arg(a)),
                i <= len,
                s@ == s1 + join_upto(parts, seq![','], i as int),
            decreases len - i,
        {
            s = Self::annot_arg(s, &node.annot_arg_list[i]);
            if i < len - 1 {
                s = cat_char(s, ',');
            }
            proof {
                lemma_join_step(parts, seq![','], i as int);
            }
            i += 1;
        }
        s = cat(s, " ");
        s = cat_char(s, ')');
        assert(s@ =~= s0 + src_annot_args(*node));
        s
    }

    #[verifier::spinoff_prover]
    #[verifier::rlimit(40)]
    pub fn named_token(s: String, node: &NamedToken) -> (r: String)
        ensures
            r@ == s@ + src_named_token(*node),
    {
        let ghost s0 = s@;
        let mut s = s;
        s = cat(s, " ");
        s = Self::annotations(s, &node.annots);
        s = cat(s, " ");
        s = cat(s, node.name);
        s = cat(s, " ");
        s = cat_char(s, ':');
        s = cat(s, " ");
        if node.not {
            s = cat_char(s, '!');
        }
        s = cat(s, " ");
        s = Self::token_type(s, &node.token_type);
        s = cat(s, " ");
        if node.optional {
            s = cat_char(s, '?');
        }
        assert(s@ =~= s0 + src_named_token(*node));
        s
    }

    #[verifier::spinoff_prover]
    #[verifier::rlimit(40)]
    pub fn simple_token(s: String, node: &SimpleToken) -> (r: String)
        ensures
            r@ == s@ + src_simple_token(*node),
    {
        let ghost s0 = s@;
        let mut s = s;
        s = cat(s, " ");
        s = Self::annotations(s, &node.annots);
        s = cat(s, " ");
        if node.not {
            s = cat_char(s, '!');
        }
        s = cat(s, " ");
        s = Self::token_type(s, &node.token_type);
        s = cat(s, " ");
        if node.optional {
            s = cat_char(s, '?');
        }
        assert(s@ =~= s0 + src_simple_token(*node));
        s
    }

    pub fn annot_arg_val(s: String, node: &AnnotArgVal) -> (r: String)
        ensures
            r@ == s@ + src_annot_arg_val(*node),
    {
        match node {
            AnnotArgVal::QuotedItem(inner) => Self::quoted(s, inner),
            AnnotArgVal::IdentItem(inner) => Self::ident(s, inner),
            AnnotArgVal::IntConstItem(inner) => Self::int_const(s, inner),
        }
    }

    pub fn ast_item(s: String, node: &AstItem) -> (r: String)
        ensures
            r@ == s@ + src_ast_item(*node),
    {
        match node {
            AstItem::AstDefItem(inner) => Self::ast_def(s, inner),
            AstItem::AstRefItem(inner) => Self::ast_ref(s, inner),
        }
    }

    pub fn func_arg(s: String, node: &FuncArg) -> (r: String)
        ensures
            r@ == s@ + src_func_arg(*node),
    {
        match node {
            FuncArg::QuotedItem(inner) => Self::quoted(s, inner),
        }
    }

    pub fn list(s: String, node: &List) -> (r: String)
        ensures
            r@ == s@ + src_list(*node),
    {
        match node {
            List::ListSingleItem(inner) => Self::list_single(s, inner),
            List::ListManyItem(inner) => Self::list_many(s, inner),
        }
    }

    pub fn source_item(s: String, node: &SourceItem) -> (r: String)
        ensures
            r@ == s@ + src_source_item(*node),
    {
        match node {
            SourceItem::AstSingleItem(inner) => Self::ast_single(s, inner),
            SourceItem::AstManyItem(inner) => Self::ast_many(s, inner),
            SourceItem::ListItem(inner) => Self::list(s, inner),
            SourceItem::CommentItem(inner) => Self::comment(s, inner),
        }
    }

    pub fn token(s: String, node: &Token) -> (r: String)
        ensures
            r@ == s@ + src_token(*node),
        decreases node, 1int,
    {
        match node {
            Token::NamedTokenItem(inner) => Self::named_token(s, inner),
            Token::SimpleTokenItem(inner) => Self::simple_token(s, inner),
            Token::TokenGroupItem(inner) => Self::token_group(s, inner),
        }
    }

    pub fn token_type(s: String, node: &TokenType) -> (r: String)
        ensures
            r@ == s@ + src_token_type(*node),
    {
        match node {
            TokenType::FuncTokenItem(inner) => Self::func_token(s, inner),
            TokenType::KeyTokenItem(inner) => Self::key_token(s, inner),
            TokenType::QuotedItem(inner) => Self::quoted(s, inner),
        }
    }
}

} // verus!
