//! The parser of the description language: from the bytes of a
//! description to its syntax tree.
//!
//! Each parser reads from a position of the input and gives the node read
//! and the position after it, or `None` where its grammar does not match
//! there. Whitespace is skipped before each piece, as `nom::sp` skips it.
//! The grammar is stated by spec functions over the bytes, which give the
//! node as a view, with sequences for lists and characters for text.
//! Alternatives are tried in order and the first that matches is taken;
//! repeated pieces are read as long as they match. A piece that would have
//! to be read at the very end of the input does not match here, and an
//! optional one is taken as absent, where nom asks for more input.
use vstd::prelude::*;
use crate::common::parsers::{
    ident_at, ident_from, lemma_ws_end, quoted_at, quoted_from, sp_at, utf8_str, utf8_text, ws_end,
};
use super::ast::{
    AnnotArg, AnnotArgs, AnnotArgVal, Annotation, AstDef, AstItem, AstMany, AstRef, AstSingle, Comment, FuncArg,
    FuncToken, Ident, IntConst, KeyToken, List, ListItem, ListMany, ListSingle, NamedToken, Quoted, SimpleToken,
    Source, SourceItem, Token, TokenGroup, TokenType,
};

verus! {

// ---- Views of the syntax tree ----

pub enum AnnotArgValV {
    Quoted(Seq<char>),
    Ident(Seq<char>),
    Int(u32),
}

pub struct AnnotArgV {
    pub key: Seq<char>,
    pub val: AnnotArgValV,
}

pub struct AnnotationV {
    pub ident: Seq<char>,
    pub args: Option<Seq<AnnotArgV>>,
}

pub open spec fn annot_arg_val_v(v: AnnotArgVal) -> AnnotArgValV {
    match v {
        AnnotArgVal::QuotedItem(q) => AnnotArgValV::Quoted(q.string@),
        AnnotArgVal::IdentItem(i) => AnnotArgValV::Ident(i.ident@),
        AnnotArgVal::IntConstItem(n) => AnnotArgValV::Int(n.int),
    }
}

pub open spec fn annot_arg_v(a: AnnotArg) -> AnnotArgV {
    AnnotArgV { key: a.key@, val: annot_arg_val_v(a.annot_arg_val) }
}

pub open spec fn annot_args_v(v: Seq<AnnotArg>) -> Seq<AnnotArgV> {
    v.map_values(|a: AnnotArg| annot_arg_v(a))
}

pub open spec fn annotation_v(a: Annotation) -> AnnotationV {
    AnnotationV {
        ident: a.ident@,
        args: match a.annot_args {
            Some(x) => Some(annot_args_v(x.annot_arg_list@)),
            None => None,
        },
    }
}

pub open spec fn annots_v(v: Seq<Annotation>) -> Seq<AnnotationV> {
    v.map_values(|a: Annotation| annotation_v(a))
}

// ---- Pieces ----

/// The byte `c` after whitespace: the position after it.
pub open spec fn lit(b: Seq<u8>, i: int, c: u8) -> Option<int> {
    let j = ws_end(b, i);
    if 0 <= j < b.len() && b[j] == c {
        Some(j + 1)
    } else {
        None
    }
}

/// The bytes `c1 c2` after whitespace: the position after them.
pub open spec fn lit2(b: Seq<u8>, i: int, c1: u8, c2: u8) -> Option<int> {
    let j = ws_end(b, i);
    if 0 <= j && j + 1 < b.len() && b[j] == c1 && b[j + 1] == c2 {
        Some(j + 2)
    } else {
        None
    }
}

/// An identifier after whitespace.
pub open spec fn sp_ident(b: Seq<u8>, i: int) -> Option<(Seq<char>, int)> {
    ident_at(b, ws_end(b, i))
}

/// A quoted string after whitespace.
pub open spec fn sp_quoted(b: Seq<u8>, i: int) -> Option<(Seq<char>, int)> {
    quoted_at(b, ws_end(b, i))
}

pub(crate) fn lit_at(input: &[u8], i: usize, c: u8) -> (r: Option<usize>)
    requires
        i <= input@.len(),
    ensures
        match r {
            Some(j) => lit(input@, i as int, c) == Some(j as int) && i < j <= input@.len(),
            None => lit(input@, i as int, c) is None,
        },
{
    let j = sp_at(input, i);
    if j < input.len() && input[j] == c {
        Some(j + 1)
    } else {
        None
    }
}

fn lit2_at(input: &[u8], i: usize, c1: u8, c2: u8) -> (r: Option<usize>)
    requires
        i <= input@.len(),
    ensures
        match r {
            Some(j) => lit2(input@, i as int, c1, c2) == Some(j as int) && i < j <= input@.len(),
            None => lit2(input@, i as int, c1, c2) is None,
        },
{
    let j = sp_at(input, i);
    if j < input.len() && j + 1 < input.len() && input[j] == c1 && input[j + 1] == c2 {
        Some(j + 2)
    } else {
        None
    }
}

pub(crate) fn sp_ident_at<'a>(input: &'a [u8], i: usize) -> (r: Option<(&'a str, usize)>)
    requires
        i <= input@.len(),
    ensures
        match r {
            Some((s, j)) => sp_ident(input@, i as int) == Some((s@, j as int)) && i < j <= input@.len(),
            None => sp_ident(input@, i as int) is None,
        },
{
    let j = sp_at(input, i);
    ident_from(input, j)
}

pub(crate) fn sp_quoted_at<'a>(input: &'a [u8], i: usize) -> (r: Option<(&'a str, usize)>)
    requires
        i <= input@.len(),
    ensures
        match r {
            Some((s, j)) => sp_quoted(input@, i as int) == Some((s@, j as int)) && i < j <= input@.len(),
            None => sp_quoted(input@, i as int) is None,
        },
{
    let j = sp_at(input, i);
    quoted_from(input, j)
}

/// A decimal digit.
pub open spec fn digit(c: u8) -> bool {
    0x30 <= c <= 0x39
}

/// The position after the run of digits from `i`.
pub open spec fn digits_end(b: Seq<u8>, i: int) -> int
    decreases b.len() - i,
{
    if 0 <= i < b.len() && digit(b[i]) {
        digits_end(b, i + 1)
    } else {
        i
    }
}

/// The number the digits from `i` to `j` write.
pub open spec fn digits_value(b: Seq<u8>, i: int, j: int) -> int
    decreases j - i,
{
    if j <= i {
        0
    } else {
        digits_value(b, i, j - 1) * 10 + (b[j - 1] - 0x30)
    }
}

/// An unsigned decimal number at `i` that fits in 32 bits.
pub open spec fn int_at(b: Seq<u8>, i: int) -> Option<(u32, int)> {
    let e = digits_end(b, i);
    if e > i && digits_value(b, i, e) <= u32::MAX {
        Some((digits_value(b, i, e) as u32, e))
    } else {
        None
    }
}

fn int_from(input: &[u8], i: usize) -> (r: Option<(u32, usize)>)
    requires
        i <= input@.len(),
    ensures
        match r {
            Some((v, j)) => int_at(input@, i as int) == Some((v, j as int)) && i < j <= input@.len(),
            None => int_at(input@, i as int) is None,
        },
{
    let mut k = i;
    let mut acc: u64 = 0;
    let mut over = false;
    while k < input.len() && input[k] >= 0x30 && input[k] <= 0x39
        invariant
            i <= k <= input@.len(),
            digits_end(input@, i as int) == digits_end(input@, k as int),
            forall|m: int| i <= m < k ==> digit(#[trigger] input@[m]),
            over ==> digits_value(input@, i as int, k as int) > u32::MAX,
            !over ==> acc == digits_value(input@, i as int, k as int) && acc <= u32::MAX,
        decreases input@.len() - k,
    {
        let d = (input[k] - 0x30) as u64;
        if !over {
            let next = acc * 10 + d;
            if next > 0xFFFF_FFFF {
                over = true;
            } else {
                acc = next;
            }
        }
        k += 1;
    }
    if k > i && !over {
        Some((acc as u32, k))
    } else {
        None
    }
}

// ---- Annotations ----

/// A value of an annotation argument: a quoted string, an identifier or a
/// number, tried in that order.
pub open spec fn annot_arg_val(b: Seq<u8>, i: int) -> Option<(AnnotArgValV, int)> {
    let j = ws_end(b, i);
    match quoted_at(b, j) {
        Some((t, k)) => Some((AnnotArgValV::Quoted(t), k)),
        None => match ident_at(b, j) {
            Some((t, k)) => Some((AnnotArgValV::Ident(t), k)),
            None => match int_at(b, j) {
                Some((v, k)) => Some((AnnotArgValV::Int(v), k)),
                None => None,
            },
        },
    }
}

/// An annotation argument: `key = value`.
pub open spec fn annot_arg(b: Seq<u8>, i: int) -> Option<(AnnotArgV, int)> {
    match sp_ident(b, i) {
        Some((key, j)) => match lit(b, j, 0x3D) {
            Some(k) => match annot_arg_val(b, k) {
                Some((val, m)) => Some((AnnotArgV { key, val }, m)),
                None => None,
            },
            None => None,
        },
        None => None,
    }
}

/// Further arguments, each after a `,` that directly follows the one before.
pub open spec fn annot_arg_rest(b: Seq<u8>, i: int) -> (Seq<AnnotArgV>, int)
    decreases b.len() - i,
{
    if 0 <= i < b.len() && b[i] == 0x2C {
        match annot_arg(b, i + 1) {
            Some((a, j)) => if i + 1 < j <= b.len() {
                let (r, k) = annot_arg_rest(b, j);
                (seq![a] + r, k)
            } else {
                (Seq::empty(), i)
            },
            None => (Seq::empty(), i),
        }
    } else {
        (Seq::empty(), i)
    }
}

/// Annotation arguments separated by `,`; none where the first does not
/// match.
pub open spec fn annot_arg_list(b: Seq<u8>, i: int) -> (Seq<AnnotArgV>, int) {
    match annot_arg(b, i) {
        Some((a, j)) => if i < j <= b.len() {
            let (r, k) = annot_arg_rest(b, j);
            (seq![a] + r, k)
        } else {
            (Seq::empty(), i)
        },
        None => (Seq::empty(), i),
    }
}

/// Arguments of an annotation: `( list )`.
pub open spec fn annot_args(b: Seq<u8>, i: int) -> Option<(Seq<AnnotArgV>, int)> {
    match lit(b, i, 0x28) {
        Some(j) => {
            let (l, k) = annot_arg_list(b, ws_end(b, j));
            match lit(b, k, 0x29) {
                Some(m) => Some((l, m)),
                None => None,
            }
        },
        None => None,
    }
}

/// An annotation: `@`, its name, and arguments where they follow.
pub open spec fn annotation(b: Seq<u8>, i: int) -> Option<(AnnotationV, int)> {
    match lit(b, i, 0x40) {
        Some(j) => match sp_ident(b, j) {
            Some((id, k)) => match annot_args(b, k) {
                Some((args, m)) => Some((AnnotationV { ident: id, args: Some(args) }, m)),
                None => Some((AnnotationV { ident: id, args: None }, k)),
            },
            None => None,
        },
        None => None,
    }
}

/// Annotations, as many as follow one another.
pub open spec fn annots(b: Seq<u8>, i: int) -> (Seq<AnnotationV>, int)
    decreases b.len() - i,
{
    if 0 <= i < b.len() {
        match annotation(b, i) {
            Some((a, j)) => if i < j <= b.len() {
                let (r, k) = annots(b, j);
                (seq![a] + r, k)
            } else {
                (Seq::empty(), i)
            },
            None => (Seq::empty(), i),
        }
    } else {
        (Seq::empty(), i)
    }
}

pub fn annot_arg_val_at<'a>(input: &'a [u8], i: usize) -> (r: Option<(AnnotArgVal<'a>, usize)>)
    requires
        i <= input@.len(),
    ensures
        match r {
            Some((v, j)) => annot_arg_val(input@, i as int) == Some((annot_arg_val_v(v), j as int)) && i < j
                <= input@.len(),
            None => annot_arg_val(input@, i as int) is None,
        },
{
    let j = sp_at(input, i);
    if let Some((t, k)) = quoted_from(input, j) {
        return Some((AnnotArgVal::QuotedItem(Quoted { string: t }), k));
    }
    if let Some((t, k)) = ident_from(input, j) {
        return Some((AnnotArgVal::IdentItem(Ident { ident: t }), k));
    }
    if let Some((v, k)) = int_from(input, j) {
        return Some((AnnotArgVal::IntConstItem(IntConst { int: v }), k));
    }
    None
}

pub fn annot_arg_at<'a>(input: &'a [u8], i: usize) -> (r: Option<(AnnotArg<'a>, usize)>)
    requires
        i <= input@.len(),
    ensures
        match r {
            Some((v, j)) => annot_arg(input@, i as int) == Some((annot_arg_v(v), j as int)) && i < j
                <= input@.len(),
            None => annot_arg(input@, i as int) is None,
        },
{
    let (key, j) = match sp_ident_at(input, i) {
        Some(x) => x,
        None => return None,
    };
    let k = match lit_at(input, j, 0x3D) {
        Some(k) => k,
        None => return None,
    };
    match annot_arg_val_at(input, k) {
        Some((val, m)) => Some((AnnotArg { annot_arg_val: val, key }, m)),
        None => None,
    }
}

pub fn annot_arg_list_at<'a>(input: &'a [u8], i: usize) -> (r: (Vec<AnnotArg<'a>>, usize))
    requires
        i <= input@.len(),
    ensures
        (annot_args_v(r.0@), r.1 as int) == annot_arg_list(input@, i as int),
        i <= r.1 <= input@.len(),
{
    let (a, j) = match annot_arg_at(input, i) {
        Some(x) => x,
        None => return (Vec::new(), i),
    };
    let mut v: Vec<AnnotArg<'a>> = Vec::new();
    v.push(a);
    let mut pos = j;
    proof {
        assert(annot_args_v(v@) =~= seq![annot_arg_v(a)]);
    }
    loop
        invariant
            i < pos <= input@.len(),
            annot_arg_list(input@, i as int) == (annot_args_v(v@) + annot_arg_rest(input@, pos as int).0, annot_arg_rest(
                input@,
                pos as int,
            ).1),
        decreases input@.len() - pos,
    {
        if pos < input.len() && input[pos] == 0x2C {
            match annot_arg_at(input, pos + 1) {
                Some((a2, j2)) => {
                    let ghost old_v = annot_args_v(v@);
                    v.push(a2);
                    proof {
                        assert(annot_args_v(v@) =~= old_v.push(annot_arg_v(a2)));
                        let r2 = annot_arg_rest(input@, j2 as int);
                        assert(old_v + (seq![annot_arg_v(a2)] + r2.0) =~= annot_args_v(v@) + r2.0);
                    }
                    pos = j2;
                },
                None => {
                    proof {
                        assert(annot_args_v(v@) + Seq::<AnnotArgV>::empty() =~= annot_args_v(v@));
                    }
                    return (v, pos);
                },
            }
        } else {
            proof {
                assert(annot_args_v(v@) + Seq::<AnnotArgV>::empty() =~= annot_args_v(v@));
            }
            return (v, pos);
        }
    }
}

pub fn annot_args_at<'a>(input: &'a [u8], i: usize) -> (r: Option<(AnnotArgs<'a>, usize)>)
    requires
        i <= input@.len(),
    ensures
        match r {
            Some((v, j)) => annot_args(input@, i as int) == Some((annot_args_v(v.annot_arg_list@), j as int)) && i
                < j <= input@.len(),
            None => annot_args(input@, i as int) is None,
        },
{
    let j = match lit_at(input, i, 0x28) {
        Some(j) => j,
        None => return None,
    };
    let j2 = sp_at(input, j);
    let (l, k) = annot_arg_list_at(input, j2);
    match lit_at(input, k, 0x29) {
        Some(m) => Some((AnnotArgs { annot_arg_list: l }, m)),
        None => None,
    }
}

pub fn annotation_at<'a>(input: &'a [u8], i: usize) -> (r: Option<(Annotation<'a>, usize)>)
    requires
        i <= input@.len(),
    ensures
        match r {
            Some((v, j)) => annotation(input@, i as int) == Some((annotation_v(v), j as int)) && i < j
                <= input@.len(),
            None => annotation(input@, i as int) is None,
        },
{
    let j = match lit_at(input, i, 0x40) {
        Some(j) => j,
        None => return None,
    };
    let (id, k) = match sp_ident_at(input, j) {
        Some(x) => x,
        None => return None,
    };
    match annot_args_at(input, k) {
        Some((args, m)) => Some((Annotation { annot_args: Some(args), ident: id }, m)),
        None => Some((Annotation { annot_args: None, ident: id }, k)),
    }
}

pub fn annots_at<'a>(input: &'a [u8], i: usize) -> (r: (Vec<Annotation<'a>>, usize))
    requires
        i <= input@.len(),
    ensures
        (annots_v(r.0@), r.1 as int) == annots(input@, i as int),
        i <= r.1 <= input@.len(),
{
    let mut v: Vec<Annotation<'a>> = Vec::new();
    let mut pos = i;
    proof {
        assert(annots_v(v@) + annots(input@, i as int).0 =~= annots(input@, i as int).0);
    }
    loop
        invariant
            i <= pos <= input@.len(),
            annots(input@, i as int) == (annots_v(v@) + annots(input@, pos as int).0, annots(input@, pos as int).1),
        decreases input@.len() - pos,
    {
        if pos >= input.len() {
            proof {
                assert(annots_v(v@) + Seq::<AnnotationV>::empty() =~= annots_v(v@));
            }
            return (v, pos);
        }
        match annotation_at(input, pos) {
            Some((a, j)) => {
                let ghost old_v = annots_v(v@);
                v.push(a);
                proof {
                    assert(annots_v(v@) =~= old_v.push(annotation_v(a)));
                    let r2 = annots(input@, j as int);
                    assert(old_v + (seq![annotation_v(a)] + r2.0) =~= annots_v(v@) + r2.0);
                }
                pos = j;
            },
            None => {
                proof {
                    assert(annots_v(v@) + Seq::<AnnotationV>::empty() =~= annots_v(v@));
                }
                return (v, pos);
            },
        }
    }
}

// ---- Tokens ----

pub enum TokenTypeV {
    Func(Seq<char>, Seq<Seq<char>>),
    Key(Seq<char>),
    Quoted(Seq<char>),
}

pub enum TokenV {
    Named(Seq<AnnotationV>, Seq<char>, bool, TokenTypeV, bool),
    Simple(Seq<AnnotationV>, bool, TokenTypeV, bool),
    Group(Seq<AnnotationV>, bool, Seq<TokenV>, bool),
}

pub open spec fn fn_args_v(v: Seq<FuncArg>) -> Seq<Seq<char>> {
    v.map_values(
        |a: FuncArg|
            match a {
                FuncArg::QuotedItem(q) => q.string@,
            },
    )
}

pub open spec fn token_type_v(t: TokenType) -> TokenTypeV {
    match t {
        TokenType::FuncTokenItem(f) => TokenTypeV::Func(f.ident@, fn_args_v(f.fn_args@)),
        TokenType::KeyTokenItem(k) => TokenTypeV::Key(k.key@),
        TokenType::QuotedItem(q) => TokenTypeV::Quoted(q.string@),
    }
}

pub open spec fn token_v(t: Token) -> TokenV
    decreases t, 0int,
{
    match t {
        Token::NamedTokenItem(n) => TokenV::Named(
            annots_v(n.annots@),
            n.name@,
            n.not,
            token_type_v(n.token_type),
            n.optional,
        ),
        Token::SimpleTokenItem(st) => TokenV::Simple(annots_v(st.annots@), st.not, token_type_v(st.token_type), st.optional),
        Token::TokenGroupItem(g) => token_group_v(g),
    }
}

pub open spec fn token_group_v(g: TokenGroup) -> TokenV
    decreases g, 0int,
{
    TokenV::Group(annots_v(g.annots@), g.not, tokens_v_upto(g.token_list@, g.token_list@.len() as int), g.optional)
}

/// The views of the first `n` tokens of `v`.
pub open spec fn tokens_v_upto(v: Seq<Token>, n: int) -> Seq<TokenV>
    decreases v, n,
{
    if n <= 0 || n > v.len() {
        Seq::empty()
    } else {
        tokens_v_upto(v, n - 1).push(token_v(v[n - 1]))
    }
}

pub open spec fn tokens_v(v: Seq<Token>) -> Seq<TokenV> {
    tokens_v_upto(v, v.len() as int)
}

proof fn lemma_tokens_v_push(v: Seq<Token>, t: Token)
    ensures
        tokens_v(v.push(t)) == tokens_v(v).push(token_v(t)),
{
    let w = v.push(t);
    assert forall|n: int| 0 <= n <= v.len() implies tokens_v_upto(w, n) == tokens_v_upto(v, n) by {
        lemma_tokens_v_prefix(v, w, n);
    }
    assert(w[v.len() as int] == t);
}

proof fn lemma_tokens_v_prefix(v: Seq<Token>, w: Seq<Token>, n: int)
    requires
        0 <= n <= v.len(),
        v.len() <= w.len(),
        forall|k: int| 0 <= k < v.len() ==> w[k] == v[k],
    ensures
        tokens_v_upto(w, n) == tokens_v_upto(v, n),
    decreases n,
{
    if n > 0 {
        lemma_tokens_v_prefix(v, w, n - 1);
    }
}

/// `!` after whitespace, where it stands, and the position after it.
pub open spec fn opt_lit(b: Seq<u8>, i: int, c: u8) -> (bool, int) {
    match lit(b, i, c) {
        Some(j) => (true, j),
        None => (false, i),
    }
}

/// A function argument: a quoted string.
pub open spec fn fn_arg(b: Seq<u8>, i: int) -> Option<(Seq<char>, int)> {
    sp_quoted(b, i)
}

pub open spec fn fn_args_rest(b: Seq<u8>, i: int) -> (Seq<Seq<char>>, int)
    decreases b.len() - i,
{
    if 0 <= i < b.len() && b[i] == 0x2C {
        match fn_arg(b, i + 1) {
            Some((a, j)) => if i + 1 < j <= b.len() {
                let (r, k) = fn_args_rest(b, j);
                (seq![a] + r, k)
            } else {
                (Seq::empty(), i)
            },
            None => (Seq::empty(), i),
        }
    } else {
        (Seq::empty(), i)
    }
}

/// Function arguments separated by `,`.
pub open spec fn fn_args(b: Seq<u8>, i: int) -> (Seq<Seq<char>>, int) {
    match fn_arg(b, i) {
        Some((a, j)) => if i < j <= b.len() {
            let (r, k) = fn_args_rest(b, j);
            (seq![a] + r, k)
        } else {
            (Seq::empty(), i)
        },
        None => (Seq::empty(), i),
    }
}

/// A token type: a function `name(args)`, a key, or a quoted string, tried
/// in that order.
pub open spec fn token_type(b: Seq<u8>, i: int) -> Option<(TokenTypeV, int)> {
    let func = match sp_ident(b, i) {
        Some((id, j)) => match lit(b, j, 0x28) {
            Some(k) => {
                let (args, m) = fn_args(b, ws_end(b, k));
                match lit(b, m, 0x29) {
                    Some(e) => Some((TokenTypeV::Func(id, args), e)),
                    None => None,
                }
            },
            None => None,
        },
        None => None,
    };
    if func is Some {
        func
    } else {
        match sp_ident(b, i) {
            Some((id, j)) => Some((TokenTypeV::Key(id), j)),
            None => match sp_quoted(b, i) {
                Some((t, j)) => Some((TokenTypeV::Quoted(t), j)),
                None => None,
            },
        }
    }
}

pub proof fn lemma_annots_mono(b: Seq<u8>, i: int)
    requires
        0 <= i <= b.len(),
    ensures
        i <= annots(b, i).1 <= b.len(),
    decreases b.len() - i,
{
    if 0 <= i < b.len() {
        if let Some((a, j)) = annotation(b, i) {
            if i < j <= b.len() {
                lemma_annots_mono(b, j);
            }
        }
    }
}

/// A named token `name: type`, a token `type`, or a group `( tokens )`,
/// tried in that order; each may have annotations before it, `!` before
/// its type or group, and `?` after.
pub open spec fn token(b: Seq<u8>, i: int) -> Option<(TokenV, int)>
    decreases b.len() - i, 0int,
{
    if !(0 <= i <= b.len()) {
        None
    } else {
        let (an, j) = annots(b, ws_end(b, i));
        let named = match sp_ident(b, j) {
            Some((name, k)) => match lit(b, k, 0x3A) {
                Some(m) => {
                    let (nt, m2) = opt_lit(b, m, 0x21);
                    match token_type(b, ws_end(b, m2)) {
                        Some((tt, e)) => {
                            let (op, e2) = opt_lit(b, e, 0x3F);
                            Some((TokenV::Named(an, name, nt, tt, op), e2))
                        },
                        None => None,
                    }
                },
                None => None,
            },
            None => None,
        };
        let (nt, m2) = opt_lit(b, j, 0x21);
        let simple = match token_type(b, ws_end(b, m2)) {
            Some((tt, e)) => {
                let (op, e2) = opt_lit(b, e, 0x3F);
                Some((TokenV::Simple(an, nt, tt, op), e2))
            },
            None => None,
        };
        if named is Some {
            named
        } else if simple is Some {
            simple
        } else {
            match lit(b, m2, 0x28) {
                Some(k) => {
                    proof {
                        lemma_ws_end(b, i);
                        lemma_annots_mono(b, ws_end(b, i));
                        lemma_ws_end(b, j);
                        lemma_ws_end(b, m2);
                        lemma_ws_end(b, k);
                        assert(i < k);
                    }
                    let (tl, k2) = token_list(b, ws_end(b, k));
                    match lit(b, k2, 0x29) {
                        Some(e) => {
                            let (op, e2) = opt_lit(b, e, 0x3F);
                            Some((TokenV::Group(an, nt, tl, op), e2))
                        },
                        None => None,
                    }
                },
                None => None,
            }
        }
    }
}

/// Tokens, as many as follow one another.
pub open spec fn token_list(b: Seq<u8>, i: int) -> (Seq<TokenV>, int)
    decreases b.len() - i, 1int,
{
    if 0 <= i < b.len() {
        match token(b, i) {
            Some((t, j)) => if i < j <= b.len() {
                let (r, k) = token_list(b, j);
                (seq![t] + r, k)
            } else {
                (Seq::empty(), i)
            },
            None => (Seq::empty(), i),
        }
    } else {
        (Seq::empty(), i)
    }
}

fn opt_lit_at(input: &[u8], i: usize, c: u8) -> (r: (bool, usize))
    requires
        i <= input@.len(),
    ensures
        (r.0, r.1 as int) == opt_lit(input@, i as int, c),
        i <= r.1 <= input@.len(),
{
    match lit_at(input, i, c) {
        Some(j) => (true, j),
        None => (false, i),
    }
}

pub fn fn_args_at<'a>(input: &'a [u8], i: usize) -> (r: (Vec<FuncArg<'a>>, usize))
    requires
        i <= input@.len(),
    ensures
        (fn_args_v(r.0@), r.1 as int) == fn_args(input@, i as int),
        i <= r.1 <= input@.len(),
{
    let (a, j) = match sp_quoted_at(input, i) {
        Some(x) => x,
        None => return (Vec::new(), i),
    };
    let mut v: Vec<FuncArg<'a>> = Vec::new();
    v.push(FuncArg::QuotedItem(Quoted { string: a }));
    let mut pos = j;
    proof {
        assert(fn_args_v(v@) =~= seq![a@]);
    }
    loop
        invariant
            i < pos <= input@.len(),
            fn_args(input@, i as int) == (fn_args_v(v@) + fn_args_rest(input@, pos as int).0, fn_args_rest(
                input@,
                pos as int,
            ).1),
        decreases input@.len() - pos,
    {
        if pos < input.len() && input[pos] == 0x2C {
            match sp_quoted_at(input, pos + 1) {
                Some((a2, j2)) => {
                    let ghost old_v = fn_args_v(v@);
                    v.push(FuncArg::QuotedItem(Quoted { string: a2 }));
                    proof {
                        assert(fn_args_v(v@) =~= old_v.push(a2@));
                        let r2 = fn_args_rest(input@, j2 as int);
                        assert(old_v + (seq![a2@] + r2.0) =~= fn_args_v(v@) + r2.0);
                    }
                    pos = j2;
                },
                None => {
                    proof {
                        assert(fn_args_v(v@) + Seq::<Seq<char>>::empty() =~= fn_args_v(v@));
                    }
                    return (v, pos);
                },
            }
        } else {
            proof {
                assert(fn_args_v(v@) + Seq::<Seq<char>>::empty() =~= fn_args_v(v@));
            }
            return (v, pos);
        }
    }
}

pub fn token_type_at<'a>(input: &'a [u8], i: usize) -> (r: Option<(TokenType<'a>, usize)>)
    requires
        i <= input@.len(),
    ensures
        match r {
            Some((v, j)) => token_type(input@, i as int) == Some((token_type_v(v), j as int)) && i < j
                <= input@.len(),
            None => token_type(input@, i as int) is None,
        },
{
    if let Some((id, j)) = sp_ident_at(input, i) {
        if let Some(k) = lit_at(input, j, 0x28) {
            let k2 = sp_at(input, k);
            let (args, m) = fn_args_at(input, k2);
            if let Some(e) = lit_at(input, m, 0x29) {
                return Some((TokenType::FuncTokenItem(FuncToken { fn_args: args, ident: id }), e));
            }
        }
        return Some((TokenType::KeyTokenItem(KeyToken { key: id }), j));
    }
    match sp_quoted_at(input, i) {
        Some((t, j)) => Some((TokenType::QuotedItem(Quoted { string: t }), j)),
        None => None,
    }
}

pub fn token_at<'a>(input: &'a [u8], i: usize) -> (r: Option<(Token<'a>, usize)>)
    requires
        i <= input@.len(),
    ensures
        match r {
            Some((v, j)) => token(input@, i as int) == Some((token_v(v), j as int)) && i < j <= input@.len(),
            None => token(input@, i as int) is None,
        },
    decreases input@.len() - i, 0int,
{
    let i0 = sp_at(input, i);
    let (an, j) = annots_at(input, i0);
    // A named token.
    if let Some((name, k)) = sp_ident_at(input, j) {
        if let Some(m) = lit_at(input, k, 0x3A) {
            let (nt, m2) = opt_lit_at(input, m, 0x21);
            let m3 = sp_at(input, m2);
            if let Some((tt, e)) = token_type_at(input, m3) {
                let (op, e2) = opt_lit_at(input, e, 0x3F);
                return Some((Token::NamedTokenItem(NamedToken { token_type: tt, annots: an, name, not: nt, optional: op }), e2));
            }
        }
    }
    let (nt, m2) = opt_lit_at(input, j, 0x21);
    let m3 = sp_at(input, m2);
    // A token.
    match token_type_at(input, m3) {
        Some((tt, e)) => {
            let (op, e2) = opt_lit_at(input, e, 0x3F);
            return Some((Token::SimpleTokenItem(SimpleToken { token_type: tt, annots: an, not: nt, optional: op }), e2));
        },
        None => {},
    }
    // A group.
    let k = match lit_at(input, m2, 0x28) {
        Some(k) => k,
        None => return None,
    };
    let k1 = sp_at(input, k);
    let (tl, k2) = token_list_at(input, k1);
    let e = match lit_at(input, k2, 0x29) {
        Some(e) => e,
        None => return None,
    };
    let (op, e2) = opt_lit_at(input, e, 0x3F);
    let g = TokenGroup { annots: an, not: nt, optional: op, token_list: tl };
    proof {
        assert(token_v(Token::TokenGroupItem(g)) == token_group_v(g));
    }
    Some((Token::TokenGroupItem(g), e2))
}

pub fn token_list_at<'a>(input: &'a [u8], i: usize) -> (r: (Vec<Token<'a>>, usize))
    requires
        i <= input@.len(),
    ensures
        (tokens_v(r.0@), r.1 as int) == token_list(input@, i as int),
        i <= r.1 <= input@.len(),
    decreases input@.len() - i, 1int,
{
    let mut v: Vec<Token<'a>> = Vec::new();
    let mut pos = i;
    proof {
        assert(tokens_v(v@) =~= Seq::<TokenV>::empty());
        assert(tokens_v(v@) + token_list(input@, i as int).0 =~= token_list(input@, i as int).0);
    }
    loop
        invariant
            i <= pos <= input@.len(),
            token_list(input@, i as int) == (tokens_v(v@) + token_list(input@, pos as int).0, token_list(
                input@,
                pos as int,
            ).1),
        decreases input@.len() - pos,
    {
        if pos >= input.len() {
            proof {
                assert(tokens_v(v@) + Seq::<TokenV>::empty() =~= tokens_v(v@));
            }
            return (v, pos);
        }
        match token_at(input, pos) {
            Some((t, j)) => {
                let ghost old_v = tokens_v(v@);
                let ghost old_s = v@;
                v.push(t);
                proof {
                    lemma_tokens_v_push(old_s, t);
                    let r2 = token_list(input@, j as int);
                    assert(old_v + (seq![token_v(t)] + r2.0) =~= tokens_v(v@) + r2.0);
                }
                pos = j;
            },
            None => {
                proof {
                    assert(tokens_v(v@) + Seq::<TokenV>::empty() =~= tokens_v(v@));
                }
                return (v, pos);
            },
        }
    }
}

// ---- Items, lists and the source ----

pub enum AstItemV {
    Def(Seq<AnnotationV>, Seq<TokenV>, Option<Seq<char>>),
    Ref(Seq<char>),
}

pub struct ListItemV {
    pub item: AstItemV,
    pub sep: Option<Seq<char>>,
}

pub enum SourceItemV {
    Single(Seq<AnnotationV>, Seq<char>, Seq<TokenV>),
    Many(Seq<AnnotationV>, Seq<char>, Seq<AstItemV>),
    ListSingle(Seq<AnnotationV>, Seq<char>, Seq<char>, Seq<char>),
    ListMany(Seq<AnnotationV>, Seq<char>, Seq<char>, Option<Seq<char>>, Seq<ListItemV>),
    Comment(Seq<char>),
}

pub open spec fn opt_str_v(o: Option<&str>) -> Option<Seq<char>> {
    match o {
        Some(s) => Some(s@),
        None => None,
    }
}

pub open spec fn ast_item_v(a: AstItem) -> AstItemV {
    match a {
        AstItem::AstDefItem(d) => AstItemV::Def(annots_v(d.annots@), tokens_v(d.tokens@), opt_str_v(d.ident)),
        AstItem::AstRefItem(r) => AstItemV::Ref(r.ident@),
    }
}

pub open spec fn ast_items_v(v: Seq<AstItem>) -> Seq<AstItemV> {
    v.map_values(|a: AstItem| ast_item_v(a))
}

pub open spec fn list_item_v(l: ListItem) -> ListItemV {
    ListItemV { item: ast_item_v(l.ast_item), sep: opt_str_v(l.sep) }
}

pub open spec fn list_items_v(v: Seq<ListItem>) -> Seq<ListItemV> {
    v.map_values(|l: ListItem| list_item_v(l))
}

pub open spec fn source_item_v(s: SourceItem) -> SourceItemV {
    match s {
        SourceItem::AstSingleItem(n) => SourceItemV::Single(annots_v(n.annots@), n.ident@, tokens_v(n.tokens@)),
        SourceItem::AstManyItem(n) => SourceItemV::Many(annots_v(n.annots@), n.ident@, ast_items_v(n.items@)),
        SourceItem::ListItem(List::ListSingleItem(n)) => SourceItemV::ListSingle(
            annots_v(n.annots@),
            n.ident@,
            n.sep@,
            n.reference@,
        ),
        SourceItem::ListItem(List::ListManyItem(n)) => SourceItemV::ListMany(
            annots_v(n.annots@),
            n.ident@,
            n.ast_type@,
            opt_str_v(n.sep),
            list_items_v(n.items@),
        ),
        SourceItem::CommentItem(c) => SourceItemV::Comment(c.comment@),
    }
}

pub open spec fn source_items_v(v: Seq<SourceItem>) -> Seq<SourceItemV> {
    v.map_values(|s: SourceItem| source_item_v(s))
}

/// An identifier after whitespace, where one stands.
pub open spec fn opt_ident(b: Seq<u8>, i: int) -> (Option<Seq<char>>, int) {
    match sp_ident(b, i) {
        Some((id, j)) => (Some(id), j),
        None => (None, i),
    }
}

/// An item of an AST entry with alternatives: a definition `tokens =>
/// name`, `( tokens ) => name` or `name ( tokens )` (the name may be left
/// out, each may have annotations before it), or a reference to an entry,
/// tried in that order.
pub open spec fn ast_item(b: Seq<u8>, i: int) -> Option<(AstItemV, int)> {
    let (an, j) = annots(b, ws_end(b, i));
    let (tl1, k1) = token_list(b, ws_end(b, j));
    let alt1 = match lit2(b, k1, 0x3D, 0x3E) {
        Some(m) => {
            let (id, e) = opt_ident(b, m);
            Some((AstItemV::Def(an, tl1, id), e))
        },
        None => None,
    };
    let alt2 = match lit(b, j, 0x28) {
        Some(k) => {
            let (tl, k2) = token_list(b, ws_end(b, k));
            match lit(b, k2, 0x29) {
                Some(m) => match lit2(b, m, 0x3D, 0x3E) {
                    Some(m2) => {
                        let (id, e) = opt_ident(b, m2);
                        Some((AstItemV::Def(an, tl, id), e))
                    },
                    None => None,
                },
                None => None,
            }
        },
        None => None,
    };
    let (id3, k3) = opt_ident(b, j);
    let alt3 = match lit(b, k3, 0x28) {
        Some(m) => {
            let (tl, m2) = token_list(b, ws_end(b, m));
            match lit(b, m2, 0x29) {
                Some(e) => Some((AstItemV::Def(an, tl, id3), e)),
                None => None,
            }
        },
        None => None,
    };
    if alt1 is Some {
        alt1
    } else if alt2 is Some {
        alt2
    } else if alt3 is Some {
        alt3
    } else {
        match sp_ident(b, i) {
            Some((id, e)) => Some((AstItemV::Ref(id), e)),
            None => None,
        }
    }
}

pub open spec fn ast_items_rest(b: Seq<u8>, i: int) -> (Seq<AstItemV>, int)
    decreases b.len() - i,
{
    if 0 <= i < b.len() && b[i] == 0x2C {
        match ast_item(b, i + 1) {
            Some((a, j)) => if i + 1 < j <= b.len() {
                let (r, k) = ast_items_rest(b, j);
                (seq![a] + r, k)
            } else {
                (Seq::empty(), i)
            },
            None => (Seq::empty(), i),
        }
    } else {
        (Seq::empty(), i)
    }
}

/// Items separated by `,`.
pub open spec fn ast_items(b: Seq<u8>, i: int) -> (Seq<AstItemV>, int) {
    match ast_item(b, i) {
        Some((a, j)) => if i < j <= b.len() {
            let (r, k) = ast_items_rest(b, j);
            (seq![a] + r, k)
        } else {
            (Seq::empty(), i)
        },
        None => (Seq::empty(), i),
    }
}

/// An AST entry with alternatives: `name { items }`.
pub open spec fn ast_many(b: Seq<u8>, i: int) -> Option<(SourceItemV, int)> {
    let (an, j) = annots(b, ws_end(b, i));
    match sp_ident(b, j) {
        Some((id, k)) => match lit(b, k, 0x7B) {
            Some(m) => {
                let (items, m2) = ast_items(b, ws_end(b, m));
                match lit(b, m2, 0x7D) {
                    Some(e) => Some((SourceItemV::Many(an, id, items), e)),
                    None => None,
                }
            },
            None => None,
        },
        None => None,
    }
}

/// An AST entry: `name ( tokens )`.
pub open spec fn ast_single(b: Seq<u8>, i: int) -> Option<(SourceItemV, int)> {
    let (an, j) = annots(b, ws_end(b, i));
    match sp_ident(b, j) {
        Some((id, k)) => match lit(b, k, 0x28) {
            Some(m) => {
                let (tl, m2) = token_list(b, ws_end(b, m));
                match lit(b, m2, 0x29) {
                    Some(e) => Some((SourceItemV::Single(an, id, tl), e)),
                    None => None,
                }
            },
            None => None,
        },
        None => None,
    }
}

/// The position of the first `*)` at or after `k`.
pub open spec fn find_close(b: Seq<u8>, k: int) -> Option<int>
    decreases b.len() - k,
{
    if 0 <= k && k + 1 < b.len() {
        if b[k] == 0x2A && b[k + 1] == 0x29 {
            Some(k)
        } else {
            find_close(b, k + 1)
        }
    } else {
        None
    }
}

/// A comment: `(*`, its text up to the first `*)`, and `*)`. A text that is
/// not UTF-8 is no comment.
pub open spec fn comment(b: Seq<u8>, i: int) -> Option<(SourceItemV, int)> {
    match lit2(b, i, 0x28, 0x2A) {
        Some(j) => match find_close(b, j) {
            Some(k) => match utf8_text(b.subrange(j, k)) {
                Some(t) => Some((SourceItemV::Comment(t), k + 2)),
                None => None,
            },
            None => None,
        },
        None => None,
    }
}

/// An item of a list entry: an AST item and an optional separator.
pub open spec fn list_item(b: Seq<u8>, i: int) -> Option<(ListItemV, int)> {
    match ast_item(b, ws_end(b, i)) {
        Some((it, j)) => {
            let (sep, k) = opt_ident(b, j);
            Some((ListItemV { item: it, sep }, k))
        },
        None => None,
    }
}

pub open spec fn list_items_rest(b: Seq<u8>, i: int) -> (Seq<ListItemV>, int)
    decreases b.len() - i,
{
    if 0 <= i < b.len() && b[i] == 0x2C {
        match list_item(b, i + 1) {
            Some((a, j)) => if i + 1 < j <= b.len() {
                let (r, k) = list_items_rest(b, j);
                (seq![a] + r, k)
            } else {
                (Seq::empty(), i)
            },
            None => (Seq::empty(), i),
        }
    } else {
        (Seq::empty(), i)
    }
}

pub open spec fn list_items(b: Seq<u8>, i: int) -> (Seq<ListItemV>, int) {
    match list_item(b, i) {
        Some((a, j)) => if i < j <= b.len() {
            let (r, k) = list_items_rest(b, j);
            (seq![a] + r, k)
        } else {
            (Seq::empty(), i)
        },
        None => (Seq::empty(), i),
    }
}

/// A list entry: `name [] sep reference`, or `name: type [] sep { items }`
/// with an optional separator, tried in that order.
pub open spec fn list(b: Seq<u8>, i: int) -> Option<(SourceItemV, int)> {
    let (an, j) = annots(b, ws_end(b, i));
    let single = match sp_ident(b, j) {
        Some((id, k)) => match lit(b, k, 0x5B) {
            Some(m) => match lit(b, m, 0x5D) {
                Some(m2) => match sp_ident(b, m2) {
                    Some((sep, e1)) => match sp_ident(b, e1) {
                        Some((rf, e2)) => Some((SourceItemV::ListSingle(an, id, sep, rf), e2)),
                        None => None,
                    },
                    None => None,
                },
                None => None,
            },
            None => None,
        },
        None => None,
    };
    if single is Some {
        single
    } else {
        match sp_ident(b, j) {
            Some((id, k)) => match lit(b, k, 0x3A) {
                Some(m) => match sp_ident(b, m) {
                    Some((at, m2)) => match lit(b, m2, 0x5B) {
                        Some(m3) => match lit(b, m3, 0x5D) {
                            Some(m4) => {
                                let (sep, m5) = opt_ident(b, m4);
                                match lit(b, m5, 0x7B) {
                                    Some(m6) => {
                                        let (items, m7) = list_items(b, ws_end(b, m6));
                                        match lit(b, m7, 0x7D) {
                                            Some(e) => Some((SourceItemV::ListMany(an, id, at, sep, items), e)),
                                            None => None,
                                        }
                                    },
                                    None => None,
                                }
                            },
                            None => None,
                        },
                        None => None,
                    },
                    None => None,
                },
                None => None,
            },
            None => None,
        }
    }
}

/// An item of a description: an AST entry, an AST entry with
/// alternatives, a list entry or a comment, tried in that order.
pub open spec fn source_item(b: Seq<u8>, i: int) -> Option<(SourceItemV, int)> {
    if ast_single(b, i) is Some {
        ast_single(b, i)
    } else if ast_many(b, i) is Some {
        ast_many(b, i)
    } else if list(b, i) is Some {
        list(b, i)
    } else {
        comment(b, i)
    }
}

/// Items of a description, as many as follow one another.
pub open spec fn source_items(b: Seq<u8>, i: int) -> (Seq<SourceItemV>, int)
    decreases b.len() - i,
{
    if 0 <= i < b.len() {
        match source_item(b, i) {
            Some((a, j)) => if i < j <= b.len() {
                let (r, k) = source_items(b, j);
                (seq![a] + r, k)
            } else {
                (Seq::empty(), i)
            },
            None => (Seq::empty(), i),
        }
    } else {
        (Seq::empty(), i)
    }
}

/// A description: its items after leading whitespace, and the position
/// where they end.
pub open spec fn source_spec(b: Seq<u8>) -> (Seq<SourceItemV>, int) {
    source_items(b, ws_end(b, 0))
}

fn opt_ident_at<'a>(input: &'a [u8], i: usize) -> (r: (Option<&'a str>, usize))
    requires
        i <= input@.len(),
    ensures
        (opt_str_v(r.0), r.1 as int) == opt_ident(input@, i as int),
        i <= r.1 <= input@.len(),
{
    match sp_ident_at(input, i) {
        Some((id, j)) => (Some(id), j),
        None => (None, i),
    }
}

#[verifier::rlimit(40)]
pub fn ast_item_at<'a>(input: &'a [u8], i: usize) -> (r: Option<(AstItem<'a>, usize)>)
    requires
        i <= input@.len(),
    ensures
        match r {
            Some((v, j)) => ast_item(input@, i as int) == Some((ast_item_v(v), j as int)) && i < j <= input@.len(),
            None => ast_item(input@, i as int) is None,
        },
{
    let i0 = sp_at(input, i);
    let (an, j) = annots_at(input, i0);
    let j0 = sp_at(input, j);
    let (tl1, k1) = token_list_at(input, j0);
    if let Some(m) = lit2_at(input, k1, 0x3D, 0x3E) {
        let (id, e) = opt_ident_at(input, m);
        return Some((AstItem::AstDefItem(AstDef { annots: an, ident: id, tokens: tl1 }), e));
    }
    if let Some(k) = lit_at(input, j, 0x28) {
        let k0 = sp_at(input, k);
        let (tl, k2) = token_list_at(input, k0);
        if let Some(m) = lit_at(input, k2, 0x29) {
            if let Some(m2) = lit2_at(input, m, 0x3D, 0x3E) {
                let (id, e) = opt_ident_at(input, m2);
                return Some((AstItem::AstDefItem(AstDef { annots: an, ident: id, tokens: tl }), e));
            }
        }
    }
    let (id3, k3) = opt_ident_at(input, j);
    if let Some(m) = lit_at(input, k3, 0x28) {
        let m0 = sp_at(input, m);
        let (tl, m2) = token_list_at(input, m0);
        if let Some(e) = lit_at(input, m2, 0x29) {
            return Some((AstItem::AstDefItem(AstDef { annots: an, ident: id3, tokens: tl }), e));
        }
    }
    match sp_ident_at(input, i) {
        Some((id, e)) => Some((AstItem::AstRefItem(AstRef { ident: id }), e)),
        None => None,
    }
}

pub fn ast_items_at<'a>(input: &'a [u8], i: usize) -> (r: (Vec<AstItem<'a>>, usize))
    requires
        i <= input@.len(),
    ensures
        (ast_items_v(r.0@), r.1 as int) == ast_items(input@, i as int),
        i <= r.1 <= input@.len(),
{
    let (a, j) = match ast_item_at(input, i) {
        Some(x) => x,
        None => return (Vec::new(), i),
    };
    let mut v: Vec<AstItem<'a>> = Vec::new();
    v.push(a);
    let mut pos = j;
    proof {
        assert(ast_items_v(v@) =~= seq![ast_item_v(a)]);
    }
    loop
        invariant
            i < pos <= input@.len(),
            ast_items(input@, i as int) == (ast_items_v(v@) + ast_items_rest(input@, pos as int).0, ast_items_rest(
                input@,
                pos as int,
            ).1),
        decreases input@.len() - pos,
    {
        if pos < input.len() && input[pos] == 0x2C {
            match ast_item_at(input, pos + 1) {
                Some((a2, j2)) => {
                    let ghost old_v = ast_items_v(v@);
                    v.push(a2);
                    proof {
                        assert(ast_items_v(v@) =~= old_v.push(ast_item_v(a2)));
                        let r2 = ast_items_rest(input@, j2 as int);
                        assert(old_v + (seq![ast_item_v(a2)] + r2.0) =~= ast_items_v(v@) + r2.0);
                    }
                    pos = j2;
                },
                None => {
                    proof {
                        assert(ast_items_v(v@) + Seq::<AstItemV>::empty() =~= ast_items_v(v@));
                    }
                    return (v, pos);
                },
            }
        } else {
            proof {
                assert(ast_items_v(v@) + Seq::<AstItemV>::empty() =~= ast_items_v(v@));
            }
            return (v, pos);
        }
    }
}

pub fn ast_many_at<'a>(input: &'a [u8], i: usize) -> (r: Option<(AstMany<'a>, usize)>)
    requires
        i <= input@.len(),
    ensures
        match r {
            Some((v, j)) => ast_many(input@, i as int) == Some((source_item_v(SourceItem::AstManyItem(v)), j as int))
                && i < j <= input@.len(),
            None => ast_many(input@, i as int) is None,
        },
{
    let i0 = sp_at(input, i);
    let (an, j) = annots_at(input, i0);
    let (id, k) = match sp_ident_at(input, j) {
        Some(x) => x,
        None => return None,
    };
    let m = match lit_at(input, k, 0x7B) {
        Some(m) => m,
        None => return None,
    };
    let m0 = sp_at(input, m);
    let (items, m2) = ast_items_at(input, m0);
    match lit_at(input, m2, 0x7D) {
        Some(e) => Some((AstMany { annots: an, ident: id, items }, e)),
        None => None,
    }
}

pub fn ast_single_at<'a>(input: &'a [u8], i: usize) -> (r: Option<(AstSingle<'a>, usize)>)
    requires
        i <= input@.len(),
    ensures
        match r {
            Some((v, j)) => ast_single(input@, i as int) == Some((source_item_v(SourceItem::AstSingleItem(v)), j as int))
                && i < j <= input@.len(),
            None => ast_single(input@, i as int) is None,
        },
{
    let i0 = sp_at(input, i);
    let (an, j) = annots_at(input, i0);
    let (id, k) = match sp_ident_at(input, j) {
        Some(x) => x,
        None => return None,
    };
    let m = match lit_at(input, k, 0x28) {
        Some(m) => m,
        None => return None,
    };
    let m0 = sp_at(input, m);
    let (tl, m2) = token_list_at(input, m0);
    match lit_at(input, m2, 0x29) {
        Some(e) => Some((AstSingle { annots: an, ident: id, tokens: tl }, e)),
        None => None,
    }
}

pub fn comment_at<'a>(input: &'a [u8], i: usize) -> (r: Option<(Comment<'a>, usize)>)
    requires
        i <= input@.len(),
    ensures
        match r {
            Some((v, j)) => comment(input@, i as int) == Some((source_item_v(SourceItem::CommentItem(v)), j as int))
                && i < j <= input@.len(),
            None => comment(input@, i as int) is None,
        },
{
    let j = match lit2_at(input, i, 0x28, 0x2A) {
        Some(j) => j,
        None => return None,
    };
    let mut k = j;
    while k < input.len() && k + 1 < input.len() && !(input[k] == 0x2A && input[k + 1] == 0x29)
        invariant
            j <= k <= input@.len(),
            find_close(input@, j as int) == find_close(input@, k as int),
        decreases input@.len() - k,
    {
        k += 1;
    }
    if k >= input.len() || k + 1 >= input.len() {
        return None;
    }
    let text = vstd::slice::slice_subrange(input, j, k);
    match utf8_str(text) {
        Some(t) => Some((Comment { comment: t }, k + 2)),
        None => None,
    }
}

pub fn list_item_at<'a>(input: &'a [u8], i: usize) -> (r: Option<(ListItem<'a>, usize)>)
    requires
        i <= input@.len(),
    ensures
        match r {
            Some((v, j)) => list_item(input@, i as int) == Some((list_item_v(v), j as int)) && i < j <= input@.len(),
            None => list_item(input@, i as int) is None,
        },
{
    let i0 = sp_at(input, i);
    match ast_item_at(input, i0) {
        Some((it, j)) => {
            let (sep, k) = opt_ident_at(input, j);
            Some((ListItem { ast_item: it, sep }, k))
        },
        None => None,
    }
}

pub fn list_items_at<'a>(input: &'a [u8], i: usize) -> (r: (Vec<ListItem<'a>>, usize))
    requires
        i <= input@.len(),
    ensures
        (list_items_v(r.0@), r.1 as int) == list_items(input@, i as int),
        i <= r.1 <= input@.len(),
{
    let (a, j) = match list_item_at(input, i) {
        Some(x) => x,
        None => return (Vec::new(), i),
    };
    let mut v: Vec<ListItem<'a>> = Vec::new();
    v.push(a);
    let mut pos = j;
    proof {
        assert(list_items_v(v@) =~= seq![list_item_v(a)]);
    }
    loop
        invariant
            i < pos <= input@.len(),
            list_items(input@, i as int) == (list_items_v(v@) + list_items_rest(input@, pos as int).0, list_items_rest(
                input@,
                pos as int,
            ).1),
        decreases input@.len() - pos,
    {
        if pos < input.len() && input[pos] == 0x2C {
            match list_item_at(input, pos + 1) {
                Some((a2, j2)) => {
                    let ghost old_v = list_items_v(v@);
                    v.push(a2);
                    proof {
                        assert(list_items_v(v@) =~= old_v.push(list_item_v(a2)));
                        let r2 = list_items_rest(input@, j2 as int);
                        assert(old_v + (seq![list_item_v(a2)] + r2.0) =~= list_items_v(v@) + r2.0);
                    }
                    pos = j2;
                },
                None => {
                    proof {
                        assert(list_items_v(v@) + Seq::<ListItemV>::empty() =~= list_items_v(v@));
                    }
                    return (v, pos);
                },
            }
        } else {
            proof {
                assert(list_items_v(v@) + Seq::<ListItemV>::empty() =~= list_items_v(v@));
            }
            return (v, pos);
        }
    }
}

#[verifier::rlimit(40)]
pub fn list_at<'a>(input: &'a [u8], i: usize) -> (r: Option<(List<'a>, usize)>)
    requires
        i <= input@.len(),
    ensures
        match r {
            Some((v, j)) => list(input@, i as int) == Some((source_item_v(SourceItem::ListItem(v)), j as int)) && i < j
                <= input@.len(),
            None => list(input@, i as int) is None,
        },
{
    let i0 = sp_at(input, i);
    let (an, j) = annots_at(input, i0);
    let (id, k) = match sp_ident_at(input, j) {
        Some(x) => x,
        None => return None,
    };
    if let Some(m) = lit_at(input, k, 0x5B) {
        if let Some(m2) = lit_at(input, m, 0x5D) {
            if let Some((sep, e1)) = sp_ident_at(input, m2) {
                if let Some((rf, e2)) = sp_ident_at(input, e1) {
                    return Some((List::ListSingleItem(ListSingle { annots: an, ident: id, reference: rf, sep }), e2));
                }
            }
        }
    }
    let m = match lit_at(input, k, 0x3A) {
        Some(m) => m,
        None => return None,
    };
    let (at, m2) = match sp_ident_at(input, m) {
        Some(x) => x,
        None => return None,
    };
    let m3 = match lit_at(input, m2, 0x5B) {
        Some(x) => x,
        None => return None,
    };
    let m4 = match lit_at(input, m3, 0x5D) {
        Some(x) => x,
        None => return None,
    };
    let (sep, m5) = opt_ident_at(input, m4);
    let m6 = match lit_at(input, m5, 0x7B) {
        Some(x) => x,
        None => return None,
    };
    let m60 = sp_at(input, m6);
    let (items, m7) = list_items_at(input, m60);
    match lit_at(input, m7, 0x7D) {
        Some(e) => Some((List::ListManyItem(ListMany { annots: an, ast_type: at, ident: id, items, sep }), e)),
        None => None,
    }
}

pub fn source_item_at<'a>(input: &'a [u8], i: usize) -> (r: Option<(SourceItem<'a>, usize)>)
    requires
        i <= input@.len(),
    ensures
        match r {
            Some((v, j)) => source_item(input@, i as int) == Some((source_item_v(v), j as int)) && i < j
                <= input@.len(),
            None => source_item(input@, i as int) is None,
        },
{
    if let Some((n, j)) = ast_single_at(input, i) {
        return Some((SourceItem::AstSingleItem(n), j));
    }
    if let Some((n, j)) = ast_many_at(input, i) {
        return Some((SourceItem::AstManyItem(n), j));
    }
    if let Some((n, j)) = list_at(input, i) {
        return Some((SourceItem::ListItem(n), j));
    }
    match comment_at(input, i) {
        Some((n, j)) => Some((SourceItem::CommentItem(n), j)),
        None => None,
    }
}

pub fn source_items_at<'a>(input: &'a [u8], i: usize) -> (r: (Vec<SourceItem<'a>>, usize))
    requires
        i <= input@.len(),
    ensures
        (source_items_v(r.0@), r.1 as int) == source_items(input@, i as int),
        i <= r.1 <= input@.len(),
{
    let mut v: Vec<SourceItem<'a>> = Vec::new();
    let mut pos = i;
    proof {
        assert(source_items_v(v@) + source_items(input@, i as int).0 =~= source_items(input@, i as int).0);
    }
    loop
        invariant
            i <= pos <= input@.len(),
            source_items(input@, i as int) == (source_items_v(v@) + source_items(input@, pos as int).0, source_items(
                input@,
                pos as int,
            ).1),
        decreases input@.len() - pos,
    {
        if pos >= input.len() {
            proof {
                assert(source_items_v(v@) + Seq::<SourceItemV>::empty() =~= source_items_v(v@));
            }
            return (v, pos);
        }
        match source_item_at(input, pos) {
            Some((a, j)) => {
                let ghost old_v = source_items_v(v@);
                v.push(a);
                proof {
                    assert(source_items_v(v@) =~= old_v.push(source_item_v(a)));
                    let r2 = source_items(input@, j as int);
                    assert(old_v + (seq![source_item_v(a)] + r2.0) =~= source_items_v(v@) + r2.0);
                }
                pos = j;
            },
            None => {
                proof {
                    assert(source_items_v(v@) + Seq::<SourceItemV>::empty() =~= source_items_v(v@));
                }
                return (v, pos);
            },
        }
    }
}

/// Parses a description: its items, and the bytes after the last one. A
/// description may hold no items, so this always gives a source.
pub fn source<'a>(input: &'a [u8]) -> (r: Option<(Source<'a>, &'a [u8])>)
    ensures
        match r {
            Some((s, rest)) => {
                let (items, end) = source_spec(input@);
                &&& source_items_v(s.items@) == items
                &&& rest@ == input@.skip(end)
            },
            None => false,
        },
{
    let i0 = sp_at(input, 0);
    let (items, end) = source_items_at(input, i0);
    let rest = vstd::slice::slice_subrange(input, end, input.len());
    proof {
        assert(rest@ =~= input@.skip(end as int));
    }
    Some((Source { items }, rest))
}

// ---- Progress ----

proof fn lemma_piece_progress(b: Seq<u8>, i: int, c: u8)
    requires
        0 <= i <= b.len(),
    ensures
        lit(b, i, c) matches Some(j) ==> i < j <= b.len(),
        sp_ident(b, i) matches Some((_, j)) ==> i < j <= b.len(),
        sp_quoted(b, i) matches Some((_, j)) ==> i < j <= b.len(),
{
    lemma_ws_end(b, i);
    let w = ws_end(b, i);
    if w < b.len() {
        crate::common::parsers::lemma_ident_len(b.skip(w + 1));
    }
    if let Some(n) = crate::common::parsers::quoted_match(b.skip(w)) {
        crate::common::parsers::lemma_quoted_match_bound(b.skip(w));
    }
}

proof fn lemma_token_type_progress(b: Seq<u8>, i: int)
    requires
        0 <= i <= b.len(),
    ensures
        token_type(b, i) matches Some((_, j)) ==> i < j <= b.len(),
{
    lemma_piece_progress(b, i, 0x28);
    if let Some((id, j)) = sp_ident(b, i) {
        lemma_piece_progress(b, j, 0x28);
        if let Some(k) = lit(b, j, 0x28) {
            lemma_ws_end(b, k);
            lemma_fn_args_mono(b, ws_end(b, k));
            let m = fn_args(b, ws_end(b, k)).1;
            lemma_piece_progress(b, m, 0x29);
        }
    }
}

proof fn lemma_fn_args_rest_mono(b: Seq<u8>, i: int)
    requires
        0 <= i <= b.len(),
    ensures
        i <= fn_args_rest(b, i).1 <= b.len(),
    decreases b.len() - i,
{
    if 0 <= i < b.len() && b[i] == 0x2C {
        if let Some((a, j)) = fn_arg(b, i + 1) {
            if i + 1 < j <= b.len() {
                lemma_fn_args_rest_mono(b, j);
            }
        }
    }
}

proof fn lemma_fn_args_mono(b: Seq<u8>, i: int)
    requires
        0 <= i <= b.len(),
    ensures
        i <= fn_args(b, i).1 <= b.len(),
{
    if let Some((a, j)) = fn_arg(b, i) {
        if i < j <= b.len() {
            lemma_fn_args_rest_mono(b, j);
        }
    }
}

proof fn lemma_opt_lit(b: Seq<u8>, i: int, c: u8)
    requires
        0 <= i <= b.len(),
    ensures
        i <= opt_lit(b, i, c).1 <= b.len(),
{
    lemma_piece_progress(b, i, c);
}

/// A token that is read takes at least one byte of the input.
pub proof fn law_token_progress(b: Seq<u8>, i: int)
    requires
        0 <= i <= b.len(),
    ensures
        token(b, i) matches Some((_, j)) ==> i < j <= b.len(),
{
    lemma_ws_end(b, i);
    let w = ws_end(b, i);
    lemma_annots_mono(b, w);
    let j = annots(b, w).1;
    lemma_piece_progress(b, j, 0x3A);
    if let Some((name, k)) = sp_ident(b, j) {
        lemma_piece_progress(b, k, 0x3A);
        if let Some(m) = lit(b, k, 0x3A) {
            lemma_opt_lit(b, m, 0x21);
            let m2 = opt_lit(b, m, 0x21).1;
            lemma_ws_end(b, m2);
            lemma_token_type_progress(b, ws_end(b, m2));
            if let Some((tt, e)) = token_type(b, ws_end(b, m2)) {
                lemma_opt_lit(b, e, 0x3F);
            }
        }
    }
    lemma_opt_lit(b, j, 0x21);
    let m2 = opt_lit(b, j, 0x21).1;
    lemma_ws_end(b, m2);
    lemma_token_type_progress(b, ws_end(b, m2));
    if let Some((tt, e)) = token_type(b, ws_end(b, m2)) {
        lemma_opt_lit(b, e, 0x3F);
    }
    lemma_piece_progress(b, m2, 0x28);
    if let Some(k) = lit(b, m2, 0x28) {
        lemma_ws_end(b, k);
        lemma_token_list_mono(b, ws_end(b, k));
        let k2 = token_list(b, ws_end(b, k)).1;
        lemma_piece_progress(b, k2, 0x29);
        if let Some(e) = lit(b, k2, 0x29) {
            lemma_opt_lit(b, e, 0x3F);
        }
    }
}

pub proof fn lemma_token_list_mono(b: Seq<u8>, i: int)
    requires
        0 <= i <= b.len(),
    ensures
        i <= token_list(b, i).1 <= b.len(),
    decreases b.len() - i,
{
    if 0 <= i < b.len() {
        if let Some((t, j)) = token(b, i) {
            if i < j <= b.len() {
                lemma_token_list_mono(b, j);
            }
        }
    }
}

proof fn lemma_ast_items_mono(b: Seq<u8>, i: int)
    requires
        0 <= i <= b.len(),
    ensures
        i <= ast_items(b, i).1 <= b.len(),
{
    if let Some((a, j)) = ast_item(b, i) {
        if i < j <= b.len() {
            lemma_ast_items_rest_mono(b, j);
        }
    }
}

proof fn lemma_ast_items_rest_mono(b: Seq<u8>, i: int)
    requires
        0 <= i <= b.len(),
    ensures
        i <= ast_items_rest(b, i).1 <= b.len(),
    decreases b.len() - i,
{
    if 0 <= i < b.len() && b[i] == 0x2C {
        if let Some((a, j)) = ast_item(b, i + 1) {
            if i + 1 < j <= b.len() {
                lemma_ast_items_rest_mono(b, j);
            }
        }
    }
}

proof fn lemma_list_items_mono(b: Seq<u8>, i: int)
    requires
        0 <= i <= b.len(),
    ensures
        i <= list_items(b, i).1 <= b.len(),
{
    if let Some((a, j)) = list_item(b, i) {
        if i < j <= b.len() {
            lemma_list_items_rest_mono(b, j);
        }
    }
}

proof fn lemma_list_items_rest_mono(b: Seq<u8>, i: int)
    requires
        0 <= i <= b.len(),
    ensures
        i <= list_items_rest(b, i).1 <= b.len(),
    decreases b.len() - i,
{
    if 0 <= i < b.len() && b[i] == 0x2C {
        if let Some((a, j)) = list_item(b, i + 1) {
            if i + 1 < j <= b.len() {
                lemma_list_items_rest_mono(b, j);
            }
        }
    }
}

proof fn lemma_find_close(b: Seq<u8>, k: int)
    requires
        0 <= k,
    ensures
        find_close(b, k) matches Some(m) ==> k <= m && m + 2 <= b.len(),
    decreases b.len() - k,
{
    if k + 1 < b.len() && !(b[k] == 0x2A && b[k + 1] == 0x29) {
        lemma_find_close(b, k + 1);
    }
}

/// An item of a description that is read takes at least one byte of the
/// input, so reading items one after another always moves on.
pub proof fn law_source_item_progress(b: Seq<u8>, i: int)
    requires
        0 <= i <= b.len(),
    ensures
        source_item(b, i) matches Some((_, j)) ==> i < j <= b.len(),
{
    lemma_ws_end(b, i);
    let w = ws_end(b, i);
    lemma_annots_mono(b, w);
    let j = annots(b, w).1;
    lemma_piece_progress(b, j, 0x28);
    if let Some((id, k)) = sp_ident(b, j) {
        lemma_piece_progress(b, k, 0x28);
        lemma_piece_progress(b, k, 0x7B);
        lemma_piece_progress(b, k, 0x5B);
        lemma_piece_progress(b, k, 0x3A);
        if let Some(m) = lit(b, k, 0x28) {
            lemma_ws_end(b, m);
            lemma_token_list_mono(b, ws_end(b, m));
            lemma_piece_progress(b, token_list(b, ws_end(b, m)).1, 0x29);
        }
        if let Some(m) = lit(b, k, 0x7B) {
            lemma_ws_end(b, m);
            lemma_ast_items_mono(b, ws_end(b, m));
            lemma_piece_progress(b, ast_items(b, ws_end(b, m)).1, 0x7D);
        }
        if let Some(m) = lit(b, k, 0x5B) {
            lemma_piece_progress(b, m, 0x5D);
            if let Some(m2) = lit(b, m, 0x5D) {
                lemma_piece_progress(b, m2, 0x5D);
                if let Some((sep, e1)) = sp_ident(b, m2) {
                    lemma_piece_progress(b, e1, 0x5D);
                }
            }
        }
        if let Some(m) = lit(b, k, 0x3A) {
            lemma_piece_progress(b, m, 0x5B);
            if let Some((at, m2)) = sp_ident(b, m) {
                lemma_piece_progress(b, m2, 0x5B);
                if let Some(m3) = lit(b, m2, 0x5B) {
                    lemma_piece_progress(b, m3, 0x5D);
                    if let Some(m4) = lit(b, m3, 0x5D) {
                        lemma_piece_progress(b, m4, 0x7B);
                        let m5 = opt_ident(b, m4).1;
                        lemma_piece_progress(b, m5, 0x7B);
                        if let Some(m6) = lit(b, m5, 0x7B) {
                            lemma_ws_end(b, m6);
                            lemma_list_items_mono(b, ws_end(b, m6));
                            lemma_piece_progress(b, list_items(b, ws_end(b, m6)).1, 0x7D);
                        }
                    }
                }
            }
        }
    }
    if let Some(j2) = lit2(b, i, 0x28, 0x2A) {
        lemma_find_close(b, j2);
    }
}

} // verus!
