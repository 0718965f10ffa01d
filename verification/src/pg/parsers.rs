//! The parser of the playground language.
//!
//! As in the description language, each parser reads from a position and
//! gives the node and the position after it. The grammar is stated over the
//! bytes by spec functions that give views of the nodes. An optional `!` or
//! `?` that would have to be read at the very end of the input makes its
//! alternative fail, and an entry cut off by the end of the input makes the
//! whole source fail, as with nom, which asks for more input there.
use vstd::prelude::*;
use crate::common::parsers::{lemma_ws_end, sp_at, ws_end};
use crate::descr_lang::parsers::{lit, lit_at, sp_ident, sp_ident_at, sp_quoted, sp_quoted_at};
use super::ast::{AstSingle, KeyToken, NamedToken, Quoted, SimpleToken, Source, SourceItem, Token, TokenGroup, TokenType};

verus! {

pub enum PgTokenTypeV {
    Key(Seq<char>),
    Quoted(Seq<char>),
}

pub enum PgTokenV {
    Named(Seq<char>, bool, PgTokenTypeV, bool),
    Simple(bool, PgTokenTypeV, bool),
    Group(bool, Seq<PgTokenV>, bool),
}

/// An entry of a playground source: its name and tokens.
pub struct PgEntryV {
    pub ident: Seq<char>,
    pub tokens: Seq<PgTokenV>,
}

pub open spec fn pg_token_type_v(t: TokenType) -> PgTokenTypeV {
    match t {
        TokenType::KeyTokenItem(k) => PgTokenTypeV::Key(k.key@),
        TokenType::QuotedItem(q) => PgTokenTypeV::Quoted(q.string@),
    }
}

pub open spec fn pg_token_v(t: Token) -> PgTokenV
    decreases t, 0int,
{
    match t {
        Token::NamedTokenItem(n) => PgTokenV::Named(n.name@, n.not, pg_token_type_v(n.token_type), n.optional),
        Token::SimpleTokenItem(st) => PgTokenV::Simple(st.not, pg_token_type_v(st.token_type), st.optional),
        Token::TokenGroupItem(g) => pg_group_v(g),
    }
}

pub open spec fn pg_group_v(g: TokenGroup) -> PgTokenV
    decreases g, 0int,
{
    PgTokenV::Group(g.not, pg_tokens_v_upto(g.token_list@, g.token_list@.len() as int), g.optional)
}

pub open spec fn pg_tokens_v_upto(v: Seq<Token>, n: int) -> Seq<PgTokenV>
    decreases v, n,
{
    if n <= 0 || n > v.len() {
        Seq::empty()
    } else {
        pg_tokens_v_upto(v, n - 1).push(pg_token_v(v[n - 1]))
    }
}

pub open spec fn pg_tokens_v(v: Seq<Token>) -> Seq<PgTokenV> {
    pg_tokens_v_upto(v, v.len() as int)
}

proof fn lemma_pg_tokens_prefix(v: Seq<Token>, w: Seq<Token>, n: int)
    requires
        0 <= n <= v.len(),
        v.len() <= w.len(),
        forall|k: int| 0 <= k < v.len() ==> w[k] == v[k],
    ensures
        pg_tokens_v_upto(w, n) == pg_tokens_v_upto(v, n),
    decreases n,
{
    if n > 0 {
        lemma_pg_tokens_prefix(v, w, n - 1);
    }
}

proof fn lemma_pg_tokens_push(v: Seq<Token>, t: Token)
    ensures
        pg_tokens_v(v.push(t)) == pg_tokens_v(v).push(pg_token_v(t)),
{
    let w = v.push(t);
    lemma_pg_tokens_prefix(v, w, v.len() as int);
    assert(w[v.len() as int] == t);
}

pub open spec fn pg_entries_v(v: Seq<SourceItem>) -> Seq<PgEntryV> {
    v.map_values(
        |s: SourceItem|
            match s {
                SourceItem::AstSingleItem(n) => PgEntryV { ident: n.ident@, tokens: pg_tokens_v(n.tokens@) },
            },
    )
}

/// An optional byte `c` after whitespace: whether it stands and the
/// position after it; `None` at the end of the input, where it cannot be
/// told.
pub open spec fn pg_opt_lit(b: Seq<u8>, i: int, c: u8) -> Option<(bool, int)> {
    let j = ws_end(b, i);
    if j >= b.len() {
        None
    } else if b[j] == c {
        Some((true, j + 1))
    } else {
        Some((false, i))
    }
}

/// A token type: a key or a quoted string.
pub open spec fn pg_token_type(b: Seq<u8>, i: int) -> Option<(PgTokenTypeV, int)> {
    match sp_ident(b, i) {
        Some((id, j)) => Some((PgTokenTypeV::Key(id), j)),
        None => match sp_quoted(b, i) {
            Some((t, j)) => Some((PgTokenTypeV::Quoted(t), j)),
            None => None,
        },
    }
}

/// The rest of a token after its optional `!`: its type and an optional
/// `?`.
pub open spec fn pg_typed(b: Seq<u8>, i: int) -> Option<(PgTokenTypeV, bool, int)> {
    match pg_token_type(b, ws_end(b, i)) {
        Some((tt, e)) => match pg_opt_lit(b, e, 0x3F) {
            Some((op, e2)) => Some((tt, op, e2)),
            None => None,
        },
        None => None,
    }
}

/// A named token `name: type`, a token `type`, or a group `( tokens )`,
/// tried in that order, with `!` and `?` where they stand.
pub open spec fn pg_token(b: Seq<u8>, i: int) -> Option<(PgTokenV, int)>
    decreases b.len() - i, 0int,
{
    if !(0 <= i <= b.len()) {
        None
    } else {
        let named = match sp_ident(b, i) {
            Some((name, k)) => match lit(b, k, 0x3A) {
                Some(m) => match pg_opt_lit(b, m, 0x21) {
                    Some((nt, m2)) => match pg_typed(b, m2) {
                        Some((tt, op, e)) => Some((PgTokenV::Named(name, nt, tt, op), e)),
                        None => None,
                    },
                    None => None,
                },
                None => None,
            },
            None => None,
        };
        if named is Some {
            named
        } else {
            match pg_opt_lit(b, i, 0x21) {
                Some((nt, m2)) => match pg_typed(b, m2) {
                    Some((tt, op, e)) => Some((PgTokenV::Simple(nt, tt, op), e)),
                    None => match lit(b, m2, 0x28) {
                        Some(k) => {
                            proof {
                                lemma_ws_end(b, i);
                                lemma_ws_end(b, m2);
                                lemma_ws_end(b, k);
                            }
                            let (tl, k2) = pg_token_list(b, ws_end(b, k));
                            match lit(b, k2, 0x29) {
                                Some(e) => match pg_opt_lit(b, e, 0x3F) {
                                    Some((op, e2)) => Some((PgTokenV::Group(nt, tl, op), e2)),
                                    None => None,
                                },
                                None => None,
                            }
                        },
                        None => None,
                    },
                },
                None => None,
            }
        }
    }
}

/// Tokens, as many as follow one another.
pub open spec fn pg_token_list(b: Seq<u8>, i: int) -> (Seq<PgTokenV>, int)
    decreases b.len() - i, 1int,
{
    if 0 <= i < b.len() {
        match pg_token(b, i) {
            Some((t, j)) => if i < j <= b.len() {
                let (r, k) = pg_token_list(b, j);
                (seq![t] + r, k)
            } else {
                (Seq::empty(), i)
            },
            None => (Seq::empty(), i),
        }
    } else {
        (Seq::empty(), i)
    }
}

/// How reading an entry ends: with the entry, with an error, or at the end
/// of the input, where more input is needed.
pub enum PgEntryResult {
    Done(PgEntryV, int),
    Error,
    Incomplete,
}

/// A byte after whitespace, told apart from the end of the input.
pub open spec fn pg_lit(b: Seq<u8>, i: int, c: u8) -> Option<Option<int>> {
    let j = ws_end(b, i);
    if j >= b.len() {
        None
    } else if b[j] == c {
        Some(Some(j + 1))
    } else {
        Some(None)
    }
}

/// An entry: `name ( tokens )`.
pub open spec fn pg_ast_single(b: Seq<u8>, i: int) -> PgEntryResult {
    let j = ws_end(b, i);
    if j >= b.len() {
        PgEntryResult::Incomplete
    } else {
        match sp_ident(b, i) {
            None => PgEntryResult::Error,
            Some((id, k)) => match pg_lit(b, k, 0x28) {
                None => PgEntryResult::Incomplete,
                Some(None) => PgEntryResult::Error,
                Some(Some(m)) => {
                    let (tl, m2) = pg_token_list(b, ws_end(b, m));
                    match pg_lit(b, m2, 0x29) {
                        None => PgEntryResult::Incomplete,
                        Some(None) => PgEntryResult::Error,
                        Some(Some(e)) => PgEntryResult::Done(PgEntryV { ident: id, tokens: tl }, e),
                    }
                },
            },
        }
    }
}

/// Entries, as many as follow one another; `None` where one is cut off by
/// the end of the input.
pub open spec fn pg_source_items(b: Seq<u8>, i: int) -> Option<(Seq<PgEntryV>, int)>
    decreases b.len() - i,
{
    if 0 <= i < b.len() {
        match pg_ast_single(b, i) {
            PgEntryResult::Done(a, j) => if i < j <= b.len() {
                match pg_source_items(b, j) {
                    Some((r, k)) => Some((seq![a] + r, k)),
                    None => None,
                }
            } else {
                Some((Seq::empty(), i))
            },
            PgEntryResult::Error => Some((Seq::empty(), i)),
            PgEntryResult::Incomplete => None,
        }
    } else {
        Some((Seq::empty(), i))
    }
}

fn pg_opt_lit_at(input: &[u8], i: usize, c: u8) -> (r: Option<(bool, usize)>)
    requires
        i <= input@.len(),
    ensures
        match r {
            Some((x, j)) => pg_opt_lit(input@, i as int, c) == Some((x, j as int)) && i <= j <= input@.len(),
            None => pg_opt_lit(input@, i as int, c) is None,
        },
{
    let j = sp_at(input, i);
    if j >= input.len() {
        None
    } else if input[j] == c {
        Some((true, j + 1))
    } else {
        Some((false, i))
    }
}

fn pg_lit_at(input: &[u8], i: usize, c: u8) -> (r: Option<Option<usize>>)
    requires
        i <= input@.len(),
    ensures
        match r {
            Some(Some(j)) => pg_lit(input@, i as int, c) == Some(Some(j as int)) && i < j <= input@.len(),
            Some(None) => pg_lit(input@, i as int, c) == Some(None::<int>),
            None => pg_lit(input@, i as int, c) is None,
        },
{
    let j = sp_at(input, i);
    if j >= input.len() {
        None
    } else if input[j] == c {
        Some(Some(j + 1))
    } else {
        Some(None)
    }
}

pub fn pg_token_type_at<'a>(input: &'a [u8], i: usize) -> (r: Option<(TokenType<'a>, usize)>)
    requires
        i <= input@.len(),
    ensures
        match r {
            Some((v, j)) => pg_token_type(input@, i as int) == Some((pg_token_type_v(v), j as int)) && i < j
                <= input@.len(),
            None => pg_token_type(input@, i as int) is None,
        },
{
    if let Some((id, j)) = sp_ident_at(input, i) {
        return Some((TokenType::KeyTokenItem(KeyToken { key: id }), j));
    }
    match sp_quoted_at(input, i) {
        Some((t, j)) => Some((TokenType::QuotedItem(Quoted { string: t }), j)),
        None => None,
    }
}

fn pg_typed_at<'a>(input: &'a [u8], i: usize) -> (r: Option<(TokenType<'a>, bool, usize)>)
    requires
        i <= input@.len(),
    ensures
        match r {
            Some((v, op, j)) => pg_typed(input@, i as int) == Some((pg_token_type_v(v), op, j as int)) && i < j
                <= input@.len(),
            None => pg_typed(input@, i as int) is None,
        },
{
    let i0 = sp_at(input, i);
    match pg_token_type_at(input, i0) {
        Some((tt, e)) => match pg_opt_lit_at(input, e, 0x3F) {
            Some((op, e2)) => Some((tt, op, e2)),
            None => None,
        },
        None => None,
    }
}

pub fn pg_token_at<'a>(input: &'a [u8], i: usize) -> (r: Option<(Token<'a>, usize)>)
    requires
        i <= input@.len(),
    ensures
        match r {
            Some((v, j)) => pg_token(input@, i as int) == Some((pg_token_v(v), j as int)) && i < j <= input@.len(),
            None => pg_token(input@, i as int) is None,
        },
    decreases input@.len() - i, 0int,
{
    if let Some((name, k)) = sp_ident_at(input, i) {
        if let Some(m) = lit_at(input, k, 0x3A) {
            if let Some((nt, m2)) = pg_opt_lit_at(input, m, 0x21) {
                if let Some((tt, op, e)) = pg_typed_at(input, m2) {
                    return Some((Token::NamedTokenItem(NamedToken { token_type: tt, name, not: nt, optional: op }), e));
                }
            }
        }
    }
    let (nt, m2) = match pg_opt_lit_at(input, i, 0x21) {
        Some(x) => x,
        None => return None,
    };
    if let Some((tt, op, e)) = pg_typed_at(input, m2) {
        return Some((Token::SimpleTokenItem(SimpleToken { token_type: tt, not: nt, optional: op }), e));
    }
    let k = match lit_at(input, m2, 0x28) {
        Some(k) => k,
        None => return None,
    };
    let k1 = sp_at(input, k);
    let (tl, k2) = pg_token_list_at(input, k1);
    let e = match lit_at(input, k2, 0x29) {
        Some(e) => e,
        None => return None,
    };
    let (op, e2) = match pg_opt_lit_at(input, e, 0x3F) {
        Some(x) => x,
        None => return None,
    };
    let g = TokenGroup { not: nt, optional: op, token_list: tl };
    proof {
        assert(pg_token_v(Token::TokenGroupItem(g)) == pg_group_v(g));
    }
    Some((Token::TokenGroupItem(g), e2))
}

pub fn pg_token_list_at<'a>(input: &'a [u8], i: usize) -> (r: (Vec<Token<'a>>, usize))
    requires
        i <= input@.len(),
    ensures
        (pg_tokens_v(r.0@), r.1 as int) == pg_token_list(input@, i as int),
        i <= r.1 <= input@.len(),
    decreases input@.len() - i, 1int,
{
    let mut v: Vec<Token<'a>> = Vec::new();
    let mut pos = i;
    proof {
        assert(pg_tokens_v(v@) =~= Seq::<PgTokenV>::empty());
        assert(pg_tokens_v(v@) + pg_token_list(input@, i as int).0 =~= pg_token_list(input@, i as int).0);
    }
    loop
        invariant
            i <= pos <= input@.len(),
            pg_token_list(input@, i as int) == (pg_tokens_v(v@) + pg_token_list(input@, pos as int).0, pg_token_list(
                input@,
                pos as int,
            ).1),
        decreases input@.len() - pos,
    {
        if pos >= input.len() {
            proof {
                assert(pg_tokens_v(v@) + Seq::<PgTokenV>::empty() =~= pg_tokens_v(v@));
            }
            return (v, pos);
        }
        match pg_token_at(input, pos) {
            Some((t, j)) => {
                let ghost old_v = pg_tokens_v(v@);
                let ghost old_s = v@;
                v.push(t);
                proof {
                    lemma_pg_tokens_push(old_s, t);
                    let r2 = pg_token_list(input@, j as int);
                    assert(old_v + (seq![pg_token_v(t)] + r2.0) =~= pg_tokens_v(v@) + r2.0);
                }
                pos = j;
            },
            None => {
                proof {
                    assert(pg_tokens_v(v@) + Seq::<PgTokenV>::empty() =~= pg_tokens_v(v@));
                }
                return (v, pos);
            },
        }
    }
}

/// Reads an entry at `i`: `Ok` with the entry and the position after it,
/// `Err(true)` where the input ends before the entry does, `Err(false)` on
/// any other mismatch.
pub fn pg_ast_single_at<'a>(input: &'a [u8], i: usize) -> (r: Result<(AstSingle<'a>, usize), bool>)
    requires
        i <= input@.len(),
    ensures
        match r {
            Ok((v, j)) => pg_ast_single(input@, i as int) == PgEntryResult::Done(
                PgEntryV { ident: v.ident@, tokens: pg_tokens_v(v.tokens@) },
                j as int,
            ) && i < j <= input@.len(),
            Err(true) => pg_ast_single(input@, i as int) == PgEntryResult::Incomplete,
            Err(false) => pg_ast_single(input@, i as int) == PgEntryResult::Error,
        },
{
    let j = sp_at(input, i);
    if j >= input.len() {
        return Err(true);
    }
    let (id, k) = match sp_ident_at(input, i) {
        Some(x) => x,
        None => return Err(false),
    };
    let m = match pg_lit_at(input, k, 0x28) {
        None => return Err(true),
        Some(None) => return Err(false),
        Some(Some(m)) => m,
    };
    let m0 = sp_at(input, m);
    let (tl, m2) = pg_token_list_at(input, m0);
    match pg_lit_at(input, m2, 0x29) {
        None => Err(true),
        Some(None) => Err(false),
        Some(Some(e)) => Ok((AstSingle { ident: id, tokens: tl }, e)),
    }
}

/// Parses a playground source: its entries and the bytes after the last
/// one, or `None` where an entry is cut off by the end of the input.
pub fn pg_source<'a>(input: &'a [u8]) -> (r: Option<(Source<'a>, &'a [u8])>)
    ensures
        match r {
            Some((s, rest)) => pg_source_items(input@, ws_end(input@, 0)) matches Some((items, end)) && pg_entries_v(
                s.items@,
            ) == items && rest@ == input@.skip(end),
            None => pg_source_items(input@, ws_end(input@, 0)) is None,
        },
{
    let i0 = sp_at(input, 0);
    let mut v: Vec<SourceItem<'a>> = Vec::new();
    let mut pos = i0;
    proof {
        assert(pg_entries_v(v@) =~= Seq::<PgEntryV>::empty());
    }
    loop
        invariant
            i0 <= pos <= input@.len(),
            i0 == ws_end(input@, 0),
            pg_source_items(input@, i0 as int) == (match pg_source_items(input@, pos as int) {
                Some((r, k)) => Some((pg_entries_v(v@) + r, k)),
                None => None,
            }),
        ensures
            i0 <= pos <= input@.len(),
            pg_source_items(input@, i0 as int) == Some((pg_entries_v(v@), pos as int)),
        decreases input@.len() - pos,
    {
        if pos >= input.len() {
            proof {
                assert(pg_entries_v(v@) + Seq::<PgEntryV>::empty() =~= pg_entries_v(v@));
            }
            break;
        }
        match pg_ast_single_at(input, pos) {
            Ok((a, j)) => {
                let ghost old_v = pg_entries_v(v@);
                v.push(SourceItem::AstSingleItem(a));
                proof {
                    assert(pg_entries_v(v@) =~= old_v.push(PgEntryV { ident: a.ident@, tokens: pg_tokens_v(a.tokens@) }));
                    if let Some((r2, k2)) = pg_source_items(input@, j as int) {
                        assert(old_v + (seq![PgEntryV { ident: a.ident@, tokens: pg_tokens_v(a.tokens@) }] + r2)
                            =~= pg_entries_v(v@) + r2);
                    }
                }
                pos = j;
            },
            Err(true) => {
                return None;
            },
            Err(false) => {
                proof {
                    assert(pg_entries_v(v@) + Seq::<PgEntryV>::empty() =~= pg_entries_v(v@));
                }
                break;
            },
        }
    }
    let rest = vstd::slice::slice_subrange(input, pos, input.len());
    proof {
        assert(rest@ =~= input@.skip(pos as int));
    }
    Some((Source { items: v }, rest))
}

} // verus!
