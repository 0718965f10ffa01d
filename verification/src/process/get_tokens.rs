//! Resolves the typed part of every key the description mentions: in its
//! tokens, and as the separator of a list.
use vstd::prelude::*;
use crate::descr_lang::ast::{
    AstItem, AstMany, AstSingle, KeyToken, List, ListItem, ListMany, ListSingle, Source, SourceItem, Token,
    TokenType,
};
use crate::lang_data::data::{builtin_part, same_but_typed_parts, LangData};
use crate::lang_data::typed_part::TypedPart;
use crate::text::str_eq;

verus! {

pub struct GetTokens<'a, 'd> {
    pub data: &'a mut LangData<'d>,
}

/// Whether a key can be resolved: it names an AST entry, a list, or a
/// builtin token.
pub open spec fn key_known<'a>(asts: Set<Seq<char>>, lists: Set<Seq<char>>, key: &'a str) -> bool {
    asts.contains(key@) || lists.contains(key@) || builtin_part(key) is Some
}

/// The typed part a key resolves to.
pub open spec fn key_part<'a>(asts: Set<Seq<char>>, lists: Set<Seq<char>>, key: &'a str) -> TypedPart<'a> {
    if asts.contains(key@) {
        TypedPart::AstPart { key }
    } else if lists.contains(key@) {
        TypedPart::ListPart { key }
    } else {
        builtin_part(key).unwrap()
    }
}

/// The typed parts after resolving `keys` in order.
pub open spec fn parts_after<'a>(
    tps: Map<Seq<char>, TypedPart<'a>>,
    asts: Set<Seq<char>>,
    lists: Set<Seq<char>>,
    keys: Seq<&'a str>,
) -> Map<Seq<char>, TypedPart<'a>>
    decreases keys.len(),
{
    if keys.len() == 0 {
        tps
    } else {
        parts_after(tps, asts, lists, keys.drop_last()).insert(keys.last()@, key_part(asts, lists, keys.last()))
    }
}

pub open spec fn keys_known<'a>(d: LangData<'a>, keys: Seq<&'a str>) -> bool {
    forall|i: int| 0 <= i < keys.len() ==> key_known(d.ast_data@.dom(), d.list_data@.dom(), #[trigger] keys[i])
}

/// `d1` is `d0` with `keys` resolved in order, and nothing else changed.
pub open spec fn tokens_got<'a>(d0: LangData<'a>, d1: LangData<'a>, keys: Seq<&'a str>) -> bool {
    &&& d1.wf()
    &&& same_but_typed_parts(&d1, &d0)
    &&& d1.typed_parts@ == parts_after(d0.typed_parts@, d0.ast_data@.dom(), d0.list_data@.dom(), keys)
}

pub proof fn lemma_parts_after_concat<'a>(
    tps: Map<Seq<char>, TypedPart<'a>>,
    asts: Set<Seq<char>>,
    lists: Set<Seq<char>>,
    k1: Seq<&'a str>,
    k2: Seq<&'a str>,
)
    ensures
        parts_after(tps, asts, lists, k1 + k2) == parts_after(parts_after(tps, asts, lists, k1), asts, lists, k2),
    decreases k2.len(),
{
    if k2.len() == 0 {
        assert(k1 + k2 =~= k1);
    } else {
        assert((k1 + k2).drop_last() =~= k1 + k2.drop_last());
        lemma_parts_after_concat(tps, asts, lists, k1, k2.drop_last());
    }
}

pub proof fn lemma_tokens_got_trans<'a>(
    d0: LangData<'a>,
    d1: LangData<'a>,
    d2: LangData<'a>,
    k1: Seq<&'a str>,
    k2: Seq<&'a str>,
)
    requires
        tokens_got(d0, d1, k1),
        tokens_got(d1, d2, k2),
    ensures
        tokens_got(d0, d2, k1 + k2),
{
    lemma_parts_after_concat(d0.typed_parts@, d0.ast_data@.dom(), d0.list_data@.dom(), k1, k2);
}

pub proof fn lemma_tokens_got_refl<'a>(d: LangData<'a>)
    requires
        d.wf(),
    ensures
        tokens_got(d, d, Seq::empty()),
{
}

/// The keys of a token type: the key of a key token.
pub open spec fn type_keys<'a>(tt: TokenType<'a>) -> Seq<&'a str> {
    match tt {
        TokenType::KeyTokenItem(kt) => seq![kt.key],
        _ => Seq::empty(),
    }
}

/// The keys of a token, those of a group's tokens in order.
pub open spec fn token_keys<'a>(t: Token<'a>) -> Seq<&'a str>
    decreases t,
{
    match t {
        Token::SimpleTokenItem(st) => type_keys(st.token_type),
        Token::NamedTokenItem(nt) => type_keys(nt.token_type),
        Token::TokenGroupItem(g) => tokens_keys(g.token_list@),
    }
}

pub open spec fn tokens_keys<'a>(ts: Seq<Token<'a>>) -> Seq<&'a str>
    decreases ts,
{
    if ts.len() == 0 {
        Seq::empty()
    } else {
        tokens_keys(ts.drop_last()) + token_keys(ts.last())
    }
}

/// Number of tokens in a token's tree, itself included.
pub open spec fn token_size<'a>(t: Token<'a>) -> nat
    decreases t,
{
    match t {
        Token::TokenGroupItem(g) => 1 + tokens_size(g.token_list@),
        _ => 1,
    }
}

pub open spec fn tokens_size<'a>(ts: Seq<Token<'a>>) -> nat
    decreases ts,
{
    if ts.len() == 0 {
        0
    } else {
        tokens_size(ts.drop_last()) + token_size(ts.last())
    }
}

pub proof fn lemma_tokens_size_prefix<'a>(ts: Seq<Token<'a>>, i: int)
    requires
        0 <= i <= ts.len(),
    ensures
        tokens_size(ts.take(i)) <= tokens_size(ts),
        i < ts.len() ==> tokens_size(ts.take(i + 1)) == tokens_size(ts.take(i)) + token_size(ts[i]),
    decreases ts.len(),
{
    if i < ts.len() {
        assert(ts.take(i + 1).drop_last() =~= ts.take(i));
        lemma_tokens_size_prefix(ts.drop_last(), i);
        assert(ts.drop_last().take(i) =~= ts.take(i));
        if i + 1 < ts.len() {
            lemma_tokens_size_prefix(ts.drop_last(), i + 1);
            assert(ts.drop_last().take(i + 1) =~= ts.take(i + 1));
        } else {
            assert(ts.take(i + 1) =~= ts);
        }
    } else {
        assert(ts.take(i) =~= ts);
    }
}

/// The keys `f` gives for the items of `s`, one after another.
pub open spec fn flat_keys<'a, A>(s: Seq<A>, f: spec_fn(A) -> Seq<&'a str>) -> Seq<&'a str>
    decreases s.len(),
{
    if s.len() == 0 {
        Seq::empty()
    } else {
        flat_keys(s.drop_last(), f) + f(s.last())
    }
}

pub proof fn lemma_flat_keys_step<'a, A>(s: Seq<A>, f: spec_fn(A) -> Seq<&'a str>, i: int)
    requires
        0 <= i < s.len(),
    ensures
        flat_keys(s.take(i + 1), f) == flat_keys(s.take(i), f) + f(s[i]),
{
    assert(s.take(i + 1).drop_last() =~= s.take(i));
}

pub proof fn lemma_known_concat<'a>(d: LangData<'a>, a: Seq<&'a str>, b: Seq<&'a str>)
    requires
        keys_known(d, a + b),
    ensures
        keys_known(d, a),
        keys_known(d, b),
{
    assert forall|i: int| 0 <= i < a.len() implies key_known(d.ast_data@.dom(), d.list_data@.dom(), #[trigger] a[i]) by {
        assert((a + b)[i] == a[i]);
    }
    assert forall|i: int| 0 <= i < b.len() implies key_known(d.ast_data@.dom(), d.list_data@.dom(), #[trigger] b[i]) by {
        assert((a + b)[a.len() + i] == b[i]);
    }
}

/// When all keys of `s` are known, so are those of each item.
pub proof fn lemma_flat_keys_known<'a, A>(d: LangData<'a>, s: Seq<A>, f: spec_fn(A) -> Seq<&'a str>)
    requires
        keys_known(d, flat_keys(s, f)),
    ensures
        forall|i: int| 0 <= i < s.len() ==> keys_known(d, f(#[trigger] s[i])),
    decreases s.len(),
{
    if s.len() > 0 {
        lemma_known_concat(d, flat_keys(s.drop_last(), f), f(s.last()));
        lemma_flat_keys_known(d, s.drop_last(), f);
        assert forall|i: int| 0 <= i < s.len() implies keys_known(d, f(#[trigger] s[i])) by {
            if i < s.len() - 1 {
                assert(s.drop_last()[i] == s[i]);
            }
        }
    }
}

pub proof fn lemma_tokens_keys_known<'a>(d: LangData<'a>, ts: Seq<Token<'a>>)
    requires
        keys_known(d, tokens_keys(ts)),
    ensures
        forall|i: int| 0 <= i < ts.len() ==> keys_known(d, token_keys(#[trigger] ts[i])),
    decreases ts.len(),
{
    if ts.len() > 0 {
        lemma_known_concat(d, tokens_keys(ts.drop_last()), token_keys(ts.last()));
        lemma_tokens_keys_known(d, ts.drop_last());
        assert forall|i: int| 0 <= i < ts.len() implies keys_known(d, token_keys(#[trigger] ts[i])) by {
            if i < ts.len() - 1 {
                assert(ts.drop_last()[i] == ts[i]);
            }
        }
    }
}

/// The keys of a definition or reference among the alternatives of an
/// AST entry or list.
pub open spec fn ast_item_keys<'a>(it: AstItem<'a>) -> Seq<&'a str> {
    match it {
        AstItem::AstDefItem(def) => tokens_keys(def.tokens@),
        AstItem::AstRefItem(..) => Seq::empty(),
    }
}

pub open spec fn ast_item_keys_fn<'a>() -> spec_fn(AstItem<'a>) -> Seq<&'a str> {
    |it: AstItem<'a>| ast_item_keys(it)
}

pub open spec fn list_item_keys_fn<'a>() -> spec_fn(ListItem<'a>) -> Seq<&'a str> {
    |it: ListItem<'a>| ast_item_keys(it.ast_item)
}

pub open spec fn opt_key<'a>(k: Option<&'a str>) -> Seq<&'a str> {
    match k {
        Some(k) => seq![k],
        None => Seq::empty(),
    }
}

/// The keys an item of the description mentions, in the order they are
/// resolved.
pub open spec fn item_keys<'a>(item: SourceItem<'a>) -> Seq<&'a str> {
    match item {
        SourceItem::AstSingleItem(n) => tokens_keys(n.tokens@),
        SourceItem::AstManyItem(n) => flat_keys(n.items@, ast_item_keys_fn()),
        SourceItem::ListItem(List::ListSingleItem(n)) => seq![n.sep],
        SourceItem::ListItem(List::ListManyItem(n)) => opt_key(n.sep) + flat_keys(n.items@, list_item_keys_fn()),
        SourceItem::CommentItem(..) => Seq::empty(),
    }
}

pub open spec fn item_keys_fn<'a>() -> spec_fn(SourceItem<'a>) -> Seq<&'a str> {
    |it: SourceItem<'a>| item_keys(it)
}

/// The keys of a whole description, in the order they are resolved.
pub open spec fn source_keys<'a>(src: Source<'a>) -> Seq<&'a str> {
    flat_keys(src.items@, item_keys_fn())
}

impl<'a, 'd> GetTokens<'a, 'd> {
    pub fn new(data: &'a mut LangData<'d>) -> (r: GetTokens<'a, 'd>)
        ensures
            *r.data == *old(data),
            *final(r.data) == *final(data),
    {
        GetTokens { data }
    }

    pub fn visit_key_token(&mut self, node: &KeyToken<'d>)
        requires
            old(self).data.wf(),
            keys_known(*old(self).data, seq![node.key]),
        ensures
            tokens_got(*old(self).data, *final(self).data, seq![node.key]),
    {
        let ghost d0 = *self.data;
        assert(key_known(d0.ast_data@.dom(), d0.list_data@.dom(), seq![node.key][0]));
        self.data.resolve_typed_part(node.key);
        proof {
            let keys = seq![node.key];
            assert(keys.drop_last() =~= Seq::<&'d str>::empty());
            assert(parts_after(d0.typed_parts@, d0.ast_data@.dom(), d0.list_data@.dom(), keys.drop_last()) == d0.typed_parts@);
            assert(self.data.typed_parts@ =~= parts_after(d0.typed_parts@, d0.ast_data@.dom(), d0.list_data@.dom(), keys));
        }
    }
}

impl<'a, 'd> GetTokens<'a, 'd> {
    pub fn visit_token(&mut self, node: &Token<'d>)
        requires
            old(self).data.wf(),
            keys_known(*old(self).data, token_keys(*node)),
        ensures
            tokens_got(*old(self).data, *final(self).data, token_keys(*node)),
        decreases token_size(*node),
    {
        match node {
            Token::SimpleTokenItem(st) => self.visit_token_type(&st.token_type),
            Token::NamedTokenItem(nt) => self.visit_token_type(&nt.token_type),
            Token::TokenGroupItem(g) => {
                proof {
                    lemma_tokens_keys_known(*self.data, g.token_list@);
                }
                let ghost d0 = *self.data;
                let ghost ts = g.token_list@;
                let n = g.token_list.len();
                let mut i: usize = 0;
                proof {
                    lemma_tokens_got_refl(d0);
                    assert(tokens_keys(ts.take(0)) =~= Seq::<&'d str>::empty());
                }
                while i < n
                    invariant
                        n == ts.len(),
                        ts == g.token_list@,
                        *node == Token::TokenGroupItem(*g),
                        i <= n,
                        d0.wf(),
                        forall|j: int| 0 <= j < ts.len() ==> keys_known(d0, token_keys(#[trigger] ts[j])),
                        tokens_got(d0, *self.data, tokens_keys(ts.take(i as int))),
                    decreases n - i,
                {
                    let ghost before = *self.data;
                    proof {
                        lemma_tokens_size_prefix(ts, i as int);
                        lemma_tokens_size_prefix(ts, i + 1);
                        assert(keys_known(before, token_keys(ts[i as int])));
                    }
                    self.visit_token(&g.token_list[i]);
                    proof {
                        lemma_tokens_got_trans(d0, before, *self.data, tokens_keys(ts.take(i as int)), token_keys(ts[i as int]));
                        assert(ts.take(i + 1).drop_last() =~= ts.take(i as int));
                    }
                    i += 1;
                }
                proof {
                    assert(ts.take(n as int) =~= ts);
                }
            },
        }
    }

    fn visit_token_type(&mut self, tt: &TokenType<'d>)
        requires
            old(self).data.wf(),
            keys_known(*old(self).data, type_keys(*tt)),
        ensures
            tokens_got(*old(self).data, *final(self).data, type_keys(*tt)),
    {
        match tt {
            TokenType::KeyTokenItem(kt) => self.visit_key_token(kt),
            _ => {
                proof {
                    lemma_tokens_got_refl(*self.data);
                }
            },
        }
    }

    /// Visits the tokens of a definition in order.
    pub fn visit_tokens(&mut self, tokens: &Vec<Token<'d>>)
        requires
            old(self).data.wf(),
            keys_known(*old(self).data, tokens_keys(tokens@)),
        ensures
            tokens_got(*old(self).data, *final(self).data, tokens_keys(tokens@)),
    {
        proof {
            lemma_tokens_keys_known(*self.data, tokens@);
        }
        let ghost d0 = *self.data;
        let ghost ts = tokens@;
        let n = tokens.len();
        let mut i: usize = 0;
        proof {
            lemma_tokens_got_refl(d0);
            assert(tokens_keys(ts.take(0)) =~= Seq::<&'d str>::empty());
        }
        while i < n
            invariant
                n == ts.len(),
                ts == tokens@,
                i <= n,
                d0.wf(),
                forall|j: int| 0 <= j < ts.len() ==> keys_known(d0, token_keys(#[trigger] ts[j])),
                tokens_got(d0, *self.data, tokens_keys(ts.take(i as int))),
            decreases n - i,
        {
            let ghost before = *self.data;
            proof {
                assert(keys_known(before, token_keys(ts[i as int])));
            }
            self.visit_token(&tokens[i]);
            proof {
                lemma_tokens_got_trans(d0, before, *self.data, tokens_keys(ts.take(i as int)), token_keys(ts[i as int]));
                assert(ts.take(i + 1).drop_last() =~= ts.take(i as int));
            }
            i += 1;
        }
        proof {
            assert(ts.take(n as int) =~= ts);
        }
    }

    pub fn visit_ast_item(&mut self, node: &AstItem<'d>)
        requires
            old(self).data.wf(),
            keys_known(*old(self).data, ast_item_keys(*node)),
        ensures
            tokens_got(*old(self).data, *final(self).data, ast_item_keys(*node)),
    {
        match node {
            AstItem::AstDefItem(def) => self.visit_tokens(&def.tokens),
            AstItem::AstRefItem(..) => {
                proof {
                    lemma_tokens_got_refl(*self.data);
                }
            },
        }
    }

    pub fn visit_ast_single(&mut self, node: &AstSingle<'d>)
        requires
            old(self).data.wf(),
            keys_known(*old(self).data, tokens_keys(node.tokens@)),
        ensures
            tokens_got(*old(self).data, *final(self).data, tokens_keys(node.tokens@)),
    {
        self.visit_tokens(&node.tokens);
    }

    pub fn visit_ast_many(&mut self, node: &AstMany<'d>)
        requires
            old(self).data.wf(),
            keys_known(*old(self).data, flat_keys(node.items@, ast_item_keys_fn())),
        ensures
            tokens_got(*old(self).data, *final(self).data, flat_keys(node.items@, ast_item_keys_fn())),
    {
        let ghost d0 = *self.data;
        let ghost items = node.items@;
        let ghost f = ast_item_keys_fn::<'d>();
        proof {
            lemma_flat_keys_known(d0, items, f);
            lemma_tokens_got_refl(d0);
            assert(flat_keys(items.take(0), f) =~= Seq::<&'d str>::empty());
        }
        let n = node.items.len();
        let mut i: usize = 0;
        while i < n
            invariant
                n == items.len(),
                items == node.items@,
                f == ast_item_keys_fn::<'d>(),
                i <= n,
                d0.wf(),
                forall|j: int| 0 <= j < items.len() ==> keys_known(d0, f(#[trigger] items[j])),
                tokens_got(d0, *self.data, flat_keys(items.take(i as int), f)),
            decreases n - i,
        {
            let ghost before = *self.data;
            proof {
                assert(keys_known(before, f(items[i as int])));
            }
            self.visit_ast_item(&node.items[i]);
            proof {
                lemma_tokens_got_trans(d0, before, *self.data, flat_keys(items.take(i as int), f), f(items[i as int]));
                lemma_flat_keys_step(items, f, i as int);
            }
            i += 1;
        }
        proof {
            assert(items.take(n as int) =~= items);
        }
    }

    pub fn visit_list_single(&mut self, node: &ListSingle<'d>)
        requires
            old(self).data.wf(),
            keys_known(*old(self).data, seq![node.sep]),
        ensures
            tokens_got(*old(self).data, *final(self).data, seq![node.sep]),
    {
        self.data.resolve_typed_part(node.sep);
        proof {
            let keys = seq![node.sep];
            assert(keys.drop_last() =~= Seq::<&'d str>::empty());
            assert(key_known(old(self).data.ast_data@.dom(), old(self).data.list_data@.dom(), keys[0]));
            assert(parts_after(old(self).data.typed_parts@, old(self).data.ast_data@.dom(), old(self).data.list_data@.dom(), keys.drop_last()) == old(self).data.typed_parts@);
            assert(self.data.typed_parts@ =~= parts_after(old(self).data.typed_parts@, old(self).data.ast_data@.dom(), old(self).data.list_data@.dom(), keys));
        }
    }

    pub fn visit_list_many(&mut self, node: &ListMany<'d>)
        requires
            old(self).data.wf(),
            keys_known(*old(self).data, opt_key(node.sep) + flat_keys(node.items@, list_item_keys_fn())),
        ensures
            tokens_got(*old(self).data, *final(self).data, opt_key(node.sep) + flat_keys(node.items@, list_item_keys_fn())),
    {
        let ghost d0 = *self.data;
        let ghost items = node.items@;
        let ghost f = list_item_keys_fn::<'d>();
        proof {
            lemma_known_concat(d0, opt_key(node.sep), flat_keys(items, f));
            lemma_flat_keys_known(d0, items, f);
        }
        match node.sep {
            Some(sep) => {
                proof {
                    assert(opt_key(node.sep) =~= seq![sep]);
                    assert(key_known(d0.ast_data@.dom(), d0.list_data@.dom(), opt_key(node.sep)[0]));
                }
                self.data.resolve_typed_part(sep);
                proof {
                    let keys = seq![sep];
                    assert(keys.drop_last() =~= Seq::<&'d str>::empty());
                    assert(parts_after(d0.typed_parts@, d0.ast_data@.dom(), d0.list_data@.dom(), keys.drop_last()) == d0.typed_parts@);
                    assert(self.data.typed_parts@ =~= parts_after(d0.typed_parts@, d0.ast_data@.dom(), d0.list_data@.dom(), keys));
                }
            },
            None => {
                proof {
                    lemma_tokens_got_refl(d0);
                }
            },
        }
        let ghost d1 = *self.data;
        proof {
            lemma_tokens_got_refl(d1);
            assert(flat_keys(items.take(0), f) =~= Seq::<&'d str>::empty());
        }
        let n = node.items.len();
        let mut i: usize = 0;
        while i < n
            invariant
                n == items.len(),
                items == node.items@,
                f == list_item_keys_fn::<'d>(),
                i <= n,
                d1.wf(),
                same_but_typed_parts(&d1, &d0),
                forall|j: int| 0 <= j < items.len() ==> keys_known(d0, f(#[trigger] items[j])),
                tokens_got(d1, *self.data, flat_keys(items.take(i as int), f)),
            decreases n - i,
        {
            let ghost before = *self.data;
            proof {
                assert(keys_known(before, f(items[i as int])));
            }
            self.visit_ast_item(&node.items[i].ast_item);
            proof {
                lemma_tokens_got_trans(d1, before, *self.data, flat_keys(items.take(i as int), f), f(items[i as int]));
                lemma_flat_keys_step(items, f, i as int);
            }
            i += 1;
        }
        proof {
            assert(items.take(n as int) =~= items);
            lemma_tokens_got_trans(d0, d1, *self.data, opt_key(node.sep), flat_keys(items, f));
        }
    }

    pub fn visit_source_item(&mut self, node: &SourceItem<'d>)
        requires
            old(self).data.wf(),
            keys_known(*old(self).data, item_keys(*node)),
        ensures
            tokens_got(*old(self).data, *final(self).data, item_keys(*node)),
    {
        match node {
            SourceItem::AstSingleItem(n) => self.visit_ast_single(n),
            SourceItem::AstManyItem(n) => self.visit_ast_many(n),
            SourceItem::ListItem(List::ListSingleItem(n)) => self.visit_list_single(n),
            SourceItem::ListItem(List::ListManyItem(n)) => self.visit_list_many(n),
            SourceItem::CommentItem(..) => {
                proof {
                    lemma_tokens_got_refl(*self.data);
                }
            },
        }
    }

    /// Resolves every key of the description, in order.
    pub fn visit_source(&mut self, node: &Source<'d>)
        requires
            old(self).data.wf(),
            keys_known(*old(self).data, source_keys(*node)),
        ensures
            tokens_got(*old(self).data, *final(self).data, source_keys(*node)),
    {
        let ghost d0 = *self.data;
        let ghost items = node.items@;
        let ghost f = item_keys_fn::<'d>();
        proof {
            lemma_flat_keys_known(d0, items, f);
            lemma_tokens_got_refl(d0);
            assert(flat_keys(items.take(0), f) =~= Seq::<&'d str>::empty());
        }
        let n = node.items.len();
        let mut i: usize = 0;
        while i < n
            invariant
                n == items.len(),
                items == node.items@,
                f == item_keys_fn::<'d>(),
                i <= n,
                d0.wf(),
                forall|j: int| 0 <= j < items.len() ==> keys_known(d0, f(#[trigger] items[j])),
                tokens_got(d0, *self.data, flat_keys(items.take(i as int), f)),
            decreases n - i,
        {
            let ghost before = *self.data;
            proof {
                assert(keys_known(before, f(items[i as int])));
            }
            self.visit_source_item(&node.items[i]);
            proof {
                lemma_tokens_got_trans(d0, before, *self.data, flat_keys(items.take(i as int), f), f(items[i as int]));
                lemma_flat_keys_step(items, f, i as int);
            }
            i += 1;
        }
        proof {
            assert(items.take(n as int) =~= items);
        }
    }
}

/// Whether a key names a builtin token, computed.
fn is_builtin(key: &str) -> (r: bool)
    ensures
        r == (builtin_part(key) is Some),
{
    str_eq(key, "LPAREN") || str_eq(key, "RPAREN") || str_eq(key, "LBRACE") || str_eq(key, "RBRACE")
        || str_eq(key, "LBRACKET") || str_eq(key, "RBRACKET") || str_eq(key, "COMMA") || str_eq(key, "COLON")
        || str_eq(key, "SEMICOLON") || str_eq(key, "EQUAL") || str_eq(key, "LT") || str_eq(key, "GT") || str_eq(
        key,
        "LTE",
    ) || str_eq(key, "GTE") || str_eq(key, "STAR") || str_eq(key, "EXCL") || str_eq(key, "DOT") || str_eq(
        key,
        "QUESTION",
    ) || str_eq(key, "QUOTE") || str_eq(key, "WS") || str_eq(key, "string") || str_eq(key, "ident") || str_eq(
        key,
        "int",
    )
}

fn push_type_keys<'d>(out: &mut Vec<&'d str>, tt: &TokenType<'d>)
    ensures
        final(out)@ == old(out)@ + type_keys(*tt),
{
    match tt {
        TokenType::KeyTokenItem(kt) => {
            out.push(kt.key);
        },
        _ => {},
    }
    assert(out@ =~= old(out)@ + type_keys(*tt));
}

fn push_token_keys<'d>(out: &mut Vec<&'d str>, t: &Token<'d>)
    ensures
        final(out)@ == old(out)@ + token_keys(*t),
    decreases token_size(*t),
{
    match t {
        Token::SimpleTokenItem(st) => push_type_keys(out, &st.token_type),
        Token::NamedTokenItem(nt) => push_type_keys(out, &nt.token_type),
        Token::TokenGroupItem(g) => {
            let ghost o0 = out@;
            let ghost ts = g.token_list@;
            let n = g.token_list.len();
            let mut i: usize = 0;
            assert(tokens_keys(ts.take(0)) =~= Seq::<&'d str>::empty());
            assert(out@ =~= o0 + tokens_keys(ts.take(0)));
            while i < n
                invariant
                    n == ts.len(),
                    ts == g.token_list@,
                    *t == Token::TokenGroupItem(*g),
                    i <= n,
                    out@ == o0 + tokens_keys(ts.take(i as int)),
                decreases n - i,
            {
                proof {
                    lemma_tokens_size_prefix(ts, i as int);
                    lemma_tokens_size_prefix(ts, i + 1);
                    assert(ts.take(i + 1).drop_last() =~= ts.take(i as int));
                }
                push_token_keys(out, &g.token_list[i]);
                assert(out@ =~= o0 + tokens_keys(ts.take(i + 1)));
                i += 1;
            }
            assert(ts.take(n as int) =~= ts);
        },
    }
}

fn push_tokens_keys<'d>(out: &mut Vec<&'d str>, ts: &Vec<Token<'d>>)
    ensures
        final(out)@ == old(out)@ + tokens_keys(ts@),
{
    let ghost o0 = out@;
    let n = ts.len();
    let mut i: usize = 0;
    assert(tokens_keys(ts@.take(0)) =~= Seq::<&'d str>::empty());
    assert(out@ =~= o0 + tokens_keys(ts@.take(0)));
    while i < n
        invariant
            n == ts@.len(),
            i <= n,
            out@ == o0 + tokens_keys(ts@.take(i as int)),
        decreases n - i,
    {
        assert(ts@.take(i + 1).drop_last() =~= ts@.take(i as int));
        push_token_keys(out, &ts[i]);
        assert(out@ =~= o0 + tokens_keys(ts@.take(i + 1)));
        i += 1;
    }
    assert(ts@.take(n as int) =~= ts@);
}

fn push_item_keys<'d>(out: &mut Vec<&'d str>, item: &SourceItem<'d>)
    ensures
        final(out)@ == old(out)@ + item_keys(*item),
{
    let ghost o0 = out@;
    match item {
        SourceItem::AstSingleItem(n) => push_tokens_keys(out, &n.tokens),
        SourceItem::AstManyItem(node) => {
            let ghost f = ast_item_keys_fn::<'d>();
            let ghost items = node.items@;
            let n = node.items.len();
            let mut i: usize = 0;
            assert(flat_keys(items.take(0), f) =~= Seq::<&'d str>::empty());
            assert(out@ =~= o0 + flat_keys(items.take(0), f));
            while i < n
                invariant
                    n == items.len(),
                    items == node.items@,
                    f == ast_item_keys_fn::<'d>(),
                    i <= n,
                    out@ == o0 + flat_keys(items.take(i as int), f),
                decreases n - i,
            {
                proof {
                    lemma_flat_keys_step(items, f, i as int);
                }
                match &node.items[i] {
                    AstItem::AstDefItem(def) => push_tokens_keys(out, &def.tokens),
                    AstItem::AstRefItem(..) => {},
                }
                assert(out@ =~= o0 + flat_keys(items.take(i + 1), f));
                i += 1;
            }
            assert(items.take(n as int) =~= items);
        },
        SourceItem::ListItem(List::ListSingleItem(n)) => {
            out.push(n.sep);
        },
        SourceItem::ListItem(List::ListManyItem(node)) => {
            match node.sep {
                Some(sep) => out.push(sep),
                None => {},
            }
            let ghost o1 = out@;
            assert(o1 =~= o0 + opt_key(node.sep));
            let ghost f = list_item_keys_fn::<'d>();
            let ghost items = node.items@;
            let n = node.items.len();
            let mut i: usize = 0;
            assert(flat_keys(items.take(0), f) =~= Seq::<&'d str>::empty());
            assert(out@ =~= o1 + flat_keys(items.take(0), f));
            while i < n
                invariant
                    n == items.len(),
                    items == node.items@,
                    f == list_item_keys_fn::<'d>(),
                    i <= n,
                    out@ == o1 + flat_keys(items.take(i as int), f),
                decreases n - i,
            {
                proof {
                    lemma_flat_keys_step(items, f, i as int);
                }
                match &node.items[i].ast_item {
                    AstItem::AstDefItem(def) => push_tokens_keys(out, &def.tokens),
                    AstItem::AstRefItem(..) => {},
                }
                assert(out@ =~= o1 + flat_keys(items.take(i + 1), f));
                i += 1;
            }
            assert(items.take(n as int) =~= items);
        },
        SourceItem::CommentItem(..) => {},
    }
    assert(out@ =~= o0 + item_keys(*item));
}

/// The keys of a description, in the order they are resolved.
pub fn description_keys<'d>(node: &Source<'d>) -> (r: Vec<&'d str>)
    ensures
        r@ == source_keys(*node),
{
    let mut out: Vec<&'d str> = Vec::new();
    let ghost f = item_keys_fn::<'d>();
    let ghost items = node.items@;
    let n = node.items.len();
    let mut i: usize = 0;
    assert(flat_keys(items.take(0), f) =~= Seq::<&'d str>::empty());
    while i < n
        invariant
            n == items.len(),
            items == node.items@,
            f == item_keys_fn::<'d>(),
            i <= n,
            out@ == flat_keys(items.take(i as int), f),
        decreases n - i,
    {
        proof {
            lemma_flat_keys_step(items, f, i as int);
        }
        push_item_keys(&mut out, &node.items[i]);
        i += 1;
    }
    assert(items.take(n as int) =~= items);
    out
}

/// The first key of the description that names no AST entry, list or
/// builtin token, if there is one.
pub fn unknown_key<'d>(data: &LangData<'d>, node: &Source<'d>) -> (r: Option<&'d str>)
    requires
        data.wf(),
    ensures
        r is None <==> keys_known(*data, source_keys(*node)),
        r matches Some(k) ==> source_keys(*node).contains(k) && !key_known(
            data.ast_data@.dom(),
            data.list_data@.dom(),
            k,
        ),
{
    let keys = description_keys(node);
    let n = keys.len();
    let mut i: usize = 0;
    while i < n
        invariant
            n == keys@.len(),
            keys@ == source_keys(*node),
            data.wf(),
            i <= n,
            forall|j: int| 0 <= j < i ==> key_known(data.ast_data@.dom(), data.list_data@.dom(), #[trigger] keys@[j]),
        decreases n - i,
    {
        let k = keys[i];
        if !(data.ast_data.contains_key(k) || data.list_data.contains_key(k) || is_builtin(k)) {
            assert(keys@[i as int] == k);
            return Some(k);
        }
        i += 1;
    }
    None
}

} // verus!
