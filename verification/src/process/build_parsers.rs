//! Builds the parser rules of the AST entries and lists from the
//! description: a parts rule for every definition, with a part for every
//! token, and a reference rule for every reference.
use vstd::prelude::*;
use crate::strmap::StrMap;
use crate::descr_lang::ast::{
    AstItem, AstMany, AstSingle, Annotation, FuncArg, FuncToken, KeyToken, List, ListItem, ListMany,
    ListSingle, Quoted, Source, SourceItem, Token, TokenType,
};
use crate::lang_data::annotations::{annots_map, parse_annots, AnArgVal, AnnotList};
use crate::lang_data::data::{AstData, LangData, ListData};
use crate::lang_data::typed_part::{auto_member, TypedPart};
use crate::lang_data::rule::{AstPartsRule, AstRule, AstRulePart, AstRuleToken, ListRule, RuleFuncArg};

verus! {

pub struct BuildParsers<'a, 'd> {
    pub data: &'a mut LangData<'d>,
}

pub type AnnotsView<'a> = Map<Seq<char>, Map<Seq<char>, AnArgVal<'a>>>;

/// The annotations of a list, as values.
pub open spec fn annots_view<'a>(a: AnnotList<'a>) -> AnnotsView<'a> {
    a.items@.map_values(|an: crate::lang_data::annotations::Annot<'a>| an.args@)
}

/// A rule token, as values; the parts of a group are left out.
pub enum TokView<'a> {
    Key(&'a str),
    Tag(&'a str),
    Func(&'a str, Seq<&'a str>),
    Group,
}

pub struct PartView<'a> {
    pub token: TokView<'a>,
    pub member_key: Option<&'a str>,
    pub optional: bool,
    pub not: bool,
    pub annots: AnnotsView<'a>,
}

/// A rule, as values.
pub enum RuleView<'a> {
    Parts(&'a str, AnnotsView<'a>, Seq<PartView<'a>>),
    Ref(&'a str),
}

pub open spec fn func_arg_strs<'a>(args: Seq<RuleFuncArg<'a>>) -> Seq<&'a str> {
    args.map_values(
        |a: RuleFuncArg<'a>|
            match a {
                RuleFuncArg::Quoted(s) => s,
            },
    )
}

pub open spec fn part_view<'a>(p: AstRulePart<'a>) -> PartView<'a> {
    PartView {
        token: match p.token {
            AstRuleToken::Key(k) => TokView::Key(k),
            AstRuleToken::Tag(t) => TokView::Tag(t),
            AstRuleToken::Func(f, args) => TokView::Func(f, func_arg_strs(args@)),
            AstRuleToken::Group(..) => TokView::Group,
        },
        member_key: p.member_key,
        optional: p.optional,
        not: p.not,
        annots: annots_view(p.annots),
    }
}

pub open spec fn rule_view<'a>(r: AstRule<'a>) -> RuleView<'a> {
    match r {
        AstRule::PartsRule(pr) => RuleView::Parts(
            pr.ast_type,
            annots_view(pr.annots),
            pr.parts@.map_values(|p: AstRulePart<'a>| part_view(p)),
        ),
        AstRule::RefRule(k) => RuleView::Ref(k),
    }
}

pub open spec fn ast_rules_view<'a>(ad: AstData<'a>) -> Seq<RuleView<'a>> {
    ad.rules@.map_values(|r: AstRule<'a>| rule_view(r))
}

pub open spec fn list_rules_view<'a>(ld: ListData<'a>) -> Seq<(Option<&'a str>, RuleView<'a>)> {
    ld.rules@.map_values(|r: ListRule<'a>| (r.sep, rule_view(r.ast_rule)))
}

/// The quoted strings of a function token's arguments.
pub open spec fn fn_arg_strs<'a>(ft: FuncToken<'a>) -> Seq<&'a str> {
    ft.fn_args@.map_values(
        |a: FuncArg<'a>|
            match a {
                FuncArg::QuotedItem(q) => q.string,
            },
    )
}

pub open spec fn type_tok<'a>(tt: TokenType<'a>) -> TokView<'a> {
    match tt {
        TokenType::KeyTokenItem(KeyToken { key }) => TokView::Key(key),
        TokenType::QuotedItem(Quoted { string }) => TokView::Tag(string),
        TokenType::FuncTokenItem(ft) => TokView::Func(ft.ident, fn_arg_strs(ft)),
    }
}

/// The part a token of a definition becomes: a token without a name is a
/// member only when it is a key of a part that is a member by itself;
/// groups become no part.
pub open spec fn token_part<'a>(tok: Token<'a>, tps: Map<Seq<char>, TypedPart<'a>>) -> Option<PartView<'a>> {
    match tok {
        Token::SimpleTokenItem(st) => Some(
            PartView {
                token: type_tok(st.token_type),
                member_key: match st.token_type {
                    TokenType::KeyTokenItem(KeyToken { key }) => if auto_member(tps[key@]) {
                        Some(key)
                    } else {
                        None
                    },
                    _ => None,
                },
                optional: st.optional,
                not: st.not,
                annots: annots_map(st.annots@, st.annots@.len() as int),
            },
        ),
        Token::NamedTokenItem(nt) => Some(
            PartView {
                token: type_tok(nt.token_type),
                member_key: Some(nt.name),
                optional: nt.optional,
                not: nt.not,
                annots: annots_map(nt.annots@, nt.annots@.len() as int),
            },
        ),
        Token::TokenGroupItem(..) => None,
    }
}

/// The parts of the tokens of a definition, in order.
pub open spec fn token_parts<'a>(toks: Seq<Token<'a>>, tps: Map<Seq<char>, TypedPart<'a>>) -> Seq<PartView<'a>>
    decreases toks.len(),
{
    if toks.len() == 0 {
        Seq::empty()
    } else {
        token_parts(toks.drop_last(), tps) + match token_part(toks.last(), tps) {
            Some(p) => seq![p],
            None => Seq::empty(),
        }
    }
}

/// The parts rule a definition becomes.
pub open spec fn def_rule<'a>(
    name: &'a str,
    annots: AnnotsView<'a>,
    toks: Seq<Token<'a>>,
    tps: Map<Seq<char>, TypedPart<'a>>,
) -> RuleView<'a> {
    RuleView::Parts(name, annots, token_parts(toks, tps))
}

/// Every key token without a name names a typed part.
pub open spec fn tokens_known<'a>(toks: Seq<Token<'a>>, tps: Map<Seq<char>, TypedPart<'a>>) -> bool {
    forall|i: int|
        0 <= i < toks.len() ==> ((#[trigger] toks[i]) matches Token::SimpleTokenItem(st) ==> (
        st.token_type matches TokenType::KeyTokenItem(kt) ==> tps.contains_key(kt.key@)))
}

pub open spec fn annotations_view<'a>(annots: Seq<Annotation<'a>>) -> AnnotsView<'a> {
    annots_map(annots, annots.len() as int)
}

/// The rules an item of the description adds to the AST entry `key`.
pub open spec fn item_ast_rules<'a>(item: SourceItem<'a>, key: Seq<char>, tps: Map<Seq<char>, TypedPart<'a>>) -> Seq<
    RuleView<'a>,
> {
    match item {
        SourceItem::AstSingleItem(node) => if node.ident@ == key {
            seq![def_rule(node.ident, annotations_view(node.annots@), node.tokens@, tps)]
        } else {
            Seq::empty()
        },
        SourceItem::AstManyItem(node) => if node.ident@ == key {
            node.items@.map_values(
                |it: AstItem<'a>|
                    match it {
                        AstItem::AstDefItem(def) => def_rule(
                            match def.ident {
                                Some(i) => i,
                                None => node.ident,
                            },
                            annotations_view(def.annots@),
                            def.tokens@,
                            tps,
                        ),
                        AstItem::AstRefItem(r) => RuleView::Ref(r.ident),
                    },
            )
        } else {
            Seq::empty()
        },
        _ => Seq::empty(),
    }
}

/// The rules an item of the description adds to the list `key`.
pub open spec fn item_list_rules<'a>(item: SourceItem<'a>, key: Seq<char>, tps: Map<Seq<char>, TypedPart<'a>>) -> Seq<
    (Option<&'a str>, RuleView<'a>),
> {
    match item {
        SourceItem::ListItem(List::ListSingleItem(node)) => if node.ident@ == key {
            seq![(None, RuleView::Ref(node.reference))]
        } else {
            Seq::empty()
        },
        SourceItem::ListItem(List::ListManyItem(node)) => if node.ident@ == key {
            node.items@.map_values(
                |it: ListItem<'a>|
                    match it.ast_item {
                        AstItem::AstDefItem(def) => (
                            Some(node.ident),
                            def_rule(
                                match def.ident {
                                    Some(i) => i,
                                    None => node.ident,
                                },
                                annotations_view(def.annots@),
                                def.tokens@,
                                tps,
                            ),
                        ),
                        AstItem::AstRefItem(r) => (it.sep, RuleView::Ref(r.ident)),
                    },
            )
        } else {
            Seq::empty()
        },
        _ => Seq::empty(),
    }
}

pub open spec fn items_ast_rules<'a>(items: Seq<SourceItem<'a>>, key: Seq<char>, tps: Map<Seq<char>, TypedPart<'a>>) -> Seq<
    RuleView<'a>,
>
    decreases items.len(),
{
    if items.len() == 0 {
        Seq::empty()
    } else {
        items_ast_rules(items.drop_last(), key, tps) + item_ast_rules(items.last(), key, tps)
    }
}

pub open spec fn items_list_rules<'a>(items: Seq<SourceItem<'a>>, key: Seq<char>, tps: Map<Seq<char>, TypedPart<'a>>) -> Seq<
    (Option<&'a str>, RuleView<'a>),
>
    decreases items.len(),
{
    if items.len() == 0 {
        Seq::empty()
    } else {
        items_list_rules(items.drop_last(), key, tps) + item_list_rules(items.last(), key, tps)
    }
}

/// An AST entry as it was but for its rules.
pub open spec fn same_entry<'a>(a: AstData<'a>, b: AstData<'a>) -> bool {
    a.key == b.key && a.ast_type == b.ast_type && a.annots == b.annots
}

pub open spec fn same_list<'a>(a: ListData<'a>, b: ListData<'a>) -> bool {
    a.key == b.key && a.ast_type == b.ast_type && a.sep == b.sep && a.annots == b.annots
}

/// The data after rules are added: each AST entry and list has the rules
/// it had, then those given for it; nothing else changes.
pub open spec fn rules_added<'a>(
    d0: LangData<'a>,
    d1: LangData<'a>,
    ast_added: spec_fn(Seq<char>) -> Seq<RuleView<'a>>,
    list_added: spec_fn(Seq<char>) -> Seq<(Option<&'a str>, RuleView<'a>)>,
) -> bool {
    &&& d1.ast_data.wf()
    &&& d1.list_data.wf()
    &&& d1.ast_data@.dom() == d0.ast_data@.dom()
    &&& d1.list_data@.dom() == d0.list_data@.dom()
    &&& forall|k: Seq<char>| #[trigger]
        d0.ast_data@.contains_key(k) ==> same_entry(d0.ast_data@[k], d1.ast_data@[k]) && ast_rules_view(
            d1.ast_data@[k],
        ) == ast_rules_view(d0.ast_data@[k]) + ast_added(k)
    &&& forall|k: Seq<char>| #[trigger]
        d0.list_data@.contains_key(k) ==> same_list(d0.list_data@[k], d1.list_data@[k]) && list_rules_view(
            d1.list_data@[k],
        ) == list_rules_view(d0.list_data@[k]) + list_added(k)
    &&& d1.typed_parts == d0.typed_parts
    &&& d1.ast_structs == d0.ast_structs
    &&& d1.ast_enums == d0.ast_enums
    &&& d1.rule_types == d0.rule_types
    &&& d1.snake_cased == d0.snake_cased
    &&& d1.start_key == d0.start_key
    &&& d1.simple_enums == d0.simple_enums
    &&& d1.simple_structs == d0.simple_structs
    &&& d1.debug == d0.debug
    &&& d1.parent_refs == d0.parent_refs
    &&& d1.name == d0.name
}

pub proof fn lemma_models_view<'a>(a: AnnotList<'a>, m: AnnotsView<'a>)
    requires
        a.models(m),
    ensures
        annots_view(a) == m,
{
    assert(annots_view(a) =~= m);
}

pub proof fn lemma_rules_added_trans<'a>(
    d0: LangData<'a>,
    d1: LangData<'a>,
    d2: LangData<'a>,
    f1: spec_fn(Seq<char>) -> Seq<RuleView<'a>>,
    g1: spec_fn(Seq<char>) -> Seq<(Option<&'a str>, RuleView<'a>)>,
    f2: spec_fn(Seq<char>) -> Seq<RuleView<'a>>,
    g2: spec_fn(Seq<char>) -> Seq<(Option<&'a str>, RuleView<'a>)>,
)
    requires
        rules_added(d0, d1, f1, g1),
        rules_added(d1, d2, f2, g2),
    ensures
        rules_added(d0, d2, |k: Seq<char>| f1(k) + f2(k), |k: Seq<char>| g1(k) + g2(k)),
{
    assert forall|k: Seq<char>| #[trigger] d0.ast_data@.contains_key(k) implies same_entry(d0.ast_data@[k], d2.ast_data@[k])
        && ast_rules_view(d2.ast_data@[k]) == ast_rules_view(d0.ast_data@[k]) + (f1(k) + f2(k)) by {
        assert(d1.ast_data@.contains_key(k));
        assert(ast_rules_view(d0.ast_data@[k]) + f1(k) + f2(k) =~= ast_rules_view(d0.ast_data@[k]) + (f1(k) + f2(k)));
    }
    assert forall|k: Seq<char>| #[trigger] d0.list_data@.contains_key(k) implies same_list(d0.list_data@[k], d2.list_data@[k])
        && list_rules_view(d2.list_data@[k]) == list_rules_view(d0.list_data@[k]) + (g1(k) + g2(k)) by {
        assert(d1.list_data@.contains_key(k));
        assert(list_rules_view(d0.list_data@[k]) + g1(k) + g2(k) =~= list_rules_view(d0.list_data@[k]) + (g1(k) + g2(k)));
    }
}

pub open spec fn no_rules<'a>() -> spec_fn(Seq<char>) -> Seq<RuleView<'a>> {
    |k: Seq<char>| Seq::<RuleView<'a>>::empty()
}

pub open spec fn no_list_rules<'a>() -> spec_fn(Seq<char>) -> Seq<(Option<&'a str>, RuleView<'a>)> {
    |k: Seq<char>| Seq::<(Option<&'a str>, RuleView<'a>)>::empty()
}

/// The part a token becomes, computed.
fn make_part<'d>(token: &Token<'d>, typed_parts: &StrMap<&'d str, TypedPart<'d>>) -> (r: Option<AstRulePart<'d>>)
    requires
        typed_parts.wf(),
        *token matches Token::SimpleTokenItem(st) ==> (st.token_type matches TokenType::KeyTokenItem(kt)
            ==> typed_parts@.contains_key(kt.key@)),
    ensures
        match r {
            Some(p) => token_part(*token, typed_parts@) == Some(part_view(p)),
            None => token_part(*token, typed_parts@) is None,
        },
{
    match token {
        Token::SimpleTokenItem(simple_token) => {
            let (token_type, member_key) = match &simple_token.token_type {
                TokenType::KeyTokenItem(KeyToken { key }) => {
                    let auto = match typed_parts.get(key) {
                        Some(tp) => tp.is_auto_member(),
                        None => {
                            assert(false);
                            false
                        },
                    };
                    (AstRuleToken::Key(key), if auto {
                        Some(*key)
                    } else {
                        None
                    })
                },
                TokenType::QuotedItem(Quoted { string }) => (AstRuleToken::Tag(string), None),
                TokenType::FuncTokenItem(func_token) => (AstRuleToken::parse_func_token(func_token), None),
            };
            let annots = parse_annots(&simple_token.annots);
            let p = AstRulePart { token: token_type, member_key, optional: simple_token.optional, not: simple_token.not, annots };
            proof {
                lemma_models_view(p.annots, annots_map(simple_token.annots@, simple_token.annots@.len() as int));
                if simple_token.token_type is FuncTokenItem {
                    assert(func_arg_strs(p.token->Func_1@) =~= fn_arg_strs(simple_token.token_type->FuncTokenItem_0));
                }
            }
            Some(p)
        },
        Token::NamedTokenItem(named_token) => {
            let token_type = match &named_token.token_type {
                TokenType::KeyTokenItem(KeyToken { key }) => AstRuleToken::Key(key),
                TokenType::QuotedItem(Quoted { string }) => AstRuleToken::Tag(string),
                TokenType::FuncTokenItem(func_token) => AstRuleToken::parse_func_token(func_token),
            };
            let annots = parse_annots(&named_token.annots);
            let p = AstRulePart {
                token: token_type,
                member_key: Some(named_token.name),
                optional: named_token.optional,
                not: named_token.not,
                annots,
            };
            proof {
                lemma_models_view(p.annots, annots_map(named_token.annots@, named_token.annots@.len() as int));
                if named_token.token_type is FuncTokenItem {
                    assert(func_arg_strs(p.token->Func_1@) =~= fn_arg_strs(named_token.token_type->FuncTokenItem_0));
                }
            }
            Some(p)
        },
        Token::TokenGroupItem(..) => None,
    }
}

/// The parts rule of a definition.
fn make_rule<'d>(
    name: &'d str,
    token_list: &Vec<Token<'d>>,
    annots: AnnotList<'d>,
    typed_parts: &StrMap<&'d str, TypedPart<'d>>,
) -> (r: AstPartsRule<'d>)
    requires
        typed_parts.wf(),
        tokens_known(token_list@, typed_parts@),
    ensures
        rule_view(AstRule::PartsRule(r)) == def_rule(name, annots_view(annots), token_list@, typed_parts@),
{
    let mut rule = AstPartsRule::new(name, annots);
    let n = token_list.len();
    let mut i: usize = 0;
    while i < n
        invariant
            n == token_list@.len(),
            i <= n,
            typed_parts.wf(),
            tokens_known(token_list@, typed_parts@),
            rule.ast_type == name,
            rule.annots == annots,
            rule.parts@.map_values(|p: AstRulePart<'d>| part_view(p)) == token_parts(token_list@.take(i as int), typed_parts@),
        decreases n - i,
    {
        assert(token_list@.take(i + 1).drop_last() =~= token_list@.take(i as int));
        let ghost before = rule.parts@;
        match make_part(&token_list[i], typed_parts) {
            Some(part) => {
                rule.parts.push(part);
                assert(rule.parts@.map_values(|p: AstRulePart<'d>| part_view(p)) =~= before.map_values(|p: AstRulePart<'d>| part_view(p)).push(part_view(part)));
            },
            None => {},
        }
        i += 1;
    }
    assert(token_list@.take(n as int) =~= token_list@);
    rule
}

impl<'a, 'd> BuildParsers<'a, 'd> {
    pub fn new(data: &'a mut LangData<'d>) -> (r: BuildParsers<'a, 'd>)
        ensures
            *r.data == *old(data),
            *final(r.data) == *final(data),
    {
        BuildParsers { data }
    }

    /// Adds a parts rule named `name` to the AST entry or list `ident`,
    /// with a part for each token that is not a group.
    pub fn add_tokens_to_rule(
        &mut self,
        is_ast: bool,
        ident: &'d str,
        name: &'d str,
        token_list: &Vec<Token<'d>>,
        annots: AnnotList<'d>,
    )
        requires
            old(self).data.wf(),
            is_ast ==> old(self).data.ast_data@.contains_key(ident@),
            !is_ast ==> old(self).data.list_data@.contains_key(ident@),
            tokens_known(token_list@, old(self).data.typed_parts@),
        ensures
            final(self).data.wf(),
            rules_added(
                *old(self).data,
                *final(self).data,
                |k: Seq<char>| if is_ast && k == ident@ {
                    seq![def_rule(name, annots_view(annots), token_list@, old(self).data.typed_parts@)]
                } else {
                    Seq::empty()
                },
                |k: Seq<char>| if !is_ast && k == ident@ {
                    seq![(Some(ident), def_rule(name, annots_view(annots), token_list@, old(self).data.typed_parts@))]
                } else {
                    Seq::empty()
                },
            ),
    {
        let ghost d0 = *self.data;
        let ghost av = annots_view(annots);
        let rule = make_rule(name, token_list, annots, &self.data.typed_parts);
        if is_ast {
            let i = match self.data.ast_data.index_of(ident) {
                Some(i) => i,
                None => {
                    assert(false);
                    0
                },
            };
            proof {
                d0.ast_data.lemma_idx(i as int);
            }
            let ghost old_ad = d0.ast_data.vals@[i as int];
            let ad = self.data.ast_data.val_at_mut(i);
            ad.rules.push(AstRule::PartsRule(rule));
            proof {
                d0.ast_data.lemma_update_at(self.data.ast_data, i as int);
                let k = ident@;
                assert(self.data.ast_data@.dom() =~= d0.ast_data@.dom());
                assert(ast_rules_view(self.data.ast_data@[k]) =~= ast_rules_view(d0.ast_data@[k]) + seq![def_rule(name, av, token_list@, d0.typed_parts@)]);
                assert(self.data.list_data@ =~= d0.list_data@);
                assert forall|k: Seq<char>| #[trigger] d0.list_data@.contains_key(k) implies list_rules_view(self.data.list_data@[k])
                    == list_rules_view(d0.list_data@[k]) + Seq::<(Option<&'d str>, RuleView<'d>)>::empty() by {
                    assert(list_rules_view(d0.list_data@[k]) + Seq::<(Option<&'d str>, RuleView<'d>)>::empty() =~= list_rules_view(d0.list_data@[k]));
                }
                assert forall|kk: Seq<char>| #[trigger] d0.ast_data@.contains_key(kk) && kk != k implies ast_rules_view(self.data.ast_data@[kk])
                    == ast_rules_view(d0.ast_data@[kk]) + Seq::<RuleView<'d>>::empty() by {
                    assert(ast_rules_view(d0.ast_data@[kk]) + Seq::<RuleView<'d>>::empty() =~= ast_rules_view(d0.ast_data@[kk]));
                }
            }
        } else {
            let i = match self.data.list_data.index_of(ident) {
                Some(i) => i,
                None => {
                    assert(false);
                    0
                },
            };
            proof {
                d0.list_data.lemma_idx(i as int);
            }
            let ld = self.data.list_data.val_at_mut(i);
            ld.rules.push(ListRule::new(Some(ident), AstRule::PartsRule(rule)));
            proof {
                d0.list_data.lemma_update_at(self.data.list_data, i as int);
                let k = ident@;
                assert(self.data.list_data@.dom() =~= d0.list_data@.dom());
                assert(list_rules_view(self.data.list_data@[k]) =~= list_rules_view(d0.list_data@[k]) + seq![(Some(ident), def_rule(name, av, token_list@, d0.typed_parts@))]);
                assert(self.data.ast_data@ =~= d0.ast_data@);
                assert forall|k: Seq<char>| #[trigger] d0.ast_data@.contains_key(k) implies ast_rules_view(self.data.ast_data@[k])
                    == ast_rules_view(d0.ast_data@[k]) + Seq::<RuleView<'d>>::empty() by {
                    assert(ast_rules_view(d0.ast_data@[k]) + Seq::<RuleView<'d>>::empty() =~= ast_rules_view(d0.ast_data@[k]));
                }
                assert forall|kk: Seq<char>| #[trigger] d0.list_data@.contains_key(kk) && kk != k implies list_rules_view(self.data.list_data@[kk])
                    == list_rules_view(d0.list_data@[kk]) + Seq::<(Option<&'d str>, RuleView<'d>)>::empty() by {
                    assert(list_rules_view(d0.list_data@[kk]) + Seq::<(Option<&'d str>, RuleView<'d>)>::empty() =~= list_rules_view(d0.list_data@[kk]));
                }
            }
        }
    }
}

/// The rules the first `j` items of an AST entry with alternatives add.
pub open spec fn many_rules<'a>(node: AstMany<'a>, j: int, tps: Map<Seq<char>, TypedPart<'a>>) -> Seq<RuleView<'a>> {
    node.items@.take(j).map_values(
        |it: AstItem<'a>|
            match it {
                AstItem::AstDefItem(def) => def_rule(
                    match def.ident {
                        Some(i) => i,
                        None => node.ident,
                    },
                    annotations_view(def.annots@),
                    def.tokens@,
                    tps,
                ),
                AstItem::AstRefItem(r) => RuleView::Ref(r.ident),
            },
    )
}

/// The rules the first `j` items of a list with alternatives add.
pub open spec fn list_many_rules<'a>(node: ListMany<'a>, j: int, tps: Map<Seq<char>, TypedPart<'a>>) -> Seq<
    (Option<&'a str>, RuleView<'a>),
> {
    node.items@.take(j).map_values(
        |it: ListItem<'a>|
            match it.ast_item {
                AstItem::AstDefItem(def) => (
                    Some(node.ident),
                    def_rule(
                        match def.ident {
                            Some(i) => i,
                            None => node.ident,
                        },
                        annotations_view(def.annots@),
                        def.tokens@,
                        tps,
                    ),
                ),
                AstItem::AstRefItem(r) => (it.sep, RuleView::Ref(r.ident)),
            },
    )
}

/// Every definition of an item names known keys.
pub open spec fn item_tokens_known<'a>(item: SourceItem<'a>, tps: Map<Seq<char>, TypedPart<'a>>) -> bool {
    match item {
        SourceItem::AstSingleItem(node) => tokens_known(node.tokens@, tps),
        SourceItem::AstManyItem(node) => forall|j: int|
            0 <= j < node.items@.len() ==> ((#[trigger] node.items@[j]) matches AstItem::AstDefItem(def)
                ==> tokens_known(def.tokens@, tps)),
        SourceItem::ListItem(List::ListManyItem(node)) => forall|j: int|
            0 <= j < node.items@.len() ==> ((#[trigger] node.items@[j]).ast_item matches AstItem::AstDefItem(def)
                ==> tokens_known(def.tokens@, tps)),
        _ => true,
    }
}

/// The entry or list an item adds rules to is known.
pub open spec fn item_target_known<'a>(item: SourceItem<'a>, d: LangData<'a>) -> bool {
    match item {
        SourceItem::AstSingleItem(node) => d.ast_data@.contains_key(node.ident@),
        SourceItem::AstManyItem(node) => d.ast_data@.contains_key(node.ident@),
        SourceItem::ListItem(List::ListSingleItem(node)) => d.list_data@.contains_key(node.ident@),
        SourceItem::ListItem(List::ListManyItem(node)) => d.list_data@.contains_key(node.ident@),
        _ => true,
    }
}

impl<'a, 'd> BuildParsers<'a, 'd> {
    /// Adds a reference rule to the AST entry or list `ident`.
    fn add_ref_rule(&mut self, is_ast: bool, ident: &'d str, sep: Option<&'d str>, reference: &'d str)
        requires
            old(self).data.wf(),
            is_ast ==> old(self).data.ast_data@.contains_key(ident@),
            !is_ast ==> old(self).data.list_data@.contains_key(ident@),
        ensures
            final(self).data.wf(),
            rules_added(
                *old(self).data,
                *final(self).data,
                |k: Seq<char>| if is_ast && k == ident@ {
                    seq![RuleView::Ref(reference)]
                } else {
                    Seq::empty()
                },
                |k: Seq<char>| if !is_ast && k == ident@ {
                    seq![(sep, RuleView::Ref(reference))]
                } else {
                    Seq::empty()
                },
            ),
    {
        let ghost d0 = *self.data;
        if is_ast {
            let i = match self.data.ast_data.index_of(ident) {
                Some(i) => i,
                None => {
                    assert(false);
                    0
                },
            };
            proof {
                d0.ast_data.lemma_idx(i as int);
            }
            let ad = self.data.ast_data.val_at_mut(i);
            ad.rules.push(AstRule::RefRule(reference));
            proof {
                d0.ast_data.lemma_update_at(self.data.ast_data, i as int);
                let k = ident@;
                assert(self.data.ast_data@.dom() =~= d0.ast_data@.dom());
                assert(ast_rules_view(self.data.ast_data@[k]) =~= ast_rules_view(d0.ast_data@[k]) + seq![RuleView::Ref(reference)]);
                assert(self.data.list_data@ =~= d0.list_data@);
                assert forall|k: Seq<char>| #[trigger] d0.list_data@.contains_key(k) implies list_rules_view(self.data.list_data@[k])
                    == list_rules_view(d0.list_data@[k]) + Seq::<(Option<&'d str>, RuleView<'d>)>::empty() by {
                    assert(list_rules_view(d0.list_data@[k]) + Seq::<(Option<&'d str>, RuleView<'d>)>::empty() =~= list_rules_view(d0.list_data@[k]));
                }
                assert forall|kk: Seq<char>| #[trigger] d0.ast_data@.contains_key(kk) && kk != k implies ast_rules_view(self.data.ast_data@[kk])
                    == ast_rules_view(d0.ast_data@[kk]) + Seq::<RuleView<'d>>::empty() by {
                    assert(ast_rules_view(d0.ast_data@[kk]) + Seq::<RuleView<'d>>::empty() =~= ast_rules_view(d0.ast_data@[kk]));
                }
            }
        } else {
            let i = match self.data.list_data.index_of(ident) {
                Some(i) => i,
                None => {
                    assert(false);
                    0
                },
            };
            proof {
                d0.list_data.lemma_idx(i as int);
            }
            let ld = self.data.list_data.val_at_mut(i);
            ld.rules.push(ListRule::new(sep, AstRule::RefRule(reference)));
            proof {
                d0.list_data.lemma_update_at(self.data.list_data, i as int);
                let k = ident@;
                assert(self.data.list_data@.dom() =~= d0.list_data@.dom());
                assert(list_rules_view(self.data.list_data@[k]) =~= list_rules_view(d0.list_data@[k]) + seq![(sep, RuleView::Ref(reference))]);
                assert(self.data.ast_data@ =~= d0.ast_data@);
                assert forall|k: Seq<char>| #[trigger] d0.ast_data@.contains_key(k) implies ast_rules_view(self.data.ast_data@[k])
                    == ast_rules_view(d0.ast_data@[k]) + Seq::<RuleView<'d>>::empty() by {
                    assert(ast_rules_view(d0.ast_data@[k]) + Seq::<RuleView<'d>>::empty() =~= ast_rules_view(d0.ast_data@[k]));
                }
                assert forall|kk: Seq<char>| #[trigger] d0.list_data@.contains_key(kk) && kk != k implies list_rules_view(self.data.list_data@[kk])
                    == list_rules_view(d0.list_data@[kk]) + Seq::<(Option<&'d str>, RuleView<'d>)>::empty() by {
                    assert(list_rules_view(d0.list_data@[kk]) + Seq::<(Option<&'d str>, RuleView<'d>)>::empty() =~= list_rules_view(d0.list_data@[kk]));
                }
            }
        }
    }

    pub fn visit_ast_single(&mut self, node: &AstSingle<'d>)
        requires
            old(self).data.wf(),
            old(self).data.ast_data@.contains_key(node.ident@),
            tokens_known(node.tokens@, old(self).data.typed_parts@),
        ensures
            final(self).data.wf(),
            rules_added(
                *old(self).data,
                *final(self).data,
                |k: Seq<char>| item_ast_rules(SourceItem::AstSingleItem(*node), k, old(self).data.typed_parts@),
                |k: Seq<char>| item_list_rules(SourceItem::AstSingleItem(*node), k, old(self).data.typed_parts@),
            ),
    {
        let annots = parse_annots(&node.annots);
        proof {
            lemma_models_view(annots, annotations_view(node.annots@));
        }
        self.add_tokens_to_rule(true, node.ident, node.ident, &node.tokens, annots);
    }

    pub fn visit_ast_many(&mut self, node: &AstMany<'d>)
        requires
            old(self).data.wf(),
            old(self).data.ast_data@.contains_key(node.ident@),
            item_tokens_known(SourceItem::AstManyItem(*node), old(self).data.typed_parts@),
        ensures
            final(self).data.wf(),
            rules_added(
                *old(self).data,
                *final(self).data,
                |k: Seq<char>| item_ast_rules(SourceItem::AstManyItem(*node), k, old(self).data.typed_parts@),
                |k: Seq<char>| item_list_rules(SourceItem::AstManyItem(*node), k, old(self).data.typed_parts@),
            ),
    {
        let ghost d0 = *self.data;
        let ghost tps = d0.typed_parts@;
        let n = node.items.len();
        let mut j: usize = 0;
        proof {
            assert(rules_added(d0, d0, |k: Seq<char>| if k == node.ident@ { many_rules(*node, 0, tps) } else { Seq::empty() }, no_list_rules())) by {
                assert forall|k: Seq<char>| #[trigger] d0.ast_data@.contains_key(k) implies same_entry(d0.ast_data@[k], d0.ast_data@[k]) && ast_rules_view(d0.ast_data@[k]) == ast_rules_view(d0.ast_data@[k]) + (if k == node.ident@ { many_rules(*node, 0, tps) } else { Seq::empty() }) by {
                    assert(ast_rules_view(d0.ast_data@[k]) =~= ast_rules_view(d0.ast_data@[k]) + (if k == node.ident@ { many_rules(*node, 0, tps) } else { Seq::<RuleView<'d>>::empty() }));
                }
                assert forall|k: Seq<char>| #[trigger] d0.list_data@.contains_key(k) implies same_list(d0.list_data@[k], d0.list_data@[k]) && list_rules_view(d0.list_data@[k]) == list_rules_view(d0.list_data@[k]) + no_list_rules()(k) by {
                    assert(list_rules_view(d0.list_data@[k]) =~= list_rules_view(d0.list_data@[k]) + no_list_rules::<'d>()(k));
                }
            }
        }
        while j < n
            invariant
                n == node.items@.len(),
                j <= n,
                tps == d0.typed_parts@,
                self.data.wf(),
                self.data.typed_parts@ == tps,
                self.data.ast_data@.contains_key(node.ident@),
                item_tokens_known(SourceItem::AstManyItem(*node), tps),
                rules_added(d0, *self.data, |k: Seq<char>| if k == node.ident@ { many_rules(*node, j as int, tps) } else { Seq::empty() }, no_list_rules()),
            decreases n - j,
        {
            let ghost before = *self.data;
            let ghost r = match node.items@[j as int] {
                AstItem::AstDefItem(def) => def_rule(
                    match def.ident {
                        Some(i) => i,
                        None => node.ident,
                    },
                    annotations_view(def.annots@),
                    def.tokens@,
                    tps,
                ),
                AstItem::AstRefItem(rr) => RuleView::Ref(rr.ident),
            };
            match &node.items[j] {
                AstItem::AstDefItem(def) => {
                    let name = match def.ident {
                        Some(i) => i,
                        None => node.ident,
                    };
                    let annots = parse_annots(&def.annots);
                    proof {
                        lemma_models_view(annots, annotations_view(def.annots@));
                    }
                    self.add_tokens_to_rule(true, node.ident, name, &def.tokens, annots);
                },
                AstItem::AstRefItem(ast_ref) => {
                    self.add_ref_rule(true, node.ident, None, ast_ref.ident);
                },
            }
            proof {
                let f1 = |k: Seq<char>| if k == node.ident@ { many_rules(*node, j as int, tps) } else { Seq::empty() };
                let f2 = |k: Seq<char>| if k == node.ident@ { seq![r] } else { Seq::<RuleView<'d>>::empty() };
                lemma_rules_added_trans(d0, before, *self.data, f1, no_list_rules(), f2, no_list_rules());
                assert(many_rules(*node, j + 1, tps) =~= many_rules(*node, j as int, tps).push(r));
                assert forall|k: Seq<char>| #[trigger] (f1(k) + f2(k)) == (if k == node.ident@ { many_rules(*node, j + 1, tps) } else { Seq::<RuleView<'d>>::empty() }) by {
                    assert(Seq::<RuleView<'d>>::empty() + Seq::<RuleView<'d>>::empty() =~= Seq::<RuleView<'d>>::empty());
                }
                assert forall|k: Seq<char>| #[trigger] (no_list_rules::<'d>()(k) + no_list_rules::<'d>()(k)) == no_list_rules::<'d>()(k) by {
                    assert(Seq::<(Option<&'d str>, RuleView<'d>)>::empty() + Seq::<(Option<&'d str>, RuleView<'d>)>::empty() =~= Seq::<(Option<&'d str>, RuleView<'d>)>::empty());
                }
            }
            j += 1;
        }
        proof {
            assert(node.items@.take(n as int) =~= node.items@);
        }
    }
}


/// Adding nothing leaves the data as it was.
pub proof fn lemma_rules_added_refl<'a>(d: LangData<'a>)
    requires
        d.ast_data.wf(),
        d.list_data.wf(),
    ensures
        rules_added(d, d, no_rules(), no_list_rules()),
{
    assert forall|k: Seq<char>| #[trigger] d.ast_data@.contains_key(k) implies same_entry(d.ast_data@[k], d.ast_data@[k])
        && ast_rules_view(d.ast_data@[k]) == ast_rules_view(d.ast_data@[k]) + no_rules::<'a>()(k) by {
        assert(ast_rules_view(d.ast_data@[k]) =~= ast_rules_view(d.ast_data@[k]) + no_rules::<'a>()(k));
    }
    assert forall|k: Seq<char>| #[trigger] d.list_data@.contains_key(k) implies same_list(d.list_data@[k], d.list_data@[k])
        && list_rules_view(d.list_data@[k]) == list_rules_view(d.list_data@[k]) + no_list_rules::<'a>()(k) by {
        assert(list_rules_view(d.list_data@[k]) =~= list_rules_view(d.list_data@[k]) + no_list_rules::<'a>()(k));
    }
}

impl<'a, 'd> BuildParsers<'a, 'd> {
    pub fn visit_list_single(&mut self, node: &ListSingle<'d>)
        requires
            old(self).data.wf(),
            old(self).data.list_data@.contains_key(node.ident@),
        ensures
            final(self).data.wf(),
            rules_added(
                *old(self).data,
                *final(self).data,
                |k: Seq<char>| item_ast_rules(SourceItem::ListItem(List::ListSingleItem(*node)), k, old(self).data.typed_parts@),
                |k: Seq<char>| item_list_rules(SourceItem::ListItem(List::ListSingleItem(*node)), k, old(self).data.typed_parts@),
            ),
    {
        self.add_ref_rule(false, node.ident, None, node.reference);
    }

    pub fn visit_list_many(&mut self, node: &ListMany<'d>)
        requires
            old(self).data.wf(),
            old(self).data.list_data@.contains_key(node.ident@),
            item_tokens_known(SourceItem::ListItem(List::ListManyItem(*node)), old(self).data.typed_parts@),
        ensures
            final(self).data.wf(),
            rules_added(
                *old(self).data,
                *final(self).data,
                |k: Seq<char>| item_ast_rules(SourceItem::ListItem(List::ListManyItem(*node)), k, old(self).data.typed_parts@),
                |k: Seq<char>| item_list_rules(SourceItem::ListItem(List::ListManyItem(*node)), k, old(self).data.typed_parts@),
            ),
    {
        let ghost d0 = *self.data;
        let ghost tps = d0.typed_parts@;
        let n = node.items.len();
        let mut j: usize = 0;
        proof {
            lemma_rules_added_refl(d0);
            assert forall|k: Seq<char>| #[trigger] no_list_rules::<'d>()(k) == (if k == node.ident@ { list_many_rules(*node, 0, tps) } else { Seq::empty() }) by {
                assert(list_many_rules(*node, 0, tps) =~= Seq::<(Option<&'d str>, RuleView<'d>)>::empty());
            }
        }
        while j < n
            invariant
                n == node.items@.len(),
                j <= n,
                tps == d0.typed_parts@,
                self.data.wf(),
                self.data.typed_parts@ == tps,
                self.data.list_data@.contains_key(node.ident@),
                item_tokens_known(SourceItem::ListItem(List::ListManyItem(*node)), tps),
                rules_added(d0, *self.data, no_rules(), |k: Seq<char>| if k == node.ident@ { list_many_rules(*node, j as int, tps) } else { Seq::empty() }),
            decreases n - j,
        {
            let ghost before = *self.data;
            let ghost r = match node.items@[j as int].ast_item {
                AstItem::AstDefItem(def) => (
                    Some(node.ident),
                    def_rule(
                        match def.ident {
                            Some(i) => i,
                            None => node.ident,
                        },
                        annotations_view(def.annots@),
                        def.tokens@,
                        tps,
                    ),
                ),
                AstItem::AstRefItem(rr) => (node.items@[j as int].sep, RuleView::Ref(rr.ident)),
            };
            let item = &node.items[j];
            match &item.ast_item {
                AstItem::AstDefItem(def) => {
                    let name = match def.ident {
                        Some(i) => i,
                        None => node.ident,
                    };
                    let annots = parse_annots(&def.annots);
                    proof {
                        lemma_models_view(annots, annotations_view(def.annots@));
                    }
                    self.add_tokens_to_rule(false, node.ident, name, &def.tokens, annots);
                },
                AstItem::AstRefItem(ast_ref) => {
                    self.add_ref_rule(false, node.ident, item.sep, ast_ref.ident);
                },
            }
            proof {
                let g1 = |k: Seq<char>| if k == node.ident@ { list_many_rules(*node, j as int, tps) } else { Seq::empty() };
                let g2 = |k: Seq<char>| if k == node.ident@ { seq![r] } else { Seq::<(Option<&'d str>, RuleView<'d>)>::empty() };
                lemma_rules_added_trans(d0, before, *self.data, no_rules(), g1, no_rules(), g2);
                assert(list_many_rules(*node, j + 1, tps) =~= list_many_rules(*node, j as int, tps).push(r));
                assert forall|k: Seq<char>| #[trigger] (g1(k) + g2(k)) == (if k == node.ident@ { list_many_rules(*node, j + 1, tps) } else { Seq::<(Option<&'d str>, RuleView<'d>)>::empty() }) by {
                    assert(Seq::<(Option<&'d str>, RuleView<'d>)>::empty() + Seq::<(Option<&'d str>, RuleView<'d>)>::empty() =~= Seq::<(Option<&'d str>, RuleView<'d>)>::empty());
                }
                assert forall|k: Seq<char>| #[trigger] (no_rules::<'d>()(k) + no_rules::<'d>()(k)) == no_rules::<'d>()(k) by {
                    assert(Seq::<RuleView<'d>>::empty() + Seq::<RuleView<'d>>::empty() =~= Seq::<RuleView<'d>>::empty());
                }
            }
            j += 1;
        }
        proof {
            assert(node.items@.take(n as int) =~= node.items@);
        }
    }
}

/// Every item of the description names known keys and adds rules to
/// known entries and lists.
pub open spec fn source_known<'a>(items: Seq<SourceItem<'a>>, d: LangData<'a>) -> bool {
    forall|i: int|
        0 <= i < items.len() ==> item_tokens_known(#[trigger] items[i], d.typed_parts@) && item_target_known(
            items[i],
            d,
        )
}

impl<'a, 'd> BuildParsers<'a, 'd> {
    pub fn visit_source_item(&mut self, item: &SourceItem<'d>)
        requires
            old(self).data.wf(),
            item_tokens_known(*item, old(self).data.typed_parts@),
            item_target_known(*item, *old(self).data),
        ensures
            final(self).data.wf(),
            rules_added(
                *old(self).data,
                *final(self).data,
                |k: Seq<char>| item_ast_rules(*item, k, old(self).data.typed_parts@),
                |k: Seq<char>| item_list_rules(*item, k, old(self).data.typed_parts@),
            ),
    {
        match item {
            SourceItem::AstSingleItem(node) => self.visit_ast_single(node),
            SourceItem::AstManyItem(node) => self.visit_ast_many(node),
            SourceItem::ListItem(List::ListSingleItem(node)) => self.visit_list_single(node),
            SourceItem::ListItem(List::ListManyItem(node)) => self.visit_list_many(node),
            SourceItem::CommentItem(..) => {
                proof {
                    lemma_rules_added_refl(*self.data);
                    assert forall|k: Seq<char>| #[trigger] item_ast_rules(*item, k, self.data.typed_parts@) == no_rules::<'d>()(k) by {}
                    assert forall|k: Seq<char>| #[trigger] item_list_rules(*item, k, self.data.typed_parts@) == no_list_rules::<'d>()(k) by {}
                }
            },
        }
    }

    /// Adds the rules of every item of the description, in order.
    pub fn visit_source(&mut self, node: &Source<'d>)
        requires
            old(self).data.wf(),
            source_known(node.items@, *old(self).data),
        ensures
            final(self).data.wf(),
            rules_added(
                *old(self).data,
                *final(self).data,
                |k: Seq<char>| items_ast_rules(node.items@, k, old(self).data.typed_parts@),
                |k: Seq<char>| items_list_rules(node.items@, k, old(self).data.typed_parts@),
            ),
    {
        let ghost d0 = *self.data;
        let ghost tps = d0.typed_parts@;
        let ghost items = node.items@;
        let n = node.items.len();
        let mut i: usize = 0;
        proof {
            lemma_rules_added_refl(d0);
            assert forall|k: Seq<char>| #[trigger] no_rules::<'d>()(k) == items_ast_rules(items.take(0), k, tps) by {}
            assert forall|k: Seq<char>| #[trigger] no_list_rules::<'d>()(k) == items_list_rules(items.take(0), k, tps) by {}
        }
        while i < n
            invariant
                n == items.len(),
                items == node.items@,
                i <= n,
                tps == d0.typed_parts@,
                self.data.wf(),
                self.data.typed_parts@ == tps,
                self.data.ast_data@.dom() == d0.ast_data@.dom(),
                self.data.list_data@.dom() == d0.list_data@.dom(),
                source_known(items, d0),
                rules_added(
                    d0,
                    *self.data,
                    |k: Seq<char>| items_ast_rules(items.take(i as int), k, tps),
                    |k: Seq<char>| items_list_rules(items.take(i as int), k, tps),
                ),
            decreases n - i,
        {
            let ghost before = *self.data;
            let ghost it = items[i as int];
            assert(item_tokens_known(it, tps) && item_target_known(it, d0));
            assert(item_target_known(it, before));
            self.visit_source_item(&node.items[i]);
            proof {
                let f1 = |k: Seq<char>| items_ast_rules(items.take(i as int), k, tps);
                let g1 = |k: Seq<char>| items_list_rules(items.take(i as int), k, tps);
                let f2 = |k: Seq<char>| item_ast_rules(it, k, tps);
                let g2 = |k: Seq<char>| item_list_rules(it, k, tps);
                lemma_rules_added_trans(d0, before, *self.data, f1, g1, f2, g2);
                assert(items.take(i + 1).drop_last() =~= items.take(i as int));
                assert forall|k: Seq<char>| #[trigger] (f1(k) + f2(k)) == items_ast_rules(items.take(i + 1), k, tps) by {}
                assert forall|k: Seq<char>| #[trigger] (g1(k) + g2(k)) == items_list_rules(items.take(i + 1), k, tps) by {}
            }
            i += 1;
        }
        proof {
            assert(items.take(n as int) =~= items);
        }
    }
}

fn tokens_ok<'d>(toks: &Vec<Token<'d>>, tps: &StrMap<&'d str, TypedPart<'d>>) -> (r: bool)
    requires
        tps.wf(),
    ensures
        r == tokens_known(toks@, tps@),
{
    let n = toks.len();
    let mut i: usize = 0;
    while i < n
        invariant
            n == toks@.len(),
            tps.wf(),
            i <= n,
            forall|j: int|
                0 <= j < i ==> ((#[trigger] toks@[j]) matches Token::SimpleTokenItem(st) ==> (
                st.token_type matches TokenType::KeyTokenItem(kt) ==> tps@.contains_key(kt.key@))),
        decreases n - i,
    {
        if let Token::SimpleTokenItem(st) = &toks[i] {
            if let TokenType::KeyTokenItem(kt) = &st.token_type {
                if !tps.contains_key(kt.key) {
                    assert(toks@[i as int] matches Token::SimpleTokenItem(st2) && st2.token_type matches TokenType::KeyTokenItem(
                        kt2,
                    ) && !tps@.contains_key(kt2.key@));
                    return false;
                }
            }
        }
        i += 1;
    }
    true
}

fn item_ok<'d>(item: &SourceItem<'d>, data: &LangData<'d>) -> (r: bool)
    requires
        data.wf(),
    ensures
        r == (item_tokens_known(*item, data.typed_parts@) && item_target_known(*item, *data)),
{
    match item {
        SourceItem::AstSingleItem(node) => data.ast_data.contains_key(node.ident) && tokens_ok(
            &node.tokens,
            &data.typed_parts,
        ),
        SourceItem::AstManyItem(node) => {
            if !data.ast_data.contains_key(node.ident) {
                return false;
            }
            let n = node.items.len();
            let mut j: usize = 0;
            while j < n
                invariant
                    n == node.items@.len(),
                    *item == SourceItem::AstManyItem(*node),
                    data.wf(),
                    j <= n,
                    forall|k: int|
                        0 <= k < j ==> ((#[trigger] node.items@[k]) matches AstItem::AstDefItem(def) ==> tokens_known(
                            def.tokens@,
                            data.typed_parts@,
                        )),
                decreases n - j,
            {
                if let AstItem::AstDefItem(def) = &node.items[j] {
                    if !tokens_ok(&def.tokens, &data.typed_parts) {
                        assert(node.items@[j as int] matches AstItem::AstDefItem(d2) && !tokens_known(d2.tokens@, data.typed_parts@));
                        proof {
                            if item_tokens_known(*item, data.typed_parts@) {
                                assert(*item == SourceItem::AstManyItem(*node));
                                assert(node.items@[j as int] matches AstItem::AstDefItem(d3) ==> tokens_known(
                                    d3.tokens@,
                                    data.typed_parts@,
                                ));
                            }
                        }
                        return false;
                    }
                }
                j += 1;
            }
            true
        },
        SourceItem::ListItem(List::ListSingleItem(node)) => data.list_data.contains_key(node.ident),
        SourceItem::ListItem(List::ListManyItem(node)) => {
            if !data.list_data.contains_key(node.ident) {
                return false;
            }
            let n = node.items.len();
            let mut j: usize = 0;
            while j < n
                invariant
                    n == node.items@.len(),
                    *item == SourceItem::ListItem(List::ListManyItem(*node)),
                    data.wf(),
                    j <= n,
                    forall|k: int|
                        0 <= k < j ==> ((#[trigger] node.items@[k]).ast_item matches AstItem::AstDefItem(def)
                            ==> tokens_known(def.tokens@, data.typed_parts@)),
                decreases n - j,
            {
                if let AstItem::AstDefItem(def) = &node.items[j].ast_item {
                    if !tokens_ok(&def.tokens, &data.typed_parts) {
                        assert(node.items@[j as int].ast_item matches AstItem::AstDefItem(d2) && !tokens_known(d2.tokens@, data.typed_parts@));
                        proof {
                            if item_tokens_known(*item, data.typed_parts@) {
                                assert(*item == SourceItem::ListItem(List::ListManyItem(*node)));
                                assert(node.items@[j as int].ast_item matches AstItem::AstDefItem(d3) ==> tokens_known(
                                    d3.tokens@,
                                    data.typed_parts@,
                                ));
                            }
                        }
                        return false;
                    }
                }
                j += 1;
            }
            true
        },
        SourceItem::CommentItem(..) => true,
    }
}

/// Whether rules can be built from every item of the description: the
/// entries and lists they add to exist, and their key tokens have typed
/// parts.
pub fn parsers_source_ok<'d>(data: &LangData<'d>, node: &Source<'d>) -> (r: bool)
    requires
        data.wf(),
    ensures
        r == source_known(node.items@, *data),
{
    let n = node.items.len();
    let mut i: usize = 0;
    while i < n
        invariant
            n == node.items@.len(),
            data.wf(),
            i <= n,
            forall|j: int|
                0 <= j < i ==> item_tokens_known(#[trigger] node.items@[j], data.typed_parts@) && item_target_known(
                    node.items@[j],
                    *data,
                ),
        decreases n - i,
    {
        if !item_ok(&node.items[i], data) {
            return false;
        }
        i += 1;
    }
    true
}

} // verus!
