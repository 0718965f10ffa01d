//! Properties of the library that span several of its functions.
pub mod output;
use vstd::prelude::*;
use crate::strmap::{strictly_sorted, sorted_names, Name, StrMap};
use crate::lang_data::data::{AstData, builtin_part, ref_set, refs_with, LangData, ParentRef, Resolved};
use crate::lang_data::ast::{enum_simple, simple_fuel, struct_needs_lifetime, AstEnum, AstStruct, RuleType};
use crate::text::concat_map;
use crate::process::codegen_ast::{as_method, as_methods, ast_source, enum_block, impl_head, struct_block, struct_ctor, struct_decl, struct_refs, struct_type};
use crate::process::build_ast::{
    all_named, ast_entry_state, boxed, built, dedup_names, enum_refs_phase, new_enum_view, rule_item, BuildState, is_ast_part, simplified, item_refs, member_refs, referenced, refs_add, refs_view, struct_refs_phase,
};
use crate::lang_data::typed_part::{auto_member, TypedPart};
use crate::lang_data::lifetimes::{nl_rule_type, nl_typed_part};
use crate::process::build_parsers::{token_part, token_parts};
use crate::descr_lang::ast::{Token, TokenType};
use crate::process::get_tokens::{key_part, parts_after};
use crate::process::codegen_syntax::{
    alts_text, pe_get, closure, closure_fuel, combine, repl_refs, replacements_of, closure_list, closure_ok, closures_of, dedup, end_regex, expanded, EntryV, ParentsV,
};
use crate::lang_data::rule::{close_v, open_v, regexes_text, AstRule, AstRuleToken, CView, CollectPartReturn};
use crate::common::parsers::{alphanum, ident_len, special, special_len};
use crate::lang_data::rule_syntax::{
    collect_step, end_state, type_entries, flat_part, flat_parts, lemma_loop_start, loop_from, marker_step, run_from, sub_key, sub_state,
    with_last, PartV,
};
use crate::lang_data::rule::{group_name, AstRulePart, GenParserData};
use crate::lang_data::rule_parser::{gen_state, GenState};

verus! {

/// Visiting a map's entries in key order sees every key exactly once, in
/// strictly increasing order.
pub proof fn law_sorted_iteration<K: Name, V>(m: StrMap<K, V>)
    requires
        m.wf(),
    ensures
        strictly_sorted(m.key_names()),
        m.key_names().to_set() == m@.dom(),
        m.key_names() == sorted_names(m@.dom()),
        m.key_names().no_duplicates(),
{
    m.lemma_sorted_keys();
    let ks = m.key_names();
    assert(strictly_sorted(ks)) by {
        assert forall|i: int, j: int| 0 <= i < j < ks.len() implies crate::text::chars_lt(#[trigger] ks[i], #[trigger] ks[j]) by {
            assert(crate::text::chars_lt(m.keys@[i].chars(), m.keys@[j].chars()));
        }
    }
    m.lemma_view_values();
    assert forall|k: Seq<char>| ks.to_set().contains(k) == m@.dom().contains(k) by {
        if ks.to_set().contains(k) {
            let i = choose|i: int| 0 <= i < ks.len() && ks[i] == k;
            assert(m@.contains_key(m.keys@[i].chars()));
        }
        if m@.dom().contains(k) {
            let i = m.idx(k);
            assert(ks[i] == k);
        }
    }
    assert(ks.to_set() =~= m@.dom());
    assert forall|i: int, j: int| 0 <= i < ks.len() && 0 <= j < ks.len() && i != j implies ks[i] != ks[j] by {
        if i < j {
            crate::text::lemma_chars_lt_irreflexive(ks[i]);
        } else {
            crate::text::lemma_chars_lt_irreflexive(ks[j]);
        }
    }
}

/// The position of the last key named `k`.
pub open spec fn last_with<'a>(keys: Seq<&'a str>, k: Seq<char>) -> int
    decreases keys.len(),
{
    if keys.len() == 0 {
        -1
    } else if keys.last()@ == k {
        keys.len() - 1
    } else {
        last_with(keys.drop_last(), k)
    }
}

proof fn lemma_last_with<'a>(keys: Seq<&'a str>, i: int)
    requires
        0 <= i < keys.len(),
    ensures
        i <= last_with(keys, keys[i]@) < keys.len(),
        keys[last_with(keys, keys[i]@)]@ == keys[i]@,
    decreases keys.len(),
{
    if keys.last()@ != keys[i]@ {
        lemma_last_with(keys.drop_last(), i);
    }
}

/// After the keys of a description are resolved, each of them has a typed
/// part: the one its last occurrence resolves to. No other typed part
/// changes.
pub proof fn law_resolved_keys_known<'a>(
    tps: Map<Seq<char>, TypedPart<'a>>,
    asts: Set<Seq<char>>,
    lists: Set<Seq<char>>,
    keys: Seq<&'a str>,
)
    ensures
        forall|i: int|
            0 <= i < keys.len() ==> parts_after(tps, asts, lists, keys).contains_key(#[trigger] keys[i]@) && parts_after(
                tps,
                asts,
                lists,
                keys,
            )[keys[i]@] == key_part(asts, lists, keys[last_with(keys, keys[i]@)]),
        forall|k: Seq<char>|
            #[trigger] last_with(keys, k) < 0 ==> parts_after(tps, asts, lists, keys).contains_key(k) == tps.contains_key(k)
                && (tps.contains_key(k) ==> parts_after(tps, asts, lists, keys)[k] == tps[k]),
    decreases keys.len(),
{
    if keys.len() > 0 {
        let pre = keys.drop_last();
        law_resolved_keys_known(tps, asts, lists, pre);
        assert forall|i: int| 0 <= i < keys.len() implies parts_after(tps, asts, lists, keys).contains_key(#[trigger] keys[i]@)
            && parts_after(tps, asts, lists, keys)[keys[i]@] == key_part(asts, lists, keys[last_with(keys, keys[i]@)]) by {
            let k = keys[i]@;
            if k != keys.last()@ {
                assert(pre[i] == keys[i]);
                assert(pre[i]@ == k);
                lemma_last_with(pre, i);
                let j = last_with(pre, k);
                assert(last_with(keys, k) == j);
                assert(pre[j] == keys[j]);
                assert(parts_after(tps, asts, lists, pre).contains_key(pre[i]@));
            } else {
                assert(last_with(keys, k) == keys.len() - 1);
            }
        }
        assert forall|k: Seq<char>| #[trigger] last_with(keys, k) < 0 implies parts_after(tps, asts, lists, keys).contains_key(k)
            == tps.contains_key(k) && (tps.contains_key(k) ==> parts_after(tps, asts, lists, keys)[k] == tps[k]) by {
            assert(keys.last()@ != k);
            assert(last_with(pre, k) < 0);
        }
    }
}

/// Resolving the same keys a second time changes nothing.
pub proof fn law_resolving_twice<'a>(
    tps: Map<Seq<char>, TypedPart<'a>>,
    asts: Set<Seq<char>>,
    lists: Set<Seq<char>>,
    keys: Seq<&'a str>,
)
    ensures
        parts_after(parts_after(tps, asts, lists, keys), asts, lists, keys) == parts_after(tps, asts, lists, keys),
{
    let once = parts_after(tps, asts, lists, keys);
    let twice = parts_after(once, asts, lists, keys);
    law_resolved_keys_known(tps, asts, lists, keys);
    law_resolved_keys_known(once, asts, lists, keys);
    assert forall|k: Seq<char>| #[trigger] twice.contains_key(k) == once.contains_key(k) && (once.contains_key(k) ==> twice[k] == once[k]) by {
        let j = last_with(keys, k);
        lemma_last_with_found(keys, k);
        if j >= 0 {
            assert(keys[j]@ == k);
            assert(twice.contains_key(keys[j]@));
            assert(once.contains_key(keys[j]@));
        } else {
            assert(last_with(keys, k) < 0);
        }
    }
    assert(twice =~= once);
}

proof fn lemma_last_with_found<'a>(keys: Seq<&'a str>, k: Seq<char>)
    ensures
        last_with(keys, k) < keys.len(),
        last_with(keys, k) >= 0 ==> keys[last_with(keys, k)]@ == k,
    decreases keys.len(),
{
    if keys.len() > 0 && keys.last()@ != k {
        lemma_last_with_found(keys.drop_last(), k);
        if last_with(keys, k) >= 0 {
            assert(keys.drop_last()[last_with(keys, k)] == keys[last_with(keys, k)]);
        }
    }
}

/// Removing repeated names keeps each name once, and every name that
/// occurs.
pub proof fn law_dedup(s: Seq<Seq<char>>)
    ensures
        dedup(s).no_duplicates(),
        dedup(s).to_set() == s.to_set(),
    decreases s.len(),
{
    if s.len() > 0 {
        law_dedup(s.drop_last());
        let d = dedup(s.drop_last());
        assert(s.to_set() =~= s.drop_last().to_set().insert(s.last())) by {
            assert forall|x: Seq<char>| s.to_set().contains(x) implies s.drop_last().to_set().insert(s.last()).contains(x) by {
                let i = choose|i: int| 0 <= i < s.len() && s[i] == x;
                if i < s.len() - 1 {
                    assert(s.drop_last()[i] == x);
                }
            }
            assert forall|x: Seq<char>| s.drop_last().to_set().insert(s.last()).contains(x) implies s.to_set().contains(x) by {
                if x != s.last() {
                    let i = choose|i: int| 0 <= i < s.drop_last().len() && s.drop_last()[i] == x;
                    assert(s[i] == x);
                } else {
                    assert(s[s.len() - 1] == x);
                }
            }
        }
        if d.contains(s.last()) {
            assert(d.to_set().contains(s.last()));
            assert(s.to_set() =~= d.to_set());
        } else {
            d.lemma_push_to_set_commute(s.last());
            assert(d.push(s.last()).to_set() =~= d.to_set().insert(s.last()));
            assert forall|i: int, j: int| 0 <= i < d.push(s.last()).len() && 0 <= j < d.push(s.last()).len() && i != j implies d.push(
                s.last(),
            )[i] != d.push(s.last())[j] by {
                if i == d.len() {
                    assert(d[j] == d.push(s.last())[j]);
                } else if j == d.len() {
                    assert(d[i] == d.push(s.last())[i]);
                }
            }
        }
    }
}

/// The expanded pattern list names each pattern once, and keeps every
/// pattern of the list.
pub proof fn law_expanded_keeps_patterns(pe: ParentsV, list: Seq<Seq<char>>)
    ensures
        expanded(pe, list).no_duplicates(),
        forall|i: int| 0 <= i < list.len() ==> expanded(pe, list).contains(#[trigger] list[i]),
{
    let all = crate::process::codegen_syntax::closures_of(pe, list) + list;
    law_dedup(all);
    assert forall|i: int| 0 <= i < list.len() implies expanded(pe, list).contains(#[trigger] list[i]) by {
        let k = crate::process::codegen_syntax::closures_of(pe, list).len() + i;
        assert(all[k] == list[i]);
        assert(all.to_set().contains(list[i]));
        assert(expanded(pe, list).to_set().contains(list[i]));
    }
}

/// Every entry registered directly under a parent is among the entries the
/// parent stands for.
pub proof fn law_closure_has_direct_entries(pe: ParentsV, key: Seq<char>)
    requires
        closure_ok(pe, key),
        pe.contains_key(key),
    ensures
        forall|i: int| 0 <= i < pe[key].len() ==> closure(pe, key).contains(#[trigger] pe[key][i]),
{
    let n = pe.dom().len();
    assert(n > 0);
    assert forall|i: int| 0 <= i < pe[key].len() implies closure(pe, key).contains(#[trigger] pe[key][i]) by {
        lemma_closure_list_has(pe, pe[key], (n - 1) as nat, i);
    }
}

proof fn lemma_closure_list_has(pe: ParentsV, es: Seq<Seq<char>>, fuel: nat, i: int)
    requires
        closure_list(pe, es, fuel) is Some,
        0 <= i < es.len(),
    ensures
        closure_list(pe, es, fuel).unwrap().contains(es[i]),
    decreases es.len(),
{
    let a = closure_list(pe, es.drop_last(), fuel).unwrap();
    let b = closure_fuel(pe, es.last(), fuel).unwrap();
    let whole = a + seq![es.last()] + b;
    if i == es.len() - 1 {
        assert(whole[a.len() as int] == es[i]);
    } else {
        lemma_closure_list_has(pe, es.drop_last(), fuel, i);
        let j = choose|j: int| 0 <= j < a.len() && a[j] == es.drop_last()[i];
        assert(whole[j] == es[i]);
    }
}

/// An identifier read stops at the first byte that cannot continue it:
/// every byte read can, and the next one cannot.
pub proof fn law_ident_maximal(b: Seq<u8>)
    ensures
        0 <= ident_len(b) <= b.len(),
        forall|k: int| 0 <= k < ident_len(b) ==> alphanum(#[trigger] b[k]) || b[k] == 0x5F,
        ident_len(b) < b.len() ==> !(alphanum(b[ident_len(b)]) || b[ident_len(b)] == 0x5F),
    decreases b.len(),
{
    if b.len() > 0 && (alphanum(b[0]) || b[0] == 0x5F) {
        law_ident_maximal(b.drop_first());
        assert forall|k: int| 0 <= k < ident_len(b) implies alphanum(#[trigger] b[k]) || b[k] == 0x5F by {
            if k > 0 {
                assert(b.drop_first()[k - 1] == b[k]);
            }
        }
        if ident_len(b) < b.len() {
            assert(b.drop_first()[ident_len(b) - 1] == b[ident_len(b)]);
        }
    }
}

/// A run of special characters stops at the first byte that is not one.
pub proof fn law_special_maximal(b: Seq<u8>)
    ensures
        0 <= special_len(b) <= b.len(),
        forall|k: int| 0 <= k < special_len(b) ==> special(#[trigger] b[k]),
        special_len(b) < b.len() ==> !special(b[special_len(b)]),
    decreases b.len(),
{
    if b.len() > 0 && special(b[0]) {
        law_special_maximal(b.drop_first());
        assert forall|k: int| 0 <= k < special_len(b) implies special(#[trigger] b[k]) by {
            if k > 0 {
                assert(b.drop_first()[k - 1] == b[k]);
            }
        }
        if special_len(b) < b.len() {
            assert(b.drop_first()[special_len(b) - 1] == b[special_len(b)]);
        }
    }
}

/// How many markers of a kind a flattened sequence holds.
pub open spec fn marker_count<'a>(s: Seq<PartV<'a>>, m: PartV<'a>) -> int
    decreases s.len(),
{
    if s.len() == 0 {
        0
    } else {
        marker_count(s.drop_last(), m) + (if s.last() == m {
            1int
        } else {
            0int
        })
    }
}

proof fn lemma_marker_count_concat<'a>(a: Seq<PartV<'a>>, b: Seq<PartV<'a>>, m: PartV<'a>)
    ensures
        marker_count(a + b, m) == marker_count(a, m) + marker_count(b, m),
    decreases b.len(),
{
    if b.len() == 0 {
        assert(a + b =~= a);
    } else {
        assert((a + b).drop_last() =~= a + b.drop_last());
        lemma_marker_count_concat(a, b.drop_last(), m);
    }
}

/// Flattening a part's groups opens and closes as many optional groups as
/// it has, and as many negated ones.
pub proof fn law_flat_part_balanced<'a>(p: AstRulePart<'a>, opt: bool, not: bool)
    ensures
        marker_count(flat_part(p, opt, not), PartV::OptGroupStart) == marker_count(
            flat_part(p, opt, not),
            PartV::OptGroupEnd,
        ),
        marker_count(flat_part(p, opt, not), PartV::NotGroupStart) == marker_count(
            flat_part(p, opt, not),
            PartV::NotGroupEnd,
        ),
    decreases p, 0nat,
{
    match p.token {
        crate::lang_data::rule::AstRuleToken::Group(gp) => {
            law_flat_parts_balanced(gp@, true, p.not || not);
            law_flat_parts_balanced(gp@, p.optional || opt, true);
            let inner1 = flat_parts(gp@, true, p.not || not);
            let inner2 = flat_parts(gp@, p.optional || opt, true);
            lemma_marker_count_concat(seq![PartV::OptGroupStart], inner1, PartV::OptGroupStart);
            lemma_marker_count_concat(seq![PartV::OptGroupStart] + inner1, seq![PartV::OptGroupEnd], PartV::OptGroupStart);
            lemma_marker_count_concat(seq![PartV::OptGroupStart], inner1, PartV::OptGroupEnd);
            lemma_marker_count_concat(seq![PartV::OptGroupStart] + inner1, seq![PartV::OptGroupEnd], PartV::OptGroupEnd);
            lemma_marker_count_concat(seq![PartV::OptGroupStart], inner1, PartV::NotGroupStart);
            lemma_marker_count_concat(seq![PartV::OptGroupStart] + inner1, seq![PartV::OptGroupEnd], PartV::NotGroupStart);
            lemma_marker_count_concat(seq![PartV::OptGroupStart], inner1, PartV::NotGroupEnd);
            lemma_marker_count_concat(seq![PartV::OptGroupStart] + inner1, seq![PartV::OptGroupEnd], PartV::NotGroupEnd);
            lemma_marker_count_concat(seq![PartV::NotGroupStart], inner2, PartV::OptGroupStart);
            lemma_marker_count_concat(seq![PartV::NotGroupStart] + inner2, seq![PartV::NotGroupEnd], PartV::OptGroupStart);
            lemma_marker_count_concat(seq![PartV::NotGroupStart], inner2, PartV::OptGroupEnd);
            lemma_marker_count_concat(seq![PartV::NotGroupStart] + inner2, seq![PartV::NotGroupEnd], PartV::OptGroupEnd);
            lemma_marker_count_concat(seq![PartV::NotGroupStart], inner2, PartV::NotGroupStart);
            lemma_marker_count_concat(seq![PartV::NotGroupStart] + inner2, seq![PartV::NotGroupEnd], PartV::NotGroupStart);
            lemma_marker_count_concat(seq![PartV::NotGroupStart], inner2, PartV::NotGroupEnd);
            lemma_marker_count_concat(seq![PartV::NotGroupStart] + inner2, seq![PartV::NotGroupEnd], PartV::NotGroupEnd);
            reveal_with_fuel(marker_count, 2);
        },
        _ => {
            reveal_with_fuel(marker_count, 2);
        },
    }
}

pub proof fn law_flat_parts_balanced<'a>(ps: Seq<AstRulePart<'a>>, opt: bool, not: bool)
    ensures
        marker_count(flat_parts(ps, opt, not), PartV::OptGroupStart) == marker_count(
            flat_parts(ps, opt, not),
            PartV::OptGroupEnd,
        ),
        marker_count(flat_parts(ps, opt, not), PartV::NotGroupStart) == marker_count(
            flat_parts(ps, opt, not),
            PartV::NotGroupEnd,
        ),
    decreases ps, 1nat,
{
    if ps.len() > 0 {
        law_flat_parts_balanced(ps.drop_last(), opt, not);
        law_flat_part_balanced(ps.last(), opt, not);
        let a = flat_parts(ps.drop_last(), opt, not);
        let b = flat_part(ps.last(), opt, not);
        lemma_marker_count_concat(a, b, PartV::OptGroupStart);
        lemma_marker_count_concat(a, b, PartV::OptGroupEnd);
        lemma_marker_count_concat(a, b, PartV::NotGroupStart);
        lemma_marker_count_concat(a, b, PartV::NotGroupEnd);
    }
}

/// Inserting a name the map does not hold and then removing it gives the
/// map back as it was: the same names, stored in the same order, with the
/// same values.
pub proof fn law_remove_undoes_insert<K: Name, V>(
    m0: StrMap<K, V>,
    m1: StrMap<K, V>,
    m2: StrMap<K, V>,
    k: K,
    v: V,
)
    requires
        m0.wf(),
        m1.wf(),
        m2.wf(),
        !m0@.contains_key(k.chars()),
        m1@ == m0@.insert(k.chars(), v),
        m2@ == m1@.remove(k.chars()),
    ensures
        m2@ == m0@,
        m2.key_names() == m0.key_names(),
        m2.vals@ == m0.vals@,
{
    assert(m2@ =~= m0@);
    m0.lemma_sorted_keys();
    m2.lemma_sorted_keys();
    m0.lemma_view_values();
    m2.lemma_view_values();
    assert(m2.key_names().len() == m0.key_names().len());
    assert(m2.vals@.len() == m0.vals@.len());
    assert forall|i: int| 0 <= i < m0.vals@.len() implies m2.vals@[i] == m0.vals@[i] by {
        assert(m2.key_names()[i] == m0.key_names()[i]);
        assert(m2.keys@[i].chars() == m0.keys@[i].chars());
        assert(m0@.contains_key(m0.keys@[i].chars()));
        assert(m2@.contains_key(m2.keys@[i].chars()));
        assert(m2@[m2.keys@[i].chars()] == m2.vals@[i]);
        assert(m0@[m0.keys@[i].chars()] == m0.vals@[i]);
    }
    assert(m2.vals@ =~= m0.vals@);
}

/// After an insert the names are stored in increasing order, the inserted
/// one in its place among them, and reading it gives the inserted value.
pub proof fn law_insert_in_order<K: Name, V>(m0: StrMap<K, V>, m1: StrMap<K, V>, k: K, v: V)
    requires
        m0.wf(),
        m1.wf(),
        m1@ == m0@.insert(k.chars(), v),
    ensures
        m1.key_names() == sorted_names(m0@.dom().insert(k.chars())),
        m1@.contains_key(k.chars()),
        m1@[k.chars()] == v,
{
    m1.lemma_sorted_keys();
    assert(m1@.dom() =~= m0@.dom().insert(k.chars()));
}

/// Closing a group undoes opening it: the open groups, the members found
/// and the member group flag are as they were, and only the group number
/// has moved on, so the next group gets a new name.
pub proof fn law_close_undoes_open<'a>(
    g0: GenParserData<'a>,
    g1: GenParserData<'a>,
    g2: GenParserData<'a>,
    name: String,
)
    requires
        g0.group_num < u32::MAX,
        name@ == group_name(g0.group_num as nat),
        g1.group_stack@ == g0.group_stack@.push(name),
        g1.group_num == g0.group_num + 1,
        g1.member_map == g0.member_map,
        g1.opt_group == g0.opt_group,
        g2.group_stack@ == (if g1.group_stack@.len() == 0 {
            g1.group_stack@
        } else {
            g1.group_stack@.drop_last()
        }),
        g2.group_num == g1.group_num,
        g2.member_map == g1.member_map,
        g2.opt_group == g1.opt_group,
    ensures
        g2.group_stack@ == g0.group_stack@,
        g2.member_map == g0.member_map,
        g2.opt_group == g0.opt_group,
        g2.group_num == g0.group_num + 1,
        gen_state(g2) == (GenState { num: gen_state(g0).num + 1, ..gen_state(g0) }),
{
    assert(g2.group_stack@ =~= g0.group_stack@);
    assert(gen_state(g2).stack =~= gen_state(g0).stack);
    assert(gen_state(g2).members =~= gen_state(g0).members);
}

/// An end with regexes of its own to match, not all optional and not
/// branched into a sub entry, ends on exactly those regexes, as their
/// collected text. An end with nothing to match and not branched, after a
/// begin with no patterns in between, ends on an empty negative lookahead.
pub proof fn law_end_regex(end: CView, pe: ParentsV, en: Map<Seq<char>, EntryV>, begin: CView)
    ensures
        end.regexes.len() != 0 && !end.only_optional && !end.is_subbed ==> end_regex(end, pe, en, begin)
            == regexes_text(end.regexes, true),
        end.regexes.len() == 0 && begin.patterns.len() == 0 && !end.is_subbed ==> end_regex(
            end,
            pe,
            en,
            begin,
        ) == "(?!(?:))"@,
{
    if end.regexes.len() == 0 && begin.patterns.len() == 0 && !end.is_subbed {
        let e = expanded(pe, begin.patterns);
        assert(closures_of(pe, begin.patterns) + begin.patterns =~= Seq::<Seq<char>>::empty());
        assert(e.len() == 0);
        assert(alts_text(e, en) == Seq::<char>::empty());
        assert(regexes_text(end.regexes, true) == Seq::<char>::empty());
        reveal_strlit("(?!(?:");
        reveal_strlit("))");
        reveal_strlit("(?!(?:))");
        assert(end_regex(end, pe, en, begin) =~= "(?!(?:))"@);
    }
}

/// The replacements are made for exactly the entries that only have
/// optional parts (a match also needs regexes and parents of its own), and
/// each holds one pair per entry referred to, in order: the entry's name,
/// `_` and the name referred to, with the two entries combined.
pub proof fn law_replacements(en: Map<Seq<char>, EntryV>)
    ensures
        forall|k: Seq<char>|
            #[trigger] replacements_of(en).contains_key(k) <==> en.contains_key(k) && match en[k] {
                EntryV::Match(c) => c.only_optional && c.regexes.len() > 0 && c.parent_refs.len() > 0,
                EntryV::BeginEnd(b, _) => b.only_optional,
            },
        forall|k: Seq<char>|
            #[trigger] replacements_of(en).contains_key(k) ==> replacements_of(en)[k].len() == repl_refs(
                en[k],
            ).len(),
        forall|k: Seq<char>, i: int|
            #![trigger replacements_of(en)[k][i]]
            replacements_of(en).contains_key(k) && 0 <= i < repl_refs(en[k]).len() ==> replacements_of(en)[k][i]
                == (k + "_"@ + repl_refs(en[k])[i], combine(en[k], en[repl_refs(en[k])[i]])),
{
}

/// Each token of a definition that is not a group becomes one part, in
/// order. A named token is a member under its name; a simple key token is
/// a member under the key exactly when its typed part makes one.
pub proof fn law_token_parts<'a>(toks: Seq<Token<'a>>, tps: Map<Seq<char>, TypedPart<'a>>)
    requires
        forall|i: int| 0 <= i < toks.len() ==> !(#[trigger] toks[i] is TokenGroupItem),
    ensures
        token_parts(toks, tps).len() == toks.len(),
        forall|i: int| 0 <= i < toks.len() ==> Some(#[trigger] token_parts(toks, tps)[i]) == token_part(toks[i], tps),
        forall|i: int|
            0 <= i < toks.len() ==> (#[trigger] toks[i] matches Token::NamedTokenItem(nt) ==> token_parts(
                toks,
                tps,
            )[i].member_key == Some(nt.name)),
        forall|i: int|
            0 <= i < toks.len() ==> (#[trigger] toks[i] matches Token::SimpleTokenItem(st) ==> (
            st.token_type matches TokenType::KeyTokenItem(kt) ==> token_parts(toks, tps)[i].member_key == (if auto_member(
                tps[kt.key@],
            ) {
                Some(kt.key)
            } else {
                None
            }))),
    decreases toks.len(),
{
    if toks.len() > 0 {
        let init = toks.drop_last();
        assert forall|i: int| 0 <= i < init.len() implies !(#[trigger] init[i] is TokenGroupItem) by {
            assert(init[i] == toks[i]);
        }
        law_token_parts(init, tps);
        assert(token_part(toks.last(), tps) is Some);
        assert forall|i: int| 0 <= i < toks.len() implies Some(#[trigger] token_parts(toks, tps)[i]) == token_part(
            toks[i],
            tps,
        ) by {
            if i < toks.len() - 1 {
                assert(init[i] == toks[i]);
                assert(token_parts(toks, tps)[i] == token_parts(init, tps)[i]);
            }
        }
    }
}

/// Whether the places recorded under `k` include one with the names of `r`.
pub open spec fn records<'a>(m: Map<Seq<char>, Seq<ParentRef<'a>>>, k: Seq<char>, r: ParentRef<'a>) -> bool {
    m.contains_key(k) && ref_set(m[k]).contains(r.chars())
}

/// Every place `a` records, `b` records too.
pub open spec fn records_all<'a>(a: Map<Seq<char>, Seq<ParentRef<'a>>>, b: Map<Seq<char>, Seq<ParentRef<'a>>>) -> bool {
    forall|k: Seq<char>, r: ParentRef<'a>| #[trigger] records(a, k, r) ==> records(b, k, r)
}

proof fn lemma_refs_add<'a>(m: Map<Seq<char>, Seq<ParentRef<'a>>>, k: Seq<char>, r: ParentRef<'a>)
    ensures
        records(refs_add(m, k, r), k, r),
        records_all(m, refs_add(m, k, r)),
{
    let old_v = if m.contains_key(k) {
        m[k]
    } else {
        Seq::empty()
    };
    let new_v = refs_with(old_v, r);
    let m2 = refs_add(m, k, r);
    assert(m2[k] == new_v);
    if !ref_set(old_v).contains(r.chars()) {
        assert(new_v[old_v.len() as int] == r);
        assert(ref_set(new_v).contains(r.chars()));
    }
    assert forall|k2: Seq<char>, r2: ParentRef<'a>| #[trigger] records(m, k2, r2) implies records(m2, k2, r2) by {
        if k2 == k {
            let i = choose|i: int| 0 <= i < old_v.len() && #[trigger] old_v[i].chars() == r2.chars();
            assert(new_v[i] == old_v[i]);
            assert(ref_set(new_v).contains(r2.chars()));
        }
    }
}

proof fn lemma_member_refs<'a>(
    d: LangData<'a>,
    m: Map<Seq<char>, Seq<ParentRef<'a>>>,
    sname: &'a str,
    st: AstStruct<'a>,
    j: int,
)
    requires
        j <= st.members.vals@.len(),
        j <= st.members.keys@.len(),
    ensures
        records_all(m, member_refs(d, m, sname, st, j)),
        forall|i: int|
            0 <= i < j && is_ast_part(d, (#[trigger] st.members.vals@[i]).part_key) ==> records(
                member_refs(d, m, sname, st, j),
                d.resolved(st.members.vals@[i].part_key@).name(),
                ParentRef::StructMember { struct_name: sname, member_name: st.members.keys@[i] },
            ),
    decreases j,
{
    if j > 0 {
        lemma_member_refs(d, m, sname, st, j - 1);
        let prev = member_refs(d, m, sname, st, j - 1);
        let mem = st.members.vals@[j - 1];
        if is_ast_part(d, mem.part_key) {
            lemma_refs_add(
                prev,
                d.resolved(mem.part_key@).name(),
                ParentRef::StructMember { struct_name: sname, member_name: st.members.keys@[j - 1] },
            );
        }
    }
}

proof fn lemma_struct_refs_phase<'a>(d: LangData<'a>, m: Map<Seq<char>, Seq<ParentRef<'a>>>, n: int)
    requires
        d.ast_structs.wf(),
        n <= d.ast_structs.keys@.len(),
        forall|i: int| 0 <= i < d.ast_structs.vals@.len() ==> (#[trigger] d.ast_structs.vals@[i]).members.wf(),
    ensures
        records_all(m, struct_refs_phase(d, m, n)),
        forall|i: int, j: int|
            0 <= i < n && 0 <= j < d.ast_structs.vals@[i].members.keys@.len() && is_ast_part(
                d,
                (#[trigger] d.ast_structs.vals@[i].members.vals@[j]).part_key,
            ) ==> records(
                struct_refs_phase(d, m, n),
                d.resolved(d.ast_structs.vals@[i].members.vals@[j].part_key@).name(),
                ParentRef::StructMember {
                    struct_name: d.ast_structs.keys@[i],
                    member_name: d.ast_structs.vals@[i].members.keys@[j],
                },
            ),
    decreases n,
{
    if n > 0 {
        lemma_struct_refs_phase(d, m, n - 1);
        let prev = struct_refs_phase(d, m, n - 1);
        let st = d.ast_structs.vals@[n - 1];
        assert(st.members.wf());
        lemma_member_refs(d, prev, d.ast_structs.keys@[n - 1], st, st.members.keys@.len() as int);
        let cur = struct_refs_phase(d, m, n);
        assert forall|i: int, j: int|
            0 <= i < n && 0 <= j < d.ast_structs.vals@[i].members.keys@.len() && is_ast_part(
                d,
                (#[trigger] d.ast_structs.vals@[i].members.vals@[j]).part_key,
            ) implies records(
                cur,
                d.resolved(d.ast_structs.vals@[i].members.vals@[j].part_key@).name(),
                ParentRef::StructMember {
                    struct_name: d.ast_structs.keys@[i],
                    member_name: d.ast_structs.vals@[i].members.keys@[j],
                },
            ) by {
            if i < n - 1 {
                let r = ParentRef::StructMember {
                    struct_name: d.ast_structs.keys@[i],
                    member_name: d.ast_structs.vals@[i].members.keys@[j],
                };
                assert(records(prev, d.resolved(d.ast_structs.vals@[i].members.vals@[j].part_key@).name(), r));
            }
        }
    }
}

proof fn lemma_item_refs<'a>(
    d: LangData<'a>,
    m: Map<Seq<char>, Seq<ParentRef<'a>>>,
    ename: &'a str,
    e: AstEnum<'a>,
    j: int,
)
    requires
        j <= e.items@.len(),
    ensures
        records_all(m, item_refs(d, m, ename, e, j)),
        forall|i: int|
            0 <= i < j ==> records(
                item_refs(d, m, ename, e, j),
                d.resolved((#[trigger] e.items@[i])@).name(),
                ParentRef::EnumItem { enum_name: ename, item_name: e.items@[i] },
            ),
    decreases j,
{
    if j > 0 {
        lemma_item_refs(d, m, ename, e, j - 1);
        lemma_refs_add(
            item_refs(d, m, ename, e, j - 1),
            d.resolved(e.items@[j - 1]@).name(),
            ParentRef::EnumItem { enum_name: ename, item_name: e.items@[j - 1] },
        );
    }
}

proof fn lemma_enum_refs_phase<'a>(d: LangData<'a>, m: Map<Seq<char>, Seq<ParentRef<'a>>>, n: int)
    requires
        n <= d.ast_enums.keys@.len(),
        n <= d.ast_enums.vals@.len(),
    ensures
        records_all(m, enum_refs_phase(d, m, n)),
        forall|i: int, j: int|
            0 <= i < n && 0 <= j < d.ast_enums.vals@[i].items@.len() && !enum_simple(
                &d,
                d.ast_enums.vals@[i],
                simple_fuel(&d),
            ).unwrap() ==> records(
                enum_refs_phase(d, m, n),
                d.resolved((#[trigger] d.ast_enums.vals@[i].items@[j])@).name(),
                ParentRef::EnumItem { enum_name: d.ast_enums.keys@[i], item_name: d.ast_enums.vals@[i].items@[j] },
            ),
    decreases n,
{
    if n > 0 {
        lemma_enum_refs_phase(d, m, n - 1);
        let prev = enum_refs_phase(d, m, n - 1);
        let e = d.ast_enums.vals@[n - 1];
        if !enum_simple(&d, e, simple_fuel(&d)).unwrap() {
            lemma_item_refs(d, prev, d.ast_enums.keys@[n - 1], e, e.items@.len() as int);
        }
        let cur = enum_refs_phase(d, m, n);
        assert forall|i: int, j: int|
            0 <= i < n && 0 <= j < d.ast_enums.vals@[i].items@.len() && !enum_simple(
                &d,
                d.ast_enums.vals@[i],
                simple_fuel(&d),
            ).unwrap() implies records(
                cur,
                d.resolved((#[trigger] d.ast_enums.vals@[i].items@[j])@).name(),
                ParentRef::EnumItem { enum_name: d.ast_enums.keys@[i], item_name: d.ast_enums.vals@[i].items@[j] },
            ) by {
            if i < n - 1 {
                let r = ParentRef::EnumItem {
                    enum_name: d.ast_enums.keys@[i],
                    item_name: d.ast_enums.vals@[i].items@[j],
                };
                assert(records(prev, d.resolved(d.ast_enums.vals@[i].items@[j]@).name(), r));
            }
        }
    }
}

/// Once the places of AST values are recorded, each struct member holding
/// an AST value is recorded under the struct or enum its part resolves to,
/// and each item of an enum that is not simple under the type it resolves
/// to. Places recorded before stay.
pub proof fn law_parent_refs_recorded<'a>(d0: LangData<'a>, d1: LangData<'a>)
    requires
        d0.wf(),
        referenced(d0, d1),
    ensures
        records_all(refs_view(d0.parent_refs), refs_view(d1.parent_refs)),
        forall|i: int, j: int|
            0 <= i < d0.ast_structs.keys@.len() && 0 <= j < d0.ast_structs.vals@[i].members.keys@.len()
                && is_ast_part(d0, (#[trigger] d0.ast_structs.vals@[i].members.vals@[j]).part_key) ==> records(
                refs_view(d1.parent_refs),
                d0.resolved(d0.ast_structs.vals@[i].members.vals@[j].part_key@).name(),
                ParentRef::StructMember {
                    struct_name: d0.ast_structs.keys@[i],
                    member_name: d0.ast_structs.vals@[i].members.keys@[j],
                },
            ),
        forall|i: int, j: int|
            0 <= i < d0.ast_enums.keys@.len() && 0 <= j < d0.ast_enums.vals@[i].items@.len() && !enum_simple(
                &d0,
                d0.ast_enums.vals@[i],
                simple_fuel(&d0),
            ).unwrap() ==> records(
                refs_view(d1.parent_refs),
                d0.resolved((#[trigger] d0.ast_enums.vals@[i].items@[j])@).name(),
                ParentRef::EnumItem { enum_name: d0.ast_enums.keys@[i], item_name: d0.ast_enums.vals@[i].items@[j] },
            ),
{
    let m0 = refs_view(d0.parent_refs);
    d0.ast_structs.lemma_view_values();
    assert forall|i: int| 0 <= i < d0.ast_structs.vals@.len() implies (#[trigger] d0.ast_structs.vals@[i]).members.wf() by {
        assert(d0.ast_structs@.contains_key(d0.ast_structs.key(i)));
    }
    let ns = d0.ast_structs.keys@.len() as int;
    let ne = d0.ast_enums.keys@.len() as int;
    lemma_struct_refs_phase(d0, m0, ns);
    let m1 = struct_refs_phase(d0, m0, ns);
    lemma_enum_refs_phase(d0, m1, ne);
    let m2 = enum_refs_phase(d0, m1, ne);
    assert forall|k: Seq<char>, r: ParentRef<'a>| #[trigger] records(m0, k, r) implies records(m2, k, r) by {
        assert(records(m1, k, r));
    }
    assert forall|i: int, j: int|
        0 <= i < ns && 0 <= j < d0.ast_structs.vals@[i].members.keys@.len() && is_ast_part(
            d0,
            (#[trigger] d0.ast_structs.vals@[i].members.vals@[j]).part_key,
        ) implies records(
        m2,
        d0.resolved(d0.ast_structs.vals@[i].members.vals@[j].part_key@).name(),
        ParentRef::StructMember {
            struct_name: d0.ast_structs.keys@[i],
            member_name: d0.ast_structs.vals@[i].members.keys@[j],
        },
    ) by {
        let r = ParentRef::StructMember {
            struct_name: d0.ast_structs.keys@[i],
            member_name: d0.ast_structs.vals@[i].members.keys@[j],
        };
        assert(records(m1, d0.resolved(d0.ast_structs.vals@[i].members.vals@[j].part_key@).name(), r));
    }
}

/// `key` followed by `n` times `_sub`.
pub open spec fn subs(key: Seq<char>, n: nat) -> Seq<char>
    decreases n,
{
    if n == 0 {
        key
    } else {
        sub_key(subs(key, (n - 1) as nat))
    }
}

/// Whether `k` is `key` followed by `_sub` some number of times.
pub open spec fn is_sub_of(key: Seq<char>, k: Seq<char>) -> bool {
    exists|n: nat| #[trigger] subs(key, n) == k
}

/// The entries `en2` set `key`, and hold every entry that is not `key`
/// followed by `_sub` some number of times as `en` does.
pub open spec fn keeps_others(key: Seq<char>, en: Map<Seq<char>, EntryV>, en2: Map<Seq<char>, EntryV>) -> bool {
    &&& en2.contains_key(key)
    &&& forall|k: Seq<char>|
        !is_sub_of(key, k) ==> (#[trigger] en2.contains_key(k) == en.contains_key(k) && (en.contains_key(k)
            ==> en2[k] == en[k]))
}

proof fn lemma_subs_shift(key: Seq<char>, n: nat)
    ensures
        subs(sub_key(key), n) == subs(key, n + 1),
    decreases n,
{
    assert(subs(key, n + 1) == sub_key(subs(key, n)));
    if n == 0 {
        assert(subs(key, 0) == key);
    } else {
        lemma_subs_shift(key, (n - 1) as nat);
        assert(subs(sub_key(key), n) == sub_key(subs(sub_key(key), (n - 1) as nat)));
    }
}

proof fn lemma_run_keys<'a>(
    rt: Seq<char>,
    sp: Seq<PartV<'a>>,
    key: Seq<char>,
    from: int,
    state: CView,
    pe: ParentsV,
    en: Map<Seq<char>, EntryV>,
    d: LangData<'a>,
)
    requires
        0 <= from <= sp.len(),
    ensures
        keeps_others(key, en, run_from(rt, sp, key, from, state, pe, en, d).1),
    decreases 2 * (sp.len() - from) + (if state.is_end {
        1int
    } else {
        0int
    }), 2int,
{
    lemma_loop_start(rt, sp, key, from, state, pe, en, d);
    lemma_loop_keys(rt, sp, key, from, from, open_v(state), None, pe, en, d);
}

proof fn lemma_loop_keys<'a>(
    rt: Seq<char>,
    sp: Seq<PartV<'a>>,
    key: Seq<char>,
    from: int,
    i: int,
    c: CView,
    begin: Option<CView>,
    pe: ParentsV,
    en: Map<Seq<char>, EntryV>,
    d: LangData<'a>,
)
    requires
        0 <= i,
    ensures
        keeps_others(key, en, loop_from(rt, sp, key, from, i, c, begin, pe, en, d).1),
    decreases 2 * (sp.len() - i) + (if c.is_end {
        1int
    } else {
        0int
    }), 1int,
{
    reveal(loop_from);
    assert(subs(key, 0) == key);
    if i >= sp.len() {
    } else {
        let c1 = with_last(c, i, sp.len() as int);
        match sp[i] {
            PartV::Part(p, _, _) => {
                let (c2, pe2, ret) = collect_step(rt, p, c1, pe, d);
                match ret {
                    CollectPartReturn::CollectEnd => {
                        let b = close_v(CView { is_first: false, ..c2 });
                        lemma_loop_keys(rt, sp, key, from, i + 1, end_state(b), Some(b), pe2, en, d);
                    },
                    CollectPartReturn::Continue => {
                        lemma_loop_keys(rt, sp, key, from, i + 1, CView { is_first: false, ..c2 }, begin, pe2, en, d);
                    },
                    CollectPartReturn::CollectSub => {
                        let c3 = close_v(c2);
                        let sk = sub_key(key);
                        if c1.is_end {
                            lemma_run_keys(rt, sp, sk, i, sub_state(c3), pe2, en, d);
                            assert forall|k: Seq<char>| !is_sub_of(key, k) implies !is_sub_of(sk, k) by {
                                if is_sub_of(sk, k) {
                                    let n = choose|n: nat| #[trigger] subs(sk, n) == k;
                                    lemma_subs_shift(key, n);
                                    assert(subs(key, n + 1) == k);
                                }
                            }
                        }
                    },
                }
            },
            m => {
                lemma_loop_keys(rt, sp, key, from, i + 1, marker_step(m, c1), begin, pe, en, d);
            },
        }
    }
}

/// Collecting a rule's flattened parts into the entry `key` sets that
/// entry, may set entries named `key` followed by `_sub` one or more
/// times, and leaves every other entry as it was.
pub proof fn law_entries_from_parts<'a>(
    rt: Seq<char>,
    sp: Seq<PartV<'a>>,
    key: Seq<char>,
    from: int,
    state: CView,
    pe: ParentsV,
    en: Map<Seq<char>, EntryV>,
    d: LangData<'a>,
)
    requires
        0 <= from <= sp.len(),
    ensures
        keeps_others(key, en, run_from(rt, sp, key, from, state, pe, en, d).1),
{
    lemma_run_keys(rt, sp, key, from, state, pe, en, d);
}

/// Collecting a part whose key stands for an AST struct: at the start of a
/// rule the struct becomes a parent of the rule's entry and of the state;
/// before the end it becomes a pattern in between and the begin is over;
/// at the end the rest goes into a sub entry, with nothing changed yet.
pub proof fn law_collect_struct_part<'a>(
    rt: Seq<char>,
    p: AstRulePart<'a>,
    c: CView,
    pe: ParentsV,
    d: LangData<'a>,
    k: &'a str,
    k2: &'a str,
)
    requires
        p.token == AstRuleToken::Key(k),
        d.typed_parts@.contains_key(k@),
        d.typed_parts@[k@] == (TypedPart::AstPart { key: k2 }),
        d.resolved(k2@) == Resolved::Struct(k2@),
    ensures
        c.is_first ==> collect_step(rt, p, c, pe, d) == (
            CView { parent_refs: c.parent_refs.push(k2@), ..c },
            pe.insert(rt, pe_get(pe, rt).push(k2@)),
            CollectPartReturn::Continue,
        ),
        !c.is_first && !c.is_end ==> collect_step(rt, p, c, pe, d) == (
            CView { patterns: c.patterns.push(k2@), ..c },
            pe,
            CollectPartReturn::CollectEnd,
        ),
        !c.is_first && c.is_end ==> collect_step(rt, p, c, pe, d) == (c, pe, CollectPartReturn::CollectSub),
{
    assert(type_entries(d, k2@) == seq![k2@]);
    assert(c.parent_refs + seq![k2@] =~= c.parent_refs.push(k2@));
    assert(c.patterns + seq![k2@] =~= c.patterns.push(k2@));
    assert(pe_get(pe, rt) + seq![k2@] =~= pe_get(pe, rt).push(k2@));
}

/// Whether `whole` is `part` with `pre` before it and `post` after it.
pub open spec fn split_at(whole: Seq<char>, pre: Seq<char>, part: Seq<char>, post: Seq<char>) -> bool {
    whole == pre + part + post
}

/// Whether `part` occurs in `whole` as one piece.
pub open spec fn holds_text(whole: Seq<char>, part: Seq<char>) -> bool {
    exists|pre: Seq<char>, post: Seq<char>| #[trigger] split_at(whole, pre, part, post)
}

pub proof fn lemma_concat_map_holds<A>(s: Seq<A>, f: spec_fn(A) -> Seq<char>, i: int)
    requires
        0 <= i < s.len(),
    ensures
        holds_text(concat_map(s, f), f(s[i])),
    decreases s.len(),
{
    let init = s.drop_last();
    if i == s.len() - 1 {
        assert(concat_map(s, f) =~= concat_map(init, f) + f(s[i]) + Seq::<char>::empty());
        assert(split_at(concat_map(s, f), concat_map(init, f), f(s[i]), Seq::<char>::empty()));
    } else {
        lemma_concat_map_holds(init, f, i);
        assert(init[i] == s[i]);
        let (pre, post) = choose|pre: Seq<char>, post: Seq<char>| #[trigger] split_at(concat_map(init, f), pre, f(s[i]), post);
        assert(concat_map(s, f) =~= pre + f(s[i]) + (post + f(s.last())));
        assert(split_at(concat_map(s, f), pre, f(s[i]), post + f(s.last())));
    }
}

/// The source of a struct that is not simple has, for each enum item that
/// holds it, the conversion `as_` into that enum.
pub proof fn law_as_method_generated<'a>(data: &LangData<'a>, st: AstStruct<'a>, i: int)
    requires
        !data.simple_structs@.contains_key(st.name@),
        0 <= i < struct_refs(data, st).len(),
        struct_refs(data, st)[i] is EnumItem,
    ensures
        holds_text(struct_block(data, st), as_method(data, struct_refs(data, st)[i], struct_needs_lifetime(data, st))),
{
    let f = |r: ParentRef<'a>| as_method(data, r, struct_needs_lifetime(data, st));
    lemma_concat_map_holds(struct_refs(data, st), f, i);
    let m = as_method(data, struct_refs(data, st)[i], struct_needs_lifetime(data, st));
    let (pre, post) = choose|pre: Seq<char>, post: Seq<char>| #[trigger] split_at(as_methods(data, st), pre, m, post);
    let head = struct_decl(data, st) + impl_head(struct_needs_lifetime(data, st), struct_type(data, st), " {\n"@)
        + struct_ctor(data, st);
    assert(struct_block(data, st) =~= (head + pre) + m + (post + "}\n\n"@));
    assert(split_at(struct_block(data, st), head + pre, m, post + "}\n\n"@));
}

pub proof fn lemma_holds_text_trans(a: Seq<char>, b: Seq<char>, c: Seq<char>)
    requires
        holds_text(a, b),
        holds_text(b, c),
    ensures
        holds_text(a, c),
{
    let (p1, q1) = choose|pre: Seq<char>, post: Seq<char>| #[trigger] split_at(a, pre, b, post);
    let (p2, q2) = choose|pre: Seq<char>, post: Seq<char>| #[trigger] split_at(b, pre, c, post);
    assert(a =~= (p1 + p2) + c + (q2 + q1));
    assert(split_at(a, p1 + p2, c, q2 + q1));
}

/// The AST source holds, for every struct that is not simple and every
/// enum item recorded as holding it, the conversion `as_` of the struct
/// into that enum.
pub proof fn law_ast_source_has_as_methods<'a>(data: &LangData<'a>, i: int, k: int)
    requires
        0 <= i < data.ast_structs.vals@.len(),
        !data.simple_structs@.contains_key(data.ast_structs.vals@[i].name@),
        0 <= k < struct_refs(data, data.ast_structs.vals@[i]).len(),
        struct_refs(data, data.ast_structs.vals@[i])[k] is EnumItem,
    ensures
        holds_text(
            ast_source(data),
            as_method(
                data,
                struct_refs(data, data.ast_structs.vals@[i])[k],
                struct_needs_lifetime(data, data.ast_structs.vals@[i]),
            ),
        ),
{
    let st = data.ast_structs.vals@[i];
    let m = as_method(data, struct_refs(data, st)[k], struct_needs_lifetime(data, st));
    law_as_method_generated(data, st, k);
    let fs = |x: AstStruct<'a>| struct_block(data, x);
    let fe = |e: AstEnum<'a>| enum_block(data, e);
    lemma_concat_map_holds(data.ast_structs.vals@, fs, i);
    let structs = concat_map(data.ast_structs.vals@, fs);
    let enums = concat_map(data.ast_enums.vals@, fe);
    let (p, q) = choose|pre: Seq<char>, post: Seq<char>| #[trigger] split_at(structs, pre, struct_block(data, st), post);
    assert(ast_source(data) =~= p + struct_block(data, st) + (q + enums));
    assert(split_at(ast_source(data), p, struct_block(data, st), q + enums));
    lemma_holds_text_trans(ast_source(data), struct_block(data, st), m);
}

/// After building the AST types, every member of a struct that holds an
/// AST value is recorded under the struct or enum its part resolves to,
/// and every item of an enum that is not simple under the type it resolves
/// to, as the structs and enums stand once simple ones are set apart;
/// boxing keeps the records, and places recorded before stay.
pub proof fn law_build_records_parents<'a>(
    d0: LangData<'a>,
    d1: LangData<'a>,
    d2: LangData<'a>,
    d3: LangData<'a>,
    d4: LangData<'a>,
)
    requires
        built(d0, d1),
        simplified(d1, d2),
        d2.wf(),
        referenced(d2, d3),
        boxed(d3, d4),
    ensures
        records_all(refs_view(d2.parent_refs), refs_view(d4.parent_refs)),
        forall|i: int, j: int|
            0 <= i < d2.ast_structs.keys@.len() && 0 <= j < d2.ast_structs.vals@[i].members.keys@.len()
                && is_ast_part(d2, (#[trigger] d2.ast_structs.vals@[i].members.vals@[j]).part_key) ==> records(
                refs_view(d4.parent_refs),
                d2.resolved(d2.ast_structs.vals@[i].members.vals@[j].part_key@).name(),
                ParentRef::StructMember {
                    struct_name: d2.ast_structs.keys@[i],
                    member_name: d2.ast_structs.vals@[i].members.keys@[j],
                },
            ),
        forall|i: int, j: int|
            0 <= i < d2.ast_enums.keys@.len() && 0 <= j < d2.ast_enums.vals@[i].items@.len() && !enum_simple(
                &d2,
                d2.ast_enums.vals@[i],
                simple_fuel(&d2),
            ).unwrap() ==> records(
                refs_view(d4.parent_refs),
                d2.resolved((#[trigger] d2.ast_enums.vals@[i].items@[j])@).name(),
                ParentRef::EnumItem { enum_name: d2.ast_enums.keys@[i], item_name: d2.ast_enums.vals@[i].items@[j] },
            ),
{
    law_parent_refs_recorded(d2, d3);
    assert(d4.parent_refs == d3.parent_refs);
}

/// Whether, collecting from part `i` on with state `c`, some part at this
/// level ends the begin of a collection, before a part branches the rest
/// into a sub entry.
pub open spec fn level_ends<'a>(rt: Seq<char>, sp: Seq<PartV<'a>>, i: int, c: CView, pe: ParentsV, d: LangData<'a>) -> bool
    decreases sp.len() - i,
{
    if i < 0 || i >= sp.len() {
        false
    } else {
        let c1 = with_last(c, i, sp.len() as int);
        match sp[i] {
            PartV::Part(p, _, _) => {
                let (c2, pe2, ret) = collect_step(rt, p, c1, pe, d);
                match ret {
                    CollectPartReturn::CollectEnd => true,
                    CollectPartReturn::Continue => level_ends(rt, sp, i + 1, CView { is_first: false, ..c2 }, pe2, d),
                    CollectPartReturn::CollectSub => false,
                }
            },
            m => level_ends(rt, sp, i + 1, marker_step(m, c1), pe, d),
        }
    }
}

proof fn lemma_loop_begin_end<'a>(
    rt: Seq<char>,
    sp: Seq<PartV<'a>>,
    key: Seq<char>,
    from: int,
    i: int,
    c: CView,
    begin: Option<CView>,
    pe: ParentsV,
    en: Map<Seq<char>, EntryV>,
    d: LangData<'a>,
)
    requires
        0 <= i,
    ensures
        loop_from(rt, sp, key, from, i, c, begin, pe, en, d).1.contains_key(key),
        loop_from(rt, sp, key, from, i, c, begin, pe, en, d).1[key] is BeginEnd <==> (begin is Some || level_ends(
            rt,
            sp,
            i,
            c,
            pe,
            d,
        )),
    decreases sp.len() - i,
{
    reveal(loop_from);
    if i < sp.len() {
        let c1 = with_last(c, i, sp.len() as int);
        match sp[i] {
            PartV::Part(p, _, _) => {
                let (c2, pe2, ret) = collect_step(rt, p, c1, pe, d);
                match ret {
                    CollectPartReturn::CollectEnd => {
                        let b = close_v(CView { is_first: false, ..c2 });
                        lemma_loop_begin_end(rt, sp, key, from, i + 1, end_state(b), Some(b), pe2, en, d);
                    },
                    CollectPartReturn::Continue => {
                        lemma_loop_begin_end(rt, sp, key, from, i + 1, CView { is_first: false, ..c2 }, begin, pe2, en, d);
                    },
                    CollectPartReturn::CollectSub => {},
                }
            },
            m => {
                lemma_loop_begin_end(rt, sp, key, from, i + 1, marker_step(m, c1), begin, pe, en, d);
            },
        }
    }
}

/// Collecting a rule's flattened parts into the entry `key` gives it a
/// begin and end entry exactly when some part at this level ends the begin
/// of the collection; otherwise it is a match entry.
pub proof fn law_begin_end_entry<'a>(
    rt: Seq<char>,
    sp: Seq<PartV<'a>>,
    key: Seq<char>,
    from: int,
    state: CView,
    pe: ParentsV,
    en: Map<Seq<char>, EntryV>,
    d: LangData<'a>,
)
    requires
        0 <= from <= sp.len(),
    ensures
        run_from(rt, sp, key, from, state, pe, en, d).1.contains_key(key),
        run_from(rt, sp, key, from, state, pe, en, d).1[key] is BeginEnd <==> level_ends(
            rt,
            sp,
            from,
            open_v(state),
            pe,
            d,
        ),
        run_from(rt, sp, key, from, state, pe, en, d).1[key] is BeginEnd || run_from(
            rt,
            sp,
            key,
            from,
            state,
            pe,
            en,
            d,
        ).1[key] is Match,
{
    lemma_loop_start(rt, sp, key, from, state, pe, en, d);
    lemma_loop_begin_end(rt, sp, key, from, from, open_v(state), None, pe, en, d);
}

/// Which parts need a lifetime: characters, tags and numbers do not;
/// identifiers, strings, functions and whitespace do, as they borrow the
/// source; an AST or list part needs one exactly when the type of its rule
/// does. Looking at a part other than an AST or list part visits nothing.
pub proof fn law_part_lifetimes<'a>(data: &LangData<'a>, tp: TypedPart<'a>, vis: Set<Seq<char>>)
    ensures
        (tp is CharPart || tp is TagPart || tp is IntPart) ==> nl_typed_part(data, tp, vis) == Some((false, vis)),
        (tp is IdentPart || tp is StrPart || tp is StringPart || tp is WSPart || tp is FnPart) ==> nl_typed_part(
            data,
            tp,
            vis,
        ) == Some((true, vis)),
        tp matches TypedPart::AstPart { key } ==> (data.rule_types@.contains_key(key@) ==> nl_typed_part(data, tp, vis)
            == nl_rule_type(data, data.rule_types@[key@], vis)),
        tp matches TypedPart::ListPart { key } ==> (data.rule_types@.contains_key(key@) ==> nl_typed_part(data, tp, vis)
            == nl_rule_type(data, data.rule_types@[key@], vis)),
{
}

/// The names an AST entry stands for: its own type and the item of each
/// of its rules.
pub open spec fn entry_names<'a>(ad: AstData<'a>) -> Set<Seq<char>> {
    Set::new(
        |x: Seq<char>|
            x == ad.ast_type@ || exists|i: int| 0 <= i < ad.rules@.len() && (#[trigger] rule_item(ad.rules@[i]))@ == x,
    )
}

/// An AST entry whose rules all name its own type gets that type as its
/// single rule type and adds no enum; one whose rules name other types
/// too becomes an enum of its rules' items, in rule order, each once, and
/// its rule type names that enum.
pub proof fn law_entry_alternatives<'a>(st: BuildState<'a>, ad: AstData<'a>, tps: Map<Seq<char>, TypedPart<'a>>)
    ensures
        entry_names(ad) == set![ad.ast_type@] ==> {
            let r = ast_entry_state(st, ad, tps);
            &&& r.rule_types == st.rule_types.insert(ad.key@, RuleType::SingleType(ad.ast_type))
            &&& r.enums == st.enums
        },
        entry_names(ad) != set![ad.ast_type@] ==> {
            let r = ast_entry_state(st, ad, tps);
            let items = ad.rules@.map_values(|x: AstRule<'a>| rule_item(x));
            &&& r.rule_types == st.rule_types.insert(ad.key@, RuleType::ManyType(ad.ast_type))
            &&& r.enums == st.enums.insert(ad.ast_type@, new_enum_view(ad.ast_type, items))
            &&& r.enums[ad.ast_type@].items == dedup_names(items)
        },
{
    let items = ad.rules@.map_values(|x: AstRule<'a>| rule_item(x));
    let t = ad.ast_type@;
    if all_named(items, t) {
        assert forall|x: Seq<char>| entry_names(ad).contains(x) <==> set![t].contains(x) by {
            if entry_names(ad).contains(x) && x != t {
                let i = choose|i: int| 0 <= i < ad.rules@.len() && (#[trigger] rule_item(ad.rules@[i]))@ == x;
                assert(items[i] == rule_item(ad.rules@[i]));
            }
        }
        assert(entry_names(ad) =~= set![t]);
    } else {
        let i = choose|i: int| 0 <= i < items.len() && !((#[trigger] items[i])@ == t);
        assert(items[i] == rule_item(ad.rules@[i]));
        assert(entry_names(ad).contains(items[i]@));
        assert(!set![t].contains(items[i]@));
    }
}

} // verus!
