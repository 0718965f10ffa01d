//! Builds the AST types from the rules: a struct for every type a parts
//! rule builds, with a member for every named or valued part; an enum for
//! every entry or list with several alternatives; the places each type is
//! referred from; and which of those references are boxed.
use vstd::prelude::*;
use crate::strmap::{StrMap, StrSet};
use crate::lang_data::ast::{enum_simple, items_simple, resolved_simple, simple_fuel, AstEnum, AstMemberType, AstStruct, AstStructMember, RuleType};
use crate::lang_data::data::{refs_with, snake, AstData, LangData, ListData, ParentRef, ParentRefs, Resolved, ResolvedType, SnakeCased};
use crate::lang_data::typed_part::{auto_member, TypedPart};
use crate::lang_data::rule::{AstPartsRule, AstRule, AstRuleToken, AstRulePart, ListRule};
use crate::text::str_eq;
use crate::lang_data::lifetimes::{lemma_unvisited_insert, lemma_unvisited_subset, unvisited};

verus! {

pub struct BuildAst<'a, 'd> {
    pub data: &'a mut LangData<'d>,
}

/// A struct member, with its snake case name as characters.
pub struct MemberView<'a> {
    pub num_patterns: u32,
    pub name: &'a str,
    pub snake_case: Seq<char>,
    pub part_key: &'a str,
    pub struct_type: &'a str,
    pub optional: bool,
    pub not: bool,
    pub tpe: AstMemberType<'a>,
    pub boxed: bool,
}

pub open spec fn member_view<'a>(m: AstStructMember<'a>) -> MemberView<'a> {
    MemberView {
        num_patterns: m.num_patterns,
        name: m.name,
        snake_case: m.snake_case@,
        part_key: m.part_key,
        struct_type: m.struct_type,
        optional: m.optional,
        not: m.not,
        tpe: m.tpe,
        boxed: m.boxed,
    }
}

/// A struct, with its members by name, as values.
#[verifier::ext_equal]
pub struct StructView<'a> {
    pub name: &'a str,
    pub snake_case: Seq<char>,
    pub num_patterns: u32,
    pub members: Map<Seq<char>, MemberView<'a>>,
    pub members_ordered: Seq<&'a str>,
}

pub open spec fn struct_view<'a>(s: AstStruct<'a>) -> StructView<'a> {
    StructView {
        name: s.name,
        snake_case: s.snake_case@,
        num_patterns: s.num_patterns,
        members: s.members@.map_values(|m: AstStructMember<'a>| member_view(m)),
        members_ordered: s.members_ordered@,
    }
}

pub open spec fn structs_view<'a>(m: StrMap<&'a str, AstStruct<'a>>) -> Map<Seq<char>, StructView<'a>> {
    m@.map_values(|s: AstStruct<'a>| struct_view(s))
}

/// The structs map and every member map in it are well formed.
pub open spec fn structs_wf<'a>(m: StrMap<&'a str, AstStruct<'a>>) -> bool {
    &&& m.wf()
    &&& forall|k: Seq<char>| #[trigger] m@.contains_key(k) ==> m@[k].members.wf()
}

/// The structs after registering one built by a parts rule: a new struct,
/// or one more pattern for a known one.
pub open spec fn reg_struct_view<'a>(sv: Map<Seq<char>, StructView<'a>>, name: &'a str) -> Map<
    Seq<char>,
    StructView<'a>,
> {
    if sv.contains_key(name@) {
        let st = sv[name@];
        sv.insert(
            name@,
            StructView {
                name: st.name,
                snake_case: st.snake_case,
                num_patterns: (st.num_patterns + 1) as u32,
                members: st.members,
                members_ordered: st.members_ordered,
            },
        )
    } else {
        sv.insert(
            name@,
            StructView {
                name,
                snake_case: snake(name@),
                num_patterns: 0,
                members: Map::empty(),
                members_ordered: Seq::empty(),
            },
        )
    }
}

pub open spec fn member_tpe<'a>(part_key: &'a str, not: bool, tag: bool) -> AstMemberType<'a> {
    if not {
        AstMemberType::NotString
    } else if tag {
        AstMemberType::TagBool(part_key)
    } else {
        AstMemberType::KeyedToken(part_key)
    }
}

/// The structs after registering a member of a struct: a new member, or
/// one more pattern for a known one, optional when any pattern is.
pub open spec fn reg_member_view<'a>(
    sv: Map<Seq<char>, StructView<'a>>,
    struct_name: &'a str,
    member_name: &'a str,
    part_key: &'a str,
    optional: bool,
    not: bool,
    tag: bool,
) -> Map<Seq<char>, StructView<'a>> {
    let st = sv[struct_name@];
    let nm = if st.members.contains_key(member_name@) {
        let m = st.members[member_name@];
        MemberView {
            num_patterns: (m.num_patterns + 1) as u32,
            name: m.name,
            snake_case: m.snake_case,
            part_key: m.part_key,
            struct_type: m.struct_type,
            optional: m.optional || optional,
            not: m.not,
            tpe: m.tpe,
            boxed: m.boxed,
        }
    } else {
        MemberView {
            num_patterns: 0,
            name: member_name,
            snake_case: snake(member_name@),
            part_key,
            struct_type: struct_name,
            optional,
            not,
            tpe: member_tpe(part_key, not, tag),
            boxed: false,
        }
    };
    sv.insert(
        struct_name@,
        StructView {
            name: st.name,
            snake_case: st.snake_case,
            num_patterns: st.num_patterns,
            members: st.members.insert(member_name@, nm),
            members_ordered: st.members_ordered,
        },
    )
}

/// The member a part of a rule registers, if any: its name, the key of
/// its part, and whether it is a tag.
pub open spec fn part_member<'a>(p: AstRulePart<'a>, tps: Map<Seq<char>, TypedPart<'a>>) -> Option<
    (&'a str, &'a str, bool),
> {
    match p.token {
        AstRuleToken::Key(key) => {
            let tp = tps[key@];
            if auto_member(tp) {
                Some(
                    (
                        match p.member_key {
                            Some(m) => m,
                            None => key,
                        },
                        key,
                        false,
                    ),
                )
            } else {
                match tp {
                    TypedPart::CharPart { .. } | TypedPart::FnPart { .. } | TypedPart::WSPart => match p.member_key {
                        Some(m) => Some((m, key, false)),
                        None => None,
                    },
                    TypedPart::TagPart { .. } => match p.member_key {
                        Some(m) => Some((m, key, true)),
                        None => None,
                    },
                    _ => None,
                }
            }
        },
        AstRuleToken::Tag(string) => match p.member_key {
            Some(m) => Some((m, string, true)),
            None => None,
        },
        AstRuleToken::Func(..) => match p.member_key {
            Some(m) => Some((m, "", false)),
            None => None,
        },
        AstRuleToken::Group(..) => None,
    }
}

/// The structs after registering the members of the first `n` parts of a rule.
pub open spec fn rule_members_view<'a>(
    sv: Map<Seq<char>, StructView<'a>>,
    rule: AstPartsRule<'a>,
    tps: Map<Seq<char>, TypedPart<'a>>,
    n: int,
) -> Map<Seq<char>, StructView<'a>>
    decreases n,
{
    if n <= 0 {
        sv
    } else {
        let prev = rule_members_view(sv, rule, tps, n - 1);
        let p = rule.parts@[n - 1];
        match part_member(p, tps) {
            Some((m, k, tag)) => reg_member_view(prev, rule.ast_type, m, k, p.optional, p.not, tag),
            None => prev,
        }
    }
}

/// Every top level key of a rule names a typed part.
pub open spec fn rule_keys_known<'a>(rule: AstPartsRule<'a>, tps: Map<Seq<char>, TypedPart<'a>>) -> bool {
    forall|i: int|
        0 <= i < rule.parts@.len() ==> ((#[trigger] rule.parts@[i]).token matches AstRuleToken::Key(k)
            ==> tps.contains_key(k@))
}

/// Counts of patterns leave room for `n` more.
pub open spec fn counts_below<'a>(sv: Map<Seq<char>, StructView<'a>>, n: int) -> bool {
    forall|k: Seq<char>|
        #[trigger] sv.contains_key(k) ==> sv[k].num_patterns + n < u32::MAX && forall|j: Seq<char>|
            #[trigger] sv[k].members.contains_key(j) ==> sv[k].members[j].num_patterns + n < u32::MAX
}




/// An enum, with its snake case name as characters and its boxed items as a set.
#[verifier::ext_equal]
pub struct EnumView<'a> {
    pub name: &'a str,
    pub snake_case: Seq<char>,
    pub items: Seq<&'a str>,
    pub boxed_items: Set<Seq<char>>,
}

pub open spec fn enum_view<'a>(e: AstEnum<'a>) -> EnumView<'a> {
    EnumView { name: e.name, snake_case: e.snake_case@, items: e.items@, boxed_items: e.boxed_items@.dom() }
}

pub open spec fn enums_view<'a>(m: StrMap<&'a str, AstEnum<'a>>) -> Map<Seq<char>, EnumView<'a>> {
    m@.map_values(|e: AstEnum<'a>| enum_view(e))
}

/// The structs, enums and rule types built so far.
#[verifier::ext_equal]
pub struct BuildState<'a> {
    pub structs: Map<Seq<char>, StructView<'a>>,
    pub enums: Map<Seq<char>, EnumView<'a>>,
    pub rule_types: Map<Seq<char>, RuleType<'a>>,
}

/// What a rule stands for: the entry it refers to, or the type it builds.
pub open spec fn rule_item<'a>(r: AstRule<'a>) -> &'a str {
    match r {
        AstRule::RefRule(k) => k,
        AstRule::PartsRule(pr) => pr.ast_type,
    }
}

/// Names, each kept the first time its characters occur.
pub open spec fn dedup_names<'a>(s: Seq<&'a str>) -> Seq<&'a str>
    decreases s.len(),
{
    if s.len() == 0 {
        Seq::empty()
    } else {
        let d = dedup_names(s.drop_last());
        if d.map_values(|x: &'a str| x@).contains(s.last()@) {
            d
        } else {
            d.push(s.last())
        }
    }
}

/// A new enum of the given items, in order, each once.
pub open spec fn new_enum_view<'a>(name: &'a str, items: Seq<&'a str>) -> EnumView<'a> {
    EnumView { name, snake_case: snake(name@), items: dedup_names(items), boxed_items: Set::empty() }
}

/// The structs after registering the struct and members of a rule.
pub open spec fn rule_step<'a>(sv: Map<Seq<char>, StructView<'a>>, rule: AstRule<'a>, tps: Map<Seq<char>, TypedPart<'a>>) -> Map<
    Seq<char>,
    StructView<'a>,
> {
    match rule {
        AstRule::PartsRule(r) => rule_members_view(reg_struct_view(sv, r.ast_type), r, tps, r.parts@.len() as int),
        AstRule::RefRule(..) => sv,
    }
}

pub open spec fn rule_weight<'a>(rule: AstRule<'a>) -> int {
    match rule {
        AstRule::PartsRule(r) => 1 + r.parts@.len() as int,
        AstRule::RefRule(..) => 0,
    }
}

/// The structs after registering the first `n` rules' structs and members.
pub open spec fn rules_structs_view<'a>(
    sv: Map<Seq<char>, StructView<'a>>,
    rules: Seq<AstRule<'a>>,
    tps: Map<Seq<char>, TypedPart<'a>>,
    n: int,
) -> Map<Seq<char>, StructView<'a>>
    decreases n,
{
    if n <= 0 {
        sv
    } else {
        rule_step(rules_structs_view(sv, rules, tps, n - 1), rules[n - 1], tps)
    }
}

/// Whether every item has the characters `t`.
pub open spec fn all_named<'a>(items: Seq<&'a str>, t: Seq<char>) -> bool {
    forall|i: int| 0 <= i < items.len() ==> (#[trigger] items[i])@ == t
}

/// What an AST entry adds: the structs of its parts rules, and a single
/// rule type when all its rules are of its own type, else an enum of its
/// alternatives.
pub open spec fn ast_entry_state<'a>(st: BuildState<'a>, ad: AstData<'a>, tps: Map<Seq<char>, TypedPart<'a>>) -> BuildState<'a> {
    let structs = rules_structs_view(st.structs, ad.rules@, tps, ad.rules@.len() as int);
    let items = ad.rules@.map_values(|r: AstRule<'a>| rule_item(r));
    if all_named(items, ad.ast_type@) {
        BuildState {
            structs,
            enums: st.enums,
            rule_types: st.rule_types.insert(ad.key@, RuleType::SingleType(ad.ast_type)),
        }
    } else {
        BuildState {
            structs,
            enums: st.enums.insert(ad.ast_type@, new_enum_view(ad.ast_type, items)),
            rule_types: st.rule_types.insert(ad.key@, RuleType::ManyType(ad.ast_type)),
        }
    }
}

/// How much counting the rules of an entry may add to a count.
pub open spec fn rules_weight<'a>(rules: Seq<AstRule<'a>>, n: int) -> int
    decreases n,
{
    if n <= 0 {
        0
    } else {
        rules_weight(rules, n - 1) + rule_weight(rules[n - 1])
    }
}

pub open spec fn rules_keys_known<'a>(rules: Seq<AstRule<'a>>, tps: Map<Seq<char>, TypedPart<'a>>) -> bool {
    forall|i: int| 0 <= i < rules.len() ==> ((#[trigger] rules[i]) matches AstRule::PartsRule(r) ==> rule_keys_known(r, tps))
}

pub proof fn lemma_rules_weight_nonneg<'a>(rules: Seq<AstRule<'a>>, n: int)
    ensures
        rules_weight(rules, n) >= 0,
    decreases n,
{
    if n > 0 {
        lemma_rules_weight_nonneg(rules, n - 1);
    }
}



pub open spec fn list_rules_of<'a>(ld: ListData<'a>) -> Seq<AstRule<'a>> {
    ld.rules@.map_values(|r: ListRule<'a>| r.ast_rule)
}

/// The candidates for a list's type: its declared type, then what its rules stand for.
pub open spec fn list_candidates<'a>(ld: ListData<'a>) -> Seq<&'a str> {
    (match ld.ast_type {
        Some(t) => seq![t],
        None => Seq::empty(),
    }) + list_rules_of(ld).map_values(|r: AstRule<'a>| rule_item(r))
}

/// What a list adds: the structs of its parts rules, and a single rule
/// type when all its candidates name one type, else an enum of its
/// alternatives named by its type or its key.
pub open spec fn list_entry_state<'a>(st: BuildState<'a>, ld: ListData<'a>, tps: Map<Seq<char>, TypedPart<'a>>) -> BuildState<'a> {
    let rules = list_rules_of(ld);
    let structs = rules_structs_view(st.structs, rules, tps, rules.len() as int);
    let cands = list_candidates(ld);
    if cands.len() == 0 {
        BuildState { structs, enums: st.enums, rule_types: st.rule_types }
    } else if all_named(cands, cands[0]@) {
        BuildState {
            structs,
            enums: st.enums,
            rule_types: st.rule_types.insert(ld.key@, RuleType::SingleType(cands[0])),
        }
    } else {
        let en = match ld.ast_type {
            Some(t) => t,
            None => ld.key,
        };
        BuildState {
            structs,
            enums: st.enums.insert(en@, new_enum_view(en, rules.map_values(|r: AstRule<'a>| rule_item(r)))),
            rule_types: st.rule_types.insert(ld.key@, RuleType::ManyType(en)),
        }
    }
}

pub open spec fn enums_wf<'a>(m: StrMap<&'a str, AstEnum<'a>>) -> bool {
    &&& m.wf()
    &&& forall|k: Seq<char>| #[trigger] m@.contains_key(k) ==> m@[k].boxed_items.wf()
}

pub open spec fn build_state<'a>(
    structs: StrMap<&'a str, AstStruct<'a>>,
    enums: StrMap<&'a str, AstEnum<'a>>,
    rule_types: StrMap<&'a str, RuleType<'a>>,
) -> BuildState<'a> {
    BuildState { structs: structs_view(structs), enums: enums_view(enums), rule_types: rule_types@ }
}


/// The state after the first `n` AST entries.
pub open spec fn ast_phase<'a>(st: BuildState<'a>, ads: Seq<AstData<'a>>, tps: Map<Seq<char>, TypedPart<'a>>, n: int) -> BuildState<'a>
    decreases n,
{
    if n <= 0 {
        st
    } else {
        ast_entry_state(ast_phase(st, ads, tps, n - 1), ads[n - 1], tps)
    }
}

/// The state after the first `n` lists.
pub open spec fn list_phase<'a>(st: BuildState<'a>, lds: Seq<ListData<'a>>, tps: Map<Seq<char>, TypedPart<'a>>, n: int) -> BuildState<'a>
    decreases n,
{
    if n <= 0 {
        st
    } else {
        list_entry_state(list_phase(st, lds, tps, n - 1), lds[n - 1], tps)
    }
}

pub open spec fn ast_phase_weight<'a>(ads: Seq<AstData<'a>>, n: int) -> int
    decreases n,
{
    if n <= 0 {
        0
    } else {
        ast_phase_weight(ads, n - 1) + rules_weight(ads[n - 1].rules@, ads[n - 1].rules@.len() as int)
    }
}

pub open spec fn list_phase_weight<'a>(lds: Seq<ListData<'a>>, n: int) -> int
    decreases n,
{
    if n <= 0 {
        0
    } else {
        list_phase_weight(lds, n - 1) + rules_weight(list_rules_of(lds[n - 1]), list_rules_of(lds[n - 1]).len() as int)
    }
}

pub proof fn lemma_ast_phase_weight<'a>(ads: Seq<AstData<'a>>, i: int, n: int)
    requires
        0 <= i <= n,
    ensures
        0 <= ast_phase_weight(ads, i) <= ast_phase_weight(ads, n),
    decreases n,
{
    if n > 0 {
        lemma_rules_weight_nonneg(ads[n - 1].rules@, ads[n - 1].rules@.len() as int);
        if i < n {
            lemma_ast_phase_weight(ads, i, n - 1);
        } else {
            lemma_ast_phase_weight(ads, i - 1, n - 1);
        }
    }
}

pub proof fn lemma_list_phase_weight<'a>(lds: Seq<ListData<'a>>, i: int, n: int)
    requires
        0 <= i <= n,
    ensures
        0 <= list_phase_weight(lds, i) <= list_phase_weight(lds, n),
    decreases n,
{
    if n > 0 {
        lemma_rules_weight_nonneg(list_rules_of(lds[n - 1]), list_rules_of(lds[n - 1]).len() as int);
        if i < n {
            lemma_list_phase_weight(lds, i, n - 1);
        } else {
            lemma_list_phase_weight(lds, i - 1, n - 1);
        }
    }
}

pub open spec fn entries_keys_known<'a>(ads: Seq<AstData<'a>>, tps: Map<Seq<char>, TypedPart<'a>>) -> bool {
    forall|i: int| 0 <= i < ads.len() ==> rules_keys_known((#[trigger] ads[i]).rules@, tps)
}

pub open spec fn lists_keys_known<'a>(lds: Seq<ListData<'a>>, tps: Map<Seq<char>, TypedPart<'a>>) -> bool {
    forall|i: int| 0 <= i < lds.len() ==> rules_keys_known(list_rules_of(#[trigger] lds[i]), tps)
}


/// The enums found simple, by key.
pub open spec fn simple_enum_keys<'a>(d: LangData<'a>) -> Set<Seq<char>> {
    Set::new(
        |k: Seq<char>|
            d.ast_enums@.contains_key(k) && enum_simple(&d, d.ast_enums@[k], simple_fuel(&d)) == Some(true),
    )
}

/// The items of the enums found simple.
pub open spec fn simple_item_names<'a>(d: LangData<'a>) -> Set<Seq<char>> {
    Set::new(
        |x: Seq<char>|
            exists|k: Seq<char>| #[trigger]
                simple_enum_keys(d).contains(k) && item_names(d.ast_enums@[k]).contains(x),
    )
}

/// The fields `check_simple` does not change are as they were.
pub open spec fn same_but_simple<'a>(a: LangData<'a>, b: LangData<'a>) -> bool {
    &&& a.typed_parts == b.typed_parts
    &&& a.ast_data == b.ast_data
    &&& a.list_data == b.list_data
    &&& a.ast_enums == b.ast_enums
    &&& a.rule_types == b.rule_types
    &&& a.snake_cased == b.snake_cased
    &&& a.start_key == b.start_key
    &&& a.debug == b.debug
    &&& a.parent_refs == b.parent_refs
    &&& a.name == b.name
}

/// The data after marking the simple enums: each is recorded as simple,
/// and its items are recorded as simple structs and no longer generated.
pub open spec fn simplified<'a>(d0: LangData<'a>, d1: LangData<'a>) -> bool {
    &&& same_but_simple(d0, d1)
    &&& d1.simple_enums@.dom() == d0.simple_enums@.dom() + simple_enum_keys(d0)
    &&& d1.simple_structs@.dom() == d0.simple_structs@.dom() + simple_item_names(d0)
    &&& structs_view(d1.ast_structs) == structs_view(d0.ast_structs).remove_keys(simple_item_names(d0))
}

/// Whether simplicity can be decided for every enum.
pub open spec fn simple_decidable<'a>(d: LangData<'a>) -> bool {
    forall|k: Seq<char>| #[trigger]
        d.ast_enums@.contains_key(k) ==> enum_simple(&d, d.ast_enums@[k], simple_fuel(&d)) is Some
}


pub open spec fn item_names<'a>(e: AstEnum<'a>) -> Seq<Seq<char>> {
    e.items@.map_values(|it: &'a str| it@)
}

pub open spec fn marked_keys<'a>(keys: Seq<&'a str>, flags: Seq<bool>, i: int) -> Set<Seq<char>> {
    Set::new(|x: Seq<char>| exists|k: int| 0 <= k < i && flags[k] && #[trigger] keys[k]@ == x)
}

pub open spec fn marked_items<'a>(vals: Seq<AstEnum<'a>>, flags: Seq<bool>, i: int) -> Set<Seq<char>> {
    Set::new(
        |x: Seq<char>|
            exists|k: int|
                0 <= k < i && flags[k] && #[trigger] item_names(vals[k]).contains(x),
    )
}


/// Two snapshots of the data that agree on everything resolving and
/// deciding simplicity reads.
pub open spec fn same_shape<'a>(a: LangData<'a>, b: LangData<'a>) -> bool {
    &&& a.ast_enums == b.ast_enums
    &&& a.ast_structs == b.ast_structs
    &&& a.rule_types == b.rule_types
    &&& a.simple_enums == b.simple_enums
}

pub proof fn lemma_resolve_same<'a>(a: LangData<'a>, b: LangData<'a>, key: Seq<char>, fuel: nat)
    requires
        same_shape(a, b),
    ensures
        a.resolve_fuel(key, fuel) == b.resolve_fuel(key, fuel),
    decreases fuel,
{
    if fuel > 0 && a.rule_types@.contains_key(key) {
        lemma_resolve_same(a, b, a.rule_types@[key].type_key()@, (fuel - 1) as nat);
    }
}

pub proof fn lemma_enum_simple_same<'a>(a: LangData<'a>, b: LangData<'a>, e: AstEnum<'a>, fuel: nat)
    requires
        same_shape(a, b),
    ensures
        enum_simple(&a, e, fuel) == enum_simple(&b, e, fuel),
    decreases fuel, 2nat, 0nat,
{
    lemma_items_simple_same(a, b, e.items@, 0, fuel);
}

pub proof fn lemma_items_simple_same<'a>(a: LangData<'a>, b: LangData<'a>, items: Seq<&'a str>, i: int, fuel: nat)
    requires
        same_shape(a, b),
    ensures
        items_simple(&a, items, i, fuel) == items_simple(&b, items, i, fuel),
    decreases fuel, 1nat, (items.len() - i) as nat,
{
    if 0 <= i < items.len() {
        lemma_resolve_same(a, b, items[i]@, a.rule_types.keys@.len());
        if a.resolves(items[i]@) {
            lemma_resolved_simple_same(a, b, a.resolved(items[i]@), fuel);
            lemma_items_simple_same(a, b, items, i + 1, fuel);
        }
    }
}

pub proof fn lemma_resolved_simple_same<'a>(a: LangData<'a>, b: LangData<'a>, r: Resolved, fuel: nat)
    requires
        same_shape(a, b),
    ensures
        resolved_simple(&a, r, fuel) == resolved_simple(&b, r, fuel),
    decreases fuel, 0nat, 0nat,
{
    if let Resolved::Enum(k) = r {
        if fuel > 0 && a.ast_enums@.contains_key(k) {
            lemma_enum_simple_same(a, b, a.ast_enums@[k], (fuel - 1) as nat);
        }
    }
}

pub open spec fn refs_view<'a>(p: ParentRefs<'a>) -> Map<Seq<char>, Seq<ParentRef<'a>>> {
    p.refs@.map_values(|v: Vec<ParentRef<'a>>| v@)
}

/// The places after recording `r` as referring to `k`.
pub open spec fn refs_add<'a>(m: Map<Seq<char>, Seq<ParentRef<'a>>>, k: Seq<char>, r: ParentRef<'a>) -> Map<
    Seq<char>,
    Seq<ParentRef<'a>>,
> {
    m.insert(
        k,
        refs_with(
            if m.contains_key(k) {
                m[k]
            } else {
                Seq::empty()
            },
            r,
        ),
    )
}

/// Whether a part key names an AST or list part.
pub open spec fn is_ast_part<'a>(d: LangData<'a>, k: &'a str) -> bool {
    d.typed_parts@.contains_key(k@) && (d.typed_parts@[k@] is AstPart || d.typed_parts@[k@] is ListPart)
}

/// The places after recording the first `j` members of a struct that hold AST values.
pub open spec fn member_refs<'a>(
    d: LangData<'a>,
    m: Map<Seq<char>, Seq<ParentRef<'a>>>,
    sname: &'a str,
    st: AstStruct<'a>,
    j: int,
) -> Map<Seq<char>, Seq<ParentRef<'a>>>
    decreases j,
{
    if j <= 0 {
        m
    } else {
        let prev = member_refs(d, m, sname, st, j - 1);
        let mem = st.members.vals@[j - 1];
        if is_ast_part(d, mem.part_key) {
            refs_add(
                prev,
                d.resolved(mem.part_key@).name(),
                ParentRef::StructMember { struct_name: sname, member_name: st.members.keys@[j - 1] },
            )
        } else {
            prev
        }
    }
}

/// The places after recording the members of the first `i` structs.
pub open spec fn struct_refs_phase<'a>(d: LangData<'a>, m: Map<Seq<char>, Seq<ParentRef<'a>>>, i: int) -> Map<
    Seq<char>,
    Seq<ParentRef<'a>>,
>
    decreases i,
{
    if i <= 0 {
        m
    } else {
        let st = d.ast_structs.vals@[i - 1];
        member_refs(d, struct_refs_phase(d, m, i - 1), d.ast_structs.keys@[i - 1], st, st.members.keys@.len() as int)
    }
}

/// The places after recording the first `j` items of an enum.
pub open spec fn item_refs<'a>(
    d: LangData<'a>,
    m: Map<Seq<char>, Seq<ParentRef<'a>>>,
    ename: &'a str,
    e: AstEnum<'a>,
    j: int,
) -> Map<Seq<char>, Seq<ParentRef<'a>>>
    decreases j,
{
    if j <= 0 {
        m
    } else {
        refs_add(
            item_refs(d, m, ename, e, j - 1),
            d.resolved(e.items@[j - 1]@).name(),
            ParentRef::EnumItem { enum_name: ename, item_name: e.items@[j - 1] },
        )
    }
}

/// The places after recording the items of the first `i` enums that are not simple.
pub open spec fn enum_refs_phase<'a>(d: LangData<'a>, m: Map<Seq<char>, Seq<ParentRef<'a>>>, i: int) -> Map<
    Seq<char>,
    Seq<ParentRef<'a>>,
>
    decreases i,
{
    if i <= 0 {
        m
    } else {
        let prev = enum_refs_phase(d, m, i - 1);
        let e = d.ast_enums.vals@[i - 1];
        if enum_simple(&d, e, simple_fuel(&d)).unwrap() {
            prev
        } else {
            item_refs(d, prev, d.ast_enums.keys@[i - 1], e, e.items@.len() as int)
        }
    }
}

/// What recording the places of AST values needs: every part key of an
/// AST member and every item of an enum that is not simple resolves.
pub open spec fn refs_ok<'a>(d: LangData<'a>) -> bool {
    &&& d.wf()
    &&& simple_decidable(d)
    &&& forall|k: Seq<char>, j: Seq<char>| #[trigger]
        d.ast_structs@.contains_key(k) && #[trigger] d.ast_structs@[k].members@.contains_key(j) && is_ast_part(
            d,
            d.ast_structs@[k].members@[j].part_key,
        ) ==> d.resolves(d.ast_structs@[k].members@[j].part_key@)
    &&& forall|k: Seq<char>, i: int| #[trigger]
        d.ast_enums@.contains_key(k) && 0 <= i < d.ast_enums@[k].items@.len() && !enum_simple(
            &d,
            d.ast_enums@[k],
            simple_fuel(&d),
        ).unwrap() ==> d.resolves((#[trigger] d.ast_enums@[k].items@[i])@)
}

/// The fields recording places does not change are as they were.
pub open spec fn same_but_refs<'a>(a: LangData<'a>, b: LangData<'a>) -> bool {
    &&& a.typed_parts == b.typed_parts
    &&& a.ast_data == b.ast_data
    &&& a.list_data == b.list_data
    &&& a.ast_structs == b.ast_structs
    &&& a.ast_enums == b.ast_enums
    &&& a.rule_types == b.rule_types
    &&& a.snake_cased == b.snake_cased
    &&& a.start_key == b.start_key
    &&& a.simple_enums == b.simple_enums
    &&& a.simple_structs == b.simple_structs
    &&& a.debug == b.debug
    &&& a.name == b.name
}

/// The data after recording, for each struct and enum, the members and
/// items that hold it: members in order of struct and member name, then
/// items of enums that are not simple, in order of enum name and item.
pub open spec fn referenced<'a>(d0: LangData<'a>, d1: LangData<'a>) -> bool {
    &&& same_but_refs(d0, d1)
    &&& refs_view(d1.parent_refs) == enum_refs_phase(
        d0,
        struct_refs_phase(d0, refs_view(d0.parent_refs), d0.ast_structs.keys@.len() as int),
        d0.ast_enums.keys@.len() as int,
    )
}


/// A reference to box: a struct member or an enum item that refers back up
/// to a type that contains it.
pub enum ToBox<'a> {
    StructMember { struct_name: &'a str, member_name: &'a str },
    EnumItem { enum_name: &'a str, item_name: &'a str },
}

/// The walk up the places that refer to `from`, collecting the places in
/// `to_box` met on the way, and the names visited after it.
pub open spec fn box_walk<'a>(to_box: Seq<char>, from: Seq<char>, p: ParentRefs<'a>, vis: Set<Seq<char>>) -> (
    Seq<ToBox<'a>>,
    Set<Seq<char>>,
)
    decreases unvisited(p.refs.keys@, vis), 0nat,
{
    if vis.contains(from) {
        (Seq::empty(), vis)
    } else if !p.refs.wf() || !p.refs@.contains_key(from) {
        (Seq::empty(), vis.insert(from))
    } else {
        proof {
            p.refs.lemma_view_values();
            p.refs.lemma_idx(p.refs.idx(from));
            lemma_unvisited_insert(p.refs.keys@, vis, from, p.refs.idx(from));
        }
        box_refs(to_box, p.refs@[from]@, 0, p, vis.insert(from))
    }
}

/// The walk through the places from position `i` on.
pub open spec fn box_refs<'a>(to_box: Seq<char>, rs: Seq<ParentRef<'a>>, i: int, p: ParentRefs<'a>, vis: Set<Seq<char>>) -> (
    Seq<ToBox<'a>>,
    Set<Seq<char>>,
)
    decreases unvisited(p.refs.keys@, vis), (rs.len() - i + 1) as nat,
{
    if i < 0 || i >= rs.len() {
        (Seq::empty(), vis)
    } else {
        let (head, parent) = match rs[i] {
            ParentRef::StructMember { struct_name, member_name } => (
                if struct_name@ == to_box {
                    seq![ToBox::StructMember { struct_name, member_name }]
                } else {
                    Seq::empty()
                },
                struct_name@,
            ),
            ParentRef::EnumItem { enum_name, item_name } => (
                if enum_name@ == to_box {
                    seq![ToBox::EnumItem { enum_name, item_name }]
                } else {
                    Seq::empty()
                },
                enum_name@,
            ),
        };
        let (v, vis2) = box_walk(to_box, parent, p, vis);
        let vis3 = vis.union(vis2);
        proof {
            lemma_unvisited_subset(p.refs.keys@, vis, vis3);
        }
        let (w, vis4) = box_refs(to_box, rs, i + 1, p, vis3);
        (head + v + w, vis4)
    }
}


/// A recorded place names a struct member or an enum that exists.
pub open spec fn ref_sound<'a>(r: ParentRef<'a>, sv: Map<Seq<char>, StructView<'a>>, ev: Map<Seq<char>, EnumView<'a>>) -> bool {
    match r {
        ParentRef::StructMember { struct_name, member_name } => sv.contains_key(struct_name@)
            && sv[struct_name@].members.contains_key(member_name@),
        ParentRef::EnumItem { enum_name, .. } => ev.contains_key(enum_name@),
    }
}

pub open spec fn refs_sound<'a>(p: ParentRefs<'a>, sv: Map<Seq<char>, StructView<'a>>, ev: Map<Seq<char>, EnumView<'a>>) -> bool {
    forall|k: Seq<char>, i: int|
        #[trigger] p.refs@.contains_key(k) && 0 <= i < p.refs@[k]@.len() ==> ref_sound(#[trigger] p.refs@[k]@[i], sv, ev)
}

/// A reference to box names a struct member or an enum that exists.
pub open spec fn box_sound<'a>(t: ToBox<'a>, sv: Map<Seq<char>, StructView<'a>>, ev: Map<Seq<char>, EnumView<'a>>) -> bool {
    match t {
        ToBox::StructMember { struct_name, member_name } => sv.contains_key(struct_name@)
            && sv[struct_name@].members.contains_key(member_name@),
        ToBox::EnumItem { enum_name, .. } => ev.contains_key(enum_name@),
    }
}

/// The AST key behind an AST or list part key.
pub open spec fn ast_key_of<'a>(d: LangData<'a>, k: &'a str) -> &'a str {
    match d.typed_parts@[k@] {
        TypedPart::AstPart { key } => key,
        TypedPart::ListPart { key } => key,
        _ => k,
    }
}

/// References to box collected so far, and the names visited for each AST key.
pub type BoxAcc<'a> = (Seq<ToBox<'a>>, Map<Seq<char>, Set<Seq<char>>>);

pub open spec fn visited_of(m: Map<Seq<char>, Set<Seq<char>>>, k: Seq<char>) -> Set<Seq<char>> {
    if m.contains_key(k) {
        m[k]
    } else {
        Set::empty()
    }
}

/// After the first `j` members of a struct: for each member holding an
/// AST value, the walk up from the struct looking for that value's type.
pub open spec fn member_boxes<'a>(d: LangData<'a>, acc: BoxAcc<'a>, sname: &'a str, st: AstStruct<'a>, j: int) -> BoxAcc<'a>
    decreases j,
{
    if j <= 0 {
        acc
    } else {
        let prev = member_boxes(d, acc, sname, st, j - 1);
        let mem = st.members.vals@[j - 1];
        if is_ast_part(d, mem.part_key) {
            let ak = ast_key_of(d, mem.part_key)@;
            let (v, vis) = box_walk(ak, sname@, d.parent_refs, visited_of(prev.1, ak));
            (prev.0 + v, prev.1.insert(ak, vis))
        } else {
            prev
        }
    }
}

pub open spec fn struct_boxes_phase<'a>(d: LangData<'a>, acc: BoxAcc<'a>, i: int) -> BoxAcc<'a>
    decreases i,
{
    if i <= 0 {
        acc
    } else {
        let st = d.ast_structs.vals@[i - 1];
        member_boxes(d, struct_boxes_phase(d, acc, i - 1), d.ast_structs.keys@[i - 1], st, st.members.keys@.len() as int)
    }
}

/// The references to box of the whole language.
pub open spec fn boxes_of<'a>(d: LangData<'a>) -> Seq<ToBox<'a>> {
    struct_boxes_phase(d, (Seq::empty(), Map::empty()), d.ast_structs.keys@.len() as int).0
}

/// The structs and enums after boxing the first `n` references.
pub open spec fn apply_boxes<'a>(
    sv: Map<Seq<char>, StructView<'a>>,
    ev: Map<Seq<char>, EnumView<'a>>,
    ts: Seq<ToBox<'a>>,
    n: int,
) -> (Map<Seq<char>, StructView<'a>>, Map<Seq<char>, EnumView<'a>>)
    decreases n,
{
    if n <= 0 {
        (sv, ev)
    } else {
        let (s1, e1) = apply_boxes(sv, ev, ts, n - 1);
        match ts[n - 1] {
            ToBox::StructMember { struct_name, member_name } => {
                let st = s1[struct_name@];
                let m = st.members[member_name@];
                (
                    s1.insert(
                        struct_name@,
                        StructView {
                            name: st.name,
                            snake_case: st.snake_case,
                            num_patterns: st.num_patterns,
                            members: st.members.insert(
                                member_name@,
                                MemberView {
                                    num_patterns: m.num_patterns,
                                    name: m.name,
                                    snake_case: m.snake_case,
                                    part_key: m.part_key,
                                    struct_type: m.struct_type,
                                    optional: m.optional,
                                    not: m.not,
                                    tpe: m.tpe,
                                    boxed: true,
                                },
                            ),
                            members_ordered: st.members_ordered,
                        },
                    ),
                    e1,
                )
            },
            ToBox::EnumItem { enum_name, item_name } => {
                let e = e1[enum_name@];
                (
                    s1,
                    e1.insert(
                        enum_name@,
                        EnumView {
                            name: e.name,
                            snake_case: e.snake_case,
                            items: e.items,
                            boxed_items: e.boxed_items.insert(item_name@),
                        },
                    ),
                )
            },
        }
    }
}

/// The fields boxing does not change are as they were.
pub open spec fn same_but_boxes<'a>(a: LangData<'a>, b: LangData<'a>) -> bool {
    &&& a.typed_parts == b.typed_parts
    &&& a.ast_data == b.ast_data
    &&& a.list_data == b.list_data
    &&& a.rule_types == b.rule_types
    &&& a.snake_cased == b.snake_cased
    &&& a.start_key == b.start_key
    &&& a.simple_enums == b.simple_enums
    &&& a.simple_structs == b.simple_structs
    &&& a.debug == b.debug
    &&& a.parent_refs == b.parent_refs
    &&& a.name == b.name
}

/// The data after boxing every struct member and enum item that refers
/// back up to a type containing it.
pub open spec fn boxed<'a>(d0: LangData<'a>, d1: LangData<'a>) -> bool {
    let ts = boxes_of(d0);
    let (sv, ev) = apply_boxes(structs_view(d0.ast_structs), enums_view(d0.ast_enums), ts, ts.len() as int);
    &&& same_but_boxes(d0, d1)
    &&& structs_view(d1.ast_structs) == sv
    &&& enums_view(d1.ast_enums) == ev
}


pub open spec fn struct_names_match<'a>(sv: Map<Seq<char>, StructView<'a>>) -> bool {
    forall|k: Seq<char>| #[trigger] sv.contains_key(k) ==> sv[k].name@ == k
}

pub open spec fn enum_names_match<'a>(ev: Map<Seq<char>, EnumView<'a>>) -> bool {
    forall|k: Seq<char>| #[trigger] ev.contains_key(k) ==> ev[k].name@ == k
}


pub open spec fn visited_view<'a>(m: StrMap<&'a str, StrSet<&'a str>>) -> Map<Seq<char>, Set<Seq<char>>> {
    m@.map_values(|v: StrSet<&'a str>| v@.dom())
}

pub open spec fn visited_wf<'a>(m: StrMap<&'a str, StrSet<&'a str>>) -> bool {
    &&& m.wf()
    &&& forall|k: Seq<char>| #[trigger] m@.contains_key(k) ==> m@[k].wf()
}

/// The fields `build_from_*` does not change are as they were.
pub open spec fn same_but_built<'a>(a: LangData<'a>, b: LangData<'a>) -> bool {
    &&& a.typed_parts == b.typed_parts
    &&& a.ast_data == b.ast_data
    &&& a.list_data == b.list_data
    &&& a.start_key == b.start_key
    &&& a.simple_enums == b.simple_enums
    &&& a.simple_structs == b.simple_structs
    &&& a.debug == b.debug
    &&& a.parent_refs == b.parent_refs
    &&& a.name == b.name
}

/// The data after building the structs, enums and rule types of the AST
/// entries, then of the lists, each in order of key.
pub open spec fn built<'a>(d0: LangData<'a>, d1: LangData<'a>) -> bool {
    &&& same_but_built(d0, d1)
    &&& build_state(d1.ast_structs, d1.ast_enums, d1.rule_types) == list_phase(
        ast_phase(
            build_state(d0.ast_structs, d0.ast_enums, d0.rule_types),
            d0.ast_data.vals@,
            d0.typed_parts@,
            d0.ast_data.vals@.len() as int,
        ),
        d0.list_data.vals@,
        d0.typed_parts@,
        d0.list_data.vals@.len() as int,
    )
    &&& d1.snake_cased.wf()
    &&& d0.snake_cased.cache@.dom().subset_of(d1.snake_cased.cache@.dom())
    &&& d0.list_data@.dom().subset_of(d1.snake_cased.cache@.dom())
}

/// How much building may add to a count of patterns.
pub open spec fn build_weight<'a>(d: LangData<'a>) -> int {
    ast_phase_weight(d.ast_data.vals@, d.ast_data.vals@.len() as int) + list_phase_weight(
        d.list_data.vals@,
        d.list_data.vals@.len() as int,
    )
}

/// What building the AST types needs: well formed data, known keys,
/// counts with room, and at each later pass the lookups it makes succeed,
/// among them those of the places already recorded.
pub open spec fn build_ok<'a>(d: LangData<'a>) -> bool {
    &&& d.wf()
    &&& entries_keys_known(d.ast_data.vals@, d.typed_parts@)
    &&& lists_keys_known(d.list_data.vals@, d.typed_parts@)
    &&& build_weight(d) + 1 < u32::MAX
    &&& counts_below(structs_view(d.ast_structs), build_weight(d))
    &&& struct_names_match(structs_view(d.ast_structs))
    &&& enum_names_match(enums_view(d.ast_enums))
    &&& forall|d1: LangData<'a>| #[trigger] built(d, d1) ==> simple_decidable(d1)
    &&& forall|d1: LangData<'a>, d2: LangData<'a>| #[trigger] built(d, d1) && #[trigger] simplified(d1, d2) ==> refs_ok(d2)
        && refs_sound(d2.parent_refs, structs_view(d2.ast_structs), enums_view(d2.ast_enums))
}


/// The data after boxing the given references.
pub open spec fn boxed_by<'a>(d0: LangData<'a>, d1: LangData<'a>, ts: Seq<ToBox<'a>>) -> bool {
    let (sv, ev) = apply_boxes(structs_view(d0.ast_structs), enums_view(d0.ast_enums), ts, ts.len() as int);
    &&& same_but_boxes(d0, d1)
    &&& structs_view(d1.ast_structs) == sv
    &&& enums_view(d1.ast_enums) == ev
}

pub proof fn lemma_rules_weight_prefix<'a>(rules: Seq<AstRule<'a>>, i: int, n: int)
    requires
        0 <= i <= n,
    ensures
        rules_weight(rules, i) <= rules_weight(rules, n),
    decreases n - i,
{
    if i < n {
        lemma_rules_weight_prefix(rules, i, n - 1);
    }
}

pub proof fn lemma_counts_reg_struct<'a>(sv: Map<Seq<char>, StructView<'a>>, name: &'a str, n: int)
    requires
        0 <= n,
        n + 1 < u32::MAX,
        counts_below(sv, n + 1),
    ensures
        counts_below(reg_struct_view(sv, name), n),
{
    let r = reg_struct_view(sv, name);
    assert forall|k: Seq<char>| #[trigger] r.contains_key(k) implies r[k].num_patterns + n < u32::MAX
        && forall|j: Seq<char>| #[trigger] r[k].members.contains_key(j) ==> r[k].members[j].num_patterns + n
            < u32::MAX by {
        if k != name@ || sv.contains_key(k) {
            assert(sv.contains_key(k));
            assert forall|j: Seq<char>| #[trigger] r[k].members.contains_key(j) implies r[k].members[j].num_patterns
                + n < u32::MAX by {
                assert(sv[k].members.contains_key(j));
            }
        }
    }
}

pub proof fn lemma_counts_reg_member<'a>(
    sv: Map<Seq<char>, StructView<'a>>,
    struct_name: &'a str,
    member_name: &'a str,
    part_key: &'a str,
    optional: bool,
    not: bool,
    tag: bool,
    n: int,
)
    requires
        0 <= n,
        n + 1 < u32::MAX,
        sv.contains_key(struct_name@),
        counts_below(sv, n + 1),
    ensures
        counts_below(reg_member_view(sv, struct_name, member_name, part_key, optional, not, tag), n),
{
    let r = reg_member_view(sv, struct_name, member_name, part_key, optional, not, tag);
    assert forall|k: Seq<char>| #[trigger] r.contains_key(k) implies r[k].num_patterns + n < u32::MAX
        && forall|j: Seq<char>| #[trigger] r[k].members.contains_key(j) ==> r[k].members[j].num_patterns + n
            < u32::MAX by {
        if k == struct_name@ {
            assert(sv.contains_key(k));
            assert forall|j: Seq<char>| #[trigger] r[k].members.contains_key(j) implies r[k].members[j].num_patterns
                + n < u32::MAX by {
                if j != member_name@ {
                    assert(sv[k].members.contains_key(j));
                } else if sv[k].members.contains_key(j) {
                }
            }
        } else {
            assert(sv.contains_key(k));
            assert forall|j: Seq<char>| #[trigger] r[k].members.contains_key(j) implies r[k].members[j].num_patterns
                + n < u32::MAX by {
                assert(sv[k].members.contains_key(j));
            }
        }
    }
}

/// The member a part registers, computed.
fn get_part_member<'d>(part: &AstRulePart<'d>, typed_parts: &StrMap<&'d str, TypedPart<'d>>) -> (r: Option<(&'d str, &'d str, bool)>)
    requires
        typed_parts.wf(),
        part.token matches AstRuleToken::Key(k) ==> typed_parts@.contains_key(k@),
    ensures
        r == part_member(*part, typed_parts@),
{
    match &part.token {
        AstRuleToken::Key(key) => {
            let typed_part = match typed_parts.get(key) {
                Some(t) => t,
                None => {
                    assert(false);
                    return None;
                },
            };
            if typed_part.is_auto_member() {
                Some(
                    (
                        match part.member_key {
                            Some(m) => m,
                            None => key,
                        },
                        key,
                        false,
                    ),
                )
            } else {
                match typed_part {
                    TypedPart::CharPart { .. } | TypedPart::FnPart { .. } | TypedPart::WSPart => {
                        // Count as member if member key is given
                        match part.member_key {
                            Some(m) => Some((m, *key, false)),
                            None => None,
                        }
                    },
                    TypedPart::TagPart { .. } => {
                        match part.member_key {
                            Some(m) => Some((m, *key, true)),
                            None => None,
                        }
                    },
                    _ => None,
                }
            }
        },
        AstRuleToken::Tag(string) => match part.member_key {
            Some(m) => Some((m, *string, true)),
            None => None,
        },
        AstRuleToken::Func(..) => match part.member_key {
            Some(m) => Some((m, "", false)),
            None => None,
        },
        AstRuleToken::Group(..) => None,
    }
}


fn rule_items_of<'d>(rules: &Vec<AstRule<'d>>) -> (r: Vec<&'d str>)
    ensures
        r@ == rules@.map_values(|x: AstRule<'d>| rule_item(x)),
{
    let mut v: Vec<&'d str> = Vec::new();
    let n = rules.len();
    let mut i: usize = 0;
    while i < n
        invariant
            n == rules@.len(),
            i <= n,
            v@ == rules@.map_values(|x: AstRule<'d>| rule_item(x)).take(i as int),
        decreases n - i,
    {
        let item = match &rules[i] {
            AstRule::RefRule(key_ref) => *key_ref,
            AstRule::PartsRule(rule) => rule.ast_type,
        };
        v.push(item);
        assert(rules@.map_values(|x: AstRule<'d>| rule_item(x)).take(i + 1) =~= v@);
        i += 1;
    }
    assert(rules@.map_values(|x: AstRule<'d>| rule_item(x)).take(n as int) =~= rules@.map_values(|x: AstRule<'d>| rule_item(x)));
    v
}

fn list_rule_items_of<'d>(ld: &ListData<'d>) -> (r: Vec<&'d str>)
    ensures
        r@ == list_rules_of(*ld).map_values(|x: AstRule<'d>| rule_item(x)),
{
    let ghost target = list_rules_of(*ld).map_values(|x: AstRule<'d>| rule_item(x));
    let mut v: Vec<&'d str> = Vec::new();
    let n = ld.rules.len();
    let mut i: usize = 0;
    while i < n
        invariant
            n == ld.rules@.len(),
            target == list_rules_of(*ld).map_values(|x: AstRule<'d>| rule_item(x)),
            i <= n,
            v@ == target.take(i as int),
        decreases n - i,
    {
        let item = match &ld.rules[i].ast_rule {
            AstRule::RefRule(key_ref) => *key_ref,
            AstRule::PartsRule(rule) => rule.ast_type,
        };
        v.push(item);
        assert(target.take(i + 1) =~= v@);
        i += 1;
    }
    assert(target.take(n as int) =~= target);
    v
}

fn all_named_exec<'d>(items: &Vec<&'d str>, t: &str) -> (r: bool)
    ensures
        r == all_named(items@, t@),
{
    let n = items.len();
    let mut i: usize = 0;
    while i < n
        invariant
            n == items@.len(),
            i <= n,
            forall|j: int| 0 <= j < i ==> (#[trigger] items@[j])@ == t@,
        decreases n - i,
    {
        if !str_eq(items[i], t) {
            return false;
        }
        i += 1;
    }
    true
}

/// A new enum of the given items, in order, each once.
fn new_enum<'d>(name: &'d str, items: &Vec<&'d str>, snake_cased: &mut SnakeCased<'d>) -> (e: AstEnum<'d>)
    requires
        old(snake_cased).wf(),
    ensures
        final(snake_cased).wf(),
        final(snake_cased).cache@.dom() == old(snake_cased).cache@.dom().insert(name@),
        e.boxed_items.wf(),
        enum_view(e) =~~= new_enum_view(name, items@),
{
    let mut e = AstEnum::new(name, snake_cased.get(name));
    let mut added: StrSet<&'d str> = StrMap::new();
    let n = items.len();
    let mut i: usize = 0;
    while i < n
        invariant
            n == items@.len(),
            i <= n,
            added.wf(),
            e.boxed_items.wf(),
            e.boxed_items@ == Map::<Seq<char>, ()>::empty(),
            e.name == name,
            e.snake_case@ == snake(name@),
            e.items@ == dedup_names(items@.take(i as int)),
            forall|k: Seq<char>| #[trigger] added@.contains_key(k) == item_names(e).contains(k),
        decreases n - i,
    {
        let item = items[i];
        assert(items@.take(i + 1).drop_last() =~= items@.take(i as int));
        let ghost a0 = added@;
        let ghost i0 = e.items@;
        if !added.contains_key(item) {
            e.items.push(item);
            added.insert(item, ());
            proof {
                assert forall|k: Seq<char>| #[trigger] added@.contains_key(k) == item_names(e).contains(k) by {
                    let old_items = e.items@.drop_last();
                    assert(old_items == i0);
                    let ov = old_items.map_values(|x: &'d str| x@);
                    assert(a0.contains_key(k) == ov.contains(k));
                    assert(added@ == a0.insert(item@, ()));
                    let nv = item_names(e);
                    assert(nv =~= ov.push(item@));
                    if ov.contains(k) {
                        let j = choose|j: int| 0 <= j < ov.len() && #[trigger] ov[j] == k;
                        assert(nv[j] == k);
                    }
                    if k == item@ {
                        assert(nv[old_items.len() as int] == k);
                    }
                }
            }
        }
        i += 1;
    }
    assert(items@.take(n as int) =~= items@);
    assert(e.boxed_items@.dom() =~= Set::<Seq<char>>::empty());
    e
}



/// Records that `pr` refers to `key`.
fn record_ref<'d>(refs: &mut ParentRefs<'d>, key: &'d str, pr: ParentRef<'d>, Ghost(sv): Ghost<Map<Seq<char>, StructView<'d>>>, Ghost(ev): Ghost<Map<Seq<char>, EnumView<'d>>>)
    requires
        old(refs).wf(),
        refs_sound(*old(refs), sv, ev),
        ref_sound(pr, sv, ev),
    ensures
        final(refs).wf(),
        refs_sound(*final(refs), sv, ev),
        refs_view(*final(refs)) == refs_add(refs_view(*old(refs)), key@, pr),
{
    let ghost r0 = *refs;
    refs.add_ref(key, pr);
    proof {
        assert forall|k: Seq<char>| #[trigger] refs_view(*refs).contains_key(k) == refs_add(refs_view(r0), key@, pr).contains_key(k) by {
            assert(refs.refs@.dom().contains(k) == r0.refs@.dom().insert(key@).contains(k));
        }
        assert forall|k: Seq<char>| #[trigger] refs_view(*refs).contains_key(k) implies refs_view(*refs)[k] == refs_add(refs_view(r0), key@, pr)[k] by {
            if k == key@ {
                assert(refs.refs@[key@]@ == refs_with(r0.refs_of(key@), pr));
            } else {
                assert(r0.refs@.contains_key(k));
                assert(refs.refs@[k] == r0.refs@[k]);
            }
        }
        assert(refs_view(*refs) =~= refs_add(refs_view(r0), key@, pr));
        assert forall|k: Seq<char>, i: int|
            #[trigger] refs.refs@.contains_key(k) && 0 <= i < refs.refs@[k]@.len() implies ref_sound(#[trigger] refs.refs@[k]@[i], sv, ev) by {
            if k == key@ {
                let v0 = r0.refs_of(key@);
                if i < v0.len() {
                    assert(r0.refs@.contains_key(k));
                    assert(refs.refs@[k]@[i] == r0.refs@[k]@[i]);
                }
            } else {
                assert(r0.refs@.contains_key(k));
            }
        }
    }
}


/// The references to box met walking up from `from_ast`: the places that
/// refer to it and, recursively, to those places' types, each name once.
fn set_boxed<'d>(
    to_box: &'d str,
    from_ast: &'d str,
    parent_refs: &ParentRefs<'d>,
    visited: &mut StrSet<&'d str>,
    Ghost(sv): Ghost<Map<Seq<char>, StructView<'d>>>,
    Ghost(ev): Ghost<Map<Seq<char>, EnumView<'d>>>,
) -> (v: Vec<ToBox<'d>>)
    requires
        old(visited).wf(),
        parent_refs.wf(),
        refs_sound(*parent_refs, sv, ev),
    ensures
        forall|i: int| 0 <= i < v@.len() ==> box_sound(#[trigger] v@[i], sv, ev),
        final(visited).wf(),
        old(visited)@.dom().subset_of(final(visited)@.dom()),
        (v@, final(visited)@.dom()) == box_walk(to_box@, from_ast@, *parent_refs, old(visited)@.dom()),
    decreases unvisited(parent_refs.refs.keys@, old(visited)@.dom()),
{
    let ghost vis0 = visited@.dom();
    let ghost keys = parent_refs.refs.keys@;
    let mut v: Vec<ToBox<'d>> = Vec::new();
    if visited.contains_key(from_ast) {
        return v;
    }
    visited.insert(from_ast, ());
    let ghost vis1 = visited@.dom();
    assert(vis1 =~= vis0.insert(from_ast@));
    match parent_refs.refs.get(from_ast) {
        None => {
            v
        },
        Some(refs) => {
            let ghost rs = refs@;
            proof {
                parent_refs.refs.lemma_view_values();
                parent_refs.refs.lemma_idx(parent_refs.refs.idx(from_ast@));
                lemma_unvisited_insert(keys, vis0, from_ast@, parent_refs.refs.idx(from_ast@));
            }
            assert(box_walk(to_box@, from_ast@, *parent_refs, vis0) == box_refs(to_box@, rs, 0, *parent_refs, vis1));
            let n = refs.len();
            let mut i: usize = 0;
            while i < n
                invariant
                    n == rs.len(),
                    rs == refs@,
                    keys == parent_refs.refs.keys@,
                    parent_refs.wf(),
                    refs_sound(*parent_refs, sv, ev),
                    parent_refs.refs@.contains_key(from_ast@),
                    parent_refs.refs@[from_ast@]@ == rs,
                    forall|k: int| 0 <= k < v@.len() ==> box_sound(#[trigger] v@[k], sv, ev),
                    i <= n,
                    visited.wf(),
                    vis0 == old(visited)@.dom(),
                    vis0.subset_of(visited@.dom()),
                    vis1.subset_of(visited@.dom()),
                    unvisited(keys, vis1) < unvisited(keys, vis0),
                    box_refs(to_box@, rs, 0, *parent_refs, vis1).0 == v@ + box_refs(
                        to_box@,
                        rs,
                        i as int,
                        *parent_refs,
                        visited@.dom(),
                    ).0,
                    box_refs(to_box@, rs, 0, *parent_refs, vis1).1 == box_refs(
                        to_box@,
                        rs,
                        i as int,
                        *parent_refs,
                        visited@.dom(),
                    ).1,
                decreases n - i,
            {
                let ghost vis_i = visited@.dom();
                let ghost v_i = v@;
                proof {
                    lemma_unvisited_subset(keys, vis1, vis_i);
                }
                let parent = match &refs[i] {
                    ParentRef::StructMember { struct_name, member_name } => {
                        if str_eq(struct_name, to_box) {
                            v.push(ToBox::StructMember { struct_name, member_name });
                        }
                        *struct_name
                    },
                    ParentRef::EnumItem { enum_name, item_name } => {
                        if str_eq(enum_name, to_box) {
                            v.push(ToBox::EnumItem { enum_name, item_name });
                        }
                        *enum_name
                    },
                };
                let ghost head = v@.subrange(v_i.len() as int, v@.len() as int);
                assert(v@ =~= v_i + head);
                assert(unvisited(parent_refs.refs.keys@, visited@.dom()) < unvisited(parent_refs.refs.keys@, vis0));
                assert(ref_sound(parent_refs.refs@[from_ast@]@[i as int], sv, ev));
                let mut w = set_boxed(to_box, parent, parent_refs, visited, Ghost(sv), Ghost(ev));
                let ghost vis2 = visited@.dom();
                assert(vis_i.union(vis2) =~= vis2);
                v.append(&mut w);
                proof {
                    let r = box_refs(to_box@, rs, i as int, *parent_refs, vis_i);
                    let r2 = box_refs(to_box@, rs, i + 1, *parent_refs, vis2);
                    assert(r.0 == head + box_walk(to_box@, parent@, *parent_refs, vis_i).0 + r2.0);
                    assert(v@ + r2.0 =~= v_i + r.0);
                }
                i += 1;
            }
            assert(box_refs(to_box@, rs, n as int, *parent_refs, visited@.dom()).0 =~= Seq::<ToBox<'d>>::empty());
            assert(v@ =~= v@ + Seq::<ToBox<'d>>::empty());
            v
        },
    }
}

impl<'a, 'd> BuildAst<'a, 'd> {
    pub fn new(data: &'a mut LangData<'d>) -> (r: BuildAst<'a, 'd>)
        ensures
            *r.data == *old(data),
            *final(r.data) == *final(data),
    {
        BuildAst { data }
    }

    /// Registers the struct `name` is built as.
    fn reg_struct(data: &mut StrMap<&'d str, AstStruct<'d>>, name: &'d str, snake_cased: &mut SnakeCased<'d>, Ghost(extra): Ghost<int>)
        requires
            struct_names_match(structs_view(*old(data))),
            structs_wf(*old(data)),
            old(snake_cased).wf(),
            0 <= extra,
            extra + 1 < u32::MAX,
            counts_below(structs_view(*old(data)), extra + 1),
        ensures
            struct_names_match(structs_view(*final(data))),
            counts_below(structs_view(*final(data)), extra),
            structs_wf(*final(data)),
            final(snake_cased).wf(),
            old(snake_cased).cache@.dom().subset_of(final(snake_cased).cache@.dom()),
            final(snake_cased).cache@.dom().contains(name@) || old(data)@.contains_key(name@),
            structs_view(*final(data)) =~~= reg_struct_view(structs_view(*old(data)), name),
    {
        let ghost v0 = structs_view(*data);
        proof {
            lemma_counts_reg_struct(v0, name, extra);
        }
        match data.index_of(name) {
            None => {
                let sc = snake_cased.get(name);
                data.insert(name, AstStruct::new(name, sc));
                proof {
                    assert(data@[name@].members@ =~= Map::<Seq<char>, AstStructMember<'d>>::empty());
                }
            },
            Some(i) => {
                // Increment counter to match against arg counter
                let ghost old_data = *data;
                proof {
                    old_data.lemma_idx(i as int);
                    assert(structs_view(old_data).contains_key(name@));
                    assert(structs_view(old_data)[name@].num_patterns == old_data.vals@[i as int].num_patterns);
                }
                let ast_struct = data.val_at_mut(i);
                ast_struct.num_patterns = ast_struct.num_patterns + 1;
                proof {
                    old_data.lemma_update_at(*data, i as int);
                }
            },
        }
        assert(structs_view(*data) =~~= reg_struct_view(v0, name));
    }

    /// Registers a member of the struct `struct_name`.
    fn reg_struct_member(
        data: &mut StrMap<&'d str, AstStruct<'d>>,
        struct_name: &'d str,
        member_name: &'d str,
        part_key: &'d str,
        optional: bool,
        not: bool,
        tag: bool,
        snake_cased: &mut SnakeCased<'d>,
    )
        requires
            struct_names_match(structs_view(*old(data))),
            structs_wf(*old(data)),
            old(snake_cased).wf(),
            old(data)@.contains_key(struct_name@),
            counts_below(structs_view(*old(data)), 1),
        ensures
            struct_names_match(structs_view(*final(data))),
            structs_wf(*final(data)),
            final(snake_cased).wf(),
            old(snake_cased).cache@.dom().subset_of(final(snake_cased).cache@.dom()),
            final(snake_cased).cache@.dom().contains(member_name@) || old(data)@[struct_name@].members@.contains_key(
                member_name@,
            ),
            structs_view(*final(data)) =~~= reg_member_view(
                structs_view(*old(data)),
                struct_name,
                member_name,
                part_key,
                optional,
                not,
                tag,
            ),
    {
        let ghost old_data = *data;
        let i = match data.index_of(struct_name) {
            Some(i) => i,
            None => {
                assert(false);
                return ;
            },
        };
        proof {
            old_data.lemma_idx(i as int);
        }
        let ghost old_struct = data.vals@[i as int];
        let ast_struct = data.val_at_mut(i);
        match ast_struct.members.index_of(member_name) {
            Some(j) => {
                let ghost old_members = ast_struct.members;
                proof {
                    old_members.lemma_idx(j as int);
                    assert(old_members == old_struct.members);
                    assert(old_data@[struct_name@] == old_struct);
                    assert(structs_view(old_data).contains_key(struct_name@));
                    assert(structs_view(old_data)[struct_name@] == struct_view(old_struct));
                    assert(old_members@.contains_key(member_name@));
                    assert(structs_view(old_data)[struct_name@].members.contains_key(member_name@));
                    assert(structs_view(old_data)[struct_name@].members[member_name@].num_patterns
                        == old_members.vals@[j as int].num_patterns);
                }
                let struct_member = ast_struct.members.val_at_mut(j);
                struct_member.num_patterns = struct_member.num_patterns + 1;
                if optional {
                    struct_member.optional = true;
                }
                proof {
                    old_members.lemma_update_at(ast_struct.members, j as int);
                }
            },
            None => {
                let tpe = if not {
                    AstMemberType::NotString
                } else if tag {
                    AstMemberType::TagBool(part_key)
                } else {
                    AstMemberType::KeyedToken(part_key)
                };
                let sc = snake_cased.get(member_name);
                ast_struct.members.insert(
                    member_name,
                    AstStructMember::new(member_name, sc, part_key, struct_name, optional, not, tpe),
                );
            },
        }
        proof {
            old_data.lemma_update_at(*data, i as int);
            assert(data@[struct_name@].members@.map_values(|m: AstStructMember<'d>| member_view(m))
                =~= reg_member_view(structs_view(old_data), struct_name, member_name, part_key, optional, not, tag)[struct_name@].members);
            assert(structs_view(*data) =~~= reg_member_view(
                structs_view(old_data),
                struct_name,
                member_name,
                part_key,
                optional,
                not,
                tag,
            ));
        }
    }

    /// Registers the members of the parts of a rule, in order.
    fn process_parts_rule(
        rule: &AstPartsRule<'d>,
        struct_data: &mut StrMap<&'d str, AstStruct<'d>>,
        typed_parts: &StrMap<&'d str, TypedPart<'d>>,
        snake_cased: &mut SnakeCased<'d>,
        Ghost(extra): Ghost<int>,
    )
        requires
            struct_names_match(structs_view(*old(struct_data))),
            structs_wf(*old(struct_data)),
            old(snake_cased).wf(),
            typed_parts.wf(),
            old(struct_data)@.contains_key(rule.ast_type@),
            rule_keys_known(*rule, typed_parts@),
            0 <= extra,
            extra + rule.parts@.len() + 1 < u32::MAX,
            counts_below(structs_view(*old(struct_data)), extra + rule.parts@.len()),
        ensures
            struct_names_match(structs_view(*final(struct_data))),
            counts_below(structs_view(*final(struct_data)), extra),
            structs_wf(*final(struct_data)),
            final(snake_cased).wf(),
            old(snake_cased).cache@.dom().subset_of(final(snake_cased).cache@.dom()),
            structs_view(*final(struct_data)) =~~= rule_members_view(
                structs_view(*old(struct_data)),
                *rule,
                typed_parts@,
                rule.parts@.len() as int,
            ),
    {
        let ghost sv0 = structs_view(*struct_data);
        let n = rule.parts.len();
        let mut i: usize = 0;
        while i < n
            invariant
                n == rule.parts@.len(),
                i <= n,
                0 <= extra,
                extra + n + 1 < u32::MAX,
                structs_wf(*struct_data),
                struct_names_match(structs_view(*struct_data)),
                snake_cased.wf(),
                old(snake_cased).cache@.dom().subset_of(snake_cased.cache@.dom()),
                typed_parts.wf(),
                rule_keys_known(*rule, typed_parts@),
                struct_data@.contains_key(rule.ast_type@),
                counts_below(structs_view(*struct_data), extra + n - i),
                structs_view(*struct_data) =~~= rule_members_view(sv0, *rule, typed_parts@, i as int),
            decreases n - i,
        {
            let part = &rule.parts[i];
            assert(part.token matches AstRuleToken::Key(k) ==> typed_parts@.contains_key(k@));
            let ghost before = structs_view(*struct_data);
            match get_part_member(part, typed_parts) {
                Some((member_key, part_key, is_tag)) => {
                    assert(structs_view(*struct_data).contains_key(rule.ast_type@));
                    proof {
                        lemma_counts_reg_member(
                            before,
                            rule.ast_type,
                            member_key,
                            part_key,
                            part.optional,
                            part.not,
                            is_tag,
                            extra + n - i - 1,
                        );
                    }
                    Self::reg_struct_member(
                        struct_data,
                        rule.ast_type,
                        member_key,
                        part_key,
                        part.optional,
                        part.not,
                        is_tag,
                        snake_cased,
                    );
                    assert(structs_view(*struct_data).contains_key(rule.ast_type@));
                    assert(struct_data@.contains_key(rule.ast_type@));
                },
                None => {
                    assert(counts_below(before, extra + n - i - 1));
                },
            }
            i += 1;
        }
    }

    /// Registers the struct and members of a rule.
    fn process_rule(
        rule: &AstRule<'d>,
        struct_data: &mut StrMap<&'d str, AstStruct<'d>>,
        typed_parts: &StrMap<&'d str, TypedPart<'d>>,
        snake_cased: &mut SnakeCased<'d>,
        Ghost(extra): Ghost<int>,
    )
        requires
            struct_names_match(structs_view(*old(struct_data))),
            structs_wf(*old(struct_data)),
            old(snake_cased).wf(),
            typed_parts.wf(),
            *rule matches AstRule::PartsRule(r) ==> rule_keys_known(r, typed_parts@),
            0 <= extra,
            extra + rule_weight(*rule) + 1 < u32::MAX,
            counts_below(structs_view(*old(struct_data)), extra + rule_weight(*rule)),
        ensures
            struct_names_match(structs_view(*final(struct_data))),
            structs_wf(*final(struct_data)),
            final(snake_cased).wf(),
            old(snake_cased).cache@.dom().subset_of(final(snake_cased).cache@.dom()),
            counts_below(structs_view(*final(struct_data)), extra),
            structs_view(*final(struct_data)) =~~= rule_step(structs_view(*old(struct_data)), *rule, typed_parts@),
    {
        match rule {
            AstRule::RefRule(..) => {},
            AstRule::PartsRule(rule) => {
                Self::reg_struct(struct_data, rule.ast_type, snake_cased, Ghost(extra + rule.parts@.len()));
                assert(structs_view(*struct_data).contains_key(rule.ast_type@));
                assert(struct_data@.contains_key(rule.ast_type@));
                Self::process_parts_rule(rule, struct_data, typed_parts, snake_cased, Ghost(extra));
            },
        }
    }

    /// Registers the structs and members of some rules, in order.
    fn process_rules(
        rules: &Vec<AstRule<'d>>,
        struct_data: &mut StrMap<&'d str, AstStruct<'d>>,
        typed_parts: &StrMap<&'d str, TypedPart<'d>>,
        snake_cased: &mut SnakeCased<'d>,
        Ghost(extra): Ghost<int>,
    )
        requires
            struct_names_match(structs_view(*old(struct_data))),
            structs_wf(*old(struct_data)),
            old(snake_cased).wf(),
            typed_parts.wf(),
            rules_keys_known(rules@, typed_parts@),
            0 <= extra,
            extra + rules_weight(rules@, rules@.len() as int) + 1 < u32::MAX,
            counts_below(structs_view(*old(struct_data)), extra + rules_weight(rules@, rules@.len() as int)),
        ensures
            struct_names_match(structs_view(*final(struct_data))),
            structs_wf(*final(struct_data)),
            final(snake_cased).wf(),
            old(snake_cased).cache@.dom().subset_of(final(snake_cased).cache@.dom()),
            counts_below(structs_view(*final(struct_data)), extra),
            structs_view(*final(struct_data)) =~~= rules_structs_view(
                structs_view(*old(struct_data)),
                rules@,
                typed_parts@,
                rules@.len() as int,
            ),
    {
        let ghost sv0 = structs_view(*struct_data);
        let ghost total = rules_weight(rules@, rules@.len() as int);
        proof {
            lemma_rules_weight_nonneg(rules@, rules@.len() as int);
        }
        let n = rules.len();
        let mut i: usize = 0;
        while i < n
            invariant
                n == rules@.len(),
                i <= n,
                total == rules_weight(rules@, n as int),
                0 <= extra,
                extra + total + 1 < u32::MAX,
                structs_wf(*struct_data),
                struct_names_match(structs_view(*struct_data)),
                snake_cased.wf(),
                old(snake_cased).cache@.dom().subset_of(snake_cased.cache@.dom()),
                typed_parts.wf(),
                rules_keys_known(rules@, typed_parts@),
                counts_below(structs_view(*struct_data), extra + total - rules_weight(rules@, i as int)),
                rules_weight(rules@, i as int) <= total,
                structs_view(*struct_data) =~~= rules_structs_view(sv0, rules@, typed_parts@, i as int),
            decreases n - i,
        {
            proof {
                lemma_rules_weight_nonneg(rules@, i as int);
                lemma_rules_weight_prefix(rules@, i + 1, n as int);
            }
            assert(rules@[i as int] matches AstRule::PartsRule(r) ==> rule_keys_known(r, typed_parts@));
            Self::process_rule(&rules[i], struct_data, typed_parts, snake_cased, Ghost(extra + total - rules_weight(rules@, i + 1)));
            i += 1;
        }
    }

    /// Registers the structs and members of the rules of a list, in order.
    fn process_list_rules(
        list_data: &ListData<'d>,
        struct_data: &mut StrMap<&'d str, AstStruct<'d>>,
        typed_parts: &StrMap<&'d str, TypedPart<'d>>,
        snake_cased: &mut SnakeCased<'d>,
        Ghost(extra): Ghost<int>,
    )
        requires
            struct_names_match(structs_view(*old(struct_data))),
            structs_wf(*old(struct_data)),
            old(snake_cased).wf(),
            typed_parts.wf(),
            rules_keys_known(list_rules_of(*list_data), typed_parts@),
            0 <= extra,
            extra + rules_weight(list_rules_of(*list_data), list_data.rules@.len() as int) + 1 < u32::MAX,
            counts_below(structs_view(*old(struct_data)), extra + rules_weight(list_rules_of(*list_data), list_data.rules@.len() as int)),
        ensures
            struct_names_match(structs_view(*final(struct_data))),
            structs_wf(*final(struct_data)),
            final(snake_cased).wf(),
            old(snake_cased).cache@.dom().subset_of(final(snake_cased).cache@.dom()),
            counts_below(structs_view(*final(struct_data)), extra),
            structs_view(*final(struct_data)) =~~= rules_structs_view(
                structs_view(*old(struct_data)),
                list_rules_of(*list_data),
                typed_parts@,
                list_data.rules@.len() as int,
            ),
    {
        let ghost rules = list_rules_of(*list_data);
        let ghost sv0 = structs_view(*struct_data);
        let ghost total = rules_weight(rules, rules.len() as int);
        proof {
            lemma_rules_weight_nonneg(rules, rules.len() as int);
        }
        let n = list_data.rules.len();
        let mut i: usize = 0;
        while i < n
            invariant
                n == rules.len(),
                rules == list_rules_of(*list_data),
                i <= n,
                total == rules_weight(rules, n as int),
                0 <= extra,
                extra + total + 1 < u32::MAX,
                structs_wf(*struct_data),
                struct_names_match(structs_view(*struct_data)),
                snake_cased.wf(),
                old(snake_cased).cache@.dom().subset_of(snake_cased.cache@.dom()),
                typed_parts.wf(),
                rules_keys_known(rules, typed_parts@),
                counts_below(structs_view(*struct_data), extra + total - rules_weight(rules, i as int)),
                rules_weight(rules, i as int) <= total,
                structs_view(*struct_data) =~~= rules_structs_view(sv0, rules, typed_parts@, i as int),
            decreases n - i,
        {
            proof {
                lemma_rules_weight_nonneg(rules, i as int);
                lemma_rules_weight_prefix(rules, i + 1, n as int);
            }
            assert(rules[i as int] == list_data.rules@[i as int].ast_rule);
            assert(rules[i as int] matches AstRule::PartsRule(r) ==> rule_keys_known(r, typed_parts@));
            Self::process_rule(&list_data.rules[i].ast_rule, struct_data, typed_parts, snake_cased, Ghost(extra + total - rules_weight(rules, i + 1)));
            i += 1;
        }
    }

    /// Registers the structs, enums and rule types of an AST entry.
    fn build_ast_entry(
        ast_data: &AstData<'d>,
        struct_data: &mut StrMap<&'d str, AstStruct<'d>>,
        enum_data: &mut StrMap<&'d str, AstEnum<'d>>,
        typed_parts: &StrMap<&'d str, TypedPart<'d>>,
        rule_types: &mut StrMap<&'d str, RuleType<'d>>,
        snake_cased: &mut SnakeCased<'d>,
        Ghost(extra): Ghost<int>,
    )
        requires
            struct_names_match(structs_view(*old(struct_data))),
            enum_names_match(enums_view(*old(enum_data))),
            structs_wf(*old(struct_data)),
            enums_wf(*old(enum_data)),
            old(rule_types).wf(),
            old(snake_cased).wf(),
            typed_parts.wf(),
            rules_keys_known(ast_data.rules@, typed_parts@),
            0 <= extra,
            extra + rules_weight(ast_data.rules@, ast_data.rules@.len() as int) + 1 < u32::MAX,
            counts_below(structs_view(*old(struct_data)), extra + rules_weight(ast_data.rules@, ast_data.rules@.len() as int)),
        ensures
            struct_names_match(structs_view(*final(struct_data))),
            enum_names_match(enums_view(*final(enum_data))),
            structs_wf(*final(struct_data)),
            enums_wf(*final(enum_data)),
            final(rule_types).wf(),
            final(snake_cased).wf(),
            old(snake_cased).cache@.dom().subset_of(final(snake_cased).cache@.dom()),
            counts_below(structs_view(*final(struct_data)), extra),
            build_state(*final(struct_data), *final(enum_data), *final(rule_types)) =~~= ast_entry_state(
                build_state(*old(struct_data), *old(enum_data), *old(rule_types)),
                *ast_data,
                typed_parts@,
            ),
    {
        let ghost st0 = build_state(*struct_data, *enum_data, *rule_types);
        // Collect types to check if this should be an enum
        Self::process_rules(&ast_data.rules, struct_data, typed_parts, snake_cased, Ghost(extra));
        let items = rule_items_of(&ast_data.rules);
        if all_named_exec(&items, ast_data.ast_type) {
            rule_types.insert(ast_data.key, RuleType::SingleType(ast_data.ast_type));
        } else {
            // Several types registered, create enum
            let e = new_enum(ast_data.ast_type, &items, snake_cased);
            enum_data.insert(ast_data.ast_type, e);
            rule_types.insert(ast_data.key, RuleType::ManyType(ast_data.ast_type));
            proof {
                assert(enums_view(*enum_data) =~~= st0.enums.insert(
                    ast_data.ast_type@,
                    new_enum_view(ast_data.ast_type, items@),
                ));
            }
        }
    }

    /// Registers the structs, enums and rule types of a list.
    fn build_list_entry(
        key: &'d str,
        list_data: &ListData<'d>,
        struct_data: &mut StrMap<&'d str, AstStruct<'d>>,
        enum_data: &mut StrMap<&'d str, AstEnum<'d>>,
        typed_parts: &StrMap<&'d str, TypedPart<'d>>,
        rule_types: &mut StrMap<&'d str, RuleType<'d>>,
        snake_cased: &mut SnakeCased<'d>,
        Ghost(extra): Ghost<int>,
    )
        requires
            struct_names_match(structs_view(*old(struct_data))),
            enum_names_match(enums_view(*old(enum_data))),
            structs_wf(*old(struct_data)),
            enums_wf(*old(enum_data)),
            old(rule_types).wf(),
            old(snake_cased).wf(),
            typed_parts.wf(),
            rules_keys_known(list_rules_of(*list_data), typed_parts@),
            0 <= extra,
            extra + rules_weight(list_rules_of(*list_data), list_data.rules@.len() as int) + 1 < u32::MAX,
            counts_below(structs_view(*old(struct_data)), extra + rules_weight(list_rules_of(*list_data), list_data.rules@.len() as int)),
        ensures
            struct_names_match(structs_view(*final(struct_data))),
            enum_names_match(enums_view(*final(enum_data))),
            structs_wf(*final(struct_data)),
            enums_wf(*final(enum_data)),
            final(rule_types).wf(),
            final(snake_cased).wf(),
            old(snake_cased).cache@.dom().subset_of(final(snake_cased).cache@.dom()),
            final(snake_cased).cache@.dom().contains(key@),
            counts_below(structs_view(*final(struct_data)), extra),
            build_state(*final(struct_data), *final(enum_data), *final(rule_types)) =~~= list_entry_state(
                build_state(*old(struct_data), *old(enum_data), *old(rule_types)),
                *list_data,
                typed_parts@,
            ),
    {
        let ghost st0 = build_state(*struct_data, *enum_data, *rule_types);
        snake_cased.reg(key);
        Self::process_list_rules(list_data, struct_data, typed_parts, snake_cased, Ghost(extra));
        let items = list_rule_items_of(list_data);
        let mut cands: Vec<&'d str> = Vec::new();
        if let Some(t) = list_data.ast_type {
            cands.push(t);
        }
        let mut j: usize = 0;
        let ghost c0 = cands@;
        while j < items.len()
            invariant
                j <= items@.len(),
                cands@ == c0 + items@.take(j as int),
            decreases items@.len() - j,
        {
            cands.push(items[j]);
            assert(c0 + items@.take(j + 1) =~= cands@);
            j += 1;
        }
        assert(items@.take(items@.len() as int) =~= items@);
        assert(cands@ =~= list_candidates(*list_data));
        if cands.len() == 0 {
        } else if all_named_exec(&cands, cands[0]) {
            rule_types.insert(list_data.key, RuleType::SingleType(cands[0]));
        } else {
            let enum_name = match list_data.ast_type {
                Some(ast_type) => ast_type,
                None => list_data.key,
            };
            let e = new_enum(enum_name, &items, snake_cased);
            enum_data.insert(enum_name, e);
            rule_types.insert(list_data.key, RuleType::ManyType(enum_name));
            proof {
                assert(enums_view(*enum_data) =~~= st0.enums.insert(enum_name@, new_enum_view(enum_name, items@)));
            }
        }
    }

    fn build_from_ast_data(
        ast_data: &StrMap<&'d str, AstData<'d>>,
        struct_data: &mut StrMap<&'d str, AstStruct<'d>>,
        enum_data: &mut StrMap<&'d str, AstEnum<'d>>,
        typed_parts: &StrMap<&'d str, TypedPart<'d>>,
        rule_types: &mut StrMap<&'d str, RuleType<'d>>,
        snake_cased: &mut SnakeCased<'d>,
        Ghost(extra): Ghost<int>,
    )
        requires
            struct_names_match(structs_view(*old(struct_data))),
            enum_names_match(enums_view(*old(enum_data))),
            structs_wf(*old(struct_data)),
            enums_wf(*old(enum_data)),
            old(rule_types).wf(),
            old(snake_cased).wf(),
            typed_parts.wf(),
            entries_keys_known(ast_data.vals@, typed_parts@),
            0 <= extra,
            extra + ast_phase_weight(ast_data.vals@, ast_data.vals@.len() as int) + 1 < u32::MAX,
            counts_below(structs_view(*old(struct_data)), extra + ast_phase_weight(ast_data.vals@, ast_data.vals@.len() as int)),
        ensures
            struct_names_match(structs_view(*final(struct_data))),
            enum_names_match(enums_view(*final(enum_data))),
            structs_wf(*final(struct_data)),
            enums_wf(*final(enum_data)),
            final(rule_types).wf(),
            final(snake_cased).wf(),
            old(snake_cased).cache@.dom().subset_of(final(snake_cased).cache@.dom()),
            counts_below(structs_view(*final(struct_data)), extra),
            build_state(*final(struct_data), *final(enum_data), *final(rule_types)) =~~= ast_phase(
                build_state(*old(struct_data), *old(enum_data), *old(rule_types)),
                ast_data.vals@,
                typed_parts@,
                ast_data.vals@.len() as int,
            ),
    {
        let ghost st0 = build_state(*struct_data, *enum_data, *rule_types);
        let ghost total = ast_phase_weight(ast_data.vals@, ast_data.vals@.len() as int);
        let n = ast_data.vals.len();
        let mut i: usize = 0;
        while i < n
            invariant
                n == ast_data.vals@.len(),
                i <= n,
                total == ast_phase_weight(ast_data.vals@, n as int),
                0 <= extra,
                extra + total + 1 < u32::MAX,
                structs_wf(*struct_data),
                struct_names_match(structs_view(*struct_data)),
                enums_wf(*enum_data),
                enum_names_match(enums_view(*enum_data)),
                rule_types.wf(),
                snake_cased.wf(),
                old(snake_cased).cache@.dom().subset_of(snake_cased.cache@.dom()),
                typed_parts.wf(),
                entries_keys_known(ast_data.vals@, typed_parts@),
                counts_below(structs_view(*struct_data), extra + total - ast_phase_weight(ast_data.vals@, i as int)),
                build_state(*struct_data, *enum_data, *rule_types) =~~= ast_phase(st0, ast_data.vals@, typed_parts@, i as int),
            decreases n - i,
        {
            proof {
                lemma_ast_phase_weight(ast_data.vals@, i + 1, n as int);
                lemma_ast_phase_weight(ast_data.vals@, i as int, i + 1);
            }
            assert(rules_keys_known(ast_data.vals@[i as int].rules@, typed_parts@));
            Self::build_ast_entry(
                &ast_data.vals[i],
                struct_data,
                enum_data,
                typed_parts,
                rule_types,
                snake_cased,
                Ghost(extra + total - ast_phase_weight(ast_data.vals@, i + 1)),
            );
            i += 1;
        }
    }

    fn build_from_list_data(
        list_data: &StrMap<&'d str, ListData<'d>>,
        struct_data: &mut StrMap<&'d str, AstStruct<'d>>,
        enum_data: &mut StrMap<&'d str, AstEnum<'d>>,
        typed_parts: &StrMap<&'d str, TypedPart<'d>>,
        rule_types: &mut StrMap<&'d str, RuleType<'d>>,
        snake_cased: &mut SnakeCased<'d>,
        Ghost(extra): Ghost<int>,
    )
        requires
            struct_names_match(structs_view(*old(struct_data))),
            enum_names_match(enums_view(*old(enum_data))),
            structs_wf(*old(struct_data)),
            enums_wf(*old(enum_data)),
            old(rule_types).wf(),
            old(snake_cased).wf(),
            typed_parts.wf(),
            list_data.wf(),
            lists_keys_known(list_data.vals@, typed_parts@),
            0 <= extra,
            extra + list_phase_weight(list_data.vals@, list_data.vals@.len() as int) + 1 < u32::MAX,
            counts_below(structs_view(*old(struct_data)), extra + list_phase_weight(list_data.vals@, list_data.vals@.len() as int)),
        ensures
            struct_names_match(structs_view(*final(struct_data))),
            enum_names_match(enums_view(*final(enum_data))),
            structs_wf(*final(struct_data)),
            enums_wf(*final(enum_data)),
            final(rule_types).wf(),
            final(snake_cased).wf(),
            old(snake_cased).cache@.dom().subset_of(final(snake_cased).cache@.dom()),
            list_data@.dom().subset_of(final(snake_cased).cache@.dom()),
            counts_below(structs_view(*final(struct_data)), extra),
            build_state(*final(struct_data), *final(enum_data), *final(rule_types)) =~~= list_phase(
                build_state(*old(struct_data), *old(enum_data), *old(rule_types)),
                list_data.vals@,
                typed_parts@,
                list_data.vals@.len() as int,
            ),
    {
        let ghost st0 = build_state(*struct_data, *enum_data, *rule_types);
        let ghost total = list_phase_weight(list_data.vals@, list_data.vals@.len() as int);
        let n = list_data.vals.len();
        let mut i: usize = 0;
        while i < n
            invariant
                n == list_data.vals@.len(),
                n == list_data.keys@.len(),
                i <= n,
                total == list_phase_weight(list_data.vals@, n as int),
                0 <= extra,
                extra + total + 1 < u32::MAX,
                structs_wf(*struct_data),
                struct_names_match(structs_view(*struct_data)),
                enums_wf(*enum_data),
                enum_names_match(enums_view(*enum_data)),
                rule_types.wf(),
                snake_cased.wf(),
                old(snake_cased).cache@.dom().subset_of(snake_cased.cache@.dom()),
                forall|j: int| 0 <= j < i ==> snake_cased.cache@.dom().contains(#[trigger] list_data.keys@[j]@),
                typed_parts.wf(),
                lists_keys_known(list_data.vals@, typed_parts@),
                counts_below(structs_view(*struct_data), extra + total - list_phase_weight(list_data.vals@, i as int)),
                build_state(*struct_data, *enum_data, *rule_types) =~~= list_phase(st0, list_data.vals@, typed_parts@, i as int),
            decreases n - i,
        {
            proof {
                lemma_list_phase_weight(list_data.vals@, i + 1, n as int);
                lemma_list_phase_weight(list_data.vals@, i as int, i + 1);
            }
            assert(rules_keys_known(list_rules_of(list_data.vals@[i as int]), typed_parts@));
            Self::build_list_entry(
                list_data.keys[i],
                &list_data.vals[i],
                struct_data,
                enum_data,
                typed_parts,
                rule_types,
                snake_cased,
                Ghost(extra + total - list_phase_weight(list_data.vals@, i + 1)),
            );
            i += 1;
        }
        proof {
            list_data.lemma_view_values();
            assert forall|k: Seq<char>| list_data@.dom().contains(k) implies snake_cased.cache@.dom().contains(k) by {
                let j = list_data.idx(k);
                assert(snake_cased.cache@.dom().contains(list_data.keys@[j]@));
            }
        }
    }

    /// Marks the enums that are simple, with their items, and drops the
    /// structs of those items. Simplicity is decided on the data as it was
    /// before any enum was marked.
    pub fn check_simple(&mut self)
        requires
            old(self).data.wf(),
            simple_decidable(*old(self).data),
        ensures
            final(self).data.wf(),
            simplified(*old(self).data, *final(self).data),
    {
        let ghost d0 = *self.data;
        let n = self.data.ast_enums.vals.len();
        let mut flags: Vec<bool> = Vec::new();
        proof {
            d0.ast_enums.lemma_view_values();
        }
        let mut i: usize = 0;
        while i < n
            invariant
                n == d0.ast_enums.vals@.len(),
                *self.data == d0,
                i <= n,
                flags@.len() == i,
                d0.wf(),
                simple_decidable(d0),
                forall|k: int|
                    0 <= k < i ==> flags@[k] == enum_simple(&d0, d0.ast_enums.vals@[k], simple_fuel(&d0)).unwrap(),
            decreases n - i,
        {
            proof {
                d0.ast_enums.lemma_idx(i as int);
            }
            assert(d0.ast_enums@.contains_key(d0.ast_enums.keys@[i as int]@));
            let simple = self.data.ast_enums.vals[i].is_simple(self.data);
            flags.push(simple);
            i += 1;
        }
        let ghost enum_keys = d0.ast_enums.keys@;
        let ghost enum_vals = d0.ast_enums.vals@;
        let ghost sv0 = structs_view(d0.ast_structs);
        let mut i: usize = 0;
        while i < n
            invariant
                n == enum_vals.len(),
                n == enum_keys.len(),
                flags@.len() == n,
                enum_keys == d0.ast_enums.keys@,
                enum_vals == d0.ast_enums.vals@,
                sv0 == structs_view(d0.ast_structs),
                i <= n,
                self.data.wf(),
                same_but_simple(d0, *self.data),
                self.data.ast_enums.vals@ == enum_vals,
                self.data.ast_enums.keys@ == enum_keys,
                self.data.simple_enums@.dom() == d0.simple_enums@.dom() + marked_keys(enum_keys, flags@, i as int),
                self.data.simple_structs@.dom() == d0.simple_structs@.dom() + marked_items(enum_vals, flags@, i as int),
                structs_view(self.data.ast_structs) == sv0.remove_keys(marked_items(enum_vals, flags@, i as int)),
            decreases n - i,
        {
            if flags[i] {
                let key = self.data.ast_enums.keys[i];
                self.data.simple_enums.insert(key, ());
                let ghost se = self.data.simple_enums@.dom();
                assert(se == d0.simple_enums@.dom() + marked_keys(enum_keys, flags@, i as int) + set![key@]) by {
                    assert(se =~= d0.simple_enums@.dom() + marked_keys(enum_keys, flags@, i as int) + set![key@]);
                }
                let m = self.data.ast_enums.vals[i].items.len();
                let ghost items = item_names(enum_vals[i as int]);
                let mut j: usize = 0;
                while j < m
                    invariant
                        n == enum_vals.len(),
                        flags@.len() == n,
                        i < n,
                        flags@[i as int],
                        m == enum_vals[i as int].items@.len(),
                        items == item_names(enum_vals[i as int]),
                        sv0 == structs_view(d0.ast_structs),
                        j <= m,
                        self.data.wf(),
                        same_but_simple(d0, *self.data),
                        self.data.ast_enums.vals@ == enum_vals,
                        self.data.ast_enums.keys@ == enum_keys,
                        self.data.simple_enums@.dom() == se,
                        self.data.simple_structs@.dom() == d0.simple_structs@.dom() + marked_items(enum_vals, flags@, i as int)
                            + items.take(j as int).to_set(),
                        structs_view(self.data.ast_structs) == sv0.remove_keys(
                            marked_items(enum_vals, flags@, i as int) + items.take(j as int).to_set(),
                        ),
                    decreases m - j,
                {
                    let item = self.data.ast_enums.vals[i].items[j];
                    let ghost before_simple = self.data.simple_structs@.dom();
                    let ghost before_structs = structs_view(self.data.ast_structs);
                    self.data.simple_structs.insert(item, ());
                    self.data.ast_structs.remove(item);
                    proof {
                        assert(items.take(j + 1).to_set() =~= items.take(j as int).to_set().insert(item@)) by {
                            let a = items.take(j as int);
                            assert(items[j as int] == item@);
                            assert(items.take(j + 1) =~= a.push(item@));
                            assert forall|x: Seq<char>| #[trigger] items.take(j + 1).to_set().contains(x) == a.to_set().insert(item@).contains(x) by {
                                assert(items.take(j + 1).to_set().contains(x) == a.push(item@).contains(x));
                                assert(a.to_set().contains(x) == a.contains(x));
                                if a.push(item@).contains(x) {
                                    let k = choose|k: int| 0 <= k < a.push(item@).len() && a.push(item@)[k] == x;
                                    if k < a.len() {
                                        assert(a[k] == x);
                                    }
                                }
                                if a.contains(x) {
                                    let k = choose|k: int| 0 <= k < a.len() && a[k] == x;
                                    assert(a.push(item@)[k] == x);
                                }
                                if x == item@ {
                                    assert(a.push(item@)[a.len() as int] == x);
                                }
                            }
                        }
                        assert(self.data.simple_structs@.dom() =~= d0.simple_structs@.dom() + marked_items(enum_vals, flags@, i as int)
                            + items.take(j + 1).to_set());
                        assert(structs_view(self.data.ast_structs) =~= before_structs.remove(item@));
                        assert(structs_view(self.data.ast_structs) =~= sv0.remove_keys(
                            marked_items(enum_vals, flags@, i as int) + items.take(j + 1).to_set(),
                        ));
                    }
                    j += 1;
                }
                proof {
                    assert(items.take(m as int) =~= items);
                    assert(marked_items(enum_vals, flags@, i + 1) =~= marked_items(enum_vals, flags@, i as int) + items.to_set()) by {
                        assert forall|x: Seq<char>| marked_items(enum_vals, flags@, i + 1).contains(x) implies (marked_items(enum_vals, flags@, i as int) + items.to_set()).contains(x) by {
                            let k = choose|k: int| 0 <= k < i + 1 && flags@[k] && #[trigger] item_names(enum_vals[k]).contains(x);
                            if k < i {
                                assert(marked_items(enum_vals, flags@, i as int).contains(x));
                            }
                        }
                        assert forall|x: Seq<char>| (marked_items(enum_vals, flags@, i as int) + items.to_set()).contains(x) implies marked_items(enum_vals, flags@, i + 1).contains(x) by {
                            if marked_items(enum_vals, flags@, i as int).contains(x) {
                                let k = choose|k: int| 0 <= k < i && flags@[k] && #[trigger] item_names(enum_vals[k]).contains(x);
                                assert(0 <= k < i + 1 && flags@[k] && item_names(enum_vals[k]).contains(x));
                            } else {
                                assert(0 <= i < i + 1 && flags@[i as int] && item_names(enum_vals[i as int]).contains(x));
                            }
                        }
                    }
                    assert(marked_keys(enum_keys, flags@, i + 1) =~= marked_keys(enum_keys, flags@, i as int).insert(key@)) by {
                        assert forall|x: Seq<char>| marked_keys(enum_keys, flags@, i + 1).contains(x) implies marked_keys(enum_keys, flags@, i as int).insert(key@).contains(x) by {
                            let k = choose|k: int| 0 <= k < i + 1 && flags@[k] && #[trigger] enum_keys[k]@ == x;
                            if k < i {
                                assert(marked_keys(enum_keys, flags@, i as int).contains(x));
                            }
                        }
                        assert forall|x: Seq<char>| marked_keys(enum_keys, flags@, i as int).insert(key@).contains(x) implies marked_keys(enum_keys, flags@, i + 1).contains(x) by {
                            if marked_keys(enum_keys, flags@, i as int).contains(x) {
                                let k = choose|k: int| 0 <= k < i && flags@[k] && #[trigger] enum_keys[k]@ == x;
                                assert(0 <= k < i + 1 && flags@[k] && enum_keys[k]@ == x);
                            } else {
                                assert(0 <= i < i + 1 && flags@[i as int] && enum_keys[i as int]@ == x);
                            }
                        }
                    }
                    assert(self.data.simple_enums@.dom() =~= d0.simple_enums@.dom() + marked_keys(enum_keys, flags@, i + 1));
                    assert(items.take(0) =~= Seq::<Seq<char>>::empty());
                    assert(self.data.simple_structs@.dom() =~= d0.simple_structs@.dom() + marked_items(enum_vals, flags@, i + 1));
                }
            } else {
                proof {
                    assert(marked_items(enum_vals, flags@, i + 1) =~= marked_items(enum_vals, flags@, i as int)) by {
                        assert forall|x: Seq<char>| marked_items(enum_vals, flags@, i + 1).contains(x) implies marked_items(enum_vals, flags@, i as int).contains(x) by {
                            let k = choose|k: int| 0 <= k < i + 1 && flags@[k] && #[trigger] item_names(enum_vals[k]).contains(x);
                            assert(k != i);
                        }
                    }
                    assert(marked_keys(enum_keys, flags@, i + 1) =~= marked_keys(enum_keys, flags@, i as int)) by {
                        assert forall|x: Seq<char>| marked_keys(enum_keys, flags@, i + 1).contains(x) implies marked_keys(enum_keys, flags@, i as int).contains(x) by {
                            let k = choose|k: int| 0 <= k < i + 1 && flags@[k] && #[trigger] enum_keys[k]@ == x;
                            assert(k != i);
                        }
                    }
                }
            }
            i += 1;
        }
        proof {
            d0.ast_enums.lemma_view_values();
            assert(marked_keys(enum_keys, flags@, n as int) =~= simple_enum_keys(d0)) by {
                assert forall|x: Seq<char>| marked_keys(enum_keys, flags@, n as int).contains(x) implies simple_enum_keys(d0).contains(x) by {
                    let k = choose|k: int| 0 <= k < n && flags@[k] && #[trigger] enum_keys[k]@ == x;
                    d0.ast_enums.lemma_idx(k);
                }
                assert forall|x: Seq<char>| simple_enum_keys(d0).contains(x) implies marked_keys(enum_keys, flags@, n as int).contains(x) by {
                    let k = d0.ast_enums.idx(x);
                    d0.ast_enums.lemma_idx(k);
                    assert(0 <= k < n && flags@[k] && enum_keys[k]@ == x);
                }
            }
            assert(marked_items(enum_vals, flags@, n as int) =~= simple_item_names(d0)) by {
                assert forall|x: Seq<char>| marked_items(enum_vals, flags@, n as int).contains(x) implies simple_item_names(d0).contains(x) by {
                    let k = choose|k: int| 0 <= k < n && flags@[k] && #[trigger] item_names(enum_vals[k]).contains(x);
                    d0.ast_enums.lemma_idx(k);
                    let key = enum_keys[k]@;
                    assert(simple_enum_keys(d0).contains(key));
                    assert(d0.ast_enums@[key] == enum_vals[k]);
                }
                assert forall|x: Seq<char>| simple_item_names(d0).contains(x) implies marked_items(enum_vals, flags@, n as int).contains(x) by {
                    let key = choose|key: Seq<char>| #[trigger] simple_enum_keys(d0).contains(key) && item_names(d0.ast_enums@[key]).contains(x);
                    let k = d0.ast_enums.idx(key);
                    d0.ast_enums.lemma_idx(k);
                    assert(0 <= k < n && flags@[k] && item_names(enum_vals[k]).contains(x));
                }
            }
        }
    }

    /// Records, for each struct and enum, the members and items that hold it.
    #[verifier::spinoff_prover]
    #[verifier::rlimit(80)]
    fn add_parent_refs(&mut self)
        requires
            refs_ok(*old(self).data),
            refs_sound(old(self).data.parent_refs, structs_view(old(self).data.ast_structs), enums_view(old(self).data.ast_enums)),
        ensures
            final(self).data.wf(),
            referenced(*old(self).data, *final(self).data),
            refs_sound(final(self).data.parent_refs, structs_view(final(self).data.ast_structs), enums_view(final(self).data.ast_enums)),
    {
        let ghost d0 = *self.data;
        let ghost r0 = refs_view(d0.parent_refs);
        let ghost fuel = d0.rule_types.keys@.len();
        // Whether each enum is simple, decided before anything is recorded
        let ne = self.data.ast_enums.vals.len();
        let mut flags: Vec<bool> = Vec::new();
        proof {
            d0.ast_enums.lemma_view_values();
            d0.ast_structs.lemma_view_values();
        }
        let mut i: usize = 0;
        while i < ne
            invariant
                ne == d0.ast_enums.vals@.len(),
                *self.data == d0,
                i <= ne,
                flags@.len() == i,
                refs_ok(d0),
                forall|k: int|
                    0 <= k < i ==> flags@[k] == enum_simple(&d0, d0.ast_enums.vals@[k], simple_fuel(&d0)).unwrap(),
            decreases ne - i,
        {
            proof {
                d0.ast_enums.lemma_idx(i as int);
            }
            assert(d0.ast_enums@.contains_key(d0.ast_enums.keys@[i as int]@));
            let simple = self.data.ast_enums.vals[i].is_simple(self.data);
            flags.push(simple);
            i += 1;
        }
        // Insert struct and enum members
        let ns = self.data.ast_structs.vals.len();
        let mut i: usize = 0;
        while i < ns
            invariant
                ns == d0.ast_structs.vals@.len(),
                i <= ns,
                refs_ok(d0),
                fuel == d0.rule_types.keys@.len(),
                self.data.wf(),
                same_but_refs(d0, *self.data),
                refs_sound(self.data.parent_refs, structs_view(d0.ast_structs), enums_view(d0.ast_enums)),
                refs_view(self.data.parent_refs) == struct_refs_phase(d0, r0, i as int),
            decreases ns - i,
        {
            proof {
                d0.ast_structs.lemma_idx(i as int);
            }
            let struct_name = self.data.ast_structs.keys[i];
            let ghost st = d0.ast_structs.vals@[i as int];
            assert(d0.ast_structs@.contains_key(struct_name@));
            assert(st.members.wf());
            let nm = self.data.ast_structs.vals[i].members.vals.len();
            let mut j: usize = 0;
            while j < nm
                invariant
                    ns == d0.ast_structs.vals@.len(),
                    i < ns,
                    st == d0.ast_structs.vals@[i as int],
                    struct_name == d0.ast_structs.keys@[i as int],
                    d0.ast_structs@.contains_key(struct_name@),
                    d0.ast_structs@[struct_name@] == st,
                    st.members.wf(),
                    nm == st.members.vals@.len(),
                    j <= nm,
                    refs_ok(d0),
                    fuel == d0.rule_types.keys@.len(),
                    self.data.wf(),
                    same_but_refs(d0, *self.data),
                    refs_sound(self.data.parent_refs, structs_view(d0.ast_structs), enums_view(d0.ast_enums)),
                    refs_view(self.data.parent_refs) == member_refs(
                        d0,
                        struct_refs_phase(d0, r0, i as int),
                        struct_name,
                        st,
                        j as int,
                    ),
                decreases nm - j,
            {
                let part_key = self.data.ast_structs.vals[i].members.vals[j].part_key;
                let member_name = self.data.ast_structs.vals[i].members.keys[j];
                proof {
                    st.members.lemma_idx(j as int);
                }
                if self.data.get_ast_key(part_key).is_some() {
                    assert(is_ast_part(d0, part_key));
                    assert(st.members@.contains_key(member_name@));
                    assert(d0.resolves(part_key@));
                    proof {
                        lemma_resolve_same(*self.data, d0, part_key@, fuel);
                    }
                    let resolved = self.data.resolve(part_key);
                    let key = resolved.get_ast_type();
                    assert(key@ == d0.resolved(part_key@).name());
                    assert(structs_view(d0.ast_structs).contains_key(struct_name@));
                    assert(structs_view(d0.ast_structs)[struct_name@].members.contains_key(member_name@));
                    record_ref(
                        &mut self.data.parent_refs,
                        key,
                        ParentRef::StructMember { struct_name, member_name },
                        Ghost(structs_view(d0.ast_structs)),
                        Ghost(enums_view(d0.ast_enums)),
                    );
                }
                j += 1;
            }
            i += 1;
        }
        let ghost r1 = struct_refs_phase(d0, r0, ns as int);
        let mut i: usize = 0;
        while i < ne
            invariant
                ne == d0.ast_enums.vals@.len(),
                flags@.len() == ne,
                forall|k: int|
                    0 <= k < ne ==> flags@[k] == enum_simple(&d0, d0.ast_enums.vals@[k], simple_fuel(&d0)).unwrap(),
                i <= ne,
                refs_ok(d0),
                fuel == d0.rule_types.keys@.len(),
                self.data.wf(),
                same_but_refs(d0, *self.data),
                refs_sound(self.data.parent_refs, structs_view(d0.ast_structs), enums_view(d0.ast_enums)),
                refs_view(self.data.parent_refs) == enum_refs_phase(d0, r1, i as int),
            decreases ne - i,
        {
            proof {
                d0.ast_enums.lemma_idx(i as int);
            }
            if !flags[i] {
                let enum_name = self.data.ast_enums.keys[i];
                let ghost e = d0.ast_enums.vals@[i as int];
                assert(d0.ast_enums@.contains_key(enum_name@));
                let ni = self.data.ast_enums.vals[i].items.len();
                let mut j: usize = 0;
                while j < ni
                    invariant
                        ne == d0.ast_enums.vals@.len(),
                        i < ne,
                        e == d0.ast_enums.vals@[i as int],
                        enum_name == d0.ast_enums.keys@[i as int],
                        d0.ast_enums@.contains_key(enum_name@),
                        d0.ast_enums@[enum_name@] == e,
                        !enum_simple(&d0, e, simple_fuel(&d0)).unwrap(),
                        ni == e.items@.len(),
                        j <= ni,
                        refs_ok(d0),
                        fuel == d0.rule_types.keys@.len(),
                        self.data.wf(),
                        same_but_refs(d0, *self.data),
                        refs_sound(self.data.parent_refs, structs_view(d0.ast_structs), enums_view(d0.ast_enums)),
                        refs_view(self.data.parent_refs) == item_refs(d0, enum_refs_phase(d0, r1, i as int), enum_name, e, j as int),
                    decreases ni - j,
                {
                    let item = self.data.ast_enums.vals[i].items[j];
                    assert(d0.resolves(item@)) by {
                        assert(d0.ast_enums@[enum_name@].items@[j as int] == item);
                    }
                    proof {
                        lemma_resolve_same(*self.data, d0, item@, fuel);
                    }
                    let resolved = self.data.resolve(item);
                    let key = resolved.get_ast_type();
                    assert(enums_view(d0.ast_enums).contains_key(enum_name@));
                    record_ref(
                        &mut self.data.parent_refs,
                        key,
                        ParentRef::EnumItem { enum_name, item_name: item },
                        Ghost(structs_view(d0.ast_structs)),
                        Ghost(enums_view(d0.ast_enums)),
                    );
                    j += 1;
                }
            }
            i += 1;
        }
    }

    /// The references to box: for each member holding an AST value, the
    /// places met walking up from its struct that are of the value's type.
    fn collect_boxes(data: &LangData<'d>) -> (r: Vec<ToBox<'d>>)
        requires
            data.wf(),
            refs_sound(data.parent_refs, structs_view(data.ast_structs), enums_view(data.ast_enums)),
        ensures
            r@ == boxes_of(*data),
            forall|i: int| 0 <= i < r@.len() ==> box_sound(#[trigger] r@[i], structs_view(data.ast_structs), enums_view(data.ast_enums)),
    {
        let ghost sv = structs_view(data.ast_structs);
        let ghost ev = enums_view(data.ast_enums);
        let mut to_box: Vec<ToBox<'d>> = Vec::new();
        let mut visited: StrMap<&'d str, StrSet<&'d str>> = StrMap::new();
        assert(visited_view(visited) =~= Map::<Seq<char>, Set<Seq<char>>>::empty());
        let ns = data.ast_structs.vals.len();
        proof {
            data.ast_structs.lemma_view_values();
        }
        let mut i: usize = 0;
        while i < ns
            invariant
                ns == data.ast_structs.vals@.len(),
                i <= ns,
                data.wf(),
                sv == structs_view(data.ast_structs),
                ev == enums_view(data.ast_enums),
                refs_sound(data.parent_refs, sv, ev),
                visited_wf(visited),
                (to_box@, visited_view(visited)) == struct_boxes_phase(*data, (Seq::empty(), Map::empty()), i as int),
                forall|k: int| 0 <= k < to_box@.len() ==> box_sound(#[trigger] to_box@[k], sv, ev),
            decreases ns - i,
        {
            proof {
                data.ast_structs.lemma_idx(i as int);
            }
            let struct_name = data.ast_structs.keys[i];
            let ghost st = data.ast_structs.vals@[i as int];
            assert(data.ast_structs@.contains_key(struct_name@));
            assert(st.members.wf());
            let nm = data.ast_structs.vals[i].members.vals.len();
            let mut j: usize = 0;
            while j < nm
                invariant
                    ns == data.ast_structs.vals@.len(),
                    i < ns,
                    st == data.ast_structs.vals@[i as int],
                    struct_name == data.ast_structs.keys@[i as int],
                    nm == st.members.vals@.len(),
                    j <= nm,
                    data.wf(),
                    sv == structs_view(data.ast_structs),
                    ev == enums_view(data.ast_enums),
                    refs_sound(data.parent_refs, sv, ev),
                    visited_wf(visited),
                    (to_box@, visited_view(visited)) == member_boxes(
                        *data,
                        struct_boxes_phase(*data, (Seq::empty(), Map::empty()), i as int),
                        struct_name,
                        st,
                        j as int,
                    ),
                    forall|k: int| 0 <= k < to_box@.len() ==> box_sound(#[trigger] to_box@[k], sv, ev),
                decreases nm - j,
            {
                let part_key = data.ast_structs.vals[i].members.vals[j].part_key;
                match data.get_ast_key(part_key) {
                    Some(ast_key) => {
                        assert(is_ast_part(*data, part_key));
                        assert(ast_key == ast_key_of(*data, part_key));
                        let ghost vis0 = visited_of(visited_view(visited), ast_key@);
                        if !visited.contains_key(ast_key) {
                            visited.insert(ast_key, StrMap::new());
                            assert(visited_view(visited)[ast_key@] =~= Set::<Seq<char>>::empty());
                        }
                        let ghost mid = visited;
                        let k = match visited.index_of(ast_key) {
                            Some(k) => k,
                            None => {
                                assert(false);
                                0
                            },
                        };
                        proof {
                            mid.lemma_idx(k as int);
                        }
                        assert(visited.vals@[k as int]@.dom() == vis0);
                        let vis = visited.val_at_mut(k);
                        let mut w = set_boxed(ast_key, struct_name, &data.parent_refs, vis, Ghost(sv), Ghost(ev));
                        proof {
                            mid.lemma_update_at(visited, k as int);
                        }
                        let ghost old_len = to_box@.len();
                        let ghost old_box = to_box@;
                        let ghost wv = w@;
                        to_box.append(&mut w);
                        proof {
                            assert(visited_view(visited) =~= visited_view(mid).insert(ast_key@, visited.vals@[k as int]@.dom()));
                            assert forall|kk: Seq<char>| #[trigger] visited@.contains_key(kk) implies visited@[kk].wf() by {
                                if kk != ast_key@ {
                                    assert(mid@.contains_key(kk));
                                }
                            }
                            assert forall|kk: int| 0 <= kk < to_box@.len() implies box_sound(#[trigger] to_box@[kk], sv, ev) by {
                                assert(to_box@ == old_box + wv);
                                if kk >= old_len {
                                    assert(to_box@[kk] == wv[kk - old_len]);
                                } else {
                                    assert(to_box@[kk] == old_box[kk]);
                                }
                            }
                            assert(visited_view(mid) =~= visited_view(mid));
                        }
                    },
                    None => {},
                }
                j += 1;
            }
            i += 1;
        }
        to_box
    }

    /// Boxes the given references, in order.
    #[verifier::spinoff_prover]
    #[verifier::rlimit(60)]
    fn apply_to_box(&mut self, to_box: &Vec<ToBox<'d>>)
        requires
            old(self).data.wf(),
            forall|i: int|
                0 <= i < to_box@.len() ==> box_sound(
                    #[trigger] to_box@[i],
                    structs_view(old(self).data.ast_structs),
                    enums_view(old(self).data.ast_enums),
                ),
        ensures
            final(self).data.wf(),
            boxed_by(*old(self).data, *final(self).data, to_box@),
    {
        let ghost d0 = *self.data;
        let n = to_box.len();
        let mut i: usize = 0;
        while i < n
            invariant
                n == to_box@.len(),
                i <= n,
                self.data.wf(),
                same_but_boxes(d0, *self.data),
                structs_view(self.data.ast_structs).dom() == structs_view(d0.ast_structs).dom(),
                enums_view(self.data.ast_enums).dom() == enums_view(d0.ast_enums).dom(),
                forall|k: Seq<char>| #[trigger] structs_view(self.data.ast_structs).contains_key(k) ==> structs_view(self.data.ast_structs)[k].members.dom()
                    == structs_view(d0.ast_structs)[k].members.dom(),
                forall|j: int|
                    0 <= j < to_box@.len() ==> box_sound(
                        #[trigger] to_box@[j],
                        structs_view(d0.ast_structs),
                        enums_view(d0.ast_enums),
                    ),
                (structs_view(self.data.ast_structs), enums_view(self.data.ast_enums)) == apply_boxes(
                    structs_view(d0.ast_structs),
                    enums_view(d0.ast_enums),
                    to_box@,
                    i as int,
                ),
            decreases n - i,
        {
            assert(box_sound(to_box@[i as int], structs_view(d0.ast_structs), enums_view(d0.ast_enums)));
            match &to_box[i] {
                ToBox::StructMember { struct_name, member_name } => {
                    let ghost old_structs = self.data.ast_structs;
                    let k = match self.data.ast_structs.index_of(struct_name) {
                        Some(k) => k,
                        None => {
                            assert(structs_view(self.data.ast_structs).contains_key(struct_name@));
                            assert(false);
                            0
                        },
                    };
                    proof {
                        old_structs.lemma_idx(k as int);
                    }
                    let ghost old_struct = old_structs.vals@[k as int];
                    let ghost old_members = old_struct.members;
                    assert(old_structs@.contains_key(struct_name@));
                    assert(old_members.wf());
                    assert(structs_view(old_structs)[struct_name@].members.contains_key(member_name@));
                    let st = self.data.ast_structs.val_at_mut(k);
                    let j = match st.members.index_of(member_name) {
                        Some(j) => j,
                        None => {
                            assert(false);
                            0
                        },
                    };
                    proof {
                        old_members.lemma_idx(j as int);
                    }
                    let member = st.members.val_at_mut(j);
                    member.boxed = true;
                    proof {
                        old_members.lemma_update_at(st.members, j as int);
                    }
                    proof {
                        old_structs.lemma_update_at(self.data.ast_structs, k as int);
                        assert(structs_view(self.data.ast_structs) =~~= apply_boxes(
                            structs_view(d0.ast_structs),
                            enums_view(d0.ast_enums),
                            to_box@,
                            i + 1,
                        ).0);
                    }
                },
                ToBox::EnumItem { enum_name, item_name } => {
                    let ghost old_enums = self.data.ast_enums;
                    let k = match self.data.ast_enums.index_of(enum_name) {
                        Some(k) => k,
                        None => {
                            assert(enums_view(self.data.ast_enums).contains_key(enum_name@));
                            assert(false);
                            0
                        },
                    };
                    proof {
                        old_enums.lemma_idx(k as int);
                    }
                    assert(old_enums@.contains_key(enum_name@));
                    let e = self.data.ast_enums.val_at_mut(k);
                    e.boxed_items.insert(item_name, ());
                    proof {
                        old_enums.lemma_update_at(self.data.ast_enums, k as int);
                        assert(enums_view(self.data.ast_enums) =~~= apply_boxes(
                            structs_view(d0.ast_structs),
                            enums_view(d0.ast_enums),
                            to_box@,
                            i + 1,
                        ).1);
                    }
                },
            }
            i += 1;
        }
    }

    /// Builds the AST types: the structs, enums and rule types of the
    /// rules, the simple enums, the places each type is referred from, and
    /// the references that must be boxed.
    pub fn build_ast(&mut self)
        requires
            build_ok(*old(self).data),
        ensures
            final(self).data.wf(),
            exists|d1: LangData<'d>, d2: LangData<'d>, d3: LangData<'d>|
                built(*old(self).data, d1) && simplified(d1, d2) && d2.wf() && referenced(d2, d3) && boxed(d3, *final(self).data),
    {
        let ghost d0 = *self.data;
        let ghost w = build_weight(d0);
        proof {
            lemma_ast_phase_weight(d0.ast_data.vals@, 0, d0.ast_data.vals@.len() as int);
            lemma_list_phase_weight(d0.list_data.vals@, 0, d0.list_data.vals@.len() as int);
        }
        Self::build_from_ast_data(
            &self.data.ast_data,
            &mut self.data.ast_structs,
            &mut self.data.ast_enums,
            &self.data.typed_parts,
            &mut self.data.rule_types,
            &mut self.data.snake_cased,
            Ghost(list_phase_weight(d0.list_data.vals@, d0.list_data.vals@.len() as int)),
        );
        Self::build_from_list_data(
            &self.data.list_data,
            &mut self.data.ast_structs,
            &mut self.data.ast_enums,
            &self.data.typed_parts,
            &mut self.data.rule_types,
            &mut self.data.snake_cased,
            Ghost(0),
        );
        let ghost d1 = *self.data;
        assert(built(d0, d1));
        assert forall|k: Seq<char>| #[trigger] d1.ast_structs@.contains_key(k) implies d1.ast_structs@[k].name@ == k
            && d1.ast_structs@[k].members.wf() by {
            assert(structs_view(d1.ast_structs).contains_key(k));
        }
        assert forall|k: Seq<char>| #[trigger] d1.ast_enums@.contains_key(k) implies d1.ast_enums@[k].name@ == k
            && d1.ast_enums@[k].boxed_items.wf() by {
            assert(enums_view(d1.ast_enums).contains_key(k));
        }
        assert(d1.wf());
        assert(simple_decidable(d1));
        self.check_simple();
        let ghost d2 = *self.data;
        assert(refs_ok(d2));
        assert(refs_sound(d2.parent_refs, structs_view(d2.ast_structs), enums_view(d2.ast_enums)));
        self.add_parent_refs();
        let ghost d3 = *self.data;
        // Go through each struct member, and check for parent reference.
        // If found, set the reference to boxed
        let to_box = Self::collect_boxes(self.data);
        self.apply_to_box(&to_box);
        assert(boxed(d3, *self.data));
    }
}

} // verus!
