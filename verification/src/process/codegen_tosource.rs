//! Generates the to-source module: a function per AST type that prints a
//! node back to text, part by part as its rules describe it.
use vstd::prelude::*;
use crate::text::{cat, concat_map, lemma_concat_map_step};
use crate::strmap::{sorted_names, Name, StrMap};
use crate::lang_data::data::{snake, AstData, LangData, ListData};
use crate::lang_data::ast::AstEnum;
use crate::lang_data::rule::{AstPartsRule, AstRule, AstRulePart, ListRule};
use crate::lang_data::rule_source::{part_source, source_ok};

verus! {

pub struct CodegenToSource<'a, 'd> {
    pub data: &'a LangData<'d>,
}

/// The parts rules of the language, grouped by the AST type they build.
pub struct AstRules<'a, 'd> {
    pub rules: StrMap<&'d str, Vec<&'a AstPartsRule<'d>>>,
}

/// The rules stored for each AST type, as values.
pub open spec fn rules_view<'a, 'd>(ar: AstRules<'a, 'd>) -> Map<Seq<char>, Seq<AstPartsRule<'d>>> {
    ar.rules@.map_values(|v: Vec<&'a AstPartsRule<'d>>| v@.map_values(|r: &'a AstPartsRule<'d>| *r))
}

/// A map of rules by type after one more rule is added under its type.
pub open spec fn add_rule<'d>(m: Map<Seq<char>, Seq<AstPartsRule<'d>>>, t: Seq<char>, r: AstPartsRule<'d>) -> Map<
    Seq<char>,
    Seq<AstPartsRule<'d>>,
> {
    m.insert(
        t,
        (if m.contains_key(t) {
            m[t]
        } else {
            Seq::empty()
        }).push(r),
    )
}

impl<'a, 'd> AstRules<'a, 'd> {
    /// Adds a rule under the type it builds, after the rules already there.
    pub fn insert(&mut self, ast_type: &'d str, rule: &'a AstPartsRule<'d>)
        requires
            old(self).rules.wf(),
        ensures
            final(self).rules.wf(),
            rules_view(*final(self)) == add_rule(rules_view(*old(self)), ast_type@, *rule),
    {
        let ghost m0 = rules_view(*self);
        let ghost f = |r: &'a AstPartsRule<'d>| *r;
        match self.rules.index_of(ast_type) {
            Some(i) => {
                let ghost old_self = *self;
                let ghost oldv = self.rules.vals@[i as int];
                let v = self.rules.val_at_mut(i);
                v.push(rule);
                proof {
                    old_self.rules.lemma_idx(i as int);
                    self.rules.lemma_idx(i as int);
                    old_self.rules.lemma_view_values();
                    self.rules.lemma_view_values();
                    assert(self.rules@ =~= old_self.rules@.insert(ast_type@, self.rules.vals@[i as int]));
                    assert(self.rules.vals@[i as int]@ == oldv@.push(rule));
                    assert(m0.contains_key(ast_type@));
                    assert(m0[ast_type@] == oldv@.map_values(f));
                    assert(self.rules.vals@[i as int]@.map_values(f) =~= oldv@.map_values(f).push(*rule));
                }
            },
            None => {
                let mut v = Vec::new();
                v.push(rule);
                self.rules.insert(ast_type, v);
                proof {
                    assert(v@.map_values(f) =~= Seq::<AstPartsRule<'d>>::empty().push(*rule));
                }
            },
        }
        assert(rules_view(*self) =~= add_rule(m0, ast_type@, *rule));
    }
}

/// The parts rules among some rules, in order.
pub open spec fn parts_rules_of<'d>(rules: Seq<AstRule<'d>>) -> Seq<AstPartsRule<'d>>
    decreases rules.len(),
{
    if rules.len() == 0 {
        Seq::empty()
    } else {
        parts_rules_of(rules.drop_last()) + match rules.last() {
            AstRule::PartsRule(pr) => seq![pr],
            AstRule::RefRule(..) => Seq::empty(),
        }
    }
}

pub open spec fn ast_parts_rules_upto<'d>(ads: Seq<AstData<'d>>, n: int) -> Seq<AstPartsRule<'d>>
    decreases n,
{
    if n <= 0 {
        Seq::empty()
    } else {
        ast_parts_rules_upto(ads, n - 1) + parts_rules_of(ads[n - 1].rules@)
    }
}

pub open spec fn list_parts_rules_upto<'d>(lds: Seq<ListData<'d>>, n: int) -> Seq<AstPartsRule<'d>>
    decreases n,
{
    if n <= 0 {
        Seq::empty()
    } else {
        list_parts_rules_upto(lds, n - 1) + parts_rules_of(
            lds[n - 1].rules@.map_values(|r: ListRule<'d>| r.ast_rule),
        )
    }
}

/// All parts rules of the language: those of the AST entries, then those
/// of the lists, each in order of key.
pub open spec fn all_parts_rules<'d>(data: &LangData<'d>) -> Seq<AstPartsRule<'d>> {
    ast_parts_rules_upto(data.ast_data.vals@, data.ast_data.vals@.len() as int) + list_parts_rules_upto(
        data.list_data.vals@,
        data.list_data.vals@.len() as int,
    )
}

/// Rules grouped by type, in the order given.
pub open spec fn group_rules<'d>(rs: Seq<AstPartsRule<'d>>) -> Map<Seq<char>, Seq<AstPartsRule<'d>>>
    decreases rs.len(),
{
    if rs.len() == 0 {
        Map::empty()
    } else {
        add_rule(group_rules(rs.drop_last()), rs.last().ast_type@, rs.last())
    }
}

/// The printer code of some rules, each part after a line printing a space.
pub open spec fn rules_source<'d>(data: &LangData<'d>, rules: Seq<AstPartsRule<'d>>, space: Seq<char>) -> Seq<char> {
    concat_map(
        rules,
        |r: AstPartsRule<'d>| concat_map(r.parts@, |p: AstRulePart<'d>| space + part_source(p, data, false)),
    )
}

pub open spec fn space_line() -> Seq<char> {
    "        s += \" \";\n"@
}

/// The printer function of an AST type built by parts rules.
pub open spec fn type_printer<'d>(data: &LangData<'d>, t: Seq<char>, rules: Seq<AstPartsRule<'d>>) -> Seq<char> {
    if data.simple_structs@.contains_key(t) {
        Seq::empty()
    } else {
        "    pub fn "@ + snake(t) + "(mut s: String, node: &'a "@ + t + ") -> String {\n"@ + rules_source(
            data,
            rules,
            space_line(),
        ) + "        s\n"@ + "    }\n\n"@
    }
}

pub open spec fn simple_item_printer<'d>(
    data: &LangData<'d>,
    e: AstEnum<'d>,
    m: Map<Seq<char>, Seq<AstPartsRule<'d>>>,
    item: &'d str,
) -> Seq<char> {
    "            "@ + "&"@ + e.name@ + "::"@ + item@ + " => {\n"@ + "                "@ + rules_source(
        data,
        m[item@],
        "s += \" \";\n"@,
    ) + "            "@ + "},\n"@
}

pub open spec fn item_dispatch<'d>(e: AstEnum<'d>, item: &'d str) -> Seq<char> {
    "            "@ + "&"@ + e.name@ + "::"@ + item@ + "Item(ref inner) => Self::"@ + snake(item@)
        + "(s, inner),\n"@
}

/// The printer function of an enum: for a simple enum a match printing
/// each item's rules, otherwise a dispatch to the printer of each item.
pub open spec fn enum_printer<'d>(data: &LangData<'d>, e: AstEnum<'d>, m: Map<Seq<char>, Seq<AstPartsRule<'d>>>) -> Seq<
    char,
> {
    let simple = data.simple_enums@.contains_key(e.name@);
    "    "@ + "pub fn "@ + e.snake_case@ + "("@ + (if simple {
        "mut "@
    } else {
        Seq::empty()
    }) + "s: String, node: &'a "@ + e.name@ + ") -> String {\n"@ + "        "@ + "match node {\n"@ + if simple {
        concat_map(e.items@, |item: &'d str| simple_item_printer(data, e, m, item)) + "        }\n"@
            + "        s\n"@ + "    }\n\n"@
    } else {
        concat_map(e.items@, |item: &'d str| item_dispatch(e, item)) + "        }\n    }\n\n"@
    }
}

pub open spec fn tosource_header() -> Seq<char> {
    "use super::ast::*;\n\n"@ + "pub struct ToSource;\n"@ + "#[allow(unused_variables,dead_code)]\n"@
        + "impl<'a> ToSource {\n"@
}

/// The to-source module: a printer per type built by parts rules, in
/// order of type, then a printer per enum, in order of name.
pub open spec fn tosource_source<'d>(data: &LangData<'d>) -> Seq<char> {
    let m = group_rules(all_parts_rules(data));
    tosource_header() + concat_map(sorted_names(m.dom()), |t: Seq<char>| type_printer(data, t, m[t]))
        + concat_map(data.ast_enums.vals@, |e: AstEnum<'d>| enum_printer(data, e, m)) + "}"@
}

pub open spec fn rules_source_ok<'d>(data: &LangData<'d>, rules: Seq<AstPartsRule<'d>>) -> bool {
    forall|i: int, j: int|
        0 <= i < rules.len() && 0 <= j < rules[i].parts@.len() ==> source_ok(
            #[trigger] rules[i].parts@[j],
            data,
            false,
        )
}

/// The lookups generating the to-source module makes succeed.
pub open spec fn tosource_gen_ok<'d>(data: &LangData<'d>) -> bool {
    let m = group_rules(all_parts_rules(data));
    &&& data.wf()
    &&& forall|t: Seq<char>| #[trigger]
        m.contains_key(t) && !data.simple_structs@.contains_key(t) ==> data.has_sc(t) && rules_source_ok(
            data,
            m[t],
        )
    &&& forall|i: int|
        0 <= i < data.ast_enums.vals@.len() ==> #[trigger] enum_printer_ok(data, data.ast_enums.vals@[i], m)
}

pub open spec fn enum_printer_ok<'d>(data: &LangData<'d>, e: AstEnum<'d>, m: Map<Seq<char>, Seq<AstPartsRule<'d>>>) -> bool {
    forall|k: int|
        0 <= k < e.items@.len() ==> if data.simple_enums@.contains_key(e.name@) {
            m.contains_key(#[trigger] e.items@[k]@) && rules_source_ok(data, m[e.items@[k]@])
        } else {
            data.has_sc(e.items@[k]@)
        }
}

pub proof fn lemma_group_rules_push<'d>(rs: Seq<AstPartsRule<'d>>, r: AstPartsRule<'d>)
    ensures
        group_rules(rs.push(r)) == add_rule(group_rules(rs), r.ast_type@, r),
{
    assert(rs.push(r).drop_last() =~= rs);
}

pub proof fn lemma_parts_rules_of_step<'d>(rules: Seq<AstRule<'d>>, j: int)
    requires
        0 <= j < rules.len(),
    ensures
        parts_rules_of(rules.take(j + 1)) == parts_rules_of(rules.take(j)) + match rules[j] {
            AstRule::PartsRule(pr) => seq![pr],
            AstRule::RefRule(..) => Seq::empty(),
        },
{
    assert(rules.take(j + 1).drop_last() =~= rules.take(j));
}

/// Appends the printer code of some rules, each part after the line `space`.
fn gen_rules_source<'a, 'd>(
    s: String,
    rules: &Vec<&'a AstPartsRule<'d>>,
    space: &str,
    data: &LangData<'d>,
) -> (r: String)
    requires
        data.wf(),
        rules_source_ok(data, rules@.map_values(|r: &'a AstPartsRule<'d>| *r)),
    ensures
        r@ == s@ + rules_source(data, rules@.map_values(|r: &'a AstPartsRule<'d>| *r), space@),
{
    let ghost s0 = s@;
    let ghost rs = rules@.map_values(|r: &'a AstPartsRule<'d>| *r);
    let ghost f = |r: AstPartsRule<'d>| concat_map(r.parts@, |p: AstRulePart<'d>| space@ + part_source(p, data, false));
    let mut s = s;
    let n = rules.len();
    let mut i: usize = 0;
    while i < n
        invariant
            n == rules@.len(),
            rs == rules@.map_values(|r: &'a AstPartsRule<'d>| *r),
            i <= n,
            data.wf(),
            rules_source_ok(data, rs),
            f == (|r: AstPartsRule<'d>| concat_map(r.parts@, |p: AstRulePart<'d>| space@ + part_source(p, data, false))),
            s@ == s0 + concat_map(rs.take(i as int), f),
        decreases n - i,
    {
        proof {
            lemma_concat_map_step(rs, f, i as int);
        }
        let rule = rules[i];
        assert(*rule == rs[i as int]);
        let ghost g = |p: AstRulePart<'d>| space@ + part_source(p, data, false);
        let ghost s1 = s@;
        let m = rule.parts.len();
        let mut j: usize = 0;
        while j < m
            invariant
                m == rule.parts@.len(),
                j <= m,
                data.wf(),
                *rule == rs[i as int],
                0 <= i < rs.len(),
                rules_source_ok(data, rs),
                g == (|p: AstRulePart<'d>| space@ + part_source(p, data, false)),
                s@ == s1 + concat_map(rule.parts@.take(j as int), g),
            decreases m - j,
        {
            proof {
                lemma_concat_map_step(rule.parts@, g, j as int);
            }
            assert(source_ok(rs[i as int].parts@[j as int], data, false));
            s = cat(s, space);
            s = rule.parts[j].add_to_source(s, data, false);
            j += 1;
        }
        assert(rule.parts@.take(m as int) =~= rule.parts@);
        assert(f(rs[i as int]) == concat_map(rule.parts@, g));
        i += 1;
    }
    assert(rs.take(n as int) =~= rs);
    s
}

impl<'a, 'd> CodegenToSource<'a, 'd> {
    pub fn new(data: &'a LangData<'d>) -> (r: CodegenToSource<'a, 'd>)
        ensures
            r.data == data,
    {
        CodegenToSource { data }
    }

    /// The parts rules of the language, grouped by the type they build.
    pub fn collect_rules(&self) -> (r: AstRules<'a, 'd>)
        requires
            self.data.wf(),
        ensures
            r.rules.wf(),
            rules_view(r) == group_rules(all_parts_rules(self.data)),
    {
        let data: &'a LangData<'d> = self.data;
        let mut rules = AstRules { rules: StrMap::new() };
        assert(rules_view(rules) =~= group_rules(Seq::<AstPartsRule<'d>>::empty()));
        // Add rules by ast key
        let n = data.ast_data.vals.len();
        let mut i: usize = 0;
        while i < n
            invariant
                n == data.ast_data.vals@.len(),
                i <= n,
                rules.rules.wf(),
                rules_view(rules) == group_rules(ast_parts_rules_upto(data.ast_data.vals@, i as int)),
            decreases n - i,
        {
            let ast_data = &data.ast_data.vals[i];
            let ghost prefix = ast_parts_rules_upto(data.ast_data.vals@, i as int);
            let m = ast_data.rules.len();
            let mut j: usize = 0;
            while j < m
                invariant
                    m == ast_data.rules@.len(),
                    j <= m,
                    rules.rules.wf(),
                    rules_view(rules) == group_rules(prefix + parts_rules_of(ast_data.rules@.take(j as int))),
                decreases m - j,
            {
                proof {
                    lemma_parts_rules_of_step(ast_data.rules@, j as int);
                }
                if let AstRule::PartsRule(parts_rule) = &ast_data.rules[j] {
                    proof {
                        let b = parts_rules_of(ast_data.rules@.take(j as int));
                        assert(prefix + (b + seq![*parts_rule]) =~= (prefix + b).push(*parts_rule));
                        lemma_group_rules_push(prefix + b, *parts_rule);
                    }
                    rules.insert(parts_rule.ast_type, parts_rule);
                } else {
                    assert(prefix + parts_rules_of(ast_data.rules@.take(j + 1)) =~= prefix + parts_rules_of(
                        ast_data.rules@.take(j as int),
                    ));
                }
                j += 1;
            }
            assert(ast_data.rules@.take(m as int) =~= ast_data.rules@);
            i += 1;
        }
        let ghost prefix = ast_parts_rules_upto(data.ast_data.vals@, n as int);
        assert(prefix =~= prefix + list_parts_rules_upto(data.list_data.vals@, 0));
        let n = data.list_data.vals.len();
        let mut i: usize = 0;
        while i < n
            invariant
                n == data.list_data.vals@.len(),
                i <= n,
                rules.rules.wf(),
                rules_view(rules) == group_rules(prefix + list_parts_rules_upto(data.list_data.vals@, i as int)),
            decreases n - i,
        {
            let list_data = &data.list_data.vals[i];
            let ghost lrules = list_data.rules@.map_values(|r: ListRule<'d>| r.ast_rule);
            let ghost prefix2 = prefix + list_parts_rules_upto(data.list_data.vals@, i as int);
            let m = list_data.rules.len();
            let mut j: usize = 0;
            while j < m
                invariant
                    m == list_data.rules@.len(),
                    lrules == list_data.rules@.map_values(|r: ListRule<'d>| r.ast_rule),
                    j <= m,
                    rules.rules.wf(),
                    rules_view(rules) == group_rules(prefix2 + parts_rules_of(lrules.take(j as int))),
                decreases m - j,
            {
                proof {
                    lemma_parts_rules_of_step(lrules, j as int);
                }
                assert(lrules[j as int] == list_data.rules@[j as int].ast_rule);
                if let AstRule::PartsRule(parts_rule) = &list_data.rules[j].ast_rule {
                    proof {
                        let b = parts_rules_of(lrules.take(j as int));
                        assert(prefix2 + (b + seq![*parts_rule]) =~= (prefix2 + b).push(*parts_rule));
                        lemma_group_rules_push(prefix2 + b, *parts_rule);
                    }
                    rules.insert(parts_rule.ast_type, parts_rule);
                } else {
                    assert(prefix2 + parts_rules_of(lrules.take(j + 1)) =~= prefix2 + parts_rules_of(
                        lrules.take(j as int),
                    ));
                }
                j += 1;
            }
            assert(lrules.take(m as int) =~= lrules);
            assert(prefix2 + parts_rules_of(lrules) =~= prefix + list_parts_rules_upto(data.list_data.vals@, i + 1));
            i += 1;
        }
        rules
    }
}

fn gen_type_printer<'a, 'd>(
    s: String,
    ast_type: &'d str,
    rules: &Vec<&'a AstPartsRule<'d>>,
    data: &LangData<'d>,
) -> (r: String)
    requires
        data.wf(),
        !data.simple_structs@.contains_key(ast_type@),
        data.has_sc(ast_type@),
        rules_source_ok(data, rules@.map_values(|r: &'a AstPartsRule<'d>| *r)),
    ensures
        r@ == s@ + type_printer(data, ast_type@, rules@.map_values(|r: &'a AstPartsRule<'d>| *r)),
{
    let ghost s0 = s@;
    let mut s = cat(s, "    pub fn ");
    s = cat(s, data.sc(ast_type));
    s = cat(s, "(mut s: String, node: &'a ");
    s = cat(s, ast_type);
    s = cat(s, ") -> String {\n");
    s = gen_rules_source(s, rules, "        s += \" \";\n", data);
    s = cat(s, "        s\n");
    s = cat(s, "    }\n\n");
    assert(s@ =~= s0 + type_printer(data, ast_type@, rules@.map_values(|r: &'a AstPartsRule<'d>| *r)));
    s
}

#[verifier::spinoff_prover]
#[verifier::rlimit(40)]
fn gen_enum_printer<'a, 'd>(s: String, e: &AstEnum<'d>, ast_rules: &AstRules<'a, 'd>, data: &LangData<'d>) -> (r: String)
    requires
        data.wf(),
        ast_rules.rules.wf(),
        enum_printer_ok(data, *e, rules_view(*ast_rules)),
    ensures
        r@ == s@ + enum_printer(data, *e, rules_view(*ast_rules)),
{
    let ghost s0 = s@;
    let ghost m = rules_view(*ast_rules);
    let is_simple = data.simple_enums.contains_key(e.name);
    let mut s = cat(s, "    ");
    s = cat(s, "pub fn ");
    s = cat(s, e.sc());
    s = cat(s, "(");
    if is_simple {
        s = cat(s, "mut ");
    }
    s = cat(s, "s: String, node: &'a ");
    s = cat(s, e.name);
    s = cat(s, ") -> String {\n");
    s = cat(s, "        ");
    s = cat(s, "match node {\n");
    let ghost s1 = s@;
    let n = e.items.len();
    if is_simple {
        let ghost f = |item: &'d str| simple_item_printer(data, *e, m, item);
        let mut i: usize = 0;
        while i < n
            invariant
                n == e.items@.len(),
                i <= n,
                data.wf(),
                ast_rules.rules.wf(),
                m == rules_view(*ast_rules),
                data.simple_enums@.contains_key(e.name@),
                enum_printer_ok(data, *e, m),
                f == (|item: &'d str| simple_item_printer(data, *e, m, item)),
                s@ == s1 + concat_map(e.items@.take(i as int), f),
            decreases n - i,
        {
            proof {
                lemma_concat_map_step(e.items@, f, i as int);
            }
            let enum_item = e.items[i];
            assert(m.contains_key(e.items@[i as int]@));
            let ghost before = s@;
            s = cat(s, "            ");
            s = cat(s, "&");
            s = cat(s, e.name);
            s = cat(s, "::");
            s = cat(s, enum_item);
            s = cat(s, " => {\n");
            s = cat(s, "                ");
            let rules = match ast_rules.rules.get(enum_item) {
                Some(r) => r,
                None => {
                    assert(false);
                    return s;
                },
            };
            s = gen_rules_source(s, rules, "s += \" \";\n", data);
            s = cat(s, "            ");
            s = cat(s, "},\n");
            assert(s@ =~= before + simple_item_printer(data, *e, m, enum_item));
            i += 1;
        }
        assert(e.items@.take(n as int) =~= e.items@);
        s = cat(s, "        }\n");
        s = cat(s, "        s\n");
        s = cat(s, "    }\n\n");
    } else {
        let ghost f = |item: &'d str| item_dispatch(*e, item);
        let mut i: usize = 0;
        while i < n
            invariant
                n == e.items@.len(),
                i <= n,
                data.wf(),
                !data.simple_enums@.contains_key(e.name@),
                enum_printer_ok(data, *e, m),
                f == (|item: &'d str| item_dispatch(*e, item)),
                s@ == s1 + concat_map(e.items@.take(i as int), f),
            decreases n - i,
        {
            proof {
                lemma_concat_map_step(e.items@, f, i as int);
            }
            let enum_item = e.items[i];
            assert(data.has_sc(e.items@[i as int]@));
            let ghost before = s@;
            s = cat(s, "            ");
            s = cat(s, "&");
            s = cat(s, e.name);
            s = cat(s, "::");
            s = cat(s, enum_item);
            s = cat(s, "Item(ref inner) => Self::");
            s = cat(s, data.sc(enum_item));
            s = cat(s, "(s, inner),\n");
            assert(s@ =~= before + item_dispatch(*e, enum_item));
            i += 1;
        }
        assert(e.items@.take(n as int) =~= e.items@);
        s = cat(s, "        }\n    }\n\n");
    }
    assert(s@ =~= s0 + enum_printer(data, *e, m));
    s
}

fn tosource_head() -> (r: String)
    ensures
        r@ == tosource_header(),
{
    let s = String::new();
    proof {
        reveal_strlit("");
    }
    let mut s = cat(s, "use super::ast::*;\n\n");
    s = cat(s, "pub struct ToSource;\n");
    s = cat(s, "#[allow(unused_variables,dead_code)]\n");
    s = cat(s, "impl<'a> ToSource {\n");
    assert(s@ =~= tosource_header());
    s
}

impl<'a, 'd> CodegenToSource<'a, 'd> {
    /// The to-source module: a printer function for every type built by
    /// parts rules and not simple, in order of type name, then one for
    /// every enum, in order of name.
    pub fn gen(&self) -> (r: String)
        requires
            tosource_gen_ok(self.data),
        ensures
            r@ == tosource_source(self.data),
    {
        let data = self.data;
        let ast_rules = self.collect_rules();
        let ghost m = rules_view(ast_rules);
        // Create code for each rule under function for ast type
        let mut s = tosource_head();
        let ghost f = |t: Seq<char>| type_printer(data, t, m[t]);
        let n = ast_rules.rules.keys.len();
        proof {
            ast_rules.rules.lemma_view_values();
        }
        let mut i: usize = 0;
        while i < n
            invariant
                n == ast_rules.rules.keys@.len(),
                n == ast_rules.rules.vals@.len(),
                i <= n,
                ast_rules.rules.wf(),
                tosource_gen_ok(data),
                m == rules_view(ast_rules),
                m == group_rules(all_parts_rules(data)),
                f == (|t: Seq<char>| type_printer(data, t, m[t])),
                forall|k: int|
                    0 <= k < ast_rules.rules.keys@.len() ==> #[trigger] ast_rules.rules@.contains_key(
                        Name::chars(&ast_rules.rules.keys@[k]),
                    ) && ast_rules.rules@[Name::chars(&ast_rules.rules.keys@[k])] == ast_rules.rules.vals@[k],
                s@ == tosource_header() + concat_map(ast_rules.rules.key_names().take(i as int), f),
            decreases n - i,
        {
            proof {
                lemma_concat_map_step(ast_rules.rules.key_names(), f, i as int);
            }
            let ast_type = ast_rules.rules.keys[i];
            let rules = &ast_rules.rules.vals[i];
            assert(ast_rules.rules@.contains_key(ast_type@));
            assert(m[ast_type@] == rules@.map_values(|r: &'a AstPartsRule<'d>| *r));
            if !data.simple_structs.contains_key(ast_type) {
                assert(m.contains_key(ast_type@));
                s = gen_type_printer(s, ast_type, rules, data);
            }
            i += 1;
        }
        proof {
            assert(ast_rules.rules.key_names().take(n as int) =~= ast_rules.rules.key_names());
            ast_rules.rules.lemma_sorted_keys();
            assert(m.dom() =~= ast_rules.rules@.dom());
        }
        // Ast enums
        let ghost s1 = s@;
        let ghost fe = |e: AstEnum<'d>| enum_printer(data, e, m);
        let n = data.ast_enums.vals.len();
        proof {
            data.ast_enums.lemma_view_values();
        }
        let mut i: usize = 0;
        while i < n
            invariant
                n == data.ast_enums.vals@.len(),
                i <= n,
                ast_rules.rules.wf(),
                tosource_gen_ok(data),
                m == rules_view(ast_rules),
                m == group_rules(all_parts_rules(data)),
                fe == (|e: AstEnum<'d>| enum_printer(data, e, m)),
                s@ == s1 + concat_map(data.ast_enums.vals@.take(i as int), fe),
            decreases n - i,
        {
            proof {
                lemma_concat_map_step(data.ast_enums.vals@, fe, i as int);
            }
            assert(enum_printer_ok(data, data.ast_enums.vals@[i as int], m));
            s = gen_enum_printer(s, &data.ast_enums.vals[i], &ast_rules, data);
            i += 1;
        }
        assert(data.ast_enums.vals@.take(n as int) =~= data.ast_enums.vals@);
        s = cat(s, "}");
        s
    }
}

} // verus!
