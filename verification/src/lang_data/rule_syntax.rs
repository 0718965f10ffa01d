//! Collecting the regular expressions of a rule's parts into grammar
//! entries for syntax highlighting.
use vstd::prelude::*;
use crate::text::{cat, cat_char, owned};
use crate::lang_data::annotations::{AnArgVal, AnnotList};
use crate::lang_data::data::{LangData, Resolved, ResolvedType};
use crate::lang_data::typed_part::TypedPart;
use crate::lang_data::rule::{
    add_regex_v, append_v, close_v, cview, extend_regexes, extend_strings, new_v, open_v, regex_escaped, rvs, strs,
    to_regex, AstPartsRule,
    AstRulePart, AstRuleToken, CView, CollectPart, CollectPartReturn, CollectState, CollectStateGroup, PartRegex,
    RegexV,
};
use crate::lang_data::rule_part::{lemma_group_part_smaller, lemma_parts_size_prefix, part_size, parts_size};
use crate::strmap::Name;
use crate::process::codegen_syntax::{entries_view, ev, pe_get, pe_view, EntryV, ParentsV, SyntaxData, SyntaxEntry};

verus! {

/// A flattened part, as a value.
pub enum PartV<'a> {
    Part(AstRulePart<'a>, bool, bool),
    OptGroupStart,
    OptGroupEnd,
    NotGroupStart,
    NotGroupEnd,
}

pub open spec fn cpv<'a, 'b>(c: CollectPart<'a, 'b>) -> PartV<'a> {
    match c {
        CollectPart::Part { part, opt_group, not_group } => PartV::Part(*part, opt_group, not_group),
        CollectPart::OptGroupStart => PartV::OptGroupStart,
        CollectPart::OptGroupEnd => PartV::OptGroupEnd,
        CollectPart::NotGroupStart => PartV::NotGroupStart,
        CollectPart::NotGroupEnd => PartV::NotGroupEnd,
    }
}

pub open spec fn cpvs<'a, 'b>(s: Seq<CollectPart<'a, 'b>>) -> Seq<PartV<'a>> {
    s.map_values(|c: CollectPart<'a, 'b>| cpv(c))
}

/// A part with its groups flattened into markers around their parts.
pub open spec fn flat_part<'a>(p: AstRulePart<'a>, opt: bool, not: bool) -> Seq<PartV<'a>>
    decreases p,
{
    match p.token {
        AstRuleToken::Group(gp) => if p.optional {
            seq![PartV::OptGroupStart] + flat_parts(gp@, true, p.not || not) + seq![PartV::OptGroupEnd]
        } else if p.not {
            seq![PartV::NotGroupStart] + flat_parts(gp@, p.optional || opt, true) + seq![PartV::NotGroupEnd]
        } else {
            flat_parts(gp@, p.optional || opt, true)
        },
        _ => seq![PartV::Part(p, opt, not)],
    }
}

pub open spec fn flat_parts<'a>(ps: Seq<AstRulePart<'a>>, opt: bool, not: bool) -> Seq<PartV<'a>>
    decreases ps,
{
    if ps.len() == 0 {
        Seq::empty()
    } else {
        flat_parts(ps.drop_last(), opt, not) + flat_part(ps.last(), opt, not)
    }
}

/// The annotation tables of a part can be looked up.
pub open spec fn annots_wf<'a>(a: AnnotList<'a>) -> bool {
    &&& a.items.wf()
    &&& forall|k: Seq<char>| #[trigger] a.items@.contains_key(k) ==> a.items@[k].args.wf()
}

/// The name given to a part's match by a `syntax(name: "..")` annotation.
pub open spec fn syntax_name<'a>(a: AnnotList<'a>) -> Option<Seq<char>> {
    if a.items@.contains_key("syntax"@) && a.items@["syntax"@].args@.contains_key("name"@) {
        match a.items@["syntax"@].args@["name"@] {
            AnArgVal::Quoted(n) => Some(n@),
            _ => None,
        }
    } else {
        None
    }
}

pub open spec fn or_name(n: Option<Seq<char>>, d: Seq<char>) -> Option<Seq<char>> {
    match n {
        Some(x) => Some(x),
        None => Some(d),
    }
}

/// A part can be collected: it names a typed part that is no function,
/// and an AST entry or list it names resolves to a type.
pub open spec fn part_syntax_ok<'a>(p: AstRulePart<'a>, d: LangData<'a>) -> bool {
    &&& annots_wf(p.annots)
    &&& match p.token {
        AstRuleToken::Key(k) => d.typed_parts@.contains_key(k@) && match d.typed_parts@[k@] {
            TypedPart::FnPart { .. } => false,
            TypedPart::AstPart { key } => d.resolves(key@),
            TypedPart::ListPart { key } => d.resolves(key@),
            _ => true,
        },
        AstRuleToken::Func(..) => false,
        _ => true,
    }
}

/// The entries an AST type stands for: the items of an enum, or the
/// struct itself.
pub open spec fn type_entries<'a>(d: LangData<'a>, key: Seq<char>) -> Seq<Seq<char>> {
    match d.resolved(key) {
        Resolved::Enum(e) => d.ast_enums@[e].items@.map_values(|x: &'a str| x@),
        Resolved::Struct(s) => seq![s],
    }
}

/// Registers the entries `key` stands for under the rule's type, and
/// remembers them as parents of the state.
pub open spec fn parent_step<'a>(rt: Seq<char>, key: Seq<char>, c: CView, pe: ParentsV, d: LangData<'a>) -> (
    CView,
    ParentsV,
) {
    let es = type_entries(d, key);
    (
        CView { parent_refs: c.parent_refs + es, ..c },
        if es.len() == 0 {
            pe
        } else {
            pe.insert(rt, pe_get(pe, rt) + es)
        },
    )
}

pub open spec fn patterns_step<'a>(key: Seq<char>, c: CView, d: LangData<'a>) -> CView {
    CView { patterns: c.patterns + type_entries(d, key), ..c }
}

pub open spec fn int_regex() -> Seq<char> {
    "[-\\+]?[1-9]+"@
}

pub open spec fn ident_regex() -> Seq<char> {
    "[_]*[a-zA-Z][a-zA-Z0-9_]*"@
}

pub open spec fn string_regex() -> Seq<char> {
    "\"(?:[^\"\\\\]|\\.)*\""@
}

/// What collecting one part does to the state and the parent entries,
/// and what is to happen next.
pub open spec fn collect_step<'a>(rt: Seq<char>, p: AstRulePart<'a>, c: CView, pe: ParentsV, d: LangData<'a>) -> (
    CView,
    ParentsV,
    CollectPartReturn,
) {
    let name = syntax_name(p.annots);
    let in_group = c.group_stack.len() > 0;
    match p.token {
        AstRuleToken::Key(k) => match d.typed_parts@[k@] {
            TypedPart::AstPart { key } => if c.is_first {
                let (c2, pe2) = parent_step(rt, key@, c, pe, d);
                (c2, pe2, CollectPartReturn::Continue)
            } else if c.is_end {
                (c, pe, CollectPartReturn::CollectSub)
            } else {
                (patterns_step(key@, c, d), pe, CollectPartReturn::CollectEnd)
            },
            TypedPart::ListPart { key } => if c.is_first || (c.is_end && c.is_last) {
                let (c2, pe2) = parent_step(rt, key@, c, pe, d);
                (c2, pe2, CollectPartReturn::Continue)
            } else if c.is_end {
                (c, pe, CollectPartReturn::CollectSub)
            } else {
                (patterns_step(key@, c, d), pe, CollectPartReturn::CollectEnd)
            },
            TypedPart::CharPart { chr, .. } => (
                add_regex_v(c, p.not, p.optional, regex_escaped(seq![chr]), name, in_group),
                pe,
                CollectPartReturn::Continue,
            ),
            TypedPart::TagPart { tag, .. } => (
                add_regex_v(c, p.not, p.optional, regex_escaped(tag@), or_name(name, "keyword.other"@), in_group),
                pe,
                CollectPartReturn::Continue,
            ),
            TypedPart::IntPart { .. } => (
                add_regex_v(c, p.not, p.optional, int_regex(), or_name(name, "constant.numeric"@), in_group),
                pe,
                CollectPartReturn::Continue,
            ),
            TypedPart::IdentPart { .. } => (
                add_regex_v(c, p.not, p.optional, ident_regex(), or_name(name, "variable.other"@), in_group),
                pe,
                CollectPartReturn::Continue,
            ),
            TypedPart::StringPart { .. } | TypedPart::StrPart { .. } => (
                add_regex_v(c, p.not, p.optional, string_regex(), or_name(name, "string.quoted"@), in_group),
                pe,
                CollectPartReturn::Continue,
            ),
            TypedPart::WSPart => (
                add_regex_v(c, false, false, "\\s+"@, None, in_group),
                pe,
                CollectPartReturn::Continue,
            ),
            TypedPart::FnPart { .. } => (c, pe, CollectPartReturn::Continue),
        },
        AstRuleToken::Tag(tag) => (
            add_regex_v(c, p.not, p.optional, regex_escaped(tag@), or_name(name, "keyword.other"@), in_group),
            pe,
            CollectPartReturn::Continue,
        ),
        _ => (c, pe, CollectPartReturn::Continue),
    }
}

fn annot_name<'a>(annots: &AnnotList<'a>) -> (r: Option<&'a str>)
    requires
        annots_wf(*annots),
    ensures
        match r {
            Some(n) => syntax_name(*annots) == Some(n@),
            None => syntax_name(*annots) is None,
        },
{
    match annots.items.get("syntax") {
        Some(annot) => match annot.args.get("name") {
            Some(AnArgVal::Quoted(name)) => Some(*name),
            _ => None,
        },
        None => None,
    }
}

fn or_str<'a>(n: Option<&'a str>, d: &'a str) -> (r: Option<&'a str>)
    ensures
        r matches Some(x) && Some(x@) == or_name(
            match n {
                Some(y) => Some(y@),
                None => None,
            },
            d@,
        ),
{
    match n {
        Some(x) => Some(x),
        None => Some(d),
    }
}

impl<'a> AstPartsRule<'a> {
    /// Registers the entries `key` stands for as entries of this rule's
    /// type, and as parents of `state`.
    fn add_parent_entry(&self, key: &'a str, state: &mut CollectState, syntax_data: &mut SyntaxData, data: &LangData<'a>)
        requires
            data.wf(),
            data.resolves(key@),
            old(syntax_data).wf(),
        ensures
            final(syntax_data).wf(),
            final(syntax_data).entries == old(syntax_data).entries,
            final(syntax_data).root_entries == old(syntax_data).root_entries,
            (cview(*final(state)), pe_view(final(syntax_data).parent_entries)) == parent_step(
                self.ast_type@,
                key@,
                cview(*old(state)),
                pe_view(old(syntax_data).parent_entries),
                *data,
            ),
    {
        let ghost c0 = cview(*state);
        let ghost pe0 = pe_view(syntax_data.parent_entries);
        let ghost es = type_entries(*data, key@);
        let ghost rt = self.ast_type@;
        match data.resolve(key) {
            ResolvedType::ResolvedEnum(k) => {
                let enum_data = match data.ast_enums.get(k) {
                    Some(e) => e,
                    None => {
                        assert(false);
                        return;
                    },
                };
                assert(es == enum_data.items@.map_values(|x: &'a str| x@));
                let n = enum_data.items.len();
                let mut i: usize = 0;
                while i < n
                    invariant
                        n == enum_data.items@.len(),
                        es == enum_data.items@.map_values(|x: &'a str| x@),
                        rt == self.ast_type@,
                        i <= n,
                        syntax_data.wf(),
                        syntax_data.entries == old(syntax_data).entries,
                        syntax_data.root_entries == old(syntax_data).root_entries,
                        cview(*state) == (CView { parent_refs: c0.parent_refs + es.take(i as int), ..c0 }),
                        pe_view(syntax_data.parent_entries) == if i == 0 {
                            pe0
                        } else {
                            pe0.insert(rt, pe_get(pe0, rt) + es.take(i as int))
                        },
                    decreases n - i,
                {
                    let item = enum_data.items[i];
                    let ghost pe_cur = pe_view(syntax_data.parent_entries);
                    syntax_data.add_parent_entry(self.ast_type, item);
                    let ghost pr = state.parent_refs@;
                    state.parent_refs.push(owned(item));
                    proof {
                        assert(es.take(i + 1) =~= es.take(i as int).push(item@));
                        assert(strs(state.parent_refs@) =~= strs(pr).push(item@));
                        assert(cview(*state) =~= (CView { parent_refs: c0.parent_refs + es.take(i + 1), ..c0 }));
                        assert(es[i as int] == item@);
                        if i == 0 {
                            assert(pe_get(pe0, rt) + es.take(1) =~= pe_get(pe0, rt).push(item@));
                            assert(pe_view(syntax_data.parent_entries) =~= pe0.insert(rt, pe_get(pe0, rt) + es.take(1)));
                        } else {
                            assert(pe_get(pe_cur, rt) == pe_get(pe0, rt) + es.take(i as int));
                            assert(pe_get(pe0, rt) + es.take(i + 1) =~= (pe_get(pe0, rt) + es.take(i as int)).push(item@));
                            assert(pe0.insert(rt, pe_get(pe0, rt) + es.take(i as int)).insert(rt, pe_get(pe0, rt) + es.take(i + 1))
                                =~= pe0.insert(rt, pe_get(pe0, rt) + es.take(i + 1)));
                        }
                    }
                    i += 1;
                }
                assert(es.take(n as int) =~= es);
            },
            ResolvedType::ResolvedStruct(k) => {
                syntax_data.add_parent_entry(self.ast_type, k);
                let ghost pr = state.parent_refs@;
                state.parent_refs.push(owned(k));
                proof {
                    assert(es =~= seq![k@]);
                    assert(strs(state.parent_refs@) =~= strs(pr).push(k@));
                    assert(pe_get(pe0, rt) + es =~= pe_get(pe0, rt).push(k@));
                    assert(cview(*state) =~= (CView { parent_refs: c0.parent_refs + es, ..c0 }));
                }
            },
        }
    }

    /// Adds the entries `key` stands for as patterns of `state`.
    fn add_patterns(&self, key: &'a str, state: &mut CollectState, data: &LangData<'a>)
        requires
            data.wf(),
            data.resolves(key@),
        ensures
            cview(*final(state)) == patterns_step(key@, cview(*old(state)), *data),
    {
        let ghost c0 = cview(*state);
        let ghost es = type_entries(*data, key@);
        match data.resolve(key) {
            ResolvedType::ResolvedEnum(k) => {
                let enum_data = match data.ast_enums.get(k) {
                    Some(e) => e,
                    None => {
                        assert(false);
                        return;
                    },
                };
                let n = enum_data.items.len();
                let mut i: usize = 0;
                while i < n
                    invariant
                        n == enum_data.items@.len(),
                        es == enum_data.items@.map_values(|x: &'a str| x@),
                        i <= n,
                        cview(*state) == (CView { patterns: c0.patterns + es.take(i as int), ..c0 }),
                    decreases n - i,
                {
                    let ghost pr = state.patterns@;
                    state.patterns.push(owned(enum_data.items[i]));
                    proof {
                        assert(es.take(i + 1) =~= es.take(i as int).push(enum_data.items@[i as int]@));
                        assert(strs(state.patterns@) =~= strs(pr).push(enum_data.items@[i as int]@));
                        assert(cview(*state) =~= (CView { patterns: c0.patterns + es.take(i + 1), ..c0 }));
                    }
                    i += 1;
                }
                assert(es.take(n as int) =~= es);
            },
            ResolvedType::ResolvedStruct(k) => {
                let ghost pr = state.patterns@;
                state.patterns.push(owned(k));
                proof {
                    assert(es =~= seq![k@]);
                    assert(strs(state.patterns@) =~= strs(pr).push(k@));
                    assert(cview(*state) =~= (CView { patterns: c0.patterns + es, ..c0 }));
                }
            },
        }
    }
}

impl<'a> AstPartsRule<'a> {
    /// Collects one part into `state`: a regex for a token, or, for an AST
    /// entry or list, parent entries at the start, patterns before the
    /// end, and a branch into a sub entry after it.
    pub fn collect_part_syntax(
        &self,
        part: &AstRulePart<'a>,
        state: &mut CollectState,
        syntax_data: &mut SyntaxData,
        data: &LangData<'a>,
    ) -> (r: CollectPartReturn)
        requires
            data.wf(),
            old(syntax_data).wf(),
            part_syntax_ok(*part, *data),
        ensures
            final(syntax_data).wf(),
            final(syntax_data).entries == old(syntax_data).entries,
            final(syntax_data).root_entries == old(syntax_data).root_entries,
            (cview(*final(state)), pe_view(final(syntax_data).parent_entries), r) == collect_step(
                self.ast_type@,
                *part,
                cview(*old(state)),
                pe_view(old(syntax_data).parent_entries),
                *data,
            ),
    {
        let name = annot_name(&part.annots);
        let ghost nv = syntax_name(part.annots);
        let in_group = state.group_stack.len() > 0;
        match &part.token {
            AstRuleToken::Key(key) => {
                let typed_part = match data.typed_parts.get(key) {
                    Some(tp) => tp,
                    None => {
                        assert(false);
                        return CollectPartReturn::Continue;
                    },
                };
                match typed_part {
                    TypedPart::AstPart { key } => {
                        if state.is_first {
                            self.add_parent_entry(key, state, syntax_data, data);
                        } else if state.is_end {
                            return CollectPartReturn::CollectSub;
                        } else {
                            self.add_patterns(key, state, data);
                            return CollectPartReturn::CollectEnd;
                        }
                    },
                    TypedPart::ListPart { key } => {
                        if state.is_first {
                            self.add_parent_entry(key, state, syntax_data, data);
                        } else if state.is_end {
                            if state.is_last {
                                self.add_parent_entry(key, state, syntax_data, data);
                            } else {
                                return CollectPartReturn::CollectSub;
                            }
                        } else {
                            self.add_patterns(key, state, data);
                            return CollectPartReturn::CollectEnd;
                        }
                    },
                    TypedPart::CharPart { chr, .. } => {
                        let one = cat_char(String::new(), *chr);
                        proof {
                            assert(one@ =~= seq![*chr]);
                        }
                        let re = to_regex(one.as_str());
                        state.add_regex(part.not, part.optional, re.as_str(), name, in_group);
                    },
                    TypedPart::TagPart { tag, .. } => {
                        let re = to_regex(tag);
                        state.add_regex(part.not, part.optional, re.as_str(), or_str(name, "keyword.other"), in_group);
                    },
                    TypedPart::IntPart { .. } => {
                        state.add_regex(
                            part.not,
                            part.optional,
                            "[-\\+]?[1-9]+",
                            or_str(name, "constant.numeric"),
                            in_group,
                        );
                    },
                    TypedPart::IdentPart { .. } => {
                        state.add_regex(
                            part.not,
                            part.optional,
                            "[_]*[a-zA-Z][a-zA-Z0-9_]*",
                            or_str(name, "variable.other"),
                            in_group,
                        );
                    },
                    TypedPart::FnPart { .. } => {
                        assert(false);
                    },
                    TypedPart::StringPart { .. } | TypedPart::StrPart { .. } => {
                        state.add_regex(
                            part.not,
                            part.optional,
                            "\"(?:[^\"\\\\]|\\.)*\"",
                            or_str(name, "string.quoted"),
                            in_group,
                        );
                    },
                    TypedPart::WSPart => {
                        state.add_regex(false, false, "\\s+", None, in_group);
                    },
                }
            },
            AstRuleToken::Tag(tag) => {
                let re = to_regex(tag);
                state.add_regex(part.not, part.optional, re.as_str(), or_str(name, "keyword.other"), in_group);
            },
            AstRuleToken::Func(..) => {
                assert(false);
            },
            AstRuleToken::Group(..) => {},
        }
        CollectPartReturn::Continue
    }

    /// Appends one part to `v`, a group's parts between markers for where
    /// an optional or negated group starts and ends.
    fn flatten_part<'b>(
        v: Vec<CollectPart<'a, 'b>>,
        part: &'b AstRulePart<'a>,
        opt_group: bool,
        not_group: bool,
    ) -> (r: Vec<CollectPart<'a, 'b>>)
        ensures
            cpvs(r@) == cpvs(v@) + flat_part(*part, opt_group, not_group),
        decreases part_size(*part), 0nat,
    {
        let mut v = v;
        let ghost before = cpvs(v@);
        match &part.token {
            AstRuleToken::Group(group_parts) => {
                assert(parts_size(group_parts@) < part_size(*part));
                if part.optional {
                    v.push(CollectPart::OptGroupStart);
                    assert(cpvs(v@) =~= before.push(PartV::OptGroupStart));
                    v = Self::flatten_syntax_parts(v, group_parts, true, part.not || not_group);
                    let ghost mid = cpvs(v@);
                    v.push(CollectPart::OptGroupEnd);
                    assert(cpvs(v@) =~= mid.push(PartV::OptGroupEnd));
                    assert(cpvs(v@) =~= before + flat_part(*part, opt_group, not_group));
                } else if part.not {
                    v.push(CollectPart::NotGroupStart);
                    assert(cpvs(v@) =~= before.push(PartV::NotGroupStart));
                    v = Self::flatten_syntax_parts(v, group_parts, part.optional || opt_group, true);
                    let ghost mid = cpvs(v@);
                    v.push(CollectPart::NotGroupEnd);
                    assert(cpvs(v@) =~= mid.push(PartV::NotGroupEnd));
                    assert(cpvs(v@) =~= before + flat_part(*part, opt_group, not_group));
                } else {
                    v = Self::flatten_syntax_parts(v, group_parts, part.optional || opt_group, true);
                }
            },
            _ => {
                v.push(CollectPart::Part { part, opt_group, not_group });
                assert(cpvs(v@) =~= before.push(PartV::Part(*part, opt_group, not_group)));
                assert(cpvs(v@) =~= before + flat_part(*part, opt_group, not_group));
            },
        }
        v
    }

    /// Appends the parts to `v`, a group's parts between markers for where
    /// an optional or negated group starts and ends.
    pub fn flatten_syntax_parts<'b>(
        v: Vec<CollectPart<'a, 'b>>,
        parts: &'b Vec<AstRulePart<'a>>,
        opt_group: bool,
        not_group: bool,
    ) -> (r: Vec<CollectPart<'a, 'b>>)
        ensures
            cpvs(r@) == cpvs(v@) + flat_parts(parts@, opt_group, not_group),
        decreases parts_size(parts@), 1nat,
    {
        let mut v = v;
        let ghost v0 = cpvs(v@);
        let n = parts.len();
        let mut i: usize = 0;
        proof {
            assert(parts@.take(0) =~= Seq::<AstRulePart<'a>>::empty());
            assert(cpvs(v@) =~= v0 + flat_parts(parts@.take(0), opt_group, not_group));
        }
        while i < n
            invariant
                n == parts@.len(),
                i <= n,
                cpvs(v@) == v0 + flat_parts(parts@.take(i as int), opt_group, not_group),
            decreases n - i,
        {
            proof {
                lemma_parts_size_prefix(parts@, i as int);
                lemma_parts_size_prefix(parts@, i + 1);
                assert(parts@.take(i + 1).drop_last() =~= parts@.take(i as int));
                assert(parts@.take(i + 1).last() == parts@[i as int]);
            }
            v = Self::flatten_part(v, &parts[i], opt_group, not_group);
            i += 1;
        }
        assert(parts@.take(n as int) =~= parts@);
        v
    }
}

/// The end state that follows a begin state: empty, but inside the same
/// groups.
pub open spec fn end_state(begin: CView) -> CView {
    open_v(CView { group_stack: begin.group_stack, ..new_v(true) })
}

/// The state a sub entry starts from: the regexes and captures collected
/// so far, inside the same groups.
pub open spec fn sub_state(c: CView) -> CView {
    CView {
        regexes: c.regexes,
        captures: c.captures,
        group_stack: c.group_stack,
        only_optional: c.only_optional,
        is_first: false,
        ..new_v(false)
    }
}

/// The state left behind when a sub entry takes over.
pub open spec fn subbed_state(c: CView) -> CView {
    CView { captures: Seq::empty(), is_subbed: true, ..c }
}

pub open spec fn pop_group(s: Seq<CollectStateGroup>) -> Seq<CollectStateGroup> {
    if s.len() == 0 {
        s
    } else {
        s.drop_last()
    }
}

/// What a group marker does to the state.
pub open spec fn marker_step<'a>(m: PartV<'a>, c: CView) -> CView {
    match m {
        PartV::OptGroupStart => CView {
            group_stack: c.group_stack.push(CollectStateGroup::Opt),
            regexes: c.regexes.push(RegexV::OptStart),
            ..c
        },
        PartV::OptGroupEnd => CView {
            group_stack: pop_group(c.group_stack),
            regexes: c.regexes.push(RegexV::OptEnd),
            ..c
        },
        PartV::NotGroupStart => CView {
            group_stack: c.group_stack.push(CollectStateGroup::Not),
            regexes: c.regexes.push(RegexV::NotStart),
            ..c
        },
        PartV::NotGroupEnd => CView {
            group_stack: pop_group(c.group_stack),
            regexes: c.regexes.push(RegexV::NotEnd),
            ..c
        },
        PartV::Part(..) => c,
    }
}

/// The entries with the entry under `key` set: a begin and end match when
/// a begin was collected, else one match.
pub open spec fn finish_entry(
    key: Seq<char>,
    c: CView,
    begin: Option<CView>,
    en: Map<Seq<char>, EntryV>,
) -> Map<Seq<char>, EntryV> {
    en.insert(
        key,
        match begin {
            Some(b) => EntryV::BeginEnd(b, c),
            None => EntryV::Match(c),
        },
    )
}

pub open spec fn sub_key(key: Seq<char>) -> Seq<char> {
    key + "_sub"@
}

/// The state with its last flag set at the last part.
pub open spec fn with_last(c: CView, i: int, len: int) -> CView {
    if i == len - 1 {
        CView { is_last: true, ..c }
    } else {
        c
    }
}

/// Collecting the flattened parts from `from` on, into the entry `key`,
/// starting from `state`: the parent entries and grammar entries after.
pub open spec fn run_from<'a>(
    rt: Seq<char>,
    sp: Seq<PartV<'a>>,
    key: Seq<char>,
    from: int,
    state: CView,
    pe: ParentsV,
    en: Map<Seq<char>, EntryV>,
    d: LangData<'a>,
) -> (ParentsV, Map<Seq<char>, EntryV>)
    decreases 2 * (sp.len() - from) + (if state.is_end {
        1int
    } else {
        0int
    }), 2int,
{
    if from < 0 || from > sp.len() {
        (pe, en)
    } else {
        loop_from(rt, sp, key, from, from, open_v(state), None, pe, en, d)
    }
}

/// The rest of a collection, at part `i` with state `c` and the begin
/// state collected so far.
#[verifier::opaque]
pub open spec fn loop_from<'a>(
    rt: Seq<char>,
    sp: Seq<PartV<'a>>,
    key: Seq<char>,
    from: int,
    i: int,
    c: CView,
    begin: Option<CView>,
    pe: ParentsV,
    en: Map<Seq<char>, EntryV>,
    d: LangData<'a>,
) -> (ParentsV, Map<Seq<char>, EntryV>)
    decreases 2 * (sp.len() - i) + (if c.is_end {
        1int
    } else {
        0int
    }), 1int,
{
    if i < 0 || i >= sp.len() {
        (pe, finish_entry(key, c, begin, en))
    } else {
        let c1 = with_last(c, i, sp.len() as int);
        match sp[i] {
            PartV::Part(p, _, _) => {
                let (c2, pe2, ret) = collect_step(rt, p, c1, pe, d);
                match ret {
                    CollectPartReturn::CollectEnd => {
                        let b = close_v(CView { is_first: false, ..c2 });
                        loop_from(rt, sp, key, from, i + 1, end_state(b), Some(b), pe2, en, d)
                    },
                    CollectPartReturn::Continue => loop_from(
                        rt,
                        sp,
                        key,
                        from,
                        i + 1,
                        CView { is_first: false, ..c2 },
                        begin,
                        pe2,
                        en,
                        d,
                    ),
                    CollectPartReturn::CollectSub => {
                        let c3 = close_v(c2);
                        let sk = sub_key(key);
                        let begin2 = match begin {
                            Some(b) => Some(CView { patterns: b.patterns.push(sk), ..b }),
                            None => None,
                        };
                        if c1.is_end {
                            let (pe3, en3) = run_from(rt, sp, sk, i, sub_state(c3), pe2, en, d);
                            (pe3, finish_entry(key, subbed_state(c3), begin2, en3))
                        } else {
                            (pe2, finish_entry(key, subbed_state(c3), begin2, en))
                        }
                    },
                }
            },
            m => loop_from(rt, sp, key, from, i + 1, marker_step(m, c1), begin, pe, en, d),
        }
    }
}

pub proof fn lemma_loop_exit<'a>(
    rt: Seq<char>,
    sp: Seq<PartV<'a>>,
    key: Seq<char>,
    from: int,
    i: int,
    c: CView,
    begin: Option<CView>,
    pe: ParentsV,
    en: Map<Seq<char>, EntryV>,
    d: LangData<'a>,
)
    requires
        i >= sp.len(),
    ensures
        loop_from(rt, sp, key, from, i, c, begin, pe, en, d) == (pe, finish_entry(key, c, begin, en)),
{
    reveal(loop_from);
}

pub proof fn lemma_loop_start<'a>(
    rt: Seq<char>,
    sp: Seq<PartV<'a>>,
    key: Seq<char>,
    from: int,
    state: CView,
    pe: ParentsV,
    en: Map<Seq<char>, EntryV>,
    d: LangData<'a>,
)
    requires
        0 <= from <= sp.len(),
    ensures
        run_from(rt, sp, key, from, state, pe, en, d) == loop_from(rt, sp, key, from, from, open_v(state), None, pe, en, d),
{
    reveal(loop_from);
}

/// One step of a collection, at a part or marker that does not branch.
pub proof fn lemma_loop_step<'a>(
    rt: Seq<char>,
    sp: Seq<PartV<'a>>,
    key: Seq<char>,
    from: int,
    i: int,
    c: CView,
    begin: Option<CView>,
    pe: ParentsV,
    en: Map<Seq<char>, EntryV>,
    d: LangData<'a>,
)
    requires
        0 <= i < sp.len(),
    ensures
        ({
            let c1 = with_last(c, i, sp.len() as int);
            match sp[i] {
                PartV::Part(p, _, _) => {
                    let (c2, pe2, ret) = collect_step(rt, p, c1, pe, d);
                    match ret {
                        CollectPartReturn::CollectEnd => {
                            let b = close_v(CView { is_first: false, ..c2 });
                            loop_from(rt, sp, key, from, i, c, begin, pe, en, d) == loop_from(
                                rt,
                                sp,
                                key,
                                from,
                                i + 1,
                                end_state(b),
                                Some(b),
                                pe2,
                                en,
                                d,
                            )
                        },
                        CollectPartReturn::Continue => loop_from(rt, sp, key, from, i, c, begin, pe, en, d)
                            == loop_from(rt, sp, key, from, i + 1, CView { is_first: false, ..c2 }, begin, pe2, en, d),
                        CollectPartReturn::CollectSub => {
                            let c3 = close_v(c2);
                            let sk = sub_key(key);
                            let begin2 = match begin {
                                Some(b) => Some(CView { patterns: b.patterns.push(sk), ..b }),
                                None => None,
                            };
                            c1.is_end ==> loop_from(rt, sp, key, from, i, c, begin, pe, en, d) == {
                                let (pe3, en3) = run_from(rt, sp, sk, i, sub_state(c3), pe2, en, d);
                                (pe3, finish_entry(key, subbed_state(c3), begin2, en3))
                            }
                        },
                    }
                },
                m => loop_from(rt, sp, key, from, i, c, begin, pe, en, d) == loop_from(
                    rt,
                    sp,
                    key,
                    from,
                    i + 1,
                    marker_step(m, c1),
                    begin,
                    pe,
                    en,
                    d,
                ),
            }
        }),
{
    reveal(loop_from);
}

pub open spec fn init_view(o: Option<CollectState>) -> CView {
    match o {
        Some(s) => cview(s),
        None => new_v(false),
    }
}

pub open spec fn opt_view(o: Option<CollectState>) -> Option<CView> {
    match o {
        Some(s) => Some(cview(s)),
        None => None,
    }
}

/// Every part among the flattened ones can be collected.
pub open spec fn sparts_ok<'a>(sp: Seq<PartV<'a>>, d: LangData<'a>) -> bool {
    forall|i: int| 0 <= i < sp.len() ==> (#[trigger] sp[i] matches PartV::Part(p, _, _) ==> part_syntax_ok(p, d))
}

fn copy_groups(v: &Vec<CollectStateGroup>) -> (r: Vec<CollectStateGroup>)
    ensures
        r@ == v@,
{
    let mut r: Vec<CollectStateGroup> = Vec::new();
    let n = v.len();
    let mut i: usize = 0;
    while i < n
        invariant
            n == v@.len(),
            i <= n,
            r@ == v@.take(i as int),
        decreases n - i,
    {
        r.push(v[i].clone());
        assert(v@.take(i + 1) =~= v@.take(i as int).push(v@[i as int]));
        i += 1;
    }
    assert(v@.take(n as int) =~= v@);
    r
}

/// Turns the collected state into a begin state, and gives the end state
/// that follows it.
fn begin_end(cs: CollectState) -> (r: (CollectState, CollectState))
    ensures
        cview(r.0) == close_v(CView { is_first: false, ..cview(cs) }),
        cview(r.1) == end_state(cview(r.0)),
{
    let mut cs = cs;
    if cs.is_first {
        cs.is_first = false;
    }
    assert(cview(cs) =~= (CView { is_first: false, ..cview(cs) }));
    cs.close_regex_groups();
    let mut end = CollectState::new(true);
    end.group_stack = copy_groups(&cs.group_stack);
    end.open_regex_groups();
    assert(cview(end) =~= end_state(cview(cs)));
    (cs, end)
}

/// Closes the open groups of `cs` and splits off the state a sub entry
/// starts from.
fn split_sub(cs: &mut CollectState) -> (sub: CollectState)
    ensures
        cview(sub) == sub_state(close_v(cview(*old(cs)))),
        cview(*final(cs)) == subbed_state(close_v(cview(*old(cs)))),
{
    cs.close_regex_groups();
    let ghost c3 = cview(*cs);
    let mut sub = CollectState::new(false);
    assert(sub.regexes@.len() == rvs(sub.regexes@).len());
    assert(sub.captures@.len() == strs(sub.captures@).len());
    assert(sub.regexes@ =~= Seq::<PartRegex>::empty());
    assert(sub.captures@ =~= Seq::<String>::empty());
    extend_regexes(&mut sub.regexes, &cs.regexes);
    extend_strings(&mut sub.captures, &cs.captures);
    sub.group_stack = copy_groups(&cs.group_stack);
    cs.captures.clear();
    sub.only_optional = cs.only_optional;
    sub.is_first = false;
    cs.is_subbed = true;
    proof {
        assert(rvs(sub.regexes@) =~= c3.regexes);
        assert(strs(sub.captures@) =~= c3.captures);
        assert(strs(cs.captures@) =~= Seq::<Seq<char>>::empty());
        assert(cview(sub) =~= sub_state(c3));
        assert(cview(*cs) =~= subbed_state(c3));
    }
    sub
}

/// Applies a group marker to the state.
fn apply_marker<'a, 'b>(cs: &mut CollectState, m: &CollectPart<'a, 'b>)
    requires
        !(cpv(*m) is Part),
    ensures
        cview(*final(cs)) == marker_step(cpv(*m), cview(*old(cs))),
{
    let ghost r0 = cs.regexes@;
    match m {
        CollectPart::OptGroupStart => {
            cs.group_stack.push(CollectStateGroup::Opt);
            cs.regexes.push(PartRegex::OptStart);
        },
        CollectPart::OptGroupEnd => {
            let _ = cs.group_stack.pop();
            cs.regexes.push(PartRegex::OptEnd);
        },
        CollectPart::NotGroupStart => {
            cs.group_stack.push(CollectStateGroup::Not);
            cs.regexes.push(PartRegex::NotStart);
        },
        CollectPart::NotGroupEnd => {
            let _ = cs.group_stack.pop();
            cs.regexes.push(PartRegex::NotEnd);
        },
        CollectPart::Part { .. } => {},
    }
    proof {
        assert(rvs(cs.regexes@) =~= rvs(r0).push(rv_last(cs.regexes@)));
        assert(cview(*cs) =~= marker_step(cpv(*m), cview(*old(cs))));
    }
}

pub open spec fn rv_last(s: Seq<PartRegex>) -> RegexV {
    crate::lang_data::rule::rv(s.last())
}

impl<'a> AstPartsRule<'a> {
    /// Collects the flattened parts from `from_index` on into the grammar
    /// entry `match_key`, branching into sub entries where a begin and end
    /// match cannot hold what follows.
    #[verifier::rlimit(40)]
    #[verifier::spinoff_prover]
    pub fn add_syntax_entries_from_syntax_parts<'b>(
        &self,
        sparts: &Vec<CollectPart<'a, 'b>>,
        syntax_data: &mut SyntaxData,
        data: &LangData<'a>,
        match_key: String,
        from_index: usize,
        from_state: Option<CollectState>,
    )
        requires
            data.wf(),
            old(syntax_data).wf(),
            from_index <= sparts@.len(),
            sparts_ok(cpvs(sparts@), *data),
        ensures
            final(syntax_data).wf(),
            final(syntax_data).root_entries == old(syntax_data).root_entries,
            (pe_view(final(syntax_data).parent_entries), entries_view(final(syntax_data).entries)) == run_from(
                self.ast_type@,
                cpvs(sparts@),
                match_key@,
                from_index as int,
                init_view(from_state),
                pe_view(old(syntax_data).parent_entries),
                entries_view(old(syntax_data).entries),
                *data,
            ),
        decreases 2 * (sparts@.len() - from_index) + (if init_view(from_state).is_end {
            1int
        } else {
            0int
        }),
    {
        let ghost rt = self.ast_type@;
        let ghost sp = cpvs(sparts@);
        let ghost key = match_key@;
        let ghost e0 = init_view(from_state).is_end;
        let ghost target = run_from(
            rt,
            sp,
            key,
            from_index as int,
            init_view(from_state),
            pe_view(syntax_data.parent_entries),
            entries_view(syntax_data.entries),
            *data,
        );
        proof {
            lemma_loop_start(
                rt,
                sp,
                key,
                from_index as int,
                init_view(from_state),
                pe_view(syntax_data.parent_entries),
                entries_view(syntax_data.entries),
                *data,
            );
        }
        let mut collect_state = match from_state {
            Some(s) => s,
            None => CollectState::new(false),
        };
        collect_state.open_regex_groups();
        let mut collect_state_begin: Option<CollectState> = None;
        let parts_len = sparts.len();
        let mut i = from_index;
        loop
            invariant_except_break
                loop_from(
                    rt,
                    sp,
                    key,
                    from_index as int,
                    i as int,
                    cview(collect_state),
                    opt_view(collect_state_begin),
                    pe_view(syntax_data.parent_entries),
                    entries_view(syntax_data.entries),
                    *data,
                ) == target,
            invariant
                from_index <= i <= parts_len,
                parts_len == sparts@.len(),
                sp == cpvs(sparts@),
                rt == self.ast_type@,
                key == match_key@,
                data.wf(),
                syntax_data.wf(),
                syntax_data.root_entries == old(syntax_data).root_entries,
                sparts_ok(sp, *data),
                i == from_index ==> collect_state.is_end == e0,
                e0 == init_view(from_state).is_end,
            ensures
                target == (
                    pe_view(syntax_data.parent_entries),
                    finish_entry(
                        key,
                        cview(collect_state),
                        opt_view(collect_state_begin),
                        entries_view(syntax_data.entries),
                    ),
                ),
            decreases parts_len - i,
        {
            if i >= parts_len {
                proof {
                    lemma_loop_exit(
                        rt,
                        sp,
                        key,
                        from_index as int,
                        i as int,
                        cview(collect_state),
                        opt_view(collect_state_begin),
                        pe_view(syntax_data.parent_entries),
                        entries_view(syntax_data.entries),
                        *data,
                    );
                }
                break;
            }
            let ghost c0 = cview(collect_state);
            let ghost b0 = opt_view(collect_state_begin);
            let ghost pe1 = pe_view(syntax_data.parent_entries);
            let ghost en1 = entries_view(syntax_data.entries);
            if i == parts_len - 1 {
                collect_state.is_last = true;
            }
            let ghost c1 = cview(collect_state);
            proof {
                assert(c1 =~= with_last(c0, i as int, sp.len() as int));
                lemma_loop_step(rt, sp, key, from_index as int, i as int, c0, b0, pe1, en1, *data);
                assert(sp[i as int] == cpv(sparts@[i as int]));
            }
            match &sparts[i] {
                CollectPart::Part { part, .. } => {
                    assert(part_syntax_ok(**part, *data));
                    let ret = self.collect_part_syntax(part, &mut collect_state, syntax_data, data);
                    let ghost c2 = cview(collect_state);
                    match ret {
                        CollectPartReturn::CollectEnd => {
                            let (begin, end) = begin_end(collect_state);
                            collect_state_begin = Some(begin);
                            collect_state = end;
                        },
                        CollectPartReturn::Continue => {
                            if collect_state.is_first {
                                collect_state.is_first = false;
                            }
                            assert(cview(collect_state) =~= (CView { is_first: false, ..c2 }));
                        },
                        CollectPartReturn::CollectSub => {
                            assert(c1.is_end);
                            let sub_state = split_sub(&mut collect_state);
                            let sk = cat(owned(match_key.as_str()), "_sub");
                            if let Some(begin) = &mut collect_state_begin {
                                let ghost ps = begin.patterns@;
                                begin.patterns.push(owned(sk.as_str()));
                                assert(strs(begin.patterns@) =~= strs(ps).push(sk@));
                                assert(cview(*begin) =~= (CView { patterns: b0->0.patterns.push(sub_key(key)), ..b0->0 }));
                            }
                            self.add_syntax_entries_from_syntax_parts(
                                sparts,
                                syntax_data,
                                data,
                                sk,
                                i,
                                Some(sub_state),
                            );
                            break;
                        },
                    }
                },
                _ => {
                    apply_marker(&mut collect_state, &sparts[i]);
                },
            }
            i += 1;
        }
        match collect_state_begin {
            Some(collect_begin) => {
                let ghost b = cview(collect_begin);
                let ghost c = cview(collect_state);
                syntax_data.entries.insert(match_key, SyntaxEntry::BeginEnd { begin: collect_begin, end: collect_state });
            },
            None => {
                syntax_data.entries.insert(match_key, SyntaxEntry::Match { collect: collect_state });
            },
        }
    }
}

/// The grammar entries and parent entries after collecting a rule.
pub open spec fn rule_syntax<'a>(
    r: AstPartsRule<'a>,
    pe: ParentsV,
    en: Map<Seq<char>, EntryV>,
    d: LangData<'a>,
) -> (ParentsV, Map<Seq<char>, EntryV>) {
    run_from(r.ast_type@, flat_parts(r.parts@, false, false), r.ast_type@, 0, new_v(false), pe, en, d)
}

/// Every part of the rule can be collected.
pub open spec fn rule_syntax_ok<'a>(r: AstPartsRule<'a>, d: LangData<'a>) -> bool {
    sparts_ok(flat_parts(r.parts@, false, false), d)
}

impl<'a> AstPartsRule<'a> {
    /// Adds the grammar entries of this rule: one under its type's name,
    /// and sub entries where needed.
    pub fn add_syntax_entries(&self, syntax_data: &mut SyntaxData, data: &LangData<'a>)
        requires
            data.wf(),
            old(syntax_data).wf(),
            rule_syntax_ok(*self, *data),
        ensures
            final(syntax_data).wf(),
            final(syntax_data).root_entries == old(syntax_data).root_entries,
            (pe_view(final(syntax_data).parent_entries), entries_view(final(syntax_data).entries)) == rule_syntax(
                *self,
                pe_view(old(syntax_data).parent_entries),
                entries_view(old(syntax_data).entries),
                *data,
            ),
    {
        let v = Self::flatten_syntax_parts(Vec::new(), &self.parts, false, false);
        assert(cpvs(v@) =~= flat_parts(self.parts@, false, false));
        self.add_syntax_entries_from_syntax_parts(&v, syntax_data, data, owned(self.ast_type), 0, None);
    }
}

/// Whether the annotation tables of a part can be looked up, computed.
fn annots_check<'a>(a: &AnnotList<'a>) -> (r: bool)
    ensures
        r == annots_wf(*a),
{
    if !a.items.is_wf() {
        return false;
    }
    let n = a.items.len();
    let mut i: usize = 0;
    while i < n
        invariant
            a.items.wf(),
            n == a.items.keys@.len(),
            i <= n,
            forall|j: int| 0 <= j < i ==> (#[trigger] a.items.vals@[j]).args.wf(),
        decreases n - i,
    {
        if !a.items.val_at(i).args.is_wf() {
            proof {
                a.items.lemma_idx(i as int);
                assert(a.items@.contains_key(Name::chars(&a.items.keys@[i as int])));
                assert(!a.items@[Name::chars(&a.items.keys@[i as int])].args.wf());
            }
            return false;
        }
        i += 1;
    }
    proof {
        a.items.lemma_view_values();
        assert forall|k: Seq<char>| #[trigger] a.items@.contains_key(k) implies a.items@[k].args.wf() by {
            let j = a.items.idx(k);
            assert(a.items.vals@[j].args.wf());
        }
    }
    true
}

/// Whether a part can be collected, computed.
fn part_syntax_check<'a>(p: &AstRulePart<'a>, d: &LangData<'a>) -> (r: bool)
    requires
        d.wf(),
    ensures
        r == part_syntax_ok(*p, *d),
{
    if !annots_check(&p.annots) {
        return false;
    }
    match &p.token {
        AstRuleToken::Key(k) => match d.typed_parts.get(k) {
            Some(TypedPart::FnPart { .. }) => false,
            Some(TypedPart::AstPart { key }) => d.try_resolve(key).is_some(),
            Some(TypedPart::ListPart { key }) => d.try_resolve(key).is_some(),
            Some(_) => true,
            None => false,
        },
        AstRuleToken::Func(..) => false,
        _ => true,
    }
}

impl<'a> AstPartsRule<'a> {
    /// Whether every part of the rule can be collected, computed.
    pub fn rule_syntax_check(&self, d: &LangData<'a>) -> (r: bool)
        requires
            d.wf(),
        ensures
            r == rule_syntax_ok(*self, *d),
    {
        let v = Self::flatten_syntax_parts(Vec::new(), &self.parts, false, false);
        let ghost sp = flat_parts(self.parts@, false, false);
        assert(cpvs(v@) =~= sp);
        let n = v.len();
        let mut i: usize = 0;
        while i < n
            invariant
                n == v@.len(),
                sp == cpvs(v@),
                sp == flat_parts(self.parts@, false, false),
                d.wf(),
                i <= n,
                forall|j: int| 0 <= j < i ==> (#[trigger] sp[j] matches PartV::Part(p, _, _) ==> part_syntax_ok(p, *d)),
            decreases n - i,
        {
            assert(sp[i as int] == cpv(v@[i as int]));
            if let CollectPart::Part { part, .. } = &v[i] {
                if !part_syntax_check(part, d) {
                    assert(sp[i as int] matches PartV::Part(p2, _, _) && !part_syntax_ok(p2, *d));
                    return false;
                }
            }
            i += 1;
        }
        true
    }
}

} // verus!
