//! Generates a TextMate grammar for syntax highlighting from the parser
//! rules: an entry with regular expressions for every rule, and the
//! entries each AST type stands for.
use vstd::prelude::*;
use itertools::Itertools;
use crate::strmap::{sorted_names, Name, StrMap};
use crate::text::{cat, cat_char, decimal, owned, usize_to_string};
use crate::json::ast::{JsObject, JsVal, ObjectPair};
use crate::json::to_source::{js_object_src, ToSource};
use crate::lang_data::data::{Resolved, ResolvedType};
use crate::lang_data::rule_syntax::{rule_syntax, rule_syntax_ok};
use crate::laws::law_sorted_iteration;
use crate::lang_data::data::{AstData, LangData, ListData};
use crate::lang_data::rule::{append_v, AstRule, ListRule, cview, regex_in_group, regex_text, regexes_text, rv, rvs, strs, CView, CollectState, PartRegex, RegexV};

verus! {

/// A grammar entry: one match, or a begin and an end match with patterns
/// in between.
#[derive(Debug)]
pub enum SyntaxEntry {
    Match { collect: CollectState },
    BeginEnd { begin: CollectState, end: CollectState },
}

pub enum EntryV {
    Match(CView),
    BeginEnd(CView, CView),
}

pub open spec fn ev(e: SyntaxEntry) -> EntryV {
    match e {
        SyntaxEntry::Match { collect } => EntryV::Match(cview(collect)),
        SyntaxEntry::BeginEnd { begin, end } => EntryV::BeginEnd(cview(begin), cview(end)),
    }
}

#[derive(Debug)]
pub struct SyntaxData {
    pub entries: StrMap<String, SyntaxEntry>,
    pub root_entries: Vec<String>,
    /// The entries each named parent stands for; they are merged in at its
    /// level where it is included.
    pub parent_entries: StrMap<String, Vec<String>>,
}

pub type ParentsV = Map<Seq<char>, Seq<Seq<char>>>;

pub open spec fn pe_view(m: StrMap<String, Vec<String>>) -> ParentsV {
    m@.map_values(|v: Vec<String>| strs(v@))
}

pub open spec fn entries_view(m: StrMap<String, SyntaxEntry>) -> Map<Seq<char>, EntryV> {
    m@.map_values(|e: SyntaxEntry| ev(e))
}

/// The entries registered under `k`, none when it is not a parent.
pub open spec fn pe_get(pe: ParentsV, k: Seq<char>) -> Seq<Seq<char>> {
    if pe.contains_key(k) {
        pe[k]
    } else {
        Seq::empty()
    }
}

/// The entries `key` stands for, each followed by those it stands for in
/// turn; `None` when `fuel` levels do not reach the bottom.
pub open spec fn closure_fuel(pe: ParentsV, key: Seq<char>, fuel: nat) -> Option<Seq<Seq<char>>>
    decreases fuel, 0nat,
{
    if !pe.contains_key(key) {
        Some(Seq::empty())
    } else if fuel == 0 {
        None
    } else {
        closure_list(pe, pe[key], (fuel - 1) as nat)
    }
}

pub open spec fn closure_list(pe: ParentsV, es: Seq<Seq<char>>, fuel: nat) -> Option<Seq<Seq<char>>>
    decreases fuel, es.len(),
{
    if es.len() == 0 {
        Some(Seq::empty())
    } else {
        match closure_list(pe, es.drop_last(), fuel) {
            Some(a) => match closure_fuel(pe, es.last(), fuel) {
                Some(b) => Some(a + seq![es.last()] + b),
                None => None,
            },
            None => None,
        }
    }
}

/// Whether the entries `key` stands for can be listed: following parents
/// from `key` never comes back to a parent on the way.
pub open spec fn closure_ok(pe: ParentsV, key: Seq<char>) -> bool {
    closure_fuel(pe, key, pe.dom().len()) is Some
}

pub open spec fn closure(pe: ParentsV, key: Seq<char>) -> Seq<Seq<char>> {
    closure_fuel(pe, key, pe.dom().len()).unwrap()
}

pub proof fn lemma_closure_list_prefix(pe: ParentsV, es: Seq<Seq<char>>, fuel: nat, j: int)
    requires
        closure_list(pe, es, fuel) is Some,
        0 <= j <= es.len(),
    ensures
        closure_list(pe, es.take(j), fuel) is Some,
        j < es.len() ==> closure_fuel(pe, es[j], fuel) is Some,
    decreases es.len(),
{
    if j == es.len() {
        assert(es.take(j) =~= es);
    } else {
        lemma_closure_list_prefix(pe, es.drop_last(), fuel, j);
        assert(es.drop_last().take(j) =~= es.take(j));
        if j < es.len() - 1 {
            assert(es.drop_last()[j] == es[j]);
        }
    }
}

/// Items in order, each kept only where it first occurs.
pub open spec fn dedup(s: Seq<Seq<char>>) -> Seq<Seq<char>>
    decreases s.len(),
{
    if s.len() == 0 {
        Seq::empty()
    } else {
        let d = dedup(s.drop_last());
        if d.contains(s.last()) {
            d
        } else {
            d.push(s.last())
        }
    }
}

/// The closures of the items of `list`, one after another.
pub open spec fn closures_of(pe: ParentsV, list: Seq<Seq<char>>) -> Seq<Seq<char>>
    decreases list.len(),
{
    if list.len() == 0 {
        Seq::empty()
    } else {
        closures_of(pe, list.drop_last()) + closure(pe, list.last())
    }
}

/// A pattern list with the entries its items stand for in front, each
/// name once.
pub open spec fn expanded(pe: ParentsV, list: Seq<Seq<char>>) -> Seq<Seq<char>> {
    dedup(closures_of(pe, list) + list)
}

/// `itertools::Itertools::unique`, collected: the strings in order, each
/// kept where it first occurs (the crate documents the adaptor as stable,
/// keeping the first of equal items).
#[verifier::external_body]
fn unique_strings(v: Vec<String>) -> (r: Vec<String>)
    ensures
        strs(r@) == dedup(strs(v@)),
{
    v.into_iter().unique().collect()
}

impl SyntaxData {
    pub open spec fn wf(&self) -> bool {
        self.entries.wf() && self.parent_entries.wf()
    }

    pub fn new() -> (r: SyntaxData)
        ensures
            r.wf(),
            entries_view(r.entries) == Map::<Seq<char>, EntryV>::empty(),
            pe_view(r.parent_entries) == ParentsV::empty(),
            r.root_entries@.len() == 0,
    {
        let r = SyntaxData { entries: StrMap::new(), root_entries: Vec::new(), parent_entries: StrMap::new() };
        assert(entries_view(r.entries) =~= Map::<Seq<char>, EntryV>::empty());
        assert(pe_view(r.parent_entries) =~= ParentsV::empty());
        r
    }

    /// Registers `entry` as one more entry that `parent` stands for.
    pub fn add_parent_entry(&mut self, parent: &str, entry: &str)
        requires
            old(self).wf(),
        ensures
            final(self).wf(),
            final(self).entries == old(self).entries,
            final(self).root_entries == old(self).root_entries,
            pe_view(final(self).parent_entries) == pe_view(old(self).parent_entries).insert(
                parent@,
                pe_get(pe_view(old(self).parent_entries), parent@).push(entry@),
            ),
    {
        let ghost m0 = self.parent_entries;
        match self.parent_entries.index_of(parent) {
            Some(i) => {
                proof {
                    m0.lemma_idx(i as int);
                }
                let ghost old_v = m0.vals@[i as int];
                let v = self.parent_entries.val_at_mut(i);
                v.push(owned(entry));
                proof {
                    m0.lemma_update_at(self.parent_entries, i as int);
                    assert(strs(self.parent_entries.vals@[i as int]@) =~= strs(old_v@).push(entry@));
                    assert(pe_view(self.parent_entries) =~= pe_view(m0).insert(
                        parent@,
                        pe_get(pe_view(m0), parent@).push(entry@),
                    ));
                }
            },
            None => {
                let mut v: Vec<String> = Vec::new();
                v.push(owned(entry));
                self.parent_entries.insert(owned(parent), v);
                proof {
                    assert(strs(v@) =~= seq![entry@]);
                    assert(pe_view(self.parent_entries) =~= pe_view(m0).insert(
                        parent@,
                        pe_get(pe_view(m0), parent@).push(entry@),
                    ));
                }
            },
        }
    }

    fn parent_entries_fuel(&self, parent: &str, v: Vec<String>, Ghost(fuel): Ghost<nat>) -> (r: Vec<String>)
        requires
            self.wf(),
            closure_fuel(pe_view(self.parent_entries), parent@, fuel) is Some,
        ensures
            strs(r@) == strs(v@) + closure_fuel(pe_view(self.parent_entries), parent@, fuel).unwrap(),
        decreases fuel,
    {
        let ghost pe = pe_view(self.parent_entries);
        let mut v = v;
        let ghost v0 = strs(v@);
        match self.parent_entries.get(parent) {
            None => {
                assert(strs(v@) =~= v0 + Seq::<Seq<char>>::empty());
            },
            Some(entries) => {
                let ghost es = strs(entries@);
                assert(pe[parent@] == es);
                let ghost f = (fuel - 1) as nat;
                let n = entries.len();
                let mut j: usize = 0;
                proof {
                    assert(es.take(0) =~= Seq::<Seq<char>>::empty());
                    assert(strs(v@) =~= v0 + closure_list(pe, es.take(0), f).unwrap());
                }
                while j < n
                    invariant
                        n == entries@.len(),
                        es == strs(entries@),
                        j <= n,
                        self.wf(),
                        pe == pe_view(self.parent_entries),
                        fuel > 0,
                        f == fuel - 1,
                        closure_list(pe, es, f) is Some,
                        strs(v@) == v0 + closure_list(pe, es.take(j as int), f).unwrap(),
                    decreases n - j,
                {
                    proof {
                        lemma_closure_list_prefix(pe, es, f, j as int);
                        lemma_closure_list_prefix(pe, es, f, j + 1);
                        assert(es.take(j + 1).drop_last() =~= es.take(j as int));
                        assert(es.take(j + 1).last() == es[j as int]);
                    }
                    let ghost before = strs(v@);
                    let e = entries[j].clone();
                    v.push(e);
                    assert(strs(v@) =~= before.push(es[j as int]));
                    v = self.parent_entries_fuel(entries[j].as_str(), v, Ghost(f));
                    proof {
                        assert(strs(v@) =~= v0 + closure_list(pe, es.take(j + 1), f).unwrap());
                    }
                    j += 1;
                }
                assert(es.take(n as int) =~= es);
            },
        }
        v
    }

    /// `v` followed by every entry `parent` stands for, each followed by
    /// those it stands for in turn.
    pub fn get_parent_entries(&self, parent: &str, v: Vec<String>) -> (r: Vec<String>)
        requires
            self.wf(),
            closure_ok(pe_view(self.parent_entries), parent@),
        ensures
            strs(r@) == strs(v@) + closure(pe_view(self.parent_entries), parent@),
    {
        self.parent_entries_fuel(parent, v, Ghost(pe_view(self.parent_entries).dom().len()))
    }

    /// The entries the items of `list` stand for, then the items
    /// themselves, each name once.
    pub fn expand_pattern_list(&self, list: &Vec<String>) -> (r: Vec<String>)
        requires
            self.wf(),
            forall|i: int| 0 <= i < list@.len() ==> closure_ok(pe_view(self.parent_entries), #[trigger] list@[i]@),
        ensures
            strs(r@) == expanded(pe_view(self.parent_entries), strs(list@)),
    {
        let ghost pe = pe_view(self.parent_entries);
        let ghost l = strs(list@);
        let mut all: Vec<String> = Vec::new();
        let n = list.len();
        let mut i: usize = 0;
        proof {
            assert(l.take(0) =~= Seq::<Seq<char>>::empty());
            assert(strs(all@) =~= closures_of(pe, l.take(0)));
        }
        while i < n
            invariant
                n == list@.len(),
                l == strs(list@),
                i <= n,
                self.wf(),
                pe == pe_view(self.parent_entries),
                forall|k: int| 0 <= k < list@.len() ==> closure_ok(pe, #[trigger] list@[k]@),
                strs(all@) == closures_of(pe, l.take(i as int)),
            decreases n - i,
        {
            assert(closure_ok(pe, list@[i as int]@));
            all = self.get_parent_entries(list[i].as_str(), all);
            proof {
                assert(l.take(i + 1).drop_last() =~= l.take(i as int));
                assert(l.take(i + 1).last() == list@[i as int]@);
            }
            i += 1;
        }
        assert(l.take(n as int) =~= l);
        let ghost c = strs(all@);
        let mut j: usize = 0;
        while j < n
            invariant
                n == list@.len(),
                l == strs(list@),
                j <= n,
                strs(all@) == c + l.take(j as int),
            decreases n - j,
        {
            let ghost before = strs(all@);
            all.push(list[j].clone());
            assert(strs(all@) =~= before.push(l[j as int]));
            assert(l.take(j + 1) =~= l.take(j as int).push(l[j as int]));
            j += 1;
        }
        assert(l.take(n as int) =~= l);
        unique_strings(all)
    }
}

/// Whether a regex piece ends the leading part of a match: it is required
/// and lies outside any group.
pub open spec fn stops(r: RegexV) -> bool {
    !regex_in_group(r) && (r matches RegexV::Regex { optional, .. } && !optional)
}

/// How many pieces lead a match: up to and including the first required
/// piece outside a group.
pub open spec fn lead_len(rs: Seq<RegexV>) -> int
    decreases rs.len(),
{
    if rs.len() == 0 {
        0
    } else if stops(rs[0]) {
        1
    } else {
        1 + lead_len(rs.drop_first())
    }
}

pub proof fn lemma_lead_len(rs: Seq<RegexV>, j: int)
    requires
        0 <= j <= rs.len(),
        forall|k: int| 0 <= k < j ==> !stops(#[trigger] rs[k]),
    ensures
        lead_len(rs) == j + lead_len(rs.skip(j)),
    decreases j,
{
    if j > 0 {
        lemma_lead_len(rs.drop_first(), j - 1);
        assert(rs.drop_first().skip(j - 1) =~= rs.skip(j));
    } else {
        assert(rs.skip(0) =~= rs);
    }
}

/// The text of the leading pieces of a match, without captures.
pub open spec fn lead_text(rs: Seq<RegexV>) -> Seq<char> {
    regexes_text(rs.take(lead_len(rs)), false)
}

/// The collect state that starts an entry.
pub open spec fn entry_start(e: EntryV) -> CView {
    match e {
        EntryV::Match(c) => c,
        EntryV::BeginEnd(b, _) => b,
    }
}

/// The leading texts of the entries among `ps`, separated by `|`.
pub open spec fn alts_text(ps: Seq<Seq<char>>, en: Map<Seq<char>, EntryV>) -> Seq<char>
    decreases ps.len(),
{
    if ps.len() == 0 {
        Seq::empty()
    } else if en.contains_key(ps.last()) {
        alts_text(ps.drop_last(), en) + (if alts_any(ps.drop_last(), en) {
            "|"@
        } else {
            Seq::empty()
        }) + lead_text(entry_start(en[ps.last()]).regexes)
    } else {
        alts_text(ps.drop_last(), en)
    }
}

/// Whether any of `ps` is an entry.
pub open spec fn alts_any(ps: Seq<Seq<char>>, en: Map<Seq<char>, EntryV>) -> bool {
    exists|i: int| 0 <= i < ps.len() && en.contains_key(#[trigger] ps[i])
}

/// Whether an end match looks ahead for what may follow instead of
/// matching its own regexes.
pub open spec fn end_looks_ahead(end: CView) -> bool {
    end.regexes.len() == 0 || end.only_optional || end.is_subbed
}

/// The end regex of a begin and end entry: with nothing required to end
/// on, a negative lookahead for the starts of the patterns in between.
pub open spec fn end_regex(end: CView, pe: ParentsV, en: Map<Seq<char>, EntryV>, begin: CView) -> Seq<char> {
    if end_looks_ahead(end) {
        "(?!(?:"@ + alts_text(expanded(pe, begin.patterns), en) + (if !end.is_subbed {
            regexes_text(end.regexes, true)
        } else {
            Seq::empty()
        }) + "))"@
    } else {
        regexes_text(end.regexes, true)
    }
}

/// The leading regexes of a match, appended to `s`.
fn push_lead(s: String, regexes: &Vec<PartRegex>) -> (r: String)
    ensures
        r@ == s@ + lead_text(rvs(regexes@)),
{
    let ghost rs = rvs(regexes@);
    let ghost s0 = s@;
    let mut s = s;
    let n = regexes.len();
    let mut j: usize = 0;
    loop
        invariant_except_break
            forall|k: int| 0 <= k < j ==> !stops(#[trigger] rs[k]),
            s@ == s0 + regexes_text(rs.take(j as int), false),
        invariant
            n == regexes@.len(),
            rs == rvs(regexes@),
            j <= n,
        ensures
            s@ == s0 + lead_text(rs),
        decreases n - j,
    {
        if j >= n {
            proof {
                lemma_lead_len(rs, n as int);
                assert(rs.skip(n as int).len() == 0);
                assert(rs.take(n as int) =~= rs);
            }
            break;
        }
        let r = &regexes[j];
        s = r.add_to_string(s, false);
        proof {
            assert(rs.take(j + 1).drop_last() =~= rs.take(j as int));
            assert(rs[j as int] == rv(*r));
        }
        if !r.in_group() {
            if let PartRegex::Regex { optional, .. } = r {
                if !*optional {
                    proof {
                        lemma_lead_len(rs, j as int);
                        assert(rs.skip(j as int)[0] == rs[j as int]);
                        assert(lead_len(rs.skip(j as int)) == 1);
                    }
                    break;
                }
            }
        }
        j += 1;
    }
    s
}

impl CollectState {
    /// The regex that ends a begin and end entry. An end with nothing
    /// required to match on (or branched into a sub entry) becomes a
    /// negative lookahead for the starts of the patterns in between, so
    /// those are expanded first.
    #[verifier::rlimit(40)]
    pub fn get_end_regex(&self, syntax_data: &SyntaxData, begin: &CollectState) -> (r: String)
        requires
            syntax_data.wf(),
            end_looks_ahead(cview(*self)) ==> forall|i: int|
                0 <= i < begin.patterns@.len() ==> closure_ok(
                    pe_view(syntax_data.parent_entries),
                    #[trigger] begin.patterns@[i]@,
                ),
        ensures
            r@ == end_regex(
                cview(*self),
                pe_view(syntax_data.parent_entries),
                entries_view(syntax_data.entries),
                cview(*begin),
            ),
    {
        let ghost en = entries_view(syntax_data.entries);
        if self.regexes.len() == 0 || self.only_optional || self.is_subbed {
            let expanded_patterns = syntax_data.expand_pattern_list(&begin.patterns);
            let ghost ps = strs(expanded_patterns@);
            let mut is_first = true;
            let mut s = owned("(?!(?:");
            let ghost s0 = s@;
            let n = expanded_patterns.len();
            let mut i: usize = 0;
            proof {
                assert(ps.take(0) =~= Seq::<Seq<char>>::empty());
            }
            while i < n
                invariant
                    n == expanded_patterns@.len(),
                    ps == strs(expanded_patterns@),
                    i <= n,
                    syntax_data.wf(),
                    en == entries_view(syntax_data.entries),
                    is_first == !alts_any(ps.take(i as int), en),
                    s@ == s0 + alts_text(ps.take(i as int), en),
                decreases n - i,
            {
                let ghost pre = ps.take(i as int);
                proof {
                    assert(ps.take(i + 1).drop_last() =~= pre);
                    assert(ps.take(i + 1).last() == ps[i as int]);
                }
                let p = &expanded_patterns[i];
                match syntax_data.entries.get(p.as_str()) {
                    Some(pattern_entry) => {
                        let collect = match pattern_entry {
                            SyntaxEntry::Match { collect } => collect,
                            SyntaxEntry::BeginEnd { begin, .. } => begin,
                        };
                        assert(en[ps[i as int]] == ev(*pattern_entry));
                        assert(entry_start(en[ps[i as int]]) == cview(*collect));
                        if !is_first {
                            s = cat_char(s, '|');
                            assert(seq!['|'] =~= "|"@) by {
                                reveal_strlit("|");
                            }
                        } else {
                            is_first = false;
                        }
                        s = push_lead(s, &collect.regexes);
                        proof {
                            assert(ps.take(i + 1)[i as int] == ps[i as int]);
                            assert(alts_any(ps.take(i + 1), en));
                            if !alts_any(pre, en) {
                                assert(s@ =~= s0 + alts_text(ps.take(i + 1), en)) by {
                                    reveal_strlit("");
                                }
                            } else {
                                assert(s@ =~= s0 + alts_text(ps.take(i + 1), en));
                            }
                        }
                    },
                    None => {
                        proof {
                            assert(!en.contains_key(ps[i as int]));
                            assert(alts_any(ps.take(i + 1), en) == alts_any(pre, en)) by {
                                if alts_any(ps.take(i + 1), en) {
                                    let k = choose|k: int| 0 <= k < i + 1 && en.contains_key(#[trigger] ps.take(i + 1)[k]);
                                    assert(k < i);
                                    assert(pre[k] == ps.take(i + 1)[k]);
                                }
                                if alts_any(pre, en) {
                                    let k = choose|k: int| 0 <= k < i && en.contains_key(#[trigger] pre[k]);
                                    assert(ps.take(i + 1)[k] == pre[k]);
                                }
                            }
                        }
                    },
                }
                i += 1;
            }
            proof {
                assert(ps.take(n as int) =~= ps);
            }
            let ghost mid = s@;
            if !self.is_subbed {
                s = self.get_regex_onto(s);
            }
            s = cat(s, "))");
            proof {
                if self.is_subbed {
                    assert(s@ =~= mid + Seq::<char>::empty() + "))"@);
                }
            }
            s
        } else {
            self.get_regex()
        }
    }

    /// The collected regexes, with captures, appended to `s`.
    fn get_regex_onto(&self, s: String) -> (r: String)
        ensures
            r@ == s@ + regexes_text(cview(*self).regexes, true),
    {
        let ghost s0 = s@;
        let mut s = s;
        let n = self.regexes.len();
        let mut i: usize = 0;
        while i < n
            invariant
                n == self.regexes@.len(),
                i <= n,
                s@ == s0 + regexes_text(rvs(self.regexes@).take(i as int), true),
            decreases n - i,
        {
            s = self.regexes[i].add_to_string(s, true);
            assert(rvs(self.regexes@).take(i + 1).drop_last() =~= rvs(self.regexes@).take(i as int));
            i += 1;
        }
        assert(rvs(self.regexes@).take(n as int) =~= rvs(self.regexes@));
        s
    }
}

/// A JSON string value holding `s`.
pub open spec fn str_is(v: JsVal, s: Seq<char>) -> bool {
    v matches JsVal::StringValItem(sv) && sv.string@ == s
}

/// The pairs of a JSON object, none for other values.
pub open spec fn obj_items(v: JsVal) -> Seq<ObjectPair> {
    match v {
        JsVal::JsObjectItem(o) => o.items@,
        _ => Seq::empty(),
    }
}

pub open spec fn arr_items(v: JsVal) -> Seq<JsVal> {
    match v {
        JsVal::ArrayValItem(a) => a.items@,
        _ => Seq::empty(),
    }
}

/// A pair with key `k` and a string value `s`.
pub open spec fn str_pair(p: ObjectPair, k: Seq<char>, s: Seq<char>) -> bool {
    p.key@ == k && str_is(p.val, s)
}

/// An object that includes the repository entry `name`.
pub open spec fn include_is(v: JsVal, name: Seq<char>) -> bool {
    &&& v is JsObjectItem
    &&& obj_items(v).len() == 1
    &&& str_pair(obj_items(v)[0], "include"@, seq!['#'] + name)
}

/// An array of includes for each of `names`.
pub open spec fn includes_is(v: JsVal, names: Seq<Seq<char>>) -> bool {
    &&& v is ArrayValItem
    &&& arr_items(v).len() == names.len()
    &&& forall|i: int| 0 <= i < names.len() ==> include_is(#[trigger] arr_items(v)[i], names[i])
}

/// An object naming each capture by its number, from 1.
pub open spec fn captures_is(v: JsVal, caps: Seq<Seq<char>>) -> bool {
    &&& v is JsObjectItem
    &&& obj_items(v).len() == caps.len()
    &&& forall|i: int|
        0 <= i < caps.len() ==> {
            let p = #[trigger] obj_items(v)[i];
            &&& p.key@ == decimal((i + 1) as nat)
            &&& p.val is JsObjectItem
            &&& obj_items(p.val).len() == 1
            &&& str_pair(obj_items(p.val)[0], "name"@, caps[i])
        }
}

/// A character escaped for a JSON string.
pub open spec fn escape_char(c: char) -> Seq<char> {
    if c == '"' {
        seq!['\\', '"']
    } else if c == '\\' {
        seq!['\\', '\\']
    } else {
        seq![c]
    }
}

pub open spec fn escaped(s: Seq<char>) -> Seq<char>
    decreases s.len(),
{
    if s.len() == 0 {
        Seq::empty()
    } else {
        escaped(s.drop_last()) + escape_char(s.last())
    }
}

/// The repository item of an entry: its name, its regexes and their
/// captures, and for a begin and end entry the patterns in between.
pub open spec fn repo_item_is(p: ObjectPair, key: Seq<char>, e: EntryV, pe: ParentsV, en: Map<Seq<char>, EntryV>) -> bool {
    &&& p.key@ == key
    &&& p.val is JsObjectItem
    &&& match e {
        EntryV::Match(c) => {
            let it = obj_items(p.val);
            &&& it.len() == 3
            &&& str_pair(it[0], "name"@, key)
            &&& str_pair(it[1], "match"@, escaped(regexes_text(c.regexes, true)))
            &&& it[2].key@ == "captures"@ && captures_is(it[2].val, c.captures)
        },
        EntryV::BeginEnd(b, end) => {
            let it = obj_items(p.val);
            &&& it.len() == 6
            &&& str_pair(it[0], "name"@, key)
            &&& str_pair(it[1], "begin"@, escaped(regexes_text(b.regexes, true)))
            &&& str_pair(it[2], "end"@, escaped(end_regex(end, pe, en, b)))
            &&& it[3].key@ == "beginCaptures"@ && captures_is(it[3].val, b.captures)
            &&& it[4].key@ == "endCaptures"@ && captures_is(it[4].val, end.captures)
            &&& it[5].key@ == "patterns"@ && includes_is(it[5].val, expanded(pe, b.patterns))
        },
    }
}

/// No chain of parents comes back to a parent on the way, so the entries
/// each name stands for can be listed.
pub open spec fn parents_acyclic(pe: ParentsV) -> bool {
    forall|k: Seq<char>| #[trigger] closure_ok(pe, k)
}

fn str_val(s: &str) -> (r: JsVal)
    ensures
        str_is(r, s@),
{
    JsVal::string_val(owned(s))
}

impl SyntaxEntry {
    /// Escapes quotes and backslashes for a JSON string.
    pub fn escape(string: String) -> (r: String)
        ensures
            r@ == escaped(string@),
    {
        let mut s = String::new();
        let n = string.as_str().unicode_len();
        let mut i: usize = 0;
        while i < n
            invariant
                n == string@.len(),
                i <= n,
                s@ == escaped(string@.take(i as int)),
            decreases n - i,
        {
            let chr = string.as_str().get_char(i);
            if chr == '"' {
                s = cat_char(s, '\\');
                s = cat_char(s, '"');
            } else if chr == '\\' {
                s = cat_char(s, '\\');
                s = cat_char(s, '\\');
            } else {
                s = cat_char(s, chr);
            }
            assert(string@.take(i + 1).drop_last() =~= string@.take(i as int));
            assert(s@ =~= escaped(string@.take(i + 1)));
            i += 1;
        }
        assert(string@.take(n as int) =~= string@);
        s
    }

    /// Includes for each of `items`, after those of the entries they stand
    /// for, each name once.
    pub fn collect_pattern_includes(items: &Vec<&str>, syntax_data: &SyntaxData) -> (r: JsVal)
        requires
            syntax_data.wf(),
            parents_acyclic(pe_view(syntax_data.parent_entries)),
        ensures
            includes_is(r, expanded(pe_view(syntax_data.parent_entries), items@.map_values(|x: &str| x@))),
    {
        let mut names: Vec<String> = Vec::new();
        let n = items.len();
        let mut i: usize = 0;
        while i < n
            invariant
                n == items@.len(),
                i <= n,
                strs(names@) == items@.map_values(|x: &str| x@).take(i as int),
            decreases n - i,
        {
            let ghost before = strs(names@);
            names.push(owned(items[i]));
            assert(strs(names@) =~= before.push(items@[i as int]@));
            assert(items@.map_values(|x: &str| x@).take(i + 1) =~= items@.map_values(|x: &str| x@).take(i as int).push(items@[i as int]@));
            i += 1;
        }
        assert(items@.map_values(|x: &str| x@).take(n as int) =~= items@.map_values(|x: &str| x@));
        assert forall|j: int| 0 <= j < names@.len() implies closure_ok(pe_view(syntax_data.parent_entries), #[trigger] names@[j]@) by {
            assert(closure_ok(pe_view(syntax_data.parent_entries), names@[j]@));
        }
        let expanded_names = syntax_data.expand_pattern_list(&names);
        let ghost ex = strs(expanded_names@);
        let mut vals: Vec<JsVal> = Vec::new();
        let m = expanded_names.len();
        let mut j: usize = 0;
        while j < m
            invariant
                m == expanded_names@.len(),
                ex == strs(expanded_names@),
                j <= m,
                vals@.len() == j,
                forall|k: int| 0 <= k < j ==> include_is(#[trigger] vals@[k], ex[k]),
            decreases m - j,
        {
            let item = &expanded_names[j];
            let key_ref = cat(cat_char(String::new(), '#'), item.as_str());
            let mut pairs: Vec<ObjectPair> = Vec::new();
            pairs.push(ObjectPair::new(owned("include"), JsVal::string_val(key_ref)));
            let v = JsVal::js_object(pairs);
            assert(ex[j as int] == item@);
            assert(include_is(v, ex[j as int]));
            vals.push(v);
            j += 1;
        }
        let r = JsVal::array_val(vals);
        assert(arr_items(r) == vals@);
        r
    }

    /// An object naming each capture by its number, from 1.
    pub fn collect_captures(captures: &Vec<String>) -> (r: JsVal)
        ensures
            captures_is(r, strs(captures@)),
    {
        let mut pairs: Vec<ObjectPair> = Vec::new();
        let n = captures.len();
        let mut i: usize = 0;
        while i < n
            invariant
                n == captures@.len(),
                i <= n,
                pairs@.len() == i,
                forall|k: int|
                    0 <= k < i ==> {
                        let p = #[trigger] pairs@[k];
                        &&& p.key@ == decimal((k + 1) as nat)
                        &&& p.val is JsObjectItem
                        &&& obj_items(p.val).len() == 1
                        &&& str_pair(obj_items(p.val)[0], "name"@, captures@[k]@)
                    },
            decreases n - i,
        {
            let num = i + 1;
            let mut inner: Vec<ObjectPair> = Vec::new();
            inner.push(ObjectPair::new(owned("name"), JsVal::string_val(owned(captures[i].as_str()))));
            let p = ObjectPair::new(usize_to_string(num), JsVal::js_object(inner));
            pairs.push(p);
            i += 1;
        }
        let r = JsVal::js_object(pairs);
        assert(obj_items(r) == pairs@);
        r
    }

    /// The repository item of this entry under `key`.
    #[verifier::rlimit(40)]
    pub fn collect_repository_item(&self, key: &str, syntax_data: &SyntaxData) -> (r: ObjectPair)
        requires
            syntax_data.wf(),
            parents_acyclic(pe_view(syntax_data.parent_entries)),
        ensures
            repo_item_is(r, key@, ev(*self), pe_view(syntax_data.parent_entries), entries_view(syntax_data.entries)),
    {
        let ghost pe = pe_view(syntax_data.parent_entries);
        match self {
            SyntaxEntry::Match { collect } => {
                let mut items: Vec<ObjectPair> = Vec::new();
                items.push(ObjectPair::new(owned("name"), str_val(key)));
                items.push(ObjectPair::new(owned("match"), JsVal::string_val(SyntaxEntry::escape(collect.get_regex()))));
                items.push(ObjectPair::new(owned("captures"), SyntaxEntry::collect_captures(&collect.captures)));
                let v = JsVal::js_object(items);
                assert(obj_items(v) == items@);
                ObjectPair::new(owned(key), v)
            },
            SyntaxEntry::BeginEnd { begin, end } => {
                assert forall|i: int| 0 <= i < begin.patterns@.len() implies closure_ok(pe, #[trigger] begin.patterns@[i]@) by {
                    assert(closure_ok(pe, begin.patterns@[i]@));
                }
                let mut pats: Vec<&str> = Vec::new();
                let n = begin.patterns.len();
                let mut i: usize = 0;
                while i < n
                    invariant
                        n == begin.patterns@.len(),
                        i <= n,
                        pats@.map_values(|x: &str| x@) == strs(begin.patterns@).take(i as int),
                    decreases n - i,
                {
                    let ghost before = pats@;
                    pats.push(begin.patterns[i].as_str());
                    assert(pats@.map_values(|x: &str| x@) =~= before.map_values(|x: &str| x@).push(begin.patterns@[i as int]@));
                    assert(strs(begin.patterns@).take(i + 1) =~= strs(begin.patterns@).take(i as int).push(begin.patterns@[i as int]@));
                    i += 1;
                }
                assert(strs(begin.patterns@).take(n as int) =~= strs(begin.patterns@));
                let mut items: Vec<ObjectPair> = Vec::new();
                items.push(ObjectPair::new(owned("name"), str_val(key)));
                items.push(ObjectPair::new(owned("begin"), JsVal::string_val(SyntaxEntry::escape(begin.get_regex()))));
                items.push(
                    ObjectPair::new(owned("end"), JsVal::string_val(SyntaxEntry::escape(end.get_end_regex(syntax_data, begin)))),
                );
                items.push(ObjectPair::new(owned("beginCaptures"), SyntaxEntry::collect_captures(&begin.captures)));
                items.push(ObjectPair::new(owned("endCaptures"), SyntaxEntry::collect_captures(&end.captures)));
                items.push(ObjectPair::new(owned("patterns"), SyntaxEntry::collect_pattern_includes(&pats, syntax_data)));
                let v = JsVal::js_object(items);
                assert(obj_items(v) == items@);
                ObjectPair::new(owned(key), v)
            },
        }
    }
}

pub struct CodegenSyntax<'a, 'd> {
    pub data: &'a LangData<'d>,
}

/// Parent entries and grammar entries.
pub type SynV = (ParentsV, Map<Seq<char>, EntryV>);

pub open spec fn add_pe(pe: ParentsV, parent: Seq<char>, entry: Seq<char>) -> ParentsV {
    pe.insert(parent, pe_get(pe, parent).push(entry))
}

/// What one rule of an AST entry or list of type `ty` adds: the type it
/// produces as an entry of `ty` when different, and the entries of a
/// parts rule.
pub open spec fn rule_entry_syntax<'a>(ty: Option<Seq<char>>, r: AstRule<'a>, st: SynV, d: LangData<'a>) -> SynV {
    match r {
        AstRule::RefRule(k) => match ty {
            Some(t) => if k@ != t {
                (add_pe(st.0, t, k@), st.1)
            } else {
                st
            },
            None => st,
        },
        AstRule::PartsRule(pr) => {
            let pe = match ty {
                Some(t) => if pr.ast_type@ != t {
                    add_pe(st.0, t, pr.ast_type@)
                } else {
                    st.0
                },
                None => st.0,
            };
            rule_syntax(pr, pe, st.1, d)
        },
    }
}

pub open spec fn rules_syntax<'a>(ty: Option<Seq<char>>, rules: Seq<AstRule<'a>>, st: SynV, d: LangData<'a>) -> SynV
    decreases rules.len(),
{
    if rules.len() == 0 {
        st
    } else {
        rule_entry_syntax(ty, rules.last(), rules_syntax(ty, rules.drop_last(), st, d), d)
    }
}

pub open spec fn list_rules_of<'a>(ld: ListData<'a>) -> Seq<AstRule<'a>> {
    ld.rules@.map_values(|r: ListRule<'a>| r.ast_rule)
}

pub open spec fn opt_chars_of<'a>(o: Option<&'a str>) -> Option<Seq<char>> {
    match o {
        Some(s) => Some(s@),
        None => None,
    }
}

/// The syntax of the AST entries, in order.
pub open spec fn asts_syntax<'a>(ads: Seq<AstData<'a>>, st: SynV, d: LangData<'a>) -> SynV
    decreases ads.len(),
{
    if ads.len() == 0 {
        st
    } else {
        rules_syntax(Some(ads.last().ast_type@), ads.last().rules@, asts_syntax(ads.drop_last(), st, d), d)
    }
}

/// The syntax of the lists, in order.
pub open spec fn lists_syntax<'a>(lds: Seq<ListData<'a>>, st: SynV, d: LangData<'a>) -> SynV
    decreases lds.len(),
{
    if lds.len() == 0 {
        st
    } else {
        rules_syntax(opt_chars_of(lds.last().ast_type), list_rules_of(lds.last()), lists_syntax(lds.drop_last(), st, d), d)
    }
}

/// Every parts rule of an AST entry or list can be collected.
pub open spec fn data_syntax_ok<'a>(d: LangData<'a>) -> bool {
    &&& forall|i: int, j: int|
        0 <= i < d.ast_data.vals@.len() && 0 <= j < d.ast_data.vals@[i].rules@.len() ==> (
        #[trigger] d.ast_data.vals@[i].rules@[j] matches AstRule::PartsRule(pr) ==> rule_syntax_ok(pr, d))
    &&& forall|i: int, j: int|
        0 <= i < d.list_data.vals@.len() && 0 <= j < d.list_data.vals@[i].rules@.len() ==> (
        #[trigger] d.list_data.vals@[i].rules@[j].ast_rule matches AstRule::PartsRule(pr) ==> rule_syntax_ok(pr, d))
}

/// The entries collected from all rules, before patterns that are only
/// optional are expanded: AST entries first, then lists, each in key order.
pub open spec fn collected_syntax<'a>(d: LangData<'a>) -> SynV {
    lists_syntax(d.list_data.vals@, asts_syntax(d.ast_data.vals@, (ParentsV::empty(), Map::empty()), d), d)
}

impl<'a, 'd> CodegenSyntax<'a, 'd> {
    pub fn new(data: &'a LangData<'d>) -> (r: CodegenSyntax<'a, 'd>)
        ensures
            r.data == data,
    {
        CodegenSyntax { data }
    }

    /// Adds what one rule of an AST entry or list of type `ty` gives.
    fn add_rule_syntax(ty: Option<&'d str>, rule: &AstRule<'d>, syntax_data: &mut SyntaxData, data: &LangData<'d>)
        requires
            data.wf(),
            old(syntax_data).wf(),
            *rule matches AstRule::PartsRule(pr) ==> rule_syntax_ok(pr, *data),
        ensures
            final(syntax_data).wf(),
            final(syntax_data).root_entries == old(syntax_data).root_entries,
            (pe_view(final(syntax_data).parent_entries), entries_view(final(syntax_data).entries)) == rule_entry_syntax(
                opt_chars_of(ty),
                *rule,
                (pe_view(old(syntax_data).parent_entries), entries_view(old(syntax_data).entries)),
                *data,
            ),
    {
        match rule {
            AstRule::RefRule(ref_key) => {
                if let Some(ast_key) = ty {
                    if !crate::text::str_eq(ref_key, ast_key) {
                        syntax_data.add_parent_entry(ast_key, ref_key);
                    }
                }
            },
            AstRule::PartsRule(parts_rule) => {
                if let Some(ast_key) = ty {
                    if !crate::text::str_eq(parts_rule.ast_type, ast_key) {
                        syntax_data.add_parent_entry(ast_key, parts_rule.ast_type);
                    }
                }
                parts_rule.add_syntax_entries(syntax_data, data);
            },
        }
    }

    /// Collects the entries of all rules, AST entries first, then lists.
    #[verifier::rlimit(30)]
    fn collect_rule_syntax(&self) -> (r: SyntaxData)
        requires
            self.data.wf(),
            data_syntax_ok(*self.data),
        ensures
            r.wf(),
            r.root_entries@.len() == 0,
            (pe_view(r.parent_entries), entries_view(r.entries)) == collected_syntax(*self.data),
    {
        let data = self.data;
        let mut syntax_data = SyntaxData::new();
        let ghost st0: SynV = (ParentsV::empty(), Map::<Seq<char>, EntryV>::empty());
        let n = data.ast_data.len();
        let mut i: usize = 0;
        proof {
            assert(data.ast_data.vals@.take(0) =~= Seq::<AstData<'d>>::empty());
        }
        while i < n
            invariant
                n == data.ast_data.vals@.len(),
                data == self.data,
                data.wf(),
                data_syntax_ok(*data),
                i <= n,
                syntax_data.wf(),
                syntax_data.root_entries@.len() == 0,
                (pe_view(syntax_data.parent_entries), entries_view(syntax_data.entries)) == asts_syntax(
                    data.ast_data.vals@.take(i as int),
                    st0,
                    *data,
                ),
            decreases n - i,
        {
            let ad = data.ast_data.val_at(i);
            let ghost st_i = asts_syntax(data.ast_data.vals@.take(i as int), st0, *data);
            let m = ad.rules.len();
            let mut j: usize = 0;
            proof {
                assert(ad.rules@.take(0) =~= Seq::<AstRule<'d>>::empty());
            }
            while j < m
                invariant
                    n == data.ast_data.vals@.len(),
                    i < n,
                    *ad == data.ast_data.vals@[i as int],
                    m == ad.rules@.len(),
                    data.wf(),
                    data_syntax_ok(*data),
                    j <= m,
                    syntax_data.wf(),
                    syntax_data.root_entries@.len() == 0,
                    (pe_view(syntax_data.parent_entries), entries_view(syntax_data.entries)) == rules_syntax(
                        Some(ad.ast_type@),
                        ad.rules@.take(j as int),
                        st_i,
                        *data,
                    ),
                decreases m - j,
            {
                assert(data.ast_data.vals@[i as int].rules@[j as int] == ad.rules@[j as int]);
                Self::add_rule_syntax(Some(ad.ast_type), &ad.rules[j], &mut syntax_data, data);
                assert(ad.rules@.take(j + 1).drop_last() =~= ad.rules@.take(j as int));
                j += 1;
            }
            proof {
                assert(ad.rules@.take(m as int) =~= ad.rules@);
                assert(data.ast_data.vals@.take(i + 1).drop_last() =~= data.ast_data.vals@.take(i as int));
            }
            i += 1;
        }
        assert(data.ast_data.vals@.take(n as int) =~= data.ast_data.vals@);
        let ghost st1 = asts_syntax(data.ast_data.vals@, st0, *data);
        let n = data.list_data.len();
        let mut i: usize = 0;
        proof {
            assert(data.list_data.vals@.take(0) =~= Seq::<ListData<'d>>::empty());
        }
        while i < n
            invariant
                n == data.list_data.vals@.len(),
                data == self.data,
                data.wf(),
                data_syntax_ok(*data),
                i <= n,
                syntax_data.wf(),
                syntax_data.root_entries@.len() == 0,
                (pe_view(syntax_data.parent_entries), entries_view(syntax_data.entries)) == lists_syntax(
                    data.list_data.vals@.take(i as int),
                    st1,
                    *data,
                ),
            decreases n - i,
        {
            let ld = data.list_data.val_at(i);
            let ghost st_i = lists_syntax(data.list_data.vals@.take(i as int), st1, *data);
            let ghost rules = list_rules_of(*ld);
            let m = ld.rules.len();
            let mut j: usize = 0;
            proof {
                assert(rules.take(0) =~= Seq::<AstRule<'d>>::empty());
            }
            while j < m
                invariant
                    n == data.list_data.vals@.len(),
                    i < n,
                    *ld == data.list_data.vals@[i as int],
                    rules == list_rules_of(*ld),
                    m == ld.rules@.len(),
                    data.wf(),
                    data_syntax_ok(*data),
                    j <= m,
                    syntax_data.wf(),
                    syntax_data.root_entries@.len() == 0,
                    (pe_view(syntax_data.parent_entries), entries_view(syntax_data.entries)) == rules_syntax(
                        opt_chars_of(ld.ast_type),
                        rules.take(j as int),
                        st_i,
                        *data,
                    ),
                decreases m - j,
            {
                assert(data.list_data.vals@[i as int].rules@[j as int].ast_rule == ld.rules@[j as int].ast_rule);
                Self::add_rule_syntax(ld.ast_type, &ld.rules[j].ast_rule, &mut syntax_data, data);
                assert(rules.take(j + 1).drop_last() =~= rules.take(j as int));
                assert(rules[j as int] == ld.rules@[j as int].ast_rule);
                j += 1;
            }
            proof {
                assert(rules.take(m as int) =~= rules);
                assert(data.list_data.vals@.take(i + 1).drop_last() =~= data.list_data.vals@.take(i as int));
            }
            i += 1;
        }
        assert(data.list_data.vals@.take(n as int) =~= data.list_data.vals@);
        syntax_data
    }
}

/// Replacement entries, by the key of the entry they replace.
pub type ReplV = Map<Seq<char>, Seq<(Seq<char>, EntryV)>>;

/// An entry is replaced when it only has optional parts: a match with
/// regexes whose first part is a parent entry, or a begin and end entry
/// whose begin is only optional.
pub open spec fn repl_cond(e: EntryV) -> bool {
    match e {
        EntryV::Match(c) => c.only_optional && c.regexes.len() > 0 && c.parent_refs.len() > 0,
        EntryV::BeginEnd(b, _) => b.only_optional,
    }
}

/// The entries a replaced entry is combined with: the parents of a match,
/// the patterns of a begin and end entry.
pub open spec fn repl_refs(e: EntryV) -> Seq<Seq<char>> {
    match e {
        EntryV::Match(c) => c.parent_refs,
        EntryV::BeginEnd(b, _) => b.patterns,
    }
}

/// A replaced entry combined with one it refers to: a match is put after
/// its parent; a begin and end entry takes the referred entry in between.
pub open spec fn combine(e: EntryV, other: EntryV) -> EntryV {
    match e {
        EntryV::Match(c) => match other {
            EntryV::Match(ic) => EntryV::Match(append_v(ic, c)),
            EntryV::BeginEnd(ib, ie) => EntryV::BeginEnd(ib, append_v(ie, c)),
        },
        EntryV::BeginEnd(b, end) => {
            let nb = CView { patterns: Seq::empty(), ..b };
            match other {
                EntryV::Match(c) => EntryV::Match(append_v(append_v(nb, c), end)),
                EntryV::BeginEnd(ib, ie) => EntryV::BeginEnd(append_v(nb, ib), append_v(ie, end)),
            }
        },
    }
}

pub open spec fn repl_key(k: Seq<char>, p: Seq<char>) -> Seq<char> {
    k + "_"@ + p
}

pub open spec fn repl_tuples(k: Seq<char>, e: EntryV, en: Map<Seq<char>, EntryV>) -> Seq<(Seq<char>, EntryV)> {
    repl_refs(e).map_values(|p: Seq<char>| (repl_key(k, p), combine(e, en[p])))
}

/// The replacements for the entries that only have optional parts.
pub open spec fn replacements_of(en: Map<Seq<char>, EntryV>) -> ReplV {
    Map::new(|k: Seq<char>| en.contains_key(k) && repl_cond(en[k]), |k: Seq<char>| repl_tuples(k, en[k], en))
}

/// Every entry a replaced entry refers to exists.
pub open spec fn repl_ok(en: Map<Seq<char>, EntryV>) -> bool {
    forall|k: Seq<char>, i: int|
        #![trigger en[k], repl_refs(en[k])[i]]
        en.contains_key(k) && repl_cond(en[k]) && 0 <= i < repl_refs(en[k]).len() ==> en.contains_key(
            repl_refs(en[k])[i],
        )
}

pub open spec fn tuples_view(v: Vec<(String, SyntaxEntry)>) -> Seq<(Seq<char>, EntryV)> {
    v@.map_values(|t: (String, SyntaxEntry)| (t.0@, ev(t.1)))
}

pub open spec fn repl_view(m: StrMap<String, Vec<(String, SyntaxEntry)>>) -> ReplV {
    m@.map_values(|v: Vec<(String, SyntaxEntry)>| tuples_view(v))
}

fn clone_state(c: &CollectState) -> (r: CollectState)
    ensures
        cview(r) == cview(*c),
{
    c.clone()
}

/// `e` combined with `other`.
fn combine_entries(e: &SyntaxEntry, other: &SyntaxEntry) -> (r: SyntaxEntry)
    ensures
        ev(r) == combine(ev(*e), ev(*other)),
{
    match e {
        SyntaxEntry::Match { collect } => match other {
            SyntaxEntry::Match { collect: inner_collect } => {
                let mut new_collect = clone_state(inner_collect);
                new_collect.append(collect);
                SyntaxEntry::Match { collect: new_collect }
            },
            SyntaxEntry::BeginEnd { begin: inner_begin, end: inner_end } => {
                let new_begin = clone_state(inner_begin);
                let mut new_end = clone_state(inner_end);
                new_end.append(collect);
                SyntaxEntry::BeginEnd { begin: new_begin, end: new_end }
            },
        },
        SyntaxEntry::BeginEnd { begin, end } => match other {
            SyntaxEntry::Match { collect } => {
                let mut new_collect = clone_state(begin);
                new_collect.patterns = Vec::new();
                assert(cview(new_collect) =~= (CView { patterns: Seq::empty(), ..cview(*begin) }));
                new_collect.append(collect);
                new_collect.append(end);
                SyntaxEntry::Match { collect: new_collect }
            },
            SyntaxEntry::BeginEnd { begin: inner_begin, end: inner_end } => {
                let mut new_begin = clone_state(begin);
                new_begin.patterns = Vec::new();
                assert(cview(new_begin) =~= (CView { patterns: Seq::empty(), ..cview(*begin) }));
                new_begin.append(inner_begin);
                let mut new_end = clone_state(inner_end);
                new_end.append(end);
                SyntaxEntry::BeginEnd { begin: new_begin, end: new_end }
            },
        },
    }
}

/// The strings a replaced entry refers to.
fn entry_refs(e: &SyntaxEntry) -> (r: &Vec<String>)
    ensures
        strs(r@) == repl_refs(ev(*e)),
{
    match e {
        SyntaxEntry::Match { collect } => &collect.parent_refs,
        SyntaxEntry::BeginEnd { begin, .. } => &begin.patterns,
    }
}

fn entry_repl_cond(e: &SyntaxEntry) -> (r: bool)
    ensures
        r == repl_cond(ev(*e)),
{
    match e {
        SyntaxEntry::Match { collect } => collect.only_optional && collect.regexes.len() > 0
            && collect.parent_refs.len() > 0,
        SyntaxEntry::BeginEnd { begin, .. } => begin.only_optional,
    }
}

impl<'a, 'd> CodegenSyntax<'a, 'd> {
    /// The replacements for the entries that only have optional parts,
    /// each combined with every entry it refers to.
    #[verifier::rlimit(40)]
    pub fn get_replacements(syntax_data: &SyntaxData) -> (r: StrMap<String, Vec<(String, SyntaxEntry)>>)
        requires
            syntax_data.wf(),
            repl_ok(entries_view(syntax_data.entries)),
        ensures
            r.wf(),
            repl_view(r) == replacements_of(entries_view(syntax_data.entries)),
    {
        let ghost en = entries_view(syntax_data.entries);
        let entries = &syntax_data.entries;
        let mut replacements: StrMap<String, Vec<(String, SyntaxEntry)>> = StrMap::new();
        let n = entries.len();
        let mut i: usize = 0;
        proof {
            entries.lemma_view_values();
        }
        while i < n
            invariant
                n == entries.keys@.len(),
                entries.wf(),
                en == entries_view(*entries),
                repl_ok(en),
                i <= n,
                replacements.wf(),
                forall|i: int|
                    0 <= i < entries.keys@.len() ==> #[trigger] entries@.contains_key(Name::chars(&entries.keys@[i]))
                        && entries@[Name::chars(&entries.keys@[i])] == entries.vals@[i],
                forall|k: Seq<char>|
                    #[trigger] entries@.contains_key(k) ==> Name::chars(&entries.keys@[entries.idx(k)]) == k && 0
                        <= entries.idx(k) < entries.keys@.len(),
                forall|k: Seq<char>|
                    #[trigger] repl_view(replacements).contains_key(k) <==> (exists|j: int|
                        0 <= j < i && #[trigger] Name::chars(&entries.keys@[j]) == k) && en.contains_key(k) && repl_cond(en[k]),
                forall|k: Seq<char>|
                    #[trigger] repl_view(replacements).contains_key(k) ==> repl_view(replacements)[k] == repl_tuples(k, en[k], en),
            decreases n - i,
        {
            let key = entries.key_at(i);
            let entry = entries.val_at(i);
            let ghost k = key@;
            assert(Name::chars(&entries.keys@[i as int]) == k);
            assert(entries@.contains_key(Name::chars(&entries.keys@[i as int])));
            assert(entries@.contains_key(k) && entries@[k] == *entry);
            assert(en.contains_key(k) && en[k] == ev(*entry));
            if entry_repl_cond(entry) {
                let refs = entry_refs(entry);
                let ghost rs = strs(refs@);
                let mut rtuples: Vec<(String, SyntaxEntry)> = Vec::new();
                let m = refs.len();
                let mut j: usize = 0;
                while j < m
                    invariant
                        m == refs@.len(),
                        rs == strs(refs@),
                        rs == repl_refs(en[k]),
                        en.contains_key(k),
                        repl_cond(en[k]),
                        entries.wf(),
                        en == entries_view(*entries),
                        repl_ok(en),
                        en[k] == ev(*entry),
                        k == key@,
                        j <= m,
                        tuples_view(rtuples) == repl_tuples(k, en[k], en).take(j as int),
                    decreases m - j,
                {
                    let pref = &refs[j];
                    assert(rs[j as int] == pref@);
                    assert(en.contains_key(repl_refs(en[k])[j as int]));
                    let front_entry = match entries.get(pref.as_str()) {
                        Some(e) => e,
                        None => {
                            assert(false);
                            return replacements;
                        },
                    };
                    assert(en[pref@] == ev(*front_entry));
                    let new_key = cat(cat(owned(key.as_str()), "_"), pref.as_str());
                    let new_entry = combine_entries(entry, front_entry);
                    let ghost before = tuples_view(rtuples);
                    rtuples.push((new_key, new_entry));
                    proof {
                        assert(tuples_view(rtuples) =~= before.push((new_key@, ev(new_entry))));
                        assert(repl_tuples(k, en[k], en).take(j + 1) =~= repl_tuples(k, en[k], en).take(j as int).push(
                            (repl_key(k, pref@), combine(en[k], en[pref@])),
                        ));
                    }
                    j += 1;
                }
                assert(repl_tuples(k, en[k], en).take(m as int) =~= repl_tuples(k, en[k], en));
                let ghost r0 = repl_view(replacements);
                replacements.insert(owned(key.as_str()), rtuples);
                proof {
                    assert(repl_view(replacements) =~= r0.insert(k, tuples_view(rtuples)));
                    assert forall|kk: Seq<char>| #[trigger] repl_view(replacements).contains_key(kk) implies repl_view(replacements)[kk]
                        == repl_tuples(kk, en[kk], en) by {
                        if kk != k {
                            assert(r0.contains_key(kk));
                        }
                    }
                    assert forall|kk: Seq<char>| #[trigger] repl_view(replacements).contains_key(kk) <==> (exists|jj: int|
                        0 <= jj < i + 1 && #[trigger] Name::chars(&entries.keys@[jj]) == kk) && en.contains_key(kk) && repl_cond(en[kk]) by {
                        if kk == k {
                            assert(Name::chars(&entries.keys@[i as int]) == kk);
                        }
                        if exists|jj: int| 0 <= jj < i + 1 && #[trigger] Name::chars(&entries.keys@[jj]) == kk {
                            let jj = choose|jj: int| 0 <= jj < i + 1 && #[trigger] Name::chars(&entries.keys@[jj]) == kk;
                            if jj < i {
                                assert(exists|j2: int| 0 <= j2 < i && #[trigger] Name::chars(&entries.keys@[j2]) == kk);
                            }
                        }
                    }
                }
            } else {
                proof {
                    assert forall|kk: Seq<char>| #[trigger] repl_view(replacements).contains_key(kk) <==> (exists|jj: int|
                        0 <= jj < i + 1 && #[trigger] Name::chars(&entries.keys@[jj]) == kk) && en.contains_key(kk) && repl_cond(en[kk]) by {
                        if exists|jj: int| 0 <= jj < i + 1 && #[trigger] Name::chars(&entries.keys@[jj]) == kk {
                            let jj = choose|jj: int| 0 <= jj < i + 1 && #[trigger] Name::chars(&entries.keys@[jj]) == kk;
                            if jj < i {
                                assert(exists|j2: int| 0 <= j2 < i && #[trigger] Name::chars(&entries.keys@[j2]) == kk);
                            }
                        }
                    }
                }
            }
            i += 1;
        }
        proof {
            assert forall|kk: Seq<char>| #[trigger] repl_view(replacements).contains_key(kk) <==> replacements_of(en).contains_key(kk) by {
                if en.contains_key(kk) {
                    let jj = entries.idx(kk);
                    assert(Name::chars(&entries.keys@[jj]) == kk);
                }
            }
            assert(repl_view(replacements) =~= replacements_of(en));
        }
        replacements
    }
}

/// The new keys of replacement entries.
pub open spec fn new_keys(ts: Seq<(Seq<char>, EntryV)>) -> Seq<Seq<char>> {
    ts.map_values(|t: (Seq<char>, EntryV)| t.0)
}

/// The new keys replacing each replaced entry.
pub open spec fn repl_keys(r: ReplV) -> ParentsV {
    r.map_values(|ts: Seq<(Seq<char>, EntryV)>| new_keys(ts))
}

/// A list of names with each replaced name swapped for the names of its
/// replacements.
pub open spec fn repl_names(l: Seq<Seq<char>>, rk: ParentsV) -> Seq<Seq<char>>
    decreases l.len(),
{
    if l.len() == 0 {
        Seq::empty()
    } else {
        repl_names(l.drop_last(), rk) + (if rk.contains_key(l.last()) {
            rk[l.last()]
        } else {
            seq![l.last()]
        })
    }
}

pub open spec fn insert_all(en: Map<Seq<char>, EntryV>, ts: Seq<(Seq<char>, EntryV)>) -> Map<Seq<char>, EntryV>
    decreases ts.len(),
{
    if ts.len() == 0 {
        en
    } else {
        insert_all(en, ts.drop_last()).insert(ts.last().0, ts.last().1)
    }
}

/// The entries with each replaced entry (in the order of `keys`) removed
/// and its replacements added.
pub open spec fn apply_repl(en: Map<Seq<char>, EntryV>, r: ReplV, keys: Seq<Seq<char>>) -> Map<Seq<char>, EntryV>
    decreases keys.len(),
{
    if keys.len() == 0 {
        en
    } else {
        insert_all(apply_repl(en, r, keys.drop_last()).remove(keys.last()), r[keys.last()])
    }
}

/// A begin and end entry whose patterns name replaced entries includes
/// their replacements instead.
pub open spec fn patch_entry(e: EntryV, rk: ParentsV) -> EntryV {
    match e {
        EntryV::Match(c) => EntryV::Match(c),
        EntryV::BeginEnd(b, end) => EntryV::BeginEnd(CView { patterns: repl_names(b.patterns, rk), ..b }, end),
    }
}

/// The grammar data of a language: the entries collected from all rules,
/// with entries that only have optional parts replaced by their
/// combinations with the entries they refer to, in key order.
pub open spec fn syntax_spec<'a>(d: LangData<'a>) -> SynV {
    let (pe1, en1) = collected_syntax(d);
    let r = replacements_of(en1);
    let rk = repl_keys(r);
    (
        pe1.map_values(|l: Seq<Seq<char>>| repl_names(l, rk)),
        apply_repl(en1, r, sorted_names(r.dom())).map_values(|e: EntryV| patch_entry(e, rk)),
    )
}

/// `l` with each replaced name swapped for its replacements.
fn replace_names(l: &Vec<String>, rk: &StrMap<String, Vec<String>>) -> (r: Vec<String>)
    requires
        rk.wf(),
    ensures
        strs(r@) == repl_names(strs(l@), pe_view(*rk)),
{
    let ghost lv = strs(l@);
    let mut out: Vec<String> = Vec::new();
    let n = l.len();
    let mut i: usize = 0;
    proof {
        assert(lv.take(0) =~= Seq::<Seq<char>>::empty());
    }
    while i < n
        invariant
            n == l@.len(),
            lv == strs(l@),
            rk.wf(),
            i <= n,
            strs(out@) == repl_names(lv.take(i as int), pe_view(*rk)),
        decreases n - i,
    {
        let entry = &l[i];
        let ghost before = strs(out@);
        proof {
            assert(lv.take(i + 1).drop_last() =~= lv.take(i as int));
            assert(lv.take(i + 1).last() == entry@);
        }
        match rk.get(entry.as_str()) {
            Some(keys) => {
                let m = keys.len();
                let mut j: usize = 0;
                while j < m
                    invariant
                        m == keys@.len(),
                        j <= m,
                        strs(out@) == before + strs(keys@).take(j as int),
                    decreases m - j,
                {
                    let ghost b2 = strs(out@);
                    out.push(owned(keys[j].as_str()));
                    assert(strs(out@) =~= b2.push(keys@[j as int]@));
                    assert(strs(keys@).take(j + 1) =~= strs(keys@).take(j as int).push(keys@[j as int]@));
                    j += 1;
                }
                assert(strs(keys@).take(m as int) =~= strs(keys@));
            },
            None => {
                out.push(owned(entry.as_str()));
                assert(strs(out@) =~= before.push(entry@));
            },
        }
        i += 1;
    }
    assert(lv.take(n as int) =~= lv);
    out
}

/// The new keys of each replaced entry.
fn replace_keys_of(r: &StrMap<String, Vec<(String, SyntaxEntry)>>) -> (rk: StrMap<String, Vec<String>>)
    requires
        r.wf(),
    ensures
        rk.wf(),
        pe_view(rk) == repl_keys(repl_view(*r)),
{
    let mut rk: StrMap<String, Vec<String>> = StrMap::new();
    let n = r.len();
    let mut i: usize = 0;
    proof {
        r.lemma_view_values();
    }
    while i < n
        invariant
            n == r.keys@.len(),
            r.wf(),
            rk.wf(),
            i <= n,
            forall|i: int|
                0 <= i < r.keys@.len() ==> #[trigger] r@.contains_key(Name::chars(&r.keys@[i])) && r@[Name::chars(
                    &r.keys@[i],
                )] == r.vals@[i],
            forall|k: Seq<char>|
                #[trigger] r@.contains_key(k) ==> Name::chars(&r.keys@[r.idx(k)]) == k && 0 <= r.idx(k)
                    < r.keys@.len(),
            forall|k: Seq<char>|
                #[trigger] pe_view(rk).contains_key(k) <==> (r@.contains_key(k) && r.idx(k) < i),
            forall|k: Seq<char>|
                #[trigger] pe_view(rk).contains_key(k) ==> pe_view(rk)[k] == new_keys(tuples_view(r@[k])),
        decreases n - i,
    {
        let key = r.key_at(i);
        let ts = r.val_at(i);
        let ghost k = key@;
        proof {
            assert(r@.contains_key(Name::chars(&r.keys@[i as int])));
            r.lemma_idx(i as int);
        }
        let mut keys: Vec<String> = Vec::new();
        let m = ts.len();
        let mut j: usize = 0;
        while j < m
            invariant
                m == ts@.len(),
                j <= m,
                strs(keys@) == new_keys(tuples_view(*ts)).take(j as int),
            decreases m - j,
        {
            let ghost b2 = strs(keys@);
            keys.push(owned(ts[j].0.as_str()));
            assert(strs(keys@) =~= b2.push(ts@[j as int].0@));
            assert(new_keys(tuples_view(*ts)).take(j + 1) =~= new_keys(tuples_view(*ts)).take(j as int).push(ts@[j as int].0@));
            j += 1;
        }
        assert(new_keys(tuples_view(*ts)).take(m as int) =~= new_keys(tuples_view(*ts)));
        let ghost p0 = pe_view(rk);
        rk.insert(owned(key.as_str()), keys);
        proof {
            assert(pe_view(rk) =~= p0.insert(k, strs(keys@)));
            assert forall|kk: Seq<char>| #[trigger] pe_view(rk).contains_key(kk) <==> (r@.contains_key(kk) && r.idx(kk) < i + 1) by {
                if kk == k {
                    assert(r.idx(kk) == i);
                }
                if r@.contains_key(kk) && r.idx(kk) == i {
                    assert(Name::chars(&r.keys@[r.idx(kk)]) == kk);
                }
            }
            assert forall|kk: Seq<char>| #[trigger] pe_view(rk).contains_key(kk) implies pe_view(rk)[kk] == new_keys(tuples_view(r@[kk])) by {
                if kk != k {
                    assert(p0.contains_key(kk));
                }
            }
        }
        i += 1;
    }
    proof {
        assert(pe_view(rk) =~= repl_keys(repl_view(*r)));
    }
    rk
}

/// Swaps each replaced entry among the entries of every parent for the
/// names of its replacements.
fn replace_parents(pe: &mut StrMap<String, Vec<String>>, rk: &StrMap<String, Vec<String>>)
    requires
        old(pe).wf(),
        rk.wf(),
    ensures
        final(pe).wf(),
        pe_view(*final(pe)) == pe_view(*old(pe)).map_values(|l: Seq<Seq<char>>| repl_names(l, pe_view(*rk))),
{
    let ghost orig = *pe;
    let ghost rkv = pe_view(*rk);
    let n = pe.len();
    let mut i: usize = 0;
    while i < n
        invariant
            n == orig.keys@.len(),
            orig.wf(),
            rk.wf(),
            rkv == pe_view(*rk),
            pe.keys == orig.keys,
            pe.vals@.len() == orig.vals@.len(),
            i <= n,
            forall|j: int| 0 <= j < i ==> strs(#[trigger] pe.vals@[j]@) == repl_names(strs(orig.vals@[j]@), rkv),
            forall|j: int| i <= j < n ==> #[trigger] pe.vals@[j] == orig.vals@[j],
        decreases n - i,
    {
        proof {
            StrMap::lemma_same_keys(orig, *pe);
        }
        let new_v = replace_names(pe.val_at(i), rk);
        let v = pe.val_at_mut(i);
        *v = new_v;
        i += 1;
    }
    proof {
        StrMap::lemma_same_keys(orig, *pe);
        assert(pe_view(*pe) =~= pe_view(orig).map_values(|l: Seq<Seq<char>>| repl_names(l, rkv)));
    }
}

/// In every begin and end entry, swaps the replaced entries among the
/// patterns for the names of their replacements.
fn patch_patterns(en: &mut StrMap<String, SyntaxEntry>, rk: &StrMap<String, Vec<String>>)
    requires
        old(en).wf(),
        rk.wf(),
    ensures
        final(en).wf(),
        entries_view(*final(en)) == entries_view(*old(en)).map_values(|e: EntryV| patch_entry(e, pe_view(*rk))),
{
    let ghost orig = *en;
    let ghost rkv = pe_view(*rk);
    let n = en.len();
    let mut i: usize = 0;
    while i < n
        invariant
            n == orig.keys@.len(),
            orig.wf(),
            rk.wf(),
            rkv == pe_view(*rk),
            en.keys == orig.keys,
            en.vals@.len() == orig.vals@.len(),
            i <= n,
            forall|j: int| 0 <= j < i ==> ev(#[trigger] en.vals@[j]) == patch_entry(ev(orig.vals@[j]), rkv),
            forall|j: int| i <= j < n ==> #[trigger] en.vals@[j] == orig.vals@[j],
        decreases n - i,
    {
        proof {
            StrMap::lemma_same_keys(orig, *en);
        }
        let entry = en.val_at_mut(i);
        match entry {
            SyntaxEntry::Match { .. } => {},
            SyntaxEntry::BeginEnd { begin, .. } => {
                let new_patterns = replace_names(&begin.patterns, rk);
                begin.patterns = new_patterns;
                assert(cview(*begin) =~= (CView { patterns: strs(new_patterns@), ..cview(orig.vals@[i as int]->BeginEnd_begin) }));
            },
        }
        i += 1;
    }
    proof {
        StrMap::lemma_same_keys(orig, *en);
        assert(entries_view(*en) =~= entries_view(orig).map_values(|e: EntryV| patch_entry(e, rkv)));
    }
}

/// Removes each replaced entry and adds its replacements, in key order.
#[verifier::rlimit(30)]
fn apply_replacements(en: &mut StrMap<String, SyntaxEntry>, r: StrMap<String, Vec<(String, SyntaxEntry)>>)
    requires
        old(en).wf(),
        r.wf(),
    ensures
        final(en).wf(),
        entries_view(*final(en)) == apply_repl(
            entries_view(*old(en)),
            repl_view(r),
            sorted_names(repl_view(r).dom()),
        ),
{
    let ghost orig = r;
    let ghost rv = repl_view(r);
    let ghost kn = r.key_names();
    let ghost en0 = entries_view(*en);
    proof {
        r.lemma_sorted_keys();
        assert(rv.dom() =~= r@.dom());
    }
    let StrMap { keys, vals } = r;
    let mut keys = keys;
    let mut vals = vals;
    let n = keys.len();
    let mut t: usize = 0;
    proof {
        assert(kn.take(0) =~= Seq::<Seq<char>>::empty());
        assert(keys@ =~= orig.keys@.skip(0));
        assert(vals@ =~= orig.vals@.skip(0));
    }
    while t < n
        invariant
            n == orig.keys@.len(),
            orig.wf(),
            rv == repl_view(orig),
            kn == orig.key_names(),
            t <= n,
            keys@ == orig.keys@.skip(t as int),
            vals@ == orig.vals@.skip(t as int),
            en.wf(),
            entries_view(*en) == apply_repl(en0, rv, kn.take(t as int)),
        decreases n - t,
    {
        let key = keys.remove(0);
        let ts = vals.remove(0);
        proof {
            assert(key == orig.keys@[t as int]);
            assert(ts == orig.vals@[t as int]);
            orig.lemma_idx(t as int);
            assert(kn[t as int] == key@);
            assert(rv[key@] == tuples_view(ts));
            assert(keys@ =~= orig.keys@.skip(t + 1));
            assert(vals@ =~= orig.vals@.skip(t + 1));
            assert(kn.take(t + 1).drop_last() =~= kn.take(t as int));
        }
        let ghost base = entries_view(*en).remove(key@);
        let ghost tv = tuples_view(ts);
        en.remove(key.as_str());
        assert(entries_view(*en) =~= base);
        let mut ts = ts;
        let m = ts.len();
        let mut u: usize = 0;
        proof {
            assert(tv.take(0) =~= Seq::<(Seq<char>, EntryV)>::empty());
            assert(ts@ =~= ts@.skip(0));
        }
        let ghost ts0 = ts@;
        while u < m
            invariant
                m == ts0.len(),
                tv == ts0.map_values(|t: (String, SyntaxEntry)| (t.0@, ev(t.1))),
                u <= m,
                ts@ == ts0.skip(u as int),
                en.wf(),
                entries_view(*en) == insert_all(base, tv.take(u as int)),
            decreases m - u,
        {
            let (nk, ne) = ts.remove(0);
            proof {
                assert(nk == ts0[u as int].0 && ne == ts0[u as int].1);
                assert(ts@ =~= ts0.skip(u + 1));
                assert(tv.take(u + 1).drop_last() =~= tv.take(u as int));
            }
            let ghost before = entries_view(*en);
            en.insert(nk, ne);
            assert(entries_view(*en) =~= before.insert(tv[u as int].0, tv[u as int].1));
            u += 1;
        }
        assert(tv.take(m as int) =~= tv);
        t += 1;
    }
    assert(kn.take(n as int) =~= kn);
}

impl<'a, 'd> CodegenSyntax<'a, 'd> {
    /// The grammar data: the entries of all rules, with entries that only
    /// have optional parts replaced by their combinations with the entries
    /// they refer to.
    pub fn gen_syntax_data(&self) -> (r: SyntaxData)
        requires
            self.data.wf(),
            data_syntax_ok(*self.data),
            repl_ok(collected_syntax(*self.data).1),
        ensures
            r.wf(),
            r.root_entries@.len() == 0,
            (pe_view(r.parent_entries), entries_view(r.entries)) == syntax_spec(*self.data),
    {
        let mut syntax_data = self.collect_rule_syntax();
        let replacements = Self::get_replacements(&syntax_data);
        let rk = replace_keys_of(&replacements);
        replace_parents(&mut syntax_data.parent_entries, &rk);
        apply_replacements(&mut syntax_data.entries, replacements);
        patch_patterns(&mut syntax_data.entries, &rk);
        syntax_data
    }
}

/// The entries the grammar starts with: the start type, or the items of
/// the start enum.
pub open spec fn root_names<'a>(d: LangData<'a>) -> Seq<Seq<char>> {
    match d.resolved(d.start_key.unwrap()@) {
        Resolved::Struct(k) => seq![k],
        Resolved::Enum(e) => d.ast_enums@[e].items@.map_values(|x: &'a str| x@),
    }
}

pub open spec fn schema_url() -> Seq<char> {
    "https://raw.githubusercontent.com/martinring/tmlanguage/master/tmlanguage.json"@
}

/// The grammar object: schema, name and scope of the language, the
/// patterns it starts with, and a repository item for each entry, in key
/// order.
pub open spec fn grammar_is<'a>(g: JsObject, d: LangData<'a>, pe: ParentsV, en: Map<Seq<char>, EntryV>) -> bool {
    let it = g.items@;
    let names = sorted_names(en.dom());
    &&& it.len() == 5
    &&& str_pair(it[0], "$schema"@, schema_url())
    &&& str_pair(it[1], "name"@, d.name@)
    &&& str_pair(it[2], "scopeName"@, "source."@ + d.name@)
    &&& it[3].key@ == "patterns"@ && includes_is(it[3].val, expanded(pe, root_names(d)))
    &&& it[4].key@ == "repository"@ && it[4].val is JsObjectItem
    &&& obj_items(it[4].val).len() == names.len()
    &&& forall|i: int|
        0 <= i < names.len() ==> repo_item_is(#[trigger] obj_items(it[4].val)[i], names[i], en[names[i]], pe, en)
}

/// Whether the grammar of a language can be generated: every parts rule
/// can be collected, the entries replacements refer to exist, the parents
/// do not loop, and the start key resolves.
pub open spec fn gen_ok<'a>(d: LangData<'a>) -> bool {
    &&& d.wf()
    &&& data_syntax_ok(d)
    &&& repl_ok(collected_syntax(d).1)
    &&& parents_acyclic(syntax_spec(d).0)
    &&& d.start_key is Some
    &&& d.resolves(d.start_key.unwrap()@)
}

impl<'a, 'd> CodegenSyntax<'a, 'd> {
    /// The grammar object for the grammar data.
    #[verifier::rlimit(30)]
    pub fn gen_js_object(&self, syntax_data: SyntaxData) -> (r: JsObject)
        requires
            self.data.wf(),
            syntax_data.wf(),
            parents_acyclic(pe_view(syntax_data.parent_entries)),
            self.data.start_key is Some,
            self.data.resolves(self.data.start_key.unwrap()@),
        ensures
            grammar_is(r, *self.data, pe_view(syntax_data.parent_entries), entries_view(syntax_data.entries)),
    {
        let data = self.data;
        let ghost pe = pe_view(syntax_data.parent_entries);
        let ghost en = entries_view(syntax_data.entries);
        let mut items: Vec<ObjectPair> = Vec::new();
        items.push(ObjectPair::new(owned("$schema"), str_val("https://raw.githubusercontent.com/martinring/tmlanguage/master/tmlanguage.json")));
        items.push(ObjectPair::new(owned("name"), str_val(data.name.as_str())));
        let scope_name = cat(owned("source."), data.name.as_str());
        items.push(ObjectPair::new(owned("scopeName"), JsVal::string_val(scope_name)));
        let start_key = match data.start_key {
            Some(k) => k,
            None => {
                assert(false);
                "start"
            },
        };
        let root_patterns = match data.resolve(start_key) {
            ResolvedType::ResolvedStruct(key) => {
                let mut v: Vec<&str> = Vec::new();
                v.push(key);
                assert(v@.map_values(|x: &str| x@) =~= root_names(*data));
                SyntaxEntry::collect_pattern_includes(&v, &syntax_data)
            },
            ResolvedType::ResolvedEnum(key) => {
                let ast_enum = match data.ast_enums.get(key) {
                    Some(e) => e,
                    None => {
                        assert(false);
                        return JsObject::new(Vec::new());
                    },
                };
                assert(ast_enum.items@.map_values(|x: &str| x@) =~= root_names(*data));
                SyntaxEntry::collect_pattern_includes(&ast_enum.items, &syntax_data)
            },
        };
        items.push(ObjectPair::new(owned("patterns"), root_patterns));
        let mut repository: Vec<ObjectPair> = Vec::new();
        let entries = &syntax_data.entries;
        let n = entries.len();
        let mut i: usize = 0;
        proof {
            entries.lemma_sorted_keys();
            entries.lemma_view_values();
        }
        while i < n
            invariant
                n == entries.keys@.len(),
                entries.wf(),
                syntax_data.wf(),
                parents_acyclic(pe_view(syntax_data.parent_entries)),
                entries == &syntax_data.entries,
                pe == pe_view(syntax_data.parent_entries),
                en == entries_view(syntax_data.entries),
                entries.key_names() == sorted_names(entries@.dom()),
                forall|i: int|
                    0 <= i < entries.keys@.len() ==> #[trigger] entries@.contains_key(Name::chars(&entries.keys@[i]))
                        && entries@[Name::chars(&entries.keys@[i])] == entries.vals@[i],
                i <= n,
                repository@.len() == i,
                forall|j: int|
                    0 <= j < i ==> repo_item_is(
                        #[trigger] repository@[j],
                        entries.key_names()[j],
                        en[entries.key_names()[j]],
                        pe,
                        en,
                    ),
            decreases n - i,
        {
            let key = entries.key_at(i);
            let entry = entries.val_at(i);
            proof {
                assert(entries.key_names()[i as int] == key@);
                assert(entries@.contains_key(Name::chars(&entries.keys@[i as int])));
                assert(en[key@] == ev(*entry));
            }
            repository.push(entry.collect_repository_item(key.as_str(), &syntax_data));
            i += 1;
        }
        assert(en.dom() =~= entries@.dom());
        let repo = JsVal::js_object(repository);
        assert(obj_items(repo) == repository@);
        items.push(ObjectPair::new(owned("repository"), repo));
        JsObject::new(items)
    }

    /// The grammar of the language, as JSON source.
    pub fn gen(&self) -> (r: String)
        requires
            gen_ok(*self.data),
        ensures
            exists|g: JsObject| #![auto] grammar_is(g, *self.data, syntax_spec(*self.data).0, syntax_spec(*self.data).1)
                && r@ == js_object_src(g, true),
    {
        let syntax_data = self.gen_syntax_data();
        let ghost pe = pe_view(syntax_data.parent_entries);
        let ghost en = entries_view(syntax_data.entries);
        let root = self.gen_js_object(syntax_data);
        let s = ToSource::js_object(String::new(), &root);
        assert(grammar_is(root, *self.data, syntax_spec(*self.data).0, syntax_spec(*self.data).1));
        assert(s@ =~= js_object_src(root, true));
        s
    }
}

/// Whether every parts rule of the data can be collected, computed.
pub fn data_syntax_check<'d>(data: &LangData<'d>) -> (r: bool)
    requires
        data.wf(),
    ensures
        r == data_syntax_ok(*data),
{
    let n = data.ast_data.len();
    let mut i: usize = 0;
    while i < n
        invariant
            n == data.ast_data.vals@.len(),
            data.wf(),
            i <= n,
            forall|a: int, j: int|
                0 <= a < i && 0 <= j < data.ast_data.vals@[a].rules@.len() ==> (
                #[trigger] data.ast_data.vals@[a].rules@[j] matches AstRule::PartsRule(pr) ==> rule_syntax_ok(pr, *data)),
        decreases n - i,
    {
        let ad = data.ast_data.val_at(i);
        let m = ad.rules.len();
        let mut j: usize = 0;
        while j < m
            invariant
                n == data.ast_data.vals@.len(),
                i < n,
                *ad == data.ast_data.vals@[i as int],
                m == ad.rules@.len(),
                data.wf(),
                j <= m,
                forall|a: int, jj: int|
                    0 <= a < i && 0 <= jj < data.ast_data.vals@[a].rules@.len() ==> (
                    #[trigger] data.ast_data.vals@[a].rules@[jj] matches AstRule::PartsRule(pr) ==> rule_syntax_ok(pr, *data)),
                forall|jj: int|
                    0 <= jj < j ==> (#[trigger] ad.rules@[jj] matches AstRule::PartsRule(pr) ==> rule_syntax_ok(pr, *data)),
            decreases m - j,
        {
            if let AstRule::PartsRule(pr) = &ad.rules[j] {
                if !pr.rule_syntax_check(data) {
                    assert(data.ast_data.vals@[i as int].rules@[j as int] matches AstRule::PartsRule(p2) && !rule_syntax_ok(p2, *data));
                    return false;
                }
            }
            j += 1;
        }
        i += 1;
    }
    let n = data.list_data.len();
    let mut i: usize = 0;
    while i < n
        invariant
            n == data.list_data.vals@.len(),
            data.wf(),
            i <= n,
            forall|a: int, j: int|
                0 <= a < data.ast_data.vals@.len() && 0 <= j < data.ast_data.vals@[a].rules@.len() ==> (
                #[trigger] data.ast_data.vals@[a].rules@[j] matches AstRule::PartsRule(pr) ==> rule_syntax_ok(pr, *data)),
            forall|a: int, j: int|
                0 <= a < i && 0 <= j < data.list_data.vals@[a].rules@.len() ==> (
                #[trigger] data.list_data.vals@[a].rules@[j].ast_rule matches AstRule::PartsRule(pr) ==> rule_syntax_ok(pr, *data)),
        decreases n - i,
    {
        let ld = data.list_data.val_at(i);
        let m = ld.rules.len();
        let mut j: usize = 0;
        while j < m
            invariant
                n == data.list_data.vals@.len(),
                i < n,
                *ld == data.list_data.vals@[i as int],
                m == ld.rules@.len(),
                data.wf(),
                j <= m,
                forall|a: int, jj: int|
                    0 <= a < data.ast_data.vals@.len() && 0 <= jj < data.ast_data.vals@[a].rules@.len() ==> (
                    #[trigger] data.ast_data.vals@[a].rules@[jj] matches AstRule::PartsRule(pr) ==> rule_syntax_ok(pr, *data)),
                forall|a: int, jj: int|
                    0 <= a < i && 0 <= jj < data.list_data.vals@[a].rules@.len() ==> (
                    #[trigger] data.list_data.vals@[a].rules@[jj].ast_rule matches AstRule::PartsRule(pr) ==> rule_syntax_ok(pr, *data)),
                forall|jj: int|
                    0 <= jj < j ==> (#[trigger] ld.rules@[jj].ast_rule matches AstRule::PartsRule(pr) ==> rule_syntax_ok(pr, *data)),
            decreases m - j,
        {
            if let AstRule::PartsRule(pr) = &ld.rules[j].ast_rule {
                if !pr.rule_syntax_check(data) {
                    assert(data.list_data.vals@[i as int].rules@[j as int].ast_rule matches AstRule::PartsRule(p2) && !rule_syntax_ok(p2, *data));
                    return false;
                }
            }
            j += 1;
        }
        i += 1;
    }
    true
}

/// Whether every entry a replaced entry refers to exists, computed.
pub fn repl_check(syntax_data: &SyntaxData) -> (r: bool)
    requires
        syntax_data.wf(),
    ensures
        r == repl_ok(entries_view(syntax_data.entries)),
{
    let ghost en = entries_view(syntax_data.entries);
    let entries = &syntax_data.entries;
    proof {
        entries.lemma_view_values();
    }
    let n = entries.len();
    let mut i: usize = 0;
    while i < n
        invariant
            n == entries.keys@.len(),
            entries.wf(),
            entries == &syntax_data.entries,
            en == entries_view(*entries),
            i <= n,
            forall|i: int|
                0 <= i < entries.keys@.len() ==> #[trigger] entries@.contains_key(Name::chars(&entries.keys@[i]))
                    && entries@[Name::chars(&entries.keys@[i])] == entries.vals@[i],
            forall|k: Seq<char>|
                #[trigger] entries@.contains_key(k) ==> Name::chars(&entries.keys@[entries.idx(k)]) == k && 0
                    <= entries.idx(k) < entries.keys@.len(),
            forall|k: Seq<char>, j: int|
                #![trigger en[k], repl_refs(en[k])[j]]
                en.contains_key(k) && entries.idx(k) < i && repl_cond(en[k]) && 0 <= j < repl_refs(en[k]).len()
                    ==> en.contains_key(repl_refs(en[k])[j]),
        decreases n - i,
    {
        let entry = entries.val_at(i);
        let ghost k = Name::chars(&entries.keys@[i as int]);
        proof {
            assert(entries@.contains_key(k));
            entries.lemma_idx(i as int);
        }
        assert(en[k] == ev(*entry));
        if entry_repl_cond(entry) {
            let refs = entry_refs(entry);
            let m = refs.len();
            let mut j: usize = 0;
            while j < m
                invariant
                    m == refs@.len(),
                    strs(refs@) == repl_refs(en[k]),
                    en.contains_key(k),
                    repl_cond(en[k]),
                    entries.wf(),
                    entries == &syntax_data.entries,
                    en == entries_view(*entries),
                    j <= m,
                    forall|jj: int| 0 <= jj < j ==> en.contains_key(#[trigger] repl_refs(en[k])[jj]),
                decreases m - j,
            {
                if !entries.contains_key(refs[j].as_str()) {
                    assert(repl_refs(en[k])[j as int] == refs@[j as int]@);
                    assert(!en.contains_key(repl_refs(en[k])[j as int]));
                    proof {
                        if repl_ok(en) {
                            assert(en.contains_key(repl_refs(en[k])[j as int]));
                        }
                    }
                    return false;
                }
                assert(repl_refs(en[k])[j as int] == refs@[j as int]@);
                j += 1;
            }
        }
        proof {
            assert forall|kk: Seq<char>, jj: int|
                #![trigger en[kk], repl_refs(en[kk])[jj]]
                en.contains_key(kk) && entries.idx(kk) < i + 1 && repl_cond(en[kk]) && 0 <= jj < repl_refs(en[kk]).len()
                    implies en.contains_key(repl_refs(en[kk])[jj]) by {
                if entries.idx(kk) == i {
                    assert(kk == k);
                }
            }
        }
        i += 1;
    }
    true
}

impl SyntaxData {
    /// The entries `parent` stands for, within `fuel` levels, or `None`
    /// when those levels do not reach the bottom.
    fn closure_upto(&self, parent: &str, fuel: usize) -> (r: Option<Vec<String>>)
        requires
            self.wf(),
        ensures
            match r {
                Some(v) => closure_fuel(pe_view(self.parent_entries), parent@, fuel as nat) == Some(strs(v@)),
                None => closure_fuel(pe_view(self.parent_entries), parent@, fuel as nat) is None,
            },
        decreases fuel,
    {
        let ghost pe = pe_view(self.parent_entries);
        match self.parent_entries.get(parent) {
            None => {
                let v: Vec<String> = Vec::new();
                assert(strs(v@) =~= Seq::<Seq<char>>::empty());
                Some(v)
            },
            Some(entries) => {
                if fuel == 0 {
                    return None;
                }
                let ghost es = strs(entries@);
                let f = fuel - 1;
                let mut v: Vec<String> = Vec::new();
                let n = entries.len();
                let mut j: usize = 0;
                proof {
                    assert(es.take(0) =~= Seq::<Seq<char>>::empty());
                    assert(strs(v@) =~= Seq::<Seq<char>>::empty());
                }
                while j < n
                    invariant
                        n == entries@.len(),
                        es == strs(entries@),
                        pe.contains_key(parent@),
                        pe[parent@] == es,
                        fuel > 0,
                        pe == pe_view(self.parent_entries),
                        self.wf(),
                        f == fuel - 1,
                        j <= n,
                        closure_list(pe, es.take(j as int), f as nat) == Some(strs(v@)),
                    decreases n - j,
                {
                    proof {
                        assert(es.take(j + 1).drop_last() =~= es.take(j as int));
                        assert(es.take(j + 1).last() == es[j as int]);
                    }
                    match self.closure_upto(entries[j].as_str(), f) {
                        Some(sub) => {
                            let ghost before = strs(v@);
                            v.push(entries[j].clone());
                            let mut sub = sub;
                            let ghost sv = strs(sub@);
                            v.append(&mut sub);
                            assert(strs(v@) =~= before + seq![es[j as int]] + sv);
                        },
                        None => {
                            proof {
                                assert(entries@[j as int]@ == es[j as int]);
                                if closure_list(pe, es, f as nat) is Some {
                                    crate::process::codegen_syntax::lemma_closure_list_prefix(pe, es, f as nat, j as int);
                                }
                            }
                            return None;
                        },
                    }
                    j += 1;
                }
                assert(es.take(n as int) =~= es);
                Some(v)
            },
        }
    }

    /// Whether no chain of parents comes back to a parent, computed.
    pub fn parents_acyclic_check(&self) -> (r: bool)
        requires
            self.wf(),
        ensures
            r == parents_acyclic(pe_view(self.parent_entries)),
    {
        let ghost pe = pe_view(self.parent_entries);
        let pm = &self.parent_entries;
        proof {
            law_sorted_iteration(*pm);
            pm.key_names().unique_seq_to_set();
            assert(pe.dom() == pm@.dom());
            pm.lemma_view_values();
        }
        let n = pm.len();
        let mut i: usize = 0;
        while i < n
            invariant
                n == pm.keys@.len(),
                pm == &self.parent_entries,
                self.wf(),
                pe == pe_view(self.parent_entries),
                pe.dom().len() == n,
                i <= n,
                forall|j: int| 0 <= j < i ==> closure_ok(pe, #[trigger] Name::chars(&pm.keys@[j])),
            decreases n - i,
        {
            let key = pm.key_at(i);
            if self.closure_upto(key.as_str(), n).is_none() {
                assert(!closure_ok(pe, Name::chars(&pm.keys@[i as int])));
                return false;
            }
            i += 1;
        }
        proof {
            assert forall|k: Seq<char>| #[trigger] closure_ok(pe, k) by {
                if pe.contains_key(k) {
                    let j = pm.idx(k);
                    assert(closure_ok(pe, Name::chars(&pm.keys@[j])));
                }
            }
        }
        true
    }
}

impl<'a, 'd> CodegenSyntax<'a, 'd> {
    /// The grammar of the language as JSON source, or `None` where it
    /// cannot be generated: no start key, or one that does not resolve, a
    /// rule that cannot be collected, a replaced entry that refers to a
    /// missing entry, or parents that loop.
    pub fn try_gen(&self) -> (r: Option<String>)
        requires
            self.data.wf(),
        ensures
            r is Some <==> gen_ok(*self.data),
            r matches Some(s) ==> exists|g: JsObject| #![auto] grammar_is(g, *self.data, syntax_spec(*self.data).0, syntax_spec(*self.data).1)
                && s@ == js_object_src(g, true),
    {
        let start = match self.data.start_key {
            Some(k) => k,
            None => {
                return None;
            },
        };
        if self.data.try_resolve(start).is_none() {
            return None;
        }
        if !data_syntax_check(self.data) {
            return None;
        }
        let mut syntax_data = self.collect_rule_syntax();
        if !repl_check(&syntax_data) {
            return None;
        }
        let replacements = Self::get_replacements(&syntax_data);
        let rk = replace_keys_of(&replacements);
        replace_parents(&mut syntax_data.parent_entries, &rk);
        apply_replacements(&mut syntax_data.entries, replacements);
        patch_patterns(&mut syntax_data.entries, &rk);
        if !syntax_data.parents_acyclic_check() {
            return None;
        }
        let root = self.gen_js_object(syntax_data);
        let s = ToSource::js_object(String::new(), &root);
        assert(s@ =~= js_object_src(root, true));
        Some(s)
    }
}

} // verus!
