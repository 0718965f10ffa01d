//! Whether a generated AST type needs a lifetime parameter: it does when
//! some part reachable from it borrows from the source text.
//!
//! The search walks members, parts, rule types and enum items, and records
//! the structs and enums it has entered so that recursive types end it.
//! Each function states its result, and the visited set it leaves, as the
//! spec function of the same walk; `None` there marks a lookup the walk
//! would fail on.
use vstd::prelude::*;
use crate::strmap::{StrMap, StrSet};
use crate::lang_data::ast::{AstEnum, AstMemberType, AstStruct, AstStructMember, RuleType};
use crate::lang_data::data::{LangData, Resolved, ResolvedType};
use crate::lang_data::typed_part::TypedPart;

verus! {

/// How many of `keys` are not in `vis`.
pub open spec fn unvisited<'a>(keys: Seq<&'a str>, vis: Set<Seq<char>>) -> nat
    decreases keys.len(),
{
    if keys.len() == 0 {
        0
    } else {
        unvisited(keys.drop_last(), vis) + (if vis.contains(keys.last()@) {
            0nat
        } else {
            1nat
        })
    }
}

pub proof fn lemma_unvisited_subset<'a>(keys: Seq<&'a str>, a: Set<Seq<char>>, b: Set<Seq<char>>)
    requires
        a.subset_of(b),
    ensures
        unvisited(keys, b) <= unvisited(keys, a),
    decreases keys.len(),
{
    if keys.len() > 0 {
        lemma_unvisited_subset(keys.drop_last(), a, b);
    }
}

pub proof fn lemma_unvisited_insert<'a>(keys: Seq<&'a str>, vis: Set<Seq<char>>, k: Seq<char>, i: int)
    requires
        0 <= i < keys.len(),
        keys[i]@ == k,
        !vis.contains(k),
    ensures
        unvisited(keys, vis.insert(k)) < unvisited(keys, vis),
    decreases keys.len(),
{
    if i < keys.len() - 1 {
        lemma_unvisited_insert(keys.drop_last(), vis, k, i);
        lemma_unvisited_subset(Seq::empty().push(keys.last()), vis, vis.insert(k));
        assert(Seq::empty().push(keys.last()).drop_last() =~= Seq::<&'a str>::empty());
    } else {
        lemma_unvisited_subset(keys.drop_last(), vis, vis.insert(k));
    }
}

/// Structs and enums not yet visited: what bounds the search.
pub open spec fn measure<'a>(data: &LangData<'a>, vis: Set<Seq<char>>) -> nat {
    unvisited(data.ast_structs.keys@, vis) + unvisited(data.ast_enums.keys@, vis)
}

pub proof fn lemma_measure_subset<'a>(data: &LangData<'a>, a: Set<Seq<char>>, b: Set<Seq<char>>)
    requires
        a.subset_of(b),
    ensures
        measure(data, b) <= measure(data, a),
{
    lemma_unvisited_subset(data.ast_structs.keys@, a, b);
    lemma_unvisited_subset(data.ast_enums.keys@, a, b);
}

pub proof fn lemma_measure_insert<'a>(data: &LangData<'a>, vis: Set<Seq<char>>, k: Seq<char>)
    requires
        data.wf(),
        !vis.contains(k),
        data.ast_structs@.contains_key(k) || data.ast_enums@.contains_key(k),
    ensures
        measure(data, vis.insert(k)) < measure(data, vis),
{
    lemma_unvisited_subset(data.ast_structs.keys@, vis, vis.insert(k));
    lemma_unvisited_subset(data.ast_enums.keys@, vis, vis.insert(k));
    if data.ast_structs@.contains_key(k) {
        data.ast_structs.lemma_view_values();
        lemma_unvisited_insert(data.ast_structs.keys@, vis, k, data.ast_structs.idx(k));
    } else {
        data.ast_enums.lemma_view_values();
        lemma_unvisited_insert(data.ast_enums.keys@, vis, k, data.ast_enums.idx(k));
    }
}

/// Result of a step of the search: whether a lifetime is needed, and the
/// visited set after it; `None` where a lookup would fail.
pub type Visit = Option<(bool, Set<Seq<char>>)>;

pub open spec fn nl_struct<'a>(data: &LangData<'a>, k: Seq<char>, vis: Set<Seq<char>>) -> Visit
    decreases measure(data, vis), 0nat, 0nat,
{
    if vis.contains(k) {
        Some((false, vis))
    } else if !data.wf() || !data.ast_structs@.contains_key(k) {
        None
    } else {
        proof {
            lemma_measure_insert(data, vis, k);
        }
        nl_members(data, data.ast_structs@[k].members, 0, vis.insert(k))
    }
}

pub open spec fn nl_enum<'a>(data: &LangData<'a>, k: Seq<char>, vis: Set<Seq<char>>) -> Visit
    decreases measure(data, vis), 0nat, 0nat,
{
    if vis.contains(k) {
        Some((false, vis))
    } else if !data.wf() || !data.ast_enums@.contains_key(k) {
        None
    } else {
        proof {
            lemma_measure_insert(data, vis, k);
        }
        if data.simple_enums@.contains_key(k) {
            Some((false, vis.insert(k)))
        } else {
            nl_items(data, data.ast_enums@[k].items@, 0, vis.insert(k))
        }
    }
}

/// Members from position `i` on, in key order, stopping at the first that needs a lifetime.
pub open spec fn nl_members<'a>(
    data: &LangData<'a>,
    members: StrMap<&'a str, AstStructMember<'a>>,
    i: int,
    vis: Set<Seq<char>>,
) -> Visit
    decreases measure(data, vis), 5nat, (members.vals@.len() - i) as nat,
{
    if i < 0 || i >= members.vals@.len() {
        Some((false, vis))
    } else {
        match nl_member_type(data, members.vals@[i].tpe, vis) {
            None => None,
            Some((true, v)) => Some((true, v)),
            Some((false, v)) => if measure(data, v) <= measure(data, vis) {
                nl_members(data, members, i + 1, v)
            } else {
                None
            },
        }
    }
}

/// Enum items from position `i` on, stopping at the first that needs a lifetime.
pub open spec fn nl_items<'a>(
    data: &LangData<'a>,
    items: Seq<&'a str>,
    i: int,
    vis: Set<Seq<char>>,
) -> Visit
    decreases measure(data, vis), 5nat, (items.len() - i) as nat,
{
    if i < 0 || i >= items.len() {
        Some((false, vis))
    } else if !data.resolves(items[i]@) {
        None
    } else {
        match nl_resolved(data, data.resolved(items[i]@), vis) {
            None => None,
            Some((true, v)) => Some((true, v)),
            Some((false, v)) => if measure(data, v) <= measure(data, vis) {
                nl_items(data, items, i + 1, v)
            } else {
                None
            },
        }
    }
}

pub open spec fn nl_resolved<'a>(data: &LangData<'a>, r: Resolved, vis: Set<Seq<char>>) -> Visit
    decreases measure(data, vis), 1nat, 0nat,
{
    match r {
        Resolved::Enum(k) => nl_enum(data, k, vis),
        Resolved::Struct(k) => nl_struct(data, k, vis),
    }
}

pub open spec fn nl_rule_type<'a>(data: &LangData<'a>, rt: RuleType<'a>, vis: Set<Seq<char>>) -> Visit
    decreases measure(data, vis), 2nat, 0nat,
{
    if !data.resolves(rt.type_key()@) {
        None
    } else {
        nl_resolved(data, data.resolved(rt.type_key()@), vis)
    }
}

pub open spec fn nl_typed_part<'a>(data: &LangData<'a>, tp: TypedPart<'a>, vis: Set<Seq<char>>) -> Visit
    decreases measure(data, vis), 3nat, 0nat,
{
    match tp {
        TypedPart::AstPart { key } | TypedPart::ListPart { key } => {
            if !data.rule_types@.contains_key(key@) {
                None
            } else {
                nl_rule_type(data, data.rule_types@[key@], vis)
            }
        },
        TypedPart::CharPart { .. } | TypedPart::TagPart { .. } | TypedPart::IntPart { .. } => Some((false, vis)),
        TypedPart::IdentPart { .. } | TypedPart::FnPart { .. } | TypedPart::StringPart { .. }
        | TypedPart::StrPart { .. } | TypedPart::WSPart => Some((true, vis)),
    }
}

pub open spec fn nl_member_type<'a>(
    data: &LangData<'a>,
    t: AstMemberType<'a>,
    vis: Set<Seq<char>>,
) -> Visit
    decreases measure(data, vis), 4nat, 0nat,
{
    match t {
        AstMemberType::KeyedToken(key) => {
            if !data.typed_parts@.contains_key(key@) {
                None
            } else {
                nl_typed_part(data, data.typed_parts@[key@], vis)
            }
        },
        AstMemberType::NotString => Some((true, vis)),
        AstMemberType::TagBool(..) => Some((false, vis)),
    }
}

/// The walk from a struct value: its name is recorded, then its members searched.
pub open spec fn nl_struct_value<'a>(data: &LangData<'a>, s: AstStruct<'a>, vis: Set<Seq<char>>) -> Visit {
    if vis.contains(s.name@) {
        Some((false, vis))
    } else {
        nl_members(data, s.members, 0, vis.insert(s.name@))
    }
}

/// The walk from an enum value: its name is recorded, then its items searched
/// unless the enum is a simple one.
pub open spec fn nl_enum_value<'a>(data: &LangData<'a>, e: AstEnum<'a>, vis: Set<Seq<char>>) -> Visit {
    if vis.contains(e.name@) {
        Some((false, vis))
    } else if data.simple_enums@.contains_key(e.name@) {
        Some((false, vis.insert(e.name@)))
    } else {
        nl_items(data, e.items@, 0, vis.insert(e.name@))
    }
}


/// The walk over the members of a struct, from its first member on.
fn members_need_lifetime<'a>(
    data: &LangData<'a>,
    members: &StrMap<&'a str, AstStructMember<'a>>,
    visited: &mut StrSet<&'a str>,
) -> (r: bool)
    requires
        data.wf(),
        old(visited).wf(),
        nl_members(data, *members, 0, old(visited)@.dom()) is Some,
    ensures
        final(visited).wf(),
        old(visited)@.dom().subset_of(final(visited)@.dom()),
        nl_members(data, *members, 0, old(visited)@.dom()) == Some((r, final(visited)@.dom())),
    decreases measure(data, old(visited)@.dom()), 5nat, 0nat,
{
    let ghost entry = visited@.dom();
    let n = members.vals.len();
    let mut i: usize = 0;
    while i < n
        invariant
            data.wf(),
            n == members.vals@.len(),
            i <= n,
            visited.wf(),
            entry.subset_of(visited@.dom()),
            entry == old(visited)@.dom(),
            nl_members(data, *members, 0, entry) == nl_members(data, *members, i as int, visited@.dom()),
            nl_members(data, *members, i as int, visited@.dom()) is Some,
        decreases n - i,
    {
        proof {
            lemma_measure_subset(data, entry, visited@.dom());
        }
        let ghost vis_i = visited@.dom();
        let r = members.vals[i].tpe.needs_lifetime(data, visited);
        if r {
            return true;
        }
        proof {
            lemma_measure_subset(data, vis_i, visited@.dom());
        }
        i += 1;
    }
    false
}

/// The walk over the items of an enum, from its first item on.
fn items_need_lifetime<'a>(
    data: &LangData<'a>,
    items: &Vec<&'a str>,
    visited: &mut StrSet<&'a str>,
) -> (r: bool)
    requires
        data.wf(),
        old(visited).wf(),
        nl_items(data, items@, 0, old(visited)@.dom()) is Some,
    ensures
        final(visited).wf(),
        old(visited)@.dom().subset_of(final(visited)@.dom()),
        nl_items(data, items@, 0, old(visited)@.dom()) == Some((r, final(visited)@.dom())),
    decreases measure(data, old(visited)@.dom()), 5nat, 0nat,
{
    let ghost entry = visited@.dom();
    let n = items.len();
    let mut i: usize = 0;
    while i < n
        invariant
            data.wf(),
            n == items@.len(),
            i <= n,
            visited.wf(),
            entry.subset_of(visited@.dom()),
            entry == old(visited)@.dom(),
            nl_items(data, items@, 0, entry) == nl_items(data, items@, i as int, visited@.dom()),
            nl_items(data, items@, i as int, visited@.dom()) is Some,
        decreases n - i,
    {
        proof {
            lemma_measure_subset(data, entry, visited@.dom());
        }
        let ghost vis_i = visited@.dom();
        let resolved = data.resolve(items[i]);
        let r = resolved.needs_lifetime(data, visited);
        if r {
            return true;
        }
        proof {
            lemma_measure_subset(data, vis_i, visited@.dom());
        }
        i += 1;
    }
    false
}

/// The walk from the struct stored under `key`.
fn struct_at_needs_lifetime<'a>(data: &LangData<'a>, key: &'a str, visited: &mut StrSet<&'a str>) -> (r: bool)
    requires
        data.wf(),
        old(visited).wf(),
        data.ast_structs@.contains_key(key@),
        nl_struct(data, key@, old(visited)@.dom()) is Some,
    ensures
        final(visited).wf(),
        old(visited)@.dom().subset_of(final(visited)@.dom()),
        nl_struct(data, key@, old(visited)@.dom()) == Some((r, final(visited)@.dom())),
    decreases measure(data, old(visited)@.dom()), 0nat, 0nat,
{
    match data.ast_structs.get(key) {
        Some(ast_struct) => {
            if visited.contains_key(ast_struct.name) {
                return false;
            }
            proof {
                lemma_measure_insert(data, visited@.dom(), key@);
            }
            visited.insert(ast_struct.name, ());
            assert(visited@.dom() =~= old(visited)@.dom().insert(key@));
            members_need_lifetime(data, &ast_struct.members, visited)
        },
        None => {
            assert(false);
            false
        },
    }
}

/// The walk from the enum stored under `key`.
fn enum_at_needs_lifetime<'a>(data: &LangData<'a>, key: &'a str, visited: &mut StrSet<&'a str>) -> (r: bool)
    requires
        data.wf(),
        old(visited).wf(),
        data.ast_enums@.contains_key(key@),
        nl_enum(data, key@, old(visited)@.dom()) is Some,
    ensures
        final(visited).wf(),
        old(visited)@.dom().subset_of(final(visited)@.dom()),
        nl_enum(data, key@, old(visited)@.dom()) == Some((r, final(visited)@.dom())),
    decreases measure(data, old(visited)@.dom()), 0nat, 0nat,
{
    match data.ast_enums.get(key) {
        Some(ast_enum) => {
            if visited.contains_key(ast_enum.name) {
                return false;
            }
            proof {
                lemma_measure_insert(data, visited@.dom(), key@);
            }
            visited.insert(ast_enum.name, ());
            assert(visited@.dom() =~= old(visited)@.dom().insert(key@));
            if data.simple_enums.contains_key(ast_enum.name) {
                false
            } else {
                items_need_lifetime(data, &ast_enum.items, visited)
            }
        },
        None => {
            assert(false);
            false
        },
    }
}

impl<'a> ResolvedType<'a> {
    pub fn needs_lifetime(&self, data: &LangData<'a>, visited: &mut StrSet<&'a str>) -> (r: bool)
        requires
            data.wf(),
            old(visited).wf(),
            nl_resolved(data, self.spec_resolved(), old(visited)@.dom()) is Some,
            match *self {
                ResolvedType::ResolvedEnum(k) => data.ast_enums@.contains_key(k@),
                ResolvedType::ResolvedStruct(k) => data.ast_structs@.contains_key(k@),
            },
        ensures
            final(visited).wf(),
            old(visited)@.dom().subset_of(final(visited)@.dom()),
            nl_resolved(data, self.spec_resolved(), old(visited)@.dom()) == Some(
                (r, final(visited)@.dom()),
            ),
        decreases measure(data, old(visited)@.dom()), 1nat, 0nat,
    {
        match self {
            ResolvedType::ResolvedEnum(key) => enum_at_needs_lifetime(data, key, visited),
            ResolvedType::ResolvedStruct(key) => struct_at_needs_lifetime(data, key, visited),
        }
    }
}

impl<'a> RuleType<'a> {
    pub fn needs_lifetime(&self, data: &LangData<'a>, visited: &mut StrSet<&'a str>) -> (r: bool)
        requires
            data.wf(),
            old(visited).wf(),
            nl_rule_type(data, *self, old(visited)@.dom()) is Some,
        ensures
            final(visited).wf(),
            old(visited)@.dom().subset_of(final(visited)@.dom()),
            nl_rule_type(data, *self, old(visited)@.dom()) == Some((r, final(visited)@.dom())),
        decreases measure(data, old(visited)@.dom()), 2nat, 0nat,
    {
        let type_key = match self {
            RuleType::SingleType(type_key) => type_key,
            RuleType::ManyType(type_key) => type_key,
        };
        let resolved = data.resolve(type_key);
        resolved.needs_lifetime(data, visited)
    }
}

impl<'a> TypedPart<'a> {
    pub fn needs_lifetime(&self, data: &LangData<'a>, visited: &mut StrSet<&'a str>) -> (r: bool)
        requires
            data.wf(),
            old(visited).wf(),
            nl_typed_part(data, *self, old(visited)@.dom()) is Some,
        ensures
            final(visited).wf(),
            old(visited)@.dom().subset_of(final(visited)@.dom()),
            nl_typed_part(data, *self, old(visited)@.dom()) == Some((r, final(visited)@.dom())),
        decreases measure(data, old(visited)@.dom()), 3nat, 0nat,
    {
        match self {
            TypedPart::AstPart { key } | TypedPart::ListPart { key } => {
                match data.rule_types.get(key) {
                    Some(rule_type) => rule_type.needs_lifetime(data, visited),
                    None => {
                        assert(false);
                        false
                    },
                }
            },
            TypedPart::CharPart { .. } => false,
            TypedPart::TagPart { .. } => false,
            TypedPart::IntPart { .. } => false,
            TypedPart::IdentPart { .. } => true,
            // Depends on the function
            TypedPart::FnPart { .. } => true,
            TypedPart::StringPart { .. } => true,
            TypedPart::StrPart { .. } => true,
            TypedPart::WSPart => true,
        }
    }
}

impl<'a> AstMemberType<'a> {
    pub fn needs_lifetime(&self, data: &LangData<'a>, visited: &mut StrSet<&'a str>) -> (r: bool)
        requires
            data.wf(),
            old(visited).wf(),
            nl_member_type(data, *self, old(visited)@.dom()) is Some,
        ensures
            final(visited).wf(),
            old(visited)@.dom().subset_of(final(visited)@.dom()),
            nl_member_type(data, *self, old(visited)@.dom()) == Some((r, final(visited)@.dom())),
        decreases measure(data, old(visited)@.dom()), 4nat, 0nat,
    {
        match self {
            AstMemberType::KeyedToken(key) => {
                match data.typed_parts.get(key) {
                    Some(part) => part.needs_lifetime(data, visited),
                    None => {
                        assert(false);
                        false
                    },
                }
            },
            AstMemberType::NotString => true,
            AstMemberType::TagBool(..) => false,
        }
    }
}

impl<'a> AstStruct<'a> {
    pub fn needs_lifetime(&self, data: &LangData<'a>, visited: &mut StrSet<&'a str>) -> (r: bool)
        requires
            data.wf(),
            old(visited).wf(),
            nl_struct_value(data, *self, old(visited)@.dom()) is Some,
        ensures
            final(visited).wf(),
            old(visited)@.dom().subset_of(final(visited)@.dom()),
            nl_struct_value(data, *self, old(visited)@.dom()) == Some((r, final(visited)@.dom())),
    {
        if visited.contains_key(self.name) {
            false
        } else {
            visited.insert(self.name, ());
            assert(visited@.dom() =~= old(visited)@.dom().insert(self.name@));
            members_need_lifetime(data, &self.members, visited)
        }
    }
}

impl<'a> AstEnum<'a> {
    pub fn needs_lifetime(&self, data: &LangData<'a>, visited: &mut StrSet<&'a str>) -> (r: bool)
        requires
            data.wf(),
            old(visited).wf(),
            nl_enum_value(data, *self, old(visited)@.dom()) is Some,
        ensures
            final(visited).wf(),
            old(visited)@.dom().subset_of(final(visited)@.dom()),
            nl_enum_value(data, *self, old(visited)@.dom()) == Some((r, final(visited)@.dom())),
    {
        if visited.contains_key(self.name) {
            false
        } else {
            visited.insert(self.name, ());
            assert(visited@.dom() =~= old(visited)@.dom().insert(self.name@));
            if data.simple_enums.contains_key(self.name) {
                false
            } else {
                items_need_lifetime(data, &self.items, visited)
            }
        }
    }
}
} // verus!
