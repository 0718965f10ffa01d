//! The parser of the Rust item declarations the generator describes:
//! structs, enums and traits.
//!
//! Each parser reads from a position and gives the node and the position
//! after it. The grammar is stated over the bytes by spec functions that
//! give views of the nodes. Keywords are matched as byte strings, as nom's
//! `tag!` matches them.
use vstd::prelude::*;
use crate::common::parsers::{sp_at, ws_end};
use crate::descr_lang::parsers::{lit, lit_at, sp_ident, sp_ident_at};
use super::ast::{
    EnumItem, GenType, Generic, GenericItem, LifeTime, RsEnum, RsStruct, RsTrait, Source, SourceItem, StructMember,
    Tpe, TpeSpes,
};

verus! {

pub enum GenericItemV {
    Life(Seq<char>),
    Gen(Seq<char>),
}

pub struct TpeSpesV {
    pub tpe: Tpe,
    pub generic_item: Option<GenericItemV>,
}

pub struct MemberV {
    pub public: bool,
    pub ident: Seq<char>,
    pub tpe_spes: TpeSpesV,
}

pub enum RsItemV {
    Struct(bool, Seq<char>, Option<Seq<GenericItemV>>, Seq<MemberV>),
    Enum(bool, Seq<char>, Seq<Seq<char>>),
    Trait(bool, Seq<char>),
}

pub open spec fn generic_item_v(g: GenericItem) -> GenericItemV {
    match g {
        GenericItem::LifeTimeItem(l) => GenericItemV::Life(l.ident@),
        GenericItem::GenTypeItem(t) => GenericItemV::Gen(t.ident@),
    }
}

pub open spec fn generic_items_v(v: Seq<GenericItem>) -> Seq<GenericItemV> {
    v.map_values(|g: GenericItem| generic_item_v(g))
}

pub open spec fn opt_generic_item_v(o: Option<GenericItem>) -> Option<GenericItemV> {
    match o {
        Some(g) => Some(generic_item_v(g)),
        None => None,
    }
}

pub open spec fn member_v(m: StructMember) -> MemberV {
    MemberV {
        public: m.public,
        ident: m.ident@,
        tpe_spes: TpeSpesV { tpe: m.tpe_spes.tpe, generic_item: opt_generic_item_v(m.tpe_spes.generic_item) },
    }
}

pub open spec fn members_v(v: Seq<StructMember>) -> Seq<MemberV> {
    v.map_values(|m: StructMember| member_v(m))
}

pub open spec fn enum_items_v(v: Seq<EnumItem>) -> Seq<Seq<char>> {
    v.map_values(|e: EnumItem| e.ident@)
}

pub open spec fn rs_item_v(s: SourceItem) -> RsItemV {
    match s {
        SourceItem::RsStructItem(st) => RsItemV::Struct(
            st.public,
            st.ident@,
            match st.generic {
                Some(g) => Some(generic_items_v(g.generic_items@)),
                None => None,
            },
            members_v(st.struct_members@),
        ),
        SourceItem::RsEnumItem(e) => RsItemV::Enum(e.public, e.ident@, enum_items_v(e.enum_items@)),
        SourceItem::RsTraitItem(t) => RsItemV::Trait(t.public, t.ident@),
    }
}

pub open spec fn rs_items_v(v: Seq<SourceItem>) -> Seq<RsItemV> {
    v.map_values(|s: SourceItem| rs_item_v(s))
}

/// The bytes `t` after whitespace: the position after them.
pub open spec fn tag(b: Seq<u8>, i: int, t: Seq<u8>) -> Option<int> {
    let j = ws_end(b, i);
    if 0 <= j && j + t.len() <= b.len() && b.subrange(j, j + t.len()) == t {
        Some(j + t.len())
    } else {
        None
    }
}

/// `pub` where it stands: whether it does and the position after it.
pub open spec fn opt_pub(b: Seq<u8>, i: int) -> (bool, int) {
    match tag(b, i, seq![0x70u8, 0x75, 0x62]) {
        Some(j) => (true, j),
        None => (false, i),
    }
}

fn tag_at(input: &[u8], i: usize, t: &Vec<u8>) -> (r: Option<usize>)
    requires
        i <= input@.len(),
        t@.len() > 0,
    ensures
        match r {
            Some(j) => tag(input@, i as int, t@) == Some(j as int) && i < j <= input@.len(),
            None => tag(input@, i as int, t@) is None,
        },
{
    let j = sp_at(input, i);
    if t.len() > input.len() - j {
        return None;
    }
    let end = j + t.len();
    let mut k: usize = 0;
    while k < t.len()
        invariant
            end == j + t@.len(),
            end <= input.len(),
            j == ws_end(input@, i as int),
            j <= input@.len(),
            j + t@.len() <= input@.len(),
            k <= t@.len(),
            forall|m: int| 0 <= m < k ==> input@[j + m] == t@[m],
        decreases t@.len() - k,
    {
        if input[j + k] != t[k] {
            proof {
                assert(input@.subrange(j as int, j + t@.len())[k as int] != t@[k as int]);
            }
            return None;
        }
        k += 1;
    }
    assert(input@.subrange(j as int, j + t@.len()) =~= t@);
    Some(j + t.len())
}

fn opt_pub_at(input: &[u8], i: usize) -> (r: (bool, usize))
    requires
        i <= input@.len(),
    ensures
        (r.0, r.1 as int) == opt_pub(input@, i as int),
        i <= r.1 <= input@.len(),
{
    let t: Vec<u8> = vec![0x70u8, 0x75, 0x62];
    assert(t@ =~= seq![0x70u8, 0x75, 0x62]);
    match tag_at(input, i, &t) {
        Some(j) => (true, j),
        None => (false, i),
    }
}

/// A lifetime `'name`.
pub open spec fn life_time(b: Seq<u8>, i: int) -> Option<(Seq<char>, int)> {
    match tag(b, i, seq![0x27u8]) {
        Some(j) => sp_ident(b, j),
        None => None,
    }
}

/// A lifetime, or a type name, tried in that order.
pub open spec fn generic_item(b: Seq<u8>, i: int) -> Option<(GenericItemV, int)> {
    match life_time(b, i) {
        Some((id, j)) => Some((GenericItemV::Life(id), j)),
        None => match sp_ident(b, i) {
            Some((id, j)) => Some((GenericItemV::Gen(id), j)),
            None => None,
        },
    }
}

pub open spec fn generic_items_rest(b: Seq<u8>, i: int) -> (Seq<GenericItemV>, int)
    decreases b.len() - i,
{
    if 0 <= i < b.len() && b[i] == 0x2C {
        match generic_item(b, i + 1) {
            Some((a, j)) => if i + 1 < j <= b.len() {
                let (r, k) = generic_items_rest(b, j);
                (seq![a] + r, k)
            } else {
                (Seq::empty(), i)
            },
            None => (Seq::empty(), i),
        }
    } else {
        (Seq::empty(), i)
    }
}

/// Generic items separated by `,`.
pub open spec fn generic_items(b: Seq<u8>, i: int) -> (Seq<GenericItemV>, int) {
    match generic_item(b, i) {
        Some((a, j)) => if i < j <= b.len() {
            let (r, k) = generic_items_rest(b, j);
            (seq![a] + r, k)
        } else {
            (Seq::empty(), i)
        },
        None => (Seq::empty(), i),
    }
}

/// Generics: `< items >`.
pub open spec fn generic(b: Seq<u8>, i: int) -> Option<(Seq<GenericItemV>, int)> {
    match tag(b, i, seq![0x3Cu8]) {
        Some(j) => {
            let (items, k) = generic_items(b, ws_end(b, j));
            match tag(b, k, seq![0x3Eu8]) {
                Some(e) => Some((items, e)),
                None => None,
            }
        },
        None => None,
    }
}

/// A type: `u32`, `i32`, `String`, `str` or `bool`, tried in that order.
pub open spec fn tpe(b: Seq<u8>, i: int) -> Option<(Tpe, int)> {
    match tag(b, i, seq![0x75u8, 0x33, 0x32]) {
        Some(j) => Some((Tpe::RsU32, j)),
        None => match tag(b, i, seq![0x69u8, 0x33, 0x32]) {
            Some(j) => Some((Tpe::RsI32, j)),
            None => match tag(b, i, seq![0x53u8, 0x74, 0x72, 0x69, 0x6E, 0x67]) {
                Some(j) => Some((Tpe::RsString, j)),
                None => match tag(b, i, seq![0x73u8, 0x74, 0x72]) {
                    Some(j) => Some((Tpe::RsStr, j)),
                    None => match tag(b, i, seq![0x62u8, 0x6F, 0x6F, 0x6C]) {
                        Some(j) => Some((Tpe::Bool, j)),
                        None => None,
                    },
                },
            },
        },
    }
}

/// A type and a generic item after it, where one follows.
pub open spec fn tpe_spes(b: Seq<u8>, i: int) -> Option<(TpeSpesV, int)> {
    match tpe(b, ws_end(b, i)) {
        Some((t, j)) => match generic_item(b, ws_end(b, j)) {
            Some((g, k)) => Some((TpeSpesV { tpe: t, generic_item: Some(g) }, k)),
            None => Some((TpeSpesV { tpe: t, generic_item: None }, j)),
        },
        None => None,
    }
}

/// A struct member: `pub` where it stands, `name : type`.
pub open spec fn member(b: Seq<u8>, i: int) -> Option<(MemberV, int)> {
    let (p, j) = opt_pub(b, i);
    match sp_ident(b, j) {
        Some((id, k)) => match lit(b, k, 0x3A) {
            Some(m) => match tpe_spes(b, ws_end(b, m)) {
                Some((t, e)) => Some((MemberV { public: p, ident: id, tpe_spes: t }, e)),
                None => None,
            },
            None => None,
        },
        None => None,
    }
}

pub open spec fn members_rest(b: Seq<u8>, i: int) -> (Seq<MemberV>, int)
    decreases b.len() - i,
{
    if 0 <= i < b.len() && b[i] == 0x2C {
        match member(b, i + 1) {
            Some((a, j)) => if i + 1 < j <= b.len() {
                let (r, k) = members_rest(b, j);
                (seq![a] + r, k)
            } else {
                (Seq::empty(), i)
            },
            None => (Seq::empty(), i),
        }
    } else {
        (Seq::empty(), i)
    }
}

/// Struct members separated by `,`.
pub open spec fn struct_members(b: Seq<u8>, i: int) -> (Seq<MemberV>, int) {
    match member(b, i) {
        Some((a, j)) => if i < j <= b.len() {
            let (r, k) = members_rest(b, j);
            (seq![a] + r, k)
        } else {
            (Seq::empty(), i)
        },
        None => (Seq::empty(), i),
    }
}

pub open spec fn enum_items_rest(b: Seq<u8>, i: int) -> (Seq<Seq<char>>, int)
    decreases b.len() - i,
{
    if 0 <= i < b.len() && b[i] == 0x2C {
        match sp_ident(b, i + 1) {
            Some((a, j)) => if i + 1 < j <= b.len() {
                let (r, k) = enum_items_rest(b, j);
                (seq![a] + r, k)
            } else {
                (Seq::empty(), i)
            },
            None => (Seq::empty(), i),
        }
    } else {
        (Seq::empty(), i)
    }
}

/// Enum items: names separated by `,`.
pub open spec fn enum_items(b: Seq<u8>, i: int) -> (Seq<Seq<char>>, int) {
    match sp_ident(b, i) {
        Some((a, j)) => if i < j <= b.len() {
            let (r, k) = enum_items_rest(b, j);
            (seq![a] + r, k)
        } else {
            (Seq::empty(), i)
        },
        None => (Seq::empty(), i),
    }
}

/// `pub enum name { items }`, `pub` where it stands.
pub open spec fn rs_enum(b: Seq<u8>, i: int) -> Option<(RsItemV, int)> {
    let (p, j) = opt_pub(b, i);
    match tag(b, j, seq![0x65u8, 0x6E, 0x75, 0x6D]) {
        Some(k) => match sp_ident(b, k) {
            Some((id, m)) => match lit(b, m, 0x7B) {
                Some(m2) => {
                    let (items, m3) = enum_items(b, ws_end(b, m2));
                    match lit(b, m3, 0x7D) {
                        Some(e) => Some((RsItemV::Enum(p, id, items), e)),
                        None => None,
                    }
                },
                None => None,
            },
            None => None,
        },
        None => None,
    }
}

/// `pub struct name <generics> { members }`, `pub` and the generics where
/// they stand.
pub open spec fn rs_struct(b: Seq<u8>, i: int) -> Option<(RsItemV, int)> {
    let (p, j) = opt_pub(b, i);
    match tag(b, j, seq![0x73u8, 0x74, 0x72, 0x75, 0x63, 0x74]) {
        Some(k) => match sp_ident(b, k) {
            Some((id, m)) => {
                let (g, m1) = match generic(b, ws_end(b, m)) {
                    Some((g, e)) => (Some(g), e),
                    None => (None, m),
                };
                match lit(b, m1, 0x7B) {
                    Some(m2) => {
                        let (ms, m3) = struct_members(b, ws_end(b, m2));
                        match lit(b, m3, 0x7D) {
                            Some(e) => Some((RsItemV::Struct(p, id, g, ms), e)),
                            None => None,
                        }
                    },
                    None => None,
                }
            },
            None => None,
        },
        None => None,
    }
}

/// `pub trait name { }`, `pub` where it stands.
pub open spec fn rs_trait(b: Seq<u8>, i: int) -> Option<(RsItemV, int)> {
    let (p, j) = opt_pub(b, i);
    match tag(b, j, seq![0x74u8, 0x72, 0x61, 0x69, 0x74]) {
        Some(k) => match sp_ident(b, k) {
            Some((id, m)) => match lit(b, m, 0x7B) {
                Some(m2) => match lit(b, m2, 0x7D) {
                    Some(e) => Some((RsItemV::Trait(p, id), e)),
                    None => None,
                },
                None => None,
            },
            None => None,
        },
        None => None,
    }
}

/// A struct, an enum or a trait, tried in that order.
pub open spec fn rs_item(b: Seq<u8>, i: int) -> Option<(RsItemV, int)> {
    if rs_struct(b, i) is Some {
        rs_struct(b, i)
    } else if rs_enum(b, i) is Some {
        rs_enum(b, i)
    } else {
        rs_trait(b, i)
    }
}

/// Items, as many as follow one another.
pub open spec fn rs_items(b: Seq<u8>, i: int) -> (Seq<RsItemV>, int)
    decreases b.len() - i,
{
    if 0 <= i < b.len() {
        match rs_item(b, i) {
            Some((a, j)) => if i < j <= b.len() {
                let (r, k) = rs_items(b, j);
                (seq![a] + r, k)
            } else {
                (Seq::empty(), i)
            },
            None => (Seq::empty(), i),
        }
    } else {
        (Seq::empty(), i)
    }
}

fn life_time_at<'a>(input: &'a [u8], i: usize) -> (r: Option<(&'a str, usize)>)
    requires
        i <= input@.len(),
    ensures
        match r {
            Some((s, j)) => life_time(input@, i as int) == Some((s@, j as int)) && i < j <= input@.len(),
            None => life_time(input@, i as int) is None,
        },
{
    let t: Vec<u8> = vec![0x27u8];
    assert(t@ =~= seq![0x27u8]);
    match tag_at(input, i, &t) {
        Some(j) => sp_ident_at(input, j),
        None => None,
    }
}

pub fn generic_item_at<'a>(input: &'a [u8], i: usize) -> (r: Option<(GenericItem<'a>, usize)>)
    requires
        i <= input@.len(),
    ensures
        match r {
            Some((v, j)) => generic_item(input@, i as int) == Some((generic_item_v(v), j as int)) && i < j
                <= input@.len(),
            None => generic_item(input@, i as int) is None,
        },
{
    if let Some((id, j)) = life_time_at(input, i) {
        return Some((GenericItem::LifeTimeItem(LifeTime { ident: id }), j));
    }
    match sp_ident_at(input, i) {
        Some((id, j)) => Some((GenericItem::GenTypeItem(GenType { ident: id }), j)),
        None => None,
    }
}

pub fn generic_items_at<'a>(input: &'a [u8], i: usize) -> (r: (Vec<GenericItem<'a>>, usize))
    requires
        i <= input@.len(),
    ensures
        (generic_items_v(r.0@), r.1 as int) == generic_items(input@, i as int),
        i <= r.1 <= input@.len(),
{
    let (a, j) = match generic_item_at(input, i) {
        Some(x) => x,
        None => return (Vec::new(), i),
    };
    let mut v: Vec<GenericItem<'a>> = Vec::new();
    v.push(a);
    let mut pos = j;
    proof {
        assert(generic_items_v(v@) =~= seq![generic_item_v(a)]);
    }
    loop
        invariant
            i < pos <= input@.len(),
            generic_items(input@, i as int) == (generic_items_v(v@) + generic_items_rest(input@, pos as int).0,
            generic_items_rest(input@, pos as int).1),
        decreases input@.len() - pos,
    {
        if pos < input.len() && input[pos] == 0x2C {
            match generic_item_at(input, pos + 1) {
                Some((a2, j2)) => {
                    let ghost old_v = generic_items_v(v@);
                    v.push(a2);
                    proof {
                        assert(generic_items_v(v@) =~= old_v.push(generic_item_v(a2)));
                        let r2 = generic_items_rest(input@, j2 as int);
                        assert(old_v + (seq![generic_item_v(a2)] + r2.0) =~= generic_items_v(v@) + r2.0);
                    }
                    pos = j2;
                },
                None => {
                    proof {
                        assert(generic_items_v(v@) + Seq::<GenericItemV>::empty() =~= generic_items_v(v@));
                    }
                    return (v, pos);
                },
            }
        } else {
            proof {
                assert(generic_items_v(v@) + Seq::<GenericItemV>::empty() =~= generic_items_v(v@));
            }
            return (v, pos);
        }
    }
}

pub fn generic_at<'a>(input: &'a [u8], i: usize) -> (r: Option<(Generic<'a>, usize)>)
    requires
        i <= input@.len(),
    ensures
        match r {
            Some((v, j)) => generic(input@, i as int) == Some((generic_items_v(v.generic_items@), j as int)) && i < j
                <= input@.len(),
            None => generic(input@, i as int) is None,
        },
{
    let lt: Vec<u8> = vec![0x3Cu8];
    let gt: Vec<u8> = vec![0x3Eu8];
    assert(lt@ =~= seq![0x3Cu8]);
    assert(gt@ =~= seq![0x3Eu8]);
    let j = match tag_at(input, i, &lt) {
        Some(j) => j,
        None => return None,
    };
    let j0 = sp_at(input, j);
    let (items, k) = generic_items_at(input, j0);
    match tag_at(input, k, &gt) {
        Some(e) => Some((Generic { generic_items: items }, e)),
        None => None,
    }
}

pub fn tpe_at(input: &[u8], i: usize) -> (r: Option<(Tpe, usize)>)
    requires
        i <= input@.len(),
    ensures
        match r {
            Some((t, j)) => tpe(input@, i as int) == Some((t, j as int)) && i < j <= input@.len(),
            None => tpe(input@, i as int) is None,
        },
{
    let t_u32: Vec<u8> = vec![0x75u8, 0x33, 0x32];
    let t_i32: Vec<u8> = vec![0x69u8, 0x33, 0x32];
    let t_string: Vec<u8> = vec![0x53u8, 0x74, 0x72, 0x69, 0x6E, 0x67];
    let t_str: Vec<u8> = vec![0x73u8, 0x74, 0x72];
    let t_bool: Vec<u8> = vec![0x62u8, 0x6F, 0x6F, 0x6C];
    assert(t_u32@ =~= seq![0x75u8, 0x33, 0x32]);
    assert(t_i32@ =~= seq![0x69u8, 0x33, 0x32]);
    assert(t_string@ =~= seq![0x53u8, 0x74, 0x72, 0x69, 0x6E, 0x67]);
    assert(t_str@ =~= seq![0x73u8, 0x74, 0x72]);
    assert(t_bool@ =~= seq![0x62u8, 0x6F, 0x6F, 0x6C]);
    if let Some(j) = tag_at(input, i, &t_u32) {
        return Some((Tpe::RsU32, j));
    }
    if let Some(j) = tag_at(input, i, &t_i32) {
        return Some((Tpe::RsI32, j));
    }
    if let Some(j) = tag_at(input, i, &t_string) {
        return Some((Tpe::RsString, j));
    }
    if let Some(j) = tag_at(input, i, &t_str) {
        return Some((Tpe::RsStr, j));
    }
    if let Some(j) = tag_at(input, i, &t_bool) {
        return Some((Tpe::Bool, j));
    }
    None
}

fn member_at<'a>(input: &'a [u8], i: usize) -> (r: Option<(StructMember<'a>, usize)>)
    requires
        i <= input@.len(),
    ensures
        match r {
            Some((v, j)) => member(input@, i as int) == Some((member_v(v), j as int)) && i < j <= input@.len(),
            None => member(input@, i as int) is None,
        },
{
    let (p, j) = opt_pub_at(input, i);
    let (id, k) = match sp_ident_at(input, j) {
        Some(x) => x,
        None => return None,
    };
    let m = match lit_at(input, k, 0x3A) {
        Some(m) => m,
        None => return None,
    };
    let m0 = sp_at(input, m);
    let m00 = sp_at(input, m0);
    let (t, j2) = match tpe_at(input, m00) {
        Some(x) => x,
        None => return None,
    };
    let j3 = sp_at(input, j2);
    match generic_item_at(input, j3) {
        Some((g, k2)) => Some((StructMember { tpe_spes: TpeSpes { generic_item: Some(g), tpe: t }, ident: id, public: p }, k2)),
        None => Some((StructMember { tpe_spes: TpeSpes { generic_item: None, tpe: t }, ident: id, public: p }, j2)),
    }
}

pub fn struct_members_at<'a>(input: &'a [u8], i: usize) -> (r: (Vec<StructMember<'a>>, usize))
    requires
        i <= input@.len(),
    ensures
        (members_v(r.0@), r.1 as int) == struct_members(input@, i as int),
        i <= r.1 <= input@.len(),
{
    let (a, j) = match member_at(input, i) {
        Some(x) => x,
        None => return (Vec::new(), i),
    };
    let mut v: Vec<StructMember<'a>> = Vec::new();
    v.push(a);
    let mut pos = j;
    proof {
        assert(members_v(v@) =~= seq![member_v(a)]);
    }
    loop
        invariant
            i < pos <= input@.len(),
            struct_members(input@, i as int) == (members_v(v@) + members_rest(input@, pos as int).0, members_rest(
                input@,
                pos as int,
            ).1),
        decreases input@.len() - pos,
    {
        if pos < input.len() && input[pos] == 0x2C {
            match member_at(input, pos + 1) {
                Some((a2, j2)) => {
                    let ghost old_v = members_v(v@);
                    v.push(a2);
                    proof {
                        assert(members_v(v@) =~= old_v.push(member_v(a2)));
                        let r2 = members_rest(input@, j2 as int);
                        assert(old_v + (seq![member_v(a2)] + r2.0) =~= members_v(v@) + r2.0);
                    }
                    pos = j2;
                },
                None => {
                    proof {
                        assert(members_v(v@) + Seq::<MemberV>::empty() =~= members_v(v@));
                    }
                    return (v, pos);
                },
            }
        } else {
            proof {
                assert(members_v(v@) + Seq::<MemberV>::empty() =~= members_v(v@));
            }
            return (v, pos);
        }
    }
}

pub fn enum_items_at<'a>(input: &'a [u8], i: usize) -> (r: (Vec<EnumItem<'a>>, usize))
    requires
        i <= input@.len(),
    ensures
        (enum_items_v(r.0@), r.1 as int) == enum_items(input@, i as int),
        i <= r.1 <= input@.len(),
{
    let (a, j) = match sp_ident_at(input, i) {
        Some(x) => x,
        None => return (Vec::new(), i),
    };
    let mut v: Vec<EnumItem<'a>> = Vec::new();
    v.push(EnumItem { ident: a });
    let mut pos = j;
    proof {
        assert(enum_items_v(v@) =~= seq![a@]);
    }
    loop
        invariant
            i < pos <= input@.len(),
            enum_items(input@, i as int) == (enum_items_v(v@) + enum_items_rest(input@, pos as int).0, enum_items_rest(
                input@,
                pos as int,
            ).1),
        decreases input@.len() - pos,
    {
        if pos < input.len() && input[pos] == 0x2C {
            match sp_ident_at(input, pos + 1) {
                Some((a2, j2)) => {
                    let ghost old_v = enum_items_v(v@);
                    v.push(EnumItem { ident: a2 });
                    proof {
                        assert(enum_items_v(v@) =~= old_v.push(a2@));
                        let r2 = enum_items_rest(input@, j2 as int);
                        assert(old_v + (seq![a2@] + r2.0) =~= enum_items_v(v@) + r2.0);
                    }
                    pos = j2;
                },
                None => {
                    proof {
                        assert(enum_items_v(v@) + Seq::<Seq<char>>::empty() =~= enum_items_v(v@));
                    }
                    return (v, pos);
                },
            }
        } else {
            proof {
                assert(enum_items_v(v@) + Seq::<Seq<char>>::empty() =~= enum_items_v(v@));
            }
            return (v, pos);
        }
    }
}

pub fn rs_enum_at<'a>(input: &'a [u8], i: usize) -> (r: Option<(RsEnum<'a>, usize)>)
    requires
        i <= input@.len(),
    ensures
        match r {
            Some((v, j)) => rs_enum(input@, i as int) == Some((rs_item_v(SourceItem::RsEnumItem(v)), j as int)) && i < j
                <= input@.len(),
            None => rs_enum(input@, i as int) is None,
        },
{
    let kw: Vec<u8> = vec![0x65u8, 0x6E, 0x75, 0x6D];
    assert(kw@ =~= seq![0x65u8, 0x6E, 0x75, 0x6D]);
    let (p, j) = opt_pub_at(input, i);
    let k = match tag_at(input, j, &kw) {
        Some(k) => k,
        None => return None,
    };
    let (id, m) = match sp_ident_at(input, k) {
        Some(x) => x,
        None => return None,
    };
    let m2 = match lit_at(input, m, 0x7B) {
        Some(x) => x,
        None => return None,
    };
    let m20 = sp_at(input, m2);
    let (items, m3) = enum_items_at(input, m20);
    match lit_at(input, m3, 0x7D) {
        Some(e) => Some((RsEnum { enum_items: items, ident: id, public: p }, e)),
        None => None,
    }
}

pub fn rs_struct_at<'a>(input: &'a [u8], i: usize) -> (r: Option<(RsStruct<'a>, usize)>)
    requires
        i <= input@.len(),
    ensures
        match r {
            Some((v, j)) => rs_struct(input@, i as int) == Some((rs_item_v(SourceItem::RsStructItem(v)), j as int)) && i
                < j <= input@.len(),
            None => rs_struct(input@, i as int) is None,
        },
{
    let kw: Vec<u8> = vec![0x73u8, 0x74, 0x72, 0x75, 0x63, 0x74];
    assert(kw@ =~= seq![0x73u8, 0x74, 0x72, 0x75, 0x63, 0x74]);
    let (p, j) = opt_pub_at(input, i);
    let k = match tag_at(input, j, &kw) {
        Some(k) => k,
        None => return None,
    };
    let (id, m) = match sp_ident_at(input, k) {
        Some(x) => x,
        None => return None,
    };
    let m0 = sp_at(input, m);
    let (g, m1) = match generic_at(input, m0) {
        Some((g, e)) => (Some(g), e),
        None => (None, m),
    };
    let m2 = match lit_at(input, m1, 0x7B) {
        Some(x) => x,
        None => return None,
    };
    let m20 = sp_at(input, m2);
    let (ms, m3) = struct_members_at(input, m20);
    match lit_at(input, m3, 0x7D) {
        Some(e) => Some((RsStruct { generic: g, ident: id, public: p, struct_members: ms }, e)),
        None => None,
    }
}

pub fn rs_trait_at<'a>(input: &'a [u8], i: usize) -> (r: Option<(RsTrait<'a>, usize)>)
    requires
        i <= input@.len(),
    ensures
        match r {
            Some((v, j)) => rs_trait(input@, i as int) == Some((rs_item_v(SourceItem::RsTraitItem(v)), j as int)) && i
                < j <= input@.len(),
            None => rs_trait(input@, i as int) is None,
        },
{
    let kw: Vec<u8> = vec![0x74u8, 0x72, 0x61, 0x69, 0x74];
    assert(kw@ =~= seq![0x74u8, 0x72, 0x61, 0x69, 0x74]);
    let (p, j) = opt_pub_at(input, i);
    let k = match tag_at(input, j, &kw) {
        Some(k) => k,
        None => return None,
    };
    let (id, m) = match sp_ident_at(input, k) {
        Some(x) => x,
        None => return None,
    };
    let m2 = match lit_at(input, m, 0x7B) {
        Some(x) => x,
        None => return None,
    };
    match lit_at(input, m2, 0x7D) {
        Some(e) => Some((RsTrait { ident: id, public: p }, e)),
        None => None,
    }
}

pub fn rs_item_at<'a>(input: &'a [u8], i: usize) -> (r: Option<(SourceItem<'a>, usize)>)
    requires
        i <= input@.len(),
    ensures
        match r {
            Some((v, j)) => rs_item(input@, i as int) == Some((rs_item_v(v), j as int)) && i < j <= input@.len(),
            None => rs_item(input@, i as int) is None,
        },
{
    if let Some((n, j)) = rs_struct_at(input, i) {
        return Some((SourceItem::RsStructItem(n), j));
    }
    if let Some((n, j)) = rs_enum_at(input, i) {
        return Some((SourceItem::RsEnumItem(n), j));
    }
    match rs_trait_at(input, i) {
        Some((n, j)) => Some((SourceItem::RsTraitItem(n), j)),
        None => None,
    }
}

/// Parses Rust item declarations: the items and the bytes after the last
/// one. A source may hold no items, so this always gives a source.
pub fn rs_source<'a>(input: &'a [u8]) -> (r: Option<(Source<'a>, &'a [u8])>)
    ensures
        match r {
            Some((s, rest)) => {
                let (items, end) = rs_items(input@, ws_end(input@, 0));
                &&& rs_items_v(s.source_items@) == items
                &&& rest@ == input@.skip(end)
            },
            None => false,
        },
{
    let i0 = sp_at(input, 0);
    let mut v: Vec<SourceItem<'a>> = Vec::new();
    let mut pos = i0;
    proof {
        assert(rs_items_v(v@) + rs_items(input@, i0 as int).0 =~= rs_items(input@, i0 as int).0);
    }
    loop
        invariant
            i0 <= pos <= input@.len(),
            rs_items(input@, i0 as int) == (rs_items_v(v@) + rs_items(input@, pos as int).0, rs_items(
                input@,
                pos as int,
            ).1),
        ensures
            i0 <= pos <= input@.len(),
            rs_items(input@, i0 as int) == (rs_items_v(v@), pos as int),
        decreases input@.len() - pos,
    {
        if pos >= input.len() {
            proof {
                assert(rs_items_v(v@) + Seq::<RsItemV>::empty() =~= rs_items_v(v@));
            }
            break;
        }
        match rs_item_at(input, pos) {
            Some((a, j)) => {
                let ghost old_v = rs_items_v(v@);
                v.push(a);
                proof {
                    assert(rs_items_v(v@) =~= old_v.push(rs_item_v(a)));
                    let r2 = rs_items(input@, j as int);
                    assert(old_v + (seq![rs_item_v(a)] + r2.0) =~= rs_items_v(v@) + r2.0);
                }
                pos = j;
            },
            None => {
                proof {
                    assert(rs_items_v(v@) + Seq::<RsItemV>::empty() =~= rs_items_v(v@));
                }
                break;
            },
        }
    }
    let rest = vstd::slice::slice_subrange(input, pos, input.len());
    proof {
        assert(rest@ =~= input@.skip(pos as int));
    }
    Some((Source { source_items: v }, rest))
}

} // verus!
