//! The AST types that the generated code will declare: structs with their
//! members, enums with their items, and the type each rule produces.
use vstd::prelude::*;
use crate::strmap::{StrMap, StrSet};
use crate::text::cat;
use crate::lang_data::data::{LangData, Resolved, ResolvedType};
use crate::lang_data::lifetimes::{nl_enum_value, nl_member_type, nl_struct_value, nl_struct, nl_enum};
use crate::lang_data::typed_part::{
    lifetime_suffix, part_type_ok, part_type_text, part_visitor_text, TypedPart,
};

verus! {

#[derive(Debug)]
pub struct AstStructMember<'a> {
    pub num_patterns: u32,
    pub name: &'a str,
    pub snake_case: String,
    pub part_key: &'a str,
    pub struct_type: &'a str,
    pub optional: bool,
    pub not: bool,
    pub tpe: AstMemberType<'a>,
    pub boxed: bool,
}

impl<'a> AstStructMember<'a> {
    pub fn new(
        name: &'a str,
        snake_case: String,
        part_key: &'a str,
        struct_type: &'a str,
        optional: bool,
        not: bool,
        tpe: AstMemberType<'a>,
    ) -> (r: AstStructMember<'a>)
        ensures
            r == (AstStructMember {
                num_patterns: 0,
                name,
                snake_case,
                part_key,
                struct_type,
                optional,
                not,
                tpe,
                boxed: false,
            }),
    {
        AstStructMember {
            num_patterns: 0,
            name,
            snake_case,
            part_key,
            struct_type,
            optional,
            not,
            tpe,
            boxed: false,
        }
    }

    pub fn sc(&self) -> (r: &str)
        ensures
            r@ == self.snake_case@,
    {
        self.snake_case.as_str()
    }
}

#[derive(Debug)]
pub enum AstMemberType<'a> {
    KeyedToken(&'a str),
    TagBool(&'a str),
    NotString,
}

/// There is a counter on both structs and struct members. After instances
/// are registered, the counter is used to check which fields are optional.
#[derive(Debug)]
pub struct AstStruct<'a> {
    pub name: &'a str,
    pub snake_case: String,
    pub num_patterns: u32,
    pub members: StrMap<&'a str, AstStructMember<'a>>,
    pub members_ordered: Vec<&'a str>,
}

impl<'a> AstStruct<'a> {
    pub fn new(name: &'a str, snake_case: String) -> (r: AstStruct<'a>)
        ensures
            r.name == name,
            r.snake_case == snake_case,
            r.num_patterns == 0,
            r.members.wf(),
            r.members@ == Map::<Seq<char>, AstStructMember<'a>>::empty(),
            r.members.keys@.len() == 0,
            r.members_ordered@.len() == 0,
    {
        AstStruct { name, snake_case, num_patterns: 0, members: StrMap::new(), members_ordered: Vec::new() }
    }

    pub fn sc(&self) -> (r: &str)
        ensures
            r@ == self.snake_case@,
    {
        self.snake_case.as_str()
    }

    /// A struct without members.
    pub fn is_simple(&self) -> (r: bool)
        requires
            self.members.wf(),
        ensures
            r == (self.members.keys@.len() == 0),
    {
        self.members.len() == 0
    }
}

#[derive(Debug)]
pub struct AstEnum<'a> {
    pub name: &'a str,
    pub snake_case: String,
    pub items: Vec<&'a str>,
    pub boxed_items: StrSet<&'a str>,
}

impl<'a> AstEnum<'a> {
    pub fn new(name: &'a str, snake_case: String) -> (r: AstEnum<'a>)
        ensures
            r.name == name,
            r.snake_case == snake_case,
            r.items@.len() == 0,
            r.boxed_items.wf(),
            r.boxed_items@ == Map::<Seq<char>, ()>::empty(),
    {
        AstEnum { name, snake_case, items: Vec::new(), boxed_items: StrMap::new() }
    }

    pub fn sc(&self) -> (r: &str)
        ensures
            r@ == self.snake_case@,
    {
        self.snake_case.as_str()
    }
}

/// The type a rule produces: a single AST type, or one of several, in
/// which case an enum is generated for the rule.
#[derive(Debug)]
pub enum RuleType<'a> {
    SingleType(&'a str),
    ManyType(&'a str),
}

impl<'a> RuleType<'a> {
    pub open spec fn type_key(self) -> &'a str {
        match self {
            RuleType::SingleType(t) => t,
            RuleType::ManyType(t) => t,
        }
    }
}


/// The lookups the type text of a member makes succeed.
pub open spec fn member_type_ok<'a>(data: &LangData<'a>, t: AstMemberType<'a>) -> bool {
    match t {
        AstMemberType::KeyedToken(key) => data.typed_parts@.contains_key(key@) && part_type_ok(
            data,
            data.typed_parts@[key@],
        ),
        _ => true,
    }
}

/// The Rust type a member is stored as, before any `Option` or `Box`.
pub open spec fn member_type_text<'a>(data: &LangData<'a>, t: AstMemberType<'a>) -> Seq<char> {
    match t {
        AstMemberType::KeyedToken(key) => part_type_text(data, data.typed_parts@[key@]),
        AstMemberType::NotString => "&'a str"@,
        AstMemberType::TagBool(..) => "bool"@,
    }
}

/// Whether a member is wrapped in `Option`.
pub open spec fn member_is_option<'a>(
    data: &LangData<'a>,
    t: AstMemberType<'a>,
    member: AstStructMember<'a>,
) -> bool {
    match t {
        AstMemberType::KeyedToken(key) => member.optional && !(data.typed_parts@[key@] is CharPart
            || data.typed_parts@[key@] is TagPart),
        _ => false,
    }
}

/// Whether a struct needs a lifetime, searching from nothing visited.
pub open spec fn struct_needs_lifetime<'a>(data: &LangData<'a>, s: AstStruct<'a>) -> bool {
    nl_struct_value(data, s, Set::empty()).unwrap().0
}

/// Whether an enum needs a lifetime, searching from nothing visited.
pub open spec fn enum_needs_lifetime<'a>(data: &LangData<'a>, e: AstEnum<'a>) -> bool {
    nl_enum_value(data, e, Set::empty()).unwrap().0
}

/// Whether an enum is simple: marked so, or made only of simple items,
/// looking through nested enums at most `fuel` deep; `None` where the look
/// would not end or a lookup would fail.
pub open spec fn enum_simple<'a>(data: &LangData<'a>, e: AstEnum<'a>, fuel: nat) -> Option<bool>
    decreases fuel, 2nat, 0nat,
{
    if data.simple_enums@.contains_key(e.name@) {
        Some(true)
    } else {
        items_simple(data, e.items@, 0, fuel)
    }
}

/// Whether the items from position `i` on are all simple.
pub open spec fn items_simple<'a>(data: &LangData<'a>, items: Seq<&'a str>, i: int, fuel: nat) -> Option<bool>
    decreases fuel, 1nat, (items.len() - i) as nat,
{
    if i < 0 || i >= items.len() {
        Some(true)
    } else if !data.resolves(items[i]@) {
        None
    } else {
        match resolved_simple(data, data.resolved(items[i]@), fuel) {
            None => None,
            Some(false) => Some(false),
            Some(true) => items_simple(data, items, i + 1, fuel),
        }
    }
}

pub open spec fn resolved_simple<'a>(data: &LangData<'a>, r: Resolved, fuel: nat) -> Option<bool>
    decreases fuel, 0nat, 0nat,
{
    match r {
        Resolved::Struct(k) => if data.ast_structs@.contains_key(k) {
            Some(data.ast_structs@[k].members.keys@.len() == 0)
        } else {
            None
        },
        Resolved::Enum(k) => if fuel == 0 || !data.ast_enums@.contains_key(k) {
            None
        } else {
            enum_simple(data, data.ast_enums@[k], (fuel - 1) as nat)
        },
    }
}

/// A depth that suffices for every look that ends: a deeper one enters
/// some enum twice on the way down and would repeat forever.
pub open spec fn simple_fuel<'a>(data: &LangData<'a>) -> nat {
    data.ast_enums.keys@.len() + 1
}

impl<'a> AstStructMember<'a> {
    pub fn gen_visitor(&self, s: String, ast_struct: &AstStruct<'a>, data: &LangData<'a>) -> (r: String)
        requires
            data.wf(),
            self.tpe matches AstMemberType::KeyedToken(k) ==> data.typed_parts@.contains_key(k@)
                && match data.typed_parts@[k@] {
                TypedPart::AstPart { key } => data.has_sc(key@),
                TypedPart::ListPart { key } => data.rule_types@.contains_key(key@) && data.has_sc(
                    data.rule_types@[key@].type_key()@,
                ),
                _ => true,
            },
        ensures
            r@ == s@ + match self.tpe {
                AstMemberType::KeyedToken(k) => part_visitor_text(
                    data,
                    data.typed_parts@[k@],
                    self.snake_case@,
                    self.optional,
                ),
                _ => Seq::empty(),
            },
    {
        match self.tpe {
            AstMemberType::KeyedToken(part_key) => {
                match data.typed_parts.get(part_key) {
                    Some(typed_part) => typed_part.gen_visitor(s, self, ast_struct, data),
                    None => {
                        assert(false);
                        s
                    },
                }
            },
            _ => {
                assert(s@ =~= s@ + Seq::<char>::empty());
                s
            },
        }
    }
}

impl<'a> AstMemberType<'a> {
    // Not sure if it makes sense with option + not
    pub fn is_option(&self, member: &AstStructMember<'a>, data: &LangData<'a>) -> (r: bool)
        requires
            data.wf(),
            self matches AstMemberType::KeyedToken(k) ==> data.typed_parts@.contains_key(k@),
        ensures
            r == member_is_option(data, *self, *member),
    {
        match self {
            AstMemberType::KeyedToken(key) => {
                match data.typed_parts.get(key) {
                    Some(part) => part.is_option(member),
                    None => {
                        assert(false);
                        false
                    },
                }
            },
            AstMemberType::NotString => false,
            AstMemberType::TagBool(..) => false,
        }
    }

    pub fn add_type(&self, s: String, data: &LangData<'a>) -> (r: String)
        requires
            data.wf(),
            member_type_ok(data, *self),
        ensures
            r@ == s@ + member_type_text(data, *self),
    {
        match self {
            AstMemberType::KeyedToken(key) => {
                match data.typed_parts.get(key) {
                    Some(part) => part.add_type(s, data),
                    None => {
                        assert(false);
                        s
                    },
                }
            },
            AstMemberType::NotString => cat(s, "&'a str"),
            AstMemberType::TagBool(..) => cat(s, "bool"),
        }
    }
}

impl<'a> AstStruct<'a> {
    /// The struct's name, with a lifetime parameter when it needs one.
    pub fn add_type(&self, s: String, data: &LangData<'a>) -> (r: String)
        requires
            data.wf(),
            nl_struct_value(data, *self, Set::empty()) is Some,
        ensures
            r@ == s@ + self.name@ + lifetime_suffix(struct_needs_lifetime(data, *self)),
    {
        let ghost s0 = s@;
        let mut s = cat(s, self.name);
        let mut visited = StrMap::new();
        assert(visited@.dom() =~= Set::<Seq<char>>::empty());
        if self.needs_lifetime(data, &mut visited) {
            s = cat(s, "<'a>");
        }
        assert(s@ =~= s0 + self.name@ + lifetime_suffix(struct_needs_lifetime(data, *self)));
        s
    }
}

impl<'a> AstEnum<'a> {
    /// The enum's name, with a lifetime parameter when it needs one.
    pub fn add_type(&self, s: String, data: &LangData<'a>) -> (r: String)
        requires
            data.wf(),
            nl_enum_value(data, *self, Set::empty()) is Some,
        ensures
            r@ == s@ + self.name@ + lifetime_suffix(enum_needs_lifetime(data, *self)),
    {
        let ghost s0 = s@;
        let mut s = cat(s, self.name);
        let mut visited = StrMap::new();
        assert(visited@.dom() =~= Set::<Seq<char>>::empty());
        if self.needs_lifetime(data, &mut visited) {
            s = cat(s, "<'a>");
        }
        assert(s@ =~= s0 + self.name@ + lifetime_suffix(enum_needs_lifetime(data, *self)));
        s
    }

    pub fn is_simple(&self, data: &LangData<'a>) -> (r: bool)
        requires
            data.wf(),
            enum_simple(data, *self, simple_fuel(data)) is Some,
        ensures
            r == enum_simple(data, *self, simple_fuel(data)).unwrap(),
    {
        enum_is_simple(self, data, Ghost(simple_fuel(data)))
    }
}

fn enum_is_simple<'a>(e: &AstEnum<'a>, data: &LangData<'a>, Ghost(fuel): Ghost<nat>) -> (r: bool)
    requires
        data.wf(),
        enum_simple(data, *e, fuel) is Some,
    ensures
        r == enum_simple(data, *e, fuel).unwrap(),
    decreases fuel, 2nat, 0nat,
{
    if data.simple_enums.contains_key(e.name) {
        true
    } else {
        assert(enum_simple(data, *e, fuel) == items_simple(data, e.items@, 0, fuel));
        let n = e.items.len();
        let mut i: usize = 0;
        while i < n
            invariant
                data.wf(),
                n == e.items@.len(),
                i <= n,
                items_simple(data, e.items@, 0, fuel) == items_simple(data, e.items@, i as int, fuel),
                items_simple(data, e.items@, i as int, fuel) is Some,
                enum_simple(data, *e, fuel) == items_simple(data, e.items@, 0, fuel),
            decreases n - i,
        {
            let resolved = data.resolve(e.items[i]);
            assert(resolved.spec_resolved() == data.resolved(e.items@[i as int]@));
            if !resolved_is_simple(&resolved, data, Ghost(fuel)) {
                assert(items_simple(data, e.items@, i as int, fuel) == Some(false));
                return false;
            }
            i += 1;
        }
        true
    }
}

fn resolved_is_simple<'a>(r: &ResolvedType<'a>, data: &LangData<'a>, Ghost(fuel): Ghost<nat>) -> (b: bool)
    requires
        data.wf(),
        resolved_simple(data, r.spec_resolved(), fuel) is Some,
    ensures
        b == resolved_simple(data, r.spec_resolved(), fuel).unwrap(),
    decreases fuel, 0nat, 0nat,
{
    match r {
        ResolvedType::ResolvedEnum(key) => {
            match data.ast_enums.get(key) {
                Some(e) => enum_is_simple(e, data, Ghost((fuel - 1) as nat)),
                None => {
                    assert(false);
                    false
                },
            }
        },
        ResolvedType::ResolvedStruct(key) => {
            match data.ast_structs.get(key) {
                Some(s) => s.is_simple(),
                None => {
                    assert(false);
                    false
                },
            }
        },
    }
}

impl<'a> ResolvedType<'a> {
    pub fn is_simple(&self, data: &LangData<'a>) -> (r: bool)
        requires
            data.wf(),
            resolved_simple(data, self.spec_resolved(), simple_fuel(data)) is Some,
        ensures
            r == resolved_simple(data, self.spec_resolved(), simple_fuel(data)).unwrap(),
    {
        resolved_is_simple(self, data, Ghost(simple_fuel(data)))
    }
}

impl<'a> LangData<'a> {
    /// The type text of the struct or enum that `key` resolves to.
    pub fn add_ast_type(&self, s: String, key: &'a str) -> (r: String)
        requires
            self.wf(),
            self.resolves(key@),
            match self.resolved(key@) {
                Resolved::Enum(k) => nl_enum_value(self, self.ast_enums@[k], Set::empty()) is Some,
                Resolved::Struct(k) => nl_struct_value(self, self.ast_structs@[k], Set::empty()) is Some,
            },
        ensures
            r@ == s@ + self.resolved(key@).name() + lifetime_suffix(
                match self.resolved(key@) {
                    Resolved::Enum(k) => enum_needs_lifetime(self, self.ast_enums@[k]),
                    Resolved::Struct(k) => struct_needs_lifetime(self, self.ast_structs@[k]),
                },
            ),
    {
        match self.resolve(key) {
            ResolvedType::ResolvedEnum(rkey) => match self.ast_enums.get(rkey) {
                Some(e) => e.add_type(s, self),
                None => {
                    assert(false);
                    s
                },
            },
            ResolvedType::ResolvedStruct(rkey) => match self.ast_structs.get(rkey) {
                Some(st) => st.add_type(s, self),
                None => {
                    assert(false);
                    s
                },
            },
        }
    }
}
} // verus!
