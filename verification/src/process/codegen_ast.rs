//! Generates the Rust source of the AST types: a struct for each AST
//! struct with a constructor and conversions into the enums it is an item
//! of, and an enum for each AST enum with a constructor per struct item.
use vstd::prelude::*;
use crate::text::{cat, concat_map, lemma_concat_map_step, sep_upto};
use crate::strmap::Name;
use crate::lang_data::ast::{
    enum_needs_lifetime, member_is_option, member_type_ok, member_type_text, struct_needs_lifetime,
    AstEnum, AstStruct, AstStructMember, AstMemberType,
};
use crate::lang_data::data::{snake, LangData, ParentRef, Resolved, ResolvedType};
use crate::lang_data::lifetimes::{nl_enum_value, nl_struct_value};
use crate::lang_data::typed_part::lifetime_suffix;
use crate::lang_data::rule_parser::opt_text;

verus! {

pub struct CodegenAst<'a, 'd> {
    pub data: &'a LangData<'d>,
}

/// The declaration of a struct member.
pub open spec fn member_decl<'a>(data: &LangData<'a>, m: AstStructMember<'a>) -> Seq<char> {
    let opt = member_is_option(data, m.tpe, m);
    "    "@ + "pub "@ + m.snake_case@ + ": "@ + opt_text(opt, "Option<"@) + opt_text(m.boxed, "Box<"@)
        + member_type_text(data, m.tpe) + opt_text(m.boxed, ">"@) + opt_text(opt, ">"@) + ",\n"@
}

/// The members of a struct in the order the rules first named them.
pub open spec fn ordered_members<'a>(st: AstStruct<'a>) -> Seq<AstStructMember<'a>> {
    st.members_ordered@.map_values(|k: &'a str| st.members@[k@])
}

pub open spec fn member_param<'a>(data: &LangData<'a>, m: AstStructMember<'a>) -> Seq<char> {
    m.snake_case@ + ": "@ + member_type_text(data, m.tpe)
}

/// The parameters of a struct's constructor.
pub open spec fn ctor_params<'a>(data: &LangData<'a>, st: AstStruct<'a>) -> Seq<char> {
    sep_upto(
        ordered_members(st).map_values(|m: AstStructMember<'a>| member_param(data, m)),
        ", "@,
        Seq::empty(),
        st.members.len_spec() as int,
        st.members_ordered@.len() as int,
    )
}

pub open spec fn member_field<'a>(m: AstStructMember<'a>) -> Seq<char> {
    if m.boxed {
        "            "@ + m.snake_case@ + ": Box::new("@ + m.snake_case@ + ")\n"@
    } else {
        "            "@ + m.snake_case@
    }
}

/// The fields a struct's constructor sets.
pub open spec fn ctor_fields<'a>(st: AstStruct<'a>) -> Seq<char> {
    sep_upto(
        ordered_members(st).map_values(|m: AstStructMember<'a>| member_field(m)),
        ",\n"@,
        "\n"@,
        st.members.len_spec() as int,
        st.members_ordered@.len() as int,
    )
}

/// The arguments a struct's constructor is called with.
pub open spec fn ctor_args<'a>(st: AstStruct<'a>) -> Seq<char> {
    sep_upto(
        ordered_members(st).map_values(|m: AstStructMember<'a>| m.snake_case@),
        ", "@,
        Seq::empty(),
        st.members.len_spec() as int,
        st.members_ordered@.len() as int,
    )
}

pub open spec fn enum_type<'a>(data: &LangData<'a>, e: AstEnum<'a>) -> Seq<char> {
    e.name@ + lifetime_suffix(enum_needs_lifetime(data, e))
}

pub open spec fn struct_type<'a>(data: &LangData<'a>, st: AstStruct<'a>) -> Seq<char> {
    st.name@ + lifetime_suffix(struct_needs_lifetime(data, st))
}

/// The conversion of a struct into an enum it is an item of.
pub open spec fn as_method<'a>(data: &LangData<'a>, r: ParentRef<'a>, struct_lifetime: bool) -> Seq<char> {
    match r {
        ParentRef::EnumItem { enum_name, item_name } => {
            let e = data.ast_enums@[enum_name@];
            let boxed = e.boxed_items@.contains_key(item_name@);
            "\n"@ + "    "@ + "pub fn as_"@ + e.snake_case@ + opt_text(
                enum_needs_lifetime(data, e) && !struct_lifetime,
                "<'a>"@,
            ) + "(self) -> "@ + enum_type(data, e) + " {\n"@ + "        "@ + enum_name@ + "::"@
                + item_name@ + "Item("@ + opt_text(boxed, "Box::new("@) + "self"@ + opt_text(boxed, ")"@)
                + ")\n"@ + "    "@ + "}\n"@
        },
        ParentRef::StructMember { .. } => Seq::empty(),
    }
}

/// The places that refer to a struct.
pub open spec fn struct_refs<'a>(data: &LangData<'a>, st: AstStruct<'a>) -> Seq<ParentRef<'a>> {
    if data.parent_refs.refs@.contains_key(st.name@) {
        data.parent_refs.refs@[st.name@]@
    } else {
        Seq::empty()
    }
}

/// The declaration of a struct with its members.
pub open spec fn struct_decl<'a>(data: &LangData<'a>, st: AstStruct<'a>) -> Seq<char> {
    "#[derive(Debug)]\n"@ + "pub struct "@ + struct_type(data, st) + " {\n"@ + concat_map(
        st.members.vals@,
        |m: AstStructMember<'a>| member_decl(data, m),
    ) + "}\n\n"@
}

/// The head of an impl block for a type.
pub open spec fn impl_head(lifetime: bool, ty: Seq<char>, open: Seq<char>) -> Seq<char> {
    "impl"@ + opt_text(lifetime, "<'a>"@) + " "@ + ty + open
}

/// A struct's constructor.
pub open spec fn struct_ctor<'a>(data: &LangData<'a>, st: AstStruct<'a>) -> Seq<char> {
    "    pub fn new("@ + ctor_params(data, st) + ") -> "@ + struct_type(data, st) + " {\n"@ + "        "@
        + st.name@ + " {\n"@ + ctor_fields(st) + "        "@ + "}\n    }\n"@
}

pub open spec fn as_methods<'a>(data: &LangData<'a>, st: AstStruct<'a>) -> Seq<char> {
    concat_map(
        struct_refs(data, st),
        |r: ParentRef<'a>| as_method(data, r, struct_needs_lifetime(data, st)),
    )
}

/// The source of a struct that is not simple: its declaration, and its
/// impl with the constructor and the conversions into enums.
pub open spec fn struct_block<'a>(data: &LangData<'a>, st: AstStruct<'a>) -> Seq<char> {
    if data.simple_structs@.contains_key(st.name@) {
        Seq::empty()
    } else {
        struct_decl(data, st) + impl_head(struct_needs_lifetime(data, st), struct_type(data, st), " {\n"@)
            + struct_ctor(data, st) + as_methods(data, st) + "}\n\n"@
    }
}

/// The type text of the struct or enum a key resolves to.
pub open spec fn ast_type_text<'a>(data: &LangData<'a>, key: &'a str) -> Seq<char> {
    data.resolved(key@).name() + lifetime_suffix(
        match data.resolved(key@) {
            Resolved::Enum(k) => enum_needs_lifetime(data, data.ast_enums@[k]),
            Resolved::Struct(k) => struct_needs_lifetime(data, data.ast_structs@[k]),
        },
    )
}

pub open spec fn enum_item_decl<'a>(data: &LangData<'a>, e: AstEnum<'a>, item: &'a str, simple: bool) -> Seq<char> {
    if simple {
        "    "@ + item@ + ",\n"@
    } else {
        let boxed = e.boxed_items@.contains_key(item@);
        "    "@ + item@ + "Item("@ + opt_text(boxed, "Box<"@) + ast_type_text(data, item) + opt_text(
            boxed,
            ">"@,
        ) + "),\n"@
    }
}

/// The signature of the constructor of an enum item that is a struct.
pub open spec fn item_ctor_sig<'a>(data: &LangData<'a>, e: AstEnum<'a>, item: &'a str, st: AstStruct<'a>) -> Seq<char> {
    "\n"@ + "    "@ + "pub fn "@ + snake(item@) + "("@ + ctor_params(data, st) + ") -> "@ + enum_type(data, e)
        + " {\n"@
}

/// The body of the constructor of an enum item that is a struct.
pub open spec fn item_ctor_body<'a>(e: AstEnum<'a>, item: &'a str, st: AstStruct<'a>) -> Seq<char> {
    let boxed = e.boxed_items@.contains_key(item@);
    "        "@ + e.name@ + "::"@ + item@ + "Item("@ + opt_text(boxed, "Box::new("@) + item@ + "::new("@
        + ctor_args(st) + "))"@ + opt_text(boxed, ")"@) + "\n    }\n"@
}

/// The constructor of an enum item that is a struct.
pub open spec fn enum_item_ctor<'a>(data: &LangData<'a>, e: AstEnum<'a>, item: &'a str) -> Seq<char> {
    match data.resolved(item@) {
        Resolved::Struct(k) => item_ctor_sig(data, e, item, data.ast_structs@[k]) + item_ctor_body(
            e,
            item,
            data.ast_structs@[k],
        ),
        Resolved::Enum(..) => Seq::empty(),
    }
}

pub open spec fn enum_decl<'a>(data: &LangData<'a>, e: AstEnum<'a>) -> Seq<char> {
    let simple = data.simple_enums@.contains_key(e.name@);
    "#[derive(Debug)]\n"@ + "pub enum "@ + enum_type(data, e) + " {\n"@ + concat_map(
        e.items@,
        |item: &'a str| enum_item_decl(data, e, item, simple),
    ) + "}\n\n"@
}

pub open spec fn enum_impl<'a>(data: &LangData<'a>, e: AstEnum<'a>) -> Seq<char> {
    impl_head(enum_needs_lifetime(data, e), enum_type(data, e), " {"@) + concat_map(
        e.items@,
        |item: &'a str| enum_item_ctor(data, e, item),
    ) + "}\n\n"@
}

/// The source of an enum, with an impl of item constructors unless it is simple.
pub open spec fn enum_block<'a>(data: &LangData<'a>, e: AstEnum<'a>) -> Seq<char> {
    enum_decl(data, e) + opt_text(!data.simple_enums@.contains_key(e.name@), enum_impl(data, e))
}

/// The source of all AST types: the structs, then the enums, each by name.
pub open spec fn ast_source<'a>(data: &LangData<'a>) -> Seq<char> {
    concat_map(data.ast_structs.vals@, |st: AstStruct<'a>| struct_block(data, st)) + concat_map(
        data.ast_enums.vals@,
        |e: AstEnum<'a>| enum_block(data, e),
    )
}

/// The members a struct's constructor names are members of it, and their
/// types can be written.
pub open spec fn ctor_ok<'a>(data: &LangData<'a>, st: AstStruct<'a>) -> bool {
    &&& forall|j: int|
        0 <= j < st.members_ordered@.len() ==> #[trigger] st.members@.contains_key(
            st.members_ordered@[j]@,
        )
    &&& forall|k: Seq<char>| #[trigger]
        st.members@.contains_key(k) ==> member_type_ok(data, st.members@[k].tpe)
}

pub open spec fn struct_gen_ok<'a>(data: &LangData<'a>, st: AstStruct<'a>) -> bool {
    !data.simple_structs@.contains_key(st.name@) ==> {
        &&& nl_struct_value(data, st, Set::empty()) is Some
        &&& ctor_ok(data, st)
        &&& forall|i: int|
            0 <= i < st.members.vals@.len() ==> member_type_ok(data, #[trigger] st.members.vals@[i].tpe)
        &&& forall|i: int|
            0 <= i < struct_refs(data, st).len() ==> (#[trigger] struct_refs(data, st)[i] matches ParentRef::EnumItem {
                enum_name,
                ..
            } ==> data.ast_enums@.contains_key(enum_name@) && nl_enum_value(
                data,
                data.ast_enums@[enum_name@],
                Set::empty(),
            ) is Some)
    }
}

pub open spec fn item_gen_ok<'a>(data: &LangData<'a>, item: &'a str) -> bool {
    &&& data.resolves(item@)
    &&& match data.resolved(item@) {
        Resolved::Enum(k) => nl_enum_value(data, data.ast_enums@[k], Set::empty()) is Some,
        Resolved::Struct(k) => nl_struct_value(data, data.ast_structs@[k], Set::empty()) is Some
            && data.has_sc(item@) && ctor_ok(data, data.ast_structs@[k]),
    }
}

pub open spec fn enum_gen_ok<'a>(data: &LangData<'a>, e: AstEnum<'a>) -> bool {
    &&& nl_enum_value(data, e, Set::empty()) is Some
    &&& !data.simple_enums@.contains_key(e.name@) ==> forall|i: int|
        0 <= i < e.items@.len() ==> item_gen_ok(data, #[trigger] e.items@[i])
}

/// The lookups generating the AST source makes succeed.
pub open spec fn ast_gen_ok<'a>(data: &LangData<'a>) -> bool {
    &&& data.wf()
    &&& forall|i: int|
        0 <= i < data.ast_structs.vals@.len() ==> struct_gen_ok(data, #[trigger] data.ast_structs.vals@[i])
    &&& forall|i: int|
        0 <= i < data.ast_enums.vals@.len() ==> enum_gen_ok(data, #[trigger] data.ast_enums.vals@[i])
}

fn gen_member_decl<'a>(s: String, m: &AstStructMember<'a>, data: &LangData<'a>) -> (r: String)
    requires
        data.wf(),
        member_type_ok(data, m.tpe),
    ensures
        r@ == s@ + member_decl(data, *m),
{
    let ghost s0 = s@;
    let mut s = cat(s, "    ");
    s = cat(s, "pub ");
    s = cat(s, m.sc());
    s = cat(s, ": ");
    let is_option = m.tpe.is_option(m, data);
    if is_option {
        s = cat(s, "Option<");
    }
    if m.boxed {
        s = cat(s, "Box<");
    }
    s = m.tpe.add_type(s, data);
    if m.boxed {
        s = cat(s, ">");
    }
    if is_option {
        s = cat(s, ">");
    }
    s = cat(s, ",\n");
    assert(s@ =~= s0 + member_decl(data, *m));
    s
}

/// Looks up the member at position `i` of the constructor order.
fn ordered_member<'b, 'a>(st: &'b AstStruct<'a>, i: usize) -> (m: &'b AstStructMember<'a>)
    requires
        st.members.wf(),
        i < st.members_ordered@.len(),
        st.members@.contains_key(st.members_ordered@[i as int]@),
    ensures
        *m == ordered_members(*st)[i as int],
{
    match st.members.get(st.members_ordered[i]) {
        Some(m) => m,
        None => {
            assert(false);
            st.members.val_at(0)
        },
    }
}

fn gen_ctor_params<'a>(s: String, st: &AstStruct<'a>, data: &LangData<'a>) -> (r: String)
    requires
        data.wf(),
        st.members.wf(),
        ctor_ok(data, *st),
    ensures
        r@ == s@ + ctor_params(data, *st),
{
    let ghost s0 = s@;
    let ghost parts = ordered_members(*st).map_values(|m: AstStructMember<'a>| member_param(data, m));
    let mut s = s;
    let num_members = st.members.len();
    let n = st.members_ordered.len();
    let mut i: usize = 0;
    while i < n
        invariant
            n == st.members_ordered@.len(),
            num_members == st.members.len_spec(),
            i <= n,
            data.wf(),
            st.members.wf(),
            ctor_ok(data, *st),
            parts == ordered_members(*st).map_values(|m: AstStructMember<'a>| member_param(data, m)),
            s@ == s0 + sep_upto(parts, ", "@, Seq::empty(), num_members as int, i as int),
        decreases n - i,
    {
        let member = ordered_member(st, i);
        assert(st.members@.contains_key(st.members_ordered@[i as int]@));
        assert(*member == st.members@[st.members_ordered@[i as int]@]);
        s = cat(s, member.sc());
        s = cat(s, ": ");
        s = member.tpe.add_type(s, data);
        if i + 1 < num_members {
            s = cat(s, ", ");
        }
        i += 1;
    }
    s
}

fn gen_ctor_fields<'a>(s: String, st: &AstStruct<'a>) -> (r: String)
    requires
        st.members.wf(),
        forall|j: int|
            0 <= j < st.members_ordered@.len() ==> #[trigger] st.members@.contains_key(
                st.members_ordered@[j]@,
            ),
    ensures
        r@ == s@ + ctor_fields(*st),
{
    let ghost s0 = s@;
    let ghost parts = ordered_members(*st).map_values(|m: AstStructMember<'a>| member_field(m));
    let mut s = s;
    let num_members = st.members.len();
    let n = st.members_ordered.len();
    let mut i: usize = 0;
    while i < n
        invariant
            n == st.members_ordered@.len(),
            num_members == st.members.len_spec(),
            i <= n,
            st.members.wf(),
            forall|j: int|
                0 <= j < st.members_ordered@.len() ==> #[trigger] st.members@.contains_key(
                    st.members_ordered@[j]@,
                ),
            parts == ordered_members(*st).map_values(|m: AstStructMember<'a>| member_field(m)),
            s@ == s0 + sep_upto(parts, ",\n"@, "\n"@, num_members as int, i as int),
        decreases n - i,
    {
        let member = ordered_member(st, i);
        let ghost before = s@;
        if member.boxed {
            s = cat(s, "            ");
            s = cat(s, member.sc());
            s = cat(s, ": Box::new(");
            s = cat(s, member.sc());
            s = cat(s, ")\n");
        } else {
            s = cat(s, "            ");
            s = cat(s, member.sc());
        }
        assert(s@ =~= before + member_field(*member));
        if i + 1 < num_members {
            s = cat(s, ",\n");
        } else {
            s = cat(s, "\n");
        }
        i += 1;
    }
    s
}

fn gen_ctor_args<'a>(s: String, st: &AstStruct<'a>) -> (r: String)
    requires
        st.members.wf(),
        forall|j: int|
            0 <= j < st.members_ordered@.len() ==> #[trigger] st.members@.contains_key(
                st.members_ordered@[j]@,
            ),
    ensures
        r@ == s@ + ctor_args(*st),
{
    let ghost s0 = s@;
    let ghost parts = ordered_members(*st).map_values(|m: AstStructMember<'a>| m.snake_case@);
    let mut s = s;
    let num_members = st.members.len();
    let n = st.members_ordered.len();
    let mut i: usize = 0;
    while i < n
        invariant
            n == st.members_ordered@.len(),
            num_members == st.members.len_spec(),
            i <= n,
            st.members.wf(),
            forall|j: int|
                0 <= j < st.members_ordered@.len() ==> #[trigger] st.members@.contains_key(
                    st.members_ordered@[j]@,
                ),
            parts == ordered_members(*st).map_values(|m: AstStructMember<'a>| m.snake_case@),
            s@ == s0 + sep_upto(parts, ", "@, Seq::empty(), num_members as int, i as int),
        decreases n - i,
    {
        let member = ordered_member(st, i);
        s = cat(s, member.sc());
        if i + 1 < num_members {
            s = cat(s, ", ");
        }
        i += 1;
    }
    s
}

#[verifier::spinoff_prover]
#[verifier::rlimit(40)]
fn gen_as_method<'a>(s: String, r: &ParentRef<'a>, struct_lifetime: bool, data: &LangData<'a>) -> (out: String)
    requires
        data.wf(),
        *r matches ParentRef::EnumItem { enum_name, .. } ==> data.ast_enums@.contains_key(enum_name@)
            && nl_enum_value(data, data.ast_enums@[enum_name@], Set::empty()) is Some,
    ensures
        out@ == s@ + as_method(data, *r, struct_lifetime),
{
    let ghost s0 = s@;
    let mut s = s;
    match r {
        ParentRef::EnumItem { enum_name, item_name } => {
            let ast_enum = match data.ast_enums.get(enum_name) {
                Some(e) => e,
                None => {
                    assert(false);
                    return s;
                },
            };
            s = cat(s, "\n");
            let mut visited = crate::strmap::StrMap::new();
            assert(visited@.dom() =~= Set::<Seq<char>>::empty());
            let enum_needs_lifetime = ast_enum.needs_lifetime(data, &mut visited);
            s = cat(s, "    ");
            s = cat(s, "pub fn as_");
            s = cat(s, ast_enum.sc());
            if enum_needs_lifetime && !struct_lifetime {
                s = cat(s, "<'a>");
            }
            s = cat(s, "(self) -> ");
            s = ast_enum.add_type(s, data);
            s = cat(s, " {\n");
            s = cat(s, "        ");
            s = cat(s, enum_name);
            s = cat(s, "::");
            s = cat(s, item_name);
            s = cat(s, "Item(");
            let is_boxed = ast_enum.boxed_items.contains_key(item_name);
            if is_boxed {
                s = cat(s, "Box::new(");
            }
            s = cat(s, "self");
            if is_boxed {
                s = cat(s, ")");
            }
            s = cat(s, ")\n");
            s = cat(s, "    ");
            s = cat(s, "}\n");
        },
        ParentRef::StructMember { .. } => {},
    }
    assert(s@ =~= s0 + as_method(data, *r, struct_lifetime));
    s
}

fn gen_member_decls<'a>(s: String, st: &AstStruct<'a>, data: &LangData<'a>) -> (r: String)
    requires
        data.wf(),
        forall|i: int|
            0 <= i < st.members.vals@.len() ==> member_type_ok(data, #[trigger] st.members.vals@[i].tpe),
    ensures
        r@ == s@ + concat_map(st.members.vals@, |m: AstStructMember<'a>| member_decl(data, m)),
{
    let ghost s0 = s@;
    let ghost f = |m: AstStructMember<'a>| member_decl(data, m);
    let mut s = s;
    let n = st.members.vals.len();
    let mut i: usize = 0;
    while i < n
        invariant
            n == st.members.vals@.len(),
            i <= n,
            data.wf(),
            forall|i: int|
                0 <= i < st.members.vals@.len() ==> member_type_ok(data, #[trigger] st.members.vals@[i].tpe),
            f == (|m: AstStructMember<'a>| member_decl(data, m)),
            s@ == s0 + concat_map(st.members.vals@.take(i as int), f),
        decreases n - i,
    {
        proof {
            lemma_concat_map_step(st.members.vals@, f, i as int);
        }
        s = gen_member_decl(s, &st.members.vals[i], data);
        i += 1;
    }
    assert(st.members.vals@.take(n as int) =~= st.members.vals@);
    s
}

fn gen_as_methods<'a>(s: String, st: &AstStruct<'a>, struct_lifetime: bool, data: &LangData<'a>) -> (r: String)
    requires
        data.wf(),
        forall|i: int|
            0 <= i < struct_refs(data, *st).len() ==> (#[trigger] struct_refs(data, *st)[i] matches ParentRef::EnumItem {
                enum_name,
                ..
            } ==> data.ast_enums@.contains_key(enum_name@) && nl_enum_value(
                data,
                data.ast_enums@[enum_name@],
                Set::empty(),
            ) is Some),
    ensures
        r@ == s@ + concat_map(struct_refs(data, *st), |r: ParentRef<'a>| as_method(data, r, struct_lifetime)),
{
    let ghost s0 = s@;
    let ghost f = |r: ParentRef<'a>| as_method(data, r, struct_lifetime);
    let mut s = s;
    match data.parent_refs.refs.get(st.name) {
        Some(parent_refs) => {
            assert(parent_refs@ == struct_refs(data, *st));
            let n = parent_refs.len();
            let mut i: usize = 0;
            while i < n
                invariant
                    n == parent_refs@.len(),
                    parent_refs@ == struct_refs(data, *st),
                    i <= n,
                    data.wf(),
                    forall|i: int|
                        0 <= i < struct_refs(data, *st).len() ==> (#[trigger] struct_refs(data, *st)[i] matches ParentRef::EnumItem {
                            enum_name,
                            ..
                        } ==> data.ast_enums@.contains_key(enum_name@) && nl_enum_value(
                            data,
                            data.ast_enums@[enum_name@],
                            Set::empty(),
                        ) is Some),
                    f == (|r: ParentRef<'a>| as_method(data, r, struct_lifetime)),
                    s@ == s0 + concat_map(parent_refs@.take(i as int), f),
                decreases n - i,
            {
                proof {
                    lemma_concat_map_step(parent_refs@, f, i as int);
                }
                assert(struct_refs(data, *st)[i as int] == parent_refs@[i as int]);
                s = gen_as_method(s, &parent_refs[i], struct_lifetime, data);
                i += 1;
            }
            assert(parent_refs@.take(n as int) =~= parent_refs@);
        },
        None => {
            assert(struct_refs(data, *st) =~= Seq::<ParentRef<'a>>::empty());
        },
    }
    s
}

fn gen_struct_decl<'a>(s: String, st: &AstStruct<'a>, data: &LangData<'a>) -> (r: String)
    requires
        data.wf(),
        nl_struct_value(data, *st, Set::empty()) is Some,
        forall|i: int|
            0 <= i < st.members.vals@.len() ==> member_type_ok(data, #[trigger] st.members.vals@[i].tpe),
    ensures
        r@ == s@ + struct_decl(data, *st),
{
    let ghost s0 = s@;
    let mut s = cat(s, "#[derive(Debug)]\n");
    s = cat(s, "pub struct ");
    s = st.add_type(s, data);
    s = cat(s, " {\n");
    s = gen_member_decls(s, st, data);
    s = cat(s, "}\n\n");
    assert(s@ =~= s0 + struct_decl(data, *st));
    s
}

fn gen_struct_ctor<'a>(s: String, st: &AstStruct<'a>, data: &LangData<'a>) -> (r: String)
    requires
        data.wf(),
        st.members.wf(),
        nl_struct_value(data, *st, Set::empty()) is Some,
        ctor_ok(data, *st),
    ensures
        r@ == s@ + struct_ctor(data, *st),
{
    let ghost s0 = s@;
    let mut s = cat(s, "    pub fn new(");
    s = gen_ctor_params(s, st, data);
    s = cat(s, ") -> ");
    s = st.add_type(s, data);
    s = cat(s, " {\n");
    s = cat(s, "        ");
    s = cat(s, st.name);
    s = cat(s, " {\n");
    s = gen_ctor_fields(s, st);
    s = cat(s, "        ");
    s = cat(s, "}\n    }\n");
    assert(s@ =~= s0 + struct_ctor(data, *st));
    s
}

#[verifier::spinoff_prover]
#[verifier::rlimit(40)]
fn gen_struct<'a>(s: String, st: &AstStruct<'a>, data: &LangData<'a>) -> (r: String)
    requires
        data.wf(),
        st.members.wf(),
        struct_gen_ok(data, *st),
        !data.simple_structs@.contains_key(st.name@),
    ensures
        r@ == s@ + struct_block(data, *st),
{
    let ghost s0 = s@;
    let mut s = gen_struct_decl(s, st, data);
    let ghost s1 = s@;
    s = cat(s, "impl");
    let mut visited = crate::strmap::StrMap::new();
    assert(visited@.dom() =~= Set::<Seq<char>>::empty());
    let needs_lifetime = st.needs_lifetime(data, &mut visited);
    if needs_lifetime {
        s = cat(s, "<'a>");
    }
    s = cat(s, " ");
    s = st.add_type(s, data);
    s = cat(s, " {\n");
    assert(s@ =~= s1 + impl_head(needs_lifetime, struct_type(data, *st), " {\n"@));
    // Struct constructor
    s = gen_struct_ctor(s, st, data);
    // as_<enum> methods
    s = gen_as_methods(s, st, needs_lifetime, data);
    s = cat(s, "}\n\n");
    assert(s@ =~= s0 + struct_block(data, *st));
    s
}

fn gen_enum_item_decl<'a>(s: String, e: &AstEnum<'a>, item: &'a str, simple: bool, data: &LangData<'a>) -> (r: String)
    requires
        data.wf(),
        e.boxed_items.wf(),
        !simple ==> item_gen_ok(data, item),
    ensures
        r@ == s@ + enum_item_decl(data, *e, item, simple),
{
    let ghost s0 = s@;
    let mut s = s;
    if simple {
        s = cat(s, "    ");
        s = cat(s, item);
        s = cat(s, ",\n");
    } else {
        s = cat(s, "    ");
        s = cat(s, item);
        s = cat(s, "Item(");
        let is_boxed = e.boxed_items.contains_key(item);
        if is_boxed {
            s = cat(s, "Box<");
        }
        s = data.add_ast_type(s, item);
        if is_boxed {
            s = cat(s, ">");
        }
        s = cat(s, "),\n");
    }
    assert(s@ =~= s0 + enum_item_decl(data, *e, item, simple));
    s
}

fn gen_item_ctor_sig<'a>(s: String, e: &AstEnum<'a>, item: &'a str, st: &AstStruct<'a>, data: &LangData<'a>) -> (r: String)
    requires
        data.wf(),
        st.members.wf(),
        nl_enum_value(data, *e, Set::empty()) is Some,
        data.has_sc(item@),
        ctor_ok(data, *st),
    ensures
        r@ == s@ + item_ctor_sig(data, *e, item, *st),
{
    let ghost s0 = s@;
    let mut s = cat(s, "\n");
    s = cat(s, "    ");
    s = cat(s, "pub fn ");
    s = cat(s, data.sc(item));
    s = cat(s, "(");
    s = gen_ctor_params(s, st, data);
    s = cat(s, ") -> ");
    s = e.add_type(s, data);
    s = cat(s, " {\n");
    assert(s@ =~= s0 + item_ctor_sig(data, *e, item, *st));
    s
}

fn gen_item_ctor_body<'a>(s: String, e: &AstEnum<'a>, item: &'a str, st: &AstStruct<'a>) -> (r: String)
    requires
        e.boxed_items.wf(),
        st.members.wf(),
        forall|j: int|
            0 <= j < st.members_ordered@.len() ==> #[trigger] st.members@.contains_key(
                st.members_ordered@[j]@,
            ),
    ensures
        r@ == s@ + item_ctor_body(*e, item, *st),
{
    let ghost s0 = s@;
    let mut s = cat(s, "        ");
    s = cat(s, e.name);
    s = cat(s, "::");
    s = cat(s, item);
    s = cat(s, "Item(");
    let is_boxed = e.boxed_items.contains_key(item);
    if is_boxed {
        s = cat(s, "Box::new(");
    }
    // Ast constructor created above
    s = cat(s, item);
    s = cat(s, "::new(");
    s = gen_ctor_args(s, st);
    s = cat(s, "))");
    if is_boxed {
        s = cat(s, ")");
    }
    s = cat(s, "\n    }\n");
    assert(s@ =~= s0 + item_ctor_body(*e, item, *st));
    s
}

fn gen_enum_item_ctor<'a>(s: String, e: &AstEnum<'a>, item: &'a str, data: &LangData<'a>) -> (r: String)
    requires
        data.wf(),
        e.boxed_items.wf(),
        nl_enum_value(data, *e, Set::empty()) is Some,
        item_gen_ok(data, item),
    ensures
        r@ == s@ + enum_item_ctor(data, *e, item),
{
    match data.resolve(item) {
        ResolvedType::ResolvedStruct(key) => {
            let ast_struct = match data.ast_structs.get(key) {
                Some(st) => st,
                None => {
                    assert(false);
                    return s;
                },
            };
            let s = gen_item_ctor_sig(s, e, item, ast_struct, data);
            gen_item_ctor_body(s, e, item, ast_struct)
        },
        ResolvedType::ResolvedEnum(..) => s,
    }
}

fn gen_enum_decl<'a>(s: String, e: &AstEnum<'a>, data: &LangData<'a>) -> (r: String)
    requires
        data.wf(),
        e.boxed_items.wf(),
        enum_gen_ok(data, *e),
    ensures
        r@ == s@ + enum_decl(data, *e),
{
    let ghost s0 = s@;
    let is_simple = data.simple_enums.contains_key(e.name);
    let mut s = cat(s, "#[derive(Debug)]\n");
    s = cat(s, "pub enum ");
    s = e.add_type(s, data);
    s = cat(s, " {\n");
    let ghost fd = |item: &'a str| enum_item_decl(data, *e, item, is_simple);
    let ghost s1 = s@;
    let n = e.items.len();
    let mut i: usize = 0;
    while i < n
        invariant
            n == e.items@.len(),
            i <= n,
            data.wf(),
            e.boxed_items.wf(),
            enum_gen_ok(data, *e),
            is_simple == data.simple_enums@.contains_key(e.name@),
            fd == (|item: &'a str| enum_item_decl(data, *e, item, is_simple)),
            s@ == s1 + concat_map(e.items@.take(i as int), fd),
        decreases n - i,
    {
        proof {
            lemma_concat_map_step(e.items@, fd, i as int);
        }
        s = gen_enum_item_decl(s, e, e.items[i], is_simple, data);
        i += 1;
    }
    assert(e.items@.take(n as int) =~= e.items@);
    s = cat(s, "}\n\n");
    assert(s@ =~= s0 + enum_decl(data, *e));
    s
}

fn gen_enum_impl<'a>(s: String, e: &AstEnum<'a>, data: &LangData<'a>) -> (r: String)
    requires
        data.wf(),
        e.boxed_items.wf(),
        enum_gen_ok(data, *e),
        !data.simple_enums@.contains_key(e.name@),
    ensures
        r@ == s@ + enum_impl(data, *e),
{
    let ghost s0 = s@;
    // Enum impl, with methods to create each item
    let mut s = cat(s, "impl");
    let mut visited = crate::strmap::StrMap::new();
    assert(visited@.dom() =~= Set::<Seq<char>>::empty());
    let needs_lifetime = e.needs_lifetime(data, &mut visited);
    if needs_lifetime {
        s = cat(s, "<'a>");
    }
    s = cat(s, " ");
    s = e.add_type(s, data);
    s = cat(s, " {");
    assert(s@ =~= s0 + impl_head(needs_lifetime, enum_type(data, *e), " {"@));
    let ghost fc = |item: &'a str| enum_item_ctor(data, *e, item);
    let ghost s3 = s@;
    let n = e.items.len();
    let mut i: usize = 0;
    while i < n
        invariant
            n == e.items@.len(),
            i <= n,
            data.wf(),
            e.boxed_items.wf(),
            enum_gen_ok(data, *e),
            !data.simple_enums@.contains_key(e.name@),
            fc == (|item: &'a str| enum_item_ctor(data, *e, item)),
            s@ == s3 + concat_map(e.items@.take(i as int), fc),
        decreases n - i,
    {
        proof {
            lemma_concat_map_step(e.items@, fc, i as int);
        }
        assert(item_gen_ok(data, e.items@[i as int]));
        s = gen_enum_item_ctor(s, e, e.items[i], data);
        i += 1;
    }
    assert(e.items@.take(n as int) =~= e.items@);
    s = cat(s, "}\n\n");
    assert(s@ =~= s0 + enum_impl(data, *e));
    s
}

fn gen_enum<'a>(s: String, e: &AstEnum<'a>, data: &LangData<'a>) -> (r: String)
    requires
        data.wf(),
        e.boxed_items.wf(),
        enum_gen_ok(data, *e),
    ensures
        r@ == s@ + enum_block(data, *e),
{
    let ghost s0 = s@;
    let is_simple = data.simple_enums.contains_key(e.name);
    let mut s = gen_enum_decl(s, e, data);
    let ghost s1 = s@;
    if !is_simple {
        s = gen_enum_impl(s, e, data);
    }
    assert(s@ =~= s0 + enum_block(data, *e));
    s
}

impl<'a, 'd> CodegenAst<'a, 'd> {
    pub fn new(data: &'a LangData<'d>) -> (r: CodegenAst<'a, 'd>)
        ensures
            r.data == data,
    {
        CodegenAst { data }
    }

    /// The source of the AST types: a struct for every struct that is not
    /// simple, then an enum for every enum, each in order of name.
    pub fn gen(&self) -> (r: String)
        requires
            ast_gen_ok(self.data),
        ensures
            r@ == ast_source(self.data),
    {
        let data = self.data;
        let mut s = String::new();
        let ghost fs = |st: AstStruct<'d>| struct_block(data, st);
        let n = data.ast_structs.vals.len();
        let mut i: usize = 0;
        while i < n
            invariant
                n == data.ast_structs.vals@.len(),
                i <= n,
                ast_gen_ok(data),
                fs == (|st: AstStruct<'d>| struct_block(data, st)),
                s@ == concat_map(data.ast_structs.vals@.take(i as int), fs),
            decreases n - i,
        {
            proof {
                lemma_concat_map_step(data.ast_structs.vals@, fs, i as int);
                data.ast_structs.lemma_view_values();
            }
            let ast_struct = &data.ast_structs.vals[i];
            assert(data.ast_structs@.contains_key(Name::chars(&data.ast_structs.keys@[i as int])));
            assert(ast_struct.members.wf());
            if !data.simple_structs.contains_key(ast_struct.name) {
                assert(struct_gen_ok(data, *ast_struct));
                s = gen_struct(s, ast_struct, data);
            }
            i += 1;
        }
        assert(data.ast_structs.vals@.take(n as int) =~= data.ast_structs.vals@);
        let ghost s1 = s@;
        let ghost fe = |e: AstEnum<'d>| enum_block(data, e);
        let n = data.ast_enums.vals.len();
        let mut i: usize = 0;
        while i < n
            invariant
                n == data.ast_enums.vals@.len(),
                i <= n,
                ast_gen_ok(data),
                fe == (|e: AstEnum<'d>| enum_block(data, e)),
                s@ == s1 + concat_map(data.ast_enums.vals@.take(i as int), fe),
            decreases n - i,
        {
            proof {
                lemma_concat_map_step(data.ast_enums.vals@, fe, i as int);
                data.ast_enums.lemma_view_values();
            }
            let enum_data = &data.ast_enums.vals[i];
            assert(data.ast_enums@.contains_key(Name::chars(&data.ast_enums.keys@[i as int])));
            assert(enum_gen_ok(data, *enum_data));
            s = gen_enum(s, enum_data, data);
            i += 1;
        }
        assert(data.ast_enums.vals@.take(n as int) =~= data.ast_enums.vals@);
        s
    }
}

} // verus!
