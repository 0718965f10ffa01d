//! Prints Rust item declarations from their syntax tree.
use vstd::prelude::*;
use crate::text::{cat, cat_char, join, join_upto, lemma_join_step};
use super::ast::{
    EnumItem, GenType, Generic, GenericItem, LifeTime, RsEnum, RsStruct, Source, SourceItem,
    StructMember, Tpe, TpeSpes,
};

verus! {

/// Concatenation of all parts.
pub open spec fn concat(parts: Seq<Seq<char>>) -> Seq<char> {
    join(parts, Seq::empty())
}

pub open spec fn pub_kw(public: bool) -> Seq<char> {
    if public {
        "pub"@
    } else {
        Seq::empty()
    }
}

pub open spec fn tpe_src(node: Tpe) -> Seq<char> {
    " "@ + match node {
        Tpe::RsU32 => "u32"@,
        Tpe::RsI32 => "i32"@,
        Tpe::RsString => "String"@,
        Tpe::RsStr => "str"@,
        Tpe::Bool => "bool"@,
    }
}

pub open spec fn life_time_src(node: LifeTime) -> Seq<char> {
    " "@ + "'"@ + " "@ + node.ident@
}

pub open spec fn gen_type_src(node: GenType) -> Seq<char> {
    " "@ + node.ident@
}

pub open spec fn generic_item_src(node: GenericItem) -> Seq<char> {
    match node {
        GenericItem::LifeTimeItem(inner) => life_time_src(inner),
        GenericItem::GenTypeItem(inner) => gen_type_src(inner),
    }
}

pub open spec fn generic_src(node: Generic) -> Seq<char> {
    " "@ + "<"@ + " "@ + concat(node.generic_items@.map_values(|g: GenericItem| generic_item_src(g)))
        + " "@ + ">"@
}

pub open spec fn tpe_spes_src(node: TpeSpes) -> Seq<char> {
    " "@ + tpe_src(node.tpe) + " "@ + match node.generic_item {
        Some(g) => generic_item_src(g),
        None => Seq::empty(),
    }
}

pub open spec fn struct_member_src(node: StructMember) -> Seq<char> {
    " "@ + pub_kw(node.public) + " "@ + node.ident@ + " "@ + seq![':'] + " "@ + tpe_spes_src(
        node.tpe_spes,
    )
}

pub open spec fn enum_item_src(node: EnumItem) -> Seq<char> {
    " "@ + node.ident@
}

pub open spec fn rs_enum_src(node: RsEnum) -> Seq<char> {
    " "@ + pub_kw(node.public) + " "@ + "enum"@ + " "@ + node.ident@ + " "@ + seq!['{'] + " "@
        + concat(node.enum_items@.map_values(|e: EnumItem| enum_item_src(e))) + " "@ + seq!['}']
}

pub open spec fn rs_struct_head(node: RsStruct) -> Seq<char> {
    " "@ + pub_kw(node.public) + " "@ + "struct"@ + " "@ + node.ident@ + " "@ + match node.generic {
        Some(g) => generic_src(g),
        None => Seq::empty(),
    } + " "@ + seq!['{'] + " "@
}

pub open spec fn rs_struct_src(node: RsStruct) -> Seq<char> {
    rs_struct_head(node) + concat(
        node.struct_members@.map_values(|m: StructMember| struct_member_src(m)),
    ) + " "@ + seq!['}']
}

/// Traits have no printer; their items print as nothing.
pub open spec fn source_item_src(node: SourceItem) -> Seq<char> {
    match node {
        SourceItem::RsStructItem(inner) => rs_struct_src(inner),
        SourceItem::RsEnumItem(inner) => rs_enum_src(inner),
        SourceItem::RsTraitItem(_) => Seq::empty(),
    }
}

pub open spec fn source_src(node: Source) -> Seq<char> {
    " "@ + concat(node.source_items@.map_values(|i: SourceItem| source_item_src(i)))
}

pub struct ToSource;

impl ToSource {
    pub fn to_source_source(s: String, node: &Source) -> (r: String)
        ensures
            r@ == s@ + source_src(*node),
    {
        let ghost s0 = s@;
        let mut s = cat(s, " ");
        let ghost parts = node.source_items@.map_values(|i: SourceItem| source_item_src(i));
        let ghost s1 = s@;
        let len = node.source_items.len();
        let mut i: usize = 0;
        while i < len
            invariant
                len == node.source_items@.len(),
                parts == node.source_items@.map_values(|i: SourceItem| source_item_src(i)),
                i <= len,
                s@ == s1 + join_upto(parts, Seq::empty(), i as int),
            decreases len - i,
        {
            s = Self::to_source_source_item(s, &node.source_items[i]);
            proof {
                lemma_join_step(parts, Seq::empty(), i as int);
                assert(s@ =~= s1 + join_upto(parts, Seq::empty(), i + 1));
            }
            i += 1;
        }
        assert(s@ =~= s0 + source_src(*node));
        s
    }

    #[verifier::spinoff_prover]
    pub fn to_source_rs_enum(s: String, node: &RsEnum) -> (r: String)
        ensures
            r@ == s@ + rs_enum_src(*node),
    {
        let ghost s0 = s@;
        let mut s = cat(s, " ");
        if node.public {
            s = cat(s, "pub");
        }
        s = cat(s, " ");
        s = cat(s, "enum");
        s = cat(s, " ");
        s = cat(s, node.ident);
        s = cat(s, " ");
        s = cat_char(s, '{');
        s = cat(s, " ");
        let ghost parts = node.enum_items@.map_values(|e: EnumItem| enum_item_src(e));
        let ghost s1 = s@;
        let len = node.enum_items.len();
        let mut i: usize = 0;
        while i < len
            invariant
                len == node.enum_items@.len(),
                parts == node.enum_items@.map_values(|e: EnumItem| enum_item_src(e)),
                i <= len,
                s@ == s1 + join_upto(parts, Seq::empty(), i as int),
            decreases len - i,
        {
            s = Self::to_source_enum_item(s, &node.enum_items[i]);
            proof {
                lemma_join_step(parts, Seq::empty(), i as int);
                assert(s@ =~= s1 + join_upto(parts, Seq::empty(), i + 1));
            }
            i += 1;
        }
        s = cat(s, " ");
        s = cat_char(s, '}');
        assert(s@ =~= s0 + rs_enum_src(*node));
        s
    }

    #[verifier::spinoff_prover]
    pub fn to_source_struct_member(s: String, node: &StructMember) -> (r: String)
        ensures
            r@ == s@ + struct_member_src(*node),
    {
        let ghost s0 = s@;
        let mut s = cat(s, " ");
        if node.public {
            s = cat(s, "pub");
        }
        s = cat(s, " ");
        s = cat(s, node.ident);
        s = cat(s, " ");
        s = cat_char(s, ':');
        s = cat(s, " ");
        s = Self::to_source_tpe_spes(s, &node.tpe_spes);
        assert(s@ =~= s0 + struct_member_src(*node));
        s
    }

    pub fn to_source_enum_item(s: String, node: &EnumItem) -> (r: String)
        ensures
            r@ == s@ + enum_item_src(*node),
    {
        let ghost s0 = s@;
        let s = cat(s, " ");
        let s = cat(s, node.ident);
        assert(s@ =~= s0 + enum_item_src(*node));
        s
    }

    pub fn to_source_tpe_spes(s: String, node: &TpeSpes) -> (r: String)
        ensures
            r@ == s@ + tpe_spes_src(*node),
    {
        let ghost s0 = s@;
        let mut s = cat(s, " ");
        s = Self::to_source_tpe(s, &node.tpe);
        s = cat(s, " ");
        if let Some(some_val) = &node.generic_item {
            s = Self::to_source_generic_item(s, some_val);
        }
        assert(s@ =~= s0 + tpe_spes_src(*node));
        s
    }

    pub fn to_source_life_time(s: String, node: &LifeTime) -> (r: String)
        ensures
            r@ == s@ + life_time_src(*node),
    {
        let ghost s0 = s@;
        let mut s = cat(s, " ");
        s = cat(s, "'");
        s = cat(s, " ");
        s = cat(s, node.ident);
        assert(s@ =~= s0 + life_time_src(*node));
        s
    }

    pub fn to_source_gen_type(s: String, node: &GenType) -> (r: String)
        ensures
            r@ == s@ + gen_type_src(*node),
    {
        let ghost s0 = s@;
        let s = cat(s, " ");
        let s = cat(s, node.ident);
        assert(s@ =~= s0 + gen_type_src(*node));
        s
    }

    #[verifier::spinoff_prover]
    #[verifier::rlimit(40)]
    pub fn to_source_rs_struct(s: String, node: &RsStruct) -> (r: String)
        ensures
            r@ == s@ + rs_struct_src(*node),
    {
        let ghost s0 = s@;
        let mut s = cat(s, " ");
        if node.public {
            s = cat(s, "pub");
        }
        s = cat(s, " ");
        s = cat(s, "struct");
        s = cat(s, " ");
        s = cat(s, node.ident);
        s = cat(s, " ");
        if let Some(some_val) = &node.generic {
            s = Self::to_source_generic(s, some_val);
        }
        s = cat(s, " ");
        s = cat_char(s, '{');
        s = cat(s, " ");
        assert(s@ =~= s0 + rs_struct_head(*node));
        let ghost parts = node.struct_members@.map_values(|m: StructMember| struct_member_src(m));
        let ghost s1 = s@;
        let len = node.struct_members.len();
        let mut i: usize = 0;
        while i < len
            invariant
                len == node.struct_members@.len(),
                parts == node.struct_members@.map_values(|m: StructMember| struct_member_src(m)),
                i <= len,
                s@ == s1 + join_upto(parts, Seq::empty(), i as int),
            decreases len - i,
        {
            s = Self::to_source_struct_member(s, &node.struct_members[i]);
            proof {
                lemma_join_step(parts, Seq::empty(), i as int);
                assert(s@ =~= s1 + join_upto(parts, Seq::empty(), i + 1));
            }
            i += 1;
        }
        s = cat(s, " ");
        s = cat_char(s, '}');
        assert(s@ =~= s0 + rs_struct_src(*node));
        s
    }

    #[verifier::spinoff_prover]
    pub fn to_source_generic(s: String, node: &Generic) -> (r: String)
        ensures
            r@ == s@ + generic_src(*node),
    {
        let ghost s0 = s@;
        let mut s = cat(s, " ");
        s = cat(s, "<");
        s = cat(s, " ");
        let ghost parts = node.generic_items@.map_values(|g: GenericItem| generic_item_src(g));
        let ghost s1 = s@;
        let len = node.generic_items.len();
        let mut i: usize = 0;
        while i < len
            invariant
                len == node.generic_items@.len(),
                parts == node.generic_items@.map_values(|g: GenericItem| generic_item_src(g)),
                i <= len,
                s@ == s1 + join_upto(parts, Seq::empty(), i as int),
            decreases len - i,
        {
            s = Self::to_source_generic_item(s, &node.generic_items[i]);
            proof {
                lemma_join_step(parts, Seq::empty(), i as int);
                assert(s@ =~= s1 + join_upto(parts, Seq::empty(), i + 1));
            }
            i += 1;
        }
        s = cat(s, " ");
        s = cat(s, ">");
        assert(s@ =~= s0 + generic_src(*node));
        s
    }

    pub fn to_source_generic_item(s: String, node: &GenericItem) -> (r: String)
        ensures
            r@ == s@ + generic_item_src(*node),
    {
        match node {
            GenericItem::LifeTimeItem(inner) => Self::to_source_life_time(s, inner),
            GenericItem::GenTypeItem(inner) => Self::to_source_gen_type(s, inner),
        }
    }

    pub fn to_source_source_item(s: String, node: &SourceItem) -> (r: String)
        ensures
            r@ == s@ + source_item_src(*node),
    {
        match node {
            SourceItem::RsStructItem(inner) => Self::to_source_rs_struct(s, inner),
            SourceItem::RsEnumItem(inner) => Self::to_source_rs_enum(s, inner),
            SourceItem::RsTraitItem(_) => {
                assert(s@ =~= s@ + source_item_src(*node));
                s
            },
        }
    }

    pub fn to_source_tpe(s: String, node: &Tpe) -> (r: String)
        ensures
            r@ == s@ + tpe_src(*node),
    {
        let ghost s0 = s@;
        let s = cat(s, " ");
        let s = match node {
            Tpe::RsU32 => cat(s, "u32"),
            Tpe::RsI32 => cat(s, "i32"),
            Tpe::RsString => cat(s, "String"),
            Tpe::RsStr => cat(s, "str"),
            Tpe::Bool => cat(s, "bool"),
        };
        assert(s@ =~= s0 + tpe_src(*node));
        s
    }
}

} // verus!
