//! Tokens of the described language, typed by what they parse to.
use vstd::prelude::*;
use crate::text::{cat, cat_char, owned};
use crate::strmap::StrMap;
use crate::lang_data::ast::{AstMemberType, AstStruct, AstStructMember, RuleType};
use crate::lang_data::data::{snake, LangData};
use crate::lang_data::lifetimes::{nl_member_type, nl_typed_part};
use crate::lang_data::rule::AstRulePart;

verus! {

#[derive(Debug)]
pub enum TypedPart<'a> {
    AstPart { key: &'a str },
    ListPart { key: &'a str },
    CharPart { key: &'a str, chr: char },
    TagPart { key: &'a str, tag: &'a str },
    IntPart { key: &'a str },
    IdentPart { key: &'a str },
    FnPart { key: &'a str, fnc: &'a str, tpe: &'a str },
    StringPart { key: &'a str },
    StrPart { key: &'a str },
    WSPart,
}

/// Parts that become a struct member even without a member name.
pub open spec fn auto_member(tp: TypedPart) -> bool {
    match tp {
        TypedPart::AstPart { .. } | TypedPart::ListPart { .. } | TypedPart::IntPart { .. }
        | TypedPart::StringPart { .. } | TypedPart::StrPart { .. } | TypedPart::IdentPart {
            ..
        } => true,
        _ => false,
    }
}

impl<'a> TypedPart<'a> {
    pub fn is_auto_member(&self) -> (r: bool)
        ensures
            r == auto_member(*self),
    {
        match self {
            TypedPart::AstPart { .. } | TypedPart::ListPart { .. } | TypedPart::IntPart { .. }
            | TypedPart::StringPart { .. } | TypedPart::StrPart { .. } | TypedPart::IdentPart {
                ..
            } => true,
            _ => false,
        }
    }
}


/// The name of the type a rule produces.
pub open spec fn type_name_of<'a>(data: &LangData<'a>, rt: RuleType<'a>) -> Seq<char> {
    data.resolved(rt.type_key()@).name()
}

pub open spec fn lifetime_suffix(needs: bool) -> Seq<char> {
    if needs {
        "<'a>"@
    } else {
        Seq::empty()
    }
}

/// Whether a part needs a lifetime, searching from nothing visited.
pub open spec fn part_needs_lifetime<'a>(data: &LangData<'a>, tp: TypedPart<'a>) -> bool {
    nl_typed_part(data, tp, Set::empty()).unwrap().0
}

/// The lookups the type text of a part makes succeed.
pub open spec fn part_type_ok<'a>(data: &LangData<'a>, tp: TypedPart<'a>) -> bool {
    match tp {
        TypedPart::AstPart { key } | TypedPart::ListPart { key } => {
            &&& data.rule_types@.contains_key(key@)
            &&& data.resolves(data.rule_types@[key@].type_key()@)
            &&& nl_typed_part(data, tp, Set::empty()) is Some
        },
        _ => true,
    }
}

/// The Rust type that a part is stored as in a generated struct.
pub open spec fn part_type_text<'a>(data: &LangData<'a>, tp: TypedPart<'a>) -> Seq<char> {
    match tp {
        TypedPart::AstPart { key } => type_name_of(data, data.rule_types@[key@]) + lifetime_suffix(
            part_needs_lifetime(data, tp),
        ),
        TypedPart::ListPart { key } => "Vec<"@ + type_name_of(data, data.rule_types@[key@])
            + lifetime_suffix(part_needs_lifetime(data, tp)) + ">"@,
        TypedPart::IntPart { .. } => "i32"@,
        TypedPart::IdentPart { .. } => "&'a str"@,
        TypedPart::CharPart { .. } => "bool"@,
        TypedPart::TagPart { .. } => "bool"@,
        TypedPart::StringPart { .. } => "&'a str"@,
        TypedPart::StrPart { .. } => "&'a str"@,
        TypedPart::FnPart { tpe, .. } => tpe@,
        TypedPart::WSPart => "&'a str"@,
    }
}

/// The parser expression for a part, wrapped for debugging when asked.
pub open spec fn part_parser_text<'a>(data: &LangData<'a>, tp: TypedPart<'a>) -> Seq<char> {
    (if data.debug {
        "debug_wrap!("@
    } else {
        Seq::empty()
    }) + match tp {
        TypedPart::AstPart { key } => snake(key@),
        TypedPart::ListPart { key } => snake(key@),
        TypedPart::CharPart { chr, .. } => "char!('"@ + seq![chr] + "')"@,
        TypedPart::TagPart { tag, .. } => "tag!(\""@ + tag@ + "\")"@,
        TypedPart::IntPart { .. } => "parse_int"@,
        TypedPart::IdentPart { .. } => "ident"@,
        TypedPart::FnPart { fnc, .. } => fnc@,
        TypedPart::StringPart { .. } => "quoted_str"@,
        TypedPart::StrPart { .. } => "quoted_str"@,
        TypedPart::WSPart => "sp"@,
    } + (if data.debug {
        ")"@
    } else {
        Seq::empty()
    })
}

/// The expression a parsed part is stored with, given the member's snake case name.
pub open spec fn part_value_text<'a>(tp: TypedPart<'a>, member: Seq<char>, optional: bool) -> Seq<char> {
    match tp {
        TypedPart::CharPart { .. } => if optional {
            member + "_k.is_some()"@
        } else {
            "true"@
        },
        TypedPart::TagPart { .. } => if optional {
            member + "_k.is_some()"@
        } else {
            Seq::empty()
        },
        _ => member + "_k"@,
    }
}

/// Visitor calls for a member that holds an AST node or a list of them.
pub open spec fn part_visitor_text<'a>(
    data: &LangData<'a>,
    tp: TypedPart<'a>,
    member_sc: Seq<char>,
    optional: bool,
) -> Seq<char> {
    match tp {
        TypedPart::AstPart { key } => if optional {
            "        "@ + "match node."@ + member_sc + " {\n"@ + "            "@
                + "Some(ref inner) => self.visit_"@ + snake(key@) + "(inner),\n"@ + "            "@
                + "None => {}\n"@ + "        "@ + "}\n"@
        } else {
            "        "@ + "self.visit_"@ + snake(key@) + "(&node."@ + member_sc + ");\n"@
        },
        TypedPart::ListPart { key } => {
            let item = snake(data.rule_types@[key@].type_key()@);
            if optional {
                "        "@ + "node."@ + member_sc + " match {\n"@ + "            "@
                    + "Some(ref inner) => {\n"@ + "                "@ + "for item in &inner {\n"@
                    + "                    "@ + "self.visit_"@ + item + "(item);\n"@
                    + "                "@ + "}\n"@
            } else {
                "        "@ + "for item in &node."@ + member_sc + " {\n"@ + "            "@
                    + "self.visit_"@ + item + "(item);\n"@ + "        "@ + "}\n"@
            }
        },
        _ => Seq::empty(),
    }
}

impl<'a> TypedPart<'a> {
    #[verifier::spinoff_prover]
    pub fn gen_parser(&self, s: String, data: &LangData<'a>) -> (r: String)
        requires
            data.wf(),
            match *self {
                TypedPart::AstPart { key } | TypedPart::ListPart { key } => data.has_sc(key@),
                _ => true,
            },
        ensures
            r@ == s@ + part_parser_text(data, *self),
    {
        let ghost s0 = s@;
        let mut s = s;
        if data.debug {
            s = cat(s, "debug_wrap!(");
        }
        let ghost s1 = s@;
        match self {
            TypedPart::AstPart { key } => {
                s = cat(s, data.sc(key));
            },
            TypedPart::ListPart { key } => {
                s = cat(s, data.sc(key));
            },
            TypedPart::CharPart { chr, .. } => {
                s = cat(s, "char!('");
                s = cat_char(s, *chr);
                s = cat(s, "')");
            },
            TypedPart::TagPart { tag, .. } => {
                s = cat(s, "tag!(\"");
                s = cat(s, tag);
                s = cat(s, "\")");
            },
            TypedPart::IntPart { .. } => {
                s = cat(s, "parse_int");
            },
            TypedPart::IdentPart { .. } => {
                s = cat(s, "ident");
            },
            TypedPart::FnPart { fnc, .. } => {
                s = cat(s, fnc);
            },
            TypedPart::StringPart { .. } => {
                s = cat(s, "quoted_str");
            },
            TypedPart::StrPart { .. } => {
                s = cat(s, "quoted_str");
            },
            TypedPart::WSPart => {
                s = cat(s, "sp");
            },
        }
        if data.debug {
            s = cat(s, ")");
        }
        assert(s@ =~= s0 + part_parser_text(data, *self));
        s
    }

    #[verifier::spinoff_prover]
    pub fn gen_parser_val(&self, s: String, part: &AstRulePart<'a>, data: &LangData<'a>) -> (r: String)
        requires
            data.wf(),
            part.member_key is Some,
            data.has_sc(part.member_key.unwrap()@),
        ensures
            r@ == s@ + part_value_text(*self, snake(part.member_key.unwrap()@), part.optional),
    {
        let member_key = match part.member_key {
            Some(k) => data.sc(k),
            None => {
                assert(false);
                ""
            },
        };
        let ghost s0 = s@;
        let mut s = s;
        match self {
            TypedPart::CharPart { .. } => {
                if part.optional {
                    s = cat(s, member_key);
                    s = cat(s, "_k.is_some()");
                } else {
                    // True captures that the pattern matched
                    s = cat(s, "true");
                }
            },
            TypedPart::TagPart { .. } => {
                if part.optional {
                    s = cat(s, member_key);
                    s = cat(s, "_k.is_some()");
                }
            },
            _ => {
                s = cat(s, member_key);
                s = cat(s, "_k");
            },
        }
        assert(s@ =~= s0 + part_value_text(*self, snake(part.member_key.unwrap()@), part.optional));
        s
    }

    #[verifier::spinoff_prover]
    #[verifier::rlimit(40)]
    pub fn gen_visitor(
        &self,
        s: String,
        member: &AstStructMember<'a>,
        _ast_struct: &AstStruct<'a>,
        data: &LangData<'a>,
    ) -> (r: String)
        requires
            data.wf(),
            match *self {
                TypedPart::AstPart { key } => data.has_sc(key@),
                TypedPart::ListPart { key } => data.rule_types@.contains_key(key@) && data.has_sc(
                    data.rule_types@[key@].type_key()@,
                ),
                _ => true,
            },
        ensures
            r@ == s@ + part_visitor_text(data, *self, member.snake_case@, member.optional),
    {
        let ghost s0 = s@;
        let mut s = s;
        match self {
            TypedPart::AstPart { key } => {
                if member.optional {
                    s = cat(s, "        ");
                    s = cat(s, "match node.");
                    s = cat(s, member.sc());
                    s = cat(s, " {\n");
                    s = cat(s, "            ");
                    s = cat(s, "Some(ref inner) => self.visit_");
                    s = cat(s, data.sc(key));
                    s = cat(s, "(inner),\n");
                    s = cat(s, "            ");
                    s = cat(s, "None => {}\n");
                    s = cat(s, "        ");
                    s = cat(s, "}\n");
                } else {
                    s = cat(s, "        ");
                    s = cat(s, "self.visit_");
                    s = cat(s, data.sc(key));
                    s = cat(s, "(&node.");
                    s = cat(s, member.sc());
                    s = cat(s, ");\n");
                }
            },
            TypedPart::ListPart { key } => {
                let type_key = match data.rule_types.get(key) {
                    Some(RuleType::SingleType(tn)) => tn,
                    Some(RuleType::ManyType(tn)) => tn,
                    None => {
                        assert(false);
                        ""
                    },
                };
                if member.optional {
                    s = cat(s, "        ");
                    s = cat(s, "node.");
                    s = cat(s, member.sc());
                    s = cat(s, " match {\n");
                    s = cat(s, "            ");
                    s = cat(s, "Some(ref inner) => {\n");
                    s = cat(s, "                ");
                    s = cat(s, "for item in &inner {\n");
                    s = cat(s, "                    ");
                    s = cat(s, "self.visit_");
                    s = cat(s, data.sc(type_key));
                    s = cat(s, "(item);\n");
                    s = cat(s, "                ");
                    s = cat(s, "}\n");
                } else {
                    s = cat(s, "        ");
                    s = cat(s, "for item in &node.");
                    s = cat(s, member.sc());
                    s = cat(s, " {\n");
                    s = cat(s, "            ");
                    s = cat(s, "self.visit_");
                    s = cat(s, data.sc(type_key));
                    s = cat(s, "(item);\n");
                    s = cat(s, "        ");
                    s = cat(s, "}\n");
                }
            },
            _ => {},
        }
        assert(s@ =~= s0 + part_visitor_text(data, *self, member.snake_case@, member.optional));
        s
    }

    /// A member is an `Option` when it is optional, unless it is a char or
    /// tag, which become booleans.
    pub fn is_option(&self, member: &AstStructMember<'a>) -> (r: bool)
        ensures
            r == (member.optional && !(*self is CharPart || *self is TagPart)),
    {
        if member.optional {
            match self {
                TypedPart::CharPart { .. } | TypedPart::TagPart { .. } => false,
                _ => true,
            }
        } else {
            false
        }
    }

    pub fn add_type(&self, s: String, data: &LangData<'a>) -> (r: String)
        requires
            data.wf(),
            part_type_ok(data, *self),
        ensures
            r@ == s@ + part_type_text(data, *self),
    {
        let ghost s0 = s@;
        let mut s = s;
        match self {
            TypedPart::AstPart { key } => {
                match data.rule_types.get(key) {
                    Some(rule_type) => {
                        s = cat(s, rule_type.get_type_name(data));
                    },
                    None => {
                        assert(false);
                    },
                }
                let mut visited = StrMap::new();
                if self.needs_lifetime(data, &mut visited) {
                    s = cat(s, "<'a>");
                }
            },
            TypedPart::ListPart { key } => {
                s = cat(s, "Vec<");
                match data.rule_types.get(key) {
                    Some(rule_type) => {
                        s = cat(s, rule_type.get_type_name(data));
                    },
                    None => {
                        assert(false);
                    },
                }
                let mut visited = StrMap::new();
                if self.needs_lifetime(data, &mut visited) {
                    s = cat(s, "<'a>");
                }
                s = cat(s, ">");
            },
            TypedPart::IntPart { .. } => {
                s = cat(s, "i32");
            },
            TypedPart::IdentPart { .. } => {
                s = cat(s, "&'a str");
            },
            TypedPart::CharPart { .. } => {
                s = cat(s, "bool");
            },
            TypedPart::TagPart { .. } => {
                s = cat(s, "bool");
            },
            TypedPart::StringPart { .. } => {
                s = cat(s, "&'a str");
            },
            TypedPart::StrPart { .. } => {
                s = cat(s, "&'a str");
            },
            TypedPart::FnPart { tpe, .. } => {
                s = cat(s, tpe);
            },
            TypedPart::WSPart => {
                s = cat(s, "&'a str");
            },
        }
        assert(s@ =~= s0 + part_type_text(data, *self));
        s
    }
}

impl<'a> RuleType<'a> {
    /// The name of the struct or enum this rule type resolves to.
    pub fn get_type_name(&self, data: &LangData<'a>) -> (r: &'a str)
        requires
            data.wf(),
            data.resolves(self.type_key()@),
        ensures
            r@ == type_name_of(data, *self),
    {
        let type_key = match self {
            RuleType::SingleType(tn) => tn,
            RuleType::ManyType(tn) => tn,
        };
        data.resolve(type_key).get_ast_type()
    }
}

/// What a part with no member name prints: only literal chars, tags and spaces.
pub open spec fn part_source_unnamed<'a>(tp: TypedPart<'a>) -> Seq<char> {
    match tp {
        TypedPart::CharPart { chr, .. } => "        "@ + "s.push('"@ + seq![chr] + "');\n"@,
        TypedPart::TagPart { tag, .. } => "        "@ + "s += \""@ + tag@ + "\";\n"@,
        TypedPart::WSPart => "        "@ + "s += \" \""@,
        _ => Seq::empty(),
    }
}

/// Printer code for an AST member.
pub open spec fn ast_part_source(ty_sc: Seq<char>, member_sc: Seq<char>, optional: bool) -> Seq<char> {
    (if optional {
        "        "@ + "if let Some(ref some_val) = node."@ + member_sc + " {\n    "@
    } else {
        Seq::empty()
    }) + "        "@ + "s = Self::"@ + ty_sc + "(s, "@ + (if optional {
        "some_val);\n"@ + "        }\n"@
    } else {
        "&node."@ + member_sc + ");\n"@
    })
}

pub open spec fn list_name(member_sc: Seq<char>, optional: bool) -> Seq<char> {
    if optional {
        "some_val"@
    } else {
        "node."@ + member_sc
    }
}

pub open spec fn opt_open(member_sc: Seq<char>, optional: bool) -> Seq<char> {
    if optional {
        "        "@ + "if let Some(ref some_val) = node."@ + member_sc + " {\n    "@
    } else {
        Seq::empty()
    }
}

pub open spec fn list_loop_text(list: Seq<char>, ty_sc: Seq<char>) -> Seq<char> {
    "        "@ + "let len = "@ + list + ".len();\n"@ + "        "@ + "for (i, item) in "@ + list
        + ".iter().enumerate() {\n"@ + "            "@ + "s = Self::"@ + ty_sc + "(s, item);\n"@
}

pub open spec fn list_sep_text<'a>(sep: Option<TypedPart<'a>>) -> Seq<char> {
    match sep {
        Some(sp) => "            "@ + "if i < len - 1 { "@ + part_source_unnamed(sp) + " }\n"@,
        None => Seq::empty(),
    }
}

/// Printer code for a list member: each item, then the separator between items.
pub open spec fn list_part_source<'a>(
    ty_sc: Seq<char>,
    member_sc: Seq<char>,
    optional: bool,
    sep: Option<TypedPart<'a>>,
) -> Seq<char> {
    opt_open(member_sc, optional) + list_loop_text(list_name(member_sc, optional), ty_sc)
        + list_sep_text(sep) + "        "@ + "}\n"@ + (if optional {
        "    }\n"@
    } else {
        Seq::empty()
    })
}

/// Printer code for a member whose value is appended as it is, or converted by `conv`.
pub open spec fn plain_part_source(
    member: Seq<char>,
    optional: bool,
    some_line: Seq<char>,
    conv: Seq<char>,
    tail: Seq<char>,
) -> Seq<char> {
    if optional {
        "        "@ + "if let Some(some_val) = node."@ + member + " {\n    "@ + "            "@ + some_line
            + "        }"@
    } else {
        "        "@ + "s += "@ + conv + "node."@ + member + tail
    }
}

/// Printer code for a quoted string member.
pub open spec fn quoted_part_source(member: Seq<char>, optional: bool, as_str: Seq<char>) -> Seq<char> {
    if optional {
        "        "@ + "if let Some(some_val) = node."@ + member + " {\n    "@ + "            "@
            + "s += \"\\\"\";\n"@ + "            "@ + "s += some_val"@ + as_str + ";\n"@ + "            "@
            + "s += \"\\\"\";\n"@ + "        }"@
    } else {
        "        "@ + "s += \"\\\"\";\n"@ + "        "@ + "s += node."@ + member + as_str + ";\n"@
            + "        "@ + "s += \"\\\"\";\n"@
    }
}

/// Printer code for a char or tag member, which is parsed to a flag.
pub open spec fn flag_part_source(member: Seq<char>, line: Seq<char>) -> Seq<char> {
    "        "@ + "if node."@ + member + " {\n    "@ + "            "@ + line + "    }"@
}

/// The lookups printing a part makes succeed.
pub open spec fn part_source_ok<'a>(data: &LangData<'a>, tp: TypedPart<'a>, member_key: Option<&'a str>) -> bool {
    match member_key {
        None => true,
        Some(mk) => match tp {
            TypedPart::AstPart { key } => data.has_sc(mk@) && data.resolves(key@) && data.has_sc(
                data.resolved(key@).name(),
            ),
            TypedPart::ListPart { key } => {
                &&& data.has_sc(mk@)
                &&& data.resolves(key@)
                &&& data.has_sc(data.resolved(key@).name())
                &&& data.list_data@.contains_key(key@)
                &&& data.list_data@[key@].sep matches Some(sk) ==> data.typed_parts@.contains_key(
                    sk@,
                )
            },
            TypedPart::StringPart { .. } => data.has_sc(mk@),
            _ => true,
        },
    }
}

/// The printer code for a part of a rule.
pub open spec fn part_source_text<'a>(
    data: &LangData<'a>,
    tp: TypedPart<'a>,
    member_key: Option<&'a str>,
    optional: bool,
) -> Seq<char> {
    match member_key {
        None => part_source_unnamed(tp),
        Some(mk) => match tp {
            TypedPart::AstPart { key } => ast_part_source(
                snake(data.resolved(key@).name()),
                snake(mk@),
                optional,
            ),
            TypedPart::ListPart { key } => list_part_source(
                snake(data.resolved(key@).name()),
                snake(mk@),
                optional,
                match data.list_data@[key@].sep {
                    Some(sk) => Some(data.typed_parts@[sk@]),
                    None => None,
                },
            ),
            TypedPart::IntPart { .. } => plain_part_source(
                mk@,
                optional,
                "s += &some_val.to_string();\n"@,
                "&"@,
                ".to_string();\n"@,
            ),
            TypedPart::StringPart { .. } => quoted_part_source(snake(mk@), optional, Seq::empty()),
            TypedPart::StrPart { .. } => quoted_part_source(mk@, optional, Seq::empty()),
            TypedPart::IdentPart { .. } | TypedPart::FnPart { .. } => plain_part_source(
                mk@,
                optional,
                "s += some_val;\n"@,
                Seq::empty(),
                ";\n"@,
            ),
            TypedPart::CharPart { chr, .. } => flag_part_source(mk@, "s.push('"@ + seq![chr] + "');\n"@),
            TypedPart::TagPart { tag, .. } => flag_part_source(mk@, "s += \""@ + tag@ + "\";\n"@),
            TypedPart::WSPart => "        "@ + "s += \" \""@,
        },
    }
}

fn unnamed_part_source<'a>(tp: &TypedPart<'a>, s: String) -> (r: String)
    ensures
        r@ == s@ + part_source_unnamed(*tp),
{
    let ghost s0 = s@;
    let mut s = s;
    match tp {
        TypedPart::CharPart { chr, .. } => {
            s = cat(s, "        ");
            s = cat(s, "s.push('");
            s = cat_char(s, *chr);
            s = cat(s, "');\n");
        },
        TypedPart::TagPart { tag, .. } => {
            s = cat(s, "        ");
            s = cat(s, "s += \"");
            s = cat(s, tag);
            s = cat(s, "\";\n");
        },
        TypedPart::WSPart => {
            s = cat(s, "        ");
            s = cat(s, "s += \" \"");
        },
        _ => {},
    }
    assert(s@ =~= s0 + part_source_unnamed(*tp));
    s
}

#[verifier::spinoff_prover]
fn emit_ast_part_source(s: String, ty_sc: &str, member_sc: &str, optional: bool) -> (r: String)
    ensures
        r@ == s@ + ast_part_source(ty_sc@, member_sc@, optional),
{
    let ghost s0 = s@;
    let mut s = s;
    if optional {
        s = cat(s, "        ");
        s = cat(s, "if let Some(ref some_val) = node.");
        s = cat(s, member_sc);
        s = cat(s, " {\n    ");
    }
    s = cat(s, "        ");
    s = cat(s, "s = Self::");
    s = cat(s, ty_sc);
    s = cat(s, "(s, ");
    if optional {
        s = cat(s, "some_val);\n");
        s = cat(s, "        }\n");
    } else {
        s = cat(s, "&node.");
        s = cat(s, member_sc);
        s = cat(s, ");\n");
    }
    assert(s@ =~= s0 + ast_part_source(ty_sc@, member_sc@, optional));
    s
}

fn emit_list_loop(s: String, list: &str, ty_sc: &str) -> (r: String)
    ensures
        r@ == s@ + list_loop_text(list@, ty_sc@),
{
    let ghost s0 = s@;
    let mut s = cat(s, "        ");
    s = cat(s, "let len = ");
    s = cat(s, list);
    s = cat(s, ".len();\n");
    s = cat(s, "        ");
    s = cat(s, "for (i, item) in ");
    s = cat(s, list);
    s = cat(s, ".iter().enumerate() {\n");
    s = cat(s, "            ");
    s = cat(s, "s = Self::");
    s = cat(s, ty_sc);
    s = cat(s, "(s, item);\n");
    assert(s@ =~= s0 + list_loop_text(list@, ty_sc@));
    s
}

fn emit_list_sep<'a>(s: String, sep: Option<&TypedPart<'a>>) -> (r: String)
    ensures
        r@ == s@ + list_sep_text(
            match sep {
                Some(p) => Some(*p),
                None => None,
            },
        ),
{
    let ghost s0 = s@;
    let mut s = s;
    if let Some(sep_part) = sep {
        s = cat(s, "            ");
        s = cat(s, "if i < len - 1 { ");
        s = unnamed_part_source(sep_part, s);
        s = cat(s, " }\n");
    }
    assert(s@ =~= s0 + list_sep_text(
        match sep {
            Some(p) => Some(*p),
            None => None,
        },
    ));
    s
}

#[verifier::spinoff_prover]
fn emit_list_part_source<'a>(
    s: String,
    ty_sc: &str,
    member_sc: &str,
    optional: bool,
    sep: Option<&TypedPart<'a>>,
) -> (r: String)
    ensures
        r@ == s@ + list_part_source(
            ty_sc@,
            member_sc@,
            optional,
            match sep {
                Some(p) => Some(*p),
                None => None,
            },
        ),
{
    let ghost s0 = s@;
    let list = if optional {
        owned("some_val")
    } else {
        cat(owned("node."), member_sc)
    };
    let mut s = s;
    if optional {
        s = cat(s, "        ");
        s = cat(s, "if let Some(ref some_val) = node.");
        s = cat(s, member_sc);
        s = cat(s, " {\n    ");
    }
    assert(s@ =~= s0 + opt_open(member_sc@, optional));
    assert(list@ == list_name(member_sc@, optional));
    let ghost s1 = s@;
    s = emit_list_loop(s, list.as_str(), ty_sc);
    s = emit_list_sep(s, sep);
    s = cat(s, "        ");
    s = cat(s, "}\n");
    if optional {
        s = cat(s, "    }\n");
    }
    assert(s@ =~= s0 + list_part_source(
        ty_sc@,
        member_sc@,
        optional,
        match sep {
            Some(p) => Some(*p),
            None => None,
        },
    ));
    s
}

#[verifier::spinoff_prover]
fn emit_plain_part_source(
    s: String,
    member: &str,
    optional: bool,
    some_line: &str,
    conv: &str,
    tail: &str,
) -> (r: String)
    ensures
        r@ == s@ + plain_part_source(member@, optional, some_line@, conv@, tail@),
{
    let ghost s0 = s@;
    let mut s = s;
    if optional {
        s = cat(s, "        ");
        s = cat(s, "if let Some(some_val) = node.");
        s = cat(s, member);
        s = cat(s, " {\n    ");
        s = cat(s, "            ");
        s = cat(s, some_line);
        s = cat(s, "        }");
    } else {
        s = cat(s, "        ");
        s = cat(s, "s += ");
        s = cat(s, conv);
        s = cat(s, "node.");
        s = cat(s, member);
        s = cat(s, tail);
    }
    assert(s@ =~= s0 + plain_part_source(member@, optional, some_line@, conv@, tail@));
    s
}

fn emit_flag_part_source(s: String, member: &str, line: &str) -> (r: String)
    ensures
        r@ == s@ + flag_part_source(member@, line@),
{
    let ghost s0 = s@;
    let mut s = cat(s, "        ");
    s = cat(s, "if node.");
    s = cat(s, member);
    s = cat(s, " {\n    ");
    s = cat(s, "            ");
    s = cat(s, line);
    s = cat(s, "    }");
    assert(s@ =~= s0 + flag_part_source(member@, line@));
    s
}

#[verifier::spinoff_prover]
#[verifier::rlimit(40)]
fn emit_quoted_part_source(s: String, member: &str, optional: bool, as_str: &str) -> (r: String)
    ensures
        r@ == s@ + quoted_part_source(member@, optional, as_str@),
{
    let ghost s0 = s@;
    let mut s = s;
    if optional {
        s = cat(s, "        ");
        s = cat(s, "if let Some(some_val) = node.");
        s = cat(s, member);
        s = cat(s, " {\n    ");
        s = cat(s, "            ");
        s = cat(s, "s += \"\\\"\";\n");
        s = cat(s, "            ");
        s = cat(s, "s += some_val");
        s = cat(s, as_str);
        s = cat(s, ";\n");
        s = cat(s, "            ");
        s = cat(s, "s += \"\\\"\";\n");
        s = cat(s, "        }");
    } else {
        s = cat(s, "        ");
        s = cat(s, "s += \"\\\"\";\n");
        s = cat(s, "        ");
        s = cat(s, "s += node.");
        s = cat(s, member);
        s = cat(s, as_str);
        s = cat(s, ";\n");
        s = cat(s, "        ");
        s = cat(s, "s += \"\\\"\";\n");
    }
    assert(s@ =~= s0 + quoted_part_source(member@, optional, as_str@));
    s
}

impl<'a> TypedPart<'a> {
    /// Appends the printer code for this part; without a member name only
    /// literal chars, tags and spaces print.
    #[verifier::spinoff_prover]
    #[verifier::rlimit(40)]
    pub fn add_to_source(
        &self,
        s: String,
        member_key: Option<&'a str>,
        optional: bool,
        data: &LangData<'a>,
    ) -> (r: String)
        requires
            data.wf(),
            part_source_ok(data, *self, member_key),
        ensures
            r@ == s@ + part_source_text(data, *self, member_key, optional),
    {
        let ghost s0 = s@;
        let mut s = s;
        match member_key {
            None => {
                s = unnamed_part_source(self, s);
            },
            Some(member_key) => {
                match self {
                    TypedPart::AstPart { key } => {
                        let resolved = data.resolve(key);
                        let ast_type = resolved.get_ast_type();
                        assert(ast_type@ == data.resolved(key@).name());
                        s = emit_ast_part_source(s, data.sc(ast_type), data.sc(member_key), optional);
                        assert(s@ =~= s0 + part_source_text(data, *self, Some(member_key), optional));
                    },
                    TypedPart::ListPart { key } => {
                        let list_data = match data.list_data.get(key) {
                            Some(l) => l,
                            None => {
                                assert(false);
                                return s;
                            },
                        };
                        let sep_part = match list_data.sep {
                            Some(sep_key) => match data.typed_parts.get(sep_key) {
                                Some(p) => Some(p),
                                None => {
                                    assert(false);
                                    None
                                },
                            },
                            None => None,
                        };
                        let resolved = data.resolve(key);
                        let ast_type = resolved.get_ast_type();
                        assert(ast_type@ == data.resolved(key@).name());
                        s = emit_list_part_source(s, data.sc(ast_type), data.sc(member_key), optional, sep_part);
                        assert(s@ =~= s0 + part_source_text(data, *self, Some(member_key), optional));
                    },
                    TypedPart::IntPart { .. } => {
                        s = emit_plain_part_source(
                            s,
                            member_key,
                            optional,
                            "s += &some_val.to_string();\n",
                            "&",
                            ".to_string();\n",
                        );
                    },
                    TypedPart::StringPart { .. } => {
                        proof {
                            reveal_strlit("");
                        }
                        s = emit_quoted_part_source(s, data.sc(member_key), optional, "");
                        assert(s@ =~= s0 + part_source_text(data, *self, Some(member_key), optional));
                    },
                    TypedPart::StrPart { .. } => {
                        proof {
                            reveal_strlit("");
                        }
                        s = emit_quoted_part_source(s, member_key, optional, "");
                        assert(s@ =~= s0 + part_source_text(data, *self, Some(member_key), optional));
                    },
                    // Fn should probably be able to handle its own
                    TypedPart::IdentPart { .. } | TypedPart::FnPart { .. } => {
                        proof {
                            reveal_strlit("");
                        }
                        s = emit_plain_part_source(s, member_key, optional, "s += some_val;\n", "", ";\n");
                        assert(s@ =~= s0 + part_source_text(data, *self, Some(member_key), optional));
                    },
                    TypedPart::CharPart { chr, .. } => {
                        // Assuming parsed to bool
                        let line = cat(cat_char(owned("s.push('"), *chr), "');\n");
                        assert(line@ =~= "s.push('"@ + seq![*chr] + "');\n"@);
                        s = emit_flag_part_source(s, member_key, line.as_str());
                    },
                    TypedPart::TagPart { tag, .. } => {
                        // Assuming parsed to bool
                        let line = cat(cat(owned("s += \""), tag), "\";\n");
                        assert(line@ =~= "s += \""@ + tag@ + "\";\n"@);
                        s = emit_flag_part_source(s, member_key, line.as_str());
                    },
                    TypedPart::WSPart => {
                        s = cat(s, "        ");
                        s = cat(s, "s += \" \"");
                    },
                }
            },
        }
        assert(s@ =~= s0 + part_source_text(data, *self, member_key, optional));
        s
    }
}
} // verus!
