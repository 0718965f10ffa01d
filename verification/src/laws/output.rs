//! Properties of the generated sources: what each piece of a description
//! turns into in the code the generator writes.
use vstd::prelude::*;
use crate::laws::{holds_text, lemma_concat_map_holds, lemma_holds_text_trans, split_at};
use crate::lang_data::data::{LangData, Resolved};
use crate::lang_data::ast::{member_is_option, member_type_text, struct_needs_lifetime, AstEnum, AstStruct, AstStructMember};
use crate::lang_data::rule_parser::{member_capture, opt_text, part_parser, parts_parser, GenState};
use crate::process::codegen_ast::{
    as_methods, ast_source, ctor_args, ctor_params, enum_type, enum_block, impl_head, member_decl, struct_block, struct_ctor,
    struct_decl, struct_type, enum_decl, enum_impl, enum_item_ctor, item_ctor_body, item_ctor_sig,
};
use crate::text::{concat_map, join, join_upto};
use crate::common::parsers::{quoted_body, quoted_match};
use crate::lang_data::typed_part::part_parser_text;
use crate::lang_data::rule::{regex_escape, regex_escaped, CView, CollectPartReturn, RegexV};
use crate::lang_data::rule_syntax::collect_step;
use crate::process::codegen_syntax::ParentsV;
use crate::descr_lang::ast::{AnnotArg, Annotation, Source, SourceItem, Token};
use crate::descr_lang::to_source::{
    flag, src_annot_arg, src_annot_arg_val, src_annot_args, src_annotation, src_annotations, src_source, src_source_item,
    src_named_token, src_simple_token, src_token, src_token_group, src_token_type, src_tokens_upto,
};
use crate::strmap::sorted_names;
use crate::lang_data::data::snake;
use crate::lang_data::typed_part::{auto_member, TypedPart};
use crate::lang_data::rule_part::{lemma_group_part_smaller, part_member_data, part_size, parts_member_data};
use crate::lang_data::rule::AstRulePartMemberData;
use crate::lang_data::rule::{AstPartsRule, AstRulePart, AstRuleToken};
use crate::lang_data::rule_source::part_source;
use crate::process::codegen_tosource::{
    all_parts_rules, enum_printer, group_rules, rules_source, space_line, tosource_header, tosource_source, type_printer,
};

verus! {

/// `part` occurs in `pre + part + post`.
pub proof fn lemma_holds_mid(pre: Seq<char>, part: Seq<char>, post: Seq<char>)
    ensures
        holds_text(pre + part + post, part),
{
    assert(split_at(pre + part + post, pre, part, post));
}

/// For every item of an enum with data that is a struct, the AST source
/// has the item's constructor build the enum item from the item struct's
/// own constructor, given the struct's members in order (boxed where the
/// item is boxed): `Enum::ItemItem(Item::new(args))`.
#[verifier::spinoff_prover]
pub proof fn law_item_ctor_calls_item_new<'a>(data: &LangData<'a>, i: int, k: int, sk: Seq<char>)
    requires
        0 <= i < data.ast_enums.vals@.len(),
        !data.simple_enums@.contains_key(data.ast_enums.vals@[i].name@),
        0 <= k < data.ast_enums.vals@[i].items@.len(),
        data.resolved(data.ast_enums.vals@[i].items@[k]@) == Resolved::Struct(sk),
    ensures
        ({
            let e = data.ast_enums.vals@[i];
            let item = e.items@[k];
            let boxed = e.boxed_items@.contains_key(item@);
            &&& holds_text(
                ast_source(data),
                e.name@ + "::"@ + item@ + "Item("@ + (if boxed {
                    "Box::new("@
                } else {
                    Seq::empty()
                }) + item@ + "::new("@ + ctor_args(data.ast_structs@[sk]) + ")"@,
            )
            &&& holds_text(ast_source(data), "pub fn "@ + snake(item@) + "("@)
        }),
{
    let e = data.ast_enums.vals@[i];
    let item = e.items@[k];
    let boxed = e.boxed_items@.contains_key(item@);
    let st = data.ast_structs@[sk];
    let target = e.name@ + "::"@ + item@ + "Item("@ + (if boxed {
        "Box::new("@
    } else {
        Seq::empty()
    }) + item@ + "::new("@ + ctor_args(st) + ")"@;
    // The body of the item's constructor holds the call.
    let body = item_ctor_body(e, item, st);
    reveal_strlit("))");
    reveal_strlit(")");
    assert(body =~= "        "@ + target + (")"@ + opt_text(boxed, ")"@) + "\n    }\n"@));
    lemma_holds_mid("        "@, target, ")"@ + opt_text(boxed, ")"@) + "\n    }\n"@);
    // The constructor is signature then body.
    let ctor = enum_item_ctor(data, e, item);
    assert(ctor == item_ctor_sig(data, e, item, st) + body);
    assert(ctor =~= item_ctor_sig(data, e, item, st) + body + Seq::<char>::empty());
    lemma_holds_mid(item_ctor_sig(data, e, item, st), body, Seq::<char>::empty());
    lemma_holds_text_trans(ctor, body, target);
    let sig_part = "pub fn "@ + snake(item@) + "("@;
    let sig = item_ctor_sig(data, e, item, st);
    assert(ctor =~= ("\n"@ + "    "@) + sig_part + (ctor_params(data, st) + ") -> "@ + enum_type(data, e) + " {\n"@ + body));
    lemma_holds_mid("\n"@ + "    "@, sig_part, ctor_params(data, st) + ") -> "@ + enum_type(data, e) + " {\n"@ + body);
    // The enum's impl holds every item constructor.
    let fc = |x: &'a str| enum_item_ctor(data, e, x);
    lemma_concat_map_holds(e.items@, fc, k);
    lemma_holds_text_trans(concat_map(e.items@, fc), ctor, target);
    lemma_holds_text_trans(concat_map(e.items@, fc), ctor, sig_part);
    let imp = enum_impl(data, e);
    let (hd, tl) = (crate::process::codegen_ast::impl_head(
        crate::lang_data::ast::enum_needs_lifetime(data, e),
        crate::process::codegen_ast::enum_type(data, e),
        " {"@,
    ), "}\n\n"@);
    assert(imp =~= hd + concat_map(e.items@, fc) + tl);
    lemma_holds_mid(hd, concat_map(e.items@, fc), tl);
    lemma_holds_text_trans(imp, concat_map(e.items@, fc), target);
    lemma_holds_text_trans(imp, concat_map(e.items@, fc), sig_part);
    // The enum's block holds its impl, the enum not being simple.
    let blk = enum_block(data, e);
    assert(blk =~= enum_decl(data, e) + imp + Seq::<char>::empty());
    lemma_holds_mid(enum_decl(data, e), imp, Seq::<char>::empty());
    lemma_holds_text_trans(blk, imp, target);
    lemma_holds_text_trans(blk, imp, sig_part);
    // The source holds every enum's block.
    let fe = |x: AstEnum<'a>| enum_block(data, x);
    lemma_concat_map_holds(data.ast_enums.vals@, fe, i);
    lemma_holds_text_trans(concat_map(data.ast_enums.vals@, fe), blk, target);
    lemma_holds_text_trans(concat_map(data.ast_enums.vals@, fe), blk, sig_part);
    let structs = concat_map(data.ast_structs.vals@, |st: crate::lang_data::ast::AstStruct<'a>| crate::process::codegen_ast::struct_block(data, st));
    assert(ast_source(data) =~= structs + concat_map(data.ast_enums.vals@, fe) + Seq::<char>::empty());
    lemma_holds_mid(structs, concat_map(data.ast_enums.vals@, fe), Seq::<char>::empty());
    lemma_holds_text_trans(ast_source(data), concat_map(data.ast_enums.vals@, fe), target);
    lemma_holds_text_trans(ast_source(data), concat_map(data.ast_enums.vals@, fe), sig_part);
}

/// Printer code that appends the literal text `lit`.
pub open spec fn push_literal(lit: Seq<char>) -> Seq<char> {
    if lit.len() == 1 {
        "        s.push('"@ + lit + "');\n"@
    } else {
        "        s += \""@ + lit + "\";\n"@
    }
}

/// The literal text an unnamed part of a rule stands for: the char of a
/// char key, the text of a tag key or of a quoted token; `None` for parts
/// that are not literal.
pub open spec fn literal_of<'a>(data: &LangData<'a>, p: AstRulePart<'a>) -> Option<Seq<char>> {
    if p.not || p.member_key is Some || p.optional {
        None
    } else {
        match p.token {
            AstRuleToken::Key(k) => if data.typed_parts@.contains_key(k@) {
                match data.typed_parts@[k@] {
                    TypedPart::CharPart { chr, .. } => Some(seq![chr]),
                    TypedPart::TagPart { tag, .. } => if tag@.len() != 1 {
                        Some(tag@)
                    } else {
                        None
                    },
                    _ => None,
                }
            } else {
                None
            },
            AstRuleToken::Tag(q) => if q@.len() != 1 {
                Some(q@)
            } else {
                None
            },
            _ => None,
        }
    }
}

/// For every type printed by rules, the printer the to-source module has
/// for it appends the literal text of every unnamed literal part of its
/// rules: `s.push('c')` for a char, `s += "text"` for a tag or quoted token.
#[verifier::spinoff_prover]
pub proof fn law_printer_keeps_literals<'d>(data: &LangData<'d>, n: int, ri: int, pj: int)
    requires
        ({
            let m = group_rules(all_parts_rules(data));
            let names = sorted_names(m.dom());
            &&& 0 <= n < names.len()
            &&& !data.simple_structs@.contains_key(names[n])
            &&& 0 <= ri < m[names[n]].len()
            &&& 0 <= pj < m[names[n]][ri].parts@.len()
            &&& literal_of(data, m[names[n]][ri].parts@[pj]) is Some
        }),
    ensures
        ({
            let m = group_rules(all_parts_rules(data));
            let t = sorted_names(m.dom())[n];
            let p = m[t][ri].parts@[pj];
            holds_text(tosource_source(data), push_literal(literal_of(data, p)->0))
        }),
{
    let m = group_rules(all_parts_rules(data));
    let names = sorted_names(m.dom());
    let t = names[n];
    let rules = m[t];
    let r = rules[ri];
    let p = r.parts@[pj];
    let lit = literal_of(data, p)->0;
    let target = push_literal(lit);
    reveal_strlit("        ");
    reveal_strlit("s.push('");
    reveal_strlit("        s.push('");
    reveal_strlit("');\n");
    reveal_strlit("s += \"");
    reveal_strlit("        s += \"");
    reveal_strlit("\";\n");
    assert(part_source(p, data, false) =~= target);
    lemma_holds_mid(Seq::<char>::empty(), target, Seq::<char>::empty());
    assert(Seq::<char>::empty() + target + Seq::<char>::empty() =~= part_source(p, data, false));
    lemma_printer_holds_part(data, n, ri, pj);
    lemma_holds_text_trans(tosource_source(data), part_source(p, data, false), target);
}

/// A string part is read by the generated parser as a str part is, with
/// the quoted-string parser `quoted_str` (inside `debug_wrap!` when
/// debugging), whatever the keys.
pub proof fn law_string_parts_read_quoted<'a>(data: &LangData<'a>, k1: &'a str, k2: &'a str)
    ensures
        part_parser_text(data, TypedPart::StringPart { key: k1 }) == part_parser_text(data, TypedPart::StrPart { key: k2 }),
        part_parser_text(data, TypedPart::StringPart { key: k1 }) == (if data.debug {
            "debug_wrap!(quoted_str)"@
        } else {
            "quoted_str"@
        }),
{
    reveal_strlit("debug_wrap!(");
    reveal_strlit("quoted_str");
    reveal_strlit(")");
    reveal_strlit("debug_wrap!(quoted_str)");
    assert(part_parser_text(data, TypedPart::StringPart { key: k1 }) =~= (if data.debug {
        "debug_wrap!(quoted_str)"@
    } else {
        "quoted_str"@
    }));
}

/// A char regex-escaped: a `\\` before each char that is special in a
/// regex, so the regex matches the char itself.
pub open spec fn literal_regex(c: char) -> Seq<char> {
    if c == '(' || c == ')' || c == '{' || c == '}' || c == '[' || c == ']' || c == '?' || c == '.' || c == '+' || c
        == '*' || c == '\\' {
        seq!['\\', c]
    } else {
        seq![c]
    }
}

/// Collecting a char part for the grammar adds one regex, which matches
/// exactly that char (escaped where the char is special in a regex), and
/// the same regex a one-char tag token of that char adds.
pub proof fn law_char_regex_is_literal<'a>(
    rt: Seq<char>,
    p: AstRulePart<'a>,
    c: CView,
    pe: ParentsV,
    d: LangData<'a>,
    k: &'a str,
    chr: char,
)
    requires
        p.token == AstRuleToken::Key(k),
        d.typed_parts@.contains_key(k@),
        d.typed_parts@[k@] matches TypedPart::CharPart { chr: ch, .. } && ch == chr,
    ensures
        ({
            let (c2, pe2, ret) = collect_step(rt, p, c, pe, d);
            &&& pe2 == pe
            &&& ret == CollectPartReturn::Continue
            &&& c2.regexes.len() == c.regexes.len() + 1
            &&& c2.regexes.drop_last() == c.regexes
            &&& c2.regexes.last() matches RegexV::Regex { regex, not, optional, .. } && regex == literal_regex(chr)
                && not == p.not && optional == p.optional
        }),
        ({
            let tagp = AstRulePart { token: AstRuleToken::Tag(k), ..p };
            seq![chr] == k@ ==> (collect_step(rt, tagp, c, pe, d).0.regexes.last() matches RegexV::Regex { regex, .. }
                && regex == literal_regex(chr))
        }),
{
    let one = seq![chr];
    assert(one.drop_last() =~= Seq::<char>::empty());
    assert(regex_escaped(one) =~= regex_escaped(Seq::<char>::empty()) + regex_escape(chr));
    assert(regex_escaped(one) =~= literal_regex(chr));
    let (c2, pe2, ret) = collect_step(rt, p, c, pe, d);
    assert(c2.regexes.drop_last() =~= c.regexes);
    if seq![chr] == k@ {
        let tagp = AstRulePart { token: AstRuleToken::Tag(k), ..p };
        assert(regex_escaped(k@) == literal_regex(chr));
    }
}

/// The printed text of an annotation holds the printed text of each of its
/// arguments, and that holds the argument's key and printed value.
#[verifier::spinoff_prover]
pub proof fn law_annotation_prints_arguments(node: Annotation, i: int)
    requires
        node.annot_args is Some,
        0 <= i < node.annot_args->0.annot_arg_list@.len(),
    ensures
        ({
            let a = node.annot_args->0.annot_arg_list@[i];
            &&& holds_text(src_annotation(node), src_annot_arg(a))
            &&& holds_text(src_annot_arg(a), a.key@)
            &&& holds_text(src_annot_arg(a), src_annot_arg_val(a.annot_arg_val))
        }),
{
    let args = node.annot_args->0;
    let a = args.annot_arg_list@[i];
    let parts = args.annot_arg_list@.map_values(|x: AnnotArg| src_annot_arg(x));
    lemma_join_holds(parts, seq![','], parts.len() as int, i);
    assert(parts[i] == src_annot_arg(a));
    let inner = join(parts, seq![',']);
    assert(src_annot_args(args) =~= (" "@ + seq!['('] + " "@) + inner + (" "@ + seq![')']));
    lemma_holds_mid(" "@ + seq!['('] + " "@, inner, " "@ + seq![')']);
    lemma_holds_text_trans(src_annot_args(args), inner, src_annot_arg(a));
    let head = " "@ + "@"@ + " "@ + node.ident@ + " "@;
    assert(src_annotation(node) =~= head + src_annot_args(args) + Seq::<char>::empty());
    lemma_holds_mid(head, src_annot_args(args), Seq::<char>::empty());
    lemma_holds_text_trans(src_annotation(node), src_annot_args(args), src_annot_arg(a));
    assert(src_annot_arg(a) =~= " "@ + a.key@ + (" "@ + seq!['='] + " "@ + src_annot_arg_val(a.annot_arg_val)));
    lemma_holds_mid(" "@, a.key@, " "@ + seq!['='] + " "@ + src_annot_arg_val(a.annot_arg_val));
    assert(src_annot_arg(a) =~= (" "@ + a.key@ + " "@ + seq!['='] + " "@) + src_annot_arg_val(a.annot_arg_val)
        + Seq::<char>::empty());
    lemma_holds_mid(" "@ + a.key@ + " "@ + seq!['='] + " "@, src_annot_arg_val(a.annot_arg_val), Seq::<char>::empty());
}

proof fn lemma_join_holds(parts: Seq<Seq<char>>, sep: Seq<char>, n: int, i: int)
    requires
        0 <= i < n <= parts.len(),
    ensures
        holds_text(join_upto(parts, sep, n), parts[i]),
    decreases n,
{
    let tail = if n - 1 < parts.len() - 1 {
        sep
    } else {
        Seq::<char>::empty()
    };
    if i == n - 1 {
        lemma_holds_mid(join_upto(parts, sep, n - 1), parts[i], tail);
    } else {
        lemma_join_holds(parts, sep, n - 1, i);
        lemma_holds_mid(Seq::<char>::empty(), join_upto(parts, sep, n - 1), parts[n - 1] + tail);
        assert(join_upto(parts, sep, n) =~= Seq::<char>::empty() + join_upto(parts, sep, n - 1) + (parts[n - 1] + tail));
        lemma_holds_text_trans(join_upto(parts, sep, n), join_upto(parts, sep, n - 1), parts[i]);
    }
}

/// The text regex-escaped char by char.
pub open spec fn literal_regex_text(t: Seq<char>) -> Seq<char>
    decreases t.len(),
{
    if t.len() == 0 {
        Seq::empty()
    } else {
        literal_regex_text(t.drop_last()) + literal_regex(t.last())
    }
}

proof fn lemma_regex_escaped_literal(t: Seq<char>)
    ensures
        regex_escaped(t) == literal_regex_text(t),
    decreases t.len(),
{
    if t.len() > 0 {
        lemma_regex_escaped_literal(t.drop_last());
    }
}

/// Collecting a tag, given as a token or as a tag key, adds one regex that
/// matches exactly the tag's text: each char of it escaped where it is
/// special in a regex.
pub proof fn law_tag_regex_is_literal<'a>(rt: Seq<char>, p: AstRulePart<'a>, c: CView, pe: ParentsV, d: LangData<'a>)
    requires
        p.token is Tag || (p.token matches AstRuleToken::Key(k) && d.typed_parts@.contains_key(k@)
            && d.typed_parts@[k@] is TagPart),
    ensures
        ({
            let text = match p.token {
                AstRuleToken::Tag(q) => q@,
                AstRuleToken::Key(k) => match d.typed_parts@[k@] {
                    TypedPart::TagPart { tag, .. } => tag@,
                    _ => Seq::empty(),
                },
                _ => Seq::empty(),
            };
            let (c2, pe2, ret) = collect_step(rt, p, c, pe, d);
            &&& pe2 == pe
            &&& ret == CollectPartReturn::Continue
            &&& c2.regexes.drop_last() == c.regexes
            &&& c2.regexes.len() == c.regexes.len() + 1
            &&& (c2.regexes.last() matches RegexV::Regex { regex, .. } && regex == literal_regex_text(text))
        }),
{
    let (c2, pe2, ret) = collect_step(rt, p, c, pe, d);
    assert(c2.regexes.drop_last() =~= c.regexes);
    match p.token {
        AstRuleToken::Tag(q) => lemma_regex_escaped_literal(q@),
        AstRuleToken::Key(k) => match d.typed_parts@[k@] {
            TypedPart::TagPart { tag, .. } => lemma_regex_escaped_literal(tag@),
            _ => {},
        },
        _ => {},
    }
}

/// The generated parser reads a char part with `char!` of that very char,
/// and a tag part with `tag!` of that very text.
pub proof fn law_literal_parsers<'a>(data: &LangData<'a>, tp: TypedPart<'a>)
    ensures
        tp matches TypedPart::CharPart { chr, .. } ==> holds_text(
            part_parser_text(data, tp),
            "char!('"@ + seq![chr] + "')"@,
        ),
        tp matches TypedPart::TagPart { tag, .. } ==> holds_text(
            part_parser_text(data, tp),
            "tag!(\""@ + tag@ + "\")"@,
        ),
        tp is IdentPart ==> holds_text(part_parser_text(data, tp), "ident"@),
        tp is IntPart ==> holds_text(part_parser_text(data, tp), "parse_int"@),
{
    let pre = if data.debug {
        "debug_wrap!("@
    } else {
        Seq::<char>::empty()
    };
    let post = if data.debug {
        ")"@
    } else {
        Seq::<char>::empty()
    };
    match tp {
        TypedPart::CharPart { chr, .. } => lemma_holds_mid(pre, "char!('"@ + seq![chr] + "')"@, post),
        TypedPart::TagPart { tag, .. } => lemma_holds_mid(pre, "tag!(\""@ + tag@ + "\")"@, post),
        TypedPart::IdentPart { .. } => lemma_holds_mid(pre, "ident"@, post),
        TypedPart::IntPart { .. } => lemma_holds_mid(pre, "parse_int"@, post),
        _ => {},
    }
}

proof fn lemma_printer_holds_part<'d>(data: &LangData<'d>, n: int, ri: int, pj: int)
    requires
        ({
            let m = group_rules(all_parts_rules(data));
            let names = sorted_names(m.dom());
            &&& 0 <= n < names.len()
            &&& !data.simple_structs@.contains_key(names[n])
            &&& 0 <= ri < m[names[n]].len()
            &&& 0 <= pj < m[names[n]][ri].parts@.len()
        }),
    ensures
        ({
            let m = group_rules(all_parts_rules(data));
            let t = sorted_names(m.dom())[n];
            holds_text(tosource_source(data), part_source(m[t][ri].parts@[pj], data, false))
        }),
{
    let m = group_rules(all_parts_rules(data));
    let names = sorted_names(m.dom());
    let t = names[n];
    let rules = m[t];
    let r = rules[ri];
    let p = r.parts@[pj];
    let target = part_source(p, data, false);
    let sp = space_line();
    let fp = |q: AstRulePart<'d>| sp + part_source(q, data, false);
    lemma_holds_mid(sp, part_source(p, data, false), Seq::<char>::empty());
    assert(fp(p) =~= sp + part_source(p, data, false) + Seq::<char>::empty());
    lemma_concat_map_holds(r.parts@, fp, pj);
    lemma_holds_text_trans(concat_map(r.parts@, fp), fp(p), target);
    let fr = |x: AstPartsRule<'d>| concat_map(x.parts@, |q: AstRulePart<'d>| sp + part_source(q, data, false));
    lemma_concat_map_holds(rules, fr, ri);
    assert(fr(r) == concat_map(r.parts@, fp));
    lemma_holds_text_trans(rules_source(data, rules, sp), fr(r), target);
    let head = "    pub fn "@ + snake(t) + "(mut s: String, node: &'a "@ + t + ") -> String {\n"@;
    let tail = "        s\n"@ + "    }\n\n"@;
    assert(type_printer(data, t, rules) =~= head + rules_source(data, rules, sp) + tail);
    lemma_holds_mid(head, rules_source(data, rules, sp), tail);
    lemma_holds_text_trans(type_printer(data, t, rules), rules_source(data, rules, sp), target);
    let ft = |x: Seq<char>| type_printer(data, x, m[x]);
    lemma_concat_map_holds(names, ft, n);
    lemma_holds_text_trans(concat_map(names, ft), type_printer(data, t, rules), target);
    let fe = |e: AstEnum<'d>| enum_printer(data, e, m);
    assert(tosource_source(data) =~= tosource_header() + concat_map(names, ft) + (concat_map(data.ast_enums.vals@, fe)
        + "}"@));
    lemma_holds_mid(tosource_header(), concat_map(names, ft), concat_map(data.ast_enums.vals@, fe) + "}"@);
    lemma_holds_text_trans(tosource_source(data), concat_map(names, ft), target);
}

/// For every named part of a type's rules that holds a value (a number,
/// an identifier, a string, a function's text, or a char or tag flag), the
/// printer the to-source module has for the type reads the member of that
/// name.
#[verifier::spinoff_prover]
pub proof fn law_printer_reads_members<'d>(data: &LangData<'d>, n: int, ri: int, pj: int)
    requires
        ({
            let m = group_rules(all_parts_rules(data));
            let names = sorted_names(m.dom());
            &&& 0 <= n < names.len()
            &&& !data.simple_structs@.contains_key(names[n])
            &&& 0 <= ri < m[names[n]].len()
            &&& 0 <= pj < m[names[n]][ri].parts@.len()
            &&& m[names[n]][ri].parts@[pj].member_key is Some
            &&& !m[names[n]][ri].parts@[pj].not
            &&& m[names[n]][ri].parts@[pj].token matches AstRuleToken::Key(k) && data.typed_parts@.contains_key(k@)
                && !(data.typed_parts@[k@] is WSPart) && !(data.typed_parts@[k@] is AstPart)
                && !(data.typed_parts@[k@] is ListPart)
        }),
    ensures
        ({
            let m = group_rules(all_parts_rules(data));
            let t = sorted_names(m.dom())[n];
            let p = m[t][ri].parts@[pj];
            let mk = p.member_key->0;
            holds_text(tosource_source(data), mk@) || holds_text(tosource_source(data), snake(mk@))
        }),
{
    let m = group_rules(all_parts_rules(data));
    let t = sorted_names(m.dom())[n];
    let p = m[t][ri].parts@[pj];
    let mk = p.member_key->0;
    let k = match p.token {
        AstRuleToken::Key(k) => k,
        _ => p.member_key->0,
    };
    let tp = data.typed_parts@[k@];
    let text = part_source(p, data, false);
    lemma_printer_holds_part(data, n, ri, pj);
    let o = p.optional;
    let smk = snake(mk@);
    match tp {
        TypedPart::IntPart { .. } => {
            if o {
                lemma_holds_mid("        "@ + "if let Some(some_val) = node."@, mk@, " {\n    "@ + "            "@ + "s += &some_val.to_string();\n"@ + "        }"@);
                assert(text =~= ("        "@ + "if let Some(some_val) = node."@) + mk@ + (" {\n    "@ + "            "@ + "s += &some_val.to_string();\n"@ + "        }"@));
            } else {
                lemma_holds_mid("        "@ + "s += "@ + "&"@ + "node."@, mk@, ".to_string();\n"@);
                assert(text =~= ("        "@ + "s += "@ + "&"@ + "node."@) + mk@ + ".to_string();\n"@);
            }
            lemma_holds_text_trans(tosource_source(data), text, mk@);
        },
        TypedPart::IdentPart { .. } | TypedPart::FnPart { .. } => {
            if o {
                lemma_holds_mid("        "@ + "if let Some(some_val) = node."@, mk@, " {\n    "@ + "            "@ + "s += some_val;\n"@ + "        }"@);
                assert(text =~= ("        "@ + "if let Some(some_val) = node."@) + mk@ + (" {\n    "@ + "            "@ + "s += some_val;\n"@ + "        }"@));
            } else {
                lemma_holds_mid("        "@ + "s += "@ + Seq::<char>::empty() + "node."@, mk@, ";\n"@);
                assert(text =~= ("        "@ + "s += "@ + Seq::<char>::empty() + "node."@) + mk@ + ";\n"@);
            }
            lemma_holds_text_trans(tosource_source(data), text, mk@);
        },
        TypedPart::StringPart { .. } | TypedPart::StrPart { .. } => {
            let mm = if tp is StringPart {
                smk
            } else {
                mk@
            };
            if o {
                let post = " {\n    "@ + "            "@ + "s += \"\\\"\";\n"@ + "            "@ + "s += some_val"@ + Seq::<char>::empty()
                    + ";\n"@ + "            "@ + "s += \"\\\"\";\n"@ + "        }"@;
                lemma_holds_mid("        "@ + "if let Some(some_val) = node."@, mm, post);
                assert(text =~= ("        "@ + "if let Some(some_val) = node."@) + mm + post);
            } else {
                let pre = "        "@ + "s += \"\\\"\";\n"@ + "        "@ + "s += node."@;
                let post = Seq::<char>::empty() + ";\n"@ + "        "@ + "s += \"\\\"\";\n"@;
                lemma_holds_mid(pre, mm, post);
                assert(text =~= pre + mm + post);
            }
            lemma_holds_text_trans(tosource_source(data), text, mm);
        },
        TypedPart::CharPart { chr, .. } => {
            let post = " {\n    "@ + "            "@ + ("s.push('"@ + seq![chr] + "');\n"@) + "    }"@;
            lemma_holds_mid("        "@ + "if node."@, mk@, post);
            assert(text =~= ("        "@ + "if node."@) + mk@ + post);
            lemma_holds_text_trans(tosource_source(data), text, mk@);
        },
        TypedPart::TagPart { tag, .. } => {
            let post = " {\n    "@ + "            "@ + ("s += \""@ + tag@ + "\";\n"@) + "    }"@;
            lemma_holds_mid("        "@ + "if node."@, mk@, post);
            assert(text =~= ("        "@ + "if node."@) + mk@ + post);
            lemma_holds_text_trans(tosource_source(data), text, mk@);
        },
        _ => {},
    }
}

proof fn lemma_member_decl_parts<'a>(data: &LangData<'a>, mb: AstStructMember<'a>)
    ensures
        holds_text(member_decl(data, mb), "pub "@ + mb.snake_case@ + ": "@),
        holds_text(member_decl(data, mb), member_type_text(data, mb.tpe)),
{
    let md = member_decl(data, mb);
    let opt = member_is_option(data, mb.tpe, mb);
    let a = "pub "@ + mb.snake_case@ + ": "@;
    let b = member_type_text(data, mb.tpe);
    let o1 = opt_text(opt, "Option<"@);
    let o2 = opt_text(mb.boxed, "Box<"@);
    let post_b = opt_text(mb.boxed, ">"@) + opt_text(opt, ">"@) + ",\n"@;
    assert(md =~= "    "@ + a + (o1 + o2 + b + post_b));
    lemma_holds_mid("    "@, a, o1 + o2 + b + post_b);
    assert(md =~= ("    "@ + a + o1 + o2) + b + post_b);
    lemma_holds_mid("    "@ + a + o1 + o2, b, post_b);
}

proof fn lemma_struct_head_in_decl<'a>(data: &LangData<'a>, st: AstStruct<'a>)
    ensures
        holds_text(struct_decl(data, st), "pub struct "@ + struct_type(data, st) + " {\n"@),
{
    let head = "pub struct "@ + struct_type(data, st) + " {\n"@;
    let fm = |m: AstStructMember<'a>| member_decl(data, m);
    let ms = concat_map(st.members.vals@, fm);
    assert(struct_decl(data, st) =~= "#[derive(Debug)]\n"@ + head + (ms + "}\n\n"@));
    lemma_holds_mid("#[derive(Debug)]\n"@, head, ms + "}\n\n"@);
}

proof fn lemma_struct_block_in_source<'a>(data: &LangData<'a>, i: int, x: Seq<char>)
    requires
        0 <= i < data.ast_structs.vals@.len(),
        holds_text(struct_block(data, data.ast_structs.vals@[i]), x),
    ensures
        holds_text(ast_source(data), x),
{
    let st = data.ast_structs.vals@[i];
    let fs = |y: AstStruct<'a>| struct_block(data, y);
    lemma_concat_map_holds(data.ast_structs.vals@, fs, i);
    let structs = concat_map(data.ast_structs.vals@, fs);
    let fe = |y: AstEnum<'a>| enum_block(data, y);
    assert(ast_source(data) =~= Seq::<char>::empty() + structs + concat_map(data.ast_enums.vals@, fe));
    lemma_holds_mid(Seq::<char>::empty(), structs, concat_map(data.ast_enums.vals@, fe));
    lemma_holds_text_trans(structs, struct_block(data, st), x);
    lemma_holds_text_trans(ast_source(data), structs, x);
}

/// For every struct that is not simple, the AST source declares it, with
/// each of its members as a public field of its name and type (in `Option`
/// and `Box` where it is optional or boxed).
pub proof fn law_struct_declared<'a>(data: &LangData<'a>, i: int, k: int)
    requires
        0 <= i < data.ast_structs.vals@.len(),
        !data.simple_structs@.contains_key(data.ast_structs.vals@[i].name@),
        0 <= k < data.ast_structs.vals@[i].members.vals@.len(),
    ensures
        holds_text(ast_source(data), "pub struct "@ + struct_type(data, data.ast_structs.vals@[i]) + " {\n"@),
        holds_text(ast_source(data), "pub "@ + data.ast_structs.vals@[i].members.vals@[k].snake_case@ + ": "@),
        holds_text(ast_source(data), member_type_text(data, data.ast_structs.vals@[i].members.vals@[k].tpe)),
{
    let st = data.ast_structs.vals@[i];
    let mb = st.members.vals@[k];
    let head = "pub struct "@ + struct_type(data, st) + " {\n"@;
    let a = "pub "@ + mb.snake_case@ + ": "@;
    let b = member_type_text(data, mb.tpe);
    lemma_struct_head_in_decl(data, st);
    lemma_struct_decl_in_block(data, st, head);
    lemma_struct_block_in_source(data, i, head);
    lemma_member_decl_parts(data, mb);
    lemma_member_in_decl(data, st, k, a);
    lemma_member_in_decl(data, st, k, b);
    lemma_struct_decl_in_block(data, st, a);
    lemma_struct_decl_in_block(data, st, b);
    lemma_struct_block_in_source(data, i, a);
    lemma_struct_block_in_source(data, i, b);
}

proof fn lemma_struct_decl_in_block<'a>(data: &LangData<'a>, st: AstStruct<'a>, x: Seq<char>)
    requires
        !data.simple_structs@.contains_key(st.name@),
        holds_text(struct_decl(data, st), x),
    ensures
        holds_text(struct_block(data, st), x),
{
    let decl = struct_decl(data, st);
    let rest = impl_head(struct_needs_lifetime(data, st), struct_type(data, st), " {\n"@) + struct_ctor(data, st)
        + as_methods(data, st) + "}\n\n"@;
    assert(struct_block(data, st) =~= Seq::<char>::empty() + decl + rest);
    lemma_holds_mid(Seq::<char>::empty(), decl, rest);
    lemma_holds_text_trans(struct_block(data, st), decl, x);
}

proof fn lemma_member_in_decl<'a>(data: &LangData<'a>, st: AstStruct<'a>, k: int, x: Seq<char>)
    requires
        0 <= k < st.members.vals@.len(),
        holds_text(member_decl(data, st.members.vals@[k]), x),
    ensures
        holds_text(struct_decl(data, st), x),
{
    let fm = |m: AstStructMember<'a>| member_decl(data, m);
    let ms = concat_map(st.members.vals@, fm);
    let head = "pub struct "@ + struct_type(data, st) + " {\n"@;
    assert(struct_decl(data, st) =~= ("#[derive(Debug)]\n"@ + head) + ms + "}\n\n"@);
    lemma_holds_mid("#[derive(Debug)]\n"@ + head, ms, "}\n\n"@);
    lemma_concat_map_holds(st.members.vals@, fm, k);
    lemma_holds_text_trans(ms, member_decl(data, st.members.vals@[k]), x);
    lemma_holds_text_trans(struct_decl(data, st), ms, x);
}


/// The parser code of a rule's parts reads every required key part, in
/// the sequence, with the parser of its typed part, captured under the
/// member's name where it has one: `sp >> name_k: parser >>`.
pub proof fn law_parts_parser_reads_keys<'a>(ps: Seq<AstRulePart<'a>>, data: &LangData<'a>, st: GenState, i: int)
    requires
        0 <= i < ps.len(),
        ps[i].token is Key,
        !ps[i].optional,
        !ps[i].not,
    ensures
        ({
            let p = ps[i];
            let k = p.token->Key_0;
            holds_text(
                parts_parser(ps, data, st).0,
                "        sp >> "@ + member_capture(p.member_key) + part_parser_text(data, data.typed_parts@[k@])
                    + " >>\n"@,
            )
        }),
    decreases ps.len(),
{
    let p = ps[i];
    let k = p.token->Key_0;
    let target = "        sp >> "@ + member_capture(p.member_key) + part_parser_text(data, data.typed_parts@[k@]) + " >>\n"@;
    let (t1, s1) = parts_parser(ps.drop_last(), data, st);
    let (t2, s2) = part_parser(ps.last(), data, s1);
    assert(parts_parser(ps, data, st).0 == t1 + t2);
    if i == ps.len() - 1 {
        reveal_strlit("        ");
        reveal_strlit("sp >> ");
        reveal_strlit("        sp >> ");
        reveal_strlit("");
        assert(t2 =~= target);
        lemma_holds_mid(t1, t2, Seq::<char>::empty());
        assert(t1 + t2 + Seq::<char>::empty() =~= t1 + t2);
    } else {
        assert(ps.drop_last()[i] == p);
        law_parts_parser_reads_keys(ps.drop_last(), data, st, i);
        lemma_holds_mid(Seq::<char>::empty(), t1, t2);
        assert(Seq::<char>::empty() + t1 + t2 =~= t1 + t2);
        lemma_holds_text_trans(t1 + t2, t1, target);
    }
}

proof fn lemma_ends_flag(x: Seq<char>, b: bool)
    ensures
        (x + " "@ + flag(b, '?')).len() > 0,
        (x + " "@ + flag(b, '?')).last() == '?' <==> b,
{
    reveal_strlit(" ");
    let y = x + " "@ + flag(b, '?');
    if b {
        assert(y.last() == '?');
    } else {
        assert(y =~= x + seq![' ']);
        assert(y.last() == ' ');
    }
}

proof fn lemma_flags_of(pre: Seq<char>, not: bool, mid: Seq<char>, opt: bool)
    ensures
        ({
            let text = pre + flag(not, '!') + mid + " "@ + flag(opt, '?');
            &&& text.len() > 0
            &&& (text.last() == '?' <==> opt)
            &&& not ==> holds_text(text, seq!['!'])
        }),
{
    let text = pre + flag(not, '!') + mid + " "@ + flag(opt, '?');
    lemma_ends_flag(pre + flag(not, '!') + mid, opt);
    if not {
        assert(text =~= pre + seq!['!'] + (mid + " "@ + flag(opt, '?')));
        lemma_holds_mid(pre, seq!['!'], mid + " "@ + flag(opt, '?'));
    }
}

/// A printed token ends in `?` exactly when it is optional, and holds a
/// `!` where it is negated.
#[verifier::spinoff_prover]
#[verifier::rlimit(100)]
pub proof fn law_token_prints_flags(t: Token)
    ensures
        src_token(t).len() > 0,
        src_token(t).last() == '?' <==> match t {
            Token::NamedTokenItem(n) => n.optional,
            Token::SimpleTokenItem(st) => st.optional,
            Token::TokenGroupItem(g) => g.optional,
        },
        match t {
            Token::NamedTokenItem(n) => n.not,
            Token::SimpleTokenItem(st) => st.not,
            Token::TokenGroupItem(g) => g.not,
        } ==> holds_text(src_token(t), seq!['!']),
{
    match t {
        Token::NamedTokenItem(n) => {
            let pre = " "@ + src_annotations(n.annots@) + " "@ + n.name@ + " "@ + seq![':'] + " "@;
            let mid = " "@ + src_token_type(n.token_type);
            lemma_flags_of(pre, n.not, mid, n.optional);
            assert(src_named_token(n) =~= pre + flag(n.not, '!') + mid + " "@ + flag(n.optional, '?'));
        },
        Token::SimpleTokenItem(st) => {
            let pre = " "@ + src_annotations(st.annots@) + " "@;
            let mid = " "@ + src_token_type(st.token_type);
            lemma_flags_of(pre, st.not, mid, st.optional);
            assert(src_simple_token(st) =~= pre + flag(st.not, '!') + mid + " "@ + flag(st.optional, '?'));
        },
        Token::TokenGroupItem(g) => {
            let pre = " "@ + src_annotations(g.annots@) + " "@;
            let mid = " "@ + seq!['('] + " "@ + src_tokens_upto(g.token_list@, g.token_list@.len() as int) + " "@
                + seq![')'];
            lemma_flags_of(pre, g.not, mid, g.optional);
            assert(src_token_group(g) =~= pre + flag(g.not, '!') + mid + " "@ + flag(g.optional, '?'));
        },
    }
}

/// The printed text of a description holds the printed text of each of
/// its items.
pub proof fn law_source_prints_items(src: Source, i: int)
    requires
        0 <= i < src.items@.len(),
    ensures
        holds_text(src_source(src), src_source_item(src.items@[i])),
{
    let parts = src.items@.map_values(|a: SourceItem| src_source_item(a));
    lemma_join_holds(parts, " "@, parts.len() as int, i);
    assert(parts[i] == src_source_item(src.items@[i]));
    let inner = join(parts, " "@);
    assert(src_source(src) =~= " "@ + inner + Seq::<char>::empty());
    lemma_holds_mid(" "@, inner, Seq::<char>::empty());
    lemma_holds_text_trans(src_source(src), inner, parts[i]);
}

/// A key part gives one struct member where it is named or its typed part
/// holds a value, and none otherwise: named by the part's member name, or
/// else by its key, optional where the part or a group around it is, and a
/// flag for a tag.
pub proof fn law_key_part_member<'a>(p: AstRulePart<'a>, po: bool, tps: Map<Seq<char>, TypedPart<'a>>, k: &'a str)
    requires
        p.token == AstRuleToken::Key(k),
    ensures
        part_member_data(p, po, tps) == (if p.member_key is Some || auto_member(tps[k@]) {
            seq![
                AstRulePartMemberData {
                    member_name: match p.member_key {
                        Some(m) => m,
                        None => k,
                    },
                    part_key: k,
                    optional: po || p.optional,
                    not: p.not,
                    tag: tps[k@] is TagPart,
                },
            ]
        } else {
            Seq::empty()
        }),
{
}

/// Every struct member a part gives inside an optional part or group is
/// optional.
pub proof fn law_optional_members<'a>(p: AstRulePart<'a>, po: bool, tps: Map<Seq<char>, TypedPart<'a>>)
    ensures
        po || p.optional ==> forall|i: int|
            0 <= i < part_member_data(p, po, tps).len() ==> (#[trigger] part_member_data(p, po, tps)[i]).optional,
    decreases part_size(p), 1int, 0int,
{
    let opt = po || p.optional;
    let d = part_member_data(p, po, tps);
    match p.token {
        AstRuleToken::Group(parts) => {
            if !p.not && parts@.len() > 0 {
                lemma_parts_optional_prefix(parts@, opt, tps, p, parts@.len() as int);
                assert(parts@.take(parts@.len() as int) =~= parts@);
                assert(d == parts_member_data(parts@, opt, tps));
            } else if !p.not {
                assert(d =~= Seq::<AstRulePartMemberData<'a>>::empty());
            }
        },
        _ => {},
    }
}

proof fn lemma_parts_optional_prefix<'a>(
    ps: Seq<AstRulePart<'a>>,
    opt: bool,
    tps: Map<Seq<char>, TypedPart<'a>>,
    owner: AstRulePart<'a>,
    m: int,
)
    requires
        owner.token matches AstRuleToken::Group(parts) && parts@ == ps,
        0 <= m <= ps.len(),
    ensures
        opt ==> forall|i: int|
            0 <= i < parts_member_data(ps.take(m), opt, tps).len() ==> (#[trigger] parts_member_data(
                ps.take(m),
                opt,
                tps,
            )[i]).optional,
    decreases part_size(owner), 0int, m,
{
    if m == 0 {
        assert(ps.take(0) =~= Seq::<AstRulePart<'a>>::empty());
    } else {
        let n = m - 1;
        let pre = ps.take(m);
        assert(pre.drop_last() =~= ps.take(n));
        assert(pre.last() == ps[n]);
        if let AstRuleToken::Group(parts) = owner.token {
            lemma_group_part_smaller(owner, parts, n);
        }
        law_optional_members(ps[n], opt, tps);
        lemma_parts_optional_prefix(ps, opt, tps, owner, n);
        let a = parts_member_data(ps.take(n), opt, tps);
        let b = part_member_data(ps[n], opt, tps);
        assert(parts_member_data(pre, opt, tps) == a + b);
        if opt {
            assert forall|i: int| 0 <= i < (a + b).len() implies (#[trigger] (a + b)[i]).optional by {
                if i < a.len() {
                    assert((a + b)[i] == a[i]);
                } else {
                    assert((a + b)[i] == b[i - a.len()]);
                }
            }
        }
    }
}

/// Bytes that stand for themselves inside a string quoted with `q`:
/// neither the quote nor a backslash.
pub open spec fn plain_text(s: Seq<u8>, q: u8) -> bool {
    forall|i: int| 0 <= i < s.len() ==> s[i] != q && s[i] != 0x5C
}

proof fn lemma_plain_prefix(s: Seq<u8>, rest: Seq<u8>, q: u8)
    requires
        plain_text(s, q),
    ensures
        quoted_body(s + rest, q) == (match quoted_body(rest, q) {
            Some(n) => Some(n + s.len()),
            None => None::<int>,
        }),
    decreases s.len(),
{
    if s.len() > 0 {
        assert((s + rest)[0] == s[0]);
        assert((s + rest).drop_first() =~= s.drop_first() + rest);
        lemma_plain_prefix(s.drop_first(), rest, q);
    } else {
        assert(s + rest =~= rest);
    }
}

/// A quoted string is read up to its closing quote: text that holds
/// neither the quote nor a backslash is read whole, and an escaped quote
/// inside does not close the string.
pub proof fn law_quoted_reads_to_closing_quote(q: u8, s: Seq<u8>, t: Seq<u8>, rest: Seq<u8>)
    requires
        q == 0x22 || q == 0x27,
        plain_text(s, q),
        plain_text(t, q),
    ensures
        quoted_match(seq![q] + s + seq![q] + rest) == Some(s.len() as int),
        quoted_match(seq![q] + s + seq![0x5Cu8, q] + t + seq![q] + rest) == Some((s.len() + 2 + t.len()) as int),
{
    let b1 = seq![q] + s + seq![q] + rest;
    assert(b1[0] == q);
    assert(b1.drop_first() =~= s + (seq![q] + rest));
    lemma_plain_prefix(s, seq![q] + rest, q);
    assert((seq![q] + rest)[0] == q);
    let b2 = seq![q] + s + seq![0x5Cu8, q] + t + seq![q] + rest;
    assert(b2[0] == q);
    let tail = seq![0x5Cu8, q] + t + seq![q] + rest;
    assert(b2.drop_first() =~= s + tail);
    lemma_plain_prefix(s, tail, q);
    assert(tail[0] == 0x5C && tail[1] == q);
    assert(tail.skip(2) =~= t + (seq![q] + rest));
    lemma_plain_prefix(t, seq![q] + rest, q);
}

} // verus!
