//! Generates the parser module: a nom parser for the start rule, for each
//! AST entry and for each list.
use vstd::prelude::*;
use crate::text::{cat, join, join_upto, lemma_join_step};
use crate::strmap::Name;
use crate::lang_data::ast::RuleType;
use crate::lang_data::data::{snake, LangData, ListData, AstData, Resolved};
use crate::lang_data::rule::{AstRule, ListRule};
use crate::lang_data::rule_parser::{rule_ok, rule_parser};
use crate::lang_data::typed_part::{part_parser_text, type_name_of, TypedPart};

verus! {

pub struct CodegenParsers<'a, 'd> {
    pub data: &'a LangData<'d>,
}

pub open spec fn parsers_header() -> Seq<char> {
    "use descr_common::parsers::*;\n"@ + "extern crate nom;\n"@ + "use self::nom::*;\n"@
        + "#[allow(unused_imports)]\n"@ + "use std;\n"@ + "use super::ast::*;\n\n"@
}

/// The parser of the start rule, when the start key has a rule type.
pub open spec fn start_parser<'a>(data: &LangData<'a>) -> Seq<char> {
    match data.start_key {
        Some(k) => if data.rule_types@.contains_key(k@) {
            "named!(pub start<"@ + type_name_of(data, data.rule_types@[k@]) + ">, "@
                + "do_parse!(res: "@ + snake(k@) + " >> (res)));\n\n"@
        } else {
            Seq::empty()
        },
        None => Seq::empty(),
    }
}

/// The parsers of some rules, as alternatives.
pub open spec fn alternatives<'a>(rules: Seq<AstRule<'a>>, data: &LangData<'a>, rt: RuleType<'a>, res: Resolved) -> Seq<char> {
    join(rules.map_values(|r: AstRule<'a>| rule_parser(r, data, rt, res)), "\n    | "@)
}

/// The parser of an AST entry.
pub open spec fn ast_entry_parser<'a>(data: &LangData<'a>, key: &'a str, ad: AstData<'a>) -> Seq<char> {
    let rt = data.rule_types@[key@];
    let res = data.resolved(key@);
    if ad.rules@.len() == 0 {
        Seq::empty()
    } else if ad.rules@.len() == 1 {
        "named!(pub "@ + snake(ad.ast_type@) + "<"@ + ad.ast_type@ + ">,\n    "@ + rule_parser(
            ad.rules@[0],
            data,
            rt,
            res,
        ) + "\n);\n\n"@
    } else {
        "named!(pub "@ + snake(ad.ast_type@) + "<"@ + ad.ast_type@ + ">, alt_complete!(\n    "@
            + alternatives(ad.rules@, data, rt, res) + "\n));\n\n"@
    }
}

/// How a list's items are repeated: separated by the separator's parser,
/// or one after another.
pub open spec fn list_repeat<'a>(data: &LangData<'a>, ld: ListData<'a>, multi: bool) -> Seq<char> {
    let many = if multi {
        "many0!("@
    } else {
        "many0!(\n    "@
    };
    match ld.sep {
        Some(sep) => match data.typed_parts@[sep@] {
            TypedPart::WSPart => many,
            tp => "separated_list!("@ + part_parser_text(data, tp) + if multi {
                ", "@
            } else {
                ", \n    "@
            },
        },
        None => many,
    }
}

pub open spec fn list_rules<'a>(ld: ListData<'a>) -> Seq<AstRule<'a>> {
    ld.rules@.map_values(|r: ListRule<'a>| r.ast_rule)
}

/// The parser of a list.
pub open spec fn list_entry_parser<'a>(data: &LangData<'a>, key: &'a str, ld: ListData<'a>) -> Seq<char> {
    let rt = data.rule_types@[key@];
    let res = data.resolved(key@);
    let head = "named!(pub "@ + snake(ld.key@) + "<Vec<"@ + type_name_of(data, data.rule_types@[ld.key@])
        + ">>, "@;
    if ld.rules@.len() == 0 {
        Seq::empty()
    } else if ld.rules@.len() == 1 {
        head + list_repeat(data, ld, false) + rule_parser(ld.rules@[0].ast_rule, data, rt, res) + "\n));\n\n"@
    } else {
        head + list_repeat(data, ld, true) + "alt_complete!(\n    "@ + alternatives(list_rules(ld), data, rt, res)
            + "\n)));\n\n"@
    }
}

pub open spec fn ast_parsers_upto<'a>(data: &LangData<'a>, n: int) -> Seq<char>
    decreases n,
{
    if n <= 0 {
        Seq::empty()
    } else {
        ast_parsers_upto(data, n - 1) + ast_entry_parser(
            data,
            data.ast_data.keys@[n - 1],
            data.ast_data.vals@[n - 1],
        )
    }
}

pub open spec fn list_parsers_upto<'a>(data: &LangData<'a>, n: int) -> Seq<char>
    decreases n,
{
    if n <= 0 {
        Seq::empty()
    } else {
        list_parsers_upto(data, n - 1) + list_entry_parser(
            data,
            data.list_data.keys@[n - 1],
            data.list_data.vals@[n - 1],
        )
    }
}

/// The whole parser module.
pub open spec fn parsers_source<'a>(data: &LangData<'a>) -> Seq<char> {
    parsers_header() + start_parser(data) + ast_parsers_upto(data, data.ast_data.keys@.len() as int)
        + list_parsers_upto(data, data.list_data.keys@.len() as int)
}

pub open spec fn rules_ok<'a>(rules: Seq<AstRule<'a>>, data: &LangData<'a>, rt: RuleType<'a>, res: Resolved) -> bool {
    forall|i: int| 0 <= i < rules.len() ==> rule_ok(#[trigger] rules[i], data, rt, res)
}

pub open spec fn ast_entry_ok<'a>(data: &LangData<'a>, key: &'a str, ad: AstData<'a>) -> bool {
    &&& data.rule_types@.contains_key(key@)
    &&& data.resolves(key@)
    &&& ad.rules@.len() > 0 ==> data.has_sc(ad.ast_type@)
    &&& rules_ok(ad.rules@, data, data.rule_types@[key@], data.resolved(key@))
}

pub open spec fn list_entry_ok<'a>(data: &LangData<'a>, key: &'a str, ld: ListData<'a>) -> bool {
    &&& data.rule_types@.contains_key(key@)
    &&& data.resolves(key@)
    &&& ld.rules@.len() > 0 ==> {
        &&& data.has_sc(ld.key@)
        &&& data.rule_types@.contains_key(ld.key@)
        &&& data.resolves(data.rule_types@[ld.key@].type_key()@)
        &&& ld.sep matches Some(sep) ==> data.typed_parts@.contains_key(sep@) && match data.typed_parts@[sep@] {
            TypedPart::AstPart { key } => data.has_sc(key@),
            TypedPart::ListPart { key } => data.has_sc(key@),
            _ => true,
        }
    }
    &&& rules_ok(list_rules(ld), data, data.rule_types@[key@], data.resolved(key@))
}

/// The lookups generating the parser module makes succeed.
pub open spec fn parsers_gen_ok<'a>(data: &LangData<'a>) -> bool {
    &&& data.wf()
    &&& (data.start_key matches Some(k) ==> (data.rule_types@.contains_key(k@) ==> data.resolves(
        data.rule_types@[k@].type_key()@,
    ) && data.has_sc(k@)))
    &&& forall|i: int|
        0 <= i < data.ast_data.keys@.len() ==> ast_entry_ok(
            data,
            #[trigger] data.ast_data.keys@[i],
            data.ast_data.vals@[i],
        )
    &&& forall|i: int|
        0 <= i < data.list_data.keys@.len() ==> list_entry_ok(
            data,
            #[trigger] data.list_data.keys@[i],
            data.list_data.vals@[i],
        )
}

fn gen_alternatives<'a>(
    s: String,
    rules: &Vec<AstRule<'a>>,
    data: &LangData<'a>,
    rt: &RuleType<'a>,
    key: &'a str,
) -> (r: String)
    requires
        data.wf(),
        data.resolves(key@),
        rules_ok(rules@, data, *rt, data.resolved(key@)),
    ensures
        r@ == s@ + alternatives(rules@, data, *rt, data.resolved(key@)),
{
    let ghost s0 = s@;
    let ghost res = data.resolved(key@);
    let ghost texts = rules@.map_values(|r: AstRule<'a>| rule_parser(r, data, *rt, res));
    let resolved = data.resolve(key);
    let mut s = s;
    let len = rules.len();
    let mut i: usize = 0;
    while i < len
        invariant
            len == rules@.len(),
            i <= len,
            data.wf(),
            resolved.spec_resolved() == res,
            rules_ok(rules@, data, *rt, res),
            texts == rules@.map_values(|r: AstRule<'a>| rule_parser(r, data, *rt, res)),
            s@ == s0 + join_upto(texts, "\n    | "@, i as int),
        decreases len - i,
    {
        proof {
            lemma_join_step(texts, "\n    | "@, i as int);
        }
        assert(rule_ok(rules@[i as int], data, *rt, res));
        s = rules[i].gen_rule(s, data, rt, &resolved);
        if i < len - 1 {
            s = cat(s, "\n    | ");
        }
        i += 1;
    }
    s
}

fn gen_ast_entry<'a>(s: String, key: &'a str, ast_data: &AstData<'a>, data: &LangData<'a>) -> (r: String)
    requires
        data.wf(),
        ast_entry_ok(data, key, *ast_data),
    ensures
        r@ == s@ + ast_entry_parser(data, key, *ast_data),
{
    let ghost s0 = s@;
    let rule_type = match data.rule_types.get(key) {
        Some(rt) => rt,
        None => {
            assert(false);
            return s;
        },
    };
    let mut s = s;
    let len = ast_data.rules.len();
    if len == 0 {
    } else if len == 1 {
        let resolved = data.resolve(key);
        s = cat(s, "named!(pub ");
        s = cat(s, data.sc(ast_data.ast_type));
        s = cat(s, "<");
        s = cat(s, ast_data.ast_type);
        s = cat(s, ">,\n    ");
        assert(rule_ok(ast_data.rules@[0], data, *rule_type, data.resolved(key@)));
        s = ast_data.rules[0].gen_rule(s, data, rule_type, &resolved);
        s = cat(s, "\n);\n\n");
    } else {
        // Alt rule
        s = cat(s, "named!(pub ");
        s = cat(s, data.sc(ast_data.ast_type));
        s = cat(s, "<");
        s = cat(s, ast_data.ast_type);
        s = cat(s, ">, alt_complete!(\n    ");
        s = gen_alternatives(s, &ast_data.rules, data, rule_type, key);
        s = cat(s, "\n));\n\n");
    }
    assert(s@ =~= s0 + ast_entry_parser(data, key, *ast_data));
    s
}

fn gen_list_repeat<'a>(s: String, list_data: &ListData<'a>, multi: bool, data: &LangData<'a>) -> (r: String)
    requires
        data.wf(),
        list_data.sep matches Some(sep) ==> data.typed_parts@.contains_key(sep@) && match data.typed_parts@[sep@] {
            TypedPart::AstPart { key } => data.has_sc(key@),
            TypedPart::ListPart { key } => data.has_sc(key@),
            _ => true,
        },
    ensures
        r@ == s@ + list_repeat(data, *list_data, multi),
{
    let ghost s0 = s@;
    let many = if multi {
        "many0!("
    } else {
        "many0!(\n    "
    };
    let mut s = s;
    match list_data.sep {
        Some(sep) => {
            let tp = match data.typed_parts.get(sep) {
                Some(tp) => tp,
                None => {
                    assert(false);
                    return s;
                },
            };
            match tp {
                TypedPart::WSPart => {
                    s = cat(s, many);
                },
                _ => {
                    s = cat(s, "separated_list!(");
                    s = tp.gen_parser(s, data);
                    if multi {
                        s = cat(s, ", ");
                    } else {
                        s = cat(s, ", \n    ");
                    }
                },
            }
        },
        None => {
            s = cat(s, many);
        },
    }
    assert(s@ =~= s0 + list_repeat(data, *list_data, multi));
    s
}

fn gen_list_alternatives<'a>(
    s: String,
    list_data: &ListData<'a>,
    data: &LangData<'a>,
    rt: &RuleType<'a>,
    key: &'a str,
) -> (r: String)
    requires
        data.wf(),
        data.resolves(key@),
        rules_ok(list_rules(*list_data), data, *rt, data.resolved(key@)),
    ensures
        r@ == s@ + alternatives(list_rules(*list_data), data, *rt, data.resolved(key@)),
{
    let ghost s0 = s@;
    let ghost res = data.resolved(key@);
    let ghost rules = list_rules(*list_data);
    let ghost texts = rules.map_values(|r: AstRule<'a>| rule_parser(r, data, *rt, res));
    let resolved = data.resolve(key);
    let mut s = s;
    let len = list_data.rules.len();
    let mut i: usize = 0;
    while i < len
        invariant
            len == rules.len(),
            rules == list_rules(*list_data),
            i <= len,
            data.wf(),
            resolved.spec_resolved() == res,
            rules_ok(rules, data, *rt, res),
            texts == rules.map_values(|r: AstRule<'a>| rule_parser(r, data, *rt, res)),
            s@ == s0 + join_upto(texts, "\n    | "@, i as int),
        decreases len - i,
    {
        proof {
            lemma_join_step(texts, "\n    | "@, i as int);
        }
        assert(rule_ok(rules[i as int], data, *rt, res));
        s = list_data.rules[i].ast_rule.gen_rule(s, data, rt, &resolved);
        if i < len - 1 {
            s = cat(s, "\n    | ");
        }
        i += 1;
    }
    s
}

#[verifier::spinoff_prover]
#[verifier::rlimit(40)]
fn gen_list_entry<'a>(s: String, key: &'a str, list_data: &ListData<'a>, data: &LangData<'a>) -> (r: String)
    requires
        data.wf(),
        list_entry_ok(data, key, *list_data),
    ensures
        r@ == s@ + list_entry_parser(data, key, *list_data),
{
    let ghost s0 = s@;
    let rule_type = match data.rule_types.get(key) {
        Some(rt) => rt,
        None => {
            assert(false);
            return s;
        },
    };
    let mut s = s;
    let len = list_data.rules.len();
    if len > 0 {
        let list_type = match data.rule_types.get(list_data.key) {
            Some(rt) => rt,
            None => {
                assert(false);
                return s;
            },
        };
        s = cat(s, "named!(pub ");
        s = cat(s, data.sc(list_data.key));
        s = cat(s, "<Vec<");
        s = cat(s, list_type.get_type_name(data));
        s = cat(s, ">>, ");
        if len == 1 {
            s = gen_list_repeat(s, list_data, false, data);
            let resolved = data.resolve(key);
            assert(rule_ok(list_rules(*list_data)[0], data, *rule_type, data.resolved(key@)));
            s = list_data.rules[0].ast_rule.gen_rule(s, data, rule_type, &resolved);
            s = cat(s, "\n));\n\n");
        } else {
            // Alt rule
            s = gen_list_repeat(s, list_data, true, data);
            s = cat(s, "alt_complete!(\n    ");
            s = gen_list_alternatives(s, list_data, data, rule_type, key);
            s = cat(s, "\n)));\n\n");
        }
    }
    assert(s@ =~= s0 + list_entry_parser(data, key, *list_data));
    s
}

impl<'a, 'd> CodegenParsers<'a, 'd> {
    pub fn new(data: &'a LangData<'d>) -> (r: CodegenParsers<'a, 'd>)
        ensures
            r.data == data,
    {
        CodegenParsers { data }
    }

    /// The parser module: imports, the start parser, then the parsers of
    /// the AST entries and of the lists, each in order of key.
    pub fn gen(&self) -> (r: String)
        requires
            parsers_gen_ok(self.data),
        ensures
            r@ == parsers_source(self.data),
    {
        let data = self.data;
        let mut s = owned_header();
        // Start key
        match data.start_key {
            Some(start_key) => match data.rule_types.get(start_key) {
                Some(rule_type) => {
                    s = cat(s, "named!(pub start<");
                    s = cat(s, rule_type.get_type_name(data));
                    s = cat(s, ">, ");
                    s = cat(s, "do_parse!(res: ");
                    s = cat(s, data.sc(start_key));
                    s = cat(s, " >> (res)));\n\n");
                },
                None => {},
            },
            None => {},
        }
        assert(s@ =~= parsers_header() + start_parser(data));
        let ghost s1 = s@;
        // Ast data
        let n = data.ast_data.keys.len();
        let mut i: usize = 0;
        while i < n
            invariant
                n == data.ast_data.keys@.len(),
                i <= n,
                parsers_gen_ok(data),
                s@ == s1 + ast_parsers_upto(data, i as int),
            decreases n - i,
        {
            assert(ast_entry_ok(data, data.ast_data.keys@[i as int], data.ast_data.vals@[i as int]));
            s = gen_ast_entry(s, data.ast_data.keys[i], &data.ast_data.vals[i], data);
            i += 1;
        }
        let ghost s2 = s@;
        // List data
        let n = data.list_data.keys.len();
        let mut i: usize = 0;
        while i < n
            invariant
                n == data.list_data.keys@.len(),
                i <= n,
                parsers_gen_ok(data),
                s@ == s2 + list_parsers_upto(data, i as int),
            decreases n - i,
        {
            assert(list_entry_ok(data, data.list_data.keys@[i as int], data.list_data.vals@[i as int]));
            s = gen_list_entry(s, data.list_data.keys[i], &data.list_data.vals[i], data);
            i += 1;
        }
        s
    }
}

fn owned_header() -> (r: String)
    ensures
        r@ == parsers_header(),
{
    let mut s = String::new();
    proof {
        reveal_strlit("");
    }
    s = cat(s, "use descr_common::parsers::*;\n");
    s = cat(s, "extern crate nom;\n");
    s = cat(s, "use self::nom::*;\n");
    s = cat(s, "#[allow(unused_imports)]\n");
    s = cat(s, "use std;\n");
    s = cat(s, "use super::ast::*;\n\n");
    assert(s@ =~= parsers_header());
    s
}

} // verus!
