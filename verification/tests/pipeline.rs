use descr::descr_lang::ast::{
    AstDef, AstItem, AstMany, AstSingle, KeyToken, Quoted, SimpleToken, Source, SourceItem, Token, TokenType,
};
use descr::lang_data::annotations::AnnotList;
use descr::lang_data::data::{AstData, LangData, ParentRef};
use descr::lang_data::rule::{AstRule, AstRuleToken};
use descr::lang_data::typed_part::TypedPart;
use descr::process::build_ast::BuildAst;
use descr::process::build_parsers::{parsers_source_ok, BuildParsers};
use descr::process::codegen_ast::CodegenAst;
use descr::process::codegen_parsers::CodegenParsers;
use descr::process::codegen_syntax::CodegenSyntax;
use descr::process::codegen_tosource::CodegenToSource;
use descr::process::get_tokens::{unknown_key, GetTokens};

fn key(k: &str) -> Token<'_> {
    Token::SimpleTokenItem(SimpleToken::new(Vec::new(), false, TokenType::KeyTokenItem(KeyToken::new(k)), false))
}

fn tag(t: &str) -> Token<'_> {
    Token::SimpleTokenItem(SimpleToken::new(Vec::new(), false, TokenType::QuotedItem(Quoted::new(t)), false))
}

/// `AstName(LPAREN ident RPAREN)`, as the README describes it.
fn readme_source() -> Source<'static> {
    Source::new(vec![SourceItem::AstSingleItem(AstSingle::new(
        Vec::new(),
        "AstName",
        vec![key("LPAREN"), key("ident"), key("RPAREN")],
    ))])
}

fn readme_data(src: &Source<'static>) -> LangData<'static> {
    let mut data = LangData::new(false);
    data.ast_data.insert("AstName", AstData::new("AstName", "AstName", AnnotList::empty()));
    data.start_key = Some("AstName");
    data.name = "lang".to_string();
    GetTokens::new(&mut data).visit_source(src);
    BuildParsers::new(&mut data).visit_source(src);
    data
}

#[test]
fn tokens_resolve_to_their_typed_parts() {
    let src = readme_source();
    let data = readme_data(&src);
    assert!(matches!(data.typed_parts.get("LPAREN"), Some(TypedPart::CharPart { chr: '(', .. })));
    assert!(matches!(data.typed_parts.get("RPAREN"), Some(TypedPart::CharPart { chr: ')', .. })));
    assert!(matches!(data.typed_parts.get("ident"), Some(TypedPart::IdentPart { .. })));
    assert_eq!(data.typed_parts.len(), 3);
}

#[test]
fn a_definition_becomes_one_parts_rule() {
    let src = readme_source();
    let data = readme_data(&src);
    let ad = data.ast_data.get("AstName").unwrap();
    assert_eq!(ad.rules.len(), 1);
    match &ad.rules[0] {
        AstRule::PartsRule(pr) => {
            assert_eq!(pr.ast_type, "AstName");
            assert_eq!(pr.parts.len(), 3);
            assert!(matches!(pr.parts[0].token, AstRuleToken::Key("LPAREN")));
            assert_eq!(pr.parts[0].member_key, None);
            assert!(matches!(pr.parts[1].token, AstRuleToken::Key("ident")));
            assert_eq!(pr.parts[1].member_key, Some("ident"));
        }
        _ => panic!("expected a parts rule"),
    }
}

#[test]
fn readme_struct_is_generated() {
    let src = readme_source();
    let mut data = readme_data(&src);
    BuildAst::new(&mut data).build_ast();
    let ast = CodegenAst::new(&data).gen();
    assert!(ast.contains("pub struct AstName<'a> {"));
    assert!(ast.contains("pub ident: &'a str,"));
    let parsers = CodegenParsers::new(&data).gen();
    assert!(parsers.contains("ast_name"));
    let to_source = CodegenToSource::new(&data).gen();
    assert!(to_source.contains("ast_name"));
}

#[test]
fn syntax_grammar_has_an_entry_per_rule() {
    let src = readme_source();
    let mut data = readme_data(&src);
    BuildAst::new(&mut data).build_ast();
    let json = CodegenSyntax::new(&data).gen();
    assert!(json.contains("\"scopeName\""));
    assert!(json.contains("\"source.lang\""));
    assert!(json.contains("\"repository\""));
    assert!(json.contains("\"AstName\""));
    assert!(json.contains("\"#AstName\""));
    assert!(json.contains("variable.other"));
}

#[test]
fn tags_become_keyword_regexes() {
    let src = Source::new(vec![SourceItem::AstSingleItem(AstSingle::new(
        Vec::new(),
        "Kw",
        vec![tag("let"), key("ident")],
    ))]);
    let mut data = LangData::new(false);
    data.ast_data.insert("Kw", AstData::new("Kw", "Kw", AnnotList::empty()));
    data.start_key = Some("Kw");
    data.name = "kw".to_string();
    GetTokens::new(&mut data).visit_source(&src);
    BuildParsers::new(&mut data).visit_source(&src);
    BuildAst::new(&mut data).build_ast();
    let json = CodegenSyntax::new(&data).gen();
    assert!(json.contains("keyword.other"));
    assert!(json.contains("let"));
}

#[test]
fn unknown_tokens_are_reported() {
    let src = Source::new(vec![SourceItem::AstSingleItem(AstSingle::new(
        Vec::new(),
        "AstName",
        vec![key("LPAREN"), key("Nowhere")],
    ))]);
    let mut data = LangData::new(false);
    data.ast_data.insert("AstName", AstData::new("AstName", "AstName", AnnotList::empty()));
    assert_eq!(unknown_key(&data, &src), Some("Nowhere"));
    let good = readme_source();
    assert_eq!(unknown_key(&data, &good), None);
}

#[test]
fn rules_need_registered_entries() {
    let src = readme_source();
    let mut data = LangData::new(false);
    assert!(!parsers_source_ok(&data, &src));
    data.ast_data.insert("AstName", AstData::new("AstName", "AstName", AnnotList::empty()));
    GetTokens::new(&mut data).visit_source(&src);
    assert!(parsers_source_ok(&data, &src));
}

#[test]
fn resolving_a_description_twice_changes_nothing() {
    let src = readme_source();
    let mut data = readme_data(&src);
    let before: Vec<String> = data.typed_parts.keys.iter().map(|k| k.to_string()).collect();
    GetTokens::new(&mut data).visit_source(&src);
    let after: Vec<String> = data.typed_parts.keys.iter().map(|k| k.to_string()).collect();
    assert_eq!(before, after);
    assert!(matches!(data.typed_parts.get("ident"), Some(TypedPart::IdentPart { key: "ident" })));
}

#[test]
fn checked_syntax_generation_agrees() {
    let src = readme_source();
    let mut data = readme_data(&src);
    BuildAst::new(&mut data).build_ast();
    let checked = CodegenSyntax::new(&data).try_gen();
    assert_eq!(checked, Some(CodegenSyntax::new(&data).gen()));
    data.start_key = None;
    assert_eq!(CodegenSyntax::new(&data).try_gen(), None);
}

/// The README's enum with data: `Alternatives { IntConst(int), StringVal(string) }`.
#[test]
fn readme_alternatives_are_generated() {
    let src = Source::new(vec![SourceItem::AstManyItem(AstMany::new(
        Vec::new(),
        "Alternatives",
        vec![
            AstItem::AstDefItem(AstDef::new(Vec::new(), vec![key("int")], "IntConst")),
            AstItem::AstDefItem(AstDef::new(Vec::new(), vec![key("string")], "StringVal")),
        ],
    ))]);
    let mut data = LangData::new(false);
    data.ast_data.insert("Alternatives", AstData::new("Alternatives", "Alternatives", AnnotList::empty()));
    data.start_key = Some("Alternatives");
    data.name = "alt".to_string();
    GetTokens::new(&mut data).visit_source(&src);
    BuildParsers::new(&mut data).visit_source(&src);
    BuildAst::new(&mut data).build_ast();
    let refs = data.parent_refs.refs.get("IntConst").unwrap();
    assert!(refs.iter().any(|r| matches!(
        r,
        ParentRef::EnumItem { enum_name: "Alternatives", item_name: "IntConst" }
    )));
    let ast = CodegenAst::new(&data).gen();
    assert!(ast.contains("pub enum Alternatives<'a> {"));
    assert!(ast.contains("pub struct IntConst {"));
    assert!(ast.contains("pub int: i32,"));
    assert!(ast.contains("pub struct StringVal<'a> {"));
    assert!(ast.contains("pub string: &'a str,"));
    assert!(ast.contains("pub fn as_alternatives<'a>(self) -> Alternatives<'a> {"));
    assert!(ast.contains("Alternatives::IntConstItem(self)"));
    assert!(ast.contains("pub fn as_alternatives(self) -> Alternatives<'a> {"));
    assert!(ast.contains("Alternatives::StringValItem(self)"));
}
