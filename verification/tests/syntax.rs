use descr::json::ast::{JsObject, JsVal, ObjectPair};
use descr::json::to_source::ToSource;
use descr::lang_data::annotations::AnnotList;
use descr::lang_data::rule::{AstPartsRule, AstRulePart, AstRuleToken, CollectPart, CollectState, GenParserData};
use descr::process::codegen_syntax::{CodegenSyntax, SyntaxData, SyntaxEntry};

#[test]
fn parent_entries_are_listed_depth_first() {
    let mut sd = SyntaxData::new();
    sd.add_parent_entry("Item", "Struct");
    sd.add_parent_entry("Item", "Enum");
    sd.add_parent_entry("Enum", "Variant");
    let all = sd.get_parent_entries("Item", Vec::new());
    assert_eq!(all, vec!["Struct".to_string(), "Enum".to_string(), "Variant".to_string()]);
    let none = sd.get_parent_entries("Unknown", vec!["x".to_string()]);
    assert_eq!(none, vec!["x".to_string()]);
}

#[test]
fn expanded_patterns_name_each_entry_once() {
    let mut sd = SyntaxData::new();
    sd.add_parent_entry("Item", "Struct");
    sd.add_parent_entry("Item", "Enum");
    let list = vec!["Item".to_string(), "Struct".to_string(), "Other".to_string(), "Item".to_string()];
    let expanded = sd.expand_pattern_list(&list);
    assert_eq!(
        expanded,
        vec!["Struct".to_string(), "Enum".to_string(), "Item".to_string(), "Other".to_string()]
    );
}

#[test]
fn captures_are_numbered_from_one() {
    let caps = vec!["keyword.other".to_string(), "variable.other".to_string()];
    let v = SyntaxEntry::collect_captures(&caps);
    match v {
        JsVal::JsObjectItem(obj) => {
            assert_eq!(obj.items.len(), 2);
            assert_eq!(obj.items[0].key, "1");
            assert_eq!(obj.items[1].key, "2");
        }
        _ => panic!("expected an object"),
    }
}

#[test]
fn pattern_includes_point_into_the_repository() {
    let sd = SyntaxData::new();
    let v = SyntaxEntry::collect_pattern_includes(&vec!["A", "B", "A"], &sd);
    let mut s = String::new();
    s = ToSource::js_val(s, &v);
    assert_eq!(s, " [  {  \"include\" :  \"#A\" }, {  \"include\" :  \"#B\" } ]");
}

#[test]
fn json_objects_are_printed_with_quotes() {
    let obj = JsObject::new(vec![ObjectPair::new("a".to_string(), JsVal::string_val("b".to_string()))]);
    assert_eq!(ToSource::js_object(String::new(), &obj), " {  \"a\" :  \"b\" }");
    assert_eq!(ToSource::to_source_js_object(String::new(), &obj), " {  a :  b }");
}

#[test]
fn regexes_with_captures() {
    let mut st = CollectState::new(false);
    st.add_regex(false, false, "x", Some("name.x"), false);
    st.add_regex(false, true, "y", None, false);
    assert_eq!(st.get_regex(), "\\s*(x)\\s*(?:y)?");
    assert_eq!(st.captures, vec!["name.x".to_string()]);
    assert!(!st.only_optional);
}

fn part(token: AstRuleToken<'static>, optional: bool, not: bool) -> AstRulePart<'static> {
    AstRulePart { token, member_key: None, optional, not, annots: AnnotList::empty() }
}

#[test]
fn groups_flatten_into_markers() {
    let parts = vec![
        part(AstRuleToken::Tag("a"), false, false),
        part(AstRuleToken::Group(vec![part(AstRuleToken::Tag("b"), false, false)]), true, false),
        part(AstRuleToken::Group(vec![part(AstRuleToken::Tag("c"), false, false)]), false, true),
    ];
    let flat = AstPartsRule::flatten_syntax_parts(Vec::new(), &parts, false, false);
    assert_eq!(flat.len(), 7);
    assert!(matches!(flat[0], CollectPart::Part { opt_group: false, not_group: false, .. }));
    assert!(matches!(flat[1], CollectPart::OptGroupStart));
    assert!(matches!(flat[2], CollectPart::Part { opt_group: true, not_group: false, .. }));
    assert!(matches!(flat[3], CollectPart::OptGroupEnd));
    assert!(matches!(flat[4], CollectPart::NotGroupStart));
    assert!(matches!(flat[5], CollectPart::Part { opt_group: false, not_group: true, .. }));
    assert!(matches!(flat[6], CollectPart::NotGroupEnd));
}

#[test]
fn looping_parents_are_detected() {
    let mut sd = SyntaxData::new();
    sd.add_parent_entry("A", "B");
    sd.add_parent_entry("B", "C");
    assert!(sd.parents_acyclic_check());
    sd.add_parent_entry("C", "A");
    assert!(!sd.parents_acyclic_check());
}

#[test]
fn closing_a_group_undoes_opening_it() {
    let mut g: GenParserData<'static> = GenParserData::new();
    let name = g.push_group();
    assert_eq!(name, "group_1");
    assert_eq!(g.group_stack, vec!["group_1".to_string()]);
    g.pop_group();
    assert!(g.group_stack.is_empty());
    assert_eq!(g.push_group(), "group_2");
}

#[test]
fn end_regex_without_lookahead_is_the_collected_regex() {
    let sd = SyntaxData::new();
    let begin = CollectState::new(false);
    let mut end = CollectState::new(false);
    end.add_regex(false, false, "x", None, false);
    assert_eq!(end.get_end_regex(&sd, &begin), end.get_regex());
    assert_eq!(end.get_end_regex(&sd, &begin), "\\s*x");
}

#[test]
fn empty_end_is_an_empty_lookahead() {
    let sd = SyntaxData::new();
    let begin = CollectState::new(false);
    let end = CollectState::new(false);
    assert_eq!(end.get_end_regex(&sd, &begin), "(?!(?:))");
}

#[test]
fn replacements_combine_optional_entries_with_their_parents() {
    let mut sd = SyntaxData::new();
    let mut opt = CollectState::new(false);
    opt.add_regex(false, true, "x", None, false);
    opt.parent_refs.push("P".to_string());
    assert!(opt.only_optional);
    sd.entries.insert("A".to_string(), SyntaxEntry::Match { collect: opt });
    let mut parent = CollectState::new(false);
    parent.add_regex(false, false, "p", None, false);
    sd.entries.insert("P".to_string(), SyntaxEntry::Match { collect: parent });
    let r = CodegenSyntax::get_replacements(&sd);
    assert_eq!(r.keys, vec!["A".to_string()]);
    let tuples = r.get("A").unwrap();
    assert_eq!(tuples.len(), 1);
    assert_eq!(tuples[0].0, "A_P");
    match &tuples[0].1 {
        SyntaxEntry::Match { collect } => assert_eq!(collect.get_regex(), "\\s*p\\s*(?:x)?"),
        _ => panic!("expected a match entry"),
    }
}
