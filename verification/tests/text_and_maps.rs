use descr::common::util::SortedHashMap;
use descr::lang_data::data::snake_case;
use descr::lang_data::rule::to_regex;
use descr::process::codegen_syntax::SyntaxEntry;
use descr::process::gen_mod;
use descr::lang_data::data::LangData;
use descr::strmap::StrMap;
use descr::text::{str_eq, str_lt};

#[test]
fn to_regex_escapes_regex_characters() {
    assert_eq!(to_regex("a(b)*"), "a\\(b\\)\\*");
    assert_eq!(to_regex("{[?.+\\]}"), "\\{\\[\\?\\.\\+\\\\\\]\\}");
    assert_eq!(to_regex("plain"), "plain");
}

#[test]
fn escape_quotes_and_backslashes() {
    assert_eq!(SyntaxEntry::escape("a\"b\\c".to_string()), "a\\\"b\\\\c");
    assert_eq!(SyntaxEntry::escape("none".to_string()), "none");
}

#[test]
fn snake_case_of_camel_case_names() {
    assert_eq!(snake_case("AstName"), "ast_name");
    assert_eq!(snake_case("already_snake"), "already_snake");
}

#[test]
fn string_comparisons() {
    assert!(str_eq("abc", "abc"));
    assert!(!str_eq("abc", "abd"));
    assert!(str_lt("ab", "abc"));
    assert!(str_lt("abc", "abd"));
    assert!(!str_lt("b", "a"));
}

#[test]
fn map_read_after_write() {
    let mut m: StrMap<&str, u32> = StrMap::new();
    m.insert("b", 2);
    m.insert("a", 1);
    m.insert("b", 3);
    assert_eq!(m.len(), 2);
    assert_eq!(m.get("b"), Some(&3));
    assert_eq!(m.get("a"), Some(&1));
    assert_eq!(m.get("c"), None);
    m.remove("a");
    assert_eq!(m.get("a"), None);
    assert!(m.contains_key("b"));
}

#[test]
fn sorted_iteration_visits_keys_in_order() {
    let mut m: StrMap<&str, u32> = StrMap::new();
    m.insert("pear", 1);
    m.insert("apple", 2);
    m.insert("fig", 3);
    let mut it = m.sorted_iter();
    let mut seen = Vec::new();
    while let Some((k, v)) = it.next() {
        seen.push((*k, *v));
    }
    assert_eq!(seen, vec![("apple", 2), ("fig", 3), ("pear", 1)]);
}

#[test]
fn mod_file_declares_the_generated_modules() {
    let data = LangData::new(false);
    assert_eq!(gen_mod(&data), "pub mod ast;\npub mod parsers;\npub mod visitor;\npub mod to_source;\n\n");
}

#[test]
fn removing_an_inserted_name_restores_the_map() {
    let mut m: StrMap<&str, u32> = StrMap::new();
    m.insert("pear", 1);
    m.insert("apple", 2);
    let keys_before = m.keys.clone();
    let vals_before = m.vals.clone();
    m.insert("fig", 3);
    assert_eq!(m.keys, vec!["apple", "fig", "pear"]);
    assert_eq!(m.get("fig"), Some(&3));
    m.remove("fig");
    assert_eq!(m.keys, keys_before);
    assert_eq!(m.vals, vals_before);
}
