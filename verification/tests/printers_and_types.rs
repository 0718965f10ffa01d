use descr::descr_lang::ast::{AstDef, Quoted};
use descr::descr_lang::to_source::ToSource;
use descr::lang_data::data::LangData;
use descr::lang_data::typed_part::TypedPart;
use descr::strmap::StrMap;

#[test]
fn quoted_string_is_printed_once() {
    let s = ToSource::quoted(String::new(), &Quoted::new("let"));
    assert_eq!(s.split_whitespace().collect::<Vec<_>>(), vec!["\"let\""]);
}

#[test]
fn ast_def_is_printed_once() {
    let node = AstDef::new(Vec::new(), Vec::new(), "Foo");
    let s = ToSource::ast_def(String::new(), &node);
    assert_eq!(s.split_whitespace().collect::<Vec<_>>(), vec!["Foo", "(", ")"]);
}

#[test]
fn int_parts_are_i32() {
    let data = LangData::new(false);
    let part = TypedPart::IntPart { key: "num" };
    assert_eq!(part.add_type(String::new(), &data), "i32");
    let mut visited = StrMap::new();
    assert!(!part.needs_lifetime(&data, &mut visited));
}

#[test]
fn string_parts_borrow_the_source() {
    let data = LangData::new(false);
    let part = TypedPart::StringPart { key: "string" };
    assert_eq!(part.add_type(String::new(), &data), "&'a str");
    let mut visited = StrMap::new();
    assert!(part.needs_lifetime(&data, &mut visited));
}
