use descr::rust_lang::ast::{GenericItem, SourceItem, Tpe};
use descr::rust_lang::parsers::rs_source;

#[test]
fn rust_items_are_parsed() {
    let text = "pub struct Foo<'a, T> { pub name: str 'a, count: u32 }\nenum Color { Red, Green }\npub trait Visit { }";
    let (src, rest) = rs_source(text.as_bytes()).unwrap();
    assert_eq!(rest, b"");
    assert_eq!(src.source_items.len(), 3);
    match &src.source_items[0] {
        SourceItem::RsStructItem(st) => {
            assert!(st.public);
            assert_eq!(st.ident, "Foo");
            let g = st.generic.as_ref().unwrap();
            assert_eq!(g.generic_items.len(), 2);
            assert!(matches!(g.generic_items[0], GenericItem::LifeTimeItem(ref l) if l.ident == "a"));
            assert_eq!(st.struct_members.len(), 2);
            assert!(st.struct_members[0].public);
            assert!(matches!(st.struct_members[0].tpe_spes.tpe, Tpe::RsStr));
            assert!(matches!(st.struct_members[0].tpe_spes.generic_item, Some(GenericItem::LifeTimeItem(_))));
            assert!(matches!(st.struct_members[1].tpe_spes.tpe, Tpe::RsU32));
        }
        other => panic!("unexpected {:?}", other),
    }
    match &src.source_items[1] {
        SourceItem::RsEnumItem(e) => {
            assert!(!e.public);
            assert_eq!(e.enum_items.len(), 2);
            assert_eq!(e.enum_items[1].ident, "Green");
        }
        other => panic!("unexpected {:?}", other),
    }
    assert!(matches!(&src.source_items[2], SourceItem::RsTraitItem(t) if t.public && t.ident == "Visit"));
}

#[test]
fn unknown_rust_items_are_left_over() {
    let (src, rest) = rs_source(b"fn main() {}").unwrap();
    assert_eq!(src.source_items.len(), 0);
    assert_eq!(rest, b"fn main() {}");
}
