use descr::pg::ast::{SourceItem, Token, TokenType};
use descr::pg::parsers::pg_source;

#[test]
fn playground_entries_are_parsed() {
    let (src, rest) = pg_source(b"Test(key1:\"k1\"? !b (c d)?)\nOther(x)").unwrap();
    assert_eq!(rest, b"");
    assert_eq!(src.items.len(), 2);
    let SourceItem::AstSingleItem(first) = &src.items[0];
    assert_eq!(first.ident, "Test");
    assert_eq!(first.tokens.len(), 3);
    match &first.tokens[0] {
        Token::NamedTokenItem(n) => {
            assert_eq!(n.name, "key1");
            assert!(n.optional);
            assert!(matches!(n.token_type, TokenType::QuotedItem(ref q) if q.string == "k1"));
        }
        other => panic!("unexpected {:?}", other),
    }
    assert!(matches!(&first.tokens[1], Token::SimpleTokenItem(st) if st.not));
    assert!(matches!(&first.tokens[2], Token::TokenGroupItem(g) if g.optional && g.token_list.len() == 2));
}

#[test]
fn a_mismatch_ends_the_entries() {
    let (src, rest) = pg_source(b"Foo(a").unwrap();
    assert_eq!(src.items.len(), 0);
    assert_eq!(rest, b"Foo(a");
}

#[test]
fn an_entry_cut_off_at_the_end_needs_more_input() {
    assert!(pg_source(b"Foo(a) Bar").is_none());
}
