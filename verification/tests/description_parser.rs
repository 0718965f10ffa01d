use descr::descr_lang::ast::{AstItem, List, Source, SourceItem, Token, TokenType};
use descr::descr_lang::parsers::source;
use descr::descr_lang::to_source::ToSource;

fn parse(text: &'static str) -> (Source<'static>, &'static [u8]) {
    source(text.as_bytes()).unwrap()
}

fn key_of<'a>(t: &Token<'a>) -> Option<&'a str> {
    match t {
        Token::SimpleTokenItem(st) => match &st.token_type {
            TokenType::KeyTokenItem(k) => Some(k.key),
            _ => None,
        },
        _ => None,
    }
}

#[test]
fn readme_struct_is_parsed() {
    let (src, rest) = parse("AstName(LPAREN ident RPAREN)");
    assert_eq!(rest, b"");
    assert_eq!(src.items.len(), 1);
    match &src.items[0] {
        SourceItem::AstSingleItem(n) => {
            assert_eq!(n.ident, "AstName");
            let keys: Vec<_> = n.tokens.iter().map(|t| key_of(t).unwrap()).collect();
            assert_eq!(keys, vec!["LPAREN", "ident", "RPAREN"]);
        }
        other => panic!("unexpected {:?}", other),
    }
}

#[test]
fn readme_alternatives_are_parsed() {
    let (src, rest) = parse("Alternatives {\n    IntConst(int),\n    StringVal(string)\n}\n");
    assert_eq!(rest, b"\n");
    match &src.items[0] {
        SourceItem::AstManyItem(n) => {
            assert_eq!(n.ident, "Alternatives");
            assert_eq!(n.items.len(), 2);
            match &n.items[1] {
                AstItem::AstDefItem(d) => {
                    assert_eq!(d.ident, Some("StringVal"));
                    assert_eq!(key_of(&d.tokens[0]), Some("string"));
                }
                other => panic!("unexpected {:?}", other),
            }
        }
        other => panic!("unexpected {:?}", other),
    }
}

#[test]
fn readme_simple_enum_is_parsed() {
    let (src, _) = parse("Comparison {\n    \"=\" => Equal,\n    \"<\" => Lt,\n    \">\" => Gt\n}");
    match &src.items[0] {
        SourceItem::AstManyItem(n) => {
            assert_eq!(n.items.len(), 3);
            match &n.items[0] {
                AstItem::AstDefItem(d) => {
                    assert_eq!(d.ident, Some("Equal"));
                    match &d.tokens[0] {
                        Token::SimpleTokenItem(st) => {
                            assert!(matches!(st.token_type, TokenType::QuotedItem(ref q) if q.string == "="))
                        }
                        other => panic!("unexpected {:?}", other),
                    }
                }
                other => panic!("unexpected {:?}", other),
            }
        }
        other => panic!("unexpected {:?}", other),
    }
}

#[test]
fn named_and_optional_tokens_are_parsed() {
    let (src, _) = parse("Container(first:ident? COLON !AstName)");
    match &src.items[0] {
        SourceItem::AstSingleItem(n) => {
            assert_eq!(n.tokens.len(), 3);
            match &n.tokens[0] {
                Token::NamedTokenItem(nt) => {
                    assert_eq!(nt.name, "first");
                    assert!(nt.optional);
                    assert!(!nt.not);
                }
                other => panic!("unexpected {:?}", other),
            }
            match &n.tokens[2] {
                Token::SimpleTokenItem(st) => assert!(st.not),
                other => panic!("unexpected {:?}", other),
            }
        }
        other => panic!("unexpected {:?}", other),
    }
}

#[test]
fn readme_list_is_parsed() {
    let (src, rest) =
        parse("Source (statements)\n\nstatements:Statement[] {\n    (\"say\" string) => Say,\n    (\"bg\" Color) => BgColor\n}");
    assert_eq!(rest, b"");
    assert_eq!(src.items.len(), 2);
    match &src.items[1] {
        SourceItem::ListItem(List::ListManyItem(l)) => {
            assert_eq!(l.ident, "statements");
            assert_eq!(l.ast_type, "Statement");
            assert_eq!(l.items.len(), 2);
        }
        other => panic!("unexpected {:?}", other),
    }
}

#[test]
fn comments_annotations_and_groups_are_parsed() {
    let (src, rest) = parse("(* a comment *) @a(x = 1) Foo(@b (x y)? tok(\"s\"))");
    assert_eq!(rest, b"");
    assert_eq!(src.items.len(), 2);
    assert!(matches!(src.items[0], SourceItem::CommentItem(ref c) if c.comment == " a comment "));
    match &src.items[1] {
        SourceItem::AstSingleItem(n) => {
            assert_eq!(n.annots.len(), 1);
            assert_eq!(n.annots[0].ident, "a");
            match &n.tokens[0] {
                Token::TokenGroupItem(g) => {
                    assert!(g.optional);
                    assert_eq!(g.annots[0].ident, "b");
                    assert_eq!(g.token_list.len(), 2);
                }
                other => panic!("unexpected {:?}", other),
            }
            assert!(matches!(&n.tokens[1], Token::SimpleTokenItem(st)
                if matches!(st.token_type, TokenType::FuncTokenItem(ref f) if f.ident == "tok" && f.fn_args.len() == 1)));
        }
        other => panic!("unexpected {:?}", other),
    }
}

#[test]
fn unparsed_text_is_left_over() {
    let (src, rest) = parse("  Foo(a) }");
    assert_eq!(src.items.len(), 1);
    assert_eq!(rest, b" }");
}

#[test]
fn printing_and_parsing_gives_the_tree_back() {
    let text = "Container(first:ident? COLON (a b)? !AstName)\nAlts { X(a), \"k\" => Y }\nitems:Item[] sep { Z(a) }";
    let (src, _) = parse(text);
    let printed = ToSource::source(String::new(), &src);
    let leaked: &'static str = Box::leak(printed.into_boxed_str());
    let (again, rest) = parse(leaked);
    assert_eq!(format!("{:?}", again), format!("{:?}", src));
    assert!(rest.iter().all(|b| b.is_ascii_whitespace()));
}
