//! Syntax tree of the description language, as its parser builds it.
use vstd::prelude::*;

verus! {

#[derive(Debug)]
pub struct AnnotArg<'a> {
    pub annot_arg_val: AnnotArgVal<'a>,
    pub key: &'a str,
}

impl<'a> AnnotArg<'a> {
    pub fn new(key: &'a str, annot_arg_val: AnnotArgVal<'a>) -> (r: AnnotArg<'a>)
        ensures
            r == (AnnotArg { annot_arg_val, key }),
    {
        AnnotArg { annot_arg_val, key }
    }
}

#[derive(Debug)]
pub struct AnnotArgs<'a> {
    pub annot_arg_list: Vec<AnnotArg<'a>>,
}

impl<'a> AnnotArgs<'a> {
    pub fn new(annot_arg_list: Vec<AnnotArg<'a>>) -> (r: AnnotArgs<'a>)
        ensures
            r == (AnnotArgs { annot_arg_list }),
    {
        AnnotArgs { annot_arg_list }
    }
}

#[derive(Debug)]
pub struct Annotation<'a> {
    pub annot_args: Option<AnnotArgs<'a>>,
    pub ident: &'a str,
}

impl<'a> Annotation<'a> {
    pub fn new(ident: &'a str, annot_args: AnnotArgs<'a>) -> (r: Annotation<'a>)
        ensures
            r == (Annotation { annot_args: Some(annot_args), ident }),
    {
        Annotation { annot_args: Some(annot_args), ident }
    }
}

#[derive(Debug)]
pub struct AstDef<'a> {
    pub annots: Vec<Annotation<'a>>,
    pub ident: Option<&'a str>,
    pub tokens: Vec<Token<'a>>,
}

impl<'a> AstDef<'a> {
    pub fn new(annots: Vec<Annotation<'a>>, tokens: Vec<Token<'a>>, ident: &'a str) -> (r: AstDef<'a>)
        ensures
            r == (AstDef { annots, ident: Some(ident), tokens }),
    {
        AstDef { annots, ident: Some(ident), tokens }
    }

    pub fn as_ast_item(self) -> (r: AstItem<'a>)
        ensures
            r == AstItem::AstDefItem(self),
    {
        AstItem::AstDefItem(self)
    }
}

#[derive(Debug)]
pub struct AstMany<'a> {
    pub annots: Vec<Annotation<'a>>,
    pub ident: &'a str,
    pub items: Vec<AstItem<'a>>,
}

impl<'a> AstMany<'a> {
    pub fn new(annots: Vec<Annotation<'a>>, ident: &'a str, items: Vec<AstItem<'a>>) -> (r: AstMany<'a>)
        ensures
            r == (AstMany { annots, ident, items }),
    {
        AstMany { annots, ident, items }
    }

    pub fn as_source_item(self) -> (r: SourceItem<'a>)
        ensures
            r == SourceItem::AstManyItem(self),
    {
        SourceItem::AstManyItem(self)
    }
}

#[derive(Debug)]
pub struct AstRef<'a> {
    pub ident: &'a str,
}

impl<'a> AstRef<'a> {
    pub fn new(ident: &'a str) -> (r: AstRef<'a>)
        ensures
            r == (AstRef { ident }),
    {
        AstRef { ident }
    }

    pub fn as_ast_item(self) -> (r: AstItem<'a>)
        ensures
            r == AstItem::AstRefItem(self),
    {
        AstItem::AstRefItem(self)
    }
}

#[derive(Debug)]
pub struct AstSingle<'a> {
    pub annots: Vec<Annotation<'a>>,
    pub ident: &'a str,
    pub tokens: Vec<Token<'a>>,
}

impl<'a> AstSingle<'a> {
    pub fn new(annots: Vec<Annotation<'a>>, ident: &'a str, tokens: Vec<Token<'a>>) -> (r: AstSingle<'a>)
        ensures
            r == (AstSingle { annots, ident, tokens }),
    {
        AstSingle { annots, ident, tokens }
    }

    pub fn as_source_item(self) -> (r: SourceItem<'a>)
        ensures
            r == SourceItem::AstSingleItem(self),
    {
        SourceItem::AstSingleItem(self)
    }
}

#[derive(Debug)]
pub struct Comment<'a> {
    pub comment: &'a str,
}

impl<'a> Comment<'a> {
    pub fn new(comment: &'a str) -> (r: Comment<'a>)
        ensures
            r == (Comment { comment }),
    {
        Comment { comment }
    }

    pub fn as_source_item(self) -> (r: SourceItem<'a>)
        ensures
            r == SourceItem::CommentItem(self),
    {
        SourceItem::CommentItem(self)
    }
}

#[derive(Debug)]
pub struct FuncToken<'a> {
    pub fn_args: Vec<FuncArg<'a>>,
    pub ident: &'a str,
}

impl<'a> FuncToken<'a> {
    pub fn new(ident: &'a str, fn_args: Vec<FuncArg<'a>>) -> (r: FuncToken<'a>)
        ensures
            r == (FuncToken { fn_args, ident }),
    {
        FuncToken { fn_args, ident }
    }

    pub fn as_token_type(self) -> (r: TokenType<'a>)
        ensures
            r == TokenType::FuncTokenItem(self),
    {
        TokenType::FuncTokenItem(self)
    }
}

#[derive(Debug)]
pub struct Ident<'a> {
    pub ident: &'a str,
}

impl<'a> Ident<'a> {
    pub fn new(ident: &'a str) -> (r: Ident<'a>)
        ensures
            r == (Ident { ident }),
    {
        Ident { ident }
    }

    pub fn as_annot_arg_val(self) -> (r: AnnotArgVal<'a>)
        ensures
            r == AnnotArgVal::IdentItem(self),
    {
        AnnotArgVal::IdentItem(self)
    }
}

#[derive(Debug)]
pub struct IntConst {
    pub int: u32,
}

impl IntConst {
    pub fn new(int_val: u32) -> (r: IntConst)
        ensures
            r == (IntConst { int: int_val }),
    {
        IntConst { int: int_val }
    }

    pub fn as_annot_arg_val<'a>(self) -> (r: AnnotArgVal<'a>)
        ensures
            r == AnnotArgVal::IntConstItem(self),
    {
        AnnotArgVal::IntConstItem(self)
    }
}

#[derive(Debug)]
pub struct KeyToken<'a> {
    pub key: &'a str,
}

impl<'a> KeyToken<'a> {
    pub fn new(key: &'a str) -> (r: KeyToken<'a>)
        ensures
            r == (KeyToken { key }),
    {
        KeyToken { key }
    }

    pub fn as_token_type(self) -> (r: TokenType<'a>)
        ensures
            r == TokenType::KeyTokenItem(self),
    {
        TokenType::KeyTokenItem(self)
    }
}

#[derive(Debug)]
pub struct ListItem<'a> {
    pub ast_item: AstItem<'a>,
    pub sep: Option<&'a str>,
}

impl<'a> ListItem<'a> {
    pub fn new(ast_item: AstItem<'a>, sep: &'a str) -> (r: ListItem<'a>)
        ensures
            r == (ListItem { ast_item, sep: Some(sep) }),
    {
        ListItem { ast_item, sep: Some(sep) }
    }
}

#[derive(Debug)]
pub struct ListMany<'a> {
    pub annots: Vec<Annotation<'a>>,
    pub ast_type: &'a str,
    pub ident: &'a str,
    pub items: Vec<ListItem<'a>>,
    pub sep: Option<&'a str>,
}

impl<'a> ListMany<'a> {
    pub fn new(annots: Vec<Annotation<'a>>, ident: &'a str, ast_type: &'a str, sep: &'a str, items: Vec<ListItem<'a>>) -> (r: ListMany<'a>)
        ensures
            r == (ListMany { annots, ast_type, ident, items, sep: Some(sep) }),
    {
        ListMany { annots, ast_type, ident, items, sep: Some(sep) }
    }

    pub fn as_list(self) -> (r: List<'a>)
        ensures
            r == List::ListManyItem(self),
    {
        List::ListManyItem(self)
    }
}

#[derive(Debug)]
pub struct ListSingle<'a> {
    pub annots: Vec<Annotation<'a>>,
    pub ident: &'a str,
    pub reference: &'a str,
    pub sep: &'a str,
}

impl<'a> ListSingle<'a> {
    pub fn new(annots: Vec<Annotation<'a>>, ident: &'a str, sep: &'a str, reference: &'a str) -> (r: ListSingle<'a>)
        ensures
            r == (ListSingle { annots, ident, reference, sep }),
    {
        ListSingle { annots, ident, reference, sep }
    }

    pub fn as_list(self) -> (r: List<'a>)
        ensures
            r == List::ListSingleItem(self),
    {
        List::ListSingleItem(self)
    }
}

#[derive(Debug)]
pub struct NamedToken<'a> {
    pub token_type: TokenType<'a>,
    pub annots: Vec<Annotation<'a>>,
    pub name: &'a str,
    pub not: bool,
    pub optional: bool,
}

impl<'a> NamedToken<'a> {
    pub fn new(annots: Vec<Annotation<'a>>, name: &'a str, not: bool, token_type: TokenType<'a>, optional: bool) -> (r: NamedToken<'a>)
        ensures
            r == (NamedToken { token_type, annots, name, not, optional }),
    {
        NamedToken { token_type, annots, name, not, optional }
    }

    pub fn as_token(self) -> (r: Token<'a>)
        ensures
            r == Token::NamedTokenItem(self),
    {
        Token::NamedTokenItem(self)
    }
}

#[derive(Debug)]
pub struct Quoted<'a> {
    pub string: &'a str,
}

impl<'a> Quoted<'a> {
    pub fn new(string: &'a str) -> (r: Quoted<'a>)
        ensures
            r == (Quoted { string }),
    {
        Quoted { string }
    }

    pub fn as_annot_arg_val(self) -> (r: AnnotArgVal<'a>)
        ensures
            r == AnnotArgVal::QuotedItem(self),
    {
        AnnotArgVal::QuotedItem(self)
    }

    pub fn as_token_type(self) -> (r: TokenType<'a>)
        ensures
            r == TokenType::QuotedItem(self),
    {
        TokenType::QuotedItem(self)
    }

    pub fn as_func_arg(self) -> (r: FuncArg<'a>)
        ensures
            r == FuncArg::QuotedItem(self),
    {
        FuncArg::QuotedItem(self)
    }
}

#[derive(Debug)]
pub struct SimpleToken<'a> {
    pub token_type: TokenType<'a>,
    pub annots: Vec<Annotation<'a>>,
    pub not: bool,
    pub optional: bool,
}

impl<'a> SimpleToken<'a> {
    pub fn new(annots: Vec<Annotation<'a>>, not: bool, token_type: TokenType<'a>, optional: bool) -> (r: SimpleToken<'a>)
        ensures
            r == (SimpleToken { token_type, annots, not, optional }),
    {
        SimpleToken { token_type, annots, not, optional }
    }

    pub fn as_token(self) -> (r: Token<'a>)
        ensures
            r == Token::SimpleTokenItem(self),
    {
        Token::SimpleTokenItem(self)
    }
}

#[derive(Debug)]
pub struct Source<'a> {
    pub items: Vec<SourceItem<'a>>,
}

impl<'a> Source<'a> {
    pub fn new(items: Vec<SourceItem<'a>>) -> (r: Source<'a>)
        ensures
            r == (Source { items }),
    {
        Source { items }
    }
}

#[derive(Debug)]
pub struct TokenGroup<'a> {
    pub annots: Vec<Annotation<'a>>,
    pub not: bool,
    pub optional: bool,
    pub token_list: Vec<Token<'a>>,
}

impl<'a> TokenGroup<'a> {
    pub fn new(annots: Vec<Annotation<'a>>, not: bool, token_list: Vec<Token<'a>>, optional: bool) -> (r: TokenGroup<'a>)
        ensures
            r == (TokenGroup { annots, not, optional, token_list }),
    {
        TokenGroup { annots, not, optional, token_list }
    }

    pub fn as_token(self) -> (r: Token<'a>)
        ensures
            r == Token::TokenGroupItem(self),
    {
        Token::TokenGroupItem(self)
    }
}

#[derive(Debug)]
pub enum AnnotArgVal<'a> {
    QuotedItem(Quoted<'a>),
    IdentItem(Ident<'a>),
    IntConstItem(IntConst),
}

impl<'a> AnnotArgVal<'a> {
    pub fn quoted(string: &'a str) -> (r: AnnotArgVal<'a>)
        ensures
            r == AnnotArgVal::QuotedItem(Quoted { string }),
    {
        AnnotArgVal::QuotedItem(Quoted::new(string))
    }

    pub fn ident(ident: &'a str) -> (r: AnnotArgVal<'a>)
        ensures
            r == AnnotArgVal::IdentItem(Ident { ident }),
    {
        AnnotArgVal::IdentItem(Ident::new(ident))
    }

    pub fn int_const(int_val: u32) -> (r: AnnotArgVal<'a>)
        ensures
            r == AnnotArgVal::IntConstItem(IntConst { int: int_val }),
    {
        AnnotArgVal::IntConstItem(IntConst::new(int_val))
    }
}

#[derive(Debug)]
pub enum AstItem<'a> {
    AstDefItem(AstDef<'a>),
    AstRefItem(AstRef<'a>),
}

impl<'a> AstItem<'a> {
    pub fn ast_def(annots: Vec<Annotation<'a>>, tokens: Vec<Token<'a>>, ident: &'a str) -> (r: AstItem<'a>)
        ensures
            r == AstItem::AstDefItem(AstDef { annots, ident: Some(ident), tokens }),
    {
        AstItem::AstDefItem(AstDef::new(annots, tokens, ident))
    }

    pub fn ast_ref(ident: &'a str) -> (r: AstItem<'a>)
        ensures
            r == AstItem::AstRefItem(AstRef { ident }),
    {
        AstItem::AstRefItem(AstRef::new(ident))
    }
}

#[derive(Debug)]
pub enum FuncArg<'a> {
    QuotedItem(Quoted<'a>),
}

impl<'a> FuncArg<'a> {
    pub fn quoted(string: &'a str) -> (r: FuncArg<'a>)
        ensures
            r == FuncArg::QuotedItem(Quoted { string }),
    {
        FuncArg::QuotedItem(Quoted::new(string))
    }
}

#[derive(Debug)]
pub enum List<'a> {
    ListSingleItem(ListSingle<'a>),
    ListManyItem(ListMany<'a>),
}

impl<'a> List<'a> {
    pub fn list_single(annots: Vec<Annotation<'a>>, ident: &'a str, sep: &'a str, reference: &'a str) -> (r: List<'a>)
        ensures
            r == List::ListSingleItem(ListSingle { annots, ident, reference, sep }),
    {
        List::ListSingleItem(ListSingle::new(annots, ident, sep, reference))
    }

    pub fn list_many(annots: Vec<Annotation<'a>>, ident: &'a str, ast_type: &'a str, sep: &'a str, items: Vec<ListItem<'a>>) -> (r: List<'a>)
        ensures
            r == List::ListManyItem(ListMany { annots, ast_type, ident, items, sep: Some(sep) }),
    {
        List::ListManyItem(ListMany::new(annots, ident, ast_type, sep, items))
    }
}

#[derive(Debug)]
pub enum SourceItem<'a> {
    AstSingleItem(AstSingle<'a>),
    AstManyItem(AstMany<'a>),
    ListItem(List<'a>),
    CommentItem(Comment<'a>),
}

impl<'a> SourceItem<'a> {
    pub fn ast_single(annots: Vec<Annotation<'a>>, ident: &'a str, tokens: Vec<Token<'a>>) -> (r: SourceItem<'a>)
        ensures
            r == SourceItem::AstSingleItem(AstSingle { annots, ident, tokens }),
    {
        SourceItem::AstSingleItem(AstSingle::new(annots, ident, tokens))
    }

    pub fn ast_many(annots: Vec<Annotation<'a>>, ident: &'a str, items: Vec<AstItem<'a>>) -> (r: SourceItem<'a>)
        ensures
            r == SourceItem::AstManyItem(AstMany { annots, ident, items }),
    {
        SourceItem::AstManyItem(AstMany::new(annots, ident, items))
    }

    pub fn comment(comment: &'a str) -> (r: SourceItem<'a>)
        ensures
            r == SourceItem::CommentItem(Comment { comment }),
    {
        SourceItem::CommentItem(Comment::new(comment))
    }
}

#[derive(Debug)]
pub enum Token<'a> {
    NamedTokenItem(NamedToken<'a>),
    SimpleTokenItem(SimpleToken<'a>),
    TokenGroupItem(TokenGroup<'a>),
}

impl<'a> Token<'a> {
    pub fn named_token(annots: Vec<Annotation<'a>>, name: &'a str, not: bool, token_type: TokenType<'a>, optional: bool) -> (r: Token<'a>)
        ensures
            r == Token::NamedTokenItem(NamedToken { token_type, annots, name, not, optional }),
    {
        Token::NamedTokenItem(NamedToken::new(annots, name, not, token_type, optional))
    }

    pub fn simple_token(annots: Vec<Annotation<'a>>, not: bool, token_type: TokenType<'a>, optional: bool) -> (r: Token<'a>)
        ensures
            r == Token::SimpleTokenItem(SimpleToken { token_type, annots, not, optional }),
    {
        Token::SimpleTokenItem(SimpleToken::new(annots, not, token_type, optional))
    }

    pub fn token_group(annots: Vec<Annotation<'a>>, not: bool, token_list: Vec<Token<'a>>, optional: bool) -> (r: Token<'a>)
        ensures
            r == Token::TokenGroupItem(TokenGroup { annots, not, optional, token_list }),
    {
        Token::TokenGroupItem(TokenGroup::new(annots, not, token_list, optional))
    }
}

#[derive(Debug)]
pub enum TokenType<'a> {
    FuncTokenItem(FuncToken<'a>),
    KeyTokenItem(KeyToken<'a>),
    QuotedItem(Quoted<'a>),
}

impl<'a> TokenType<'a> {
    pub fn func_token(ident: &'a str, fn_args: Vec<FuncArg<'a>>) -> (r: TokenType<'a>)
        ensures
            r == TokenType::FuncTokenItem(FuncToken { fn_args, ident }),
    {
        TokenType::FuncTokenItem(FuncToken::new(ident, fn_args))
    }

    pub fn key_token(key: &'a str) -> (r: TokenType<'a>)
        ensures
            r == TokenType::KeyTokenItem(KeyToken { key }),
    {
        TokenType::KeyTokenItem(KeyToken::new(key))
    }

    pub fn quoted(string: &'a str) -> (r: TokenType<'a>)
        ensures
            r == TokenType::QuotedItem(Quoted { string }),
    {
        TokenType::QuotedItem(Quoted::new(string))
    }
}

} // verus!
