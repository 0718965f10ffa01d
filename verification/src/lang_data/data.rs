//! The language data: every table the generator fills while it reads a
//! description, and the lookups the code generators make in them.
use vstd::prelude::*;
use crate::text::{
    cat, cat_char, char_is_uppercase, char_lowercase, is_uppercase, owned, push_char, str_eq,
    to_lowercase,
};
use crate::strmap::{StrMap, StrSet};
use crate::lang_data::ast::{AstEnum, AstStruct, RuleType};
use crate::lang_data::rule::{AstRule, ListRule};
use crate::lang_data::typed_part::TypedPart;
use crate::lang_data::annotations::AnnotList;

verus! {

/// Data for an AST entry: one or more rules.
#[derive(Debug)]
pub struct AstData<'a> {
    pub key: &'a str,
    pub ast_type: &'a str,
    pub rules: Vec<AstRule<'a>>,
    pub annots: AnnotList<'a>,
}

impl<'a> AstData<'a> {
    pub fn new(key: &'a str, ast_type: &'a str, annots: AnnotList<'a>) -> (r: AstData<'a>)
        ensures
            r.key == key,
            r.ast_type == ast_type,
            r.rules@.len() == 0,
            r.annots == annots,
    {
        AstData { key, ast_type, rules: Vec::new(), annots }
    }
}

#[derive(Debug)]
pub struct ListData<'a> {
    pub key: &'a str,
    pub ast_type: Option<&'a str>,
    pub sep: Option<&'a str>,
    pub rules: Vec<ListRule<'a>>,
    pub annots: AnnotList<'a>,
}

impl<'a> ListData<'a> {
    pub fn new(
        key: &'a str,
        ast_type: Option<&'a str>,
        sep: Option<&'a str>,
        annots: AnnotList<'a>,
    ) -> (r: ListData<'a>)
        ensures
            r.key == key,
            r.ast_type == ast_type,
            r.sep == sep,
            r.rules@.len() == 0,
            r.annots == annots,
    {
        ListData { key, ast_type, sep, rules: Vec::new(), annots }
    }
}

/// One character of a name in snake case: an uppercase letter becomes its
/// lowercase form, preceded by `_` unless it is the first character.
pub open spec fn snake_piece(key: Seq<char>, i: int) -> Seq<char> {
    if char_is_uppercase(key[i]) {
        (if i > 0 {
            seq!['_']
        } else {
            Seq::empty()
        }) + char_lowercase(key[i])
    } else {
        seq![key[i]]
    }
}

/// The snake case form of the first `n` characters of a name.
pub open spec fn snake_upto(key: Seq<char>, n: int) -> Seq<char>
    decreases n,
{
    if n <= 0 {
        Seq::empty()
    } else {
        snake_upto(key, n - 1) + snake_piece(key, n - 1)
    }
}

/// The snake case form of a CamelCase name.
pub open spec fn snake(key: Seq<char>) -> Seq<char> {
    snake_upto(key, key.len() as int)
}

/// The snake case form of a name, computed.
pub fn snake_case(key: &str) -> (s: String)
    ensures
        s@ == snake(key@),
{
    let mut s = String::new();
    let n = key.unicode_len();
    let mut is_first = true;
    let mut i: usize = 0;
    while i < n
        invariant
            n == key@.len(),
            i <= n,
            is_first == (i == 0),
            s@ == snake_upto(key@, i as int),
        decreases n - i,
    {
        let chr = key.get_char(i);
        if is_uppercase(chr) {
            if !is_first {
                push_char(&mut s, '_');
            }
            let lower = to_lowercase(chr);
            let m = lower.len();
            let ghost s1 = s@;
            let mut j: usize = 0;
            while j < m
                invariant
                    m == lower@.len(),
                    j <= m,
                    s@ == s1 + lower@.take(j as int),
                decreases m - j,
            {
                push_char(&mut s, lower[j]);
                assert(lower@.take(j + 1) =~= lower@.take(j as int).push(lower@[j as int]));
                j += 1;
            }
            assert(lower@.take(m as int) =~= lower@);
        } else {
            push_char(&mut s, chr);
        }
        assert(s@ =~= snake_upto(key@, i + 1));
        if is_first {
            is_first = false;
        }
        i += 1;
    }
    s
}

/// Cache of the snake case form of names.
pub struct SnakeCased<'a> {
    pub cache: StrMap<&'a str, String>,
}

impl<'a> SnakeCased<'a> {
    /// Every cached form is the snake case of its name.
    pub open spec fn wf(&self) -> bool {
        &&& self.cache.wf()
        &&& forall|k: Seq<char>| #[trigger] self.cache@.contains_key(k) ==> self.cache@[k]@ == snake(k)
    }

    pub fn new() -> (r: SnakeCased<'a>)
        ensures
            r.wf(),
            r.cache@ == Map::<Seq<char>, String>::empty(),
    {
        SnakeCased { cache: StrMap::new() }
    }

    /// Registers the snake case form of `key`, unless it is cached already.
    pub fn reg(&mut self, key: &'a str)
        requires
            old(self).wf(),
        ensures
            final(self).wf(),
            final(self).cache@.dom() == old(self).cache@.dom().insert(key@),
    {
        if !self.cache.contains_key(key) {
            let s = snake_case(key);
            self.cache.insert(key, s);
            assert(self.cache@.dom() =~= old(self).cache@.dom().insert(key@));
        } else {
            assert(self.cache@.dom() =~= old(self).cache@.dom().insert(key@));
        }
    }

    /// The snake case form of `key`, registering it first if needed.
    pub fn get(&mut self, key: &'a str) -> (r: String)
        requires
            old(self).wf(),
        ensures
            final(self).wf(),
            final(self).cache@.dom() == old(self).cache@.dom().insert(key@),
            r@ == snake(key@),
    {
        if !self.cache.contains_key(key) {
            self.reg(key);
        } else {
            assert(self.cache@.dom() =~= old(self).cache@.dom().insert(key@));
        }
        match self.cache.get(key) {
            Some(s) => s.clone(),
            None => {
                assert(false);
                String::new()
            },
        }
    }

    /// The cached snake case form of `key`, which must have been registered.
    pub fn get_str(&self, key: &str) -> (r: &str)
        requires
            self.wf(),
            self.cache@.contains_key(key@),
        ensures
            r@ == snake(key@),
    {
        match self.cache.get(key) {
            Some(s) => s.as_str(),
            None => {
                assert(false);
                ""
            },
        }
    }
}

/// An AST type a key resolves to.
pub enum ResolvedType<'a> {
    ResolvedStruct(&'a str),
    ResolvedEnum(&'a str),
}

/// A resolved AST type, by the characters of its name.
pub enum Resolved {
    Struct(Seq<char>),
    Enum(Seq<char>),
}

impl Resolved {
    pub open spec fn name(self) -> Seq<char> {
        match self {
            Resolved::Struct(k) => k,
            Resolved::Enum(k) => k,
        }
    }
}

impl<'a> ResolvedType<'a> {
    pub open spec fn spec_resolved(self) -> Resolved {
        match self {
            ResolvedType::ResolvedStruct(k) => Resolved::Struct(k@),
            ResolvedType::ResolvedEnum(k) => Resolved::Enum(k@),
        }
    }

    pub open spec fn key(self) -> &'a str {
        match self {
            ResolvedType::ResolvedStruct(k) => k,
            ResolvedType::ResolvedEnum(k) => k,
        }
    }

    pub fn get_ast_type(&self) -> (r: &'a str)
        ensures
            r == self.key(),
    {
        match self {
            ResolvedType::ResolvedEnum(key) => key,
            ResolvedType::ResolvedStruct(key) => key,
        }
    }
}

/// A place that refers to an AST type: a member of a struct, or an item of an enum.
#[derive(Debug)]
pub enum ParentRef<'a> {
    StructMember { struct_name: &'a str, member_name: &'a str },
    EnumItem { enum_name: &'a str, item_name: &'a str },
}

impl<'a> ParentRef<'a> {
    /// The reference by the characters of its names.
    pub open spec fn chars(self) -> (bool, Seq<char>, Seq<char>) {
        match self {
            ParentRef::StructMember { struct_name, member_name } => (
                true,
                struct_name@,
                member_name@,
            ),
            ParentRef::EnumItem { enum_name, item_name } => (false, enum_name@, item_name@),
        }
    }

    pub fn same_as(&self, other: &ParentRef) -> (r: bool)
        ensures
            r == (self.chars() == other.chars()),
    {
        match (self, other) {
            (
                ParentRef::StructMember { struct_name: a, member_name: b },
                ParentRef::StructMember { struct_name: c, member_name: d },
            ) => str_eq(a, c) && str_eq(b, d),
            (
                ParentRef::EnumItem { enum_name: a, item_name: b },
                ParentRef::EnumItem { enum_name: c, item_name: d },
            ) => str_eq(a, c) && str_eq(b, d),
            _ => false,
        }
    }
}

/// For each AST type, the places that refer to it; each place once.
#[derive(Debug)]
pub struct ParentRefs<'a> {
    pub refs: StrMap<&'a str, Vec<ParentRef<'a>>>,
}

/// A list of places with one more place at its end, unless it is there already.
pub open spec fn refs_with<'a>(v: Seq<ParentRef<'a>>, r: ParentRef<'a>) -> Seq<ParentRef<'a>> {
    if ref_set(v).contains(r.chars()) {
        v
    } else {
        v.push(r)
    }
}

/// The places of a list, as characters.
pub open spec fn ref_set<'a>(v: Seq<ParentRef<'a>>) -> Set<(bool, Seq<char>, Seq<char>)> {
    Set::new(|c: (bool, Seq<char>, Seq<char>)| exists|i: int| 0 <= i < v.len() && #[trigger] v[i].chars() == c)
}

impl<'a> ParentRefs<'a> {
    pub open spec fn wf(&self) -> bool {
        &&& self.refs.wf()
        &&& forall|k: Seq<char>| #[trigger]
            self.refs@.contains_key(k) ==> forall|i: int, j: int|
                0 <= i < j < self.refs@[k]@.len() ==> #[trigger] self.refs@[k]@[i].chars()
                    != #[trigger] self.refs@[k]@[j].chars()
    }

    /// The places recorded for `k`.
    pub open spec fn of(&self, k: Seq<char>) -> Set<(bool, Seq<char>, Seq<char>)> {
        if self.refs@.contains_key(k) {
            ref_set(self.refs@[k]@)
        } else {
            Set::empty()
        }
    }

    /// The places recorded for `k`, in the order they were added.
    pub open spec fn refs_of(&self, k: Seq<char>) -> Seq<ParentRef<'a>> {
        if self.refs@.contains_key(k) {
            self.refs@[k]@
        } else {
            Seq::empty()
        }
    }

    pub fn new() -> (r: ParentRefs<'a>)
        ensures
            r.wf(),
            r.refs@ == Map::<Seq<char>, Vec<ParentRef<'a>>>::empty(),
    {
        ParentRefs { refs: StrMap::new() }
    }

    /// Records that `parent_ref` refers to `key`.
    pub fn add_ref(&mut self, key: &'a str, parent_ref: ParentRef<'a>)
        requires
            old(self).wf(),
        ensures
            final(self).wf(),
            final(self).refs@.dom() == old(self).refs@.dom().insert(key@),
            forall|k: Seq<char>| #[trigger]
                final(self).of(k) == if k == key@ {
                    old(self).of(k).insert(parent_ref.chars())
                } else {
                    old(self).of(k)
                },
            final(self).refs@[key@]@ == refs_with(old(self).refs_of(key@), parent_ref),
            forall|k: Seq<char>| k != key@ && #[trigger] old(self).refs@.contains_key(k) ==> final(self).refs@[k]
                == old(self).refs@[k],
    {
        if !self.refs.contains_key(key) {
            self.refs.insert(key, Vec::new());
            assert(ref_set(Seq::<ParentRef<'a>>::empty()) =~= Set::empty());
            assert forall|k: Seq<char>| #[trigger] self.refs@.contains_key(k) implies forall|
                a: int,
                b: int,
            |
                0 <= a < b < self.refs@[k]@.len() ==> #[trigger] self.refs@[k]@[a].chars()
                    != #[trigger] self.refs@[k]@[b].chars() by {
                if k != key@ {
                    assert(old(self).refs@.contains_key(k));
                }
            }
            assert forall|k: Seq<char>| #[trigger] self.of(k) == old(self).of(k) by {
                if k == key@ {
                    assert(self.of(k) =~= old(self).of(k));
                }
            }
        }
        let ghost mid = *self;
        assert(mid.wf());
        assert(forall|k: Seq<char>| #[trigger] mid.of(k) == old(self).of(k));
        let i = match self.refs.index_of(key) {
            Some(i) => i,
            None => {
                assert(false);
                0
            },
        };
        proof {
            mid.refs.lemma_idx(i as int);
        }
        let v = self.refs.val_at_mut(i);
        let n = v.len();
        let mut j: usize = 0;
        let mut found = false;
        while j < n
            invariant_except_break
                !found,
            invariant
                n == v@.len(),
                j <= n,
                forall|t: int| 0 <= t < j ==> v@[t].chars() != parent_ref.chars(),
            ensures
                found ==> j < n && v@[j as int].chars() == parent_ref.chars(),
                !found ==> forall|t: int| 0 <= t < n ==> v@[t].chars() != parent_ref.chars(),
            decreases n - j,
        {
            if v[j].same_as(&parent_ref) {
                found = true;
                break;
            }
            j += 1;
        }
        if !found {
            v.push(parent_ref);
        }
        proof {
            mid.refs.lemma_view_values();
            self.refs.lemma_view_values();
            self.refs.lemma_idx(i as int);
            let vk = self.refs@[key@]@;
            let vm = mid.refs@[key@]@;
            assert(vk == if found { vm } else { vm.push(parent_ref) });
            assert(vm == old(self).refs_of(key@));
            if found {
                assert(ref_set(vm).contains(parent_ref.chars()));
            } else {
                assert(!ref_set(vm).contains(parent_ref.chars()));
            }

            assert(self.refs@.dom() =~= mid.refs@.dom());
            assert(self.refs@.dom() =~= old(self).refs@.dom().insert(key@));
            assert forall|k: Seq<char>| k != key@ && #[trigger] old(self).refs@.contains_key(k) implies self.refs@[k]
                == old(self).refs@[k] by {
                assert(self.refs@.contains_key(k));
                let t = self.refs.idx(k);
                mid.refs.lemma_idx(t);
                assert(self.refs@[k] == mid.refs@[k]);
                assert(mid.refs@[k] == old(self).refs@[k]);
            }
            assert forall|k: Seq<char>| #[trigger] self.refs@.contains_key(k) implies forall|
                a: int,
                b: int,
            |
                0 <= a < b < self.refs@[k]@.len() ==> #[trigger] self.refs@[k]@[a].chars()
                    != #[trigger] self.refs@[k]@[b].chars() by {
                if k != key@ {
                    let t = self.refs.idx(k);
                    mid.refs.lemma_idx(t);
                    assert(self.refs@[k] == mid.refs@[k]);
                } else {
                    assert(mid.refs@.contains_key(k));
                }
            }
            assert forall|k: Seq<char>| #[trigger]
                self.of(k) == if k == key@ {
                    old(self).of(k).insert(parent_ref.chars())
                } else {
                    old(self).of(k)
                } by {
                assert(mid.of(k) == old(self).of(k));
                if k == key@ {
                    if found {
                        assert(ref_set(vk) =~= ref_set(vm).insert(parent_ref.chars()));
                    } else {
                        assert forall|c: (bool, Seq<char>, Seq<char>)|
                            ref_set(vk).contains(c) == ref_set(vm).insert(
                                parent_ref.chars(),
                            ).contains(c) by {
                            assert(vk[vm.len() as int] == parent_ref);
                            if ref_set(vk).contains(c) {
                                let t = choose|t: int| 0 <= t < vk.len() && #[trigger] vk[t].chars() == c;
                                if t < vm.len() {
                                    assert(vm[t] == vk[t]);
                                }
                            }
                            if ref_set(vm).contains(c) {
                                let t = choose|t: int| 0 <= t < vm.len() && #[trigger] vm[t].chars() == c;
                                assert(vk[t] == vm[t]);
                            }
                        }
                        assert(ref_set(vk) =~= ref_set(vm).insert(parent_ref.chars()));
                    }
                } else if self.refs@.contains_key(k) {
                    let t = self.refs.idx(k);
                    mid.refs.lemma_idx(t);
                    assert(self.refs@[k] == mid.refs@[k]);
                }
            }
        }
    }
}


pub struct LangData<'a> {
    pub typed_parts: StrMap<&'a str, TypedPart<'a>>,
    pub ast_data: StrMap<&'a str, AstData<'a>>,
    pub list_data: StrMap<&'a str, ListData<'a>>,
    pub ast_structs: StrMap<&'a str, AstStruct<'a>>,
    pub ast_enums: StrMap<&'a str, AstEnum<'a>>,
    /// Type information for rules; abstracts over AST, enum and reference rules.
    pub rule_types: StrMap<&'a str, RuleType<'a>>,
    pub snake_cased: SnakeCased<'a>,
    /// Assumed to be the first item.
    pub start_key: Option<&'a str>,
    pub simple_enums: StrSet<&'a str>,
    pub simple_structs: StrSet<&'a str>,
    pub debug: bool,
    /// For each struct or enum, the places that refer to it. Traversed to
    /// find references back up the tree, which must be boxed to keep the
    /// generated types finite.
    pub parent_refs: ParentRefs<'a>,
    /// Name of the language, used for the syntax highlighting scope.
    pub name: String,
}

/// The builtin tokens and what they parse, for a key that names one.
pub open spec fn builtin_part<'a>(key: &'a str) -> Option<TypedPart<'a>> {
    let k = key@;
    if k == "LPAREN"@ {
        Some(TypedPart::CharPart { key: "LPAREN", chr: '(' })
    } else if k == "RPAREN"@ {
        Some(TypedPart::CharPart { key: "RPAREN", chr: ')' })
    } else if k == "LBRACE"@ {
        Some(TypedPart::CharPart { key: "LBRACE", chr: '{' })
    } else if k == "RBRACE"@ {
        Some(TypedPart::CharPart { key: "RBRACE", chr: '}' })
    } else if k == "LBRACKET"@ {
        Some(TypedPart::CharPart { key: "LBRACKET", chr: '[' })
    } else if k == "RBRACKET"@ {
        Some(TypedPart::CharPart { key: "RBRACKET", chr: ']' })
    } else if k == "COMMA"@ {
        Some(TypedPart::CharPart { key: "COMMA", chr: ',' })
    } else if k == "COLON"@ {
        Some(TypedPart::CharPart { key: "COLON", chr: ':' })
    } else if k == "SEMICOLON"@ {
        Some(TypedPart::CharPart { key: "SEMICOLON", chr: ';' })
    } else if k == "EQUAL"@ {
        Some(TypedPart::CharPart { key: "EQUAL", chr: '=' })
    } else if k == "LT"@ {
        Some(TypedPart::CharPart { key: "LT", chr: '<' })
    } else if k == "GT"@ {
        Some(TypedPart::CharPart { key: "GT", chr: '>' })
    } else if k == "LTE"@ {
        Some(TypedPart::TagPart { key: "LTE", tag: "<=" })
    } else if k == "GTE"@ {
        Some(TypedPart::TagPart { key: "GTE", tag: ">=" })
    } else if k == "STAR"@ {
        Some(TypedPart::CharPart { key: "STAR", chr: '*' })
    } else if k == "EXCL"@ {
        Some(TypedPart::CharPart { key: "EXCL", chr: '!' })
    } else if k == "DOT"@ {
        Some(TypedPart::CharPart { key: "DOT", chr: '.' })
    } else if k == "QUESTION"@ {
        Some(TypedPart::CharPart { key: "QUESTION", chr: '?' })
    } else if k == "QUOTE"@ {
        Some(TypedPart::CharPart { key: "QUOTE", chr: '"' })
    } else if k == "WS"@ {
        Some(TypedPart::WSPart)
    } else if k == "string"@ {
        Some(TypedPart::StringPart { key })
    } else if k == "ident"@ {
        Some(TypedPart::IdentPart { key })
    } else if k == "int"@ {
        Some(TypedPart::IntPart { key })
    } else {
        None
    }
}

/// The fields other than the typed parts are as they were.
pub open spec fn same_but_typed_parts<'a>(a: &LangData<'a>, b: &LangData<'a>) -> bool {
    &&& a.ast_data == b.ast_data
    &&& a.list_data == b.list_data
    &&& a.ast_structs == b.ast_structs
    &&& a.ast_enums == b.ast_enums
    &&& a.rule_types == b.rule_types
    &&& a.snake_cased == b.snake_cased
    &&& a.start_key == b.start_key
    &&& a.simple_enums == b.simple_enums
    &&& a.simple_structs == b.simple_structs
    &&& a.debug == b.debug
    &&& a.parent_refs == b.parent_refs
    &&& a.name == b.name
}

impl<'a> LangData<'a> {
    pub open spec fn wf(&self) -> bool {
        &&& self.typed_parts.wf()
        &&& self.ast_data.wf()
        &&& self.list_data.wf()
        &&& self.ast_structs.wf()
        &&& self.ast_enums.wf()
        &&& self.rule_types.wf()
        &&& self.snake_cased.wf()
        &&& self.simple_enums.wf()
        &&& self.simple_structs.wf()
        &&& self.parent_refs.wf()
        &&& forall|k: Seq<char>| #[trigger]
            self.ast_structs@.contains_key(k) ==> self.ast_structs@[k].name@ == k
                && self.ast_structs@[k].members.wf()
        &&& forall|k: Seq<char>| #[trigger]
            self.ast_enums@.contains_key(k) ==> self.ast_enums@[k].name@ == k
                && self.ast_enums@[k].boxed_items.wf()
    }

    /// What `key` resolves to, following rule types at most `fuel` times.
    pub open spec fn resolve_fuel(&self, key: Seq<char>, fuel: nat) -> Option<Resolved>
        decreases fuel,
    {
        if self.ast_enums@.contains_key(key) {
            Some(Resolved::Enum(key))
        } else if self.ast_structs@.contains_key(key) {
            Some(Resolved::Struct(key))
        } else if fuel == 0 || !self.rule_types@.contains_key(key) {
            None
        } else {
            let t = self.rule_types@[key].type_key()@;
            if t != key {
                self.resolve_fuel(t, (fuel - 1) as nat)
            } else {
                None
            }
        }
    }

    /// Whether `key` resolves to a struct or enum: it is one, or its rule
    /// type leads to one. Longer chains than there are rule types repeat a
    /// key, and then resolving never ends.
    pub open spec fn resolves(&self, key: Seq<char>) -> bool {
        self.resolve_fuel(key, self.rule_types.keys@.len()) is Some
    }

    pub open spec fn resolved(&self, key: Seq<char>) -> Resolved {
        self.resolve_fuel(key, self.rule_types.keys@.len()).unwrap()
    }

    /// The registered snake case form of a name.
    pub open spec fn has_sc(&self, key: Seq<char>) -> bool {
        self.snake_cased.cache@.contains_key(key)
    }

    pub fn new(debug: bool) -> (r: LangData<'a>)
        ensures
            r.wf(),
            r.typed_parts@ == Map::<Seq<char>, TypedPart<'a>>::empty(),
            r.ast_data@ == Map::<Seq<char>, AstData<'a>>::empty(),
            r.list_data@ == Map::<Seq<char>, ListData<'a>>::empty(),
            r.ast_structs@ == Map::<Seq<char>, AstStruct<'a>>::empty(),
            r.ast_enums@ == Map::<Seq<char>, AstEnum<'a>>::empty(),
            r.rule_types@ == Map::<Seq<char>, RuleType<'a>>::empty(),
            r.rule_types.keys@.len() == 0,
            r.snake_cased.cache@ == Map::<Seq<char>, String>::empty(),
            r.start_key is None,
            r.simple_enums@ == Map::<Seq<char>, ()>::empty(),
            r.simple_structs@ == Map::<Seq<char>, ()>::empty(),
            r.debug == debug,
            r.parent_refs.refs@ == Map::<Seq<char>, Vec<ParentRef<'a>>>::empty(),
            r.name@.len() == 0,
    {
        LangData {
            typed_parts: StrMap::new(),
            ast_data: StrMap::new(),
            list_data: StrMap::new(),
            ast_structs: StrMap::new(),
            ast_enums: StrMap::new(),
            rule_types: StrMap::new(),
            snake_cased: SnakeCased::new(),
            start_key: None,
            simple_enums: StrMap::new(),
            simple_structs: StrMap::new(),
            debug,
            parent_refs: ParentRefs::new(),
            name: String::new(),
        }
    }

    /// The AST key (struct or enum) behind a part key, for AST and list parts.
    pub fn get_ast_key(&self, key: &'a str) -> (r: Option<&'a str>)
        requires
            self.wf(),
        ensures
            r == if self.typed_parts@.contains_key(key@) {
                match self.typed_parts@[key@] {
                    TypedPart::AstPart { key } => Some(key),
                    TypedPart::ListPart { key } => Some(key),
                    _ => None,
                }
            } else {
                None
            },
    {
        match self.typed_parts.get(key) {
            Some(TypedPart::AstPart { key }) => Some(key),
            Some(TypedPart::ListPart { key }) => Some(key),
            _ => None,
        }
    }

    /// Resolves a key to an enum or struct. The key can be an enum or
    /// struct key, or a rule key.
    pub fn resolve(&self, key: &'a str) -> (r: ResolvedType<'a>)
        requires
            self.wf(),
            self.resolves(key@),
        ensures
            r.spec_resolved() == self.resolved(key@),
            match r {
                ResolvedType::ResolvedEnum(k) => self.ast_enums@.contains_key(k@),
                ResolvedType::ResolvedStruct(k) => self.ast_structs@.contains_key(k@),
            },
    {
        let mut k = key;
        let ghost mut fuel: nat = self.rule_types.keys@.len();
        loop
            invariant
                self.wf(),
                self.resolve_fuel(k@, fuel) == Some(self.resolved(key@)),
                self.resolve_fuel(k@, fuel) is Some,
            decreases fuel,
        {
            if self.ast_enums.contains_key(k) {
                return ResolvedType::ResolvedEnum(k);
            } else if self.ast_structs.contains_key(k) {
                return ResolvedType::ResolvedStruct(k);
            }
            match self.rule_types.get(k) {
                Some(RuleType::SingleType(type_key)) => {
                    k = type_key;
                },
                Some(RuleType::ManyType(type_key)) => {
                    k = type_key;
                },
                None => {
                    assert(false);
                },
            }
            proof {
                fuel = (fuel - 1) as nat;
            }
        }
    }

    /// Resolves a key like `resolve`, or gives `None` where the chain of
    /// rule types does not end at a struct or enum.
    pub fn try_resolve(&self, key: &'a str) -> (r: Option<ResolvedType<'a>>)
        requires
            self.wf(),
        ensures
            r is Some <==> self.resolves(key@),
            r matches Some(rt) ==> rt.spec_resolved() == self.resolved(key@),
    {
        let mut k = key;
        let mut fuel: usize = self.rule_types.len();
        let ghost n0: nat = self.rule_types.keys@.len();
        loop
            invariant
                self.wf(),
                self.resolve_fuel(k@, fuel as nat) == self.resolve_fuel(key@, n0),
                n0 == self.rule_types.keys@.len(),
            decreases fuel,
        {
            if self.ast_enums.contains_key(k) {
                return Some(ResolvedType::ResolvedEnum(k));
            } else if self.ast_structs.contains_key(k) {
                return Some(ResolvedType::ResolvedStruct(k));
            }
            if fuel == 0 {
                return None;
            }
            let t = match self.rule_types.get(k) {
                Some(RuleType::SingleType(type_key)) => *type_key,
                Some(RuleType::ManyType(type_key)) => *type_key,
                None => {
                    return None;
                },
            };
            if str_eq(t, k) {
                return None;
            }
            k = t;
            fuel = fuel - 1;
        }
    }

    /// The snake case form of a registered name.
    pub fn sc(&self, key: &str) -> (r: &str)
        requires
            self.wf(),
            self.has_sc(key@),
        ensures
            r@ == snake(key@),
    {
        self.snake_cased.get_str(key)
    }

    fn add_tag_token(&mut self, key: &'a str, tag: &'a str)
        requires
            old(self).wf(),
        ensures
            final(self).wf(),
            final(self).typed_parts@ == old(self).typed_parts@.insert(
                key@,
                TypedPart::TagPart { key, tag },
            ),
            same_but_typed_parts(&*final(self), &*old(self)),
    {
        self.typed_parts.insert(key, TypedPart::TagPart { key, tag });
    }

    fn add_char_token(&mut self, key: &'a str, chr: char)
        requires
            old(self).wf(),
        ensures
            final(self).wf(),
            final(self).typed_parts@ == old(self).typed_parts@.insert(
                key@,
                TypedPart::CharPart { key, chr },
            ),
            same_but_typed_parts(&*final(self), &*old(self)),
    {
        self.typed_parts.insert(key, TypedPart::CharPart { key, chr });
    }

    /// Resolves the typed part of `key`, assuming the rule keys are
    /// registered: an AST entry, a list, or one of the builtin tokens.
    #[verifier::spinoff_prover]
    pub fn resolve_typed_part(&mut self, key: &'a str)
        requires
            old(self).wf(),
            old(self).ast_data@.contains_key(key@) || old(self).list_data@.contains_key(key@)
                || builtin_part(key) is Some,
        ensures
            final(self).wf(),
            same_but_typed_parts(&*final(self), &*old(self)),
            final(self).typed_parts@ == old(self).typed_parts@.insert(
                key@,
                if old(self).ast_data@.contains_key(key@) {
                    TypedPart::AstPart { key }
                } else if old(self).list_data@.contains_key(key@) {
                    TypedPart::ListPart { key }
                } else {
                    builtin_part(key).unwrap()
                },
            ),
    {
        if self.ast_data.contains_key(key) {
            self.typed_parts.insert(key, TypedPart::AstPart { key });
        } else if self.list_data.contains_key(key) {
            self.typed_parts.insert(key, TypedPart::ListPart { key });
        } else if str_eq(key, "LPAREN") {
            self.add_char_token("LPAREN", '(');
        } else if str_eq(key, "RPAREN") {
            self.add_char_token("RPAREN", ')');
        } else if str_eq(key, "LBRACE") {
            self.add_char_token("LBRACE", '{');
        } else if str_eq(key, "RBRACE") {
            self.add_char_token("RBRACE", '}');
        } else if str_eq(key, "LBRACKET") {
            self.add_char_token("LBRACKET", '[');
        } else if str_eq(key, "RBRACKET") {
            self.add_char_token("RBRACKET", ']');
        } else if str_eq(key, "COMMA") {
            self.add_char_token("COMMA", ',');
        } else if str_eq(key, "COLON") {
            self.add_char_token("COLON", ':');
        } else if str_eq(key, "SEMICOLON") {
            self.add_char_token("SEMICOLON", ';');
        } else if str_eq(key, "EQUAL") {
            self.add_char_token("EQUAL", '=');
        } else if str_eq(key, "LT") {
            self.add_char_token("LT", '<');
        } else if str_eq(key, "GT") {
            self.add_char_token("GT", '>');
        } else if str_eq(key, "LTE") {
            self.add_tag_token("LTE", "<=");
        } else if str_eq(key, "GTE") {
            self.add_tag_token("GTE", ">=");
        } else if str_eq(key, "STAR") {
            self.add_char_token("STAR", '*');
        } else if str_eq(key, "EXCL") {
            self.add_char_token("EXCL", '!');
        } else if str_eq(key, "DOT") {
            self.add_char_token("DOT", '.');
        } else if str_eq(key, "QUESTION") {
            self.add_char_token("QUESTION", '?');
        } else if str_eq(key, "QUOTE") {
            self.add_char_token("QUOTE", '"');
        } else if str_eq(key, "WS") {
            self.typed_parts.insert("WS", TypedPart::WSPart);
        } else if str_eq(key, "string") {
            self.typed_parts.insert("string", TypedPart::StringPart { key });
        } else if str_eq(key, "ident") {
            self.typed_parts.insert(key, TypedPart::IdentPart { key });
        } else if str_eq(key, "int") {
            self.typed_parts.insert(key, TypedPart::IntPart { key });
        } else {
            assert(false);
        }
    }
}
} // verus!
