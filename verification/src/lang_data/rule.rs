//! Parser rules: the parts that make up an AST type, and the regular
//! expressions collected from them for syntax highlighting.
use vstd::prelude::*;
use crate::text::{cat, cat_char, chars_lt, decimal, owned, usize_to_string};
use crate::strmap::StrMap;
use crate::lang_data::annotations::AnnotList;
use crate::descr_lang::ast::{FuncArg, FuncToken, Quoted};

verus! {

/// Parser "rule": the list of tokens that makes up some AST type.
/// The tokens themselves are stored in the language data and referenced by key.
#[derive(Debug)]
pub struct AstPartsRule<'a> {
    pub parts: Vec<AstRulePart<'a>>,
    pub ast_type: &'a str,
    pub annots: AnnotList<'a>,
}

#[derive(Debug)]
pub enum PartRegex {
    Regex {
        regex: String,
        not: bool,
        optional: bool,
        capture: bool,
        capture_name: Option<String>,
        in_group: bool,
    },
    OptStart,
    OptEnd,
    NotStart,
    NotEnd,
}

impl Clone for PartRegex {
    fn clone(&self) -> (r: Self)
        ensures
            r == *self,
    {
        match self {
            PartRegex::Regex { regex, not, optional, capture, capture_name, in_group } => {
                PartRegex::Regex {
                    regex: regex.clone(),
                    not: *not,
                    optional: *optional,
                    capture: *capture,
                    capture_name: match capture_name {
                        Some(n) => Some(n.clone()),
                        None => None,
                    },
                    in_group: *in_group,
                }
            },
            PartRegex::OptStart => PartRegex::OptStart,
            PartRegex::OptEnd => PartRegex::OptEnd,
            PartRegex::NotStart => PartRegex::NotStart,
            PartRegex::NotEnd => PartRegex::NotEnd,
        }
    }
}

/// A regex piece, with its strings as character sequences.
pub enum RegexV {
    Regex {
        regex: Seq<char>,
        not: bool,
        optional: bool,
        capture: bool,
        capture_name: Option<Seq<char>>,
        in_group: bool,
    },
    OptStart,
    OptEnd,
    NotStart,
    NotEnd,
}

pub open spec fn opt_chars(o: Option<String>) -> Option<Seq<char>> {
    match o {
        Some(s) => Some(s@),
        None => None,
    }
}

pub open spec fn rv(r: PartRegex) -> RegexV {
    match r {
        PartRegex::Regex { regex, not, optional, capture, capture_name, in_group } => RegexV::Regex {
            regex: regex@,
            not,
            optional,
            capture,
            capture_name: opt_chars(capture_name),
            in_group,
        },
        PartRegex::OptStart => RegexV::OptStart,
        PartRegex::OptEnd => RegexV::OptEnd,
        PartRegex::NotStart => RegexV::NotStart,
        PartRegex::NotEnd => RegexV::NotEnd,
    }
}

/// Whether a regex piece lies within an optional or negated group.
pub open spec fn regex_in_group(r: RegexV) -> bool {
    match r {
        RegexV::Regex { in_group, .. } => in_group,
        _ => true,
    }
}

/// The text a regex piece contributes; captures are kept only when asked for.
pub open spec fn regex_text(r: RegexV, add_captures: bool) -> Seq<char> {
    match r {
        RegexV::OptStart => "(?:"@,
        RegexV::OptEnd => ")?"@,
        RegexV::NotStart => "(?!"@,
        RegexV::NotEnd => ")"@,
        RegexV::Regex { regex, not, optional, capture, .. } => {
            let cap = add_captures && capture;
            (if !not {
                "\\s*"@
            } else {
                Seq::empty()
            }) + (if cap {
                "("@
            } else {
                Seq::empty()
            }) + (if optional {
                "(?:"@
            } else {
                Seq::empty()
            }) + (if not {
                "(?:(?!"@
            } else {
                Seq::empty()
            }) + regex + (if not {
                ").)*"@
            } else {
                Seq::empty()
            }) + (if optional {
                ")?"@
            } else {
                Seq::empty()
            }) + (if cap {
                ")"@
            } else {
                Seq::empty()
            })
        },
    }
}

impl PartRegex {
    pub fn in_group(&self) -> (r: bool)
        ensures
            r == regex_in_group(rv(*self)),
    {
        match self {
            PartRegex::OptStart | PartRegex::OptEnd | PartRegex::NotStart | PartRegex::NotEnd => {
                true
            },
            PartRegex::Regex { in_group, .. } => *in_group,
        }
    }

    #[verifier::spinoff_prover]
    pub fn add_to_string(&self, s: String, add_captures: bool) -> (r: String)
        ensures
            r@ == s@ + regex_text(rv(*self), add_captures),
    {
        let ghost s0 = s@;
        let mut s = s;
        match self {
            PartRegex::OptStart => s = cat(s, "(?:"),
            PartRegex::OptEnd => s = cat(s, ")?"),
            PartRegex::NotStart => s = cat(s, "(?!"),
            PartRegex::NotEnd => s = cat(s, ")"),
            PartRegex::Regex { regex, not, optional, capture, .. } => {
                if !*not {
                    s = cat(s, "\\s*");
                }
                if add_captures && *capture {
                    s = cat_char(s, '(');
                    assert(seq!['('] =~= "("@) by {
                        reveal_strlit("(");
                    }
                }
                if *optional {
                    s = cat(s, "(?:");
                }
                if *not {
                    s = cat(s, "(?:(?!");
                }
                s = cat(s, regex.as_str());
                if *not {
                    s = cat(s, ").)*");
                }
                if *optional {
                    s = cat(s, ")?");
                }
                if add_captures && *capture {
                    s = cat_char(s, ')');
                    assert(seq![')'] =~= ")"@) by {
                        reveal_strlit(")");
                    }
                }
            },
        }
        assert(s@ =~= s0 + regex_text(rv(*self), add_captures));
        s
    }
}

#[derive(Debug)]
pub enum CollectStateGroup {
    Opt,
    Not,
}

impl Clone for CollectStateGroup {
    fn clone(&self) -> (r: Self)
        ensures
            r == *self,
    {
        match self {
            CollectStateGroup::Opt => CollectStateGroup::Opt,
            CollectStateGroup::Not => CollectStateGroup::Not,
        }
    }
}

pub open spec fn group_closer(g: CollectStateGroup) -> RegexV {
    match g {
        CollectStateGroup::Opt => RegexV::OptEnd,
        CollectStateGroup::Not => RegexV::NotEnd,
    }
}

pub open spec fn group_opener(g: CollectStateGroup) -> RegexV {
    match g {
        CollectStateGroup::Opt => RegexV::OptStart,
        CollectStateGroup::Not => RegexV::NotStart,
    }
}

#[derive(Debug)]
pub struct CollectState {
    /// Sub patterns
    pub patterns: Vec<String>,
    /// Regex captures with syntax type name
    pub captures: Vec<String>,
    pub regexes: Vec<PartRegex>,
    pub is_first: bool,
    pub is_last: bool,
    pub is_end: bool,
    pub group_stack: Vec<CollectStateGroup>,
    /// Set when this is branched into a sub entry. The match then continues
    /// there, and regexes from here on act as a lookahead.
    pub is_subbed: bool,
    /// Whether every part collected so far is optional.
    pub only_optional: bool,
    pub parent_refs: Vec<String>,
}


/// A collect state, with its strings as character sequences.
#[verifier::ext_equal]
pub struct CView {
    pub patterns: Seq<Seq<char>>,
    pub captures: Seq<Seq<char>>,
    pub regexes: Seq<RegexV>,
    pub is_first: bool,
    pub is_last: bool,
    pub is_end: bool,
    pub group_stack: Seq<CollectStateGroup>,
    pub is_subbed: bool,
    pub only_optional: bool,
    pub parent_refs: Seq<Seq<char>>,
}

pub open spec fn strs(s: Seq<String>) -> Seq<Seq<char>> {
    s.map_values(|x: String| x@)
}

pub open spec fn rvs(s: Seq<PartRegex>) -> Seq<RegexV> {
    s.map_values(|r: PartRegex| rv(r))
}

pub open spec fn cview(c: CollectState) -> CView {
    CView {
        patterns: strs(c.patterns@),
        captures: strs(c.captures@),
        regexes: rvs(c.regexes@),
        is_first: c.is_first,
        is_last: c.is_last,
        is_end: c.is_end,
        group_stack: c.group_stack@,
        is_subbed: c.is_subbed,
        only_optional: c.only_optional,
        parent_refs: strs(c.parent_refs@),
    }
}

/// A fresh state, for a begin or an end match.
pub open spec fn new_v(is_end: bool) -> CView {
    CView {
        patterns: Seq::empty(),
        captures: Seq::empty(),
        regexes: Seq::empty(),
        is_first: !is_end,
        is_last: false,
        is_end,
        group_stack: Seq::empty(),
        is_subbed: false,
        only_optional: true,
        parent_refs: Seq::empty(),
    }
}

pub open spec fn close_v(c: CView) -> CView {
    CView { regexes: c.regexes + closers(c.group_stack), ..c }
}

pub open spec fn open_v(c: CView) -> CView {
    CView { regexes: openers(c.group_stack) + c.regexes, ..c }
}

pub open spec fn append_v(a: CView, b: CView) -> CView {
    CView {
        patterns: a.patterns + b.patterns,
        captures: a.captures + b.captures,
        regexes: a.regexes + b.regexes,
        is_first: a.is_first && b.is_first,
        only_optional: a.only_optional && b.only_optional,
        ..a
    }
}

pub open spec fn add_regex_v(
    c: CView,
    not: bool,
    optional: bool,
    regex: Seq<char>,
    name: Option<Seq<char>>,
    in_group: bool,
) -> CView {
    CView {
        regexes: c.regexes.push(
            RegexV::Regex { regex, not, optional, capture: name is Some, capture_name: name, in_group },
        ),
        captures: match name {
            Some(n) => c.captures.push(n),
            None => c.captures,
        },
        only_optional: c.only_optional && optional,
        ..c
    }
}

impl Clone for CollectState {
    fn clone(&self) -> (r: Self)
        ensures
            cview(r) == cview(*self),
    {
        let mut patterns = Vec::new();
        extend_strings(&mut patterns, &self.patterns);
        let mut captures = Vec::new();
        extend_strings(&mut captures, &self.captures);
        let mut regexes = Vec::new();
        extend_regexes(&mut regexes, &self.regexes);
        let mut group_stack: Vec<CollectStateGroup> = Vec::new();
        let n = self.group_stack.len();
        let mut i: usize = 0;
        while i < n
            invariant
                n == self.group_stack@.len(),
                i <= n,
                group_stack@ == self.group_stack@.take(i as int),
            decreases n - i,
        {
            group_stack.push(self.group_stack[i].clone());
            assert(self.group_stack@.take(i + 1) =~= self.group_stack@.take(i as int).push(
                self.group_stack@[i as int],
            ));
            i += 1;
        }
        assert(self.group_stack@.take(n as int) =~= self.group_stack@);
        let mut parent_refs = Vec::new();
        extend_strings(&mut parent_refs, &self.parent_refs);
        assert(patterns@ =~= self.patterns@);
        assert(captures@ =~= self.captures@);
        assert(regexes@ =~= self.regexes@);
        assert(parent_refs@ =~= self.parent_refs@);
        CollectState {
            patterns,
            captures,
            regexes,
            is_first: self.is_first,
            is_last: self.is_last,
            is_end: self.is_end,
            group_stack,
            is_subbed: self.is_subbed,
            only_optional: self.only_optional,
            parent_refs,
        }
    }
}

/// The concatenated text of a sequence of regex pieces.
pub open spec fn regexes_text(v: Seq<RegexV>, add_captures: bool) -> Seq<char>
    decreases v.len(),
{
    if v.len() == 0 {
        Seq::empty()
    } else {
        regexes_text(v.drop_last(), add_captures) + regex_text(v.last(), add_captures)
    }
}

/// Closers for the open groups, innermost first.
pub open spec fn closers(stack: Seq<CollectStateGroup>) -> Seq<RegexV> {
    Seq::new(stack.len(), |i: int| group_closer(stack[stack.len() - 1 - i]))
}

/// Openers for the open groups, outermost first.
pub open spec fn openers(stack: Seq<CollectStateGroup>) -> Seq<RegexV> {
    stack.map_values(|g: CollectStateGroup| group_opener(g))
}

impl CollectState {
    pub fn new(is_end: bool) -> (r: CollectState)
        ensures
            cview(r) == new_v(is_end),
    {
        let r = CollectState {
            patterns: Vec::new(),
            captures: Vec::new(),
            regexes: Vec::with_capacity(4),
            is_first: !is_end,
            is_last: false,
            is_end,
            group_stack: Vec::new(),
            is_subbed: false,
            only_optional: true,
            parent_refs: Vec::new(),
        };
        assert(strs(r.patterns@) =~= Seq::<Seq<char>>::empty());
        assert(strs(r.captures@) =~= Seq::<Seq<char>>::empty());
        assert(strs(r.parent_refs@) =~= Seq::<Seq<char>>::empty());
        assert(rvs(r.regexes@) =~= Seq::<RegexV>::empty());
        assert(cview(r) =~= new_v(is_end));
        r
    }

    /// Appends a closing piece for each open group, innermost first.
    pub fn close_regex_groups(&mut self)
        ensures
            cview(*final(self)) == close_v(cview(*old(self))),
    {
        let ghost r0 = rvs(self.regexes@);
        let n = self.group_stack.len();
        let mut i: usize = 0;
        while i < n
            invariant
                n == self.group_stack@.len(),
                i <= n,
                rvs(self.regexes@) == r0 + closers(self.group_stack@).take(i as int),
                self.patterns == old(self).patterns,
                self.captures == old(self).captures,
                self.group_stack == old(self).group_stack,
                self.is_first == old(self).is_first,
                self.is_last == old(self).is_last,
                self.is_end == old(self).is_end,
                self.is_subbed == old(self).is_subbed,
                self.only_optional == old(self).only_optional,
                self.parent_refs == old(self).parent_refs,
            decreases n - i,
        {
            let r = match &self.group_stack[n - 1 - i] {
                CollectStateGroup::Opt => PartRegex::OptEnd,
                CollectStateGroup::Not => PartRegex::NotEnd,
            };
            let ghost before = self.regexes@;
            self.regexes.push(r);
            proof {
                assert(rvs(self.regexes@) =~= rvs(before).push(rv(r)));
                assert(closers(self.group_stack@).take(i + 1) =~= closers(self.group_stack@).take(
                    i as int,
                ).push(rv(r)));
            }
            i += 1;
        }
        assert(closers(self.group_stack@).take(n as int) =~= closers(self.group_stack@));
        assert(cview(*self) =~= close_v(cview(*old(self))));
    }

    /// Puts an opening piece for each open group in front of the regexes,
    /// for a state that continues in the middle of a group.
    pub fn open_regex_groups(&mut self)
        ensures
            cview(*final(self)) == open_v(cview(*old(self))),
    {
        let mut opened: Vec<PartRegex> = Vec::new();
        let n = self.group_stack.len();
        let mut i: usize = 0;
        while i < n
            invariant
                n == self.group_stack@.len(),
                i <= n,
                rvs(opened@) == openers(self.group_stack@).take(i as int),
            decreases n - i,
        {
            let r = match &self.group_stack[i] {
                CollectStateGroup::Opt => PartRegex::OptStart,
                CollectStateGroup::Not => PartRegex::NotStart,
            };
            let ghost before = opened@;
            opened.push(r);
            proof {
                assert(rvs(opened@) =~= rvs(before).push(rv(r)));
                assert(openers(self.group_stack@).take(i + 1) =~= openers(self.group_stack@).take(
                    i as int,
                ).push(rv(r)));
            }
            i += 1;
        }
        assert(openers(self.group_stack@).take(n as int) =~= openers(self.group_stack@));
        let ghost o0 = opened@;
        let ghost r0 = self.regexes@;
        let m = self.regexes.len();
        let mut j: usize = 0;
        while j < m
            invariant
                m == self.regexes@.len(),
                r0 == self.regexes@,
                j <= m,
                opened@ == o0 + r0.take(j as int),
            decreases m - j,
        {
            opened.push(self.regexes[j].clone());
            assert(r0.take(j + 1) =~= r0.take(j as int).push(r0[j as int]));
            j += 1;
        }
        assert(r0.take(m as int) =~= r0);
        assert(rvs(o0 + r0) =~= rvs(o0) + rvs(r0));
        self.regexes = opened;
        assert(cview(*self) =~= open_v(cview(*old(self))));
    }

    /// Adds the patterns, captures and regexes of `state` after this one's.
    pub fn append(&mut self, state: &CollectState)
        ensures
            cview(*final(self)) == append_v(cview(*old(self)), cview(*state)),
    {
        let ghost p0 = self.patterns@;
        let ghost c0 = self.captures@;
        let ghost r0 = self.regexes@;
        extend_strings(&mut self.patterns, &state.patterns);
        extend_strings(&mut self.captures, &state.captures);
        extend_regexes(&mut self.regexes, &state.regexes);
        if self.is_first && !state.is_first {
            self.is_first = false;
        }
        if self.only_optional && !state.only_optional {
            self.only_optional = false;
        }
        assert(strs(p0 + state.patterns@) =~= strs(p0) + strs(state.patterns@));
        assert(strs(c0 + state.captures@) =~= strs(c0) + strs(state.captures@));
        assert(rvs(r0 + state.regexes@) =~= rvs(r0) + rvs(state.regexes@));
        assert(cview(*self) =~= append_v(cview(*old(self)), cview(*state)));
    }

    /// The collected regexes as one string, with captures.
    pub fn get_regex(&self) -> (r: String)
        ensures
            r@ == regexes_text(cview(*self).regexes, true),
    {
        let mut s = String::new();
        let n = self.regexes.len();
        let mut i: usize = 0;
        while i < n
            invariant
                n == self.regexes@.len(),
                i <= n,
                s@ == regexes_text(rvs(self.regexes@).take(i as int), true),
            decreases n - i,
        {
            s = self.regexes[i].add_to_string(s, true);
            assert(rvs(self.regexes@).take(i + 1).drop_last() =~= rvs(self.regexes@).take(i as int));
            i += 1;
        }
        assert(rvs(self.regexes@).take(n as int) =~= rvs(self.regexes@));
        s
    }

    /// Adds a regex piece; a named one is captured under that name.
    pub fn add_regex(
        &mut self,
        not: bool,
        optional: bool,
        regex: &str,
        default_name: Option<&str>,
        in_group: bool,
    )
        ensures
            cview(*final(self)) == add_regex_v(
                cview(*old(self)),
                not,
                optional,
                regex@,
                match default_name {
                    Some(n) => Some(n@),
                    None => None,
                },
                in_group,
            ),
    {
        let (capture, capture_name) = match default_name {
            Some(capture_name) => (true, Some(capture_name)),
            None => (false, None),
        };
        let p = PartRegex::Regex {
            regex: owned(regex),
            not,
            optional,
            capture,
            capture_name: match capture_name {
                Some(n) => Some(owned(n)),
                None => None,
            },
            in_group,
        };
        let ghost c0 = self.captures@;
        let ghost r0 = self.regexes@;
        if let Some(capture_name) = capture_name {
            let o = owned(capture_name);
            self.captures.push(o);
            assert(strs(self.captures@) =~= strs(c0).push(o@));
        }
        if !optional && self.only_optional {
            self.only_optional = false;
        }
        self.regexes.push(p);
        assert(rvs(self.regexes@) =~= rvs(r0).push(rv(p)));
        assert(cview(*self) =~= add_regex_v(
            cview(*old(self)),
            not,
            optional,
            regex@,
            match default_name {
                Some(n) => Some(n@),
                None => None,
            },
            in_group,
        ));
    }
}

pub(crate) fn extend_regexes(v: &mut Vec<PartRegex>, w: &Vec<PartRegex>)
    ensures
        final(v)@ == old(v)@ + w@,
{
    let ghost v0 = v@;
    let m = w.len();
    let mut j: usize = 0;
    while j < m
        invariant
            m == w@.len(),
            j <= m,
            v@ == v0 + w@.take(j as int),
        decreases m - j,
    {
        v.push(w[j].clone());
        assert(w@.take(j + 1) =~= w@.take(j as int).push(w@[j as int]));
        j += 1;
    }
    assert(w@.take(m as int) =~= w@);
}

pub(crate) fn extend_strings(v: &mut Vec<String>, w: &Vec<String>)
    ensures
        final(v)@ == old(v)@ + w@,
{
    let ghost v0 = v@;
    let m = w.len();
    let mut j: usize = 0;
    while j < m
        invariant
            m == w@.len(),
            j <= m,
            v@ == v0 + w@.take(j as int),
        decreases m - j,
    {
        v.push(w[j].clone());
        assert(w@.take(j + 1) =~= w@.take(j as int).push(w@[j as int]));
        j += 1;
    }
    assert(w@.take(m as int) =~= w@);
}

/// What collecting one part tells the caller to do next.
pub enum CollectPartReturn {
    Continue,
    CollectEnd,
    CollectSub,
}

/// A part of a rule, or a marker where an optional or negated group starts or ends.
pub enum CollectPart<'a, 'b> {
    Part { part: &'b AstRulePart<'a>, opt_group: bool, not_group: bool },
    OptGroupStart,
    OptGroupEnd,
    NotGroupStart,
    NotGroupEnd,
}

/// Escapes the characters that have a meaning in a regular expression.
pub open spec fn regex_escape(c: char) -> Seq<char> {
    if c == '(' || c == ')' || c == '{' || c == '}' || c == '[' || c == ']' || c == '?' || c
        == '.' || c == '+' || c == '*' || c == '\\' {
        seq!['\\', c]
    } else {
        seq![c]
    }
}

pub open spec fn regex_escaped(s: Seq<char>) -> Seq<char>
    decreases s.len(),
{
    if s.len() == 0 {
        Seq::empty()
    } else {
        regex_escaped(s.drop_last()) + regex_escape(s.last())
    }
}

/// A regular expression that matches `string` literally.
pub fn to_regex(string: &str) -> (r: String)
    ensures
        r@ == regex_escaped(string@),
{
    let mut s = String::new();
    let n = string.unicode_len();
    let mut i: usize = 0;
    while i < n
        invariant
            n == string@.len(),
            i <= n,
            s@ == regex_escaped(string@.take(i as int)),
        decreases n - i,
    {
        let chr = string.get_char(i);
        if chr == '(' || chr == ')' || chr == '{' || chr == '}' || chr == '[' || chr == ']' || chr
            == '?' || chr == '.' || chr == '+' || chr == '*' || chr == '\\' {
            s = cat_char(s, '\\');
        }
        s = cat_char(s, chr);
        assert(string@.take(i + 1).drop_last() =~= string@.take(i as int));
        assert(s@ =~= regex_escaped(string@.take(i + 1)));
        i += 1;
    }
    assert(string@.take(n as int) =~= string@);
    s
}

#[derive(Debug)]
pub struct AstRulePart<'a> {
    pub token: AstRuleToken<'a>,
    pub member_key: Option<&'a str>,
    pub optional: bool,
    pub not: bool,
    pub annots: AnnotList<'a>,
}

#[derive(Debug)]
pub enum AstRuleToken<'a> {
    Key(&'a str),
    Tag(&'a str),
    Func(&'a str, Vec<RuleFuncArg<'a>>),
    Group(Vec<AstRulePart<'a>>),
}

#[derive(Debug)]
pub enum RuleFuncArg<'a> {
    Quoted(&'a str),
}

impl<'a> AstRuleToken<'a> {
    /// A function token of a rule, with its quoted arguments.
    pub fn parse_func_token(token: &FuncToken<'a>) -> (r: AstRuleToken<'a>)
        ensures
            r matches AstRuleToken::Func(ident, args) && ident == token.ident && args@.len()
                == token.fn_args@.len() && forall|i: int|
                0 <= i < args@.len() ==> (#[trigger] args@[i] matches RuleFuncArg::Quoted(s)
                    && token.fn_args@[i] matches FuncArg::QuotedItem(q) && s == q.string),
    {
        let mut args: Vec<RuleFuncArg<'a>> = Vec::new();
        let n = token.fn_args.len();
        let mut i: usize = 0;
        while i < n
            invariant
                n == token.fn_args@.len(),
                i <= n,
                args@.len() == i,
                forall|j: int|
                    0 <= j < i ==> (#[trigger] args@[j] matches RuleFuncArg::Quoted(s)
                        && token.fn_args@[j] matches FuncArg::QuotedItem(q) && s == q.string),
            decreases n - i,
        {
            match &token.fn_args[i] {
                FuncArg::QuotedItem(Quoted { string }) => args.push(RuleFuncArg::Quoted(string)),
            }
            i += 1;
        }
        AstRuleToken::Func(token.ident, args)
    }
}

pub struct AstRulePartMemberData<'a> {
    pub member_name: &'a str,
    pub part_key: &'a str,
    pub optional: bool,
    pub not: bool,
    pub tag: bool,
}

/// State while generating the parser of one rule: numbering of optional
/// groups, the groups currently open, and where each grouped member is found.
pub struct GenParserData<'a> {
    pub group_num: u32,
    pub group_stack: Vec<String>,
    /// Member name to (group name, reference to the member within the group)
    pub member_map: StrMap<&'a str, (String, String)>,
    pub opt_group: bool,
}

/// Name of the optional group with number `n`.
pub open spec fn group_name(n: nat) -> Seq<char> {
    "group_"@ + decimal(n)
}

impl<'a> GenParserData<'a> {
    pub fn new() -> (r: GenParserData<'a>)
        ensures
            r.group_num == 1,
            r.group_stack@.len() == 0,
            r.member_map.wf(),
            r.member_map@ == Map::<Seq<char>, (String, String)>::empty(),
            !r.opt_group,
    {
        GenParserData { group_num: 1, group_stack: Vec::new(), member_map: StrMap::new(), opt_group: false }
    }

    /// Opens a new group, named by the next group number.
    pub fn push_group(&mut self) -> (r: String)
        requires
            old(self).group_num < u32::MAX,
        ensures
            r@ == group_name(old(self).group_num as nat),
            final(self).group_stack@ == old(self).group_stack@.push(r),
            final(self).group_num == old(self).group_num + 1,
            final(self).member_map == old(self).member_map,
            final(self).opt_group == old(self).opt_group,
    {
        let mut group_name = owned("group_");
        group_name = cat(group_name, usize_to_string(self.group_num as usize).as_str());
        self.group_stack.push(group_name.clone());
        self.group_num += 1;
        group_name
    }

    /// Closes the innermost group.
    pub fn pop_group(&mut self)
        ensures
            final(self).group_stack@ == (if old(self).group_stack@.len() == 0 {
                old(self).group_stack@
            } else {
                old(self).group_stack@.drop_last()
            }),
            final(self).group_num == old(self).group_num,
            final(self).member_map == old(self).member_map,
            final(self).opt_group == old(self).opt_group,
    {
        let _ = self.group_stack.pop();
    }
}

/// A rule for an AST entry: a list of parts, or a reference to another entry.
#[derive(Debug)]
pub enum AstRule<'a> {
    PartsRule(AstPartsRule<'a>),
    RefRule(&'a str),
}

#[derive(Debug)]
pub struct ListRule<'a> {
    pub ast_rule: AstRule<'a>,
    pub sep: Option<&'a str>,
}

impl<'a> ListRule<'a> {
    pub fn new(sep: Option<&'a str>, ast_rule: AstRule<'a>) -> (r: ListRule<'a>)
        ensures
            r == (ListRule { ast_rule, sep }),
    {
        ListRule { sep, ast_rule }
    }
}

impl<'a> AstPartsRule<'a> {
    pub fn new(ast_type: &'a str, annots: AnnotList<'a>) -> (r: AstPartsRule<'a>)
        ensures
            r.parts@.len() == 0,
            r.ast_type == ast_type,
            r.annots == annots,
    {
        AstPartsRule { parts: Vec::new(), ast_type, annots }
    }
}
} // verus!
