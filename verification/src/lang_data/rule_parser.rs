//! Parser code generated from the parts of a rule.
use vstd::prelude::*;
use crate::text::{cat, decimal, join, join_upto, lemma_join_step, owned, usize_to_string};
use crate::lang_data::data::{snake, LangData};
use crate::lang_data::typed_part::{part_parser_text, part_value_text, TypedPart};
use crate::lang_data::ast::{resolved_simple, simple_fuel, AstEnum, AstStruct, RuleType};
use crate::lang_data::data::{Resolved, ResolvedType};
use crate::lang_data::rule::{group_name, AstRule, AstRulePart, AstRuleToken, GenParserData, RuleFuncArg};
use crate::lang_data::rule_part::{lemma_group_part_smaller, lemma_parts_size_prefix, part_size, parts_size};

verus! {

/// The state of parser generation, as values: the next group number, the
/// groups opened, where grouped members are found, and whether a member
/// group was opened.
#[verifier::ext_equal]
pub struct GenState {
    pub num: nat,
    pub stack: Seq<Seq<char>>,
    pub members: Map<Seq<char>, (Seq<char>, Seq<char>)>,
    pub opt_group: bool,
}

pub open spec fn gen_state<'a>(g: GenParserData<'a>) -> GenState {
    GenState {
        num: g.group_num as nat,
        stack: g.group_stack@.map_values(|x: String| x@),
        members: g.member_map@.map_values(|v: (String, String)| (v.0@, v.1@)),
        opt_group: g.opt_group,
    }
}

pub open spec fn member_sc_ok<'a>(data: &LangData<'a>, mk: Option<&'a str>) -> bool {
    match mk {
        Some(m) => data.has_sc(m@),
        None => true,
    }
}

/// The names generating a part's parser looks up are known.
pub open spec fn parser_ok<'a>(p: AstRulePart<'a>, data: &LangData<'a>) -> bool
    decreases p,
{
    match p.token {
        AstRuleToken::Group(parts) => (p.not ==> member_sc_ok(data, p.member_key)) && parts_parser_ok(
            parts@,
            data,
        ),
        AstRuleToken::Key(key) => member_sc_ok(data, p.member_key) && data.typed_parts@.contains_key(
            key@,
        ) && match data.typed_parts@[key@] {
            TypedPart::AstPart { key: k } => data.has_sc(k@),
            TypedPart::ListPart { key: k } => data.has_sc(k@),
            _ => true,
        },
        _ => member_sc_ok(data, p.member_key),
    }
}

pub open spec fn parts_parser_ok<'a>(ps: Seq<AstRulePart<'a>>, data: &LangData<'a>) -> bool
    decreases ps,
{
    ps.len() == 0 || (parts_parser_ok(ps.drop_last(), data) && parser_ok(ps.last(), data))
}

pub proof fn lemma_parts_parser_ok<'a>(ps: Seq<AstRulePart<'a>>, data: &LangData<'a>, i: int)
    requires
        parts_parser_ok(ps, data),
        0 <= i < ps.len(),
    ensures
        parser_ok(ps[i], data),
    decreases ps.len(),
{
    if i < ps.len() - 1 {
        lemma_parts_parser_ok(ps.drop_last(), data, i);
    }
}

/// The capture of a named part: its snake case name and `_k: `.
pub open spec fn member_capture<'a>(mk: Option<&'a str>) -> Seq<char> {
    match mk {
        Some(m) => snake(m@) + "_k: "@,
        None => Seq::empty(),
    }
}

pub open spec fn debug_open(debug: bool) -> Seq<char> {
    if debug {
        "debug_wrap!("@
    } else {
        Seq::empty()
    }
}

pub open spec fn debug_close(debug: bool) -> Seq<char> {
    if debug {
        ")"@
    } else {
        Seq::empty()
    }
}

/// The quoted arguments of a function token, separated by commas.
pub open spec fn func_args_text<'a>(args: Seq<RuleFuncArg<'a>>) -> Seq<char> {
    join(
        args.map_values(
            |a: RuleFuncArg<'a>|
                match a {
                    RuleFuncArg::Quoted(q) => "\""@ + q@ + "\""@,
                },
        ),
        ", "@,
    )
}

/// The member names given directly to the parts of a group.
pub open spec fn group_member_names<'a>(ps: Seq<AstRulePart<'a>>) -> Seq<&'a str>
    decreases ps.len(),
{
    if ps.len() == 0 {
        Seq::empty()
    } else {
        group_member_names(ps.drop_last()) + match ps.last().member_key {
            Some(m) => seq![m],
            None => Seq::empty(),
        }
    }
}

/// The captures that close an optional group: each member name with `_k`.
pub open spec fn captures_text<'a>(names: Seq<&'a str>) -> Seq<char> {
    join(names.map_values(|n: &'a str| n@ + "_k"@), ", "@)
}

/// Where the member `i` of a group is found: the group itself, or its
/// field `i` when the group is a tuple.
pub open spec fn member_ref(gname: Seq<char>, tuple: bool, i: int) -> Seq<char> {
    if tuple {
        gname + "."@ + decimal(i as nat)
    } else {
        gname
    }
}

/// The member map after the first `n` members of a group are recorded.
pub open spec fn map_group_members<'a>(
    m: Map<Seq<char>, (Seq<char>, Seq<char>)>,
    names: Seq<&'a str>,
    gname: Seq<char>,
    tuple: bool,
    n: int,
) -> Map<Seq<char>, (Seq<char>, Seq<char>)>
    decreases n,
{
    if n <= 0 {
        m
    } else {
        map_group_members(m, names, gname, tuple, n - 1).insert(
            names[n - 1]@,
            (gname, member_ref(gname, tuple, n - 1)),
        )
    }
}

pub open spec fn opt_text(b: bool, t: Seq<char>) -> Seq<char> {
    if b {
        t
    } else {
        Seq::empty()
    }
}

/// The text of an optional group's parser around the parsers of its parts.
pub open spec fn opt_group_head<'a>(names: Seq<&'a str>, gname: Seq<char>) -> Seq<char> {
    "        "@ + opt_text(names.len() > 0, gname + ": "@) + "opt!(do_parse!(\n"@
}

pub open spec fn opt_group_tail<'a>(names: Seq<&'a str>) -> Seq<char> {
    let tuple = names.len() > 1;
    opt_text(
        names.len() > 0,
        "            "@ + "("@ + opt_text(tuple, "("@) + captures_text(names) + opt_text(tuple, ")"@)
            + ")"@,
    ) + ")) >>\n"@
}

/// The parser code of a part (one step of a `do_parse!`), and the state after it.
pub open spec fn part_parser<'a>(p: AstRulePart<'a>, data: &LangData<'a>, st: GenState) -> (
    Seq<char>,
    GenState,
)
    decreases p, 1int,
{
    match p.token {
        AstRuleToken::Group(parts) => {
            if p.not {
                let (t, st1) = parts_parser(parts@, data, st);
                (member_capture(p.member_key) + "until_done_result!(do_parse!("@ + t + "))"@, st1)
            } else if p.optional {
                let names = group_member_names(parts@);
                let gname = group_name(st.num);
                let st0 = if names.len() > 0 {
                    GenState {
                        num: st.num + 1,
                        stack: st.stack.push(gname),
                        members: st.members,
                        opt_group: true,
                    }
                } else {
                    st
                };
                let (t, st1) = parts_parser(parts@, data, st0);
                let st2 = if names.len() > 0 {
                    GenState {
                        num: st1.num,
                        stack: st1.stack,
                        members: map_group_members(
                            st1.members,
                            names,
                            gname,
                            names.len() > 1,
                            names.len() as int,
                        ),
                        opt_group: st1.opt_group,
                    }
                } else {
                    st1
                };
                (opt_group_head(names, gname) + t + opt_group_tail(names), st2)
            } else {
                parts_parser(parts@, data, st)
            }
        },
        _ => {
            let (t, st1) = token_parser(p, data, st);
            (
                "        "@ + opt_text(!p.optional && !p.not, "sp >> "@) + member_capture(p.member_key)
                    + opt_text(p.not, "until_done_result!("@) + (if p.optional {
                    "opt!(do_parse!(sp >> res: "@ + t + " >> (res)))"@
                } else {
                    t
                }) + opt_text(p.not, ")"@) + " >>\n"@,
                st1,
            )
        },
    }
}

/// The parser of a part's token.
pub open spec fn token_parser<'a>(p: AstRulePart<'a>, data: &LangData<'a>, st: GenState) -> (
    Seq<char>,
    GenState,
)
    decreases p, 0int,
{
    match p.token {
        AstRuleToken::Key(key) => (part_parser_text(data, data.typed_parts@[key@]), st),
        AstRuleToken::Tag(string) => (
            debug_open(data.debug) + "tag!(\""@ + string@ + "\")"@ + debug_close(data.debug),
            st,
        ),
        AstRuleToken::Func(ident, args) => (
            debug_open(data.debug) + ident@ + "!("@ + func_args_text(args@) + ")"@ + debug_close(
                data.debug,
            ),
            st,
        ),
        AstRuleToken::Group(parts) => parts_parser(parts@, data, st),
    }
}

/// The parser code of parts in sequence, threading the state through.
pub open spec fn parts_parser<'a>(ps: Seq<AstRulePart<'a>>, data: &LangData<'a>, st: GenState) -> (
    Seq<char>,
    GenState,
)
    decreases ps, 2int,
{
    if ps.len() == 0 {
        (Seq::empty(), st)
    } else {
        let (t1, s1) = parts_parser(ps.drop_last(), data, st);
        let (t2, s2) = part_parser(ps.last(), data, s1);
        (t1 + t2, s2)
    }
}

/// The names assigning a part's members looks up are known.
pub open spec fn assign_ok<'a>(p: AstRulePart<'a>, sd: Option<AstStruct<'a>>, data: &LangData<'a>) -> bool
    decreases p,
{
    match p.token {
        AstRuleToken::Group(parts) => parts_assign_ok(parts@, sd, data),
        _ => match p.member_key {
            None => true,
            Some(mk) => {
                &&& data.has_sc(mk@)
                &&& (sd matches Some(d) ==> d.members@.contains_key(mk@))
                &&& (!p.not ==> match p.token {
                    AstRuleToken::Key(key) => data.typed_parts@.contains_key(key@),
                    _ => true,
                })
            },
        },
    }
}

pub open spec fn parts_assign_ok<'a>(
    ps: Seq<AstRulePart<'a>>,
    sd: Option<AstStruct<'a>>,
    data: &LangData<'a>,
) -> bool
    decreases ps,
{
    ps.len() == 0 || (parts_assign_ok(ps.drop_last(), sd, data) && assign_ok(ps.last(), sd, data))
}

pub proof fn lemma_parts_assign_ok<'a>(
    ps: Seq<AstRulePart<'a>>,
    sd: Option<AstStruct<'a>>,
    data: &LangData<'a>,
    i: int,
)
    requires
        parts_assign_ok(ps, sd, data),
        0 <= i < ps.len(),
    ensures
        assign_ok(ps[i], sd, data),
    decreases ps.len(),
{
    if i < ps.len() - 1 {
        lemma_parts_assign_ok(ps.drop_last(), sd, data, i);
    }
}

/// The value stored for a named part that is not a group, given where it
/// was captured.
pub open spec fn assign_value<'a>(p: AstRulePart<'a>, data: &LangData<'a>, mk: &'a str, mref: Seq<char>) -> Seq<char> {
    if p.not {
        "std::str::from_utf8("@ + mref + ").unwrap()"@
    } else {
        match p.token {
            AstRuleToken::Key(key) => part_value_text(data.typed_parts@[key@], snake(mk@), p.optional),
            AstRuleToken::Tag(..) => if p.optional {
                mref + ".is_some()"@
            } else {
                "true"@
            },
            AstRuleToken::Func(..) => mref,
            AstRuleToken::Group(..) => Seq::empty(),
        }
    }
}

/// The field assignments a part contributes to the struct a rule builds.
pub open spec fn part_assign<'a>(p: AstRulePart<'a>, sd: Option<AstStruct<'a>>, data: &LangData<'a>, st: GenState) -> Seq<char>
    decreases p,
{
    match p.token {
        AstRuleToken::Group(parts) => parts_assign(parts@, sd, data, st),
        _ => match p.member_key {
            None => Seq::empty(),
            Some(mk) => {
                let is_boxed = match sd {
                    Some(d) => d.members@[mk@].boxed,
                    None => false,
                };
                let mapped = st.members.contains_key(mk@);
                let mref = if mapped {
                    st.members[mk@].1
                } else {
                    mk@ + "_k"@
                };
                let opt_group = mapped && st.opt_group;
                let gk = st.members[mk@].0;
                "            "@ + snake(mk@) + ": "@ + opt_text(is_boxed, "Box::new("@) + opt_text(
                    opt_group,
                    gk + ".map(|"@ + gk + "| { "@,
                ) + assign_value(p, data, mk, mref) + opt_text(opt_group, " })"@) + opt_text(
                    is_boxed,
                    ")"@,
                ) + ",\n"@
            },
        },
    }
}

pub open spec fn parts_assign<'a>(
    ps: Seq<AstRulePart<'a>>,
    sd: Option<AstStruct<'a>>,
    data: &LangData<'a>,
    st: GenState,
) -> Seq<char>
    decreases ps,
{
    if ps.len() == 0 {
        Seq::empty()
    } else {
        parts_assign(ps.drop_last(), sd, data, st) + part_assign(ps.last(), sd, data, st)
    }
}

pub open spec fn opt_struct<'a>(sd: Option<&AstStruct<'a>>) -> Option<AstStruct<'a>> {
    match sd {
        Some(d) => Some(*d),
        None => None,
    }
}

/// Generates the parsers of `parts` in order.
fn gen_parts_parser<'a>(
    parts: &Vec<AstRulePart<'a>>,
    s: String,
    data: &LangData<'a>,
    gen_data: &mut GenParserData<'a>,
) -> (r: String)
    requires
        data.wf(),
        parts_parser_ok(parts@, data),
        old(gen_data).member_map.wf(),
        old(gen_data).group_num + parts_size(parts@) < u32::MAX,
    ensures
        final(gen_data).member_map.wf(),
        final(gen_data).group_num <= old(gen_data).group_num + parts_size(parts@),
        r@ == s@ + parts_parser(parts@, data, gen_state(*old(gen_data))).0,
        gen_state(*final(gen_data)) =~~= parts_parser(parts@, data, gen_state(*old(gen_data))).1,
    decreases parts_size(parts@), 3int,
{
    let ghost s0 = s@;
    let ghost st0 = gen_state(*gen_data);
    let ghost num0 = gen_data.group_num;
    let mut s = s;
    let n = parts.len();
    let mut i: usize = 0;
    while i < n
        invariant
            n == parts@.len(),
            i <= n,
            data.wf(),
            parts_parser_ok(parts@, data),
            gen_data.member_map.wf(),
            num0 + parts_size(parts@) < u32::MAX,
            gen_data.group_num <= num0 + parts_size(parts@.take(i as int)),
            s@ == s0 + parts_parser(parts@.take(i as int), data, st0).0,
            gen_state(*gen_data) =~~= parts_parser(parts@.take(i as int), data, st0).1,
        decreases n - i,
    {
        proof {
            lemma_parts_parser_ok(parts@, data, i as int);
            lemma_parts_size_prefix(parts@, i as int);
            lemma_parts_size_prefix(parts@, i + 1);
            assert(parts@.take(i + 1).drop_last() =~= parts@.take(i as int));
            assert(parts@.take(i + 1).last() == parts@[i as int]);
        }
        s = parts[i].gen_part_parser(s, data, gen_data);
        i += 1;
    }
    assert(parts@.take(n as int) =~= parts@);
    s
}

impl<'a> AstRulePart<'a> {
    /// Appends this part's step of a `do_parse!` parser.
    #[verifier::spinoff_prover]
    pub fn gen_part_parser(&self, s: String, data: &LangData<'a>, gen_data: &mut GenParserData<'a>) -> (r: String)
        requires
            data.wf(),
            parser_ok(*self, data),
            old(gen_data).member_map.wf(),
            old(gen_data).group_num + part_size(*self) < u32::MAX,
        ensures
            final(gen_data).member_map.wf(),
            final(gen_data).group_num <= old(gen_data).group_num + part_size(*self),
            r@ == s@ + part_parser(*self, data, gen_state(*old(gen_data))).0,
            gen_state(*final(gen_data)) =~~= part_parser(*self, data, gen_state(*old(gen_data))).1,
        decreases part_size(*self), 2int,
    {
        if let AstRuleToken::Group(parts) = &self.token {
            if self.not {
                self.gen_not_group_parser(parts, s, data, gen_data)
            } else if self.optional {
                self.gen_opt_group_parser(parts, s, data, gen_data)
            } else {
                // Just forward to parts for now
                gen_parts_parser(parts, s, data, gen_data)
            }
        } else {
            self.gen_single_parser(s, data, gen_data)
        }
    }

    /// A negated group: the text up to where its parts match.
    #[verifier::spinoff_prover]
    fn gen_not_group_parser(
        &self,
        parts: &Vec<AstRulePart<'a>>,
        s: String,
        data: &LangData<'a>,
        gen_data: &mut GenParserData<'a>,
    ) -> (r: String)
        requires
            self.token == AstRuleToken::Group(*parts),
            self.not,
            data.wf(),
            parser_ok(*self, data),
            old(gen_data).member_map.wf(),
            old(gen_data).group_num + part_size(*self) < u32::MAX,
        ensures
            final(gen_data).member_map.wf(),
            final(gen_data).group_num <= old(gen_data).group_num + part_size(*self),
            r@ == s@ + part_parser(*self, data, gen_state(*old(gen_data))).0,
            gen_state(*final(gen_data)) =~~= part_parser(*self, data, gen_state(*old(gen_data))).1,
        decreases part_size(*self), 1int,
    {
        let ghost s0 = s@;
        let ghost st0 = gen_state(*gen_data);
        let mut s = s;
        if let Some(member_name) = self.member_key {
            s = cat(s, data.sc(member_name));
            s = cat(s, "_k: ");
        }
        s = cat(s, "until_done_result!(do_parse!(");
        s = gen_parts_parser(parts, s, data, gen_data);
        s = cat(s, "))");
        assert(s@ =~= s0 + part_parser(*self, data, st0).0);
        s
    }

    /// A part other than a group: its token's parser, marked optional or
    /// negated as the part is.
    #[verifier::spinoff_prover]
    #[verifier::rlimit(60)]
    fn gen_single_parser(&self, s: String, data: &LangData<'a>, gen_data: &mut GenParserData<'a>) -> (r: String)
        requires
            !(self.token is Group),
            data.wf(),
            parser_ok(*self, data),
            old(gen_data).member_map.wf(),
            old(gen_data).group_num + part_size(*self) < u32::MAX,
        ensures
            final(gen_data).member_map.wf(),
            final(gen_data).group_num <= old(gen_data).group_num + part_size(*self),
            r@ == s@ + part_parser(*self, data, gen_state(*old(gen_data))).0,
            gen_state(*final(gen_data)) =~~= part_parser(*self, data, gen_state(*old(gen_data))).1,
        decreases part_size(*self), 1int,
    {
        let ghost s0 = s@;
        let ghost st0 = gen_state(*gen_data);
        let ghost t = token_parser(*self, data, st0).0;
        let mut s = cat(s, "        ");
        if !self.optional && !self.not {
            s = cat(s, "sp >> ");
        }
        if let Some(member_name) = self.member_key {
            s = cat(s, data.sc(member_name));
            s = cat(s, "_k: ");
        }
        if self.not {
            s = cat(s, "until_done_result!(");
        }
        let ghost s1 = s@;
        assert(s1 =~= s0 + "        "@ + opt_text(!self.optional && !self.not, "sp >> "@) + member_capture(
            self.member_key,
        ) + opt_text(self.not, "until_done_result!("@));
        if self.optional {
            s = cat(s, "opt!(do_parse!(sp >> res: ");
            s = self.gen_parser(s, data, gen_data);
            s = cat(s, " >> (res)))");
            assert(s@ =~= s1 + ("opt!(do_parse!(sp >> res: "@ + t + " >> (res)))"@));
        } else {
            s = self.gen_parser(s, data, gen_data);
        }
        let ghost s2 = s@;
        if self.not {
            s = cat(s, ")");
        }
        s = cat(s, " >>\n");
        assert(s@ =~= s2 + opt_text(self.not, ")"@) + " >>\n"@);
        assert(part_parser(*self, data, st0).0 == "        "@ + opt_text(!self.optional && !self.not, "sp >> "@)
            + member_capture(self.member_key) + opt_text(self.not, "until_done_result!("@) + (if self.optional {
            "opt!(do_parse!(sp >> res: "@ + t + " >> (res)))"@
        } else {
            t
        }) + opt_text(self.not, ")"@) + " >>\n"@);
        assert(s@ =~= s0 + part_parser(*self, data, st0).0);
        s
    }

    /// An optional group: its parts inside `opt!`, with the members named
    /// in it captured as a group whose fields the struct assignment reads.
    #[verifier::spinoff_prover]
    #[verifier::rlimit(40)]
    fn gen_opt_group_parser(
        &self,
        parts: &Vec<AstRulePart<'a>>,
        s: String,
        data: &LangData<'a>,
        gen_data: &mut GenParserData<'a>,
    ) -> (r: String)
        requires
            self.token == AstRuleToken::Group(*parts),
            !self.not,
            self.optional,
            data.wf(),
            parser_ok(*self, data),
            old(gen_data).member_map.wf(),
            old(gen_data).group_num + part_size(*self) < u32::MAX,
        ensures
            final(gen_data).member_map.wf(),
            final(gen_data).group_num <= old(gen_data).group_num + part_size(*self),
            r@ == s@ + part_parser(*self, data, gen_state(*old(gen_data))).0,
            gen_state(*final(gen_data)) =~~= part_parser(*self, data, gen_state(*old(gen_data))).1,
        decreases part_size(*self), 1int,
    {
        let ghost s0 = s@;
        let ghost st0 = gen_state(*gen_data);
        // Collect member names
        let mut member_names: Vec<&'a str> = Vec::new();
        let np = parts.len();
        let mut j: usize = 0;
        while j < np
            invariant
                np == parts@.len(),
                j <= np,
                member_names@ == group_member_names(parts@.take(j as int)),
            decreases np - j,
        {
            assert(parts@.take(j + 1).drop_last() =~= parts@.take(j as int));
            if let Some(member_name) = parts[j].member_key {
                member_names.push(member_name);
            }
            j += 1;
        }
        assert(parts@.take(np as int) =~= parts@);
        let ghost names = member_names@;
        let num_members = member_names.len();
        let ghost gname = group_name(gen_data.group_num as nat);
        let mut s = cat(s, "        ");
        let group = if num_members > 0 {
            let group = gen_data.push_group();
            gen_data.opt_group = true;
            s = cat(s, group.as_str());
            s = cat(s, ": ");
            group
        } else {
            owned("")
        };
        s = cat(s, "opt!(do_parse!(\n");
        let ghost mid = gen_state(*gen_data);
        proof {
            assert(opt_group_head(names, gname) == "        "@ + opt_text(names.len() > 0, gname + ": "@) + "opt!(do_parse!(\n"@);
            if num_members > 0 {
                assert(mid.stack =~= st0.stack.push(gname));
                assert(mid.members =~= st0.members);
            } else {
                assert(mid =~~= st0);
            }
            assert(s@ =~= s0 + opt_group_head(names, gname));
            assert(part_size(*self) == 1 + parts_size(parts@));
        }
        s = gen_parts_parser(parts, s, data, gen_data);
        let ghost after_parts = gen_state(*gen_data);
        let ghost s2 = s@;
        if num_members > 0 {
            s = cat(s, "            ");
            s = cat(s, "(");
            let is_tuple = num_members > 1;
            if is_tuple {
                // Make tuple
                s = cat(s, "(");
            }
            let ghost s3 = s@;
            let ghost m0 = after_parts.members;
            let mut i: usize = 0;
            while i < num_members
                invariant
                    num_members == member_names@.len(),
                    names == member_names@,
                    group@ == gname,
                    is_tuple == (num_members > 1),
                    i <= num_members,
                    gen_data.member_map.wf(),
                    gen_data.group_num == after_parts.num,
                    gen_state(*gen_data).stack == after_parts.stack,
                    gen_data.opt_group == after_parts.opt_group,
                    s@ == s3 + join_upto(
                        names.map_values(|n: &'a str| n@ + "_k"@),
                        ", "@,
                        i as int,
                    ),
                    gen_state(*gen_data).members =~= map_group_members(
                        m0,
                        names,
                        gname,
                        is_tuple,
                        i as int,
                    ),
                decreases num_members - i,
            {
                proof {
                    lemma_join_step(names.map_values(|n: &'a str| n@ + "_k"@), ", "@, i as int);
                }
                s = cat(s, member_names[i]);
                s = cat(s, "_k");
                if i < num_members - 1 {
                    s = cat(s, ", ");
                }
                let mut member_ref = group.clone();
                if is_tuple {
                    member_ref = cat(member_ref, ".");
                    member_ref = cat(member_ref, usize_to_string(i).as_str());
                }
                let ghost before = gen_data.member_map@;
                gen_data.member_map.insert(member_names[i], (group.clone(), member_ref));
                proof {
                    assert(gen_state(*gen_data).members =~= gen_state(*gen_data).members);
                }
                i += 1;
            }
            if is_tuple {
                s = cat(s, ")");
            }
            s = cat(s, ")");
        }
        s = cat(s, ")) >>\n");
        assert(s@ =~= s0 + part_parser(*self, data, st0).0);
        s
    }

    /// Appends the parser of this part's token.
    pub fn gen_parser(&self, s: String, data: &LangData<'a>, gen_data: &mut GenParserData<'a>) -> (r: String)
        requires
            data.wf(),
            parser_ok(*self, data),
            old(gen_data).member_map.wf(),
            old(gen_data).group_num + part_size(*self) < u32::MAX,
        ensures
            final(gen_data).member_map.wf(),
            final(gen_data).group_num <= old(gen_data).group_num + part_size(*self),
            r@ == s@ + token_parser(*self, data, gen_state(*old(gen_data))).0,
            gen_state(*final(gen_data)) =~~= token_parser(*self, data, gen_state(*old(gen_data))).1,
        decreases part_size(*self), 0int,
    {
        let ghost s0 = s@;
        let mut s = s;
        match &self.token {
            AstRuleToken::Key(key) => {
                match data.typed_parts.get(key) {
                    Some(tp) => tp.gen_parser(s, data),
                    None => {
                        assert(false);
                        s
                    },
                }
            },
            AstRuleToken::Tag(string) => {
                if data.debug {
                    s = cat(s, "debug_wrap!(");
                }
                s = cat(s, "tag!(\"");
                s = cat(s, string);
                s = cat(s, "\")");
                if data.debug {
                    s = cat(s, ")");
                }
                assert(s@ =~= s0 + token_parser(*self, data, gen_state(*gen_data)).0);
                s
            },
            AstRuleToken::Func(ident, args) => {
                if data.debug {
                    s = cat(s, "debug_wrap!(");
                }
                s = cat(s, ident);
                s = cat(s, "!(");
                let ghost s1 = s@;
                let ghost texts = args@.map_values(
                    |a: RuleFuncArg<'a>|
                        match a {
                            RuleFuncArg::Quoted(q) => "\""@ + q@ + "\""@,
                        },
                );
                let num_args = args.len();
                let mut i: usize = 0;
                while i < num_args
                    invariant
                        num_args == args@.len(),
                        texts == args@.map_values(
                            |a: RuleFuncArg<'a>|
                                match a {
                                    RuleFuncArg::Quoted(q) => "\""@ + q@ + "\""@,
                                },
                        ),
                        i <= num_args,
                        s@ == s1 + join_upto(texts, ", "@, i as int),
                    decreases num_args - i,
                {
                    proof {
                        lemma_join_step(texts, ", "@, i as int);
                    }
                    match &args[i] {
                        RuleFuncArg::Quoted(string) => {
                            s = cat(s, "\"");
                            s = cat(s, string);
                            s = cat(s, "\"");
                        },
                    }
                    if i < num_args - 1 {
                        s = cat(s, ", ");
                    }
                    i += 1;
                }
                s = cat(s, ")");
                if data.debug {
                    s = cat(s, ")");
                }
                assert(s@ =~= s0 + token_parser(*self, data, gen_state(*gen_data)).0);
                s
            },
            AstRuleToken::Group(parts) => {
                // Just forward to parts for now
                gen_parts_parser(parts, s, data, gen_data)
            },
        }
    }

    /// Appends the field assignments of this part to the struct a rule builds.
    pub fn gen_parser_struct_assign(
        &self,
        s: String,
        struct_data: Option<&AstStruct<'a>>,
        data: &LangData<'a>,
        gen_data: &GenParserData<'a>,
    ) -> (r: String)
        requires
            data.wf(),
            gen_data.member_map.wf(),
            struct_data matches Some(d) ==> d.members.wf(),
            assign_ok(*self, opt_struct(struct_data), data),
        ensures
            r@ == s@ + part_assign(*self, opt_struct(struct_data), data, gen_state(*gen_data)),
        decreases part_size(*self),
    {
        let ghost s0 = s@;
        let ghost sd = opt_struct(struct_data);
        let ghost st = gen_state(*gen_data);
        let mut s = s;
        if let AstRuleToken::Group(parts) = &self.token {
            // Just forward to parts for now
            let n = parts.len();
            let mut i: usize = 0;
            while i < n
                invariant
                    n == parts@.len(),
                    i <= n,
                    self.token == AstRuleToken::Group(*parts),
                    data.wf(),
                    gen_data.member_map.wf(),
                    struct_data matches Some(d) ==> d.members.wf(),
                    sd == opt_struct(struct_data),
                    st == gen_state(*gen_data),
                    parts_assign_ok(parts@, sd, data),
                    s@ == s0 + parts_assign(parts@.take(i as int), sd, data, st),
                decreases n - i,
            {
                proof {
                    lemma_group_part_smaller(*self, *parts, i as int);
                    lemma_parts_assign_ok(parts@, sd, data, i as int);
                    assert(parts@.take(i + 1).drop_last() =~= parts@.take(i as int));
                }
                s = parts[i].gen_parser_struct_assign(s, struct_data, data, gen_data);
                i += 1;
            }
            assert(parts@.take(n as int) =~= parts@);
        } else if let Some(member_key) = self.member_key {
            s = self.gen_member_assign(s, member_key, struct_data, data, gen_data);
        }
        s
    }

    #[verifier::spinoff_prover]
    #[verifier::rlimit(60)]
    fn gen_member_assign(
        &self,
        s: String,
        member_key: &'a str,
        struct_data: Option<&AstStruct<'a>>,
        data: &LangData<'a>,
        gen_data: &GenParserData<'a>,
    ) -> (r: String)
        requires
            !(self.token is Group),
            self.member_key == Some(member_key),
            data.wf(),
            gen_data.member_map.wf(),
            struct_data matches Some(d) ==> d.members.wf(),
            assign_ok(*self, opt_struct(struct_data), data),
        ensures
            r@ == s@ + part_assign(*self, opt_struct(struct_data), data, gen_state(*gen_data)),
    {
        let ghost s0 = s@;
        let ghost st = gen_state(*gen_data);
        let is_boxed = match struct_data {
            Some(struct_data) => match struct_data.members.get(member_key) {
                Some(m) => m.boxed,
                None => {
                    assert(false);
                    false
                },
            },
            None => false,
        };
        let mut s = cat(s, "            ");
        s = cat(s, data.sc(member_key));
        s = cat(s, ": ");
        // Check if there is a member ref from grouped
        let (member_ref, group_key, opt_group) = match gen_data.member_map.get(member_key) {
            Some(member_mapped) => (member_mapped.1.clone(), Some(member_mapped.0.clone()), gen_data.opt_group),
            None => (cat(owned(member_key), "_k"), None, false),
        };
        let ghost mapped = st.members.contains_key(member_key@);
        assert(mapped == group_key.is_some());
        assert(member_ref@ == (if mapped { st.members[member_key@].1 } else { member_key@ + "_k"@ }));
        assert(group_key matches Some(g) ==> g@ == st.members[member_key@].0);
        let ghost s_head = s@;
        if is_boxed {
            s = cat(s, "Box::new(");
        }
        if let Some(group_key) = &group_key {
            if opt_group {
                s = cat(s, group_key.as_str());
                s = cat(s, ".map(|");
                s = cat(s, group_key.as_str());
                s = cat(s, "| { ");
            }
        }
        let ghost s1 = s@;
        s = self.gen_assign_value(s, member_key, member_ref.as_str(), data);
        assert(s@ =~= s1 + assign_value(*self, data, member_key, member_ref@));
        let ghost gk = st.members[member_key@].0;
        let ghost og = mapped && st.opt_group;
        assert(opt_group == og);
        assert(s1 =~= s_head + opt_text(is_boxed, "Box::new("@) + opt_text(og, gk + ".map(|"@ + gk + "| { "@));
        let ghost s2 = s@;
        if opt_group {
            s = cat(s, " })");
        }
        if is_boxed {
            s = cat(s, ")");
        }
        s = cat(s, ",\n");
        assert(s@ =~= s2 + opt_text(og, " })"@) + opt_text(is_boxed, ")"@) + ",\n"@);
        assert(s@ =~= s0 + part_assign(*self, opt_struct(struct_data), data, st));
        s
    }

    #[verifier::spinoff_prover]
    fn gen_assign_value(&self, s: String, member_key: &'a str, member_ref: &str, data: &LangData<'a>) -> (r: String)
        requires
            !(self.token is Group),
            self.member_key == Some(member_key),
            data.wf(),
            data.has_sc(member_key@),
            !self.not ==> match self.token {
                AstRuleToken::Key(key) => data.typed_parts@.contains_key(key@),
                _ => true,
            },
        ensures
            r@ == s@ + assign_value(*self, data, member_key, member_ref@),
    {
        let ghost s0 = s@;
        let mut s = s;
        if self.not {
            // Not is collected as str
            s = cat(s, "std::str::from_utf8(");
            s = cat(s, member_ref);
            s = cat(s, ").unwrap()");
        } else {
            match &self.token {
                AstRuleToken::Key(key) => {
                    match data.typed_parts.get(key) {
                        Some(tp) => {
                            s = tp.gen_parser_val(s, self, data);
                        },
                        None => {
                            assert(false);
                        },
                    }
                },
                AstRuleToken::Tag(..) => {
                    if self.optional {
                        s = cat(s, member_ref);
                        s = cat(s, ".is_some()");
                    } else {
                        s = cat(s, "true");
                    }
                },
                AstRuleToken::Func(..) => {
                    s = cat(s, member_ref);
                },
                AstRuleToken::Group(..) => {},
            }
        }
        assert(s@ =~= s0 + assign_value(*self, data, member_key, member_ref@));
        s
    }
}

/// The state a rule's parser generation starts from.
pub open spec fn init_gen_state() -> GenState {
    GenState {
        num: 1,
        stack: Seq::empty(),
        members: Map::empty(),
        opt_group: false,
    }
}

/// The struct a resolved type names, where there is one.
pub open spec fn rule_struct<'a>(data: &LangData<'a>, resolved: Resolved) -> Option<AstStruct<'a>> {
    match resolved {
        Resolved::Struct(key) => if data.ast_structs@.contains_key(key) {
            Some(data.ast_structs@[key])
        } else {
            None
        },
        Resolved::Enum(..) => None,
    }
}

/// Whether the enum a resolved type names boxes the item `item`.
pub open spec fn rule_boxes<'a>(data: &LangData<'a>, resolved: Resolved, item: &'a str) -> bool {
    match resolved {
        Resolved::Enum(key) => data.ast_enums@.contains_key(key) && data.ast_enums@[key].boxed_items@.contains_key(
            item@,
        ),
        Resolved::Struct(..) => false,
    }
}

pub open spec fn rule_is_many<'a>(rt: RuleType<'a>) -> bool {
    rt is ManyType
}

/// The names generating a rule's parser looks up are known.
pub open spec fn rule_ok<'a>(rule: AstRule<'a>, data: &LangData<'a>, rt: RuleType<'a>, resolved: Resolved) -> bool {
    match rule {
        AstRule::RefRule(rule_ref) => data.has_sc(rule_ref@),
        AstRule::PartsRule(pr) => {
            &&& parts_parser_ok(pr.parts@, data)
            &&& 1 + parts_size(pr.parts@) < u32::MAX
            &&& rule_is_many(rt) ==> resolved_simple(data, resolved, simple_fuel(data)) is Some
            &&& !(rule_is_many(rt) && resolved_simple(data, resolved, simple_fuel(data)).unwrap())
                ==> parts_assign_ok(pr.parts@, rule_struct(data, resolved), data)
        },
    }
}

/// The reference to another entry's parser, wrapped in an enum item for a
/// rule with many alternatives.
pub open spec fn ref_rule_parser<'a>(rule_ref: &'a str, tname: Seq<char>, is_many: bool, boxed: bool) -> Seq<char> {
    if is_many {
        "map!("@ + snake(rule_ref@) + ", |node| { "@ + tname + "::"@ + rule_ref@ + "Item("@ + (if boxed {
            "Box::new(node)"@
        } else {
            "node"@
        }) + ") })"@
    } else {
        snake(rule_ref@)
    }
}

/// The start of the node a parts rule builds.
pub open spec fn rule_open(tname: Seq<char>, ast_type: Seq<char>, is_many: bool, is_simple: bool, boxed: bool) -> Seq<char> {
    if is_many {
        if is_simple {
            tname + "::"@ + ast_type
        } else {
            tname + "::"@ + ast_type + "Item("@ + (if boxed {
                "Box::new("@ + ast_type
            } else {
                ast_type
            }) + " {\n"@
        }
    } else {
        ast_type + " {\n"@
    }
}

/// The end of the node a parts rule builds, after its field assignments.
pub open spec fn rule_close(is_many: bool, boxed: bool) -> Seq<char> {
    if is_many {
        "        })))"@ + opt_text(boxed, ")"@)
    } else {
        "        }))"@
    }
}

/// Whether the node a rule builds is an item of a simple enum.
pub open spec fn rule_is_simple<'a>(data: &LangData<'a>, rt: RuleType<'a>, resolved: Resolved) -> bool {
    rule_is_many(rt) && resolved_simple(data, resolved, simple_fuel(data)).unwrap()
}

/// The parser of an AST entry from its rule.
pub open spec fn rule_parser<'a>(rule: AstRule<'a>, data: &LangData<'a>, rt: RuleType<'a>, resolved: Resolved) -> Seq<char> {
    let is_many = rule_is_many(rt);
    let tname = rt.type_key()@;
    match rule {
        AstRule::RefRule(rule_ref) => ref_rule_parser(rule_ref, tname, is_many, rule_boxes(data, resolved, rule_ref)),
        AstRule::PartsRule(pr) => {
            let (parsers, st) = parts_parser(pr.parts@, data, init_gen_state());
            let is_simple = rule_is_simple(data, rt, resolved);
            let boxed = rule_boxes(data, resolved, pr.ast_type);
            "do_parse!(\n"@ + parsers + "        ("@ + rule_open(tname, pr.ast_type@, is_many, is_simple, boxed)
                + if is_simple {
                "        ))"@
            } else {
                parts_assign(pr.parts@, rule_struct(data, resolved), data, st) + rule_close(is_many, boxed)
            }
        },
    }
}

fn enum_boxes<'a>(enum_data: Option<&AstEnum<'a>>, item: &str) -> (r: bool)
    requires
        enum_data matches Some(e) ==> e.boxed_items.wf(),
    ensures
        r == match enum_data {
            Some(e) => e.boxed_items@.contains_key(item@),
            None => false,
        },
{
    match enum_data {
        Some(e) => e.boxed_items.contains_key(item),
        None => false,
    }
}

fn emit_ref_rule(s: String, rule_ref: &str, sc: &str, tname: &str, is_many: bool, boxed: bool) -> (r: String)
    requires
        sc@ == snake(rule_ref@),
    ensures
        r@ == s@ + ref_rule_parser(rule_ref, tname@, is_many, boxed),
{
    let ghost s0 = s@;
    let mut s = s;
    if is_many {
        let node_expr = if boxed {
            "Box::new(node)"
        } else {
            "node"
        };
        s = cat(s, "map!(");
        s = cat(s, sc);
        s = cat(s, ", |node| { ");
        s = cat(s, tname);
        s = cat(s, "::");
        s = cat(s, rule_ref);
        s = cat(s, "Item(");
        s = cat(s, node_expr);
        s = cat(s, ") })");
    } else {
        s = cat(s, sc);
    }
    assert(s@ =~= s0 + ref_rule_parser(rule_ref, tname@, is_many, boxed));
    s
}

fn emit_rule_open(s: String, tname: &str, ast_type: &str, is_many: bool, is_simple: bool, boxed: bool) -> (r: String)
    ensures
        r@ == s@ + rule_open(tname@, ast_type@, is_many, is_simple, boxed),
{
    let ghost s0 = s@;
    let mut s = s;
    if is_many {
        if is_simple {
            s = cat(s, tname);
            s = cat(s, "::");
            s = cat(s, ast_type);
        } else {
            s = cat(s, tname);
            s = cat(s, "::");
            s = cat(s, ast_type);
            s = cat(s, "Item(");
            if boxed {
                s = cat(s, "Box::new(");
                s = cat(s, ast_type);
            } else {
                s = cat(s, ast_type);
            }
            s = cat(s, " {\n");
        }
    } else {
        s = cat(s, ast_type);
        s = cat(s, " {\n");
    }
    assert(s@ =~= s0 + rule_open(tname@, ast_type@, is_many, is_simple, boxed));
    s
}

fn gen_parts_assign<'a>(
    parts: &Vec<AstRulePart<'a>>,
    s: String,
    struct_data: Option<&AstStruct<'a>>,
    data: &LangData<'a>,
    gen_data: &GenParserData<'a>,
) -> (r: String)
    requires
        data.wf(),
        gen_data.member_map.wf(),
        struct_data matches Some(d) ==> d.members.wf(),
        parts_assign_ok(parts@, opt_struct(struct_data), data),
    ensures
        r@ == s@ + parts_assign(parts@, opt_struct(struct_data), data, gen_state(*gen_data)),
{
    let ghost s0 = s@;
    let ghost st = gen_state(*gen_data);
    let mut s = s;
    let n = parts.len();
    let mut i: usize = 0;
    while i < n
        invariant
            n == parts@.len(),
            i <= n,
            data.wf(),
            gen_data.member_map.wf(),
            struct_data matches Some(d) ==> d.members.wf(),
            st == gen_state(*gen_data),
            parts_assign_ok(parts@, opt_struct(struct_data), data),
            s@ == s0 + parts_assign(parts@.take(i as int), opt_struct(struct_data), data, st),
        decreases n - i,
    {
        proof {
            lemma_parts_assign_ok(parts@, opt_struct(struct_data), data, i as int);
            assert(parts@.take(i + 1).drop_last() =~= parts@.take(i as int));
        }
        s = parts[i].gen_parser_struct_assign(s, struct_data, data, gen_data);
        i += 1;
    }
    assert(parts@.take(n as int) =~= parts@);
    s
}

impl<'a> AstRule<'a> {
    /// The parser of an AST entry from its rule: a reference to another
    /// entry's parser, or a `do_parse!` over the parts that builds the node.
    #[verifier::spinoff_prover]
    #[verifier::rlimit(60)]
    pub fn gen_rule(
        &self,
        s: String,
        data: &LangData<'a>,
        rule_type: &RuleType<'a>,
        resolved: &ResolvedType<'a>,
    ) -> (r: String)
        requires
            data.wf(),
            rule_ok(*self, data, *rule_type, resolved.spec_resolved()),
        ensures
            r@ == s@ + rule_parser(*self, data, *rule_type, resolved.spec_resolved()),
    {
        let ghost s0 = s@;
        let (is_many, tname) = match rule_type {
            RuleType::SingleType(tn) => (false, *tn),
            RuleType::ManyType(tn) => (true, *tn),
        };
        let (struct_data, enum_data) = match resolved {
            ResolvedType::ResolvedEnum(key) => (None, data.ast_enums.get(key)),
            ResolvedType::ResolvedStruct(key) => (data.ast_structs.get(key), None),
        };
        assert(opt_struct(struct_data) == rule_struct(data, resolved.spec_resolved()));
        let mut gen_data = GenParserData::new();
        assert(gen_state(gen_data) =~~= init_gen_state());
        let mut s = s;
        match self {
            AstRule::RefRule(rule_ref) => {
                // When is_many, an enum is assumed generated for the rule
                let boxed = enum_boxes(enum_data, rule_ref);
                s = emit_ref_rule(s, rule_ref, data.sc(rule_ref), tname, is_many, boxed);
            },
            AstRule::PartsRule(parts_rule) => {
                s = cat(s, "do_parse!(\n");
                s = gen_parts_parser(&parts_rule.parts, s, data, &mut gen_data);
                let ghost st = gen_state(gen_data);
                s = cat(s, "        (");
                // There could also be "simple enum" here which is enums without data
                let is_simple = is_many && resolved.is_simple(data);
                let is_boxed_item = enum_boxes(enum_data, parts_rule.ast_type);
                s = emit_rule_open(s, tname, parts_rule.ast_type, is_many, is_simple, is_boxed_item);
                let ghost s2 = s@;
                if is_simple {
                    s = cat(s, "        ))");
                } else {
                    s = gen_parts_assign(&parts_rule.parts, s, struct_data, data, &gen_data);
                    if is_many {
                        s = cat(s, "        })))");
                        if is_boxed_item {
                            s = cat(s, ")");
                        }
                    } else {
                        s = cat(s, "        }))");
                    }
                }
                assert(s@ =~= s2 + if is_simple {
                    "        ))"@
                } else {
                    parts_assign(parts_rule.parts@, rule_struct(data, resolved.spec_resolved()), data, st) + rule_close(is_many, is_boxed_item)
                });
            },
        }
        assert(s@ =~= s0 + rule_parser(*self, data, *rule_type, resolved.spec_resolved()));
        s
    }
}

} // verus!
