//! Printer code generated from the parts of a rule.
use vstd::prelude::*;
use crate::text::{cat, join, join_upto, lemma_join_step};
use crate::lang_data::data::{snake, LangData};
use crate::lang_data::typed_part::{part_source_ok, part_source_text};
use crate::lang_data::rule::{AstRulePart, AstRuleToken};
use crate::lang_data::rule_part::{lemma_group_part_smaller, part_size};
use crate::lang_data::rule_parser::{group_member_names, member_sc_ok};

verus! {

/// The names printing a part looks up are known.
pub open spec fn source_ok<'a>(p: AstRulePart<'a>, data: &LangData<'a>, parent_opt: bool) -> bool
    decreases p,
{
    if p.not {
        true
    } else {
        match p.token {
            AstRuleToken::Key(key) => data.typed_parts@.contains_key(key@) && part_source_ok(
                data,
                data.typed_parts@[key@],
                p.member_key,
            ),
            AstRuleToken::Tag(..) => (p.optional || parent_opt) ==> member_sc_ok(data, p.member_key),
            AstRuleToken::Func(..) => true,
            AstRuleToken::Group(parts) => if p.optional {
                group_member_names(parts@).len() > 0 ==> parts_source_ok(parts@, data, true)
            } else {
                parts_source_ok(parts@, data, parent_opt)
            },
        }
    }
}

pub open spec fn parts_source_ok<'a>(ps: Seq<AstRulePart<'a>>, data: &LangData<'a>, parent_opt: bool) -> bool
    decreases ps,
{
    ps.len() == 0 || (parts_source_ok(ps.drop_last(), data, parent_opt) && source_ok(
        ps.last(),
        data,
        parent_opt,
    ))
}

pub proof fn lemma_parts_source_ok<'a>(ps: Seq<AstRulePart<'a>>, data: &LangData<'a>, parent_opt: bool, i: int)
    requires
        parts_source_ok(ps, data, parent_opt),
        0 <= i < ps.len(),
    ensures
        source_ok(ps[i], data, parent_opt),
    decreases ps.len(),
{
    if i < ps.len() - 1 {
        lemma_parts_source_ok(ps.drop_last(), data, parent_opt, i);
    }
}

/// The checks that the members of an optional group are present.
pub open spec fn presence_checks<'a>(names: Seq<&'a str>) -> Seq<char> {
    join(names.map_values(|n: &'a str| "node."@ + n@ + ".is_some()"@), ", "@)
}

/// The printer code for a part of a rule.
pub open spec fn part_source<'a>(p: AstRulePart<'a>, data: &LangData<'a>, parent_opt: bool) -> Seq<char>
    decreases p,
{
    if p.not {
        match p.member_key {
            Some(mk) => if p.optional {
                "        "@ + "if let Some(not_part) = node."@ + mk@ + "{ s += not_part }\n"@
            } else {
                "        "@ + "s += node."@ + mk@ + ";\n"@
            },
            None => Seq::empty(),
        }
    } else {
        match p.token {
            AstRuleToken::Key(key) => part_source_text(
                data,
                data.typed_parts@[key@],
                p.member_key,
                p.optional || parent_opt,
            ),
            AstRuleToken::Tag(quoted) => if p.optional || parent_opt {
                match p.member_key {
                    Some(mk) => "        "@ + "if node."@ + snake(mk@) + " { s += \""@ + quoted@
                        + "\"; }\n"@,
                    None => Seq::empty(),
                }
            } else {
                "        "@ + "s += \""@ + quoted@ + "\";\n"@
            },
            AstRuleToken::Func(..) => Seq::empty(),
            AstRuleToken::Group(parts) => if p.optional {
                let names = group_member_names(parts@);
                if names.len() > 0 {
                    "        "@ + "if "@ + presence_checks(names) + " {\n"@ + parts_source(
                        parts@,
                        data,
                        true,
                    ) + "        "@ + "}\n"@
                } else {
                    Seq::empty()
                }
            } else {
                parts_source(parts@, data, parent_opt)
            },
        }
    }
}

pub open spec fn parts_source<'a>(ps: Seq<AstRulePart<'a>>, data: &LangData<'a>, parent_opt: bool) -> Seq<char>
    decreases ps,
{
    if ps.len() == 0 {
        Seq::empty()
    } else {
        parts_source(ps.drop_last(), data, parent_opt) + part_source(ps.last(), data, parent_opt)
    }
}

/// Appends the printer code of `parts` in order.
fn parts_add_to_source<'a>(parts: &Vec<AstRulePart<'a>>, s: String, data: &LangData<'a>, parent_opt: bool, Ghost(owner): Ghost<AstRulePart<'a>>) -> (r: String)
    requires
        owner.token == AstRuleToken::Group(*parts),
        data.wf(),
        parts_source_ok(parts@, data, parent_opt),
    ensures
        r@ == s@ + parts_source(parts@, data, parent_opt),
    decreases part_size(owner), 0int,
{
    let ghost s0 = s@;
    let mut s = s;
    let n = parts.len();
    let mut i: usize = 0;
    while i < n
        invariant
            n == parts@.len(),
            i <= n,
            owner.token == AstRuleToken::Group(*parts),
            data.wf(),
            parts_source_ok(parts@, data, parent_opt),
            s@ == s0 + parts_source(parts@.take(i as int), data, parent_opt),
        decreases n - i,
    {
        proof {
            lemma_group_part_smaller(owner, *parts, i as int);
            lemma_parts_source_ok(parts@, data, parent_opt, i as int);
            assert(parts@.take(i + 1).drop_last() =~= parts@.take(i as int));
        }
        s = parts[i].add_to_source(s, data, parent_opt);
        i += 1;
    }
    assert(parts@.take(n as int) =~= parts@);
    s
}

impl<'a> AstRulePart<'a> {
    /// Appends the code that prints this part of a node.
    #[verifier::spinoff_prover]
    #[verifier::rlimit(40)]
    pub fn add_to_source(&self, s: String, data: &LangData<'a>, parent_opt: bool) -> (r: String)
        requires
            data.wf(),
            source_ok(*self, data, parent_opt),
        ensures
            r@ == s@ + part_source(*self, data, parent_opt),
        decreases part_size(*self), 2int,
    {
        let ghost s0 = s@;
        let mut s = s;
        if self.not {
            if let Some(member_key) = self.member_key {
                if self.optional {
                    s = cat(s, "        ");
                    s = cat(s, "if let Some(not_part) = node.");
                    s = cat(s, member_key);
                    s = cat(s, "{ s += not_part }\n");
                } else {
                    s = cat(s, "        ");
                    s = cat(s, "s += node.");
                    s = cat(s, member_key);
                    s = cat(s, ";\n");
                }
            }
        } else {
            match &self.token {
                AstRuleToken::Key(key) => {
                    match data.typed_parts.get(key) {
                        Some(tp) => {
                            s = tp.add_to_source(s, self.member_key, self.optional || parent_opt, data);
                        },
                        None => {
                            assert(false);
                        },
                    }
                },
                AstRuleToken::Tag(quoted) => {
                    if self.optional || parent_opt {
                        if let Some(member_key) = self.member_key {
                            s = cat(s, "        ");
                            s = cat(s, "if node.");
                            s = cat(s, data.sc(member_key));
                            s = cat(s, " { s += \"");
                            s = cat(s, quoted);
                            s = cat(s, "\"; }\n");
                        }
                    } else {
                        s = cat(s, "        ");
                        s = cat(s, "s += \"");
                        s = cat(s, quoted);
                        s = cat(s, "\";\n");
                    }
                },
                AstRuleToken::Func(..) => {
                    // Todo, make map of functions and let it handle
                },
                AstRuleToken::Group(parts) => {
                    if self.optional {
                        s = self.add_opt_group_to_source(parts, s, data);
                    } else {
                        // Just forward to parts for now
                        s = parts_add_to_source(parts, s, data, parent_opt, Ghost(*self));
                    }
                },
            }
        }
        assert(s@ =~= s0 + part_source(*self, data, parent_opt));
        s
    }

    /// An optional group prints when the members named in it are present.
    #[verifier::spinoff_prover]
    fn add_opt_group_to_source(&self, parts: &Vec<AstRulePart<'a>>, s: String, data: &LangData<'a>) -> (r: String)
        requires
            self.token == AstRuleToken::Group(*parts),
            !self.not,
            self.optional,
            data.wf(),
            group_member_names(parts@).len() > 0 ==> parts_source_ok(parts@, data, true),
        ensures
            r@ == s@ + (if group_member_names(parts@).len() > 0 {
                "        "@ + "if "@ + presence_checks(group_member_names(parts@)) + " {\n"@
                    + parts_source(parts@, data, true) + "        "@ + "}\n"@
            } else {
                Seq::empty()
            }),
        decreases part_size(*self), 1int,
    {
        // Check member keys for is_some()
        let mut names: Vec<&'a str> = Vec::new();
        let np = parts.len();
        let mut j: usize = 0;
        while j < np
            invariant
                np == parts@.len(),
                j <= np,
                names@ == group_member_names(parts@.take(j as int)),
            decreases np - j,
        {
            assert(parts@.take(j + 1).drop_last() =~= parts@.take(j as int));
            if let Some(member_key) = parts[j].member_key {
                names.push(member_key);
            }
            j += 1;
        }
        assert(parts@.take(np as int) =~= parts@);
        let ghost s0 = s@;
        let mut s = s;
        let mlen = names.len();
        if mlen > 0 {
            s = cat(s, "        ");
            s = cat(s, "if ");
            let ghost s1 = s@;
            let ghost texts = names@.map_values(|n: &'a str| "node."@ + n@ + ".is_some()"@);
            let mut i: usize = 0;
            while i < mlen
                invariant
                    mlen == names@.len(),
                    i <= mlen,
                    texts == names@.map_values(|n: &'a str| "node."@ + n@ + ".is_some()"@),
                    s@ == s1 + join_upto(texts, ", "@, i as int),
                decreases mlen - i,
            {
                proof {
                    lemma_join_step(texts, ", "@, i as int);
                }
                s = cat(s, "node.");
                s = cat(s, names[i]);
                s = cat(s, ".is_some()");
                if i < mlen - 1 {
                    s = cat(s, ", ");
                }
                i += 1;
            }
            s = cat(s, " {\n");
            s = parts_add_to_source(parts, s, data, true, Ghost(*self));
            s = cat(s, "        ");
            s = cat(s, "}\n");
        }
        s
    }
}

} // verus!
