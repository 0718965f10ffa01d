//! What the parts of a rule contribute: struct members, parser code and
//! printer code.
use vstd::prelude::*;
use crate::strmap::StrMap;
use crate::lang_data::typed_part::{auto_member, TypedPart};
use crate::lang_data::rule::{AstRulePart, AstRulePartMemberData, AstRuleToken};

verus! {

/// Number of parts in a part's tree, itself included.
pub open spec fn part_size<'a>(p: AstRulePart<'a>) -> nat
    decreases p,
{
    match p.token {
        AstRuleToken::Group(parts) => 1 + parts_size(parts@),
        _ => 1,
    }
}

pub open spec fn parts_size<'a>(ps: Seq<AstRulePart<'a>>) -> nat
    decreases ps,
{
    if ps.len() == 0 {
        0
    } else {
        parts_size(ps.drop_last()) + part_size(ps.last())
    }
}

pub proof fn lemma_parts_size_prefix<'a>(ps: Seq<AstRulePart<'a>>, i: int)
    requires
        0 <= i <= ps.len(),
    ensures
        parts_size(ps.take(i)) <= parts_size(ps),
        i < ps.len() ==> parts_size(ps.take(i + 1)) == parts_size(ps.take(i)) + part_size(ps[i]),
    decreases ps.len(),
{
    if i < ps.len() {
        assert(ps.take(i + 1).drop_last() =~= ps.take(i));
        lemma_parts_size_prefix(ps.drop_last(), i);
        assert(ps.drop_last().take(i) =~= ps.take(i));
        if i + 1 < ps.len() {
            lemma_parts_size_prefix(ps.drop_last(), i + 1);
            assert(ps.drop_last().take(i + 1) =~= ps.take(i + 1));
        } else {
            assert(ps.take(i + 1) =~= ps);
        }
    } else {
        assert(ps.take(i) =~= ps);
    }
}

/// A part of a group is smaller than the group.
pub proof fn lemma_group_part_smaller<'a>(p: AstRulePart<'a>, parts: Vec<AstRulePart<'a>>, i: int)
    requires
        p.token == AstRuleToken::Group(parts),
        0 <= i < parts@.len(),
    ensures
        part_size(parts@[i]) < part_size(p),
{
    lemma_parts_size_prefix(parts@, i);
    lemma_parts_size_prefix(parts@, i + 1);
}

/// Every key the collection of members looks up names a typed part.
pub open spec fn keys_known<'a>(p: AstRulePart<'a>, tps: Map<Seq<char>, TypedPart<'a>>) -> bool
    decreases p,
{
    match p.token {
        AstRuleToken::Key(key) => tps.contains_key(key@),
        AstRuleToken::Group(parts) => p.not || parts_keys_known(parts@, tps),
        _ => true,
    }
}

pub open spec fn parts_keys_known<'a>(ps: Seq<AstRulePart<'a>>, tps: Map<Seq<char>, TypedPart<'a>>) -> bool
    decreases ps,
{
    ps.len() == 0 || (parts_keys_known(ps.drop_last(), tps) && keys_known(ps.last(), tps))
}

pub proof fn lemma_parts_keys_known<'a>(ps: Seq<AstRulePart<'a>>, tps: Map<Seq<char>, TypedPart<'a>>, i: int)
    requires
        parts_keys_known(ps, tps),
        0 <= i < ps.len(),
    ensures
        keys_known(ps[i], tps),
    decreases ps.len(),
{
    if i < ps.len() - 1 {
        lemma_parts_keys_known(ps.drop_last(), tps, i);
    }
}

pub open spec fn member_datum<'a>(
    member_name: &'a str,
    part_key: &'a str,
    optional: bool,
    not: bool,
    tag: bool,
) -> AstRulePartMemberData<'a> {
    AstRulePartMemberData { member_name, part_key, optional, not, tag }
}

/// The member a part with an optional member name contributes.
pub open spec fn named_datum<'a>(p: AstRulePart<'a>, part_key: &'a str, optional: bool, tag: bool) -> Seq<
    AstRulePartMemberData<'a>,
> {
    match p.member_key {
        Some(m) => seq![member_datum(m, part_key, optional, p.not, tag)],
        None => Seq::empty(),
    }
}

/// The struct members a part contributes, in order.
pub open spec fn part_member_data<'a>(
    p: AstRulePart<'a>,
    parent_opt: bool,
    tps: Map<Seq<char>, TypedPart<'a>>,
) -> Seq<AstRulePartMemberData<'a>>
    decreases p,
{
    let opt = parent_opt || p.optional;
    match p.token {
        AstRuleToken::Key(key) => {
            let tp = tps[key@];
            if auto_member(tp) {
                seq![
                    member_datum(
                        match p.member_key {
                            Some(m) => m,
                            None => key,
                        },
                        key,
                        opt,
                        p.not,
                        false,
                    ),
                ]
            } else {
                match tp {
                    TypedPart::CharPart { .. } | TypedPart::FnPart { .. } | TypedPart::WSPart => named_datum(
                        p,
                        key,
                        opt,
                        false,
                    ),
                    TypedPart::TagPart { .. } => named_datum(p, key, opt, true),
                    _ => Seq::empty(),
                }
            }
        },
        AstRuleToken::Tag(string) => named_datum(p, string, opt, true),
        AstRuleToken::Func(..) => named_datum(p, "", opt, false),
        AstRuleToken::Group(parts) => if p.not {
            named_datum(p, "", opt, false)
        } else {
            parts_member_data(parts@, opt, tps)
        },
    }
}

pub open spec fn parts_member_data<'a>(
    ps: Seq<AstRulePart<'a>>,
    opt: bool,
    tps: Map<Seq<char>, TypedPart<'a>>,
) -> Seq<AstRulePartMemberData<'a>>
    decreases ps,
{
    if ps.len() == 0 {
        Seq::empty()
    } else {
        parts_member_data(ps.drop_last(), opt, tps) + part_member_data(ps.last(), opt, tps)
    }
}

impl<'a> AstRulePart<'a> {
    /// Appends the struct members this part contributes.
    pub fn collect_ast_member_data(
        &self,
        list: Vec<AstRulePartMemberData<'a>>,
        parent_opt: bool,
        typed_parts: &StrMap<&'a str, TypedPart<'a>>,
    ) -> (r: Vec<AstRulePartMemberData<'a>>)
        requires
            typed_parts.wf(),
            keys_known(*self, typed_parts@),
        ensures
            r@ == list@ + part_member_data(*self, parent_opt, typed_parts@),
        decreases part_size(*self),
    {
        let ghost l0 = list@;
        let mut list = list;
        let opt = parent_opt || self.optional;
        match &self.token {
            AstRuleToken::Key(key) => {
                let typed_part = match typed_parts.get(key) {
                    Some(t) => t,
                    None => {
                        assert(false);
                        return list;
                    },
                };
                if typed_part.is_auto_member() {
                    let member_name = match self.member_key {
                        Some(m) => m,
                        None => key,
                    };
                    list.push(
                        AstRulePartMemberData {
                            member_name,
                            part_key: key,
                            optional: opt,
                            not: self.not,
                            tag: false,
                        },
                    );
                } else {
                    match typed_part {
                        TypedPart::CharPart { .. } | TypedPart::FnPart { .. } | TypedPart::WSPart => {
                            // Count as member if member key is given
                            if let Some(member_key) = self.member_key {
                                list.push(
                                    AstRulePartMemberData {
                                        member_name: member_key,
                                        part_key: key,
                                        optional: opt,
                                        not: self.not,
                                        tag: false,
                                    },
                                );
                            }
                        },
                        TypedPart::TagPart { .. } => {
                            if let Some(member_key) = self.member_key {
                                list.push(
                                    AstRulePartMemberData {
                                        member_name: member_key,
                                        part_key: key,
                                        optional: opt,
                                        not: self.not,
                                        tag: true,
                                    },
                                );
                            }
                        },
                        _ => {},
                    }
                }
            },
            AstRuleToken::Tag(string) => {
                if let Some(member_key) = self.member_key {
                    list.push(
                        AstRulePartMemberData {
                            member_name: member_key,
                            part_key: string,
                            optional: opt,
                            not: self.not,
                            tag: true,
                        },
                    );
                }
            },
            AstRuleToken::Func(..) => {
                if let Some(member_key) = self.member_key {
                    list.push(
                        AstRulePartMemberData {
                            member_name: member_key,
                            part_key: "",
                            optional: opt,
                            not: self.not,
                            tag: false,
                        },
                    );
                }
            },
            AstRuleToken::Group(group_parts) => {
                if self.not {
                    if let Some(member_name) = self.member_key {
                        list.push(
                            AstRulePartMemberData {
                                member_name,
                                part_key: "",
                                optional: opt,
                                not: true,
                                tag: false,
                            },
                        );
                    }
                } else {
                    let n = group_parts.len();
                    let mut i: usize = 0;
                    while i < n
                        invariant
                            n == group_parts@.len(),
                            i <= n,
                            self.token == AstRuleToken::Group(*group_parts),
                            typed_parts.wf(),
                            !self.not,
                            keys_known(*self, typed_parts@),
                            list@ == l0 + parts_member_data(group_parts@.take(i as int), opt, typed_parts@),
                        decreases n - i,
                    {
                        proof {
                            lemma_group_part_smaller(*self, *group_parts, i as int);
                            lemma_parts_keys_known(group_parts@, typed_parts@, i as int);
                        }
                        list = group_parts[i].collect_ast_member_data(list, opt, typed_parts);
                        assert(group_parts@.take(i + 1).drop_last() =~= group_parts@.take(i as int));
                        assert(list@ =~= l0 + parts_member_data(group_parts@.take(i + 1), opt, typed_parts@));
                        i += 1;
                    }
                    assert(group_parts@.take(n as int) =~= group_parts@);
                }
            },
        }
        assert(list@ =~= l0 + part_member_data(*self, parent_opt, typed_parts@));
        list
    }
}

} // verus!
