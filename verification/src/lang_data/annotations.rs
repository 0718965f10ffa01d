//! Annotations attached to rules and tokens, such as `@syntax(name = "...")`.
use vstd::prelude::*;
use crate::strmap::StrMap;
use crate::descr_lang::ast::{AnnotArg, AnnotArgVal, Annotation, Ident, IntConst, Quoted};

verus! {

#[derive(Debug)]
pub struct AnnotList<'a> {
    pub items: StrMap<&'a str, Annot<'a>>,
}

#[derive(Debug)]
pub struct Annot<'a> {
    pub ident: &'a str,
    pub args: StrMap<&'a str, AnArgVal<'a>>,
}

#[derive(Debug)]
pub enum AnArgVal<'a> {
    Quoted(&'a str),
    Ident(&'a str),
    IntConst(u32),
}

/// The value an annotation argument is read as.
pub open spec fn arg_value<'a>(v: AnnotArgVal<'a>) -> AnArgVal<'a> {
    match v {
        AnnotArgVal::QuotedItem(Quoted { string }) => AnArgVal::Quoted(string),
        AnnotArgVal::IdentItem(Ident { ident }) => AnArgVal::Ident(ident),
        AnnotArgVal::IntConstItem(IntConst { int: n }) => AnArgVal::IntConst(n),
    }
}

/// The arguments of the first `n` entries, a later key replacing an earlier one.
pub open spec fn args_map<'a>(args: Seq<AnnotArg<'a>>, n: int) -> Map<Seq<char>, AnArgVal<'a>>
    decreases n,
{
    if n <= 0 {
        Map::empty()
    } else {
        args_map(args, n - 1).insert(args[n - 1].key@, arg_value(args[n - 1].annot_arg_val))
    }
}

/// The arguments of one annotation, by key.
pub open spec fn annotation_args<'a>(a: Annotation<'a>) -> Map<Seq<char>, AnArgVal<'a>> {
    match a.annot_args {
        Some(args) => args_map(args.annot_arg_list@, args.annot_arg_list@.len() as int),
        None => Map::empty(),
    }
}

/// The arguments of each annotation among the first `n`, by annotation name;
/// a later annotation with the same name replaces an earlier one.
pub open spec fn annots_map<'a>(v: Seq<Annotation<'a>>, n: int) -> Map<
    Seq<char>,
    Map<Seq<char>, AnArgVal<'a>>,
>
    decreases n,
{
    if n <= 0 {
        Map::empty()
    } else {
        annots_map(v, n - 1).insert(v[n - 1].ident@, annotation_args(v[n - 1]))
    }
}

impl<'a> AnnotList<'a> {
    /// The list holds, for each annotation name, its arguments by key.
    pub open spec fn models(&self, m: Map<Seq<char>, Map<Seq<char>, AnArgVal<'a>>>) -> bool {
        &&& self.items.wf()
        &&& self.items@.dom() == m.dom()
        &&& forall|k: Seq<char>| #[trigger]
            m.contains_key(k) ==> {
                &&& self.items@[k].ident@ == k
                &&& self.items@[k].args.wf()
                &&& self.items@[k].args@ == m[k]
            }
    }

    pub fn empty() -> (l: AnnotList<'a>)
        ensures
            l.models(Map::empty()),
    {
        let l = AnnotList { items: StrMap::new() };
        assert(l.items@.dom() =~= Map::<Seq<char>, Map<Seq<char>, AnArgVal<'a>>>::empty().dom());
        l
    }
}

fn convert_arg<'a>(v: &AnnotArgVal<'a>) -> (r: AnArgVal<'a>)
    ensures
        r == arg_value(*v),
{
    match v {
        AnnotArgVal::QuotedItem(Quoted { string }) => AnArgVal::Quoted(string),
        AnnotArgVal::IdentItem(Ident { ident }) => AnArgVal::Ident(ident),
        AnnotArgVal::IntConstItem(IntConst { int: n }) => AnArgVal::IntConst(*n),
    }
}

/// Reads the annotations of a rule or token into a table by annotation
/// name, each with its arguments by key.
pub fn parse_annots<'a>(annotations: &Vec<Annotation<'a>>) -> (l: AnnotList<'a>)
    ensures
        l.models(annots_map(annotations@, annotations@.len() as int)),
{
    let mut l = AnnotList { items: StrMap::new() };
    assert(l.items@.dom() =~= annots_map(annotations@, 0).dom());
    let n = annotations.len();
    let mut i: usize = 0;
    while i < n
        invariant
            n == annotations@.len(),
            i <= n,
            l.models(annots_map(annotations@, i as int)),
        decreases n - i,
    {
        let annot = &annotations[i];
        let mut a = Annot { ident: annot.ident, args: StrMap::new() };
        proof {
            assert(a.args@ =~= args_map(Seq::empty(), 0));
        }
        if let Some(annot_args) = &annot.annot_args {
            let list = &annot_args.annot_arg_list;
            let m = list.len();
            let mut j: usize = 0;
            assert(a.args@ =~= args_map(list@, 0));
            while j < m
                invariant
                    m == list@.len(),
                    j <= m,
                    a.ident == annot.ident,
                    a.args.wf(),
                    a.args@ == args_map(list@, j as int),
                decreases m - j,
            {
                let annot_arg = &list[j];
                a.args.insert(annot_arg.key, convert_arg(&annot_arg.annot_arg_val));
                j += 1;
            }
        } else {
            assert(a.args@ =~= annotation_args(*annot));
        }
        let ghost prev = annots_map(annotations@, i as int);
        l.items.insert(annot.ident, a);
        proof {
            let next = annots_map(annotations@, i + 1);
            assert(next == prev.insert(annot.ident@, annotation_args(*annot)));
            assert(l.items@.dom() =~= next.dom());
            assert forall|k: Seq<char>| #[trigger] next.contains_key(k) implies {
                &&& l.items@[k].ident@ == k
                &&& l.items@[k].args.wf()
                &&& l.items@[k].args@ == next[k]
            } by {
                if k != annot.ident@ {
                    assert(prev.contains_key(k));
                }
            }
        }
        i += 1;
    }
    l
}

} // verus!
