//! Prints JSON values.
//!
//! Two printers exist: the current one quotes strings and object keys, and
//! the earlier `to_source_*` one writes them bare.
use vstd::prelude::*;
use crate::text::{cat, cat_char, decimal, usize_to_string};
use super::ast::{ArrayVal, Int, JsObject, JsVal, ObjectPair, StringVal};

verus! {

/// `text`, in double quotes when `quote` holds.
pub open spec fn quoted_if(quote: bool, text: Seq<char>) -> Seq<char> {
    if quote {
        "\""@ + text + "\""@
    } else {
        text
    }
}

pub open spec fn int_src(node: Int) -> Seq<char> {
    " "@ + decimal(node.int as nat)
}

pub open spec fn string_val_src(node: StringVal, quote: bool) -> Seq<char> {
    " "@ + quoted_if(quote, node.string@)
}

pub open spec fn js_val_src(node: JsVal, quote: bool) -> Seq<char>
    decreases node, 0int,
{
    match node {
        JsVal::IntItem(inner) => int_src(inner),
        JsVal::StringValItem(inner) => string_val_src(inner, quote),
        JsVal::ArrayValItem(inner) => array_val_src(*inner, quote),
        JsVal::JsObjectItem(inner) => js_object_src(*inner, quote),
    }
}

/// The first `n` values, separated by commas.
pub open spec fn js_vals_upto(v: Seq<JsVal>, n: int, quote: bool) -> Seq<char>
    decreases v, n,
{
    if n <= 0 || n > v.len() {
        Seq::empty()
    } else {
        js_vals_upto(v, n - 1, quote) + js_val_src(v[n - 1], quote) + (if n - 1 < v.len() - 1 {
            seq![',']
        } else {
            Seq::empty()
        })
    }
}

/// The first `n` pairs, separated by commas.
pub open spec fn pairs_upto(v: Seq<ObjectPair>, n: int, quote: bool) -> Seq<char>
    decreases v, n,
{
    if n <= 0 || n > v.len() {
        Seq::empty()
    } else {
        pairs_upto(v, n - 1, quote) + object_pair_src(v[n - 1], quote) + (if n - 1 < v.len() - 1 {
            seq![',']
        } else {
            Seq::empty()
        })
    }
}

pub open spec fn array_val_src(node: ArrayVal, quote: bool) -> Seq<char>
    decreases node, 0int,
{
    " "@ + seq!['['] + " "@ + js_vals_upto(node.items@, node.items@.len() as int, quote) + " "@
        + seq![']']
}

pub open spec fn js_object_src(node: JsObject, quote: bool) -> Seq<char>
    decreases node, 0int,
{
    " "@ + seq!['{'] + " "@ + pairs_upto(node.items@, node.items@.len() as int, quote) + " "@
        + seq!['}']
}

pub open spec fn object_pair_src(node: ObjectPair, quote: bool) -> Seq<char>
    decreases node, 0int,
{
    " "@ + quoted_if(quote, node.key@) + " "@ + seq![':'] + " "@ + js_val_src(node.val, quote)
}

pub struct ToSource;

impl ToSource {
    fn vals(s: String, v: &Vec<JsVal>, quote: bool) -> (r: String)
        ensures
            r@ == s@ + js_vals_upto(v@, v@.len() as int, quote),
        decreases v@, v@.len() + 1,
    {
        let len = v.len();
        let mut s = s;
        let ghost s0 = s@;
        let mut i: usize = 0;
        while i < len
            invariant
                len == v@.len(),
                i <= len,
                s@ == s0 + js_vals_upto(v@, i as int, quote),
            decreases len - i,
        {
            s = Self::val(s, &v[i], quote);
            if i < len - 1 {
                s = cat_char(s, ',');
            }
            i += 1;
        }
        s
    }

    fn pairs(s: String, v: &Vec<ObjectPair>, quote: bool) -> (r: String)
        ensures
            r@ == s@ + pairs_upto(v@, v@.len() as int, quote),
        decreases v@, v@.len() + 1,
    {
        let len = v.len();
        let mut s = s;
        let ghost s0 = s@;
        let mut i: usize = 0;
        while i < len
            invariant
                len == v@.len(),
                i <= len,
                s@ == s0 + pairs_upto(v@, i as int, quote),
            decreases len - i,
        {
            s = Self::pair(s, &v[i], quote);
            if i < len - 1 {
                s = cat_char(s, ',');
            }
            i += 1;
        }
        s
    }

    fn val(s: String, node: &JsVal, quote: bool) -> (r: String)
        ensures
            r@ == s@ + js_val_src(*node, quote),
        decreases *node, 1int,
    {
        match node {
            JsVal::IntItem(inner) => Self::int_val(s, inner),
            JsVal::StringValItem(inner) => Self::string(s, inner, quote),
            JsVal::ArrayValItem(inner) => Self::array(s, inner, quote),
            JsVal::JsObjectItem(inner) => Self::object(s, inner, quote),
        }
    }

    fn string(s: String, node: &StringVal, quote: bool) -> (r: String)
        ensures
            r@ == s@ + string_val_src(*node, quote),
    {
        let ghost s0 = s@;
        let mut s = cat(s, " ");
        if quote {
            s = cat(s, "\"");
        }
        s = cat(s, node.string.as_str());
        if quote {
            s = cat(s, "\"");
        }
        assert(s@ =~= s0 + string_val_src(*node, quote));
        s
    }

    fn array(s: String, node: &ArrayVal, quote: bool) -> (r: String)
        ensures
            r@ == s@ + array_val_src(*node, quote),
        decreases *node, 1int,
    {
        let ghost s0 = s@;
        let mut s = cat(s, " ");
        s = cat_char(s, '[');
        s = cat(s, " ");
        s = Self::vals(s, &node.items, quote);
        s = cat(s, " ");
        s = cat_char(s, ']');
        assert(s@ =~= s0 + array_val_src(*node, quote));
        s
    }

    fn object(s: String, node: &JsObject, quote: bool) -> (r: String)
        ensures
            r@ == s@ + js_object_src(*node, quote),
        decreases *node, 1int,
    {
        let ghost s0 = s@;
        let mut s = cat(s, " ");
        s = cat_char(s, '{');
        s = cat(s, " ");
        s = Self::pairs(s, &node.items, quote);
        s = cat(s, " ");
        s = cat_char(s, '}');
        assert(s@ =~= s0 + js_object_src(*node, quote));
        s
    }

    fn pair(s: String, node: &ObjectPair, quote: bool) -> (r: String)
        ensures
            r@ == s@ + object_pair_src(*node, quote),
        decreases *node, 1int,
    {
        let ghost s0 = s@;
        let mut s = cat(s, " ");
        if quote {
            s = cat(s, "\"");
        }
        s = cat(s, node.key.as_str());
        if quote {
            s = cat(s, "\"");
        }
        s = cat(s, " ");
        s = cat_char(s, ':');
        s = cat(s, " ");
        s = Self::val(s, &node.val, quote);
        assert(s@ =~= s0 + object_pair_src(*node, quote));
        s
    }

    pub fn array_val(s: String, node: &ArrayVal) -> (r: String)
        ensures
            r@ == s@ + array_val_src(*node, true),
    {
        Self::array(s, node, true)
    }

    pub fn string_val(s: String, node: &StringVal) -> (r: String)
        ensures
            r@ == s@ + string_val_src(*node, true),
    {
        Self::string(s, node, true)
    }

    pub fn js_object(s: String, node: &JsObject) -> (r: String)
        ensures
            r@ == s@ + js_object_src(*node, true),
    {
        Self::object(s, node, true)
    }

    pub fn int_val(s: String, node: &Int) -> (r: String)
        ensures
            r@ == s@ + int_src(*node),
    {
        let ghost s0 = s@;
        let s = cat(s, " ");
        let s = cat(s, usize_to_string(node.int as usize).as_str());
        assert(s@ =~= s0 + int_src(*node));
        s
    }

    pub fn object_pair(s: String, node: &ObjectPair) -> (r: String)
        ensures
            r@ == s@ + object_pair_src(*node, true),
    {
        Self::pair(s, node, true)
    }

    pub fn js_val(s: String, node: &JsVal) -> (r: String)
        ensures
            r@ == s@ + js_val_src(*node, true),
    {
        Self::val(s, node, true)
    }

    pub fn to_source_js_object(s: String, node: &JsObject) -> (r: String)
        ensures
            r@ == s@ + js_object_src(*node, false),
    {
        Self::object(s, node, false)
    }

    pub fn to_source_int(s: String, node: &Int) -> (r: String)
        ensures
            r@ == s@ + int_src(*node),
    {
        Self::int_val(s, node)
    }

    pub fn to_source_string_val(s: String, node: &StringVal) -> (r: String)
        ensures
            r@ == s@ + string_val_src(*node, false),
    {
        Self::string(s, node, false)
    }

    pub fn to_source_object_pair(s: String, node: &ObjectPair) -> (r: String)
        ensures
            r@ == s@ + object_pair_src(*node, false),
    {
        Self::pair(s, node, false)
    }

    pub fn to_source_array_val(s: String, node: &ArrayVal) -> (r: String)
        ensures
            r@ == s@ + array_val_src(*node, false),
    {
        Self::array(s, node, false)
    }

    pub fn to_source_js_val(s: String, node: &JsVal) -> (r: String)
        ensures
            r@ == s@ + js_val_src(*node, false),
    {
        Self::val(s, node, false)
    }
}

} // verus!
