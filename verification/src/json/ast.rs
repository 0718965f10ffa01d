//! Syntax tree of JSON values.
use vstd::prelude::*;

verus! {

#[derive(Debug)]
pub struct ArrayVal {
    pub items: Vec<JsVal>,
}

impl ArrayVal {
    pub fn new(items: Vec<JsVal>) -> (r: ArrayVal)
        ensures
            r == (ArrayVal { items }),
    {
        ArrayVal { items }
    }

    pub fn as_js_val(self) -> (r: JsVal)
        ensures
            r == JsVal::ArrayValItem(Box::new(self)),
    {
        JsVal::ArrayValItem(Box::new(self))
    }
}

#[derive(Debug)]
pub struct Int {
    pub int: u32,
}

impl Int {
    pub fn new(int_val: u32) -> (r: Int)
        ensures
            r == (Int { int: int_val }),
    {
        Int { int: int_val }
    }

    pub fn as_js_val(self) -> (r: JsVal)
        ensures
            r == JsVal::IntItem(self),
    {
        JsVal::IntItem(self)
    }
}

#[derive(Debug)]
pub struct JsObject {
    pub items: Vec<ObjectPair>,
}

impl JsObject {
    pub fn new(items: Vec<ObjectPair>) -> (r: JsObject)
        ensures
            r == (JsObject { items }),
    {
        JsObject { items }
    }

    pub fn as_js_val(self) -> (r: JsVal)
        ensures
            r == JsVal::JsObjectItem(Box::new(self)),
    {
        JsVal::JsObjectItem(Box::new(self))
    }
}

#[derive(Debug)]
pub struct ObjectPair {
    pub key: String,
    pub val: JsVal,
}

impl ObjectPair {
    pub fn new(key: String, val: JsVal) -> (r: ObjectPair)
        ensures
            r == (ObjectPair { key, val }),
    {
        ObjectPair { key, val }
    }
}

#[derive(Debug)]
pub struct StringVal {
    pub string: String,
}

impl StringVal {
    pub fn new(string: String) -> (r: StringVal)
        ensures
            r == (StringVal { string }),
    {
        StringVal { string }
    }

    pub fn as_js_val(self) -> (r: JsVal)
        ensures
            r == JsVal::StringValItem(self),
    {
        JsVal::StringValItem(self)
    }
}

#[derive(Debug)]
pub enum JsVal {
    IntItem(Int),
    StringValItem(StringVal),
    ArrayValItem(Box<ArrayVal>),
    JsObjectItem(Box<JsObject>),
}

impl JsVal {
    pub fn int_val(int_val: u32) -> (r: JsVal)
        ensures
            r == JsVal::IntItem(Int { int: int_val }),
    {
        JsVal::IntItem(Int::new(int_val))
    }

    pub fn string_val(string: String) -> (r: JsVal)
        ensures
            r == JsVal::StringValItem(StringVal { string }),
    {
        JsVal::StringValItem(StringVal::new(string))
    }

    pub fn array_val(items: Vec<JsVal>) -> (r: JsVal)
        ensures
            r == JsVal::ArrayValItem(Box::new(ArrayVal { items })),
    {
        JsVal::ArrayValItem(Box::new(ArrayVal::new(items)))
    }

    pub fn js_object(items: Vec<ObjectPair>) -> (r: JsVal)
        ensures
            r == JsVal::JsObjectItem(Box::new(JsObject { items })),
    {
        JsVal::JsObjectItem(Box::new(JsObject::new(items)))
    }
}

} // verus!
