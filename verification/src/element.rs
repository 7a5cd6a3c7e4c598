//! The typed elements that parsing produces.
use vstd::prelude::*;

use crate::model::ElemV;

verus! {

/// The type tag of a parsed element.
#[derive(Debug, Clone, Copy, PartialEq, Eq, Structural)]
pub enum ParserElementType {
    Int64,
    Float64,
    Var,
    Str,
}

/// One parsed element: a type tag and the payloads the tag implies.  A
/// float value is carried as its IEEE 754 binary64 bit pattern.
#[derive(Debug)]
pub struct ParserElement {
    pub el_type: Option<ParserElementType>,
    pub int64: Option<i64>,
    pub float64_bits: Option<u64>,
    pub string: Option<String>,
    pub var_name: Option<String>,
}

/// The view of an optional owned string.
pub open spec fn opt_str_view(s: Option<String>) -> Option<Seq<char>> {
    match s {
        Some(v) => Some(v@),
        None => None,
    }
}

impl View for ParserElement {
    type V = ElemV;

    open spec fn view(&self) -> ElemV {
        ElemV {
            el_type: self.el_type,
            int64: self.int64,
            float64_bits: self.float64_bits,
            string: opt_str_view(self.string),
            var_name: opt_str_view(self.var_name),
        }
    }
}

/// The view of an optional element.
pub open spec fn opt_elem_view(e: Option<ParserElement>) -> Option<ElemV> {
    match e {
        Some(v) => Some(v@),
        None => None,
    }
}

/// A copy of an optional owned string, content for content.
pub fn clone_opt_string(s: &Option<String>) -> (r: Option<String>)
    ensures
        opt_str_view(r) == opt_str_view(*s),
{
    match s {
        Some(v) => Some(v.clone()),
        None => None,
    }
}

impl Clone for ParserElement {
    fn clone(&self) -> (r: Self)
        ensures
            r@ == self@,
    {
        ParserElement {
            el_type: self.el_type,
            int64: self.int64,
            float64_bits: self.float64_bits,
            string: clone_opt_string(&self.string),
            var_name: clone_opt_string(&self.var_name),
        }
    }
}

impl ParserElement {
    /// A fresh element with nothing set.
    pub fn new() -> (el: ParserElement)
        ensures
            el@ == crate::model::empty_elem(),
    {
        ParserElement {
            el_type: None,
            int64: None,
            float64_bits: None,
            string: None,
            var_name: None,
        }
    }
}

/// A trial shape for elements: the tag and one value.  A float value is
/// carried as its IEEE 754 binary64 bit pattern.
#[derive(Debug, Clone, PartialEq)]
pub enum ParserElValue {
    I64(i64),
    F64Bits(u64),
    Str(String),
    Var(String),
}

/// A trial element pairing a type tag with one value.
#[derive(Debug, Clone)]
pub struct ParserEl {
    pub el_type: Option<ParserElementType>,
    pub value: Option<ParserElValue>,
}

impl ParserEl {
    /// A fresh trial element with nothing set.
    pub fn new() -> (el: ParserEl)
        ensures
            el.el_type is None,
            el.value is None,
    {
        ParserEl { el_type: None, value: None }
    }
}

} // verus!
