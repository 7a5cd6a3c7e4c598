//! Parser operations as data.
//!
//! The engine dispatches on a tagged enum of its own operations rather
//! than on function pointers: a value of `ParserFunction` names one
//! primitive, element or function parser, and the combinators and the
//! meta-language interpreter match on it.
use vstd::prelude::*;

use crate::model::{FnTypeV, FuncV, ParamV};

verus! {

/// One operation of the engine, by name.  A word match carries the word
/// it expects.
#[derive(Debug, PartialEq)]
pub enum ParserFunction {
    PrimNext,
    PrimSpace,
    PrimQuote,
    PrimQuoteSingle,
    PrimWord(String),
    PrimChar,
    PrimDigit,
    PrimEols,
    PrimEof,
    PrimEolsOrEof,
    ElStr,
    ElInt,
    ElFloat,
    ElVar,
    FnVarAssign,
    FnVarSum,
    LangPrimNext,
    LangPrimQuote,
    LangPrimChar,
    LangPrimDigit,
    LangPrimEols,
    LangPrimEof,
    LangPrimEolsOrEof,
    LangPrimWord,
}

impl View for ParserFunction {
    type V = FuncV;

    open spec fn view(&self) -> FuncV {
        match self {
            ParserFunction::PrimNext => FuncV::PrimNext,
            ParserFunction::PrimSpace => FuncV::PrimSpace,
            ParserFunction::PrimQuote => FuncV::PrimQuote,
            ParserFunction::PrimQuoteSingle => FuncV::PrimQuoteSingle,
            ParserFunction::PrimWord(w) => FuncV::PrimWord(w@),
            ParserFunction::PrimChar => FuncV::PrimChar,
            ParserFunction::PrimDigit => FuncV::PrimDigit,
            ParserFunction::PrimEols => FuncV::PrimEols,
            ParserFunction::PrimEof => FuncV::PrimEof,
            ParserFunction::PrimEolsOrEof => FuncV::PrimEolsOrEof,
            ParserFunction::ElStr => FuncV::ElStr,
            ParserFunction::ElInt => FuncV::ElInt,
            ParserFunction::ElFloat => FuncV::ElFloat,
            ParserFunction::ElVar => FuncV::ElVar,
            ParserFunction::FnVarAssign => FuncV::FnVarAssign,
            ParserFunction::FnVarSum => FuncV::FnVarSum,
            ParserFunction::LangPrimNext => FuncV::LangPrimNext,
            ParserFunction::LangPrimQuote => FuncV::LangPrimQuote,
            ParserFunction::LangPrimChar => FuncV::LangPrimChar,
            ParserFunction::LangPrimDigit => FuncV::LangPrimDigit,
            ParserFunction::LangPrimEols => FuncV::LangPrimEols,
            ParserFunction::LangPrimEof => FuncV::LangPrimEof,
            ParserFunction::LangPrimEolsOrEof => FuncV::LangPrimEolsOrEof,
            ParserFunction::LangPrimWord => FuncV::LangPrimWord,
        }
    }
}

impl Clone for ParserFunction {
    fn clone(&self) -> (r: Self)
        ensures
            r@ == self@,
    {
        match self {
            ParserFunction::PrimNext => ParserFunction::PrimNext,
            ParserFunction::PrimSpace => ParserFunction::PrimSpace,
            ParserFunction::PrimQuote => ParserFunction::PrimQuote,
            ParserFunction::PrimQuoteSingle => ParserFunction::PrimQuoteSingle,
            ParserFunction::PrimWord(w) => ParserFunction::PrimWord(w.clone()),
            ParserFunction::PrimChar => ParserFunction::PrimChar,
            ParserFunction::PrimDigit => ParserFunction::PrimDigit,
            ParserFunction::PrimEols => ParserFunction::PrimEols,
            ParserFunction::PrimEof => ParserFunction::PrimEof,
            ParserFunction::PrimEolsOrEof => ParserFunction::PrimEolsOrEof,
            ParserFunction::ElStr => ParserFunction::ElStr,
            ParserFunction::ElInt => ParserFunction::ElInt,
            ParserFunction::ElFloat => ParserFunction::ElFloat,
            ParserFunction::ElVar => ParserFunction::ElVar,
            ParserFunction::FnVarAssign => ParserFunction::FnVarAssign,
            ParserFunction::FnVarSum => ParserFunction::FnVarSum,
            ParserFunction::LangPrimNext => ParserFunction::LangPrimNext,
            ParserFunction::LangPrimQuote => ParserFunction::LangPrimQuote,
            ParserFunction::LangPrimChar => ParserFunction::LangPrimChar,
            ParserFunction::LangPrimDigit => ParserFunction::LangPrimDigit,
            ParserFunction::LangPrimEols => ParserFunction::LangPrimEols,
            ParserFunction::LangPrimEof => ParserFunction::LangPrimEof,
            ParserFunction::LangPrimEolsOrEof => ParserFunction::LangPrimEolsOrEof,
            ParserFunction::LangPrimWord => ParserFunction::LangPrimWord,
        }
    }
}

/// How a descriptor invokes its operation: with the state alone, with
/// the state and a word, or with the state and another operation.
#[derive(Debug)]
pub enum ParserFunctionType {
    NoFunction,
    TakesParser(ParserFunction),
    TakesParserWord,
    TakesParserFn(ParserFunction),
}

impl View for ParserFunctionType {
    type V = FnTypeV;

    open spec fn view(&self) -> FnTypeV {
        match self {
            ParserFunctionType::NoFunction => FnTypeV::NoFunction,
            ParserFunctionType::TakesParser(f) => FnTypeV::TakesParser(f@),
            ParserFunctionType::TakesParserWord => FnTypeV::TakesParserWord,
            ParserFunctionType::TakesParserFn(f) => FnTypeV::TakesParserFn(f@),
        }
    }
}

impl Clone for ParserFunctionType {
    fn clone(&self) -> (r: Self)
        ensures
            r@ == self@,
    {
        match self {
            ParserFunctionType::NoFunction => ParserFunctionType::NoFunction,
            ParserFunctionType::TakesParser(f) => ParserFunctionType::TakesParser(f.clone()),
            ParserFunctionType::TakesParserWord => ParserFunctionType::TakesParserWord,
            ParserFunctionType::TakesParserFn(f) => ParserFunctionType::TakesParserFn(f.clone()),
        }
    }
}

/// The literal parameter a descriptor carries, if any.
#[derive(Debug)]
pub enum ParserFunctionParam {
    NoParam,
    String(String),
    ParserFn(ParserFunction),
    VecParserFn(Vec<ParserFunction>),
}

impl View for ParserFunctionParam {
    type V = ParamV;

    open spec fn view(&self) -> ParamV {
        match self {
            ParserFunctionParam::NoParam => ParamV::NoParam,
            ParserFunctionParam::String(s) => ParamV::Str(s@),
            ParserFunctionParam::ParserFn(f) => ParamV::Fn(f@),
            ParserFunctionParam::VecParserFn(fs) => ParamV::VecFn(
                fs@.map_values(|f: ParserFunction| f@),
            ),
        }
    }
}

/// A copy of an operation list, operation for operation.
pub fn clone_func_vec(fs: &Vec<ParserFunction>) -> (r: Vec<ParserFunction>)
    ensures
        r@.map_values(|f: ParserFunction| f@) == fs@.map_values(|f: ParserFunction| f@),
{
    let mut r: Vec<ParserFunction> = Vec::new();
    let mut i: usize = 0;
    while i < fs.len()
        invariant
            i <= fs@.len(),
            r@.len() == i,
            forall|j: int| 0 <= j < i ==> r@[j]@ == fs@[j]@,
        decreases fs@.len() - i,
    {
        r.push(fs[i].clone());
        i = i + 1;
    }
    proof {
        assert(r@.map_values(|f: ParserFunction| f@) =~= fs@.map_values(
            |f: ParserFunction| f@,
        ));
    }
    r
}

impl Clone for ParserFunctionParam {
    fn clone(&self) -> (r: Self)
        ensures
            r@ == self@,
    {
        match self {
            ParserFunctionParam::NoParam => ParserFunctionParam::NoParam,
            ParserFunctionParam::String(s) => ParserFunctionParam::String(s.clone()),
            ParserFunctionParam::ParserFn(f) => ParserFunctionParam::ParserFn(f.clone()),
            ParserFunctionParam::VecParserFn(fs) => ParserFunctionParam::VecParserFn(
                clone_func_vec(fs),
            ),
        }
    }
}

/// The view of an operation list.
pub open spec fn funcs_view(fs: Seq<ParserFunction>) -> Seq<FuncV> {
    fs.map_values(|f: ParserFunction| f@)
}

/// A language-arena entry: an operation reference with its parameter.
pub type ParserFunctionTypeAndParam = (ParserFunctionType, ParserFunctionParam);

/// The view of an optional language-arena entry.
pub open spec fn opt_desc_view(d: Option<ParserFunctionTypeAndParam>) -> Option<(FnTypeV, ParamV)> {
    match d {
        Some(v) => Some(desc_view(v)),
        None => None,
    }
}

/// The view of a language-arena entry.
pub open spec fn desc_view(d: ParserFunctionTypeAndParam) -> (FnTypeV, ParamV) {
    (d.0@, d.1@)
}

/// A copy of a language-arena entry.
pub fn clone_desc(d: &ParserFunctionTypeAndParam) -> (r: ParserFunctionTypeAndParam)
    ensures
        desc_view(r) == desc_view(*d),
{
    (d.0.clone(), d.1.clone())
}

} // verus!
