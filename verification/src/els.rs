//! The element parsers: literals and variable names.
use vstd::prelude::*;

use crate::element::{ParserElement, ParserElementType};
use crate::func::{funcs_view, ParserFunction};
use crate::model::{capped, el_float_model, el_int_model, el_str_model, el_var_model, flag_off,
    float_bits_of, max_fuel, FuncV};
use crate::num::{float_bits_from_lit, parse_i64};
use crate::state::Parser;

verus! {

impl Parser {
    /// A string literal: an opening quote, anything up to the closing
    /// quote (or the end of the input), appended as a `Str` element.
    /// The quotes are consumed without chomping, so the value holds the
    /// text between them alone.
    pub fn el_str(self) -> (r: Parser)
        ensures
            r@ == el_str_model(self@),
            r@.input_remaining.len() <= self@.input_remaining.len(),
        decreases self@.input_remaining.len(), 6nat, 0nat,
    {
        if !self.success {
            return self;
        }
        let ghost m = self@;
        let prev_flag = self.display_errors;
        let mut s = self;
        s.display_errors = false;
        proof {
            reveal_with_fuel(max_fuel, 5);
        }
        let s = s.prim_quote();
        proof {
            assert(s@ == capped(m, crate::model::quote_model(flag_off(m))));
        }
        let alts = vec![ParserFunction::PrimQuote, ParserFunction::PrimNext];
        proof {
            assert(funcs_view(alts@) =~= seq![FuncV::PrimQuote, FuncV::PrimNext]);
        }
        let mut s = s.combi_until_first_do_second(&alts);
        s.display_errors = prev_flag;
        if s.success {
            let mut el = ParserElement::new();
            el.el_type = Some(ParserElementType::Str);
            el.string = Some(s.chomp.clone());
            let s = s.output_arena_append_element(el);
            let s = s.chomp_clear();
            s
        } else {
            s
        }
    }

    /// An integer literal: an optional minus sign and one or more
    /// digits, appended as an `Int64` element holding the value.  A
    /// value that does not fit in 64 bits is a failure of this parser.
    pub fn el_int(self) -> (r: Parser)
        ensures
            r@ == el_int_model(self@),
            r@.input_remaining.len() <= self@.input_remaining.len(),
        decreases self@.input_remaining.len(), 4nat, 0nat,
    {
        if !self.success {
            return self;
        }
        let ghost m = self@;
        let prev_flag = self.display_errors;
        let mut s = self;
        s.display_errors = false;
        proof {
            reveal_strlit("-");
            assert("-"@ =~= seq!['-']);
        }
        let minus = ParserFunction::PrimWord("-".to_owned());
        let s = s.combi_optional(&minus);
        proof {
            assert(s@ == capped(m, crate::model::optional_model(
                FuncV::PrimWord(seq!['-']),
                flag_off(m),
            )));
        }
        let digit = ParserFunction::PrimDigit;
        let mut s = s.combi_one_or_more_of(&digit);
        s.display_errors = prev_flag;
        if s.success {
            match parse_i64(s.chomp.as_str()) {
                Some(val) => {
                    let mut el = ParserElement::new();
                    el.el_type = Some(ParserElementType::Int64);
                    el.int64 = Some(val);
                    let s = s.output_arena_append_element(el);
                    let s = s.chomp_clear();
                    s
                },
                None => {
                    let mut s = s;
                    s.success = false;
                    s
                },
            }
        } else {
            s
        }
    }

    /// A float literal: an optional minus sign, digits, a point, digits,
    /// appended as a `Float64` element holding the IEEE 754 binary64 bit
    /// pattern the literal denotes.
    pub fn el_float(self) -> (r: Parser)
        ensures
            r@ == el_float_model(self@),
            r@.input_remaining.len() <= self@.input_remaining.len(),
        decreases self@.input_remaining.len(), 4nat, 0nat,
    {
        if !self.success {
            return self;
        }
        let ghost m = self@;
        let prev_flag = self.display_errors;
        let mut s = self;
        s.display_errors = false;
        proof {
            reveal_strlit("-");
            reveal_strlit(".");
            assert("-"@ =~= seq!['-']);
            assert("."@ =~= seq!['.']);
        }
        let minus = ParserFunction::PrimWord("-".to_owned());
        let s = s.combi_optional(&minus);
        proof {
            assert(s@ == capped(m, crate::model::optional_model(
                FuncV::PrimWord(seq!['-']),
                flag_off(m),
            )));
        }
        let digit = ParserFunction::PrimDigit;
        let s = s.combi_one_or_more_of(&digit);
        let s = s.prim_word(".");
        let mut s = s.combi_one_or_more_of(&digit);
        s.display_errors = prev_flag;
        if s.success {
            let ghost lit = s@.chomp;
            let bits = float_bits_from_lit(s.chomp.as_str());
            proof {
                assert(bits == float_bits_of(lit));
            }
            let mut el = ParserElement::new();
            el.el_type = Some(ParserElementType::Float64);
            el.float64_bits = Some(bits);
            let s = s.output_arena_append_element(el);
            let s = s.chomp_clear();
            s
        } else {
            s
        }
    }

    /// A variable name: one or more non-space grapheme clusters and a
    /// mandatory trailing space, appended as a `Var` element carrying
    /// the name (the delimiting space excluded) and no value yet.
    pub fn el_var(self) -> (r: Parser)
        ensures
            r@ == el_var_model(self@),
            r@.input_remaining.len() <= self@.input_remaining.len(),
        decreases self@.input_remaining.len(), 4nat, 0nat,
    {
        if !self.success {
            return self;
        }
        let ghost m = self@;
        proof {
            reveal_strlit(" ");
            assert(" "@ =~= seq![' ']);
        }
        let chars = ParserFunction::PrimChar;
        let s = self.combi_one_or_more_of(&chars);
        let s = s.prim_word(" ");
        if s.success {
            let cl = s.chomp.as_str().unicode_len();
            let end: usize = if cl >= 1 {
                cl - 1
            } else {
                0
            };
            let name = s.chomp.as_str().substring_char(0, end).to_owned();
            let mut el = ParserElement::new();
            el.el_type = Some(ParserElementType::Var);
            el.var_name = Some(name);
            let s = s.output_arena_append_element(el);
            let s = s.chomp_clear();
            s
        } else {
            s
        }
    }
}

} // verus!
