//! The function parsers — assignment and sum — and the top-level
//! drivers.
use vstd::prelude::*;

use crate::element::{clone_opt_string, ParserElement, ParserElementType};
use crate::func::{funcs_view, ParserFunction};
use crate::model::{apply_model, elems_view, fn_var_assign_model, fn_var_sum_model, max_fuel,
    new_model, parse_alts, parse_model, sum_alts, sum_branch_model, FuncV, ParserModel};
use crate::num::{dec_digits, dec_string, float_bits_add};
use crate::state::Parser;

verus! {

/// The diagnostic text for a state: the parser that failed, the position
/// reached, and an excerpt (at most a hundred characters) of what was
/// left unconsumed.
pub open spec fn error_message_model(m: ParserModel, from: Seq<char>) -> Seq<char> {
    let pos: int = if m.input_remaining.len() <= m.input_original.len() {
        m.input_original.len() - m.input_remaining.len()
    } else {
        0
    };
    let ex_len: int = if m.input_remaining.len() > 100 {
        100
    } else {
        m.input_remaining.len() as int
    };
    "\r\nParser Error at "@ + from + ", position "@ + dec_digits(pos as nat) + ":\r\n"@
        + m.input_remaining.take(ex_len) + "\r\n"@
}

impl Parser {
    /// Builds the diagnostic text for this state.  Printing it — or not,
    /// when `display_errors` is off — is the caller's business: display
    /// is a side channel, no part of parsing.
    pub fn display_error(&self, from: &str) -> (r: String)
        ensures
            r@ == error_message_model(self@, from@),
    {
        let olen = self.input_original.as_str().unicode_len();
        let ilen = self.input_remaining.as_str().unicode_len();
        let pos: usize = if ilen <= olen {
            olen - ilen
        } else {
            0
        };
        let ex_len: usize = if ilen > 100 {
            100
        } else {
            ilen
        };
        let mut r = String::new();
        r.append("\r\nParser Error at ");
        r.append(from);
        r.append(", position ");
        let digits = dec_string(pos as u64);
        r.append(digits.as_str());
        r.append(":\r\n");
        let excerpt = self.input_remaining.as_str().substring_char(0, ex_len);
        r.append(excerpt);
        r.append("\r\n");
        r
    }

    /// The sum function: `"+ "` value `" "` value, or the same between
    /// brackets, where a value is itself a sum, a float or an integer.
    /// The two operand elements are popped and replaced by their fold;
    /// operands of differing types, or strings, cannot be folded, and
    /// the whole attempt fails leaving the state as it was.
    pub fn fn_var_sum(self) -> (r: Parser)
        ensures
            r@ == fn_var_sum_model(self@),
            r@.input_remaining.len() <= self@.input_remaining.len(),
        decreases self@.input_remaining.len(), 1nat, 0nat,
    {
        if !self.success {
            return self;
        }
        let ghost m = self@;
        proof {
            reveal_strlit("+ ");
            reveal_strlit("(+ ");
            reveal_strlit(" ");
            reveal_strlit(")");
            assert("+ "@ =~= seq!['+', ' ']);
            assert("(+ "@ =~= seq!['(', '+', ' ']);
            assert(" "@ =~= seq![' ']);
            assert(")"@ =~= seq![')']);
            reveal_with_fuel(max_fuel, 5);
        }
        let alts = vec![ParserFunction::FnVarSum, ParserFunction::ElFloat, ParserFunction::ElInt];
        proof {
            assert(funcs_view(alts@) =~= sum_alts());
        }
        let mut without_brackets = self.clone().prim_word("+ ");
        if without_brackets.success {
            without_brackets = without_brackets.chomp_clear();
            without_brackets = without_brackets.combi_first_success_of(&alts);
            without_brackets = without_brackets.prim_word(" ");
            without_brackets = without_brackets.chomp_clear();
            without_brackets = without_brackets.combi_first_success_of(&alts);
        }
        proof {
            assert(without_brackets@ == sum_branch_model(m, seq!['+', ' '], false));
        }
        let mut with_brackets = self.clone().prim_word("(+ ");
        if with_brackets.success {
            with_brackets = with_brackets.chomp_clear();
            with_brackets = with_brackets.combi_first_success_of(&alts);
            with_brackets = with_brackets.prim_word(" ");
            with_brackets = with_brackets.chomp_clear();
            with_brackets = with_brackets.combi_first_success_of(&alts);
            with_brackets = with_brackets.prim_word(")");
        }
        proof {
            assert(with_brackets@ == sum_branch_model(m, seq!['(', '+', ' '], true));
        }
        let s: Parser;
        if without_brackets.success {
            s = without_brackets;
        } else if with_brackets.success {
            s = with_brackets;
        } else {
            let mut o = self;
            o.success = false;
            return o;
        }
        let variable2_el_option = s.clone().output_arena_get_nth_last_child_element(0);
        let variable1_el_option = s.clone().output_arena_get_nth_last_child_element(1);
        match (variable1_el_option, variable2_el_option) {
            (Some(variable1_el), Some(variable2_el)) => {
                match (variable1_el.el_type, variable2_el.el_type) {
                    (Some(el1_type), Some(el2_type)) => {
                        if el1_type == el2_type {
                            let mut el = ParserElement::new();
                            match el1_type {
                                ParserElementType::Int64 => {
                                    match (variable1_el.int64, variable2_el.int64) {
                                        (Some(val1), Some(val2)) => {
                                            el.el_type = Some(ParserElementType::Int64);
                                            el.int64 = Some(val1.wrapping_add(val2));
                                        },
                                        _ => {
                                            let mut o = self;
                                            o.success = false;
                                            return o;
                                        },
                                    }
                                },
                                ParserElementType::Str => {
                                    let mut o = self;
                                    o.success = false;
                                    return o;
                                },
                                _ => {
                                    match (
                                        variable1_el.float64_bits,
                                        variable2_el.float64_bits,
                                    ) {
                                        (Some(val1), Some(val2)) => {
                                            el.el_type = Some(ParserElementType::Float64);
                                            el.float64_bits = Some(float_bits_add(val1, val2));
                                        },
                                        _ => {
                                            let mut o = self;
                                            o.success = false;
                                            return o;
                                        },
                                    }
                                },
                            }
                            let ghost sout = s@.output;
                            let ghost n = sout.len() as int;
                            let s = s.output_arena_remove_nth_last_child_element(0);
                            let s = s.output_arena_remove_nth_last_child_element(0);
                            let s = s.output_arena_append_element(el);
                            let s = s.chomp_clear();
                            proof {
                                assert(sout.remove(n - 1) =~= sout.take(n - 1));
                                assert(sout.take(n - 1).remove(n - 2) =~= sout.take(n - 2));
                                assert(s@.output =~= fn_var_sum_model(m).output);
                                assert(s@ == fn_var_sum_model(m));
                            }
                            s
                        } else {
                            let mut o = self;
                            o.success = false;
                            o
                        }
                    },
                    _ => s,
                }
            },
            _ => {
                let mut o = self;
                o.success = false;
                o
            },
        }
    }

    /// The assignment statement: `"= "`, a variable name, a value (a
    /// sum, a float or an integer, tried in that order), then line ends
    /// or the end of input.  The name and value elements are popped and
    /// their combination is upserted: an existing binding of the same
    /// name is overwritten in place, so the arena never holds two
    /// elements for one name.
    pub fn fn_var_assign(self) -> (r: Parser)
        ensures
            r@ == fn_var_assign_model(self@),
            r@.input_remaining.len() <= self@.input_remaining.len(),
        decreases self@.input_remaining.len(), 8nat, 0nat,
    {
        if !self.success {
            return self;
        }
        let ghost m = self@;
        proof {
            reveal_strlit("= ");
            assert("= "@ =~= seq!['=', ' ']);
            reveal_with_fuel(max_fuel, 5);
        }
        let mut temp_self = self.clone().prim_word("= ");
        if !temp_self.success {
            return temp_self;
        }
        temp_self = temp_self.chomp_clear();
        temp_self = temp_self.el_var();
        let alts = vec![ParserFunction::FnVarSum, ParserFunction::ElFloat, ParserFunction::ElInt];
        proof {
            assert(funcs_view(alts@) =~= sum_alts());
        }
        temp_self = temp_self.combi_first_success_of(&alts);
        temp_self = temp_self.prim_eols_or_eof();
        if !temp_self.success {
            return temp_self;
        }
        let variable_el_option = temp_self.clone().output_arena_get_nth_last_child_element(1);
        let value_el_option = temp_self.clone().output_arena_get_nth_last_child_element(0);
        match (variable_el_option, value_el_option) {
            (Some(variable_el), Some(mut value_el)) => {
                value_el.el_type = Some(ParserElementType::Var);
                value_el.var_name = clone_opt_string(&variable_el.var_name);
                let name_opt = clone_opt_string(&variable_el.var_name);
                let ghost tout = temp_self@.output;
                let ghost n = tout.len() as int;
                let mut t = temp_self.output_arena_remove_nth_last_child_element(0);
                t = t.output_arena_remove_nth_last_child_element(0);
                proof {
                    assert(tout.remove(n - 1) =~= tout.take(n - 1));
                    assert(tout.take(n - 1).remove(n - 2) =~= tout.take(n - 2));
                }
                match name_opt {
                    Some(nm) => {
                        match crate::arena::find_var_index(&t.output_arena, nm.as_str()) {
                            Some(i) => {
                                let ghost before = t@;
                                let ghost elv = value_el@;
                                t.output_arena.set(i, value_el);
                                proof {
                                    assert(elems_view(t.output_arena@) =~= before.output.update(
                                        i as int,
                                        elv,
                                    ));
                                }
                            },
                            None => {
                                t = t.output_arena_append_element(value_el);
                            },
                        }
                    },
                    None => {
                        t = t.output_arena_append_element(value_el);
                    },
                }
                let t = t.chomp_clear();
                proof {
                    assert(t@.output =~= fn_var_assign_model(m).output);
                    assert(t@ == fn_var_assign_model(m));
                }
                t
            },
            _ => temp_self,
        }
    }

    /// Runs the program parser: assignment statements, separated by line
    /// ends, until the input is exhausted or no statement parser
    /// matches.  On failure the unmatched remainder is left in
    /// `input_remaining` for diagnostics.
    pub fn parse(self) -> (r: Parser)
        ensures
            r@ == parse_model(self@),
            r@.input_remaining.len() <= self@.input_remaining.len(),
        decreases self@.input_remaining.len(),
    {
        if !self.success {
            return self;
        }
        let lb = self.input_remaining.as_str().unicode_len();
        if lb == 0 {
            return self;
        }
        proof {
            reveal_with_fuel(max_fuel, 5);
        }
        let alts = vec![ParserFunction::FnVarAssign, ParserFunction::PrimEols];
        proof {
            assert(funcs_view(alts@) =~= parse_alts());
        }
        let s = self.combi_first_success_of(&alts);
        if !s.success {
            return s;
        }
        let la = s.input_remaining.as_str().unicode_len();
        if la >= lb {
            return s;
        }
        s.parse()
    }

    /// Builds a parser over `input_string` and runs the one named
    /// operation on it.
    pub fn new_and_parse(input_string: &str, func: &ParserFunction) -> (r: Parser)
        ensures
            r@ == apply_model(func@, new_model(input_string@)),
    {
        let new_parser = Parser::new(input_string);
        new_parser.apply(func)
    }
}

} // verus!
