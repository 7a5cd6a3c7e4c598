//! The combinators, and the dispatch that lets an operation be applied
//! by name.
use vstd::prelude::*;

use crate::func::{funcs_view, ParserFunction};
use crate::model::{apply_model, first_success_model, flag_off, fuel, lemma_max_fuel_bound,
    max_fuel, one_or_more_model, optional_model, repeat_model, until_loop_model, until_model,
    zero_or_more_model, FuncV};
use crate::state::Parser;

verus! {

impl Parser {
    /// Runs the named operation on the state.
    pub fn apply(self, f: &ParserFunction) -> (r: Parser)
        ensures
            r@ == apply_model(f@, self@),
            r@.input_remaining.len() <= self@.input_remaining.len(),
        decreases self@.input_remaining.len(), fuel(f@), 0nat,
    {
        match f {
            ParserFunction::PrimNext => self.prim_next(),
            ParserFunction::PrimSpace => self.prim_space(),
            ParserFunction::PrimQuote => self.prim_quote(),
            ParserFunction::PrimQuoteSingle => self.prim_quote_single(),
            ParserFunction::PrimWord(w) => self.prim_word(w.as_str()),
            ParserFunction::PrimChar => self.prim_char(),
            ParserFunction::PrimDigit => self.prim_digit(),
            ParserFunction::PrimEols => self.prim_eols(),
            ParserFunction::PrimEof => self.prim_eof(),
            ParserFunction::PrimEolsOrEof => self.prim_eols_or_eof(),
            ParserFunction::ElStr => self.el_str(),
            ParserFunction::ElInt => self.el_int(),
            ParserFunction::ElFloat => self.el_float(),
            ParserFunction::ElVar => self.el_var(),
            ParserFunction::FnVarAssign => self.fn_var_assign(),
            ParserFunction::FnVarSum => self.fn_var_sum(),
            ParserFunction::LangPrimNext => self.lang_prim_next(),
            ParserFunction::LangPrimQuote => self.lang_prim_quote(),
            ParserFunction::LangPrimChar => self.lang_prim_char(),
            ParserFunction::LangPrimDigit => self.lang_prim_digit(),
            ParserFunction::LangPrimEols => self.lang_prim_eols(),
            ParserFunction::LangPrimEof => self.lang_prim_eof(),
            ParserFunction::LangPrimEolsOrEof => self.lang_prim_eols_or_eof(),
            ParserFunction::LangPrimWord => self.lang_prim_word(),
        }
    }

    /// The bare repetition loop shared by the repetition combinators:
    /// apply `func` while it succeeds and moves the input forward.
    fn repeat_apply(self, func: &ParserFunction) -> (r: Parser)
        ensures
            r@ == repeat_model(func@, self@),
            r@.input_remaining.len() <= self@.input_remaining.len(),
        decreases self@.input_remaining.len(), fuel(func@) + 1, 0nat,
    {
        if !self.success {
            return self;
        }
        let lb = self.input_remaining.as_str().unicode_len();
        let s = self.apply(func);
        if !s.success {
            return s;
        }
        let la = s.input_remaining.as_str().unicode_len();
        if la >= lb {
            return s;
        }
        s.repeat_apply(func)
    }

    /// One or more repetitions of `func`; the attempt counts as a match
    /// exactly when the chomp buffer grew.  Chomp growth, not the number
    /// of repetitions, is what decides, and the two differ when chomping
    /// is off.
    pub fn combi_one_or_more_of(self, func: &ParserFunction) -> (r: Parser)
        ensures
            r@ == one_or_more_model(func@, self@),
            r@.input_remaining.len() <= self@.input_remaining.len(),
        decreases self@.input_remaining.len(), fuel(func@) + 2, 0nat,
    {
        if !self.success {
            return self;
        }
        let chomp_before = self.chomp.clone();
        let prev_flag = self.display_errors;
        let mut s = self;
        s.display_errors = false;
        let mut s = s.repeat_apply(func);
        s.display_errors = prev_flag;
        if s.chomp == chomp_before {
            s.success = false;
        } else {
            s.success = true;
        }
        s
    }

    /// Zero or more repetitions of `func`; always a match.
    pub fn combi_zero_or_more_of(self, func: &ParserFunction) -> (r: Parser)
        ensures
            r@ == zero_or_more_model(func@, self@),
            r@.input_remaining.len() <= self@.input_remaining.len(),
        decreases self@.input_remaining.len(), fuel(func@) + 2, 0nat,
    {
        if !self.success {
            return self;
        }
        let prev_flag = self.display_errors;
        let mut s = self;
        s.display_errors = false;
        let mut s = s.repeat_apply(func);
        s.display_errors = prev_flag;
        s.success = true;
        s
    }

    /// One attempt at `func`, then success regardless of its outcome.
    /// State changes of a failed attempt are not rolled back; only the
    /// success flag is reset.
    pub fn combi_optional(self, func: &ParserFunction) -> (r: Parser)
        ensures
            r@ == optional_model(func@, self@),
            r@.input_remaining.len() <= self@.input_remaining.len(),
        decreases self@.input_remaining.len(), fuel(func@) + 1, 0nat,
    {
        if !self.success {
            return self;
        }
        let mut s = self.apply(func);
        s.success = true;
        s
    }

    /// Tries each alternative, in order, on a clone of the state with
    /// error display suppressed; the first clone that succeeds wins.  If
    /// none succeeds the original state is returned with `success`
    /// cleared.  The order is the tie-break for ambiguous grammars.
    pub fn combi_first_success_of(self, funcs: &Vec<ParserFunction>) -> (r: Parser)
        ensures
            r@ == first_success_model(funcs_view(funcs@), self@),
            r@.input_remaining.len() <= self@.input_remaining.len(),
        decreases self@.input_remaining.len(), max_fuel(funcs_view(funcs@)) + 1, 0nat,
    {
        if !self.success {
            return self;
        }
        let ghost views = funcs_view(funcs@);
        proof {
            assert(views.skip(0) =~= views);
        }
        let mut i: usize = 0;
        while i < funcs.len()
            invariant
                i <= funcs@.len(),
                views == funcs_view(funcs@),
                self@.success,
                first_success_model(views, self@) == first_success_model(
                    views.skip(i as int),
                    self@,
                ),
            decreases funcs@.len() - i,
        {
            let mut new_self = self.clone();
            new_self.display_errors = false;
            proof {
                lemma_max_fuel_bound(views, i as int);
                assert(views.skip(i as int)[0] == views[i as int]);
            }
            let ghost flagged = new_self@;
            let mut new_self = new_self.apply(&funcs[i]);
            new_self.display_errors = self.display_errors;
            proof {
                assert(flagged == flag_off(self@));
                assert(views.skip(i as int).skip(1) =~= views.skip(i + 1));
            }
            if new_self.success {
                return new_self;
            }
            i = i + 1;
        }
        proof {
            assert(views.skip(funcs@.len() as int) =~= Seq::<FuncV>::empty());
        }
        let mut s = self;
        s.success = false;
        s
    }

    /// The scanning loop of `combi_until_first_do_second`.
    fn until_loop_apply(self, first_and_second: &Vec<ParserFunction>) -> (r: Parser)
        ensures
            r@ == until_loop_model(funcs_view(first_and_second@), self@),
            r@.input_remaining.len() <= self@.input_remaining.len(),
        decreases self@.input_remaining.len(), max_fuel(funcs_view(first_and_second@)) + 2, 0nat,
    {
        if !self.success {
            return self;
        }
        let lb = self.input_remaining.as_str().unicode_len();
        let s = self.combi_first_success_of(first_and_second);
        if !s.success {
            return s;
        }
        let la = s.input_remaining.as_str().unicode_len();
        if la >= lb {
            return s;
        }
        s.until_loop_apply(first_and_second)
    }

    /// Applies the first alternative that matches, over and over, until
    /// none does; then forces success.  Used to scan forward until a
    /// terminator.
    pub fn combi_until_first_do_second(self, first_and_second: &Vec<ParserFunction>) -> (r: Parser)
        ensures
            r@ == until_model(funcs_view(first_and_second@), self@),
            r@.input_remaining.len() <= self@.input_remaining.len(),
        decreases self@.input_remaining.len(), max_fuel(funcs_view(first_and_second@)) + 3, 0nat,
    {
        if !self.success {
            return self;
        }
        let prev_flag = self.display_errors;
        let mut s = self;
        s.display_errors = false;
        let mut s = s.until_loop_apply(first_and_second);
        s.display_errors = prev_flag;
        s.success = true;
        s
    }
}

} // verus!
