//! The primitive matchers.
//!
//! Every primitive takes the state by value and returns it by value.  A
//! primitive applied to a failed state is inert; on a match it advances
//! the remaining input past what it consumed, appending the consumed
//! text to the chomp buffer exactly when chomping is on; on a mismatch
//! it clears `success` and touches nothing else.
use vstd::prelude::*;

use crate::func::{funcs_view, ParserFunction};
use crate::model::{char_model, digit_model, eof_model, eols_model, eols_or_eof_model, flag_off,
    gp, grapheme_prefix_len, lemma_first_success_flag, next_model, pw_model, quote_model,
    quote_single_model, space_model};
use crate::state::Parser;
use crate::text::first_grapheme_len;

verus! {

/// Do the first `n` characters of `a` spell exactly `b`?
pub(crate) fn str_prefix_eq(a: &str, b: &str, n: usize) -> (r: bool)
    requires
        n <= a@.len(),
        n == b@.len(),
    ensures
        r <==> a@.take(n as int) == b@,
{
    let mut i: usize = 0;
    while i < n
        invariant
            i <= n,
            n <= a@.len(),
            n == b@.len(),
            forall|j: int| 0 <= j < i ==> a@[j] == b@[j],
        decreases n - i,
    {
        if a.get_char(i) != b.get_char(i) {
            assert(a@.take(n as int)[i as int] != b@[i as int]);
            return false;
        }
        i = i + 1;
    }
    proof {
        assert(a@.take(n as int) =~= b@);
    }
    true
}

/// Are the two texts the same?
pub(crate) fn str_is(a: &str, b: &str) -> (r: bool)
    ensures
        r <==> a@ == b@,
{
    let al = a.unicode_len();
    let bl = b.unicode_len();
    if al != bl {
        return false;
    }
    let eq = str_prefix_eq(a, b, bl);
    proof {
        assert(a@.take(bl as int) =~= a@);
    }
    eq
}

impl Parser {
    /// Matches the exact text `expected` at the head of the input;
    /// anything less than the full word is a failure that consumes
    /// nothing.
    pub fn prim_word(self, expected: &str) -> (r: Parser)
        ensures
            r@ == pw_model(self@, expected@),
            r@.input_remaining.len() <= self@.input_remaining.len(),
    {
        if !self.success {
            return self;
        }
        let mut s = self;
        let elen = expected.unicode_len();
        let ilen = s.input_remaining.as_str().unicode_len();
        if elen <= ilen && str_prefix_eq(s.input_remaining.as_str(), expected, elen) {
            let rest = s.input_remaining.as_str().substring_char(elen, ilen).to_owned();
            if s.chomping {
                s.chomp.append(expected);
            }
            s.input_remaining = rest;
            proof {
                assert(s.input_remaining@ =~= pw_model(self@, expected@).input_remaining);
            }
            s
        } else {
            s.success = false;
            s
        }
    }

    /// A single space, consumed without chomping: the delimiter is no
    /// part of any value being built.
    pub fn prim_space(self) -> (r: Parser)
        ensures
            r@ == space_model(self@),
            r@.input_remaining.len() <= self@.input_remaining.len(),
    {
        let chomping_prev = self.chomping;
        let mut s = self;
        s.chomping = false;
        let mut s = s.prim_word(" ");
        s.chomping = chomping_prev;
        proof {
            reveal_strlit(" ");
            assert(" "@ =~= seq![' ']);
        }
        s
    }

    /// A double quote, consumed without chomping.
    pub fn prim_quote(self) -> (r: Parser)
        ensures
            r@ == quote_model(self@),
            r@.input_remaining.len() <= self@.input_remaining.len(),
    {
        let chomping_prev = self.chomping;
        let mut s = self;
        s.chomping = false;
        let mut s = s.prim_word("\"");
        s.chomping = chomping_prev;
        proof {
            reveal_strlit("\"");
            assert("\""@ =~= seq!['"']);
        }
        s
    }

    /// A single quote, consumed without chomping.
    pub fn prim_quote_single(self) -> (r: Parser)
        ensures
            r@ == quote_single_model(self@),
            r@.input_remaining.len() <= self@.input_remaining.len(),
    {
        let chomping_prev = self.chomping;
        let mut s = self;
        s.chomping = false;
        let mut s = s.prim_word("'");
        s.chomping = chomping_prev;
        proof {
            reveal_strlit("'");
            assert("'"@ =~= seq!['\'']);
        }
        s
    }

    /// Whatever comes next, one extended grapheme cluster; fails only at
    /// the end of the input.
    pub fn prim_next(self) -> (r: Parser)
        ensures
            r@ == next_model(self@),
            r@.input_remaining.len() <= self@.input_remaining.len(),
    {
        if !self.success {
            return self;
        }
        let mut s = self;
        let ilen = s.input_remaining.as_str().unicode_len();
        if ilen == 0 {
            s.success = false;
            return s;
        }
        let g = first_grapheme_len(s.input_remaining.as_str());
        proof {
            assert(g as int == gp(s.input_remaining@));
        }
        if s.chomping {
            let taken = s.input_remaining.as_str().substring_char(0, g);
            s.chomp.append(taken);
        }
        let rest = s.input_remaining.as_str().substring_char(g, ilen).to_owned();
        s.input_remaining = rest;
        proof {
            assert(s.input_remaining@ =~= next_model(self@).input_remaining);
        }
        s
    }

    /// One grapheme cluster that is not a single space; fails on a space
    /// or at the end of the input.
    pub fn prim_char(self) -> (r: Parser)
        ensures
            r@ == char_model(self@),
            r@.input_remaining.len() <= self@.input_remaining.len(),
    {
        if !self.success {
            return self;
        }
        let mut s = self;
        let ilen = s.input_remaining.as_str().unicode_len();
        if ilen == 0 {
            s.success = false;
            return s;
        }
        let g = first_grapheme_len(s.input_remaining.as_str());
        proof {
            assert(g as int == gp(s.input_remaining@));
        }
        if g == 1 && s.input_remaining.as_str().get_char(0) == ' ' {
            s.success = false;
            return s;
        }
        if s.chomping {
            let taken = s.input_remaining.as_str().substring_char(0, g);
            s.chomp.append(taken);
        }
        let rest = s.input_remaining.as_str().substring_char(g, ilen).to_owned();
        s.input_remaining = rest;
        proof {
            assert(s.input_remaining@ =~= char_model(self@).input_remaining);
        }
        s
    }

    /// One ASCII decimal digit.
    pub fn prim_digit(self) -> (r: Parser)
        ensures
            r@ == digit_model(self@),
            r@.input_remaining.len() <= self@.input_remaining.len(),
    {
        if !self.success {
            return self;
        }
        let mut s = self;
        let ilen = s.input_remaining.as_str().unicode_len();
        if ilen == 0 {
            s.success = false;
            return s;
        }
        let c = s.input_remaining.as_str().get_char(0);
        let u = c as u32;
        if u < 48 || u > 57 {
            s.success = false;
            return s;
        }
        if s.chomping {
            let taken = s.input_remaining.as_str().substring_char(0, 1);
            s.chomp.append(taken);
            proof {
                assert(s.chomp@ =~= digit_model(self@).chomp);
            }
        }
        let rest = s.input_remaining.as_str().substring_char(1, ilen).to_owned();
        s.input_remaining = rest;
        proof {
            assert(s.input_remaining@ =~= digit_model(self@).input_remaining);
        }
        s
    }

    /// Succeeds exactly when the input is exhausted; never consumes.
    pub fn prim_eof(self) -> (r: Parser)
        ensures
            r@ == eof_model(self@),
            r@.input_remaining.len() <= self@.input_remaining.len(),
    {
        if self.success && self.input_remaining.as_str().is_empty() {
            self
        } else {
            let mut s = self;
            s.success = false;
            s
        }
    }

    /// One or more `"\r\n"` sequences, or else one or more `"\n"`; the
    /// two alternatives never mix.
    pub fn prim_eols(self) -> (r: Parser)
        ensures
            r@ == eols_model(self@),
            r@.input_remaining.len() <= self@.input_remaining.len(),
        decreases self@.input_remaining.len(), 4nat, 0nat,
    {
        if !self.success {
            return self;
        }
        proof {
            reveal_strlit("\r\n");
            reveal_strlit("\n");
            assert("\r\n"@ =~= seq!['\r', '\n']);
            assert("\n"@ =~= seq!['\n']);
        }
        let w1 = ParserFunction::PrimWord("\r\n".to_owned());
        let newline1 = self.clone().combi_one_or_more_of(&w1);
        if newline1.success {
            return newline1;
        }
        let w2 = ParserFunction::PrimWord("\n".to_owned());
        let newline2 = self.clone().combi_one_or_more_of(&w2);
        if newline2.success {
            return newline2;
        }
        let mut s = self;
        s.success = false;
        s
    }

    /// Line ends, or else the end of the input.
    pub fn prim_eols_or_eof(self) -> (r: Parser)
        ensures
            r@ == eols_or_eof_model(self@),
            r@.input_remaining.len() <= self@.input_remaining.len(),
        decreases self@.input_remaining.len(), 7nat, 0nat,
    {
        if !self.success {
            return self;
        }
        let ghost m = self@;
        let prev_flag = self.display_errors;
        let mut s = self;
        s.display_errors = false;
        let alts = vec![ParserFunction::PrimEols, ParserFunction::PrimEof];
        proof {
            reveal_with_fuel(crate::model::max_fuel, 5);
            assert(funcs_view(alts@) =~= seq![crate::model::FuncV::PrimEols,
                crate::model::FuncV::PrimEof]);
        }
        let mut s = s.combi_first_success_of(&alts);
        s.display_errors = prev_flag;
        proof {
            lemma_first_success_flag(funcs_view(alts@), m);
            assert(s@ == eols_or_eof_model(m));
        }
        s
    }
}

} // verus!
