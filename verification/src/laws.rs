//! Laws of the engine, proved over the model.
//!
//! These proof functions state the properties the engine promises as a
//! whole — fail-propagation, rejection of malformed statements, the
//! symbol-table invariant, and the agreement of the two sum forms — and
//! prove them from the model definitions alone.
use vstd::prelude::*;

use crate::element::ParserElementType;
use crate::model::{apply_model, capped, chomp_cleared, el_float_model, el_int_model,
    el_var_model, empty_elem, eols_model, eols_or_eof_model, failed, find_var_idx,
    find_var_idx_from, first_success_model, flag_off, flag_restore, float_add_bits, float_bits_of,
    fn_var_assign_model, fn_var_sum_model, int_lit_val, is_digit_char, is_int_lit, nth_last,
    one_or_more_model, optional_model, parse_alts, parse_model, pw_model, repeat_model, sum_alts,
    sum_branch_model, sum_fold, upsert, ElemV, FuncV, ParserModel,
};

verus! {

// ------------------------------------------------------------------
// fail-propagation
// ------------------------------------------------------------------

/// Once `success` is false every operation is inert: it passes the
/// state through unchanged.  Failure propagates by pass-through, not by
/// exception.
pub proof fn law_failure_propagates(f: FuncV, m: ParserModel)
    requires
        !m.success,
    ensures
        apply_model(f, m) == m,
        parse_model(m) == m,
{
    match f {
        FuncV::PrimNext => assert(apply_model(f, m) == m),
        FuncV::PrimSpace => assert(apply_model(f, m) == m),
        FuncV::PrimQuote => assert(apply_model(f, m) == m),
        FuncV::PrimQuoteSingle => assert(apply_model(f, m) == m),
        FuncV::PrimWord(_) => assert(apply_model(f, m) == m),
        FuncV::PrimChar => assert(apply_model(f, m) == m),
        FuncV::PrimDigit => assert(apply_model(f, m) == m),
        FuncV::PrimEols => assert(apply_model(f, m) == m),
        FuncV::PrimEof => assert(apply_model(f, m) == m),
        FuncV::PrimEolsOrEof => assert(apply_model(f, m) == m),
        FuncV::ElStr => assert(apply_model(f, m) == m),
        FuncV::ElInt => assert(apply_model(f, m) == m),
        FuncV::ElFloat => assert(apply_model(f, m) == m),
        FuncV::ElVar => assert(apply_model(f, m) == m),
        FuncV::FnVarAssign => assert(apply_model(f, m) == m),
        FuncV::FnVarSum => assert(apply_model(f, m) == m),
        FuncV::LangPrimNext => assert(apply_model(f, m) == m),
        FuncV::LangPrimQuote => assert(apply_model(f, m) == m),
        FuncV::LangPrimChar => assert(apply_model(f, m) == m),
        FuncV::LangPrimDigit => assert(apply_model(f, m) == m),
        FuncV::LangPrimEols => assert(apply_model(f, m) == m),
        FuncV::LangPrimEof => assert(apply_model(f, m) == m),
        FuncV::LangPrimEolsOrEof => assert(apply_model(f, m) == m),
        FuncV::LangPrimWord => assert(apply_model(f, m) == m),
    }
}

// ------------------------------------------------------------------
// rejection of malformed statements
// ------------------------------------------------------------------

/// A statement that does not open with `"= "` — a leading space, for
/// instance — is rejected outright: the assignment parser fails and the
/// state is exactly as it was, but for the cleared success flag.
pub proof fn law_assign_rejects_bad_opening(m: ParserModel)
    requires
        m.success,
        m.input_remaining.len() < 2 || m.input_remaining.take(2) != seq!['=', ' '],
    ensures
        fn_var_assign_model(m) == failed(m),
{
}

/// A sum that opens with neither `"+ "` nor `"(+ "` is rejected
/// outright, leaving the state as it was but for the success flag.
pub proof fn law_sum_rejects_bad_opening(m: ParserModel)
    requires
        m.success,
        m.input_remaining.len() == 0 || (m.input_remaining[0] != '+' && m.input_remaining[0]
            != '('),
    ensures
        fn_var_sum_model(m) == failed(m),
{
    let wb = sum_branch_model(m, seq!['+', ' '], false);
    let br = sum_branch_model(m, seq!['(', '+', ' '], true);
    if m.input_remaining.len() >= 2 {
        assert(m.input_remaining.take(2)[0] == m.input_remaining[0]);
    }
    if m.input_remaining.len() >= 3 {
        assert(m.input_remaining.take(3)[0] == m.input_remaining[0]);
    }
    assert(!wb.success);
    assert(!br.success);
}

// ------------------------------------------------------------------
// which operations touch the output arena
// ------------------------------------------------------------------

/// The repetition loop of a word or digit matcher never touches the
/// output arena.
proof fn lemma_repeat_keeps_output(f: FuncV, m: ParserModel)
    requires
        f is PrimWord || f is PrimDigit || f is PrimChar,
    ensures
        repeat_model(f, m).output == m.output,
    decreases m.input_remaining.len(),
{
    if m.success {
        let m2 = apply_model(f, m);
        assert(m2.output == m.output);
        if m2.success && m2.input_remaining.len() < m.input_remaining.len() {
            lemma_repeat_keeps_output(f, m2);
        }
    }
}

/// Line-end matching never touches the output arena.
proof fn lemma_eols_keeps_output(m: ParserModel)
    ensures
        eols_model(m).output == m.output,
{
    lemma_repeat_keeps_output(FuncV::PrimWord(seq!['\r', '\n']), flag_off(m));
    lemma_repeat_keeps_output(FuncV::PrimWord(seq!['\n']), flag_off(m));
}

/// Line-ends-or-end-of-input never touches the output arena.
proof fn lemma_eols_or_eof_keeps_output(m: ParserModel)
    ensures
        eols_or_eof_model(m).output == m.output,
{
    if m.success {
        reveal_with_fuel(first_success_model, 5);
        let fs0 = seq![FuncV::PrimEols, FuncV::PrimEof];
        assert(fs0[0] == FuncV::PrimEols);
        let r0 = flag_restore(m, apply_model(FuncV::PrimEols, flag_off(m)));
        lemma_eols_keeps_output(flag_off(m));
        assert(r0.output == m.output);
        if !r0.success {
            let fs1 = fs0.skip(1);
            assert(fs1 =~= seq![FuncV::PrimEof]);
            assert(fs1[0] == FuncV::PrimEof);
            let r1 = flag_restore(m, apply_model(FuncV::PrimEof, flag_off(m)));
            assert(r1.output == m.output);
            if !r1.success {
                assert(fs1.skip(1) =~= Seq::<FuncV>::empty());
                assert(first_success_model(fs1.skip(1), m) == failed(m));
            }
        }
    }
}

// ------------------------------------------------------------------
// what a successful value parse appends
// ------------------------------------------------------------------

/// Is `el` a numeric element without a name: the only kind a value
/// parse can leave behind?
pub open spec fn is_numeric_value_el(el: ElemV) -> bool {
    (el.el_type == Some(ParserElementType::Int64) || el.el_type == Some(
        ParserElementType::Float64,
    )) && el.var_name is None
}

/// A successful integer element parse appends exactly one nameless
/// `Int64` element.
proof fn lemma_el_int_appends(m: ParserModel)
    requires
        el_int_model(m).success,
    ensures
        exists|el: ElemV|
            #[trigger] is_numeric_value_el(el) && el_int_model(m).output == m.output.push(el),
{
    let m0 = flag_off(m);
    let m1 = capped(m, optional_model(FuncV::PrimWord(seq!['-']), m0));
    lemma_repeat_keeps_output(FuncV::PrimWord(seq!['-']), m0);
    let m2 = capped(m, one_or_more_model(FuncV::PrimDigit, m1));
    lemma_repeat_keeps_output(FuncV::PrimDigit, flag_off(m1));
    let m3 = flag_restore(m, m2);
    assert(m3.output == m.output);
    let el = el_int_model(m).output.last();
    assert(is_numeric_value_el(el));
    assert(el_int_model(m).output == m.output.push(el));
}

/// A successful float element parse appends exactly one nameless
/// `Float64` element.
proof fn lemma_el_float_appends(m: ParserModel)
    requires
        el_float_model(m).success,
    ensures
        exists|el: ElemV|
            #[trigger] is_numeric_value_el(el) && el_float_model(m).output == m.output.push(el),
{
    let m0 = flag_off(m);
    let m1 = capped(m, optional_model(FuncV::PrimWord(seq!['-']), m0));
    lemma_repeat_keeps_output(FuncV::PrimWord(seq!['-']), m0);
    let m2 = capped(m, one_or_more_model(FuncV::PrimDigit, m1));
    lemma_repeat_keeps_output(FuncV::PrimDigit, flag_off(m1));
    let m3 = capped(m, pw_model(m2, seq!['.']));
    let m4 = capped(m, one_or_more_model(FuncV::PrimDigit, m3));
    lemma_repeat_keeps_output(FuncV::PrimDigit, flag_off(m3));
    let m5 = flag_restore(m, m4);
    assert(m5.output == m.output);
    let el = el_float_model(m).output.last();
    assert(is_numeric_value_el(el));
    assert(el_float_model(m).output == m.output.push(el));
}

/// A successful sum appends exactly one nameless numeric element: the
/// fold of its two operands.  In particular a string is never summed —
/// operands always carry the same numeric type, or the sum fails.
pub proof fn law_sum_appends_numeric(m: ParserModel)
    requires
        fn_var_sum_model(m).success,
    ensures
        exists|el: ElemV|
            #[trigger] is_numeric_value_el(el) && fn_var_sum_model(m).output == m.output.push(el),
    decreases m.input_remaining.len(), 1nat, 0nat,
{
    let wb = sum_branch_model(m, seq!['+', ' '], false);
    let br = sum_branch_model(m, seq!['(', '+', ' '], true);
    let s = if wb.success {
        wb
    } else {
        br
    };
    assert(s.success);
    if wb.success {
        lemma_sum_branch_appends(m, seq!['+', ' '], false);
    } else {
        lemma_sum_branch_appends(m, seq!['(', '+', ' '], true);
    }
    let (e1, e2) = choose|e1: ElemV, e2: ElemV|
        is_value_pair(e1, e2) && s.output == m.output.push(e1).push(e2);
    assert(nth_last(s.output, 0) == Some(e2)) by {
        assert(s.output[s.output.len() - 1] == e2);
    }
    assert(nth_last(s.output, 1) == Some(e1)) by {
        assert(s.output[s.output.len() - 2] == e1);
    }
    match sum_fold(e1, e2) {
        Some(el) => {
            assert(is_numeric_value_el(el));
            assert(s.output.take(s.output.len() - 2) =~= m.output);
            assert(fn_var_sum_model(m).output == m.output.push(el));
        },
        None => {
            assert(!fn_var_sum_model(m).success);
        },
    }
}

/// Are `e1` and `e2` elements a pair of value parses can leave?
pub open spec fn is_value_pair(e1: ElemV, e2: ElemV) -> bool {
    is_numeric_value_el(e1) && is_numeric_value_el(e2)
}

/// A successful value alternative — sum, float or integer — appends
/// exactly one nameless numeric element.
proof fn lemma_value_alts_append(m: ParserModel)
    requires
        first_success_model(sum_alts(), m).success,
    ensures
        exists|el: ElemV|
            #[trigger] is_numeric_value_el(el) && first_success_model(sum_alts(), m).output
                == m.output.push(el),
    decreases m.input_remaining.len(), 7nat, 0nat,
{
    assert(m.success);
    reveal_with_fuel(first_success_model, 5);
    let r0 = flag_restore(m, apply_model(FuncV::FnVarSum, flag_off(m)));
    assert(sum_alts()[0] == FuncV::FnVarSum);
    if r0.success {
        assert(first_success_model(sum_alts(), m) == r0);
        law_sum_appends_numeric(flag_off(m));
        let el = choose|el: ElemV|
            is_numeric_value_el(el) && fn_var_sum_model(flag_off(m)).output == flag_off(
                m,
            ).output.push(el);
        assert(r0.output == m.output.push(el));
    } else {
        let fs1 = sum_alts().skip(1);
        assert(fs1 =~= seq![FuncV::ElFloat, FuncV::ElInt]);
        assert(fs1[0] == FuncV::ElFloat);
        let r1 = flag_restore(m, apply_model(FuncV::ElFloat, flag_off(m)));
        if r1.success {
            assert(first_success_model(sum_alts(), m) == r1);
            lemma_el_float_appends(flag_off(m));
            let el = choose|el: ElemV|
                is_numeric_value_el(el) && el_float_model(flag_off(m)).output == flag_off(
                    m,
                ).output.push(el);
            assert(r1.output == m.output.push(el));
        } else {
            let fs2 = fs1.skip(1);
            assert(fs2 =~= seq![FuncV::ElInt]);
            assert(fs2[0] == FuncV::ElInt);
            let r2 = flag_restore(m, apply_model(FuncV::ElInt, flag_off(m)));
            if r2.success {
                assert(first_success_model(sum_alts(), m) == r2);
                lemma_el_int_appends(flag_off(m));
                let el = choose|el: ElemV|
                    is_numeric_value_el(el) && el_int_model(flag_off(m)).output == flag_off(
                        m,
                    ).output.push(el);
                assert(r2.output == m.output.push(el));
            } else {
                assert(fs2.skip(1) =~= Seq::<FuncV>::empty());
                assert(first_success_model(fs2.skip(1), m) == failed(m));
                assert(!first_success_model(sum_alts(), m).success);
            }
        }
    }
}

/// A successful sum branch leaves exactly its two operand elements on
/// the arena, both nameless and numeric.
proof fn lemma_sum_branch_appends(m: ParserModel, open_tok: Seq<char>, bracket: bool)
    requires
        sum_branch_model(m, open_tok, bracket).success,
    ensures
        exists|e1: ElemV, e2: ElemV|
            #[trigger] is_value_pair(e1, e2) && sum_branch_model(m, open_tok, bracket).output
                == m.output.push(e1).push(e2),
    decreases m.input_remaining.len(), 0nat, 0nat,
{
    let a = pw_model(m, open_tok);
    let b = chomp_cleared(a);
    let c = capped(b, first_success_model(sum_alts(), b));
    let d = capped(b, pw_model(c, seq![' ']));
    let e = chomp_cleared(d);
    let f = capped(b, first_success_model(sum_alts(), e));
    assert(a.success && c.success && f.success);
    lemma_value_alts_append(b);
    lemma_value_alts_append(e);
    let e1 = choose|el: ElemV| is_numeric_value_el(el) && c.output == b.output.push(el);
    let e2 = choose|el: ElemV| is_numeric_value_el(el) && f.output == e.output.push(el);
    assert(is_value_pair(e1, e2));
    assert(sum_branch_model(m, open_tok, bracket).output == m.output.push(e1).push(e2));
}

// ------------------------------------------------------------------
// the symbol-table invariant
// ------------------------------------------------------------------

/// At most one element of the arena carries any given variable name.
pub open spec fn var_names_unique(out: Seq<ElemV>) -> bool {
    forall|i: int, j: int|
        0 <= i < j < out.len() && (#[trigger] out[i]).var_name is Some ==> out[i].var_name != (
        #[trigger] out[j]).var_name
}

/// When the search for a name finds nothing, no element carries it.
proof fn lemma_find_var_none(out: Seq<ElemV>, name: Seq<char>, i: int)
    requires
        0 <= i <= out.len(),
        find_var_idx_from(out, name, i) is None,
    ensures
        forall|j: int| i <= j < out.len() ==> (#[trigger] out[j]).var_name != Some(name),
    decreases out.len() - i,
{
    if i < out.len() {
        lemma_find_var_none(out, name, i + 1);
    }
}

/// The index the search returns is in range and carries the name.
proof fn lemma_find_var_some(out: Seq<ElemV>, name: Seq<char>, i: int, k: int)
    requires
        0 <= i <= out.len(),
        find_var_idx_from(out, name, i) == Some(k),
    ensures
        i <= k < out.len(),
        out[k].var_name == Some(name),
    decreases out.len() - i,
{
    if i < out.len() && out[i].var_name != Some(name) {
        lemma_find_var_some(out, name, i + 1, k);
    }
}

/// The upsert rule keeps variable names unique: overwriting in place
/// changes no name, and an append only happens when the name is new.
pub proof fn law_upsert_keeps_names_unique(out: Seq<ElemV>, el: ElemV)
    requires
        var_names_unique(out),
    ensures
        var_names_unique(upsert(out, el)),
{
    match el.var_name {
        Some(nm) => {
            match find_var_idx(out, nm) {
                Some(i) => {
                    lemma_find_var_some(out, nm, 0, i);
                },
                None => {
                    lemma_find_var_none(out, nm, 0);
                },
            }
        },
        None => {},
    }
}

/// A successful assignment keeps variable names unique: the name and
/// value elements of the statement itself are popped again, and the
/// combined binding is upserted, never blindly appended.
pub proof fn law_assign_keeps_names_unique(m: ParserModel)
    requires
        var_names_unique(m.output),
        m.output.len() >= 1,
        fn_var_assign_model(m).success,
    ensures
        var_names_unique(fn_var_assign_model(m).output),
        fn_var_assign_model(m).output.len() >= m.output.len(),
{
    let m1 = pw_model(m, seq!['=', ' ']);
    let m2 = capped(m, el_var_model(chomp_cleared(m1)));
    let m3 = capped(m, first_success_model(sum_alts(), m2));
    let m4 = capped(m, eols_or_eof_model(m3));
    assert(m1.success && m2.success && m3.success && m4.success);
    lemma_el_var_appends(chomp_cleared(m1));
    lemma_value_alts_append(m2);
    lemma_eols_or_eof_keeps_output(m3);
    let v = choose|v: ElemV| m2.output == m1.output.push(v);
    let e = choose|e: ElemV|
        #[trigger] is_numeric_value_el(e) && m3.output == m2.output.push(e);
    assert(m4.output == m.output.push(v).push(e));
    let n = m4.output.len() as int;
    assert(n == m.output.len() + 2);
    assert(m4.output[n - 1] == e);
    assert(m4.output[n - 2] == v);
    assert(nth_last(m4.output, 0) == Some(e));
    assert(nth_last(m4.output, 1) == Some(v));
    assert(m4.output.take(n - 2) =~= m.output);
    let combined = ElemV {
        el_type: Some(ParserElementType::Var),
        var_name: v.var_name,
        ..e
    };
    law_upsert_keeps_names_unique(m.output, combined);
    assert(fn_var_assign_model(m).output == upsert(m.output, combined));
    assert(upsert(m.output, combined).len() >= m.output.len()) by {
        match combined.var_name {
            Some(nm) => {
                match find_var_idx(m.output, nm) {
                    Some(i) => {
                        lemma_find_var_some(m.output, nm, 0, i);
                    },
                    None => {},
                }
            },
            None => {},
        }
    }
}

/// A successful variable-name parse appends exactly one `Var` element.
proof fn lemma_el_var_appends(m: ParserModel)
    requires
        el_var_model(m).success,
    ensures
        exists|el: ElemV| el_var_model(m).output == m.output.push(el),
        m.output.len() >= 1 ==> el_var_model(m).output.len() == m.output.len() + 1,
{
    let m1 = capped(m, one_or_more_model(FuncV::PrimChar, m));
    lemma_repeat_keeps_output(FuncV::PrimChar, flag_off(m));
    let m2 = capped(m, pw_model(m1, seq![' ']));
    assert(m2.output == m.output);
    let el = el_var_model(m).output.last();
    assert(el_var_model(m).output == m.output.push(el));
}

/// Parsing a whole program keeps variable names unique: however many
/// statements re-assign a name, the arena holds one element for it.
/// The element count equals the number of distinct names seen, not the
/// number of assignments parsed.
pub proof fn law_parse_keeps_names_unique(m: ParserModel)
    requires
        var_names_unique(m.output),
        m.output.len() >= 1,
    ensures
        var_names_unique(parse_model(m).output),
    decreases m.input_remaining.len(),
{
    if m.success && m.input_remaining.len() > 0 {
        let m2 = first_success_model(parse_alts(), m);
        lemma_statement_step_keeps_names_unique(m);
        if m2.success && m2.input_remaining.len() < m.input_remaining.len() {
            law_parse_keeps_names_unique(m2);
        }
    }
}

/// One statement step — an assignment or a run of line ends, whichever
/// matches first — keeps variable names unique, and never shrinks the
/// arena.
proof fn lemma_statement_step_keeps_names_unique(m: ParserModel)
    requires
        var_names_unique(m.output),
        m.output.len() >= 1,
    ensures
        var_names_unique(first_success_model(parse_alts(), m).output),
        first_success_model(parse_alts(), m).output.len() >= m.output.len(),
{
    if m.success {
        reveal_with_fuel(first_success_model, 5);
        assert(parse_alts()[0] == FuncV::FnVarAssign);
        let r0 = flag_restore(m, apply_model(FuncV::FnVarAssign, flag_off(m)));
        if r0.success {
            assert(first_success_model(parse_alts(), m) == r0);
            law_assign_keeps_names_unique(flag_off(m));
        } else {
            let fs1 = parse_alts().skip(1);
            assert(fs1 =~= seq![FuncV::PrimEols]);
            assert(fs1[0] == FuncV::PrimEols);
            let r1 = flag_restore(m, apply_model(FuncV::PrimEols, flag_off(m)));
            lemma_eols_keeps_output(flag_off(m));
            assert(r1.output == m.output);
            if !r1.success {
                assert(fs1.skip(1) =~= Seq::<FuncV>::empty());
                assert(first_success_model(fs1.skip(1), m) == failed(m));
            }
        }
    }
}


// ------------------------------------------------------------------
// what the sum makes of literal operands
// ------------------------------------------------------------------

/// Is every character of `s` a decimal digit?
pub open spec fn all_digits(s: Seq<char>) -> bool {
    forall|i: int| 0 <= i < s.len() ==> is_digit_char(#[trigger] s[i])
}

/// Does `s` have the shape of a float literal: an optional minus sign,
/// digits, a point, digits?
pub open spec fn is_float_lit(s: Seq<char>) -> bool {
    exists|i: int| #[trigger] float_split_at(s, i)
}

/// Is `i` the position of the point of float literal `s`?
pub open spec fn float_split_at(s: Seq<char>, i: int) -> bool {
    let st: int = if s.len() > 0 && s[0] == '-' {
        1
    } else {
        0
    };
    st < i && i + 1 < s.len() && s[i] == '.' && all_digits(s.subrange(st, i)) && all_digits(
        s.subrange(i + 1, s.len() as int),
    )
}

/// The same state over different remaining input.
pub open spec fn with_input(st: ParserModel, s: Seq<char>) -> ParserModel {
    ParserModel { input_remaining: s, ..st }
}

/// The element an integer literal parses to.
pub open spec fn int_value_el(a: Seq<char>) -> ElemV {
    ElemV {
        el_type: Some(ParserElementType::Int64),
        int64: Some(int_lit_val(a) as i64),
        ..empty_elem()
    }
}

/// The element a float literal parses to.
pub open spec fn float_value_el(a: Seq<char>) -> ElemV {
    ElemV {
        el_type: Some(ParserElementType::Float64),
        float64_bits: Some(float_bits_of(a)),
        ..empty_elem()
    }
}

/// Is `a` an integer literal whose value is representable in 64 bits?
pub open spec fn is_i64_lit(a: Seq<char>) -> bool {
    is_int_lit(a) && i64::MIN <= int_lit_val(a) <= i64::MAX
}

/// The input `"+ A B"`.
pub open spec fn plain_sum_input(a: Seq<char>, b: Seq<char>) -> Seq<char> {
    seq!['+', ' '] + a + seq![' '] + b
}

/// The input `"(+ A B)"`.
pub open spec fn bracket_sum_input(a: Seq<char>, b: Seq<char>) -> Seq<char> {
    seq!['(', '+', ' '] + a + seq![' '] + b + seq![')']
}

/// Matching a word that opens the input consumes exactly that word.
proof fn lemma_pw_on_prefix(m: ParserModel, w: Seq<char>, rest: Seq<char>)
    requires
        m.success,
        m.input_remaining == w + rest,
    ensures
        pw_model(m, w) == (ParserModel {
            input_remaining: rest,
            chomp: if m.chomping {
                m.chomp + w
            } else {
                m.chomp
            },
            ..m
        }),
{
    assert(m.input_remaining.take(w.len() as int) =~= w);
    assert(m.input_remaining.skip(w.len() as int) =~= rest);
}

/// The repetition of the digit matcher consumes exactly the maximal
/// leading run of digits, and ends with the failed extra attempt.
proof fn lemma_repeat_digits(m: ParserModel, d: Seq<char>, rest: Seq<char>)
    requires
        m.success,
        m.input_remaining == d + rest,
        all_digits(d),
        rest.len() == 0 || !is_digit_char(rest[0]),
    ensures
        repeat_model(FuncV::PrimDigit, m) == (ParserModel {
            input_remaining: rest,
            chomp: if m.chomping {
                m.chomp + d
            } else {
                m.chomp
            },
            success: false,
            ..m
        }),
    decreases d.len(),
{
    let m2 = crate::model::digit_model(m);
    assert(crate::model::apply_model(FuncV::PrimDigit, m) == m2);
    if d.len() == 0 {
        assert(m.input_remaining =~= rest);
        assert(!m2.success);
        assert(repeat_model(FuncV::PrimDigit, m) == m2);
        assert(m.chomp + d =~= m.chomp);
    } else {
        assert(m.input_remaining[0] == d[0]);
        assert(is_digit_char(d[0]));
        assert(m2.success);
        assert(m2.input_remaining =~= d.skip(1) + rest) by {
            assert(m.input_remaining.skip(1) =~= d.skip(1) + rest);
        }
        assert(m2.input_remaining.len() < m.input_remaining.len());
        assert(all_digits(d.skip(1)));
        lemma_repeat_digits(m2, d.skip(1), rest);
        assert(repeat_model(FuncV::PrimDigit, m) == repeat_model(FuncV::PrimDigit, m2));
        if m.chomping {
            assert(m.chomp.push(d[0]) + d.skip(1) =~= m.chomp + d);
        }
    }
}

/// One-or-more digits, with chomping on, consumes the maximal leading
/// digit run and succeeds exactly when it is non-empty.
proof fn lemma_one_or_more_digits(m: ParserModel, d: Seq<char>, rest: Seq<char>)
    requires
        m.success,
        m.chomping,
        m.input_remaining == d + rest,
        all_digits(d),
        d.len() >= 1,
        rest.len() == 0 || !is_digit_char(rest[0]),
    ensures
        one_or_more_model(FuncV::PrimDigit, m) == (ParserModel {
            input_remaining: rest,
            chomp: m.chomp + d,
            success: true,
            ..m
        }),
{
    lemma_repeat_digits(flag_off(m), d, rest);
    assert((m.chomp + d).len() != m.chomp.len());
}

/// The optional leading minus sign: consumed and chomped when present,
/// a harmless no-op when not.
proof fn lemma_optional_minus(m: ParserModel, a: Seq<char>, rest: Seq<char>)
    requires
        m.success,
        m.chomping,
        m.input_remaining == a + rest,
        a.len() >= 1,
        a[0] == '-' || is_digit_char(a[0]),
    ensures
        a[0] == '-' ==> optional_model(FuncV::PrimWord(seq!['-']), m) == (ParserModel {
            input_remaining: a.skip(1) + rest,
            chomp: m.chomp + seq!['-'],
            ..m
        }),
        a[0] != '-' ==> optional_model(FuncV::PrimWord(seq!['-']), m) == m,
{
    if a[0] == '-' {
        assert(m.input_remaining =~= seq!['-'] + (a.skip(1) + rest));
        lemma_pw_on_prefix(m, seq!['-'], a.skip(1) + rest);
    } else {
        assert(m.input_remaining.len() >= 1);
        assert(m.input_remaining.take(1)[0] == a[0]);
        assert(m.input_remaining.take(1) != seq!['-']);
        assert(!pw_model(m, seq!['-']).success);
        assert(optional_model(FuncV::PrimWord(seq!['-']), m) == m);
    }
}

/// The integer element parser, fed an integer literal at the head of
/// the input (with no digit following it), consumes exactly the
/// literal, appends its element, and clears the chomp buffer.
proof fn lemma_el_int_on_lit(m: ParserModel, a: Seq<char>, rest: Seq<char>)
    requires
        m.success,
        m.chomping,
        m.chomp == Seq::<char>::empty(),
        m.input_remaining == a + rest,
        is_i64_lit(a),
        rest.len() == 0 || !is_digit_char(rest[0]),
    ensures
        el_int_model(m) == (ParserModel {
            input_remaining: rest,
            chomp: Seq::empty(),
            output: m.output.push(int_value_el(a)),
            success: true,
            ..m
        }),
{
    let m0 = flag_off(m);
    lemma_optional_minus(m0, a, rest);
    let m1 = capped(m, optional_model(FuncV::PrimWord(seq!['-']), m0));
    if a[0] == '-' {
        lemma_one_or_more_digits(m1, a.skip(1), rest);
        assert(m1.chomp + a.skip(1) =~= a) by {
            assert(seq!['-'] + a.skip(1) =~= a);
        }
    } else {
        lemma_one_or_more_digits(m1, a, rest);
        assert(m1.chomp + a =~= a);
    }
    let m2 = capped(m, one_or_more_model(FuncV::PrimDigit, m1));
    assert(m2.chomp == a);
    let m3 = flag_restore(m, m2);
    assert(crate::model::i64_of_lit(a) == Some(int_lit_val(a) as i64));
}

/// The float element parser, fed a float literal at the head of the
/// input (with no digit following it), consumes exactly the literal and
/// appends its element.
proof fn lemma_el_float_on_lit(m: ParserModel, a: Seq<char>, i: int, rest: Seq<char>)
    requires
        m.success,
        m.chomping,
        m.chomp == Seq::<char>::empty(),
        m.input_remaining == a + rest,
        float_split_at(a, i),
        rest.len() == 0 || !is_digit_char(rest[0]),
    ensures
        el_float_model(m) == (ParserModel {
            input_remaining: rest,
            chomp: Seq::empty(),
            output: m.output.push(float_value_el(a)),
            success: true,
            ..m
        }),
{
    let st: int = if a[0] == '-' {
        1
    } else {
        0
    };
    let d1 = a.subrange(st, i);
    let d2 = a.subrange(i + 1, a.len() as int);
    assert(a.len() > 0);
    assert(st == 0 ==> is_digit_char(a[0])) by {
        assert(a.subrange(st, i)[0] == a[st]);
    }
    let m0 = flag_off(m);
    lemma_optional_minus(m0, a, rest);
    let m1 = capped(m, optional_model(FuncV::PrimWord(seq!['-']), m0));
    assert(m1.input_remaining =~= d1 + (seq!['.'] + (d2 + rest))) by {
        if a[0] == '-' {
            assert(a.skip(1) =~= d1 + seq!['.'] + d2);
        } else {
            assert(a =~= d1 + seq!['.'] + d2);
        }
    }
    lemma_one_or_more_digits(m1, d1, seq!['.'] + (d2 + rest));
    let m2 = capped(m, one_or_more_model(FuncV::PrimDigit, m1));
    lemma_pw_on_prefix(m2, seq!['.'], d2 + rest);
    let m3 = capped(m, pw_model(m2, seq!['.']));
    lemma_one_or_more_digits(m3, d2, rest);
    let m4 = capped(m, one_or_more_model(FuncV::PrimDigit, m3));
    assert(m4.chomp =~= a) by {
        if a[0] == '-' {
            assert(seq!['-'] + d1 + seq!['.'] + d2 =~= a);
        } else {
            assert(d1 + seq!['.'] + d2 =~= a);
        }
    }
    let m5 = flag_restore(m, m4);
    assert(el_float_model(m).output == m.output.push(float_value_el(a)));
}

/// The float element parser, fed an integer literal that no point
/// follows, fails at the point.
proof fn lemma_el_float_fails_on_int(m: ParserModel, a: Seq<char>, rest: Seq<char>)
    requires
        m.success,
        m.chomping,
        m.input_remaining == a + rest,
        is_int_lit(a),
        rest.len() == 0 || (!is_digit_char(rest[0]) && rest[0] != '.'),
    ensures
        !el_float_model(m).success,
{
    let m0 = flag_off(m);
    lemma_optional_minus(m0, a, rest);
    let m1 = capped(m, optional_model(FuncV::PrimWord(seq!['-']), m0));
    if a[0] == '-' {
        lemma_repeat_digits(flag_off(m1), a.skip(1), rest);
        assert((m1.chomp + a.skip(1)).len() != m1.chomp.len());
    } else {
        lemma_repeat_digits(flag_off(m1), a, rest);
        assert((m1.chomp + a).len() != m1.chomp.len());
    }
    let m2 = capped(m, one_or_more_model(FuncV::PrimDigit, m1));
    assert(m2.success && m2.input_remaining == rest);
    if rest.len() == 0 {
        assert(!pw_model(m2, seq!['.']).success);
    } else {
        assert(rest.take(1)[0] == rest[0]);
        assert(rest.take(1) != seq!['.']);
        assert(!pw_model(m2, seq!['.']).success);
    }
}

/// A value position fed an integer literal parses it with the integer
/// element parser: the nested-sum and float alternatives both fall
/// through, the float one because the literal has no point.
pub proof fn law_value_position_on_int_literal(m: ParserModel, a: Seq<char>, rest: Seq<char>)
    requires
        m.success,
        m.chomping,
        m.chomp == Seq::<char>::empty(),
        m.input_remaining == a + rest,
        is_i64_lit(a),
        rest.len() == 0 || (!is_digit_char(rest[0]) && rest[0] != '.'),
    ensures
        first_success_model(sum_alts(), m) == (ParserModel {
            input_remaining: rest,
            chomp: Seq::empty(),
            output: m.output.push(int_value_el(a)),
            success: true,
            ..m
        }),
{
    reveal_with_fuel(first_success_model, 5);
    assert(a.len() >= 1);
    assert(m.input_remaining[0] == a[0]);
    assert(a[0] == '-' || is_digit_char(a[0]));
    assert(a[0] != '+' && a[0] != '(');
    assert(sum_alts()[0] == FuncV::FnVarSum);
    law_sum_rejects_bad_opening(flag_off(m));
    let r0 = flag_restore(m, apply_model(FuncV::FnVarSum, flag_off(m)));
    assert(!r0.success);
    let fs1 = sum_alts().skip(1);
    assert(fs1 =~= seq![FuncV::ElFloat, FuncV::ElInt]);
    assert(fs1[0] == FuncV::ElFloat);
    lemma_el_float_fails_on_int(flag_off(m), a, rest);
    let r1 = flag_restore(m, apply_model(FuncV::ElFloat, flag_off(m)));
    assert(!r1.success);
    let fs2 = fs1.skip(1);
    assert(fs2 =~= seq![FuncV::ElInt]);
    assert(fs2[0] == FuncV::ElInt);
    lemma_el_int_on_lit(flag_off(m), a, rest);
    let r2 = flag_restore(m, apply_model(FuncV::ElInt, flag_off(m)));
    assert(r2.success);
    assert(first_success_model(sum_alts(), m) == r2);
}

/// A value position fed a float literal parses it with the float
/// element parser — tried before the integer one, so the part before
/// the point is not taken as a complete integer.
pub proof fn law_value_position_on_float_literal(m: ParserModel, a: Seq<char>, i: int, rest: Seq<char>)
    requires
        m.success,
        m.chomping,
        m.chomp == Seq::<char>::empty(),
        m.input_remaining == a + rest,
        float_split_at(a, i),
        rest.len() == 0 || !is_digit_char(rest[0]),
    ensures
        first_success_model(sum_alts(), m) == (ParserModel {
            input_remaining: rest,
            chomp: Seq::empty(),
            output: m.output.push(float_value_el(a)),
            success: true,
            ..m
        }),
{
    reveal_with_fuel(first_success_model, 5);
    assert(a.len() >= 1);
    assert(m.input_remaining[0] == a[0]);
    assert(a[0] == '-' || is_digit_char(a[0])) by {
        if a[0] != '-' {
            assert(a.subrange(0, i)[0] == a[0]);
        }
    }
    assert(a[0] != '+' && a[0] != '(');
    assert(sum_alts()[0] == FuncV::FnVarSum);
    law_sum_rejects_bad_opening(flag_off(m));
    let r0 = flag_restore(m, apply_model(FuncV::FnVarSum, flag_off(m)));
    assert(!r0.success);
    let fs1 = sum_alts().skip(1);
    assert(fs1 =~= seq![FuncV::ElFloat, FuncV::ElInt]);
    assert(fs1[0] == FuncV::ElFloat);
    lemma_el_float_on_lit(flag_off(m), a, i, rest);
    let r1 = flag_restore(m, apply_model(FuncV::ElFloat, flag_off(m)));
    assert(r1.success);
    assert(first_success_model(sum_alts(), m) == r1);
}



/// The element the sum of two integer literals folds to: their values
/// added with native wrapping 64-bit semantics.
pub open spec fn int_sum_el(a: Seq<char>, b: Seq<char>) -> ElemV {
    ElemV {
        el_type: Some(ParserElementType::Int64),
        int64: Some(
            vstd::wrapping::i64_specs::wrapping_add(
                int_lit_val(a) as i64,
                int_lit_val(b) as i64,
            ),
        ),
        ..empty_elem()
    }
}

/// The element the sum of two float literals folds to: their IEEE 754
/// binary64 values added, rounding to nearest, ties to even.
pub open spec fn float_sum_el(a: Seq<char>, b: Seq<char>) -> ElemV {
    ElemV {
        el_type: Some(ParserElementType::Float64),
        float64_bits: Some(float_add_bits(float_bits_of(a), float_bits_of(b))),
        ..empty_elem()
    }
}

/// One successful sum branch over two integer literal operands.
proof fn lemma_sum_branch_on_int_lits(
    m: ParserModel,
    open_tok: Seq<char>,
    bracket: bool,
    a: Seq<char>,
    b: Seq<char>,
)
    requires
        m.success,
        m.chomping,
        open_tok.len() >= 1,
        m.input_remaining == open_tok + (a + (seq![' '] + (b + if bracket {
            seq![')']
        } else {
            Seq::<char>::empty()
        }))),
        is_i64_lit(a),
        is_i64_lit(b),
    ensures
        sum_branch_model(m, open_tok, bracket) == (ParserModel {
            input_remaining: Seq::empty(),
            chomp: if bracket {
                seq![')']
            } else {
                Seq::empty()
            },
            output: m.output.push(int_value_el(a)).push(int_value_el(b)),
            ..m
        }),
{
    let close: Seq<char> = if bracket {
        seq![')']
    } else {
        Seq::empty()
    };
    lemma_pw_on_prefix(m, open_tok, a + (seq![' '] + (b + close)));
    let a_st = pw_model(m, open_tok);
    let b_st = chomp_cleared(a_st);
    assert((seq![' '] + (b + close))[0] == ' ');
    if bracket {
        assert((seq![')'] + Seq::<char>::empty())[0] == ')');
        assert(close[0] == ')');
    }
    law_value_position_on_int_literal(b_st, a, seq![' '] + (b + close));
    let c = capped(b_st, first_success_model(sum_alts(), b_st));
    lemma_pw_on_prefix(c, seq![' '], b + close);
    let d = capped(b_st, pw_model(c, seq![' ']));
    let e = chomp_cleared(d);
    law_value_position_on_int_literal(e, b, close);
    let f = capped(b_st, first_success_model(sum_alts(), e));
    if bracket {
        assert(f.input_remaining =~= seq![')'] + Seq::<char>::empty());
        lemma_pw_on_prefix(f, seq![')'], Seq::empty());
    }
}

/// One successful sum branch over two float literal operands.
proof fn lemma_sum_branch_on_float_lits(
    m: ParserModel,
    open_tok: Seq<char>,
    bracket: bool,
    a: Seq<char>,
    ia: int,
    b: Seq<char>,
    ib: int,
)
    requires
        m.success,
        m.chomping,
        open_tok.len() >= 1,
        m.input_remaining == open_tok + (a + (seq![' '] + (b + if bracket {
            seq![')']
        } else {
            Seq::<char>::empty()
        }))),
        float_split_at(a, ia),
        float_split_at(b, ib),
    ensures
        sum_branch_model(m, open_tok, bracket) == (ParserModel {
            input_remaining: Seq::empty(),
            chomp: if bracket {
                seq![')']
            } else {
                Seq::empty()
            },
            output: m.output.push(float_value_el(a)).push(float_value_el(b)),
            ..m
        }),
{
    let close: Seq<char> = if bracket {
        seq![')']
    } else {
        Seq::empty()
    };
    lemma_pw_on_prefix(m, open_tok, a + (seq![' '] + (b + close)));
    let a_st = pw_model(m, open_tok);
    let b_st = chomp_cleared(a_st);
    assert((seq![' '] + (b + close))[0] == ' ');
    if bracket {
        assert((seq![')'] + Seq::<char>::empty())[0] == ')');
        assert(close[0] == ')');
    }
    law_value_position_on_float_literal(b_st, a, ia, seq![' '] + (b + close));
    let c = capped(b_st, first_success_model(sum_alts(), b_st));
    lemma_pw_on_prefix(c, seq![' '], b + close);
    let d = capped(b_st, pw_model(c, seq![' ']));
    let e = chomp_cleared(d);
    law_value_position_on_float_literal(e, b, ib, close);
    let f = capped(b_st, first_success_model(sum_alts(), e));
    if bracket {
        assert(f.input_remaining =~= seq![')'] + Seq::<char>::empty());
        lemma_pw_on_prefix(f, seq![')'], Seq::empty());
    }
}

/// The fold of two freshly parsed operand elements replaces them.
proof fn lemma_fold_of_branch(m: ParserModel, s: ParserModel, e1: ElemV, e2: ElemV, el: ElemV)
    requires
        s.output == m.output.push(e1).push(e2),
        m.output.len() >= 1,
        e1.el_type is Some,
        e2.el_type is Some,
        sum_fold(e1, e2) == Some(el),
        s.success,
    ensures
        nth_last(s.output, 0) == Some(e2),
        nth_last(s.output, 1) == Some(e1),
        s.output.take(s.output.len() - 2) == m.output,
{
    let n = s.output.len() as int;
    assert(s.output[n - 1] == e2);
    assert(s.output[n - 2] == e1);
    assert(s.output.take(n - 2) =~= m.output);
}

/// Bracket/no-bracket agreement on integers: for any two integer
/// literals A and B, the sum parser folds `"+ A B"` and `"(+ A B)"` to
/// the very same element — A and B added with native wrapping 64-bit
/// semantics — consuming the whole input either way.
pub proof fn law_sum_bracket_agreement_int(st: ParserModel, a: Seq<char>, b: Seq<char>)
    requires
        st.success,
        st.chomping,
        st.chomp == Seq::<char>::empty(),
        st.output.len() >= 1,
        is_i64_lit(a),
        is_i64_lit(b),
    ensures
        fn_var_sum_model(with_input(st, plain_sum_input(a, b))).success,
        fn_var_sum_model(with_input(st, plain_sum_input(a, b))).output == st.output.push(
            int_sum_el(a, b),
        ),
        fn_var_sum_model(with_input(st, plain_sum_input(a, b))).input_remaining
            == Seq::<char>::empty(),
        fn_var_sum_model(with_input(st, bracket_sum_input(a, b))).success,
        fn_var_sum_model(with_input(st, bracket_sum_input(a, b))).output == st.output.push(
            int_sum_el(a, b),
        ),
        fn_var_sum_model(with_input(st, bracket_sum_input(a, b))).input_remaining
            == Seq::<char>::empty(),
{
    let ia = int_value_el(a);
    let ib = int_value_el(b);
    assert(sum_fold(ia, ib) == Some(int_sum_el(a, b)));
    let m1 = with_input(st, plain_sum_input(a, b));
    assert(m1.input_remaining =~= seq!['+', ' '] + (a + (seq![' '] + (b
        + Seq::<char>::empty()))));
    lemma_sum_branch_on_int_lits(m1, seq!['+', ' '], false, a, b);
    let wb1 = sum_branch_model(m1, seq!['+', ' '], false);
    lemma_fold_of_branch(m1, wb1, ia, ib, int_sum_el(a, b));
    assert(fn_var_sum_model(m1).output == st.output.push(int_sum_el(a, b)));

    let m2 = with_input(st, bracket_sum_input(a, b));
    assert(m2.input_remaining.len() >= 2);
    assert(m2.input_remaining[0] == '(');
    assert(m2.input_remaining.take(2)[0] == '(');
    assert(m2.input_remaining.take(2) != seq!['+', ' ']);
    let wb2 = sum_branch_model(m2, seq!['+', ' '], false);
    assert(!wb2.success);
    assert(m2.input_remaining =~= seq!['(', '+', ' '] + (a + (seq![' '] + (b + seq![')']))));
    lemma_sum_branch_on_int_lits(m2, seq!['(', '+', ' '], true, a, b);
    let br2 = sum_branch_model(m2, seq!['(', '+', ' '], true);
    lemma_fold_of_branch(m2, br2, ia, ib, int_sum_el(a, b));
    assert(fn_var_sum_model(m2).output == st.output.push(int_sum_el(a, b)));
}

/// Bracket/no-bracket agreement on floats: for any two float literals A
/// and B, the sum parser folds `"+ A B"` and `"(+ A B)"` to the very
/// same element — the IEEE 754 binary64 sum of A and B — consuming the
/// whole input either way.
pub proof fn law_sum_bracket_agreement_float(st: ParserModel, a: Seq<char>, b: Seq<char>)
    requires
        st.success,
        st.chomping,
        st.chomp == Seq::<char>::empty(),
        st.output.len() >= 1,
        is_float_lit(a),
        is_float_lit(b),
    ensures
        fn_var_sum_model(with_input(st, plain_sum_input(a, b))).success,
        fn_var_sum_model(with_input(st, plain_sum_input(a, b))).output == st.output.push(
            float_sum_el(a, b),
        ),
        fn_var_sum_model(with_input(st, plain_sum_input(a, b))).input_remaining
            == Seq::<char>::empty(),
        fn_var_sum_model(with_input(st, bracket_sum_input(a, b))).success,
        fn_var_sum_model(with_input(st, bracket_sum_input(a, b))).output == st.output.push(
            float_sum_el(a, b),
        ),
        fn_var_sum_model(with_input(st, bracket_sum_input(a, b))).input_remaining
            == Seq::<char>::empty(),
{
    let ia = choose|i: int| #[trigger] float_split_at(a, i);
    let ib = choose|i: int| #[trigger] float_split_at(b, i);
    let fa = float_value_el(a);
    let fb = float_value_el(b);
    assert(sum_fold(fa, fb) == Some(float_sum_el(a, b)));
    let m1 = with_input(st, plain_sum_input(a, b));
    assert(m1.input_remaining =~= seq!['+', ' '] + (a + (seq![' '] + (b
        + Seq::<char>::empty()))));
    lemma_sum_branch_on_float_lits(m1, seq!['+', ' '], false, a, ia, b, ib);
    let wb1 = sum_branch_model(m1, seq!['+', ' '], false);
    lemma_fold_of_branch(m1, wb1, fa, fb, float_sum_el(a, b));
    assert(fn_var_sum_model(m1).output == st.output.push(float_sum_el(a, b)));

    let m2 = with_input(st, bracket_sum_input(a, b));
    assert(m2.input_remaining.len() >= 2);
    assert(m2.input_remaining[0] == '(');
    assert(m2.input_remaining.take(2)[0] == '(');
    assert(m2.input_remaining.take(2) != seq!['+', ' ']);
    let wb2 = sum_branch_model(m2, seq!['+', ' '], false);
    assert(!wb2.success);
    assert(m2.input_remaining =~= seq!['(', '+', ' '] + (a + (seq![' '] + (b + seq![')']))));
    lemma_sum_branch_on_float_lits(m2, seq!['(', '+', ' '], true, a, ia, b, ib);
    let br2 = sum_branch_model(m2, seq!['(', '+', ' '], true);
    lemma_fold_of_branch(m2, br2, fa, fb, float_sum_el(a, b));
    assert(fn_var_sum_model(m2).output == st.output.push(float_sum_el(a, b)));
}



// ------------------------------------------------------------------
// recovery combinators
// ------------------------------------------------------------------

/// `combi_optional` recovers from any failure: zero matches count as
/// success, with only the success flag reset, never the state.
pub proof fn law_optional_always_succeeds(f: FuncV, m: ParserModel)
    requires
        m.success,
    ensures
        optional_model(f, m).success,
{
}

/// `combi_zero_or_more_of` recovers from any failure: zero repetitions
/// count as success.
pub proof fn law_zero_or_more_always_succeeds(f: FuncV, m: ParserModel)
    requires
        m.success,
    ensures
        crate::model::zero_or_more_model(f, m).success,
{
}

/// What decides `combi_one_or_more_of` is chomp growth, not the
/// repetition count: the attempt matches exactly when the chomp buffer
/// changed, so with chomping off even consuming repetitions count for
/// nothing.  The engine takes chomp growth as authoritative.
pub proof fn law_one_or_more_succeeds_iff_chomp_grew(f: FuncV, m: ParserModel)
    requires
        m.success,
    ensures
        one_or_more_model(f, m).success <==> one_or_more_model(f, m).chomp != m.chomp,
{
    let e = flag_restore(m, repeat_model(f, flag_off(m)));
    if e.chomp == m.chomp {
        assert(one_or_more_model(f, m).chomp == m.chomp);
    } else {
        assert(one_or_more_model(f, m).chomp == e.chomp);
    }
}



// ------------------------------------------------------------------
// the meta-language compiler only appends
// ------------------------------------------------------------------

/// Is `f` one of the language-alias parsers?
pub open spec fn is_lang_variant(f: FuncV) -> bool {
    f is LangPrimNext || f is LangPrimQuote || f is LangPrimChar || f is LangPrimDigit
        || f is LangPrimEols || f is LangPrimEof || f is LangPrimEolsOrEof || f is LangPrimWord
}

/// The word scan of the `'word'` alias never touches the language
/// arena: only quotes and plain characters are consumed.
proof fn lemma_word_scan_keeps_lang(m: ParserModel)
    ensures
        crate::model::until_model(
            seq![FuncV::PrimQuoteSingle, FuncV::PrimNext],
            m,
        ).lang == m.lang,
{
    lemma_word_scan_loop_keeps_lang(flag_off(m));
}

/// The loop behind the word scan never touches the language arena.
proof fn lemma_word_scan_loop_keeps_lang(m: ParserModel)
    ensures
        crate::model::until_loop_model(
            seq![FuncV::PrimQuoteSingle, FuncV::PrimNext],
            m,
        ).lang == m.lang,
    decreases m.input_remaining.len(),
{
    reveal_with_fuel(first_success_model, 5);
    let fs = seq![FuncV::PrimQuoteSingle, FuncV::PrimNext];
    if m.success {
        assert(fs[0] == FuncV::PrimQuoteSingle);
        let r0 = flag_restore(m, apply_model(FuncV::PrimQuoteSingle, flag_off(m)));
        assert(r0.lang == m.lang);
        let fs1 = fs.skip(1);
        assert(fs1 =~= seq![FuncV::PrimNext]);
        assert(fs1[0] == FuncV::PrimNext);
        let r1 = flag_restore(m, apply_model(FuncV::PrimNext, flag_off(m)));
        assert(r1.lang == m.lang);
        assert(fs1.skip(1) =~= Seq::<FuncV>::empty());
        let m2 = first_success_model(fs, m);
        assert(m2.lang == m.lang);
        if m2.success && m2.input_remaining.len() < m.input_remaining.len() {
            lemma_word_scan_loop_keeps_lang(m2);
        }
    }
}

/// One language-alias parser leaves every compiled descriptor where it
/// was and at most appends one.
proof fn lemma_lang_variant_appends(f: FuncV, m: ParserModel)
    requires
        is_lang_variant(f),
    ensures
        m.lang.len() <= apply_model(f, m).lang.len(),
        apply_model(f, m).lang.take(m.lang.len() as int) == m.lang,
{
    if f is LangPrimWord {
        lemma_word_scan_keeps_lang(crate::model::capped(
            m,
            crate::model::quote_single_model(flag_off(m)),
        ));
    }
    assert(apply_model(f, m).lang.take(m.lang.len() as int) =~= m.lang);
}

/// Trying language-alias alternatives leaves every compiled descriptor
/// where it was.
proof fn lemma_lang_alts_append(fs: Seq<FuncV>, m: ParserModel)
    requires
        forall|i: int| 0 <= i < fs.len() ==> is_lang_variant(#[trigger] fs[i]),
    ensures
        m.lang.len() <= first_success_model(fs, m).lang.len(),
        first_success_model(fs, m).lang.take(m.lang.len() as int) == m.lang,
    decreases fs.len(),
{
    if m.success && fs.len() > 0 {
        lemma_lang_variant_appends(fs[0], flag_off(m));
        let r = flag_restore(m, apply_model(fs[0], flag_off(m)));
        if !r.success {
            assert(forall|i: int|
                0 <= i < fs.skip(1).len() ==> is_lang_variant(#[trigger] fs.skip(1)[i]));
            lemma_lang_alts_append(fs.skip(1), m);
        }
    } else {
        assert(first_success_model(fs, m).lang.take(m.lang.len() as int) =~= m.lang);
    }
}

/// The meta-compiler only appends: however far compilation runs, the
/// descriptors already compiled stay in place, in the order compiled,
/// and are never mutated.
pub proof fn law_compile_appends_in_order(m: ParserModel)
    ensures
        m.lang.len() <= crate::model::lang_compile_model(m).lang.len(),
        crate::model::lang_compile_model(m).lang.take(m.lang.len() as int) == m.lang,
    decreases m.input_remaining.len(),
{
    if m.success && m.input_remaining.len() > 0 {
        assert(forall|i: int|
            0 <= i < crate::model::lang_alts().len() ==> is_lang_variant(
                #[trigger] crate::model::lang_alts()[i],
            ));
        lemma_lang_alts_append(crate::model::lang_alts(), m);
        let m2 = first_success_model(crate::model::lang_alts(), m);
        if m2.success && m2.input_remaining.len() < m.input_remaining.len() {
            law_compile_appends_in_order(m2);
            let r = crate::model::lang_compile_model(m2);
            assert(r.lang.take(m.lang.len() as int) =~= (r.lang.take(
                m2.lang.len() as int,
            )).take(m.lang.len() as int));
        }
    }
}


} // verus!
