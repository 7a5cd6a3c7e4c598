//! Ghost model of the parser.
//!
//! Every executable operation of the engine is specified against a pure
//! mathematical model: `ParserModel` mirrors the parser state over `Seq`
//! values, and each combinator has a spec function here that says exactly
//! what it does to that state.  The executable methods ensure that their
//! result's view equals the corresponding model function applied to the
//! view of their input.
use vstd::prelude::*;

use crate::element::ParserElementType;

verus! {

/// Ghost mirror of one parsed element.
pub ghost struct ElemV {
    pub el_type: Option<ParserElementType>,
    pub int64: Option<i64>,
    pub float64_bits: Option<u64>,
    pub string: Option<Seq<char>>,
    pub var_name: Option<Seq<char>>,
}

/// Ghost mirror of a parser operation (a primitive, element or function
/// parser, identified by name rather than by function pointer).
pub ghost enum FuncV {
    PrimNext,
    PrimSpace,
    PrimQuote,
    PrimQuoteSingle,
    PrimWord(Seq<char>),
    PrimChar,
    PrimDigit,
    PrimEols,
    PrimEof,
    PrimEolsOrEof,
    ElStr,
    ElInt,
    ElFloat,
    ElVar,
    FnVarAssign,
    FnVarSum,
    LangPrimNext,
    LangPrimQuote,
    LangPrimChar,
    LangPrimDigit,
    LangPrimEols,
    LangPrimEof,
    LangPrimEolsOrEof,
    LangPrimWord,
}

/// Ghost mirror of `ParserFunctionType`.
pub ghost enum FnTypeV {
    NoFunction,
    TakesParser(FuncV),
    TakesParserWord,
    TakesParserFn(FuncV),
}

/// Ghost mirror of `ParserFunctionParam`.
pub ghost enum ParamV {
    NoParam,
    Str(Seq<char>),
    Fn(FuncV),
    VecFn(Seq<FuncV>),
}

/// Ghost mirror of the whole parser state.
pub ghost struct ParserModel {
    pub input_original: Seq<char>,
    pub input_remaining: Seq<char>,
    pub chomp: Seq<char>,
    pub chomping: bool,
    pub success: bool,
    pub display_errors: bool,
    pub output: Seq<ElemV>,
    pub output_parent: int,
    pub lang: Seq<(FnTypeV, ParamV)>,
    pub lang_parent: int,
}

/// The view of a whole output arena.
pub open spec fn elems_view(s: Seq<crate::element::ParserElement>) -> Seq<ElemV> {
    s.map_values(|e: crate::element::ParserElement| e@)
}

/// The view of a whole language arena.
pub open spec fn desc_seq_view(
    s: Seq<crate::func::ParserFunctionTypeAndParam>,
) -> Seq<(FnTypeV, ParamV)> {
    s.map_values(|d: crate::func::ParserFunctionTypeAndParam| crate::func::desc_view(d))
}

/// The empty element that roots each arena.
pub open spec fn empty_elem() -> ElemV {
    ElemV { el_type: None, int64: None, float64_bits: None, string: None, var_name: None }
}

/// The descriptor that roots the language arena.
pub open spec fn root_desc() -> (FnTypeV, ParamV) {
    (FnTypeV::NoFunction, ParamV::NoParam)
}

/// The state a freshly constructed parser is in.
pub open spec fn new_model(s: Seq<char>) -> ParserModel {
    ParserModel {
        input_original: s,
        input_remaining: s,
        chomp: Seq::empty(),
        chomping: true,
        success: true,
        display_errors: true,
        output: seq![empty_elem()],
        output_parent: 0,
        lang: seq![root_desc()],
        lang_parent: 0,
    }
}

/// The same state with `success` cleared.
pub open spec fn failed(m: ParserModel) -> ParserModel {
    ParserModel { success: false, ..m }
}

/// The same state with the chomp buffer cleared.
pub open spec fn chomp_cleared(m: ParserModel) -> ParserModel {
    ParserModel { chomp: Seq::empty(), ..m }
}

/// The same state with error display suppressed.
pub open spec fn flag_off(m: ParserModel) -> ParserModel {
    ParserModel { display_errors: false, ..m }
}

/// The same state with error display restored from `m0`.
pub open spec fn flag_restore(m0: ParserModel, m: ParserModel) -> ParserModel {
    ParserModel { display_errors: m0.display_errors, ..m }
}

/// Guard used inside composite models: a sub-parse never grows the
/// remaining input, and this makes that fact definitional, which the
/// termination measures of the mutually recursive models rely on.
pub open spec fn capped(m: ParserModel, r: ParserModel) -> ParserModel {
    if r.input_remaining.len() <= m.input_remaining.len() {
        r
    } else {
        failed(m)
    }
}

// ------------------------------------------------------------------
// graphemes
// ------------------------------------------------------------------

/// Length in characters of the first extended grapheme cluster of `s`.
/// What this is exactly is defined by the Unicode segmentation rules;
/// the library learns it through a trusted call (see `text`).
pub uninterp spec fn grapheme_prefix_len(s: Seq<char>) -> int;

/// `grapheme_prefix_len`, clamped to the range that segmentation
/// guarantees: a non-empty string starts with a cluster of at least one
/// and at most all of its characters.
pub open spec fn gp(s: Seq<char>) -> int {
    if s.len() == 0 {
        0
    } else if grapheme_prefix_len(s) < 1 {
        1
    } else if grapheme_prefix_len(s) > s.len() {
        s.len() as int
    } else {
        grapheme_prefix_len(s)
    }
}

// ------------------------------------------------------------------
// numbers
// ------------------------------------------------------------------

pub open spec fn is_digit_char(c: char) -> bool {
    48 <= c as u32 <= 57
}

pub open spec fn digit_val(c: char) -> int {
    c as u32 - 48
}

/// Value of a string of decimal digits, most significant first.
pub open spec fn digits_val(s: Seq<char>) -> int
    decreases s.len(),
{
    if s.len() == 0 {
        0
    } else {
        digits_val(s.drop_last()) * 10 + digit_val(s.last())
    }
}

/// Does `s` have the shape of an integer literal: an optional minus sign
/// followed by one or more digits?
pub open spec fn is_int_lit(s: Seq<char>) -> bool {
    if s.len() > 0 && s[0] == '-' {
        s.len() >= 2 && forall|i: int| 1 <= i < s.len() ==> is_digit_char(#[trigger] s[i])
    } else {
        s.len() >= 1 && forall|i: int| 0 <= i < s.len() ==> is_digit_char(#[trigger] s[i])
    }
}

/// Mathematical value of an integer literal.
pub open spec fn int_lit_val(s: Seq<char>) -> int {
    if s.len() > 0 && s[0] == '-' {
        -digits_val(s.skip(1))
    } else {
        digits_val(s)
    }
}

/// What the integer element parser makes of its chomp buffer: the value,
/// if the buffer is a literal whose value fits in a signed 64-bit word.
pub open spec fn i64_of_lit(s: Seq<char>) -> Option<i64> {
    if is_int_lit(s) && i64::MIN <= int_lit_val(s) <= i64::MAX {
        Some(int_lit_val(s) as i64)
    } else {
        None
    }
}

/// IEEE 754 binary64 bit pattern denoted by a decimal literal.  Defined
/// by the IEEE rounding rules; the library learns it through a trusted
/// call (see `num`).
pub uninterp spec fn float_bits_of(s: Seq<char>) -> u64;

/// IEEE 754 binary64 sum (round to nearest, ties to even) of two values
/// given as bit patterns.  Learned through a trusted call (see `num`).
pub uninterp spec fn float_add_bits(a: u64, b: u64) -> u64;

// ------------------------------------------------------------------
// arena operations
// ------------------------------------------------------------------

/// Element `n` places back from the newest child of the root, if the
/// arena has one (index 0 is the root itself, which is not a child).
pub open spec fn nth_last(out: Seq<ElemV>, n: int) -> Option<ElemV> {
    if 1 <= out.len() - 1 - n < out.len() {
        Some(out[out.len() - 1 - n])
    } else {
        None
    }
}

/// Index of the first element whose variable name is `name`.
pub open spec fn find_var_idx_from(out: Seq<ElemV>, name: Seq<char>, i: int) -> Option<int>
    decreases out.len() - i,
{
    if i < 0 || i >= out.len() {
        None
    } else if out[i].var_name == Some(name) {
        Some(i)
    } else {
        find_var_idx_from(out, name, i + 1)
    }
}

pub open spec fn find_var_idx(out: Seq<ElemV>, name: Seq<char>) -> Option<int> {
    find_var_idx_from(out, name, 0)
}

/// Insert-or-update keyed by variable name: if an element already carries
/// this name it is overwritten in place, otherwise the element is
/// appended.  This is the symbol-table rule for assignment.
pub open spec fn upsert(out: Seq<ElemV>, el: ElemV) -> Seq<ElemV> {
    match el.var_name {
        Some(nm) => match find_var_idx(out, nm) {
            Some(i) => out.update(i, el),
            None => out.push(el),
        },
        None => out.push(el),
    }
}

/// The first element carrying `name` as its variable name, if any.
pub open spec fn find_var_model(out: Seq<ElemV>, name: Seq<char>) -> Option<ElemV> {
    match find_var_idx(out, name) {
        Some(i) => Some(out[i]),
        None => None,
    }
}

/// Appending one element to the output arena.
pub open spec fn append_el(m: ParserModel, e: ElemV) -> ParserModel {
    ParserModel { output: m.output.push(e), ..m }
}

/// Appending one descriptor to the language arena.
pub open spec fn append_desc(m: ParserModel, d: (FnTypeV, ParamV)) -> ParserModel {
    ParserModel { lang: m.lang.push(d), ..m }
}

/// Descriptor `n` places back from the newest child of the root.
pub open spec fn nth_last_desc(lang: Seq<(FnTypeV, ParamV)>, n: int) -> Option<(FnTypeV, ParamV)> {
    if 1 <= lang.len() - 1 - n < lang.len() {
        Some(lang[lang.len() - 1 - n])
    } else {
        None
    }
}

/// Removing the element `n` places back from the newest child; out of
/// range, nothing changes.
pub open spec fn remove_nth_last(m: ParserModel, n: int) -> ParserModel {
    if 1 <= m.output.len() - 1 - n < m.output.len() {
        ParserModel { output: m.output.remove(m.output.len() - 1 - n), ..m }
    } else {
        m
    }
}

/// The element the fixed parent pointer refers to.
pub open spec fn current_parent_model(m: ParserModel) -> Option<ElemV> {
    if 0 <= m.output_parent < m.output.len() {
        Some(m.output[m.output_parent])
    } else {
        None
    }
}

// ------------------------------------------------------------------
// simple primitives (not mutually recursive)
// ------------------------------------------------------------------

/// `prim_word`: an exact match of `w` at the head of the input.
pub open spec fn pw_model(m: ParserModel, w: Seq<char>) -> ParserModel {
    if !m.success {
        m
    } else if w.len() <= m.input_remaining.len() && m.input_remaining.take(w.len() as int) == w {
        ParserModel {
            input_remaining: m.input_remaining.skip(w.len() as int),
            chomp: if m.chomping {
                m.chomp + w
            } else {
                m.chomp
            },
            ..m
        }
    } else {
        failed(m)
    }
}

/// A word match with chomping switched off for its duration.
pub open spec fn pw_nochomp_model(m: ParserModel, w: Seq<char>) -> ParserModel {
    let r = pw_model(ParserModel { chomping: false, ..m }, w);
    ParserModel { chomping: m.chomping, ..r }
}

pub open spec fn space_model(m: ParserModel) -> ParserModel {
    pw_nochomp_model(m, seq![' '])
}

pub open spec fn quote_model(m: ParserModel) -> ParserModel {
    pw_nochomp_model(m, seq!['"'])
}

pub open spec fn quote_single_model(m: ParserModel) -> ParserModel {
    pw_nochomp_model(m, seq!['\''])
}

/// `prim_digit`: one ASCII decimal digit.
pub open spec fn digit_model(m: ParserModel) -> ParserModel {
    if !m.success {
        m
    } else if m.input_remaining.len() > 0 && is_digit_char(m.input_remaining[0]) {
        ParserModel {
            input_remaining: m.input_remaining.skip(1),
            chomp: if m.chomping {
                m.chomp.push(m.input_remaining[0])
            } else {
                m.chomp
            },
            ..m
        }
    } else {
        failed(m)
    }
}

/// `prim_next`: any one extended grapheme cluster; fails at end of input.
pub open spec fn next_model(m: ParserModel) -> ParserModel {
    if !m.success {
        m
    } else if m.input_remaining.len() == 0 {
        failed(m)
    } else {
        let g = gp(m.input_remaining);
        ParserModel {
            input_remaining: m.input_remaining.skip(g),
            chomp: if m.chomping {
                m.chomp + m.input_remaining.take(g)
            } else {
                m.chomp
            },
            ..m
        }
    }
}

/// `prim_char`: one grapheme cluster that is not a single space; fails at
/// end of input.
pub open spec fn char_model(m: ParserModel) -> ParserModel {
    if !m.success {
        m
    } else if m.input_remaining.len() == 0 {
        failed(m)
    } else {
        let g = gp(m.input_remaining);
        if g == 1 && m.input_remaining[0] == ' ' {
            failed(m)
        } else {
            ParserModel {
                input_remaining: m.input_remaining.skip(g),
                chomp: if m.chomping {
                    m.chomp + m.input_remaining.take(g)
                } else {
                    m.chomp
                },
                ..m
            }
        }
    }
}

/// `prim_eof`: succeeds exactly on empty input, consuming nothing.
pub open spec fn eof_model(m: ParserModel) -> ParserModel {
    if m.success && m.input_remaining.len() == 0 {
        m
    } else {
        failed(m)
    }
}

// ------------------------------------------------------------------
// termination measures for the mutually recursive models
// ------------------------------------------------------------------

/// Rank of each operation in the termination measure of the mutually
/// recursive model functions; an operation may only invoke operations of
/// lower rank on input that has not shrunk.
pub open spec fn fuel(f: FuncV) -> nat {
    match f {
        FuncV::PrimNext => 1,
        FuncV::PrimSpace => 1,
        FuncV::PrimQuote => 1,
        FuncV::PrimQuoteSingle => 1,
        FuncV::PrimWord(_) => 1,
        FuncV::PrimChar => 1,
        FuncV::PrimDigit => 1,
        FuncV::PrimEols => 5,
        FuncV::PrimEof => 1,
        FuncV::PrimEolsOrEof => 8,
        FuncV::ElStr => 7,
        FuncV::ElInt => 5,
        FuncV::ElFloat => 5,
        FuncV::ElVar => 5,
        FuncV::FnVarAssign => 9,
        FuncV::FnVarSum => 2,
        FuncV::LangPrimNext => 1,
        FuncV::LangPrimQuote => 1,
        FuncV::LangPrimChar => 1,
        FuncV::LangPrimDigit => 1,
        FuncV::LangPrimEols => 1,
        FuncV::LangPrimEof => 1,
        FuncV::LangPrimEolsOrEof => 1,
        FuncV::LangPrimWord => 7,
    }
}

pub open spec fn max_fuel(fs: Seq<FuncV>) -> nat
    decreases fs.len(),
{
    if fs.len() == 0 {
        0
    } else {
        let rest = max_fuel(fs.skip(1));
        if fuel(fs[0]) > rest {
            fuel(fs[0])
        } else {
            rest
        }
    }
}

pub proof fn lemma_max_fuel_bound(fs: Seq<FuncV>, i: int)
    requires
        0 <= i < fs.len(),
    ensures
        fuel(fs[i]) <= max_fuel(fs),
    decreases fs.len(),
{
    if i > 0 {
        lemma_max_fuel_bound(fs.skip(1), i - 1);
        assert(fs.skip(1)[i - 1] == fs[i]);
    }
}

// ------------------------------------------------------------------
// the operation lists the engine itself uses
// ------------------------------------------------------------------

/// Alternatives a value position offers, in order: a nested sum, then a
/// float (so that the part before the point is not taken as a complete
/// integer), then an integer.
pub open spec fn sum_alts() -> Seq<FuncV> {
    seq![FuncV::FnVarSum, FuncV::ElFloat, FuncV::ElInt]
}

/// Statement alternatives of the top-level program parser.
pub open spec fn parse_alts() -> Seq<FuncV> {
    seq![FuncV::FnVarAssign, FuncV::PrimEols]
}

/// The language-alias parsers, in the order the compiler tries them.
pub open spec fn lang_alts() -> Seq<FuncV> {
    seq![
        FuncV::LangPrimWord,
        FuncV::LangPrimEolsOrEof,
        FuncV::LangPrimEof,
        FuncV::LangPrimEols,
        FuncV::LangPrimQuote,
        FuncV::LangPrimDigit,
        FuncV::LangPrimChar,
        FuncV::LangPrimNext,
    ]
}

// ------------------------------------------------------------------
// the mutually recursive models
// ------------------------------------------------------------------

/// Dispatch: the model of running one named operation.
pub open spec fn apply_model(f: FuncV, m: ParserModel) -> ParserModel
    decreases m.input_remaining.len(), fuel(f), 0nat,
{
    match f {
        FuncV::PrimNext => next_model(m),
        FuncV::PrimSpace => space_model(m),
        FuncV::PrimQuote => quote_model(m),
        FuncV::PrimQuoteSingle => quote_single_model(m),
        FuncV::PrimWord(w) => pw_model(m, w),
        FuncV::PrimChar => char_model(m),
        FuncV::PrimDigit => digit_model(m),
        FuncV::PrimEols => eols_model(m),
        FuncV::PrimEof => eof_model(m),
        FuncV::PrimEolsOrEof => eols_or_eof_model(m),
        FuncV::ElStr => el_str_model(m),
        FuncV::ElInt => el_int_model(m),
        FuncV::ElFloat => el_float_model(m),
        FuncV::ElVar => el_var_model(m),
        FuncV::FnVarAssign => fn_var_assign_model(m),
        FuncV::FnVarSum => fn_var_sum_model(m),
        FuncV::LangPrimNext => lang_factory_model(
            m,
            seq!['>'],
            (FnTypeV::TakesParser(FuncV::PrimNext), ParamV::NoParam),
        ),
        FuncV::LangPrimQuote => lang_factory_model(
            m,
            seq!['"'],
            (FnTypeV::TakesParser(FuncV::PrimQuote), ParamV::NoParam),
        ),
        FuncV::LangPrimChar => lang_factory_model(
            m,
            seq!['@'],
            (FnTypeV::TakesParser(FuncV::PrimChar), ParamV::NoParam),
        ),
        FuncV::LangPrimDigit => lang_factory_model(
            m,
            seq!['#'],
            (FnTypeV::TakesParser(FuncV::PrimDigit), ParamV::NoParam),
        ),
        FuncV::LangPrimEols => lang_factory_model(
            m,
            seq![','],
            (FnTypeV::TakesParser(FuncV::PrimEols), ParamV::NoParam),
        ),
        FuncV::LangPrimEof => lang_factory_model(
            m,
            seq!['.'],
            (FnTypeV::TakesParser(FuncV::PrimEof), ParamV::NoParam),
        ),
        FuncV::LangPrimEolsOrEof => lang_factory_model(
            m,
            seq![';'],
            (FnTypeV::TakesParser(FuncV::PrimEolsOrEof), ParamV::NoParam),
        ),
        FuncV::LangPrimWord => lang_prim_word_model(m),
    }
}

/// The bare repetition loop: apply `f` while it succeeds and consumes
/// input.  The loop ends with the state of the failed attempt, as the
/// executable loop does.
pub open spec fn repeat_model(f: FuncV, m: ParserModel) -> ParserModel
    decreases m.input_remaining.len(), fuel(f) + 1, 0nat,
{
    if !m.success {
        m
    } else {
        let m2 = apply_model(f, m);
        if !m2.success {
            m2
        } else if m2.input_remaining.len() < m.input_remaining.len() {
            repeat_model(f, m2)
        } else {
            m2
        }
    }
}

/// `combi_one_or_more_of`: repetition that succeeds exactly when the
/// chomp buffer grew.  Chomp growth, not the repetition count, is what
/// decides success; the two differ when chomping is off, and the engine
/// takes chomp growth as authoritative.
pub open spec fn one_or_more_model(f: FuncV, m: ParserModel) -> ParserModel
    decreases m.input_remaining.len(), fuel(f) + 2, 0nat,
{
    if !m.success {
        m
    } else {
        let e = flag_restore(m, repeat_model(f, flag_off(m)));
        if e.chomp == m.chomp {
            ParserModel { success: false, ..e }
        } else {
            ParserModel { success: true, ..e }
        }
    }
}

/// `combi_zero_or_more_of`: repetition that always succeeds.
pub open spec fn zero_or_more_model(f: FuncV, m: ParserModel) -> ParserModel
    decreases m.input_remaining.len(), fuel(f) + 2, 0nat,
{
    if !m.success {
        m
    } else {
        let e = flag_restore(m, repeat_model(f, flag_off(m)));
        ParserModel { success: true, ..e }
    }
}

/// `combi_optional`: one attempt, then success regardless.  State changes
/// of a failed attempt are not rolled back; only `success` is forced.
pub open spec fn optional_model(f: FuncV, m: ParserModel) -> ParserModel
    decreases m.input_remaining.len(), fuel(f) + 1, 0nat,
{
    if !m.success {
        m
    } else {
        ParserModel { success: true, ..apply_model(f, m) }
    }
}

/// `combi_first_success_of`: try each alternative on a copy of the state
/// with error display suppressed; the first copy that succeeds, with its
/// display flag restored, is the result.  If none succeeds the original
/// state is returned with `success` cleared.
pub open spec fn first_success_model(fs: Seq<FuncV>, m: ParserModel) -> ParserModel
    decreases m.input_remaining.len(), max_fuel(fs) + 1, fs.len(),
{
    if !m.success {
        m
    } else if fs.len() == 0 {
        failed(m)
    } else {
        let r = flag_restore(m, apply_model(fs[0], flag_off(m)));
        if r.success {
            r
        } else {
            first_success_model(fs.skip(1), m)
        }
    }
}

/// The loop of `combi_until_first_do_second`, which applies the first
/// alternative that matches until neither does.
pub open spec fn until_loop_model(fs: Seq<FuncV>, m: ParserModel) -> ParserModel
    decreases m.input_remaining.len(), max_fuel(fs) + 2, 0nat,
{
    if !m.success {
        m
    } else {
        let m2 = first_success_model(fs, m);
        if !m2.success {
            m2
        } else if m2.input_remaining.len() < m.input_remaining.len() {
            until_loop_model(fs, m2)
        } else {
            m2
        }
    }
}

/// `combi_until_first_do_second`: scan with the alternatives until both
/// fail, then force success.
pub open spec fn until_model(fs: Seq<FuncV>, m: ParserModel) -> ParserModel
    decreases m.input_remaining.len(), max_fuel(fs) + 3, 0nat,
{
    if !m.success {
        m
    } else {
        let e = flag_restore(m, until_loop_model(fs, flag_off(m)));
        ParserModel { success: true, ..e }
    }
}

/// `prim_eols`: one or more `"\r\n"`, or else one or more `"\n"`.
pub open spec fn eols_model(m: ParserModel) -> ParserModel
    decreases m.input_remaining.len(), 4nat, 0nat,
{
    if !m.success {
        m
    } else {
        let a = one_or_more_model(FuncV::PrimWord(seq!['\r', '\n']), m);
        if a.success {
            a
        } else {
            let b = one_or_more_model(FuncV::PrimWord(seq!['\n']), m);
            if b.success {
                b
            } else {
                failed(m)
            }
        }
    }
}

/// `prim_eols_or_eof`: line ends, or else end of input.
pub open spec fn eols_or_eof_model(m: ParserModel) -> ParserModel
    decreases m.input_remaining.len(), 7nat, 0nat,
    via eols_or_eof_model_dec
{
    if !m.success {
        m
    } else {
        first_success_model(seq![FuncV::PrimEols, FuncV::PrimEof], m)
    }
}

/// `el_int`: optional minus sign, then digits, folded into an `Int64`
/// element.  A buffer that is not a literal with a value representable in
/// 64 bits is a failure of this parser.
pub open spec fn el_int_model(m: ParserModel) -> ParserModel
    decreases m.input_remaining.len(), 4nat, 0nat,
{
    if !m.success {
        m
    } else {
        let m0 = flag_off(m);
        let m1 = capped(m, optional_model(FuncV::PrimWord(seq!['-']), m0));
        let m2 = capped(m, one_or_more_model(FuncV::PrimDigit, m1));
        let m3 = flag_restore(m, m2);
        if m3.success {
            match i64_of_lit(m3.chomp) {
                Some(v) => ParserModel {
                    output: m3.output.push(
                        ElemV {
                            el_type: Some(ParserElementType::Int64),
                            int64: Some(v),
                            ..empty_elem()
                        },
                    ),
                    chomp: Seq::empty(),
                    ..m3
                },
                None => failed(m3),
            }
        } else {
            m3
        }
    }
}

/// `el_float`: optional minus sign, digits, a point, digits, folded into
/// a `Float64` element holding the IEEE bit pattern of the literal.
pub open spec fn el_float_model(m: ParserModel) -> ParserModel
    decreases m.input_remaining.len(), 4nat, 0nat,
{
    if !m.success {
        m
    } else {
        let m0 = flag_off(m);
        let m1 = capped(m, optional_model(FuncV::PrimWord(seq!['-']), m0));
        let m2 = capped(m, one_or_more_model(FuncV::PrimDigit, m1));
        let m3 = capped(m, pw_model(m2, seq!['.']));
        let m4 = capped(m, one_or_more_model(FuncV::PrimDigit, m3));
        let m5 = flag_restore(m, m4);
        if m5.success {
            ParserModel {
                output: m5.output.push(
                    ElemV {
                        el_type: Some(ParserElementType::Float64),
                        float64_bits: Some(float_bits_of(m5.chomp)),
                        ..empty_elem()
                    },
                ),
                chomp: Seq::empty(),
                ..m5
            }
        } else {
            m5
        }
    }
}

/// `el_str`: an opening quote, then anything up to the closing quote (or
/// the end of input), folded into a `Str` element.  The quotes are not
/// chomped, so they are no part of the value.
pub open spec fn el_str_model(m: ParserModel) -> ParserModel
    decreases m.input_remaining.len(), 6nat, 0nat,
    via el_str_model_dec
{
    if !m.success {
        m
    } else {
        let m0 = flag_off(m);
        let m1 = capped(m, quote_model(m0));
        let m2 = capped(m, until_model(seq![FuncV::PrimQuote, FuncV::PrimNext], m1));
        let m3 = flag_restore(m, m2);
        if m3.success {
            ParserModel {
                output: m3.output.push(
                    ElemV { el_type: Some(ParserElementType::Str), string: Some(m3.chomp), ..empty_elem() },
                ),
                chomp: Seq::empty(),
                ..m3
            }
        } else {
            m3
        }
    }
}

/// `el_var`: one or more non-space grapheme clusters, then a mandatory
/// space, folded into a `Var` element carrying the name (without the
/// space) and no value yet.
pub open spec fn el_var_model(m: ParserModel) -> ParserModel
    decreases m.input_remaining.len(), 4nat, 0nat,
{
    if !m.success {
        m
    } else {
        let m1 = capped(m, one_or_more_model(FuncV::PrimChar, m));
        let m2 = capped(m, pw_model(m1, seq![' ']));
        if m2.success {
            let nl: int = if m2.chomp.len() >= 1 {
                m2.chomp.len() - 1
            } else {
                0
            };
            let name = m2.chomp.take(nl);
            ParserModel {
                output: m2.output.push(
                    ElemV { el_type: Some(ParserElementType::Var), var_name: Some(name), ..empty_elem() },
                ),
                chomp: Seq::empty(),
                ..m2
            }
        } else {
            m2
        }
    }
}

/// The element two same-typed operands fold into: the sum, with native
/// wrapping 64-bit integer semantics or IEEE binary64 semantics.  `None`
/// is a hard failure: operands of differing types, strings, or operands
/// without the payload their type implies cannot be summed.
pub open spec fn sum_fold(e1: ElemV, e2: ElemV) -> Option<ElemV> {
    match (e1.el_type, e2.el_type) {
        (Some(t1), Some(t2)) => if t1 == t2 {
            match t1 {
                ParserElementType::Int64 => match (e1.int64, e2.int64) {
                    (Some(v1), Some(v2)) => Some(
                        ElemV {
                            el_type: Some(ParserElementType::Int64),
                            int64: Some(vstd::wrapping::i64_specs::wrapping_add(v1, v2)),
                            ..empty_elem()
                        },
                    ),
                    _ => None,
                },
                ParserElementType::Str => None,
                _ => match (e1.float64_bits, e2.float64_bits) {
                    (Some(b1), Some(b2)) => Some(
                        ElemV {
                            el_type: Some(ParserElementType::Float64),
                            float64_bits: Some(float_add_bits(b1, b2)),
                            ..empty_elem()
                        },
                    ),
                    _ => None,
                },
            }
        } else {
            None
        },
        _ => None,
    }
}

/// One alternative of `fn_var_sum`: the opening token, a value, a space,
/// a value, and for the bracketed form a closing bracket.
pub open spec fn sum_branch_model(m: ParserModel, open_tok: Seq<char>, bracket: bool) -> ParserModel
    decreases m.input_remaining.len(), 0nat, 0nat,
{
    if open_tok.len() == 0 {
        failed(m)
    } else {
        let a = pw_model(m, open_tok);
        if !a.success {
            a
        } else {
            let b = chomp_cleared(a);
            let c = capped(b, first_success_model(sum_alts(), b));
            let d = capped(b, pw_model(c, seq![' ']));
            let e = chomp_cleared(d);
            let f = capped(b, first_success_model(sum_alts(), e));
            if bracket {
                capped(b, pw_model(f, seq![')']))
            } else {
                f
            }
        }
    }
}

/// `fn_var_sum`: the two grammar alternatives tried in order, then the
/// two newest elements popped and replaced by their fold.  Failure of the
/// fold returns the original state with `success` cleared.
pub open spec fn fn_var_sum_model(m: ParserModel) -> ParserModel
    decreases m.input_remaining.len(), 1nat, 0nat,
{
    if !m.success {
        m
    } else {
        let wb = sum_branch_model(m, seq!['+', ' '], false);
        let br = sum_branch_model(m, seq!['(', '+', ' '], true);
        let s = if wb.success {
            wb
        } else {
            br
        };
        if !s.success {
            failed(m)
        } else {
            match (nth_last(s.output, 1), nth_last(s.output, 0)) {
                (Some(e1), Some(e2)) => match (e1.el_type, e2.el_type) {
                    (Some(_), Some(_)) => match sum_fold(e1, e2) {
                        Some(el) => ParserModel {
                            output: s.output.take(s.output.len() - 2).push(el),
                            chomp: Seq::empty(),
                            ..s
                        },
                        None => failed(m),
                    },
                    _ => s,
                },
                _ => failed(m),
            }
        }
    }
}

/// `fn_var_assign`: `"= "`, a variable name, a value, line ends or end of
/// input; then the name and value elements are popped and their
/// combination upserted into the arena, so one name never has two
/// elements.
pub open spec fn fn_var_assign_model(m: ParserModel) -> ParserModel
    decreases m.input_remaining.len(), 8nat, 0nat,
    via fn_var_assign_model_dec
{
    if !m.success {
        m
    } else {
        let m1 = pw_model(m, seq!['=', ' ']);
        if !m1.success {
            m1
        } else {
            let m2 = capped(m, el_var_model(chomp_cleared(m1)));
            let m3 = capped(m, first_success_model(sum_alts(), m2));
            let m4 = capped(m, eols_or_eof_model(m3));
            if m4.success {
                match (nth_last(m4.output, 1), nth_last(m4.output, 0)) {
                    (Some(name_el), Some(val_el)) => {
                        let combined = ElemV {
                            el_type: Some(ParserElementType::Var),
                            var_name: name_el.var_name,
                            ..val_el
                        };
                        ParserModel {
                            output: upsert(m4.output.take(m4.output.len() - 2), combined),
                            chomp: Seq::empty(),
                            ..m4
                        }
                    },
                    _ => m4,
                }
            } else {
                m4
            }
        }
    }
}

/// One language descriptor compiled from its one-character alias.
pub open spec fn lang_factory_model(
    m: ParserModel,
    alias: Seq<char>,
    d: (FnTypeV, ParamV),
) -> ParserModel {
    if !m.success {
        m
    } else {
        let m1 = pw_model(m, alias);
        if m1.success {
            ParserModel { lang: m1.lang.push(d), ..m1 }
        } else {
            m1
        }
    }
}

/// The `'word'` alias: the quoted text becomes a word descriptor.
pub open spec fn lang_prim_word_model(m: ParserModel) -> ParserModel
    decreases m.input_remaining.len(), 6nat, 0nat,
    via lang_prim_word_model_dec
{
    if !m.success {
        m
    } else {
        let m1 = capped(m, quote_single_model(flag_off(m)));
        let m2 = capped(m, until_model(seq![FuncV::PrimQuoteSingle, FuncV::PrimNext], m1));
        let m3 = flag_restore(m, m2);
        if m3.success {
            ParserModel {
                lang: m3.lang.push((FnTypeV::TakesParserWord, ParamV::Str(m3.chomp))),
                chomp: Seq::empty(),
                ..m3
            }
        } else {
            m3
        }
    }
}

/// One compilation step of the meta-language: the first alias parser that
/// matches.
pub open spec fn lang_one_of_all_model(m: ParserModel) -> ParserModel {
    first_success_model(lang_alts(), m)
}

/// The top-level program parser: statements until the input is exhausted
/// or no statement parser matches.
pub open spec fn parse_model(m: ParserModel) -> ParserModel
    decreases m.input_remaining.len(),
{
    if !m.success || m.input_remaining.len() == 0 {
        m
    } else {
        let m2 = first_success_model(parse_alts(), m);
        if m2.success && m2.input_remaining.len() < m.input_remaining.len() {
            parse_model(m2)
        } else {
            m2
        }
    }
}

/// The compilation loop of the meta-language: alias parsers applied until
/// the description is exhausted or none matches.
pub open spec fn lang_compile_model(m: ParserModel) -> ParserModel
    decreases m.input_remaining.len(),
{
    if !m.success || m.input_remaining.len() == 0 {
        m
    } else {
        let m2 = lang_one_of_all_model(m);
        if m2.success && m2.input_remaining.len() < m.input_remaining.len() {
            lang_compile_model(m2)
        } else {
            m2
        }
    }
}

/// Replay of one compiled descriptor against a target state.
pub open spec fn desc_apply_model(d: (FnTypeV, ParamV), m: ParserModel) -> ParserModel {
    match d.0 {
        FnTypeV::TakesParser(f) => apply_model(f, m),
        FnTypeV::TakesParserWord => match d.1 {
            ParamV::Str(w) => pw_model(m, w),
            _ => m,
        },
        _ => m,
    }
}

/// Replay of a compiled descriptor sequence, in order, skipping the root
/// placeholder.
pub open spec fn interp_model(descs: Seq<(FnTypeV, ParamV)>, i: int, m: ParserModel) -> ParserModel
    decreases descs.len() - i,
{
    if i < 0 || i >= descs.len() {
        m
    } else {
        let m2 = if descs[i] == root_desc() {
            m
        } else {
            desc_apply_model(descs[i], m)
        };
        interp_model(descs, i + 1, m2)
    }
}

/// The whole meta-language path: compile the description, then replay it
/// against a fresh state over the real input.
pub open spec fn aliases_model(input: Seq<char>, lang_s: Seq<char>) -> ParserModel {
    let pl = lang_compile_model(new_model(lang_s));
    interp_model(pl.lang, 0, new_model(input))
}


/// Suppressing error display commutes with trying alternatives, and
/// trying alternatives leaves the display flag as it was.
pub proof fn lemma_first_success_flag(fs: Seq<FuncV>, m: ParserModel)
    ensures
        first_success_model(fs, flag_off(m)) == flag_off(first_success_model(fs, m)),
        first_success_model(fs, m).display_errors == m.display_errors,
    decreases fs.len(),
{
    if m.success && fs.len() > 0 {
        let r = flag_restore(m, apply_model(fs[0], flag_off(m)));
        if !r.success {
            lemma_first_success_flag(fs.skip(1), m);
        }
    }
}

#[via_fn]
proof fn eols_or_eof_model_dec(m: ParserModel) {
    reveal_with_fuel(max_fuel, 5);
}

#[via_fn]
proof fn el_str_model_dec(m: ParserModel) {
    reveal_with_fuel(max_fuel, 5);
}

#[via_fn]
proof fn fn_var_assign_model_dec(m: ParserModel) {
    reveal_with_fuel(max_fuel, 5);
}

#[via_fn]
proof fn lang_prim_word_model_dec(m: ParserModel) {
    reveal_with_fuel(max_fuel, 5);
}

} // verus!
