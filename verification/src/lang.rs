//! The meta-language: alias parsers that compile a textual description
//! of a parser pipeline into descriptors, and the interpreter that
//! replays the descriptors against real input.
use vstd::prelude::*;

use crate::func::{desc_view, funcs_view, ParserFunction, ParserFunctionParam, ParserFunctionType,
    ParserFunctionTypeAndParam};
use crate::model::{aliases_model, capped, desc_apply_model, flag_off, interp_model,
    lang_alts, lang_compile_model, lang_factory_model, lang_one_of_all_model,
    lang_prim_word_model, max_fuel, new_model, root_desc, FnTypeV, FuncV, ParamV, ParserModel};
use crate::prims::str_is;
use crate::state::Parser;

verus! {

/// A short name for what a descriptor invokes, for diagnostics.
pub open spec fn desc_name(d: (FnTypeV, ParamV)) -> Seq<char> {
    match d.0 {
        FnTypeV::NoFunction => "none"@,
        FnTypeV::TakesParser(_) => "takes parser"@,
        FnTypeV::TakesParserWord => "takes parser and word"@,
        FnTypeV::TakesParserFn(_) => "takes parser and function"@,
    }
}

impl Parser {
    /// The first language-alias parser that matches: words first, then
    /// the one-character aliases.
    pub fn lang_one_of_all_lang_parsers(self) -> (r: Parser)
        ensures
            r@ == lang_one_of_all_model(self@),
            r@.input_remaining.len() <= self@.input_remaining.len(),
    {
        proof {
            reveal_with_fuel(max_fuel, 10);
        }
        let alts = vec![
            ParserFunction::LangPrimWord,
            ParserFunction::LangPrimEolsOrEof,
            ParserFunction::LangPrimEof,
            ParserFunction::LangPrimEols,
            ParserFunction::LangPrimQuote,
            ParserFunction::LangPrimDigit,
            ParserFunction::LangPrimChar,
            ParserFunction::LangPrimNext,
        ];
        proof {
            assert(funcs_view(alts@) =~= lang_alts());
        }
        self.combi_first_success_of(&alts)
    }

    /// Matches the alias `word` and, on a match, appends the given
    /// descriptor to the language arena.
    pub fn lang_factory_takes_parser(
        self,
        word: &str,
        pf: ParserFunctionTypeAndParam,
        _error_text: &str,
    ) -> (r: Parser)
        ensures
            r@ == lang_factory_model(self@, word@, desc_view(pf)),
            r@.input_remaining.len() <= self@.input_remaining.len(),
    {
        if !self.success {
            return self;
        }
        let s = self.prim_word(word);
        if s.success {
            s.language_arena_append_functionTypeAndParam(pf)
        } else {
            s
        }
    }

    /// The `>` alias: whatever comes next.
    pub fn lang_prim_next(self) -> (r: Parser)
        ensures
            r@ == crate::model::apply_model(FuncV::LangPrimNext, self@),
            r@.input_remaining.len() <= self@.input_remaining.len(),
    {
        proof {
            reveal_strlit(">");
            assert(">"@ =~= seq!['>']);
        }
        Parser::lang_factory_takes_parser(
            self,
            ">",
            (
                ParserFunctionType::TakesParser(ParserFunction::PrimNext),
                ParserFunctionParam::NoParam,
            ),
            "lang_prim_next",
        )
    }

    /// The `"` alias: a double quote.
    pub fn lang_prim_quote(self) -> (r: Parser)
        ensures
            r@ == crate::model::apply_model(FuncV::LangPrimQuote, self@),
            r@.input_remaining.len() <= self@.input_remaining.len(),
    {
        proof {
            reveal_strlit("\"");
            assert("\""@ =~= seq!['"']);
        }
        Parser::lang_factory_takes_parser(
            self,
            "\"",
            (
                ParserFunctionType::TakesParser(ParserFunction::PrimQuote),
                ParserFunctionParam::NoParam,
            ),
            "lang_prim_quote",
        )
    }

    /// The `@` alias: one grapheme cluster that is not a space.
    pub fn lang_prim_char(self) -> (r: Parser)
        ensures
            r@ == crate::model::apply_model(FuncV::LangPrimChar, self@),
            r@.input_remaining.len() <= self@.input_remaining.len(),
    {
        proof {
            reveal_strlit("@");
            assert("@"@ =~= seq!['@']);
        }
        Parser::lang_factory_takes_parser(
            self,
            "@",
            (
                ParserFunctionType::TakesParser(ParserFunction::PrimChar),
                ParserFunctionParam::NoParam,
            ),
            "lang_prim_char",
        )
    }

    /// The `#` alias: one decimal digit.
    pub fn lang_prim_digit(self) -> (r: Parser)
        ensures
            r@ == crate::model::apply_model(FuncV::LangPrimDigit, self@),
            r@.input_remaining.len() <= self@.input_remaining.len(),
    {
        proof {
            reveal_strlit("#");
            assert("#"@ =~= seq!['#']);
        }
        Parser::lang_factory_takes_parser(
            self,
            "#",
            (
                ParserFunctionType::TakesParser(ParserFunction::PrimDigit),
                ParserFunctionParam::NoParam,
            ),
            "lang_prim_digit",
        )
    }

    /// The `,` alias: line ends.
    pub fn lang_prim_eols(self) -> (r: Parser)
        ensures
            r@ == crate::model::apply_model(FuncV::LangPrimEols, self@),
            r@.input_remaining.len() <= self@.input_remaining.len(),
    {
        proof {
            reveal_strlit(",");
            assert(","@ =~= seq![',']);
        }
        Parser::lang_factory_takes_parser(
            self,
            ",",
            (
                ParserFunctionType::TakesParser(ParserFunction::PrimEols),
                ParserFunctionParam::NoParam,
            ),
            "lang_prim_eols",
        )
    }

    /// The `.` alias: the end of the input.
    pub fn lang_prim_eof(self) -> (r: Parser)
        ensures
            r@ == crate::model::apply_model(FuncV::LangPrimEof, self@),
            r@.input_remaining.len() <= self@.input_remaining.len(),
    {
        proof {
            reveal_strlit(".");
            assert("."@ =~= seq!['.']);
        }
        Parser::lang_factory_takes_parser(
            self,
            ".",
            (
                ParserFunctionType::TakesParser(ParserFunction::PrimEof),
                ParserFunctionParam::NoParam,
            ),
            "lang_prim_eof",
        )
    }

    /// The `;` alias: line ends or the end of the input.
    pub fn lang_prim_eols_or_eof(self) -> (r: Parser)
        ensures
            r@ == crate::model::apply_model(FuncV::LangPrimEolsOrEof, self@),
            r@.input_remaining.len() <= self@.input_remaining.len(),
    {
        proof {
            reveal_strlit(";");
            assert(";"@ =~= seq![';']);
        }
        Parser::lang_factory_takes_parser(
            self,
            ";",
            (
                ParserFunctionType::TakesParser(ParserFunction::PrimEolsOrEof),
                ParserFunctionParam::NoParam,
            ),
            "lang_prim_eols_or_eof",
        )
    }

    /// The `'word'` alias: the quoted text becomes a word descriptor.
    pub fn lang_prim_word(self) -> (r: Parser)
        ensures
            r@ == lang_prim_word_model(self@),
            r@.input_remaining.len() <= self@.input_remaining.len(),
        decreases self@.input_remaining.len(), 6nat, 0nat,
    {
        if !self.success {
            return self;
        }
        let ghost m = self@;
        let prev_flag = self.display_errors;
        let mut s = self;
        s.display_errors = false;
        proof {
            reveal_with_fuel(max_fuel, 5);
        }
        let s = s.prim_quote_single();
        proof {
            assert(s@ == capped(m, crate::model::quote_single_model(flag_off(m))));
        }
        let alts = vec![ParserFunction::PrimQuoteSingle, ParserFunction::PrimNext];
        proof {
            assert(funcs_view(alts@) =~= seq![FuncV::PrimQuoteSingle, FuncV::PrimNext]);
        }
        let mut s = s.combi_until_first_do_second(&alts);
        s.display_errors = prev_flag;
        if s.success {
            let fp = (
                ParserFunctionType::TakesParserWord,
                ParserFunctionParam::String(s.chomp.clone()),
            );
            let s = s.language_arena_append_functionTypeAndParam(fp);
            let s = s.chomp_clear();
            s
        } else {
            s
        }
    }

    /// Maps a terse alias to the language parser that reads it; anything
    /// unknown falls back to the end-of-input alias.
    pub fn get_parser_function_by_name(name: String) -> (r: ParserFunction)
        ensures
            r@ == name_to_lang_parser(name@),
    {
        if str_is(name.as_str(), ">") {
            ParserFunction::LangPrimNext
        } else if str_is(name.as_str(), "\"") {
            ParserFunction::LangPrimQuote
        } else if str_is(name.as_str(), "@") {
            ParserFunction::LangPrimChar
        } else if str_is(name.as_str(), "#") {
            ParserFunction::LangPrimDigit
        } else if str_is(name.as_str(), ",") {
            ParserFunction::LangPrimEols
        } else if str_is(name.as_str(), ".") {
            ParserFunction::LangPrimEof
        } else if str_is(name.as_str(), ";") {
            ParserFunction::LangPrimEolsOrEof
        } else {
            ParserFunction::LangPrimEof
        }
    }

    /// A line describing the newest compiled descriptor, for debugging a
    /// language description.
    pub fn test_printing_functionTypeAndParam(self, s: &str) -> (r: String)
        ensures
            r@ == "#### "@ + s@ + describe_last(self@.lang),
    {
        let ghost lang = self@.lang;
        let last = self.language_arena_get_last_child_functionTypeAndParam();
        let mut out = String::new();
        out.append("#### ");
        out.append(s);
        let tail: &str = match last {
            Some(d) => match d.0 {
                ParserFunctionType::NoFunction => "none",
                ParserFunctionType::TakesParser(_) => "takes parser",
                ParserFunctionType::TakesParserWord => "takes parser and word",
                ParserFunctionType::TakesParserFn(_) => "takes parser and function",
            },
            None => "no descriptor",
        };
        out.append(tail);
        proof {
            assert(out@ =~= "#### "@ + s@ + describe_last(lang));
        }
        out
    }

    /// The compilation loop: alias parsers applied until the
    /// description is exhausted or none matches.
    fn lang_compile(self) -> (r: Parser)
        ensures
            r@ == lang_compile_model(self@),
            r@.input_remaining.len() <= self@.input_remaining.len(),
        decreases self@.input_remaining.len(),
    {
        if !self.success {
            return self;
        }
        let lb = self.input_remaining.as_str().unicode_len();
        if lb == 0 {
            return self;
        }
        let s = self.lang_one_of_all_lang_parsers();
        if !s.success {
            return s;
        }
        let la = s.input_remaining.as_str().unicode_len();
        if la >= lb {
            return s;
        }
        s.lang_compile()
    }

    /// Compiles `parser_lang_string` — a description of a parser
    /// pipeline in the terse alias language — into descriptors, then
    /// replays them, in order, against a fresh parser over
    /// `input_string`.
    pub fn new_and_parse_aliases(input_string: &str, parser_lang_string: &str) -> (r: Parser)
        ensures
            r@ == aliases_model(input_string@, parser_lang_string@),
    {
        let parser_lang = Parser::new(parser_lang_string).lang_compile();
        let ghost descs = parser_lang@.lang;
        let mut parser = Parser::new(input_string);
        let mut i: usize = 0;
        while i < parser_lang.language_arena.len()
            invariant
                i <= parser_lang.language_arena@.len(),
                descs == parser_lang@.lang,
                interp_model(descs, 0, new_model(input_string@)) == interp_model(
                    descs,
                    i as int,
                    parser@,
                ),
            decreases parser_lang.language_arena@.len() - i,
        {
            let ghost before = parser@;
            let d = &parser_lang.language_arena[i];
            match &d.0 {
                ParserFunctionType::NoFunction => {},
                ParserFunctionType::TakesParser(f) => {
                    parser = parser.apply(f);
                },
                ParserFunctionType::TakesParserWord => {
                    match &d.1 {
                        ParserFunctionParam::String(w) => {
                            parser = parser.prim_word(w.as_str());
                        },
                        _ => {},
                    }
                },
                ParserFunctionType::TakesParserFn(_) => {},
            }
            proof {
                if desc_view(parser_lang.language_arena@[i as int]) == root_desc() {
                    assert(parser@ == before);
                } else {
                    assert(parser@ == desc_apply_model(descs[i as int], before));
                }
            }
            i = i + 1;
        }
        parser
    }
}

/// The language parser each terse alias names; anything unknown maps to
/// the end-of-input alias.
pub open spec fn name_to_lang_parser(s: Seq<char>) -> FuncV {
    if s == ">"@ {
        FuncV::LangPrimNext
    } else if s == "\""@ {
        FuncV::LangPrimQuote
    } else if s == "@"@ {
        FuncV::LangPrimChar
    } else if s == "#"@ {
        FuncV::LangPrimDigit
    } else if s == ","@ {
        FuncV::LangPrimEols
    } else if s == "."@ {
        FuncV::LangPrimEof
    } else if s == ";"@ {
        FuncV::LangPrimEolsOrEof
    } else {
        FuncV::LangPrimEof
    }
}

/// What `test_printing_functionTypeAndParam` says of the newest
/// descriptor.
pub open spec fn describe_last(lang: Seq<(FnTypeV, ParamV)>) -> Seq<char> {
    match crate::model::nth_last_desc(lang, 0) {
        Some(d) => desc_name(d),
        None => "no descriptor"@,
    }
}

} // verus!
