//! The meta-language: compiling alias descriptions and replaying them.
use parser_combinators::{Parser, ParserFunction};

#[test]
fn test_lang_one_of_all_lang_parsers() {
    let language_string = ">";
    let p = Parser::new(language_string);
    let result = Parser::lang_one_of_all_lang_parsers(p);
    assert_eq!(result.input_original, language_string);
}

#[test]
fn test_get_parser_function_by_name() {
    assert_eq!(
        Parser::get_parser_function_by_name(">".to_string()) == ParserFunction::LangPrimNext,
        true
    );
}

#[test]
fn test_lang_prim_word() {
    let input_str = "test";
    let language_string = "'test'";
    let result = Parser::new_and_parse_aliases(input_str, language_string);
    assert_eq!(result.input_original, input_str);
    assert_eq!(result.chomp, "test");
    assert_eq!(result.success, true);
}

#[test]
fn test_lang_prim_eols_or_eof() {
    let mut input_str = "\r\n\r\n\r\n!\n";
    let mut language_string = ",@,";
    let mut result = Parser::new_and_parse_aliases(input_str, language_string);
    assert_eq!(result.input_original, input_str);
    assert_eq!(result.input_remaining, "");
    assert_eq!(result.chomp, "\r\n\r\n\r\n!\n");
    assert_eq!(result.success, true);

    input_str = "a";
    language_string = "@.";
    result = Parser::new_and_parse_aliases(input_str, language_string);
    assert_eq!(result.input_original, input_str);
    assert_eq!(result.input_remaining, "");
    assert_eq!(result.chomp, "a");
    assert_eq!(result.success, true);
}

#[test]
fn test_lang_prim_eof() {
    let input_str = "a";
    let language_string = "@.";
    let result = Parser::new_and_parse_aliases(input_str, language_string);
    assert_eq!(result.input_original, input_str);
    assert_eq!(result.input_remaining, "");
    assert_eq!(result.chomp, "a");
    assert_eq!(result.success, true);
}

#[test]
fn test_lang_prim_eols() {
    let input_str = "\r\n\r\n\r\n!\n";
    let language_string = ",@,";
    let result = Parser::new_and_parse_aliases(input_str, language_string);
    assert_eq!(result.input_original, input_str);
    assert_eq!(result.input_remaining, "");
    assert_eq!(result.chomp, "\r\n\r\n\r\n!\n");
    assert_eq!(result.success, true);
}

#[test]
fn test_lang_prim_digit() {
    let input_str = "0123456789";
    let language_string = "##########";
    let result = Parser::new_and_parse_aliases(input_str, language_string);
    assert_eq!(result.input_original, input_str);
    assert_eq!(result.input_remaining, "");
    assert_eq!(result.chomp, "0123456789");
    assert_eq!(result.success, true);
}

#[test]
fn test_lang_prim_char() {
    let input_str = "+%!";
    let language_string = "@@@";
    let result = Parser::new_and_parse_aliases(input_str, language_string);
    assert_eq!(result.input_original, input_str);
    assert_eq!(result.input_remaining, "");
    assert_eq!(result.chomp, "+%!");
    assert_eq!(result.success, true);
}

#[test]
fn test_lang_prim_quote() {
    let input_str = "\"\"\"";
    let language_string = "\"\"\"";
    let result = Parser::new_and_parse_aliases(input_str, language_string);
    assert_eq!(result.input_original, input_str);
    assert_eq!(result.input_remaining, "");
    assert_eq!(result.chomp, "");
    assert_eq!(result.success, true);
}

#[test]
fn test_lang_prim_next() {
    let input_str = "123";
    let language_string = ">>>";
    let result = Parser::new_and_parse_aliases(input_str, language_string);
    assert_eq!(result.input_original, input_str);
    assert_eq!(result.input_remaining, "");
    assert_eq!(result.chomp, "123");
    assert_eq!(result.success, true);
}

#[test]
fn test_language_arena_holds_compiled_descriptors() {
    // three aliases compile to the root placeholder plus three descriptors
    let result = Parser::new_and_parse_aliases("12a", "##@");
    assert_eq!(result.success, true);
    let lang_parser = Parser::new("##@").lang_one_of_all_lang_parsers();
    assert_eq!(lang_parser.language_arena.len(), 2);
    let last = lang_parser
        .clone()
        .language_arena_get_last_child_functionTypeAndParam();
    assert!(last.is_some());
    let line = lang_parser.test_printing_functionTypeAndParam("compiled: ");
    assert_eq!(line, "#### compiled: takes parser");
}
