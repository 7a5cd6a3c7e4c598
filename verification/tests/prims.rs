//! The primitive matchers, exercised one by one.
use parser_combinators::{Parser, ParserFunction};

#[test]
fn test_prim_next() {
    //Fails
    let input_str = "";
    let result = Parser::new_and_parse(input_str, &ParserFunction::PrimNext);
    assert_eq!(result.input_original, input_str);
    assert_eq!(result.input_remaining, "");
    assert_eq!(result.chomp, "");
    assert_eq!(result.success, false);

    //character alpha
    let input_str = "abc";
    let result = Parser::new_and_parse(input_str, &ParserFunction::PrimNext);
    assert_eq!(result.input_original, input_str);
    assert_eq!(result.input_remaining, "bc");
    assert_eq!(result.chomp, "a");
    assert_eq!(result.success, true);

    //character number
    let input_str = "1bc";
    let result = Parser::new_and_parse(input_str, &ParserFunction::PrimNext);
    assert_eq!(result.input_original, input_str);
    assert_eq!(result.input_remaining, "bc");
    assert_eq!(result.chomp, "1");
    assert_eq!(result.success, true);

    //character special
    let input_str = "~bc";
    let result = Parser::new_and_parse(input_str, &ParserFunction::PrimNext);
    assert_eq!(result.input_original, input_str);
    assert_eq!(result.input_remaining, "bc");
    assert_eq!(result.chomp, "~");
    assert_eq!(result.success, true);

    //character backslash
    let input_str = "\\bc";
    let result = Parser::new_and_parse(input_str, &ParserFunction::PrimNext);
    assert_eq!(result.input_original, input_str);
    assert_eq!(result.input_remaining, "bc");
    assert_eq!(result.chomp, "\\");
    assert_eq!(result.success, true);

    //character unicode: an e with a combining accent is one grapheme
    let input_str = "e\u{301}bc";
    let result = Parser::new_and_parse(input_str, &ParserFunction::PrimNext);
    assert_eq!(result.input_original, input_str);
    assert_eq!(result.input_remaining, "bc");
    assert_eq!(result.chomp, "e\u{301}");
    assert_eq!(result.success, true);
}

#[test]
fn test_prim_word() {
    let parser = Parser::new("Testing 123");
    let result = parser
        .clone()
        .prim_word("Test")
        .prim_word("ing")
        .prim_word(" ")
        .prim_word("123");
    assert_eq!(result.input_original, parser.input_original);
    assert_eq!(result.input_remaining, "");
    assert_eq!(result.chomp, "Testing 123");
    assert_eq!(result.success, true);
}

#[test]
fn test_prim_char() {
    //fail
    let mut parser = Parser::new("Te sting 123");
    parser.display_errors = false;
    let result = parser
        .clone()
        .prim_char()
        .prim_char()
        .prim_char()
        .prim_char();
    assert_eq!(result.input_original, parser.input_original);
    assert_eq!(result.input_remaining, " sting 123");
    assert_eq!(result.chomp, "Te");
    assert_eq!(result.success, false);

    //succeed
    let mut parser = Parser::new("Testing 123");
    parser.display_errors = false;
    let result = parser
        .clone()
        .prim_char()
        .prim_char()
        .prim_char()
        .prim_char();
    assert_eq!(result.input_original, parser.input_original);
    assert_eq!(result.input_remaining, "ing 123");
    assert_eq!(result.chomp, "Test");
    assert_eq!(result.success, true);
}

#[test]
fn test_prim_digit() {
    let mut parser = Parser::new("123Test");
    parser.display_errors = false;
    let result = parser.clone().prim_digit().prim_digit().prim_digit();
    assert_eq!(result.input_original, parser.input_original);
    assert_eq!(result.input_remaining, "Test");
    assert_eq!(result.chomp, "123");
    assert_eq!(result.success, true);
}

#[test]
fn test_prim_eols() {
    //not an eol
    let mut parser = Parser::new("1");
    parser.display_errors = false;
    let result = parser.clone().prim_eols();
    assert_eq!(result.input_original, parser.input_original);
    assert_eq!(result.input_remaining, "1");
    assert_eq!(result.chomp, "");
    assert_eq!(result.success, false);

    //single eol1
    let mut parser = Parser::new("\n");
    parser.display_errors = false;
    let result = parser.clone().prim_eols();
    assert_eq!(result.input_original, parser.input_original);
    assert_eq!(result.input_remaining, "");
    assert_eq!(result.chomp, "\n");
    assert_eq!(result.success, true);

    //single eol2
    let mut parser = Parser::new("\r\n");
    parser.display_errors = false;
    let result = parser.clone().prim_eols();
    assert_eq!(result.input_original, parser.input_original);
    assert_eq!(result.input_remaining, "");
    assert_eq!(result.chomp, "\r\n");
    assert_eq!(result.success, true);

    //multiple eol1
    let mut parser = Parser::new("\n\n\n\n");
    parser.display_errors = false;
    let result = parser.clone().prim_eols();
    assert_eq!(result.input_original, parser.input_original);
    assert_eq!(result.input_remaining, "");
    assert_eq!(result.chomp, "\n\n\n\n");
    assert_eq!(result.success, true);

    //multiple eol2
    let mut parser = Parser::new("\r\n\r\n\r\n\r\n");
    parser.display_errors = false;
    let result = parser.clone().prim_eols();
    assert_eq!(result.input_original, parser.input_original);
    assert_eq!(result.input_remaining, "");
    assert_eq!(result.chomp, "\r\n\r\n\r\n\r\n");
    assert_eq!(result.success, true);
}

#[test]
fn test_prim_eof() {
    //not eof
    let mut parser = Parser::new("1");
    parser.display_errors = false;
    let result = parser.clone().prim_eof();
    assert_eq!(result.input_original, parser.input_original);
    assert_eq!(result.input_remaining, "1");
    assert_eq!(result.chomp, "");
    assert_eq!(result.success, false);

    //eof
    let mut parser = Parser::new("");
    parser.display_errors = false;
    let result = parser.clone().prim_eof();
    assert_eq!(result.input_original, parser.input_original);
    assert_eq!(result.input_remaining, "");
    assert_eq!(result.chomp, "");
    assert_eq!(result.success, true);
}

#[test]
fn test_prim_eof_or_eol() {
    //not eof or eol
    let mut parser = Parser::new("1");
    parser.display_errors = false;
    let result = parser.clone().prim_eols_or_eof();
    assert_eq!(result.input_original, parser.input_original);
    assert_eq!(result.input_remaining, "1");
    assert_eq!(result.chomp, "");
    assert_eq!(result.success, false);

    //eof
    let mut parser = Parser::new("");
    parser.display_errors = false;
    let result = parser.clone().prim_eols_or_eof();
    assert_eq!(result.input_original, parser.input_original);
    assert_eq!(result.input_remaining, "");
    assert_eq!(result.chomp, "");
    assert_eq!(result.success, true);

    //single eol1
    let mut parser = Parser::new("\n");
    parser.display_errors = false;
    let result = parser.clone().prim_eols_or_eof();
    assert_eq!(result.input_original, parser.input_original);
    assert_eq!(result.input_remaining, "");
    assert_eq!(result.chomp, "\n");
    assert_eq!(result.success, true);

    //single eol2
    let mut parser = Parser::new("\r\n");
    parser.display_errors = false;
    let result = parser.clone().prim_eols_or_eof();
    assert_eq!(result.input_original, parser.input_original);
    assert_eq!(result.input_remaining, "");
    assert_eq!(result.chomp, "\r\n");
    assert_eq!(result.success, true);

    //multiple eol1
    let mut parser = Parser::new("\n\n\n\n");
    parser.display_errors = false;
    let result = parser.clone().prim_eols_or_eof();
    assert_eq!(result.input_original, parser.input_original);
    assert_eq!(result.input_remaining, "");
    assert_eq!(result.chomp, "\n\n\n\n");
    assert_eq!(result.success, true);

    //multiple eol2
    let mut parser = Parser::new("\r\n\r\n\r\n\r\n");
    parser.display_errors = false;
    let result = parser.clone().prim_eols_or_eof();
    assert_eq!(result.input_original, parser.input_original);
    assert_eq!(result.input_remaining, "");
    assert_eq!(result.chomp, "\r\n\r\n\r\n\r\n");
    assert_eq!(result.success, true);
}

#[test]
fn test_multiple_parsers() {
    let mut parser = Parser::new("1Test");
    parser.display_errors = false;
    let result = parser.clone().prim_digit().prim_word("Te");
    assert_eq!(result.input_original, parser.input_original);
    assert_eq!(result.input_remaining, "st");
    assert_eq!(result.chomp, "1Te");
    assert_eq!(result.success, true);
}

#[test]
fn test_prim_space_does_not_chomp() {
    let parser = Parser::new(" x");
    let result = parser.prim_space();
    assert_eq!(result.input_remaining, "x");
    assert_eq!(result.chomp, "");
    assert_eq!(result.success, true);
}

#[test]
fn test_prim_quotes_do_not_chomp() {
    let result = Parser::new("\"'").prim_quote().prim_quote_single();
    assert_eq!(result.input_remaining, "");
    assert_eq!(result.chomp, "");
    assert_eq!(result.success, true);
}
