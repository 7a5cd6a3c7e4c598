//! The combinators and element parsers.
use parser_combinators::{Parser, ParserElementType, ParserFunction};

#[test]
fn test_combi_optional() {
    let mut parser = Parser::new("a123Test");
    parser.display_errors = false;
    let result = parser.clone().combi_optional(&ParserFunction::PrimChar);
    assert_eq!(result.input_original, parser.input_original);
    assert_eq!(result.input_remaining, "123Test");
    assert_eq!(result.chomp, "a");
    assert_eq!(result.success, true);

    let mut parser = Parser::new("a123Test");
    parser.display_errors = false;
    let result = parser.clone().combi_zero_or_more_of(&ParserFunction::PrimDigit);
    assert_eq!(result.input_original, parser.input_original);
    assert_eq!(result.input_remaining, "a123Test");
    assert_eq!(result.chomp, "");
    assert_eq!(result.success, true);
}

#[test]
fn test_combi_zero_or_more_of() {
    let mut parser = Parser::new("a123Test");
    parser.display_errors = false;
    let result = parser.clone().combi_zero_or_more_of(&ParserFunction::PrimDigit);
    assert_eq!(result.input_original, parser.input_original);
    assert_eq!(result.input_remaining, "a123Test");
    assert_eq!(result.chomp, "");
    assert_eq!(result.success, true);

    let mut parser = Parser::new("123Test");
    parser.display_errors = false;
    let result = parser.clone().combi_zero_or_more_of(&ParserFunction::PrimDigit);
    assert_eq!(result.input_original, parser.input_original);
    assert_eq!(result.input_remaining, "Test");
    assert_eq!(result.chomp, "123");
    assert_eq!(result.success, true);
}

#[test]
fn test_combi_one_or_more_of() {
    let mut parser = Parser::new("a123Test");
    parser.display_errors = false;
    let result = parser.clone().combi_one_or_more_of(&ParserFunction::PrimDigit);
    assert_eq!(result.input_original, parser.input_original);
    assert_eq!(result.input_remaining, "a123Test");
    assert_eq!(result.chomp, "");
    assert_eq!(result.success, false);

    let mut parser = Parser::new("123Test");
    parser.display_errors = false;
    let result = parser.clone().combi_one_or_more_of(&ParserFunction::PrimDigit);
    assert_eq!(result.input_original, parser.input_original);
    assert_eq!(result.input_remaining, "Test");
    assert_eq!(result.chomp, "123");
    assert_eq!(result.success, true);
}

#[test]
//A string
fn test_el_string() {
    let input_str = "\"1234\"";
    let result = Parser::new_and_parse(input_str, &ParserFunction::ElStr);
    assert_eq!(result.input_original, input_str);
    assert_eq!(result.input_remaining, "");
    assert_eq!(result.output_arena.len(), 2);
    let el_option = result.clone().output_arena_get_last_child_element();
    match el_option {
        Some(el) => {
            assert_eq!(el.el_type, Some(ParserElementType::Str));
            assert_eq!(el.string, Some("1234".to_string()));
        }
        _ => panic!("expected a string element"),
    }
    assert_eq!(result.chomp, "");
    assert_eq!(result.success, true);
}

#[test]
fn test_int() {
    //not an el_int
    let mut parser = Parser::new("a123");
    parser.display_errors = false;
    let result = parser.clone().el_int();
    assert_eq!(result.input_original, parser.input_original);
    assert_eq!(result.input_remaining, "a123");
    assert_eq!(result.chomp, "");
    assert_eq!(result.success, false);

    //positive small el_int
    let mut parser = Parser::new("12");
    parser.display_errors = false;
    let result = parser.clone().el_int();
    assert_eq!(result.input_original, parser.input_original);
    assert_eq!(result.input_remaining, "");
    let el_option = result.clone().output_arena_get_last_child_element();
    match el_option {
        Some(el) => {
            assert_eq!(el.el_type, Some(ParserElementType::Int64));
            assert_eq!(el.int64, Some(12));
        }
        _ => panic!("expected an integer element"),
    }
    assert_eq!(result.chomp, "");
    assert_eq!(result.success, true);

    //positive large el_int
    let mut parser = Parser::new("123456");
    parser.display_errors = false;
    let result = parser.clone().el_int();
    assert_eq!(result.input_original, parser.input_original);
    assert_eq!(result.input_remaining, "");
    let el_option = result.clone().output_arena_get_last_child_element();
    match el_option {
        Some(el) => {
            assert_eq!(el.el_type, Some(ParserElementType::Int64));
            assert_eq!(el.int64, Some(123456));
        }
        _ => panic!("expected an integer element"),
    }
    assert_eq!(result.chomp, "");
    assert_eq!(result.success, true);

    //negative el_int
    let mut parser = Parser::new("-123456");
    parser.display_errors = false;
    let result = parser.clone().el_int();
    assert_eq!(result.input_original, parser.input_original);
    assert_eq!(result.input_remaining, "");
    let el_option = result.clone().output_arena_get_last_child_element();
    match el_option {
        Some(el) => {
            assert_eq!(el.el_type, Some(ParserElementType::Int64));
            assert_eq!(el.int64, Some(-123456));
        }
        _ => panic!("expected an integer element"),
    }
    assert_eq!(result.chomp, "");
    assert_eq!(result.success, true);
}

#[test]
fn test_float() {
    //not a el_float
    let mut parser = Parser::new("a123.456");
    parser.display_errors = false;
    let result = parser.clone().el_float();
    assert_eq!(result.input_original, parser.input_original);
    assert_eq!(result.input_remaining, "a123.456");
    assert_eq!(result.chomp, "");
    assert_eq!(result.success, false);

    //positive small el_float
    let mut parser = Parser::new("12.34");
    parser.display_errors = false;
    let result = parser.clone().el_float();
    assert_eq!(result.input_original, parser.input_original);
    assert_eq!(result.input_remaining, "");
    let el_option = result.clone().output_arena_get_last_child_element();
    match el_option {
        Some(el) => {
            assert_eq!(el.el_type, Some(ParserElementType::Float64));
            assert_eq!(el.float64_bits, Some((12.34f64).to_bits()));
        }
        _ => panic!("expected a float element"),
    }
    assert_eq!(result.chomp, "");
    assert_eq!(result.success, true);

    //positive large el_float
    let mut parser = Parser::new("123456.78");
    parser.display_errors = false;
    let result = parser.clone().el_float();
    assert_eq!(result.input_original, parser.input_original);
    assert_eq!(result.input_remaining, "");
    let el_option = result.clone().output_arena_get_last_child_element();
    match el_option {
        Some(el) => {
            assert_eq!(el.el_type, Some(ParserElementType::Float64));
            assert_eq!(el.float64_bits, Some((123456.78f64).to_bits()));
        }
        _ => panic!("expected a float element"),
    }
    assert_eq!(result.chomp, "");
    assert_eq!(result.success, true);

    //negative el_float
    let mut parser = Parser::new("-123456.78");
    parser.display_errors = false;
    let result = parser.clone().el_float();
    assert_eq!(result.input_original, parser.input_original);
    assert_eq!(result.input_remaining, "");
    let el_option = result.clone().output_arena_get_last_child_element();
    match el_option {
        Some(el) => {
            assert_eq!(el.el_type, Some(ParserElementType::Float64));
            assert_eq!(el.float64_bits, Some((-123456.78f64).to_bits()));
        }
        _ => panic!("expected a float element"),
    }
    assert_eq!(result.chomp, "");
    assert_eq!(result.success, true);
}

#[test]
fn test_variable() {
    //not a el_var
    let mut parser = Parser::new(" x = 1");
    parser.display_errors = false;
    let result = parser.clone().el_var();
    assert_eq!(result.input_original, parser.input_original);
    assert_eq!(result.input_remaining, " x = 1");
    assert_eq!(result.chomp, "");
    assert_eq!(result.success, false);

    //short name el_var
    let mut parser = Parser::new("x = 1");
    parser.display_errors = false;
    let result = parser.clone().el_var();
    assert_eq!(result.input_original, parser.input_original);
    assert_eq!(result.input_remaining, "= 1");
    let el_option = result.clone().output_arena_get_last_child_element();
    match el_option {
        Some(el) => {
            assert_eq!(el.el_type, Some(ParserElementType::Var));
            assert_eq!(el.var_name, Some("x".to_string()));
        }
        _ => panic!("expected a variable element"),
    }
    assert_eq!(result.chomp, "");
    assert_eq!(result.success, true);

    //long name el_var with grapheme
    let mut parser = Parser::new("e\u{301}xample_long_variable_name = 123.45");
    parser.display_errors = false;
    let result = parser.clone().el_var();
    assert_eq!(result.input_original, parser.input_original);
    assert_eq!(result.input_remaining, "= 123.45");
    let el_option = result.clone().output_arena_get_last_child_element();
    match el_option {
        Some(el) => {
            assert_eq!(el.el_type, Some(ParserElementType::Var));
            assert_eq!(
                el.var_name,
                Some("e\u{301}xample_long_variable_name".to_string())
            );
        }
        _ => panic!("expected a variable element"),
    }
    assert_eq!(result.chomp, "");
    assert_eq!(result.success, true);
}

#[test]
fn test_int_overflow_is_a_parse_failure() {
    // twenty digits exceed what a 64-bit word can hold
    let mut parser = Parser::new("99999999999999999999");
    parser.display_errors = false;
    let result = parser.clone().el_int();
    assert_eq!(result.success, false);

    // the extremes themselves are representable
    let result = Parser::new("9223372036854775807").el_int();
    assert_eq!(result.success, true);
    let el = result.output_arena_get_last_child_element().unwrap();
    assert_eq!(el.int64, Some(i64::MAX));
    let result = Parser::new("-9223372036854775808").el_int();
    assert_eq!(result.success, true);
    let el = result.output_arena_get_last_child_element().unwrap();
    assert_eq!(el.int64, Some(i64::MIN));
}
