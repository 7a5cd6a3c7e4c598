//! The assignment and sum parsers, and whole programs.
use parser_combinators::{Parser, ParserElementType, ParserFunction};

#[test]
fn test_run2() {
    let input_str = "= x 123";
    let result = Parser::new(input_str).combi_first_success_of(&vec![
        ParserFunction::FnVarAssign,
    ]);
    assert_eq!(result.input_original, input_str);
    assert_eq!(result.input_remaining, "");
    assert_eq!(result.output_arena.len(), 2);
    let el_option = result.clone().output_arena_get_last_child_element();
    match el_option {
        Some(el) => {
            assert_eq!(el.el_type, Some(ParserElementType::Var));
            assert_eq!(el.var_name, Some("x".to_string()));
            assert_eq!(el.int64, Some(123));
        }
        _ => panic!("expected a variable element"),
    }
    assert_eq!(result.chomp, "");
    assert_eq!(result.success, true);
}

#[test]
fn test_variable_sum() {
    //not a valid el_var sum
    let mut parser = Parser::new(" + test 1");
    parser.display_errors = false;
    let result = parser.clone().fn_var_sum();
    assert_eq!(result.input_original, parser.input_original);
    assert_eq!(result.input_remaining, " + test 1");
    assert_eq!(result.chomp, "");
    assert_eq!(result.success, false);

    //short el_int plus short el_int, with combi_optional brackets
    let mut parser = Parser::new("(+ 1 2)");
    parser.display_errors = false;
    let result = parser.clone().fn_var_sum();
    assert_eq!(result.input_original, parser.input_original);
    assert_eq!(result.input_remaining, "");
    let el_option = result.clone().output_arena_get_last_child_element();
    match el_option {
        Some(el) => {
            assert_eq!(el.el_type, Some(ParserElementType::Int64));
            assert_eq!(el.int64, Some(3));
        }
        _ => panic!("expected an integer element"),
    }
    assert_eq!(result.chomp, "");
    assert_eq!(result.success, true);

    //short el_int plus short el_int
    let mut parser = Parser::new("+ 1 2");
    parser.display_errors = false;
    let result = parser.clone().fn_var_sum();
    assert_eq!(result.input_original, parser.input_original);
    assert_eq!(result.input_remaining, "");
    let el_option = result.clone().output_arena_get_last_child_element();
    match el_option {
        Some(el) => {
            assert_eq!(el.el_type, Some(ParserElementType::Int64));
            assert_eq!(el.int64, Some(3));
        }
        _ => panic!("expected an integer element"),
    }
    assert_eq!(result.chomp, "");
    assert_eq!(result.success, true);

    //long el_int plus long el_int
    let mut parser = Parser::new("+ 11111 22222");
    parser.display_errors = false;
    let result = parser.clone().fn_var_sum();
    assert_eq!(result.input_original, parser.input_original);
    assert_eq!(result.input_remaining, "");
    let el_option = result.clone().output_arena_get_last_child_element();
    match el_option {
        Some(el) => {
            assert_eq!(el.el_type, Some(ParserElementType::Int64));
            assert_eq!(el.int64, Some(33333));
        }
        _ => panic!("expected an integer element"),
    }
    assert_eq!(result.chomp, "");
    assert_eq!(result.success, true);

    //long el_int plus negative long el_int
    let mut parser = Parser::new("+ 11111 -22222");
    parser.display_errors = false;
    let result = parser.clone().fn_var_sum();
    assert_eq!(result.input_original, parser.input_original);
    assert_eq!(result.input_remaining, "");
    let el_option = result.clone().output_arena_get_last_child_element();
    match el_option {
        Some(el) => {
            assert_eq!(el.el_type, Some(ParserElementType::Int64));
            assert_eq!(el.int64, Some(-11111));
        }
        _ => panic!("expected an integer element"),
    }
    assert_eq!(result.chomp, "");
    assert_eq!(result.success, true);

    //short el_float plus short el_float
    let mut parser = Parser::new("+ 1.1 2.2");
    parser.display_errors = false;
    let result = parser.clone().fn_var_sum();
    assert_eq!(result.input_original, parser.input_original);
    assert_eq!(result.input_remaining, "");
    let el_option = result.clone().output_arena_get_last_child_element();
    match el_option {
        Some(el) => {
            assert_eq!(el.el_type, Some(ParserElementType::Float64));
            assert_eq!(el.float64_bits, Some((3.3000000000000003f64).to_bits())); // yikes, floats
        }
        _ => panic!("expected a float element"),
    }
    assert_eq!(result.chomp, "");
    assert_eq!(result.success, true);

    //long el_float plus long el_float
    let mut parser = Parser::new("+ 11111.11111 22222.22222");
    parser.display_errors = false;
    let result = parser.clone().fn_var_sum();
    assert_eq!(result.input_original, parser.input_original);
    assert_eq!(result.input_remaining, "");
    let el_option = result.clone().output_arena_get_last_child_element();
    match el_option {
        Some(el) => {
            assert_eq!(el.el_type, Some(ParserElementType::Float64));
            assert_eq!(el.float64_bits, Some((33333.33333f64).to_bits())); // yikes, floats
        }
        _ => panic!("expected a float element"),
    }
    assert_eq!(result.chomp, "");
    assert_eq!(result.success, true);

    //long el_float plus negative long el_float
    let mut parser = Parser::new("+ 11111.11111 -22222.22222");
    parser.display_errors = false;
    let result = parser.clone().fn_var_sum();
    assert_eq!(result.input_original, parser.input_original);
    assert_eq!(result.input_remaining, "");
    let el_option = result.clone().output_arena_get_last_child_element();
    match el_option {
        Some(el) => {
            assert_eq!(el.el_type, Some(ParserElementType::Float64));
            assert_eq!(el.float64_bits, Some((-11111.11111f64).to_bits())); // yikes, floats
        }
        _ => panic!("expected a float element"),
    }
    assert_eq!(result.chomp, "");
    assert_eq!(result.success, true);
}

#[test]
fn test_multiple_variable_assign() {
    let input_string = "= x + 1 2\r\n= y + 3 4\r\n= z + 5.0 6.0";
    let parser = Parser::new(input_string);
    let result = parser.parse();
    assert_eq!(result.input_original, input_string);
    assert_eq!(result.input_remaining, "");

    let el_option = result.clone().output_arena_get_nth_last_child_element(2);
    match el_option {
        Some(el) => {
            assert_eq!(el.el_type, Some(ParserElementType::Var));
            assert_eq!(el.var_name, Some("x".to_string()));
            assert_eq!(el.int64, Some(3));
        }
        _ => panic!("expected a variable element"),
    }

    let el_option = result.clone().output_arena_get_nth_last_child_element(1);
    match el_option {
        Some(el) => {
            assert_eq!(el.el_type, Some(ParserElementType::Var));
            assert_eq!(el.var_name, Some("y".to_string()));
            assert_eq!(el.int64, Some(7));
        }
        _ => panic!("expected a variable element"),
    }

    let el_option = result.clone().output_arena_get_nth_last_child_element(0);
    match el_option {
        Some(el) => {
            assert_eq!(el.el_type, Some(ParserElementType::Var));
            assert_eq!(el.var_name, Some("z".to_string()));
            assert_eq!(el.float64_bits, Some((11.0f64).to_bits()));
        }
        _ => panic!("expected a variable element"),
    }
    assert_eq!(result.chomp, "");
    assert_eq!(result.success, true);

    //don't create new var_name if already exists, update it
    let mut parser = Parser::new("= x + 1 2\r\n= x + 3 4");
    parser.display_errors = false;
    let result = parser.clone().parse();
    assert_eq!(result.input_original, parser.input_original);
    assert_eq!(result.input_remaining, "");
    let el_option = result.clone().output_arena_get_last_child_element();
    match el_option {
        Some(el) => {
            assert_eq!(el.el_type, Some(ParserElementType::Var));
            assert_eq!(el.var_name, Some("x".to_string()));
            assert_eq!(el.int64, Some(7));
        }
        _ => panic!("expected a variable element"),
    }
    assert_eq!(result.chomp, "");
    assert_eq!(result.success, true);
}

#[test]
fn test_variable_assign() {
    //not a el_var assignment
    let input_string = " = x 1";
    let result = Parser::new_and_parse(input_string, &ParserFunction::FnVarAssign);
    assert_eq!(result.input_original, input_string);
    assert_eq!(result.input_remaining, " = x 1");
    assert_eq!(result.chomp, "");
    assert_eq!(result.success, false);

    //"= x (+ 1 (+ 2 (+ 3 4)))", i.e. x = 1 + (2 + (3 + 4))
    //as below with brackets notation
    let input_string = "= x (+ 1 (+ 2 (+ 3 4)))";
    let result = Parser::new_and_parse(input_string, &ParserFunction::FnVarAssign);
    assert_eq!(result.input_original, input_string);
    assert_eq!(result.input_remaining, "");
    let el_option = result.clone().output_arena_get_last_child_element();
    match el_option {
        Some(el) => {
            assert_eq!(el.el_type, Some(ParserElementType::Var));
            assert_eq!(el.var_name, Some("x".to_string()));
            assert_eq!(el.int64, Some(10));
        }
        _ => panic!("expected a variable element"),
    }
    assert_eq!(result.chomp, "");
    assert_eq!(result.success, true);

    //"= x + 1 + 2 + 3 4", i.e. x = 1 + (2 + (3 + 4))
    let input_string = "= x + 1 + 2 + 3 4";
    let result = Parser::new_and_parse(input_string, &ParserFunction::FnVarAssign);
    assert_eq!(result.input_original, input_string);
    assert_eq!(result.input_remaining, "");
    let el_option = result.clone().output_arena_get_last_child_element();
    match el_option {
        Some(el) => {
            assert_eq!(el.el_type, Some(ParserElementType::Var));
            assert_eq!(el.var_name, Some("x".to_string()));
            assert_eq!(el.int64, Some(10));
        }
        _ => panic!("expected a variable element"),
    }
    assert_eq!(result.chomp, "");
    assert_eq!(result.success, true);

    //"= x + + 1 2 + 3 4", i.e. x = (1 + 2) + (3 + 4)
    let input_string = "= x + + 1 2 + 3 4";
    let result = Parser::new_and_parse(input_string, &ParserFunction::FnVarAssign);
    assert_eq!(result.input_original, input_string);
    assert_eq!(result.input_remaining, "");
    let el_option = result.clone().output_arena_get_last_child_element();
    match el_option {
        Some(el) => {
            assert_eq!(el.el_type, Some(ParserElementType::Var));
            assert_eq!(el.var_name, Some("x".to_string()));
            assert_eq!(el.int64, Some(10));
        }
        _ => panic!("expected a variable element"),
    }
    assert_eq!(result.chomp, "");
    assert_eq!(result.success, true);

    //"= x + 1 + 2 3", i.e. x = 1 + (2 + 3)
    let input_string = "= x + 1 + 2 3";
    let result = Parser::new_and_parse(input_string, &ParserFunction::FnVarAssign);
    assert_eq!(result.input_original, input_string);
    assert_eq!(result.input_remaining, "");
    let el_option = result.clone().output_arena_get_last_child_element();
    match el_option {
        Some(el) => {
            assert_eq!(el.el_type, Some(ParserElementType::Var));
            assert_eq!(el.var_name, Some("x".to_string()));
            assert_eq!(el.int64, Some(6));
        }
        _ => panic!("expected a variable element"),
    }
    assert_eq!(result.chomp, "");
    assert_eq!(result.success, true);

    //short name el_var assignment to sum of 2 short ints
    let input_string = "= x + 1 2";
    let result = Parser::new_and_parse(input_string, &ParserFunction::FnVarAssign);
    assert_eq!(result.input_original, input_string);
    assert_eq!(result.input_remaining, "");
    let el_option = result.clone().output_arena_get_last_child_element();
    match el_option {
        Some(el) => {
            assert_eq!(el.el_type, Some(ParserElementType::Var));
            assert_eq!(el.var_name, Some("x".to_string()));
            assert_eq!(el.int64, Some(3));
        }
        _ => panic!("expected a variable element"),
    }
    assert_eq!(result.chomp, "");
    assert_eq!(result.success, true);

    //short name el_var assignment to sum of 2 long floats
    let input_string = "= x + 11111.11111 22222.22222";
    let result = Parser::new_and_parse(input_string, &ParserFunction::FnVarAssign);
    assert_eq!(result.input_original, input_string);
    assert_eq!(result.input_remaining, "");
    let el_option = result.clone().output_arena_get_last_child_element();
    match el_option {
        Some(el) => {
            assert_eq!(el.el_type, Some(ParserElementType::Var));
            assert_eq!(el.var_name, Some("x".to_string()));
            assert_eq!(el.float64_bits, Some((33333.33333f64).to_bits()));
        }
        _ => panic!("expected a variable element"),
    }
    assert_eq!(result.chomp, "");
    assert_eq!(result.success, true);

    //short name el_var assignment to short el_int
    let input_string = "= x 1";
    let result = Parser::new_and_parse(input_string, &ParserFunction::FnVarAssign);
    assert_eq!(result.input_original, input_string);
    assert_eq!(result.input_remaining, "");
    let el_option = result.clone().output_arena_get_last_child_element();
    match el_option {
        Some(el) => {
            assert_eq!(el.el_type, Some(ParserElementType::Var));
            assert_eq!(el.var_name, Some("x".to_string()));
            assert_eq!(el.int64, Some(1));
        }
        _ => panic!("expected a variable element"),
    }
    assert_eq!(result.chomp, "");
    assert_eq!(result.success, true);

    //short name el_var assignment to short el_int with newlines
    let input_string = "= x 1\r\n\r\n\r\n";
    let result = Parser::new_and_parse(input_string, &ParserFunction::FnVarAssign);
    assert_eq!(result.input_original, input_string);
    assert_eq!(result.input_remaining, "");
    let el_option = result.clone().output_arena_get_last_child_element();
    match el_option {
        Some(el) => {
            assert_eq!(el.el_type, Some(ParserElementType::Var));
            assert_eq!(el.var_name, Some("x".to_string()));
            assert_eq!(el.int64, Some(1));
        }
        _ => panic!("expected a variable element"),
    }
    assert_eq!(result.chomp, "");
    assert_eq!(result.success, true);

    //long name el_var with grapheme assignment to long negative el_int
    let input_string = "= e\u{301}xample_long_variable_name -123456";
    let result = Parser::new_and_parse(input_string, &ParserFunction::FnVarAssign);
    assert_eq!(result.input_original, input_string);
    assert_eq!(result.input_remaining, "");
    let el_option = result.clone().output_arena_get_last_child_element();
    match el_option {
        Some(el) => {
            assert_eq!(el.el_type, Some(ParserElementType::Var));
            assert_eq!(
                el.var_name,
                Some("e\u{301}xample_long_variable_name".to_string())
            );
            assert_eq!(el.int64, Some(-123456));
        }
        _ => panic!("expected a variable element"),
    }
    assert_eq!(result.chomp, "");
    assert_eq!(result.success, true);

    //short name el_var assignment to short el_float
    let input_string = "= x 1.2";
    let result = Parser::new_and_parse(input_string, &ParserFunction::FnVarAssign);
    assert_eq!(result.input_original, input_string);
    assert_eq!(result.input_remaining, "");
    let el_option = result.clone().output_arena_get_last_child_element();
    match el_option {
        Some(el) => {
            assert_eq!(el.el_type, Some(ParserElementType::Var));
            assert_eq!(el.var_name, Some("x".to_string()));
            assert_eq!(el.float64_bits, Some((1.2f64).to_bits()));
        }
        _ => panic!("expected a variable element"),
    }
    assert_eq!(result.chomp, "");
    assert_eq!(result.success, true);

    //short name el_var assignment to long negative el_float
    let input_string = "= x -11111.22222";
    let result = Parser::new_and_parse(input_string, &ParserFunction::FnVarAssign);
    assert_eq!(result.input_original, input_string);
    assert_eq!(result.input_remaining, "");
    let el_option = result.clone().output_arena_get_last_child_element();
    match el_option {
        Some(el) => {
            assert_eq!(el.el_type, Some(ParserElementType::Var));
            assert_eq!(el.var_name, Some("x".to_string()));
            assert_eq!(el.float64_bits, Some((-11111.22222f64).to_bits()));
        }
        _ => panic!("expected a variable element"),
    }
    assert_eq!(result.chomp, "");
    assert_eq!(result.success, true);
}
