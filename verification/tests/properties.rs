//! Scenario checks for the engine's stated properties, and the arena
//! helpers.
use parser_combinators::{
    Parser, ParserEl, ParserElement, ParserElementType, ParserFunction,
};

#[test]
fn test_reassignment_upserts_single_binding() {
    // re-assigning a name updates the one element in place: the arena
    // ends with the root and exactly one element named x, holding 2
    let result = Parser::new("= x 1\r\n= x 2").parse();
    assert_eq!(result.success, true);
    assert_eq!(result.input_remaining, "");
    let named_x: Vec<&ParserElement> = result
        .output_arena
        .iter()
        .filter(|el| el.var_name == Some("x".to_string()))
        .collect();
    assert_eq!(named_x.len(), 1);
    assert_eq!(named_x[0].int64, Some(2));
    assert_eq!(named_x[0].el_type, Some(ParserElementType::Var));
}

#[test]
fn test_bracket_and_plain_sum_agree() {
    let plain = Parser::new("+ 17 25").fn_var_sum();
    let bracket = Parser::new("(+ 17 25)").fn_var_sum();
    assert_eq!(plain.success, true);
    assert_eq!(bracket.success, true);
    let a = plain.output_arena_get_last_child_element().unwrap();
    let b = bracket.output_arena_get_last_child_element().unwrap();
    assert_eq!(a.el_type, b.el_type);
    assert_eq!(a.int64, b.int64);
    assert_eq!(a.int64, Some(42));

    let plain = Parser::new("+ 1.5 2.25").fn_var_sum();
    let bracket = Parser::new("(+ 1.5 2.25)").fn_var_sum();
    assert_eq!(plain.success, true);
    assert_eq!(bracket.success, true);
    let a = plain.output_arena_get_last_child_element().unwrap();
    let b = bracket.output_arena_get_last_child_element().unwrap();
    assert_eq!(a.float64_bits, b.float64_bits);
    assert_eq!(a.float64_bits, Some((3.75f64).to_bits()));
}

#[test]
fn test_mixed_type_sum_fails() {
    // an integer cannot be summed with a float: the attempt is a hard
    // failure that leaves the state as it was
    let mut parser = Parser::new("+ 1 2.0");
    parser.display_errors = false;
    let result = parser.clone().fn_var_sum();
    assert_eq!(result.success, false);
    assert_eq!(result.input_remaining, "+ 1 2.0");
    assert_eq!(result.output_arena.len(), 1);
}

#[test]
fn test_float_preferred_over_int() {
    // offered in the right order, a float literal parses as a float
    let alts = vec![ParserFunction::ElFloat, ParserFunction::ElInt];
    let result = Parser::new("12.34").combi_first_success_of(&alts);
    assert_eq!(result.success, true);
    assert_eq!(result.input_remaining, "");
    let el = result.output_arena_get_last_child_element().unwrap();
    assert_eq!(el.el_type, Some(ParserElementType::Float64));
    assert_eq!(el.float64_bits, Some((12.34f64).to_bits()));

    // reversing the order breaks on such input: the integer matcher
    // stops at the decimal point and leaves it dangling
    let alts = vec![ParserFunction::ElInt, ParserFunction::ElFloat];
    let result = Parser::new("12.34").combi_first_success_of(&alts);
    assert_eq!(result.success, true);
    assert_eq!(result.input_remaining, ".34");
    let el = result.output_arena_get_last_child_element().unwrap();
    assert_eq!(el.el_type, Some(ParserElementType::Int64));
    assert_eq!(el.int64, Some(12));
}

#[test]
fn test_leading_space_fails_whole_statement() {
    // the failure case: nothing consumed, success cleared
    let mut parser = Parser::new(" = x 1");
    parser.display_errors = false;
    let result = parser.clone().fn_var_assign();
    assert_eq!(result.success, false);
    assert_eq!(result.input_remaining, " = x 1");
    assert_eq!(result.chomp, "");
}

#[test]
fn test_find_element_var_both_branches() {
    let result = Parser::new("= x 5").fn_var_assign();
    assert_eq!(result.success, true);
    let hit = result.clone().output_arena_find_element_var("x");
    match hit {
        Some(el) => {
            assert_eq!(el.var_name, Some("x".to_string()));
            assert_eq!(el.int64, Some(5));
        }
        None => panic!("expected to find x"),
    }
    let miss = result.output_arena_find_element_var("y");
    assert!(miss.is_none());
}

#[test]
fn test_arena_nth_last_and_remove() {
    // two elements behind the root: 7 then 8, newest last
    let result = Parser::new("7 8").el_int().prim_space().el_int();
    assert_eq!(result.success, true);
    assert_eq!(result.output_arena.len(), 3);
    let newest = result.clone().output_arena_get_nth_last_child_element(0).unwrap();
    assert_eq!(newest.int64, Some(8));
    let older = result.clone().output_arena_get_nth_last_child_element(1).unwrap();
    assert_eq!(older.int64, Some(7));
    assert!(result.clone().output_arena_get_nth_last_child_element(2).is_none());

    let removed = result.clone().output_arena_remove_nth_last_child_element(1);
    assert_eq!(removed.output_arena.len(), 2);
    let left = removed.clone().output_arena_get_last_child_element().unwrap();
    assert_eq!(left.int64, Some(8));

    // out of range: nothing changes
    let unchanged = result.clone().output_arena_remove_nth_last_child_element(5);
    assert_eq!(unchanged.output_arena.len(), 3);
}

#[test]
fn test_current_parent_is_the_root_placeholder() {
    let parser = Parser::new("abc");
    let root = parser.output_arena_get_current_parent_element().unwrap();
    assert_eq!(root.el_type, None);
    assert_eq!(root.int64, None);
    assert_eq!(root.float64_bits, None);
    assert_eq!(root.string, None);
    assert_eq!(root.var_name, None);
}

#[test]
fn test_new_elements_are_empty() {
    let el = ParserElement::new();
    assert_eq!(el.el_type, None);
    assert_eq!(el.int64, None);
    assert_eq!(el.float64_bits, None);
    assert_eq!(el.string, None);
    assert_eq!(el.var_name, None);
    let el = ParserEl::new();
    assert!(el.el_type.is_none());
    assert!(el.value.is_none());
}

#[test]
fn test_chomp_clear() {
    let result = Parser::new("abc").prim_word("ab");
    assert_eq!(result.chomp, "ab");
    let cleared = result.chomp_clear();
    assert_eq!(cleared.chomp, "");
    assert_eq!(cleared.input_remaining, "c");
}

#[test]
fn test_display_error_text() {
    let parser = Parser::new("abc");
    let msg = parser.display_error("prim_digit");
    assert_eq!(msg, "\r\nParser Error at prim_digit, position 0:\r\nabc\r\n");

    let advanced = Parser::new("ab~cd").prim_word("ab");
    let msg = advanced.display_error("prim_digit");
    assert_eq!(msg, "\r\nParser Error at prim_digit, position 2:\r\n~cd\r\n");
}

#[test]
fn test_unterminated_string_scans_to_end() {
    let mut parser = Parser::new("\"abc");
    parser.display_errors = false;
    let result = parser.clone().el_str();
    assert_eq!(result.success, true);
    assert_eq!(result.input_remaining, "");
    let el = result.output_arena_get_last_child_element().unwrap();
    assert_eq!(el.string, Some("abc".to_string()));
}

#[test]
fn test_parse_stops_at_garbage() {
    // exhaustion: no statement parser matches the remainder, which is
    // left in place for diagnostics
    let mut parser = Parser::new("= x 1\r\nnonsense");
    parser.display_errors = false;
    let result = parser.clone().parse();
    assert_eq!(result.success, false);
    assert_eq!(result.input_remaining, "nonsense");
    let el = result.clone().output_arena_get_last_child_element().unwrap();
    assert_eq!(el.var_name, Some("x".to_string()));
    assert_eq!(el.int64, Some(1));
}
