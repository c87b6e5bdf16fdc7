use minton::interpreter::run_source;

#[test]
fn end_to_end_example_prints_twenty() {
    let outcome = run_source(" (2+3)*4 | print;");
    assert_eq!(outcome.lines, vec!["20".to_string()]);
    assert!(!outcome.fault);
}

#[test]
fn product_binds_tighter_end_to_end() {
    let outcome = run_source("2+3*4 | print;");
    assert_eq!(outcome.lines, vec!["14".to_string()]);
    assert!(!outcome.fault);
}

#[test]
fn int_expression_prints_its_decimal_string() {
    assert_eq!(run_source("5 | print;").lines, vec!["5".to_string()]);
    assert_eq!(run_source("10-3 | print;").lines, vec!["7".to_string()]);
    assert_eq!(run_source("2-5 | print;").lines, vec!["-3".to_string()]);
}

#[test]
fn text_prints_verbatim_without_escape_decoding() {
    let outcome = run_source("\"hello world\" | print;");
    assert_eq!(outcome.lines, vec!["hello world".to_string()]);
    let outcome = run_source("\"a\\nb\" | print;");
    assert_eq!(outcome.lines, vec!["a\\nb".to_string()]);
}

#[test]
fn division_truncates_end_to_end() {
    assert_eq!(run_source("7/2 | print;").lines, vec!["3".to_string()]);
    assert_eq!(run_source("(0-7)/2 | print;").lines, vec!["-3".to_string()]);
}

#[test]
fn piping_into_foo_reports_the_constraint() {
    let outcome = run_source("5 | foo;");
    assert_eq!(
        outcome.lines,
        vec!["Type Error: Right side of the pipeline must be a callable function".to_string()]
    );
    assert!(!outcome.fault);
}

#[test]
fn bare_unknown_identifier_reports_undefined() {
    let outcome = run_source("bar;");
    assert_eq!(
        outcome.lines,
        vec!["Undefined identifier: bar".to_string()]
    );
    assert!(!outcome.fault);
}

#[test]
fn division_by_zero_is_a_fatal_fault() {
    let outcome = run_source("1/0 | print;");
    assert!(outcome.lines.is_empty());
    assert!(outcome.fault);
}

#[test]
fn fault_keeps_earlier_output_and_stops() {
    let outcome = run_source("1 | print; 1/0 | print; 2 | print;");
    assert_eq!(outcome.lines, vec!["1".to_string()]);
    assert!(outcome.fault);
}

#[test]
fn arithmetic_overflow_is_a_fatal_fault() {
    let outcome = run_source("9223372036854775807+1 | print;");
    assert!(outcome.lines.is_empty());
    assert!(outcome.fault);
}

#[test]
fn type_error_line_replaces_output_and_run_continues() {
    let outcome = run_source("bar; 3 | print;");
    assert_eq!(
        outcome.lines,
        vec!["Undefined identifier: bar".to_string(), "3".to_string()]
    );
    assert!(!outcome.fault);
}

#[test]
fn statements_print_in_order() {
    let outcome = run_source("1 | print; 2 | print;");
    assert_eq!(outcome.lines, vec!["1".to_string(), "2".to_string()]);
}

#[test]
fn mixed_operands_report_the_types() {
    let outcome = run_source("1 + \"a\" | print;");
    assert_eq!(
        outcome.lines,
        vec!["Type Error: Cannot perform '+' on Int and Str".to_string()]
    );
}

#[test]
fn unknown_character_silently_ends_the_statement() {
    let outcome = run_source("2 @ 3 | print;");
    assert!(outcome.lines.is_empty());
    assert!(!outcome.fault);
}

#[test]
fn unterminated_string_swallows_the_rest() {
    let outcome = run_source("\"abc | print;");
    assert!(outcome.lines.is_empty());
    assert!(!outcome.fault);
}

#[test]
fn bare_print_produces_no_output() {
    let outcome = run_source("print;");
    assert!(outcome.lines.is_empty());
    assert!(!outcome.fault);
}

#[test]
fn chained_pipeline_prints_then_prints_void() {
    let outcome = run_source("5 | print | print;");
    assert_eq!(outcome.lines, vec!["5".to_string(), "void".to_string()]);
}

#[test]
fn overflowing_literal_prints_zero() {
    let outcome = run_source("99999999999999999999 | print;");
    assert_eq!(outcome.lines, vec!["0".to_string()]);
}

#[test]
fn empty_source_runs_to_nothing() {
    let outcome = run_source("");
    assert!(outcome.lines.is_empty());
    assert!(!outcome.fault);
}
