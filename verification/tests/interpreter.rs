use bracket_lang::eval_all;
use bracket_lang::eval_unwrapped;

fn run(src: &str) -> (String, Vec<String>) {
    let mut out: Vec<String> = Vec::new();
    let r = eval_unwrapped(src, &mut out);
    (r, out)
}

#[test]
fn empty_program_yields_empty_text() {
    let (r, out) = run("");
    assert_eq!(r, "");
    assert!(out.is_empty());
}

#[test]
fn literal_three_evaluates_to_three() {
    let (r, out) = run("[()()()]");
    assert_eq!(r, "3");
    assert!(out.is_empty());
}

#[test]
fn empty_brackets_evaluate_to_zero() {
    let (r, _) = run("[]");
    assert_eq!(r, "0");
}

#[test]
fn define_then_read_variable() {
    // {(())}()[ [()()] ] binds (()) to 2; {(())}[] reads it.
    let (r, _) = run("{(())}()[[()()]]{(())}[]");
    assert_eq!(r, "2");
}

#[test]
fn whitespace_is_insignificant() {
    let (r, _) = run("  [ () ( ) ]  \n\t");
    assert_eq!(r, "2");
}

#[test]
fn unknown_character_fails_with_position() {
    let (r, _) = run("[x]");
    assert_eq!(r, "Error: Unexpected character: x at 1");
}

#[test]
fn structurally_equal_names_collide() {
    // Two independently parsed occurrences of (()()) are the same name.
    let (r, _) = run("{(()())}()[[()()()]]{(()())}[]");
    assert_eq!(r, "3");
}

#[test]
fn structurally_different_names_are_distinct() {
    // (()) and (()()) are different identifiers.
    let (r, _) = run("{(())}()[[()]]{(()())}[]");
    assert_eq!(r, "Error: Variable (()()) not defined");
}

#[test]
fn callee_never_sees_caller_variables() {
    // The caller binds (()); the body of ((())) reads (()), which is not
    // among its parameters, so the call fails even so.
    let src = "{(())}()[[()]]{((()))}((()()))[[{(())}[]]]{((()))}[[()()]]";
    let (r, _) = run(src);
    assert_eq!(r, "Error: Variable (()) not defined");
}

#[test]
fn rebinding_a_variable_is_a_noop() {
    let (r, _) = run("{(())}()[[()]]{(())}()[[()()]]{(())}[]");
    assert_eq!(r, "1");
}

#[test]
fn redefining_a_function_overwrites() {
    // ((())) first returns its parameter, then its parameter plus one.
    let first = "{((()))}((()()))[[{(()())}[]]]{((()))}[[()()()()()]]";
    let (r1, _) = run(first);
    assert_eq!(r1, "5");
    let redefined = "{((()))}((()()))[[{(()())}[]]]{((()))}((()()))[[&{(()())}[]]]{((()))}[[()()()()()]]";
    let (r2, _) = run(redefined);
    assert_eq!(r2, "6");
}

#[test]
fn decrement_of_zero_underflows() {
    let (r, _) = run("*[]");
    assert_eq!(r, "Error: Cannot decrement zero");
}

#[test]
fn decrement_and_increment() {
    let (r1, _) = run("*[()()()]");
    assert_eq!(r1, "2");
    let (r2, _) = run("&[()()]");
    assert_eq!(r2, "3");
}

#[test]
fn conditional_runs_only_the_chosen_branch() {
    // The non-zero condition runs only the then branch's definition.
    let (r1, _) = run("[[()]]|[{(())}()[[()]]]|[{(())}()[[()()]]]{(())}[]");
    assert_eq!(r1, "1");
    // The zero condition runs only the else branch's definition.
    let (r2, _) = run("[[]]|[{(())}()[[()]]]|[{(())}()[[()()]]]{(())}[]");
    assert_eq!(r2, "2");
}

#[test]
fn conditional_without_else_yields_zero_on_false() {
    let (r, _) = run("[[]]|[[()()()]]");
    assert_eq!(r, "0");
}

#[test]
fn grouping_yields_last_statement_value() {
    let (r, _) = run("[[()][()()][()()()]]");
    assert_eq!(r, "3");
}

#[test]
fn try_catch_reroutes_failures_and_reports_them() {
    // The try body reads an undefined variable; the catch body's value comes
    // back, and the failure's diagnostic goes to the sink.
    let (r, out) = run("(|[{(())}[]][[()()]])");
    assert_eq!(r, "2");
    assert_eq!(out.len(), 1);
    assert_eq!(
        out[0],
        "Warning!: Error caught in try block: Variable (()) not defined\n"
    );
}

#[test]
fn try_catch_with_no_failure_never_runs_catch() {
    let (r, out) = run("(|[[()()()]][[()]])");
    assert_eq!(r, "3");
    assert!(out.is_empty());
}

#[test]
fn print_number_emits_decimal_and_newline() {
    let (r, out) = run("(&[[()()()]])");
    assert_eq!(r, "3");
    assert_eq!(out, vec!["3\n".to_string()]);
}

#[test]
fn print_number_of_zero() {
    let (r, out) = run("(&[[]])");
    assert_eq!(r, "0");
    assert_eq!(out, vec!["0\n".to_string()]);
}

#[test]
fn print_character_emits_the_character() {
    let src = format!("(*[[{}]])", "()".repeat(65));
    let (r, out) = run(&src);
    assert_eq!(r, "65");
    assert_eq!(out, vec!["A".to_string()]);
}

#[test]
fn function_arity_mismatch_is_reported() {
    let src = "{((()))}((()()))[[{(()())}[]]]{((()))}[[()][()()]]";
    let (r, _) = run(src);
    assert_eq!(r, "Error: Function ((())) expects 1 arguments, got 2");
}

#[test]
fn undefined_function_is_reported() {
    let (r, _) = run("{((()))}[[()]]");
    assert_eq!(r, "Error: Function ((())) not defined");
}

#[test]
fn unbounded_recursion_hits_the_depth_limit() {
    // ((())) calls itself forever.
    let src = "{((()))}((()()))[[{((()))}[[()]]]]{((()))}[[()]]";
    let (r, _) = run(src);
    assert_eq!(r, "Error: Evaluation depth limit exceeded");
}

#[test]
fn function_definition_evaluates_to_zero() {
    let (r, _) = run("{((()))}((()()))[[{(()())}[]]]");
    assert_eq!(r, "0");
}

#[test]
fn eval_all_returns_structured_errors() {
    let mut out: Vec<String> = Vec::new();
    let r = eval_all("{(())}[]", &mut out);
    assert!(r.is_err());
    let e = r.unwrap_err();
    assert_eq!(e.message(), "Variable (()) not defined");
}

#[test]
fn arguments_run_in_the_caller_environment() {
    // The argument reads the caller's (()), which the callee itself could
    // not see; the callee returns its parameter.
    let src = "{(())}()[[()()()]]{((()))}((()()))[[{(()())}[]]]{((()))}[[{(())}[]]]";
    let (r, _) = run(src);
    assert_eq!(r, "3");
}

#[test]
fn recursion_with_a_base_case_terminates() {
    // ((())) maps 0 to 0 and otherwise recurses on its decremented
    // parameter: the result of calling it on 4 is 0.
    let src = "{((()))}((()()))[[[{(()())}[]]|[{((()))}[*{(()())}[]]]|[[]]]]{((()))}[[()()()()]]";
    let (r, _) = run(src);
    assert_eq!(r, "0");
}
