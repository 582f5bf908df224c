use nanobasic::interpreter::{Interpreter, InterpreterError};
use nanobasic::parser::parse;

fn run_program(source: &[&str], max_steps: u64) -> Result<Vec<String>, InterpreterError> {
    let lines: Vec<String> = source.iter().map(|s| s.to_string()).collect();
    let program = parse(&lines).expect("program should parse");
    let mut interpreter = Interpreter::new(program);
    interpreter.run(max_steps)?;
    assert!(interpreter.finished(), "step budget exhausted");
    Ok(interpreter.output().clone())
}

#[test]
fn test_print_string_and_expression() {
    // PRINT "A", 1+1 produces the output line A\t2
    let out = run_program(&[r#"10 PRINT "A", 1+1"#], 100).unwrap();
    assert_eq!(out, vec!["A\t2".to_string()]);
}

#[test]
fn test_let_stores_value_with_precedence() {
    // after one step, A holds the value of 2+3*4 under standard precedence
    let out = run_program(&["10 LET A = 2+3*4", "20 PRINT A"], 100).unwrap();
    assert_eq!(out, vec!["14".to_string()]);
}

#[test]
fn test_division_truncates_toward_zero() {
    // division semantics differed across source iterations: it must truncate
    // toward zero, so 7/2 is 3 and -7/2 is -3
    let out = run_program(&["10 PRINT 7/2, -7/2"], 100).unwrap();
    assert_eq!(out, vec!["3\t-3".to_string()]);
}

#[test]
fn test_goto_unknown_label_is_invalid_goto() {
    let r = run_program(&["10 GOTO 99"], 100);
    assert_eq!(r.unwrap_err(), InterpreterError::InvalidGoto(99));
}

#[test]
fn test_gosub_unknown_label_is_invalid_goto() {
    let r = run_program(&["10 GOSUB 99"], 100);
    assert_eq!(r.unwrap_err(), InterpreterError::InvalidGoto(99));
}

#[test]
fn test_goto_negative_label_is_invalid_goto() {
    let r = run_program(&["10 GOTO -5"], 100);
    assert_eq!(r.unwrap_err(), InterpreterError::InvalidGoto(-5));
}

#[test]
fn test_return_without_gosub() {
    let r = run_program(&["10 RETURN"], 100);
    assert_eq!(r.unwrap_err(), InterpreterError::ReturnWithoutGosub);
}

#[test]
fn test_if_false_skips_nested_statement() {
    // the nested statement's side effects never occur; the program counter
    // advances by exactly one line
    let out = run_program(&[r#"10 IF 1 = 2 THEN PRINT "X""#, r#"20 PRINT "Y""#], 100).unwrap();
    assert_eq!(out, vec!["Y".to_string()]);
}

#[test]
fn test_if_false_skips_variable_write() {
    let out = run_program(&["10 LET A = 1", "20 IF 2 < 1 THEN LET A = 5", "30 PRINT A"], 100)
        .unwrap();
    assert_eq!(out, vec!["1".to_string()]);
}

#[test]
fn test_if_true_dispatches_nested_statement() {
    let out = run_program(&["10 IF 1 <= 2 THEN GOTO 30", r#"20 PRINT "skipped""#, r#"30 PRINT "end""#], 100)
        .unwrap();
    assert_eq!(out, vec!["end".to_string()]);
}

#[test]
fn test_nonterminating_program_steps_exactly_n_times() {
    // driving 10 GOTO 10 for exactly N steps performs exactly N dispatches
    // and leaves the interpreter un-finished; it never hangs the caller
    let lines = vec!["10 GOTO 10".to_string()];
    let program = parse(&lines).unwrap();
    let mut interpreter = Interpreter::new(program);
    let mut dispatched = 0u64;
    for _ in 0..1000 {
        assert!(!interpreter.finished());
        interpreter.step_line().unwrap();
        dispatched += 1;
    }
    assert_eq!(dispatched, 1000);
    assert!(!interpreter.finished());
}

#[test]
fn test_run_budget_leaves_nonterminating_program_unfinished() {
    let lines = vec!["10 GOTO 10".to_string()];
    let program = parse(&lines).unwrap();
    let mut interpreter = Interpreter::new(program);
    interpreter.run(500).unwrap();
    assert!(!interpreter.finished());
}

#[test]
fn test_duplicate_labels_first_occurrence_wins() {
    let out = run_program(
        &[
            "5 GOTO 10",
            r#"10 PRINT "first""#,
            "20 GOTO 40",
            r#"10 PRINT "second""#,
            r#"40 PRINT "done""#,
        ],
        100,
    )
    .unwrap();
    assert_eq!(out, vec!["first".to_string(), "done".to_string()]);
}

#[test]
fn test_gosub_returns_to_following_line() {
    let out = run_program(
        &[
            "10 GOSUB 40",
            r#"20 PRINT "back""#,
            "30 GOTO 60",
            r#"40 PRINT "sub""#,
            "50 RETURN",
            r#"60 PRINT "end""#,
        ],
        100,
    )
    .unwrap();
    assert_eq!(out, vec!["sub".to_string(), "back".to_string(), "end".to_string()]);
}

#[test]
fn test_undeclared_variable_read_fails() {
    let r = run_program(&["10 PRINT B"], 100);
    assert_eq!(r.unwrap_err(), InterpreterError::UndeclaredVariable("B".to_string()));
}

#[test]
fn test_division_by_zero_fails() {
    let r = run_program(&["10 PRINT 1/0"], 100);
    assert_eq!(r.unwrap_err(), InterpreterError::DivisionByZero);
}

#[test]
fn test_unary_minus_and_parentheses() {
    let out = run_program(&["10 PRINT -(2+3)*4, 2+3*4"], 100).unwrap();
    assert_eq!(out, vec!["-20\t14".to_string()]);
}

#[test]
fn test_expression_with_variables_and_unary_minus() {
    let out = run_program(
        &["10 LET B = 2", "20 LET A = (2 + 3)*5 + B*-10", "30 PRINT A"],
        100,
    )
    .unwrap();
    assert_eq!(out, vec!["5".to_string()]);
}

#[test]
fn test_goto_target_is_an_expression() {
    let out = run_program(
        &["10 LET B = 20", "20 GOTO 20+B", r#"30 PRINT "skipped""#, r#"40 PRINT "end""#],
        100,
    )
    .unwrap();
    assert_eq!(out, vec!["end".to_string()]);
}

#[test]
fn test_overlong_literal_wraps() {
    // 2^63 wraps into the negative range of the 64-bit signed value space
    let out = run_program(&["10 PRINT 9223372036854775808"], 100).unwrap();
    assert_eq!(out, vec!["-9223372036854775808".to_string()]);
}

#[test]
fn test_variable_reassignment() {
    let out = run_program(&["10 LET A = 1", "20 LET A = A + 1", "30 PRINT A"], 100).unwrap();
    assert_eq!(out, vec!["2".to_string()]);
}

#[test]
fn test_factorial_program() {
    let out = run_program(
        &[
            "10 LET N = 5",
            "20 LET F = 1",
            "30 IF N <= 1 THEN GOTO 70",
            "40 LET F = F * N",
            "50 LET N = N - 1",
            "60 GOTO 30",
            "70 PRINT F",
        ],
        1000,
    )
    .unwrap();
    assert_eq!(out, vec!["120".to_string()]);
}

#[test]
fn test_output_written_per_print() {
    let lines = vec![r#"10 PRINT "one""#.to_string(), r#"20 PRINT "two""#.to_string()];
    let program = parse(&lines).unwrap();
    let mut interpreter = Interpreter::new(program);
    assert_eq!(interpreter.output().len(), 0);
    interpreter.step_line().unwrap();
    assert_eq!(interpreter.output().clone(), vec!["one".to_string()]);
    interpreter.step_line().unwrap();
    assert_eq!(interpreter.output().clone(), vec!["one".to_string(), "two".to_string()]);
    assert!(interpreter.finished());
}

#[test]
fn test_error_reports_failing_line_label() {
    let lines: Vec<String> = vec![
        "10 LET A = 1".to_string(),
        "20 GOTO 99".to_string(),
        "30 PRINT A".to_string(),
    ];
    let program = parse(&lines).unwrap();
    let mut interpreter = Interpreter::new(program);
    let r = interpreter.run(100);
    assert_eq!(r.unwrap_err(), InterpreterError::InvalidGoto(99));
    // the state stays at the failing statement, so the label is line 20's
    assert_eq!(interpreter.current_line_id(), Some(20));
}

#[test]
fn test_current_line_id_none_when_finished() {
    let lines: Vec<String> = vec!["10 LET A = 1".to_string()];
    let program = parse(&lines).unwrap();
    let mut interpreter = Interpreter::new(program);
    assert_eq!(interpreter.current_line_id(), Some(10));
    interpreter.run(100).unwrap();
    assert!(interpreter.finished());
    assert_eq!(interpreter.current_line_id(), None);
}

#[test]
fn test_output_kept_up_to_failing_statement() {
    let lines: Vec<String> = vec![
        r#"10 PRINT "before""#.to_string(),
        "20 PRINT B".to_string(),
    ];
    let program = parse(&lines).unwrap();
    let mut interpreter = Interpreter::new(program);
    let r = interpreter.run(100);
    assert!(r.is_err());
    assert_eq!(interpreter.output().clone(), vec!["before".to_string()]);
    assert_eq!(interpreter.current_line_id(), Some(20));
}
