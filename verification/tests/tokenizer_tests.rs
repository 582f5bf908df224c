use nanobasic::tokenizer::{match_token, tokenize, tokenize_line, Position, Token, TokenType};

#[test]
fn test_match_token() {
    let params = [
        (
            r"rem hallo",
            Token {
                kind: TokenType::Comment,
                position: Position { line_num: 0, col_start: 0, col_end: 9 },
            },
        ),
        (
            r"REM HaLLo",
            Token {
                kind: TokenType::Comment,
                position: Position { line_num: 0, col_start: 0, col_end: 9 },
            },
        ),
        (
            r"goto",
            Token {
                kind: TokenType::Goto,
                position: Position { line_num: 0, col_start: 0, col_end: 4 },
            },
        ),
        (
            r")",
            Token {
                kind: TokenType::CloseParen,
                position: Position { line_num: 0, col_start: 0, col_end: 1 },
            },
        ),
        (
            r"ABC",
            Token {
                kind: TokenType::Variable("ABC".to_string()),
                position: Position { line_num: 0, col_start: 0, col_end: 3 },
            },
        ),
    ];

    for (text, result) in &params {
        println!("Using rule table on: {}", *text);
        assert_eq!(match_token(*text, 0, 0).unwrap(), *result);
    }
}

#[test]
fn test_match_line() {
    let param = r"a = 3";

    let expected = [
        Token {
            kind: TokenType::Variable("a".to_string()),
            position: Position { line_num: 0, col_start: 0, col_end: 1 },
        },
        Token {
            kind: TokenType::Equal,
            position: Position { line_num: 0, col_start: 2, col_end: 3 },
        },
        Token {
            kind: TokenType::Number(3),
            position: Position { line_num: 0, col_start: 4, col_end: 5 },
        },
    ];

    let m = tokenize_line(param, 0).unwrap();
    println!("{:#?}", m);
    assert_eq!(expected, *m);
}

#[test]
fn tokenizer_tests_test_match_token() {
    let params = [
        (
            r"rem hallo",
            Token {
                kind: TokenType::Comment,
                position: Position { line_num: 0, col_start: 0, col_end: 9 },
            },
        ),
        (
            r"REM HaLLo",
            Token {
                kind: TokenType::Comment,
                position: Position { line_num: 0, col_start: 0, col_end: 9 },
            },
        ),
        (
            r"goto",
            Token {
                kind: TokenType::Goto,
                position: Position { line_num: 0, col_start: 0, col_end: 4 },
            },
        ),
        (
            r")",
            Token {
                kind: TokenType::CloseParen,
                position: Position { line_num: 0, col_start: 0, col_end: 1 },
            },
        ),
        (
            r"ABC",
            Token {
                kind: TokenType::Variable("ABC".to_string()),
                position: Position { line_num: 0, col_start: 0, col_end: 3 },
            },
        ),
    ];

    for (text, result) in &params {
        assert_eq!(match_token(*text, 0, 0).unwrap(), *result);
    }
}

#[test]
fn tokenizer_tests_test_match_line() {
    let param = r"a = 3";

    let expected = [
        Token {
            kind: TokenType::Variable("a".to_string()),
            position: Position { line_num: 0, col_start: 0, col_end: 1 },
        },
        Token {
            kind: TokenType::Equal,
            position: Position { line_num: 0, col_start: 2, col_end: 3 },
        },
        Token {
            kind: TokenType::Number(3),
            position: Position { line_num: 0, col_start: 4, col_end: 5 },
        },
    ];

    let m = tokenize_line(param, 0).unwrap();
    assert_eq!(expected, *m);
}

#[test]
fn main_test_match_token() {
    let params = [
        (
            "rem hallo",
            Token {
                kind: TokenType::Comment,
                position: Position { line_num: 0, col_start: 0, col_end: 9 },
            },
        ),
        (
            "REM HaLLo",
            Token {
                kind: TokenType::Comment,
                position: Position { line_num: 0, col_start: 0, col_end: 9 },
            },
        ),
    ];

    for (text, result) in &params {
        assert_eq!(match_token(*text, 0, 0).unwrap(), *result);
    }
}

#[test]
fn test_keywords_case_insensitive() {
    let toks = tokenize_line("PrInT iF tHen LET goto GOSUB return", 0).unwrap();
    let kinds: Vec<&TokenType> = toks.iter().map(|t| &t.kind).collect();
    assert_eq!(
        kinds,
        vec![
            &TokenType::Print,
            &TokenType::If,
            &TokenType::Then,
            &TokenType::Let,
            &TokenType::Goto,
            &TokenType::Gosub,
            &TokenType::Return,
        ]
    );
}

#[test]
fn test_two_char_operators_before_prefixes() {
    let toks = tokenize_line("<= >= <> >< < >", 0).unwrap();
    let kinds: Vec<&TokenType> = toks.iter().map(|t| &t.kind).collect();
    assert_eq!(
        kinds,
        vec![
            &TokenType::LessEqual,
            &TokenType::GreaterEqual,
            &TokenType::NotEqual,
            &TokenType::NotEqual,
            &TokenType::Less,
            &TokenType::Greater,
        ]
    );
}

#[test]
fn test_comment_consumes_rest_of_line() {
    let toks = tokenize(&vec!["REM whole line ignored".to_string(), "10 RETURN".to_string()])
        .unwrap();
    assert_eq!(toks.len(), 2);
    assert_eq!(toks[0].kind, TokenType::Number(10));
    assert_eq!(toks[0].position.line_num, 1);
    assert_eq!(toks[1].kind, TokenType::Return);
}

#[test]
fn test_string_rule_is_greedy() {
    // the string rule runs to the last quote of the line
    let toks = tokenize_line(r#"PRINT "A", "B""#, 0).unwrap();
    assert_eq!(toks.len(), 2);
    assert_eq!(toks[0].kind, TokenType::Print);
    assert_eq!(toks[1].kind, TokenType::String(r#"A", "B"#.to_string()));
}

#[test]
fn test_unknown_token_error() {
    let r = tokenize(&vec!["10 PRINT !".to_string()]);
    match r {
        Err(nanobasic::ParseError::UnkownToken { line_num, col_start, unkown_code }) => {
            assert_eq!(line_num, 0);
            assert_eq!(col_start, 9);
            assert_eq!(unkown_code, "!");
        }
        other => panic!("expected UnkownToken, got {:?}", other),
    }
}

#[test]
fn test_spans_reconstruct_line() {
    // the emitted tokens' spans, interleaved with the skipped spans,
    // reconstruct the input line exactly
    let line = "10 LET total = (2+30)*4 REM rest";
    let toks = tokenize_line(line, 0).unwrap();
    let mut reconstructed = String::new();
    let mut prev = 0usize;
    for t in &toks {
        let gap = &line[prev..t.position.col_start];
        assert!(gap.chars().all(|c| c.is_whitespace()) || gap.to_lowercase().starts_with("rem"));
        reconstructed.push_str(gap);
        reconstructed.push_str(&line[t.position.col_start..t.position.col_end]);
        prev = t.position.col_end;
    }
    reconstructed.push_str(&line[prev..]);
    assert_eq!(reconstructed, line);
}

#[test]
fn test_number_wraps_at_u64() {
    // 2^64 + 1 wraps to 1
    let toks = tokenize_line("18446744073709551617", 0).unwrap();
    assert_eq!(toks[0].kind, TokenType::Number(1));
}

#[test]
fn test_minus_is_never_part_of_a_number() {
    let toks = tokenize_line("-10", 0).unwrap();
    assert_eq!(toks.len(), 2);
    assert_eq!(toks[0].kind, TokenType::Minus);
    assert_eq!(toks[1].kind, TokenType::Number(10));
}
