use nanobasic::parser::expressions::{parse_expression, parse_term, Expression};
use nanobasic::parser::statements::if_statement::{parse_boolean_expression, IfStatement};
use nanobasic::parser::statements::let_statment::LetStatement;
use nanobasic::parser::statements::print_statment::parse_printables;
use nanobasic::parser::statements::Statement;
use nanobasic::parser::{parse, parse_tokens, Line};
use nanobasic::tokenizer::{tokenize, Position, Token, TokenType};
use nanobasic::ParseError;

fn dummy_token(tk: TokenType) -> Token {
    Token { kind: tk, position: Position { line_num: 10, col_start: 1, col_end: 2 } }
}

#[test]
fn test_boolean_expression() {
    let lines = [vec!["A=3".to_string()], vec!["42>34".to_string()]];

    for line in &lines {
        println!("{:#?}", line);
        let tokens = tokenize(line).unwrap();
        let mut pos = 0usize;
        let result = parse_boolean_expression(&tokens, &mut pos).unwrap();
        println!("{result:#?}");
    }
}

#[test]
fn statement_if_test_boolean_expression() {
    let lines = [vec!["A=3".to_string()], vec!["42>34".to_string()]];

    for line in &lines {
        let tokens = tokenize(line).unwrap();
        let mut pos = 0usize;
        assert!(parse_boolean_expression(&tokens, &mut pos).is_ok());
    }
}

#[test]
fn test_if() {
    let lines = [vec!["IF A=3 THEN GOTO 42".to_string()]];

    for line in &lines {
        println!("{:#?}", line);
        let tokens = tokenize(line).unwrap();
        let mut pos = 1usize;  // past the IF keyword token
        let result = IfStatement::parse_node(&tokens, &mut pos).unwrap();
        println!("{result:#?}");
    }
}

#[test]
fn test_let_statement() {
    let tokens = vec![
        dummy_token(TokenType::Variable("ABC".to_string())),
        dummy_token(TokenType::Equal),
        dummy_token(TokenType::Number(42)),
    ];

    let mut pos = 0usize;
    let result = LetStatement::parse(&tokens, &mut pos);
    println!("{:#?}", &result);
    let node = result.unwrap();
    assert_eq!(node.content.name, "ABC");
    assert_eq!(node.content.expression.content, Expression::NumberLiteral(42));
}

#[test]
fn let_statment_test_let_statement() {
    let tokens = vec![
        dummy_token(TokenType::Variable("ABC".to_string())),
        dummy_token(TokenType::Equal),
        dummy_token(TokenType::Number(42)),
    ];

    let mut pos = 0usize;
    let result = LetStatement::parse(&tokens, &mut pos);
    println!("{:#?}", &result);
    assert!(result.is_ok());
}

#[test]
fn statement_let_test_let_statement() {
    let tokens = vec![
        dummy_token(TokenType::Variable("ABC".to_string())),
        dummy_token(TokenType::Equal),
        dummy_token(TokenType::Number(42)),
    ];

    let mut pos = 0usize;
    let result = LetStatement::parse(&tokens, &mut pos);
    assert!(result.is_ok());
}

#[test]
fn test_parse_printable() {
    let printables = vec![r#""Hallo""#.to_string(), r#""2+3*4""#.to_string()];

    for printable in &printables {
        println!("{:#?}", printable);
        let tokens = tokenize(&vec![printable.clone()]).unwrap();
        let mut pos = 0usize;
        let result = parse_printables(&tokens, &mut pos).unwrap();
        println!("{:#?}", result);
    }
}

#[test]
fn test_parse_printables() {
    let printables = vec![r#""Hallo", 2+3*4"#.to_string()];

    for printable in &printables {
        println!("{:#?}", printable);
        let tokens = tokenize(&vec![printable.clone()]).unwrap();
        println!("tokens = {tokens:#?}");
        let mut pos = 0usize;
        let result = parse_printables(&tokens, &mut pos).unwrap();
        println!("{:#?}", result);
        assert_eq!(result.content.len(), 2);
    }
}

#[test]
fn test_lines() {
    let lines = [
        vec!["10 LET A = (2 + 3)*5 + B*-10".to_string()],
        vec!["20 GOTO 20+B".to_string()],
        vec!["30 GOTOSUB 40".to_string()],
        vec!["40 IF B<>33 THEN GOTO 42".to_string()],
    ];

    for line in &lines {
        println!("{:#?}", line);
        let tokens = tokenize(line).unwrap();
        let mut pos = 0usize;
        let result = Line::parse(&tokens, &mut pos);
        println!("{:?}", result);
    }
}

#[test]
fn test_line_let_statement() {
    let tokens = vec![
        dummy_token(TokenType::Number(10)),
        dummy_token(TokenType::Let),
        dummy_token(TokenType::Variable("ABC".to_string())),
        dummy_token(TokenType::Equal),
        dummy_token(TokenType::Number(42)),
    ];

    let mut pos = 0usize;
    let result = Line::parse(&tokens, &mut pos);
    println!("{:#?}", &result);
    let line = result.unwrap();
    assert_eq!(line.line_id, 10);
    assert!(matches!(line.statement.content, Statement::Let(_)));
}

#[test]
fn test_parse_term_multiply() {
    let lines = vec!["2 * 3".to_string()];
    let tokens = tokenize(&lines).unwrap();
    let mut pos = 0usize;
    let x = parse_term(&tokens, &mut pos);
    println!("{:#?}", x);
    assert!(x.is_ok());
}

#[test]
fn test_create_num_expr() {
    let lines = vec!["2 + 3".to_string()];
    let tokens = tokenize(&lines).unwrap();
    println!("tokens: \n{:#?}", tokens);

    let mut pos = 0usize;
    let x = parse_expression(&tokens, &mut pos).unwrap();
    println!("{:#?}", x);
}

#[test]
fn test_parse_tokens_two_lines() {
    let source = vec!["10 LET A = 1".to_string(), "20 PRINT A".to_string()];
    let tokens = tokenize(&source).unwrap();
    let lines = parse_tokens(&tokens).unwrap();
    assert_eq!(lines.len(), 2);
    assert_eq!(lines[0].line_id, 10);
    assert_eq!(lines[1].line_id, 20);
}

#[test]
fn test_parse_from_source_lines() {
    let source = vec!["10 IF A <= 3 THEN RETURN".to_string()];
    let lines = parse(&source).unwrap();
    assert_eq!(lines.len(), 1);
    assert!(matches!(lines[0].statement.content, Statement::If(_)));
}

#[test]
fn test_missing_then_is_wrong_token() {
    let source = vec!["10 IF A = 3 GOTO 20".to_string()];
    match parse(&source) {
        Err(ParseError::WrongToken { expected, actual }) => {
            assert_eq!(expected, "THEN");
            assert_eq!(actual, "Goto");
        }
        other => panic!("expected WrongToken, got {:?}", other),
    }
}

#[test]
fn test_unexpected_eof_after_let() {
    let source = vec!["10 LET A =".to_string()];
    match parse(&source) {
        Err(ParseError::UnexpectedEOF) => {}
        other => panic!("expected UnexpectedEOF, got {:?}", other),
    }
}

#[test]
fn test_missing_close_paren() {
    let source = vec!["10 LET A = (1+2".to_string()];
    match parse(&source) {
        Err(ParseError::UnexpectedEOF) => {}
        other => panic!("expected UnexpectedEOF, got {:?}", other),
    }
}

#[test]
fn test_parse_propagates_lexer_error() {
    let source = vec!["10 LET A = #".to_string()];
    match parse(&source) {
        Err(ParseError::UnkownToken { line_num, col_start, unkown_code }) => {
            assert_eq!(line_num, 0);
            assert_eq!(col_start, 11);
            assert_eq!(unkown_code, "#");
        }
        other => panic!("expected UnkownToken, got {:?}", other),
    }
}

#[test]
fn test_let_missing_equals_is_wrong_token() {
    let source = vec!["10 LET A 5".to_string()];
    match parse(&source) {
        Err(ParseError::WrongToken { expected, actual }) => {
            assert_eq!(expected, "Equal");
            assert_eq!(actual, "Number");
        }
        other => panic!("expected WrongToken, got {:?}", other),
    }
}

#[test]
fn test_line_parse_wrong_first_token_consumes_nothing() {
    let tokens = vec![dummy_token(TokenType::Let)];
    let mut pos = 0usize;
    let result = Line::parse(&tokens, &mut pos);
    assert!(matches!(result, Err(ParseError::WrongToken { .. })));
    assert_eq!(pos, 0);
}
