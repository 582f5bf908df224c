//! The recursive-descent parser: consumes the token stream and produces an
//! ordered list of `Line` records, each a label together with a statement
//! tree. Every node carries the source span of its constituent tokens.

pub mod expressions;
pub mod statements;

use crate::ParseError;
use crate::tokenizer::{kind_view, Position, Token, TokenKindModel, TokenModel, tokens_view};
use statements::{node_stmt_view, parse_statement_model, NodeStmtModel, Statement};
use vstd::prelude::*;
use vstd::string::*;

verus! {

/// A source span paired with semantic content; used for every AST node.
#[derive(Debug, PartialEq)]
pub struct Node<T> {
    pub position: Position,
    pub content: T,
}

impl<T> Node<T> {
    /// A node spanning exactly one token.
    pub fn new(token: &Token, content: T) -> (n: Self)
        ensures
            n.position == token.position,
            n.content == content,
    {
        Node { content, position: token.position }
    }
}

/// One numbered program line: its label and its statement.
#[derive(Debug, PartialEq)]
pub struct Line {
    pub line_id: u64,
    pub statement: Node<Statement>,
}

// ---------------------------------------------------------------------------
// Mathematical model of positions, parse errors, and lines
// ---------------------------------------------------------------------------

/// The mathematical counterpart of `Position`.
pub struct PosModel {
    pub line: nat,
    pub start: nat,
    pub end: nat,
}

pub open spec fn pos_view(p: Position) -> PosModel {
    PosModel { line: p.line_num as nat, start: p.col_start as nat, end: p.col_end as nat }
}

/// The span of one token, as a `PosModel`.
pub open spec fn tok_pos(t: TokenModel) -> PosModel {
    PosModel { line: t.line, start: t.start, end: t.end }
}

/// The mathematical counterpart of the parse errors: the stream ended early,
/// or the wrong kind of token stood at a grammar position.
pub enum ParseErrModel {
    Eof,
    Wrong { expected: Seq<char>, actual: Seq<char> },
}

/// How a returned `ParseError` reads as a model error. Lex errors have no
/// parser counterpart.
pub open spec fn parse_err_view(e: ParseError) -> Option<ParseErrModel> {
    match e {
        ParseError::UnexpectedEOF => Some(ParseErrModel::Eof),
        ParseError::WrongToken { expected, actual } => Some(
            ParseErrModel::Wrong { expected: expected@, actual: actual@ },
        ),
        ParseError::UnkownToken { .. } => None,
    }
}

/// The display name of a token kind, used in `WrongToken` errors.
pub open spec fn kind_name_model(k: TokenKindModel) -> Seq<char> {
    match k {
        TokenKindModel::Comment => "Comment"@,
        TokenKindModel::Whitespace => "Whitespace"@,
        TokenKindModel::Print => "Print"@,
        TokenKindModel::If => "If"@,
        TokenKindModel::Then => "Then"@,
        TokenKindModel::Let => "Let"@,
        TokenKindModel::Goto => "Goto"@,
        TokenKindModel::Gosub => "Gosub"@,
        TokenKindModel::Return => "Return"@,
        TokenKindModel::Comma => "Comma"@,
        TokenKindModel::Equal => "Equal"@,
        TokenKindModel::NotEqual => "NotEqual"@,
        TokenKindModel::LessEqual => "LessEqual"@,
        TokenKindModel::GreaterEqual => "GreaterEqual"@,
        TokenKindModel::Less => "Less"@,
        TokenKindModel::Greater => "Greater"@,
        TokenKindModel::Plus => "Plus"@,
        TokenKindModel::Minus => "Minus"@,
        TokenKindModel::Multiply => "Multiply"@,
        TokenKindModel::Divide => "Divide"@,
        TokenKindModel::OpenParen => "OpenParen"@,
        TokenKindModel::CloseParen => "CloseParen"@,
        TokenKindModel::Variable(_) => "Variable"@,
        TokenKindModel::Number(_) => "Number"@,
        TokenKindModel::StringLit(_) => "String"@,
    }
}

/// The display name of a token's kind.
pub fn kind_name(k: &crate::tokenizer::TokenType) -> (s: String)
    ensures
        s@ == kind_name_model(kind_view(*k)),
{
    match k {
        crate::tokenizer::TokenType::Comment => "Comment".to_owned(),
        crate::tokenizer::TokenType::Whitespace => "Whitespace".to_owned(),
        crate::tokenizer::TokenType::Print => "Print".to_owned(),
        crate::tokenizer::TokenType::If => "If".to_owned(),
        crate::tokenizer::TokenType::Then => "Then".to_owned(),
        crate::tokenizer::TokenType::Let => "Let".to_owned(),
        crate::tokenizer::TokenType::Goto => "Goto".to_owned(),
        crate::tokenizer::TokenType::Gosub => "Gosub".to_owned(),
        crate::tokenizer::TokenType::Return => "Return".to_owned(),
        crate::tokenizer::TokenType::Comma => "Comma".to_owned(),
        crate::tokenizer::TokenType::Equal => "Equal".to_owned(),
        crate::tokenizer::TokenType::NotEqual => "NotEqual".to_owned(),
        crate::tokenizer::TokenType::LessEqual => "LessEqual".to_owned(),
        crate::tokenizer::TokenType::GreaterEqual => "GreaterEqual".to_owned(),
        crate::tokenizer::TokenType::Less => "Less".to_owned(),
        crate::tokenizer::TokenType::Greater => "Greater".to_owned(),
        crate::tokenizer::TokenType::Plus => "Plus".to_owned(),
        crate::tokenizer::TokenType::Minus => "Minus".to_owned(),
        crate::tokenizer::TokenType::Multiply => "Multiply".to_owned(),
        crate::tokenizer::TokenType::Divide => "Divide".to_owned(),
        crate::tokenizer::TokenType::OpenParen => "OpenParen".to_owned(),
        crate::tokenizer::TokenType::CloseParen => "CloseParen".to_owned(),
        crate::tokenizer::TokenType::Variable(_) => "Variable".to_owned(),
        crate::tokenizer::TokenType::Number(_) => "Number".to_owned(),
        crate::tokenizer::TokenType::String(_) => "String".to_owned(),
    }
}

/// The mathematical counterpart of `Line`.
pub struct LineModel {
    pub line_id: u64,
    pub statement: NodeStmtModel,
}

pub open spec fn line_view(l: Line) -> LineModel {
    LineModel { line_id: l.line_id, statement: node_stmt_view(l.statement) }
}

pub open spec fn lines_view(ls: Seq<Line>) -> Seq<LineModel> {
    ls.map_values(|l: Line| line_view(l))
}

// ---------------------------------------------------------------------------
// Parsing a line and a whole program
// ---------------------------------------------------------------------------

/// One line: a leading `Number` label, then a statement.
pub open spec fn parse_line_model(toks: Seq<TokenModel>, p: int) -> Result<(LineModel, int), ParseErrModel>
    decreases toks.len() - p, 6int,
{
    if !(0 <= p < toks.len()) {
        Err(ParseErrModel::Eof)
    } else {
        match toks[p].kind {
            TokenKindModel::Number(line_id) => match parse_statement_model(toks, p + 1) {
                Err(e) => Err(e),
                Ok((stmt, p2)) => Ok((LineModel { line_id, statement: stmt }, p2)),
            },
            k => Err(ParseErrModel::Wrong { expected: "Line number"@, actual: kind_name_model(k) }),
        }
    }
}

/// The whole program: lines until the stream is exhausted.
pub open spec fn parse_lines_model(toks: Seq<TokenModel>, p: int) -> Result<Seq<LineModel>, ParseErrModel>
    decreases toks.len() - p, 7int,
{
    if !(0 <= p < toks.len()) {
        Ok(seq![])
    } else {
        match parse_line_model(toks, p) {
            Err(e) => Err(e),
            Ok((line, p2)) => {
                // a parsed line always advances the position; the bound check
                // keeps this definition well-founded
                if p < p2 <= toks.len() {
                    match parse_lines_model(toks, p2) {
                        Err(e) => Err(e),
                        Ok(rest) => Ok(seq![line] + rest),
                    }
                } else {
                    Err(ParseErrModel::Eof)
                }
            },
        }
    }
}

impl Line {
    /// Parse one line from the tokens at `*pos`: its numeric label, then its
    /// statement.
    pub fn parse(tokens: &Vec<Token>, pos: &mut usize) -> (r: Result<Line, ParseError>)
        requires
            *old(pos) <= tokens@.len(),
        ensures
            match r {
                Ok(line) => parse_line_model(tokens_view(tokens@), *old(pos) as int) == Ok::<
                    _,
                    ParseErrModel,
                >((line_view(line), *final(pos) as int)) && *old(pos) < *final(pos)
                    <= tokens@.len(),
                Err(e) => parse_err_view(e) matches Some(m) && parse_line_model(
                    tokens_view(tokens@),
                    *old(pos) as int,
                ) == Err::<(LineModel, int), _>(m) && *old(pos) <= *final(pos) <= tokens@.len() && (
                *old(pos) < tokens@.len() && !(tokens_view(tokens@)[*old(pos) as int].kind is Number)
                    ==> *final(pos) == *old(pos)),
            },
    {
        if *pos >= tokens.len() {
            return Err(ParseError::UnexpectedEOF);
        }
        let line_token = &tokens[*pos];
        let line_id = match line_token.kind {
            crate::tokenizer::TokenType::Number(n) => n,
            _ => {
                return Err(ParseError::WrongToken {
                    expected: "Line number".to_owned(),
                    actual: kind_name(&line_token.kind),
                });
            },
        };
        *pos = *pos + 1;
        let statement = match Statement::parse(tokens, pos) {
            Ok(s) => s,
            Err(e) => {
                return Err(e);
            },
        };
        Ok(Line { line_id, statement })
    }
}

/// Parse the token stream into the program's ordered list of lines.
pub fn parse_tokens(tokens: &Vec<Token>) -> (r: Result<Vec<Line>, ParseError>)
    ensures
        match r {
            Ok(lines) => parse_lines_model(tokens_view(tokens@), 0) == Ok::<_, ParseErrModel>(
                lines_view(lines@),
            ),
            Err(e) => parse_err_view(e) matches Some(m) && parse_lines_model(
                tokens_view(tokens@),
                0,
            ) == Err::<Seq<LineModel>, _>(m),
        },
{
    let ghost tv = tokens_view(tokens@);
    let mut pos: usize = 0;
    let mut lines: Vec<Line> = Vec::new();
    while pos < tokens.len()
        invariant
            tv == tokens_view(tokens@),
            pos <= tokens@.len(),
            parse_lines_model(tv, pos as int) matches Ok(rest) ==> parse_lines_model(tv, 0)
                == Ok::<_, ParseErrModel>(lines_view(lines@) + rest),
            parse_lines_model(tv, pos as int) matches Err(m) ==> parse_lines_model(tv, 0)
                == Err::<Seq<LineModel>, _>(m),
        decreases tokens@.len() - pos,
    {
        let ghost old_lines = lines@;
        let ghost old_pos = pos as int;
        let line = match Line::parse(tokens, &mut pos) {
            Ok(l) => l,
            Err(e) => {
                return Err(e);
            },
        };
        lines.push(line);
        proof {
            if parse_lines_model(tv, pos as int) is Ok {
                let rest = parse_lines_model(tv, pos as int)->Ok_0;
                assert(lines_view(lines@) + rest =~= lines_view(old_lines) + (seq![
                    line_view(line),
                ] + rest));
                assert(lines_view(old_lines) + (seq![line_view(line)] + rest) =~= lines_view(
                    old_lines,
                ) + seq![line_view(line)] + rest);
            }
        }
    }
    proof {
        assert(lines_view(lines@) + seq![] =~= lines_view(lines@));
    }
    Ok(lines)
}

/// Parse a program given as raw source lines: tokenize, then build the line
/// list. The entry point for callers that hold the source text.
pub fn parse(lines: &Vec<String>) -> (r: Result<Vec<Line>, ParseError>)
    ensures
        match r {
            Ok(ast) => {
                &&& crate::tokenizer::lex_program(lines.deep_view()) matches Ok(toks)
                    && parse_lines_model(toks, 0) == Ok::<_, ParseErrModel>(lines_view(ast@))
            },
            Err(e) => match parse_err_view(e) {
                Some(m) => {
                    &&& crate::tokenizer::lex_program(lines.deep_view()) matches Ok(toks)
                        && parse_lines_model(toks, 0) == Err::<Seq<LineModel>, _>(m)
                },
                None => {
                    &&& crate::tokenizer::lex_program(lines.deep_view()) matches Err(p)
                        && e matches ParseError::UnkownToken { line_num: ln, col_start: cs, unkown_code }
                        && ln == p.0 && cs == p.1 && unkown_code@ == lines.deep_view()[p.0 as int].skip(
                        p.1 as int,
                    )
                },
            },
        },
{
    let tokens = match crate::tokenizer::tokenize(lines) {
        Ok(ts) => ts,
        Err(e) => {
            return Err(e);
        },
    };
    parse_tokens(&tokens)
}

} // verus!
