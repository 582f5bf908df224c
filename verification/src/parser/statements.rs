//! Statements: the six statement forms and their dispatching parser.
//!
//! ```text
//! Statement := 'PRINT' Printable (',' Printable)*
//!            | 'IF' BooleanExpr 'THEN' Statement
//!            | 'GOTO' Expression
//!            | 'GOSUB' Expression
//!            | 'LET' Variable '=' Expression
//!            | 'RETURN'
//! ```

pub mod if_statement;
pub mod let_statment;
pub mod print_statment;

use super::expressions::{parse_expression, parse_expression_model, Expression, ExprModel};
use super::{kind_name, kind_name_model, parse_err_view, pos_view, tok_pos, Node, ParseErrModel, PosModel};
use crate::tokenizer::{tokens_view, Position, Token, TokenKindModel, TokenModel, TokenType};
use crate::ParseError;
use if_statement::{if_stmt_view, parse_if_node_model, IfStatement, IfStmtModel};
use let_statment::{let_stmt_view, parse_let_model, LetStatement, LetStmtModel};
use print_statment::{
    parse_printables, parse_printables_model, printables_view, Printable, PrintableNodeModel, Printables,
};
use vstd::prelude::*;
use vstd::string::*;

verus! {

/// One statement of the language.
#[derive(Debug, PartialEq)]
pub enum Statement {
    Print(Box<Printables>),
    If(Box<IfStatement>),
    GoSub(Box<Expression>),
    GoTo(Box<Expression>),
    Let(Box<LetStatement>),
    Return,
}

// ---------------------------------------------------------------------------
// Mathematical model of statements
// ---------------------------------------------------------------------------

/// The mathematical counterpart of `Statement`.
pub enum StmtModel {
    Print(Seq<PrintableNodeModel>),
    If(Box<IfStmtModel>),
    GoSub(ExprModel),
    GoTo(ExprModel),
    Let(Box<LetStmtModel>),
    Return,
}

/// A statement together with its source span.
pub struct NodeStmtModel {
    pub pos: PosModel,
    pub stmt: StmtModel,
}

pub open spec fn stmt_view(s: Statement) -> StmtModel
    decreases s,
{
    match s {
        Statement::Print(items) => StmtModel::Print(printables_view((*items)@)),
        Statement::If(i) => StmtModel::If(Box::new(if_stmt_view(*i))),
        Statement::GoSub(e) => StmtModel::GoSub(super::expressions::expr_view(*e)),
        Statement::GoTo(e) => StmtModel::GoTo(super::expressions::expr_view(*e)),
        Statement::Let(l) => StmtModel::Let(Box::new(let_stmt_view(*l))),
        Statement::Return => StmtModel::Return,
    }
}

pub open spec fn node_stmt_view(n: Node<Statement>) -> NodeStmtModel
    decreases n,
{
    NodeStmtModel { pos: pos_view(n.position), stmt: stmt_view(n.content) }
}

/// The span of a statement node: from its keyword token to the end of its
/// content.
pub open spec fn wrap_pos(t: TokenModel, end: nat) -> PosModel {
    PosModel { line: t.line, start: t.start, end }
}

/// Dispatch on the keyword token at `p` and parse the statement form it
/// introduces.
pub open spec fn parse_statement_model(toks: Seq<TokenModel>, p: int) -> Result<
    (NodeStmtModel, int),
    ParseErrModel,
>
    decreases toks.len() - p, 5int,
{
    if !(0 <= p < toks.len()) {
        Err(ParseErrModel::Eof)
    } else {
        let t = toks[p];
        match t.kind {
            TokenKindModel::Print => match parse_printables_model(toks, p + 1) {
                Err(e) => Err(e),
                Ok((node, p2)) => Ok(
                    (
                        NodeStmtModel {
                            pos: wrap_pos(t, node.pos.end),
                            stmt: StmtModel::Print(node.items),
                        },
                        p2,
                    ),
                ),
            },
            TokenKindModel::If => match parse_if_node_model(toks, p + 1) {
                Err(e) => Err(e),
                Ok((node, p2)) => Ok(
                    (
                        NodeStmtModel {
                            pos: wrap_pos(t, node.pos.end),
                            stmt: StmtModel::If(Box::new(node.content)),
                        },
                        p2,
                    ),
                ),
            },
            TokenKindModel::Let => match parse_let_model(toks, p + 1) {
                Err(e) => Err(e),
                Ok((node, p2)) => Ok(
                    (
                        NodeStmtModel {
                            pos: wrap_pos(t, node.pos.end),
                            stmt: StmtModel::Let(Box::new(node.content)),
                        },
                        p2,
                    ),
                ),
            },
            TokenKindModel::Goto => match parse_expression_model(toks, p + 1) {
                Err(e) => Err(e),
                Ok((node, p2)) => Ok(
                    (
                        NodeStmtModel {
                            pos: wrap_pos(t, node.pos.end),
                            stmt: StmtModel::GoTo(node.expr),
                        },
                        p2,
                    ),
                ),
            },
            TokenKindModel::Gosub => match parse_expression_model(toks, p + 1) {
                Err(e) => Err(e),
                Ok((node, p2)) => Ok(
                    (
                        NodeStmtModel {
                            pos: wrap_pos(t, node.pos.end),
                            stmt: StmtModel::GoSub(node.expr),
                        },
                        p2,
                    ),
                ),
            },
            TokenKindModel::Return => Ok(
                (NodeStmtModel { pos: tok_pos(t), stmt: StmtModel::Return }, p + 1),
            ),
            k => Err(ParseErrModel::Wrong { expected: "Statement"@, actual: kind_name_model(k) }),
        }
    }
}

impl Statement {
    /// Parse the statement starting at `*pos`.
    pub fn parse(tokens: &Vec<Token>, pos: &mut usize) -> (r: Result<Node<Statement>, ParseError>)
        requires
            *old(pos) <= tokens@.len(),
        ensures
            match r {
                Ok(node) => parse_statement_model(tokens_view(tokens@), *old(pos) as int) == Ok::<
                    _,
                    ParseErrModel,
                >((node_stmt_view(node), *final(pos) as int)) && *old(pos) < *final(pos)
                    <= tokens@.len(),
                Err(e) => parse_err_view(e) matches Some(m) && parse_statement_model(
                    tokens_view(tokens@),
                    *old(pos) as int,
                ) == Err::<(NodeStmtModel, int), _>(m) && *old(pos) <= *final(pos) <= tokens@.len(),
            },
        decreases tokens@.len() - *old(pos), 5int,
    {
        if *pos >= tokens.len() {
            return Err(ParseError::UnexpectedEOF);
        }
        let token = &tokens[*pos];
        let token_position = token.position;
        match &token.kind {
            TokenType::Print => {
                *pos = *pos + 1;
                let node = match parse_printables(tokens, pos) {
                    Ok(n) => n,
                    Err(e) => {
                        return Err(e);
                    },
                };
                let content = Statement::Print(Box::new(node.content));
                Ok(wrap_statement_in_node(content, token_position, node.position))
            },
            TokenType::If => {
                *pos = *pos + 1;
                let node = match IfStatement::parse_node(tokens, pos) {
                    Ok(n) => n,
                    Err(e) => {
                        return Err(e);
                    },
                };
                let content = Statement::If(Box::new(node.content));
                Ok(wrap_statement_in_node(content, token_position, node.position))
            },
            TokenType::Let => {
                *pos = *pos + 1;
                let node = match LetStatement::parse(tokens, pos) {
                    Ok(n) => n,
                    Err(e) => {
                        return Err(e);
                    },
                };
                let content = Statement::Let(Box::new(node.content));
                Ok(wrap_statement_in_node(content, token_position, node.position))
            },
            TokenType::Goto => {
                *pos = *pos + 1;
                let node = match parse_expression(tokens, pos) {
                    Ok(n) => n,
                    Err(e) => {
                        return Err(e);
                    },
                };
                let content = Statement::GoTo(Box::new(node.content));
                Ok(wrap_statement_in_node(content, token_position, node.position))
            },
            TokenType::Gosub => {
                *pos = *pos + 1;
                let node = match parse_expression(tokens, pos) {
                    Ok(n) => n,
                    Err(e) => {
                        return Err(e);
                    },
                };
                let content = Statement::GoSub(Box::new(node.content));
                Ok(wrap_statement_in_node(content, token_position, node.position))
            },
            TokenType::Return => {
                *pos = *pos + 1;
                Ok(Node { position: token_position, content: Statement::Return })
            },
            k => Err(ParseError::WrongToken {
                expected: "Statement".to_owned(),
                actual: kind_name(k),
            }),
        }
    }
}

/// Wrap a parsed statement so that its span runs from the keyword token to
/// the end of the parsed content.
fn wrap_statement_in_node(content: Statement, token_position: Position, content_position: Position) -> (n: Node<
    Statement,
>)
    ensures
        n.content == content,
        n.position == (Position {
            line_num: token_position.line_num,
            col_start: token_position.col_start,
            col_end: content_position.col_end,
        }),
{
    let position = Position {
        line_num: token_position.line_num,
        col_start: token_position.col_start,
        col_end: content_position.col_end,
    };
    Node { content, position }
}

} // verus!
