//! The conditional statement: `'IF' BooleanExpr 'THEN' Statement`, where the
//! nested statement is exactly one statement.

use super::super::expressions::{
    bool_expr_view, parse_expression, parse_expression_model, BoolExprModel, BooleanExpression,
    RelationalOperator,
};
use super::super::{kind_name, kind_name_model, parse_err_view, pos_view, Node, ParseErrModel, PosModel};
use super::{node_stmt_view, parse_statement_model, NodeStmtModel, Statement};
use crate::tokenizer::{tokens_view, Position, Token, TokenKindModel, TokenModel, TokenType};
use crate::ParseError;
use vstd::prelude::*;
use vstd::string::*;

verus! {

/// `'IF' <boolean-expr> 'THEN' <statement>`
#[derive(Debug, PartialEq)]
pub struct IfStatement {
    pub boolean_expr: Node<BooleanExpression>,
    pub then_statement: Node<Statement>,
}

/// The mathematical counterpart of `IfStatement`.
pub struct IfStmtModel {
    pub boolean_expr: NodeBoolModel,
    pub then_statement: NodeStmtModel,
}

/// A boolean expression together with its source span.
pub struct NodeBoolModel {
    pub pos: PosModel,
    pub content: BoolExprModel,
}

/// An `IfStmtModel` together with its source span.
pub struct NodeIfModel {
    pub pos: PosModel,
    pub content: IfStmtModel,
}

pub open spec fn node_bool_view(n: Node<BooleanExpression>) -> NodeBoolModel {
    NodeBoolModel { pos: pos_view(n.position), content: bool_expr_view(n.content) }
}

pub open spec fn if_stmt_view(i: IfStatement) -> IfStmtModel
    decreases i,
{
    IfStmtModel {
        boolean_expr: node_bool_view(i.boolean_expr),
        then_statement: node_stmt_view(i.then_statement),
    }
}

// ---------------------------------------------------------------------------
// The grammar
// ---------------------------------------------------------------------------

/// The relational operator named by the token at `p`.
pub open spec fn parse_relop_model(toks: Seq<TokenModel>, p: int) -> Result<(RelationalOperator, int), ParseErrModel> {
    if !(0 <= p < toks.len()) {
        Err(ParseErrModel::Eof)
    } else {
        match toks[p].kind {
            TokenKindModel::Equal => Ok((RelationalOperator::Equal, p + 1)),
            TokenKindModel::NotEqual => Ok((RelationalOperator::NotEqual, p + 1)),
            TokenKindModel::Greater => Ok((RelationalOperator::Greater, p + 1)),
            TokenKindModel::GreaterEqual => Ok((RelationalOperator::GreaterEqual, p + 1)),
            TokenKindModel::Less => Ok((RelationalOperator::Less, p + 1)),
            TokenKindModel::LessEqual => Ok((RelationalOperator::LessEqual, p + 1)),
            k => Err(
                ParseErrModel::Wrong { expected: "relational operator"@, actual: kind_name_model(k) },
            ),
        }
    }
}

/// `BooleanExpr := Expression RelOp Expression`; its span runs from the left
/// operand's start to the right operand's end.
pub open spec fn parse_boolean_expression_model(toks: Seq<TokenModel>, p: int) -> Result<
    (NodeBoolModel, int),
    ParseErrModel,
>
    decreases toks.len() - p, 3int,
{
    match parse_expression_model(toks, p) {
        Err(e) => Err(e),
        Ok((left_expr, p2)) => {
            if !(p < p2 <= toks.len()) {
                Err(ParseErrModel::Eof)
            } else {
                match parse_relop_model(toks, p2) {
                    Err(e) => Err(e),
                    Ok((operator, p3)) => match parse_expression_model(toks, p3) {
                        Err(e) => Err(e),
                        Ok((right_expr, p4)) => Ok(
                            (
                                NodeBoolModel {
                                    pos: PosModel {
                                        line: left_expr.pos.line,
                                        start: left_expr.pos.start,
                                        end: right_expr.pos.end,
                                    },
                                    content: BoolExprModel { operator, left_expr, right_expr },
                                },
                                p4,
                            ),
                        ),
                    },
                }
            }
        },
    }
}

/// The body of an IF after its keyword: a boolean expression, the `THEN`
/// keyword, and the nested statement. Its span runs from the condition's
/// start to the nested statement's end.
pub open spec fn parse_if_node_model(toks: Seq<TokenModel>, p: int) -> Result<(NodeIfModel, int), ParseErrModel>
    decreases toks.len() - p, 4int,
{
    match parse_boolean_expression_model(toks, p) {
        Err(e) => Err(e),
        Ok((boolean_expr, p2)) => {
            if !(p <= p2 && p2 < toks.len()) {
                Err(ParseErrModel::Eof)
            } else if !(toks[p2].kind is Then) {
                Err(
                    ParseErrModel::Wrong {
                        expected: "THEN"@,
                        actual: kind_name_model(toks[p2].kind),
                    },
                )
            } else {
                match parse_statement_model(toks, p2 + 1) {
                    Err(e) => Err(e),
                    Ok((then_statement, p3)) => Ok(
                        (
                            NodeIfModel {
                                pos: PosModel {
                                    line: boolean_expr.pos.line,
                                    start: boolean_expr.pos.start,
                                    end: then_statement.pos.end,
                                },
                                content: IfStmtModel { boolean_expr, then_statement },
                            },
                            p3,
                        ),
                    ),
                }
            }
        },
    }
}

// ---------------------------------------------------------------------------
// The executable parser
// ---------------------------------------------------------------------------

/// Parse the relational operator at `*pos`.
pub fn parse_relational_operator(tokens: &Vec<Token>, pos: &mut usize) -> (r: Result<
    RelationalOperator,
    ParseError,
>)
    requires
        *old(pos) <= tokens@.len(),
    ensures
        match r {
            Ok(op) => parse_relop_model(tokens_view(tokens@), *old(pos) as int) == Ok::<
                _,
                ParseErrModel,
            >((op, *final(pos) as int)) && *old(pos) < *final(pos) <= tokens@.len(),
            Err(e) => parse_err_view(e) matches Some(m) && parse_relop_model(
                tokens_view(tokens@),
                *old(pos) as int,
            ) == Err::<(RelationalOperator, int), _>(m) && *old(pos) <= *final(pos) <= tokens@.len(),
        },
{
    if *pos >= tokens.len() {
        return Err(ParseError::UnexpectedEOF);
    }
    let token = &tokens[*pos];
    let operator = match &token.kind {
        TokenType::Equal => RelationalOperator::Equal,
        TokenType::NotEqual => RelationalOperator::NotEqual,
        TokenType::Greater => RelationalOperator::Greater,
        TokenType::GreaterEqual => RelationalOperator::GreaterEqual,
        TokenType::Less => RelationalOperator::Less,
        TokenType::LessEqual => RelationalOperator::LessEqual,
        k => {
            return Err(ParseError::WrongToken {
                expected: "relational operator".to_owned(),
                actual: kind_name(k),
            });
        },
    };
    *pos = *pos + 1;
    Ok(operator)
}

/// Parse the boolean expression at `*pos`: a comparison of two expressions.
pub fn parse_boolean_expression(tokens: &Vec<Token>, pos: &mut usize) -> (r: Result<
    Node<BooleanExpression>,
    ParseError,
>)
    requires
        *old(pos) <= tokens@.len(),
    ensures
        match r {
            Ok(node) => parse_boolean_expression_model(tokens_view(tokens@), *old(pos) as int) == Ok::<
                _,
                ParseErrModel,
            >((node_bool_view(node), *final(pos) as int)) && *old(pos) < *final(pos) <= tokens@.len(),
            Err(e) => parse_err_view(e) matches Some(m) && parse_boolean_expression_model(
                tokens_view(tokens@),
                *old(pos) as int,
            ) == Err::<(NodeBoolModel, int), _>(m) && *old(pos) <= *final(pos) <= tokens@.len(),
        },
    decreases tokens@.len() - *old(pos), 3int,
{
    let left_expr = match parse_expression(tokens, pos) {
        Ok(n) => n,
        Err(e) => {
            return Err(e);
        },
    };
    let operator = match parse_relational_operator(tokens, pos) {
        Ok(op) => op,
        Err(e) => {
            return Err(e);
        },
    };
    let right_expr = match parse_expression(tokens, pos) {
        Ok(n) => n,
        Err(e) => {
            return Err(e);
        },
    };
    let position = Position {
        line_num: left_expr.position.line_num,
        col_start: left_expr.position.col_start,
        col_end: right_expr.position.col_end,
    };
    let content = BooleanExpression { operator, left_expr, right_expr };
    Ok(Node { content, position })
}

impl IfStatement {
    /// Parse the body of an IF after its keyword: the condition, `THEN`, and
    /// the nested statement.
    pub fn parse_node(tokens: &Vec<Token>, pos: &mut usize) -> (r: Result<Node<IfStatement>, ParseError>)
        requires
            *old(pos) <= tokens@.len(),
        ensures
            match r {
                Ok(node) => parse_if_node_model(tokens_view(tokens@), *old(pos) as int) == Ok::<
                    _,
                    ParseErrModel,
                >(
                    (
                        NodeIfModel {
                            pos: pos_view(node.position),
                            content: if_stmt_view(node.content),
                        },
                        *final(pos) as int,
                    ),
                ) && *old(pos) < *final(pos) <= tokens@.len(),
                Err(e) => parse_err_view(e) matches Some(m) && parse_if_node_model(
                    tokens_view(tokens@),
                    *old(pos) as int,
                ) == Err::<(NodeIfModel, int), _>(m) && *old(pos) <= *final(pos) <= tokens@.len(),
            },
        decreases tokens@.len() - *old(pos), 4int,
    {
        let boolean_expr = match parse_boolean_expression(tokens, pos) {
            Ok(n) => n,
            Err(e) => {
                return Err(e);
            },
        };
        if *pos >= tokens.len() {
            return Err(ParseError::UnexpectedEOF);
        }
        let then_token = &tokens[*pos];
        match &then_token.kind {
            TokenType::Then => {},
            k => {
                return Err(ParseError::WrongToken {
                    expected: "THEN".to_owned(),
                    actual: kind_name(k),
                });
            },
        }
        *pos = *pos + 1;
        let then_statement = match Statement::parse(tokens, pos) {
            Ok(n) => n,
            Err(e) => {
                return Err(e);
            },
        };
        let position = Position {
            line_num: boolean_expr.position.line_num,
            col_start: boolean_expr.position.col_start,
            col_end: then_statement.position.col_end,
        };
        let content = IfStatement { boolean_expr, then_statement };
        Ok(Node { content, position })
    }
}

} // verus!
