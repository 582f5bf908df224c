//! The assignment statement: `'LET' Variable '=' Expression`.

use super::super::expressions::{
    node_expr_view, parse_expression, parse_expression_model, Expression, NodeExprModel,
};
use super::super::{kind_name, kind_name_model, parse_err_view, pos_view, Node, ParseErrModel, PosModel};
use crate::tokenizer::{tokens_view, Position, Token, TokenKindModel, TokenModel, TokenType};
use crate::ParseError;
use vstd::prelude::*;
use vstd::string::*;

verus! {

/// `'LET' <var> '=' <expression>`
#[derive(Debug, PartialEq)]
pub struct LetStatement {
    pub name: String,
    pub expression: Node<Expression>,
}

/// The mathematical counterpart of `LetStatement`.
pub struct LetStmtModel {
    pub name: Seq<char>,
    pub expression: NodeExprModel,
}

/// A `LetStmtModel` together with its source span.
pub struct NodeLetModel {
    pub pos: PosModel,
    pub content: LetStmtModel,
}

pub open spec fn let_stmt_view(l: LetStatement) -> LetStmtModel {
    LetStmtModel { name: l.name@, expression: node_expr_view(l.expression) }
}

/// The body of a LET after its keyword: the target variable, `=`, and the
/// expression. Its span runs from the variable to the expression's end.
pub open spec fn parse_let_model(toks: Seq<TokenModel>, p: int) -> Result<(NodeLetModel, int), ParseErrModel>
    decreases toks.len() - p, 3int,
{
    if !(0 <= p < toks.len()) {
        Err(ParseErrModel::Eof)
    } else {
        let var_tok = toks[p];
        match var_tok.kind {
            TokenKindModel::Variable(name) => {
                if !(p + 1 < toks.len()) {
                    Err(ParseErrModel::Eof)
                } else if !(toks[p + 1].kind is Equal) {
                    Err(
                        ParseErrModel::Wrong {
                            expected: "Equal"@,
                            actual: kind_name_model(toks[p + 1].kind),
                        },
                    )
                } else {
                    match parse_expression_model(toks, p + 2) {
                        Err(e) => Err(e),
                        Ok((expression, p2)) => Ok(
                            (
                                NodeLetModel {
                                    pos: PosModel {
                                        line: var_tok.line,
                                        start: var_tok.start,
                                        end: expression.pos.end,
                                    },
                                    content: LetStmtModel { name, expression },
                                },
                                p2,
                            ),
                        ),
                    }
                }
            },
            k => Err(ParseErrModel::Wrong { expected: "Variable"@, actual: kind_name_model(k) }),
        }
    }
}

impl LetStatement {
    /// Parse the body of a LET after its keyword: the target variable, the
    /// `=` sign, and the assigned expression.
    pub fn parse(tokens: &Vec<Token>, pos: &mut usize) -> (r: Result<Node<LetStatement>, ParseError>)
        requires
            *old(pos) <= tokens@.len(),
        ensures
            match r {
                Ok(node) => parse_let_model(tokens_view(tokens@), *old(pos) as int) == Ok::<
                    _,
                    ParseErrModel,
                >(
                    (
                        NodeLetModel {
                            pos: pos_view(node.position),
                            content: let_stmt_view(node.content),
                        },
                        *final(pos) as int,
                    ),
                ) && *old(pos) < *final(pos) <= tokens@.len(),
                Err(e) => parse_err_view(e) matches Some(m) && parse_let_model(
                    tokens_view(tokens@),
                    *old(pos) as int,
                ) == Err::<(NodeLetModel, int), _>(m) && *old(pos) <= *final(pos) <= tokens@.len(),
            },
    {
        if *pos >= tokens.len() {
            return Err(ParseError::UnexpectedEOF);
        }
        let token = &tokens[*pos];
        let var_position = token.position;
        let var_name = match &token.kind {
            TokenType::Variable(name) => name.clone(),
            k => {
                return Err(ParseError::WrongToken {
                    expected: "Variable".to_owned(),
                    actual: kind_name(k),
                });
            },
        };
        *pos = *pos + 1;
        if *pos >= tokens.len() {
            return Err(ParseError::UnexpectedEOF);
        }
        let token = &tokens[*pos];
        match &token.kind {
            TokenType::Equal => {},
            k => {
                return Err(ParseError::WrongToken {
                    expected: "Equal".to_owned(),
                    actual: kind_name(k),
                });
            },
        }
        *pos = *pos + 1;
        let expression = match parse_expression(tokens, pos) {
            Ok(n) => n,
            Err(e) => {
                return Err(e);
            },
        };
        let position = Position {
            line_num: var_position.line_num,
            col_start: var_position.col_start,
            col_end: expression.position.col_end,
        };
        let content = LetStatement { name: var_name, expression };
        Ok(Node { content, position })
    }
}

} // verus!
