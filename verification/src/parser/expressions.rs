//! Numeric expressions: left-associative sums of products of factors, where a
//! factor is a variable, a number, a parenthesized expression, or a negated
//! factor.

use super::{kind_name, kind_name_model, parse_err_view, pos_view, tok_pos, Node, ParseErrModel, PosModel};
use crate::tokenizer::{tokens_view, Position, Token, TokenKindModel, TokenModel, TokenType};
use crate::ParseError;
use vstd::prelude::*;
use vstd::string::*;

verus! {

/// An arithmetic operator with two operands.
#[derive(Debug, PartialEq, Eq, Structural, Clone, Copy)]
pub enum BinaryOperator {
    Plus,
    Minus,
    Multiply,
    Devide,
}

/// An arithmetic operator with one operand.
#[derive(Debug, PartialEq, Eq, Structural, Clone, Copy)]
pub enum UnaryOperator {
    Minus,
}

/// A comparison operator between two numeric expressions.
#[derive(Debug, PartialEq, Eq, Structural, Clone, Copy)]
pub enum RelationalOperator {
    Equal,
    NotEqual,
    LessEqual,
    GreaterEqual,
    Less,
    Greater,
}

/// A numeric expression with two operands, like `2 + 2` or `8 / 4`.
#[derive(Debug, PartialEq)]
pub struct BinaryOperation {
    pub left: Node<Expression>,
    pub right: Node<Expression>,
    pub operator: BinaryOperator,
}

/// An expression: evaluates to a single numeric value.
#[derive(Debug, PartialEq)]
pub enum Expression {
    /// A numeric expression with two operands.
    BinaryOperation(Box<BinaryOperation>),
    /// A numeric expression with one operand, like `-4`.
    UnaryOperation { expression: Box<Node<Expression>>, operator: UnaryOperator },
    /// An integer written out in the source.
    NumberLiteral(u64),
    /// A variable name whose value will be retrieved.
    VarRetrieve(String),
}

/// A comparison between two numeric expressions.
#[derive(Debug, PartialEq)]
pub struct BooleanExpression {
    pub operator: RelationalOperator,
    pub left_expr: Node<Expression>,
    pub right_expr: Node<Expression>,
}

// ---------------------------------------------------------------------------
// Mathematical model of expressions
// ---------------------------------------------------------------------------

/// The mathematical counterpart of `Expression`.
pub enum ExprModel {
    BinaryOperation { operator: BinaryOperator, left: Box<NodeExprModel>, right: Box<NodeExprModel> },
    UnaryOperation { operator: UnaryOperator, expression: Box<NodeExprModel> },
    NumberLiteral(u64),
    VarRetrieve(Seq<char>),
}

/// An expression together with its source span.
pub struct NodeExprModel {
    pub pos: PosModel,
    pub expr: ExprModel,
}

/// The mathematical counterpart of `BooleanExpression`.
pub struct BoolExprModel {
    pub operator: RelationalOperator,
    pub left_expr: NodeExprModel,
    pub right_expr: NodeExprModel,
}

pub open spec fn expr_view(e: Expression) -> ExprModel
    decreases e,
{
    match e {
        Expression::BinaryOperation(b) => ExprModel::BinaryOperation {
            operator: b.operator,
            left: Box::new(node_expr_view(b.left)),
            right: Box::new(node_expr_view(b.right)),
        },
        Expression::UnaryOperation { expression, operator } => ExprModel::UnaryOperation {
            operator,
            expression: Box::new(node_expr_view(*expression)),
        },
        Expression::NumberLiteral(n) => ExprModel::NumberLiteral(n),
        Expression::VarRetrieve(name) => ExprModel::VarRetrieve(name@),
    }
}

pub open spec fn node_expr_view(n: Node<Expression>) -> NodeExprModel
    decreases n,
{
    NodeExprModel { pos: pos_view(n.position), expr: expr_view(n.content) }
}

pub open spec fn bool_expr_view(b: BooleanExpression) -> BoolExprModel {
    BoolExprModel {
        operator: b.operator,
        left_expr: node_expr_view(b.left_expr),
        right_expr: node_expr_view(b.right_expr),
    }
}

// ---------------------------------------------------------------------------
// The grammar of expressions, as functions from the stream to the tree
// ---------------------------------------------------------------------------

/// `Factor := Variable | Number | '(' Expression ')' | '-' Factor`
pub open spec fn parse_factor_model(toks: Seq<TokenModel>, p: int) -> Result<(NodeExprModel, int), ParseErrModel>
    decreases toks.len() - p, 0int,
{
    if !(0 <= p < toks.len()) {
        Err(ParseErrModel::Eof)
    } else {
        let t = toks[p];
        match t.kind {
            TokenKindModel::Variable(name) => Ok(
                (NodeExprModel { pos: tok_pos(t), expr: ExprModel::VarRetrieve(name) }, p + 1),
            ),
            TokenKindModel::Number(n) => Ok(
                (NodeExprModel { pos: tok_pos(t), expr: ExprModel::NumberLiteral(n) }, p + 1),
            ),
            TokenKindModel::OpenParen => match parse_expression_model(toks, p + 1) {
                Err(e) => Err(e),
                Ok((inner, p2)) => {
                    if !(p < p2 < toks.len()) {
                        Err(ParseErrModel::Eof)
                    } else if toks[p2].kind is CloseParen {
                        Ok(
                            (
                                NodeExprModel {
                                    pos: PosModel { line: t.line, start: t.start, end: toks[p2].end },
                                    expr: inner.expr,
                                },
                                p2 + 1,
                            ),
                        )
                    } else {
                        Err(
                            ParseErrModel::Wrong {
                                expected: "CloseParen"@,
                                actual: kind_name_model(toks[p2].kind),
                            },
                        )
                    }
                },
            },
            TokenKindModel::Minus => match parse_factor_model(toks, p + 1) {
                Err(e) => Err(e),
                Ok((inner, p2)) => Ok(
                    (
                        NodeExprModel {
                            pos: PosModel { line: t.line, start: t.start, end: inner.pos.end },
                            expr: ExprModel::UnaryOperation {
                                operator: UnaryOperator::Minus,
                                expression: Box::new(inner),
                            },
                        },
                        p2,
                    ),
                ),
            },
            k => Err(ParseErrModel::Wrong { expected: "Expression"@, actual: kind_name_model(k) }),
        }
    }
}

/// The span and content of a binary operation node: from the left operand's
/// start to the right operand's end, on the operator's line.
pub open spec fn binary_node_model(
    left: NodeExprModel,
    right: NodeExprModel,
    operator: BinaryOperator,
    line: nat,
) -> NodeExprModel {
    NodeExprModel {
        pos: PosModel { line, start: left.pos.start, end: right.pos.end },
        expr: ExprModel::BinaryOperation {
            operator,
            left: Box::new(left),
            right: Box::new(right),
        },
    }
}

/// `Term := Factor (('*'|'/') Factor)*`, folded left-associatively.
pub open spec fn parse_term_model(toks: Seq<TokenModel>, p: int) -> Result<(NodeExprModel, int), ParseErrModel>
    decreases toks.len() - p, 1int,
{
    match parse_factor_model(toks, p) {
        Err(e) => Err(e),
        Ok((left, p2)) => {
            // a successful sub-parse always advances the position (the
            // executable parser proves it); the bound check keeps this
            // definition well-founded
            if p < p2 <= toks.len() {
                parse_term_rest_model(toks, p2, left)
            } else {
                Err(ParseErrModel::Eof)
            }
        },
    }
}

pub open spec fn parse_term_rest_model(toks: Seq<TokenModel>, p: int, left: NodeExprModel) -> Result<
    (NodeExprModel, int),
    ParseErrModel,
>
    decreases toks.len() - p, 0int,
{
    if !(0 <= p < toks.len()) {
        Ok((left, p))
    } else {
        let t = toks[p];
        if t.kind is Multiply || t.kind is Divide {
            let operator = if t.kind is Multiply {
                BinaryOperator::Multiply
            } else {
                BinaryOperator::Devide
            };
            match parse_factor_model(toks, p + 1) {
                Err(e) => Err(e),
                Ok((right, p3)) => {
                    if p + 1 < p3 <= toks.len() {
                        parse_term_rest_model(toks, p3, binary_node_model(left, right, operator, t.line))
                    } else {
                        Err(ParseErrModel::Eof)
                    }
                },
            }
        } else {
            Ok((left, p))
        }
    }
}

/// `Expression := Term (('+'|'-') Term)*`, folded left-associatively.
pub open spec fn parse_expression_model(toks: Seq<TokenModel>, p: int) -> Result<
    (NodeExprModel, int),
    ParseErrModel,
>
    decreases toks.len() - p, 2int,
{
    match parse_term_model(toks, p) {
        Err(e) => Err(e),
        Ok((left, p2)) => {
            if p < p2 <= toks.len() {
                parse_expression_rest_model(toks, p2, left)
            } else {
                Err(ParseErrModel::Eof)
            }
        },
    }
}

pub open spec fn parse_expression_rest_model(toks: Seq<TokenModel>, p: int, left: NodeExprModel) -> Result<
    (NodeExprModel, int),
    ParseErrModel,
>
    decreases toks.len() - p, 0int,
{
    if !(0 <= p < toks.len()) {
        Ok((left, p))
    } else {
        let t = toks[p];
        if t.kind is Plus || t.kind is Minus {
            let operator = if t.kind is Plus {
                BinaryOperator::Plus
            } else {
                BinaryOperator::Minus
            };
            match parse_term_model(toks, p + 1) {
                Err(e) => Err(e),
                Ok((right, p3)) => {
                    if p + 1 < p3 <= toks.len() {
                        parse_expression_rest_model(
                            toks,
                            p3,
                            binary_node_model(left, right, operator, t.line),
                        )
                    } else {
                        Err(ParseErrModel::Eof)
                    }
                },
            }
        } else {
            Ok((left, p))
        }
    }
}

// ---------------------------------------------------------------------------
// The executable parser
// ---------------------------------------------------------------------------

/// Parse one factor at `*pos`: a variable, a number, a parenthesized
/// expression, or a negated factor.
pub fn parse_factor(tokens: &Vec<Token>, pos: &mut usize) -> (r: Result<Node<Expression>, ParseError>)
    requires
        *old(pos) <= tokens@.len(),
    ensures
        match r {
            Ok(node) => parse_factor_model(tokens_view(tokens@), *old(pos) as int) == Ok::<
                _,
                ParseErrModel,
            >((node_expr_view(node), *final(pos) as int)) && *old(pos) < *final(pos) <= tokens@.len(),
            Err(e) => parse_err_view(e) matches Some(m) && parse_factor_model(
                tokens_view(tokens@),
                *old(pos) as int,
            ) == Err::<(NodeExprModel, int), _>(m) && *old(pos) <= *final(pos) <= tokens@.len(),
        },
    decreases tokens@.len() - *old(pos), 0int,
{
    if *pos >= tokens.len() {
        return Err(ParseError::UnexpectedEOF);
    }
    let first_token = &tokens[*pos];
    match &first_token.kind {
        TokenType::Variable(var) => {
            let node = Node::new(first_token, Expression::VarRetrieve(var.clone()));
            *pos = *pos + 1;
            Ok(node)
        },
        TokenType::Number(num) => {
            let node = Node::new(first_token, Expression::NumberLiteral(*num));
            *pos = *pos + 1;
            Ok(node)
        },
        TokenType::OpenParen => {
            *pos = *pos + 1;
            let inner = match parse_expression(tokens, pos) {
                Ok(n) => n,
                Err(e) => {
                    return Err(e);
                },
            };
            if *pos >= tokens.len() {
                return Err(ParseError::UnexpectedEOF);
            }
            let close = &tokens[*pos];
            match &close.kind {
                TokenType::CloseParen => {
                    let node = Node {
                        content: inner.content,
                        position: Position {
                            line_num: first_token.position.line_num,
                            col_start: first_token.position.col_start,
                            col_end: close.position.col_end,
                        },
                    };
                    *pos = *pos + 1;
                    Ok(node)
                },
                k => Err(ParseError::WrongToken {
                    expected: "CloseParen".to_owned(),
                    actual: kind_name(k),
                }),
            }
        },
        TokenType::Minus => {
            *pos = *pos + 1;
            let factor = match parse_factor(tokens, pos) {
                Ok(n) => n,
                Err(e) => {
                    return Err(e);
                },
            };
            let col_end = factor.position.col_end;
            let node = Node {
                content: Expression::UnaryOperation {
                    expression: Box::new(factor),
                    operator: UnaryOperator::Minus,
                },
                position: Position {
                    line_num: first_token.position.line_num,
                    col_start: first_token.position.col_start,
                    col_end,
                },
            };
            Ok(node)
        },
        k => Err(ParseError::WrongToken { expected: "Expression".to_owned(), actual: kind_name(k) }),
    }
}

/// Parse one term at `*pos`: a factor, then any chain of `*` or `/` factors,
/// folded left-associatively.
pub fn parse_term(tokens: &Vec<Token>, pos: &mut usize) -> (r: Result<Node<Expression>, ParseError>)
    requires
        *old(pos) <= tokens@.len(),
    ensures
        match r {
            Ok(node) => parse_term_model(tokens_view(tokens@), *old(pos) as int) == Ok::<
                _,
                ParseErrModel,
            >((node_expr_view(node), *final(pos) as int)) && *old(pos) < *final(pos) <= tokens@.len(),
            Err(e) => parse_err_view(e) matches Some(m) && parse_term_model(
                tokens_view(tokens@),
                *old(pos) as int,
            ) == Err::<(NodeExprModel, int), _>(m) && *old(pos) <= *final(pos) <= tokens@.len(),
        },
    decreases tokens@.len() - *old(pos), 1int,
{
    let ghost tv = tokens_view(tokens@);
    let mut left_node = match parse_factor(tokens, pos) {
        Ok(n) => n,
        Err(e) => {
            return Err(e);
        },
    };
    while *pos < tokens.len() && (matches!(&tokens[*pos].kind, TokenType::Multiply) || matches!(
        &tokens[*pos].kind,
        TokenType::Divide,
    ))
        invariant
            tv == tokens_view(tokens@),
            *old(pos) < *pos <= tokens@.len(),
            parse_term_model(tv, *old(pos) as int) == parse_term_rest_model(
                tv,
                *pos as int,
                node_expr_view(left_node),
            ),
        decreases tokens@.len() - *pos,
    {
        let token_line = tokens[*pos].position.line_num;
        let is_mul = matches!(&tokens[*pos].kind, TokenType::Multiply);
        let operator = if is_mul {
            BinaryOperator::Multiply
        } else {
            BinaryOperator::Devide
        };
        *pos = *pos + 1;
        let right_node = match parse_factor(tokens, pos) {
            Ok(n) => n,
            Err(e) => {
                return Err(e);
            },
        };
        let col_start = left_node.position.col_start;
        let col_end = right_node.position.col_end;
        let binary_operation = BinaryOperation { left: left_node, right: right_node, operator };
        left_node = Node {
            content: Expression::BinaryOperation(Box::new(binary_operation)),
            position: Position { line_num: token_line, col_start, col_end },
        };
    }
    Ok(left_node)
}

/// Parse one expression at `*pos`: a term, then any chain of `+` or `-`
/// terms, folded left-associatively.
pub fn parse_expression(tokens: &Vec<Token>, pos: &mut usize) -> (r: Result<Node<Expression>, ParseError>)
    requires
        *old(pos) <= tokens@.len(),
    ensures
        match r {
            Ok(node) => parse_expression_model(tokens_view(tokens@), *old(pos) as int) == Ok::<
                _,
                ParseErrModel,
            >((node_expr_view(node), *final(pos) as int)) && *old(pos) < *final(pos) <= tokens@.len(),
            Err(e) => parse_err_view(e) matches Some(m) && parse_expression_model(
                tokens_view(tokens@),
                *old(pos) as int,
            ) == Err::<(NodeExprModel, int), _>(m) && *old(pos) <= *final(pos) <= tokens@.len(),
        },
    decreases tokens@.len() - *old(pos), 2int,
{
    let ghost tv = tokens_view(tokens@);
    let mut left = match parse_term(tokens, pos) {
        Ok(n) => n,
        Err(e) => {
            return Err(e);
        },
    };
    while *pos < tokens.len() && (matches!(&tokens[*pos].kind, TokenType::Plus) || matches!(
        &tokens[*pos].kind,
        TokenType::Minus,
    ))
        invariant
            tv == tokens_view(tokens@),
            *old(pos) < *pos <= tokens@.len(),
            parse_expression_model(tv, *old(pos) as int) == parse_expression_rest_model(
                tv,
                *pos as int,
                node_expr_view(left),
            ),
        decreases tokens@.len() - *pos,
    {
        let token_line = tokens[*pos].position.line_num;
        let is_plus = matches!(&tokens[*pos].kind, TokenType::Plus);
        let operator = if is_plus {
            BinaryOperator::Plus
        } else {
            BinaryOperator::Minus
        };
        *pos = *pos + 1;
        let right = match parse_term(tokens, pos) {
            Ok(n) => n,
            Err(e) => {
                return Err(e);
            },
        };
        let col_start = left.position.col_start;
        let col_end = right.position.col_end;
        let binary_op = BinaryOperation { left, right, operator };
        left = Node {
            content: Expression::BinaryOperation(Box::new(binary_op)),
            position: Position { line_num: token_line, col_start, col_end },
        };
    }
    Ok(left)
}

} // verus!
