//! The output statement: `'PRINT' Printable (',' Printable)*`, where each
//! printable is a string literal or an expression.

use super::super::expressions::{parse_expression, parse_expression_model, Expression, ExprModel};
use super::super::{parse_err_view, tok_pos, Node, ParseErrModel, PosModel};
use crate::tokenizer::{tokens_view, Position, Token, TokenKindModel, TokenModel, TokenType};
use crate::ParseError;
use vstd::prelude::*;
use vstd::string::*;

verus! {

/// One comma-separated item of a PRINT statement.
#[derive(Debug, PartialEq)]
pub enum Printable {
    String(String),
    ExpressionNode(Box<Expression>),
}

/// The items of one PRINT statement.
pub type Printables = Vec<Node<Printable>>;

/// The mathematical counterpart of `Printable`.
pub enum PrintableModel {
    StringLit(Seq<char>),
    ExpressionNode(ExprModel),
}

/// A printable together with its source span.
pub struct PrintableNodeModel {
    pub pos: PosModel,
    pub content: PrintableModel,
}

/// A whole printable list together with its source span.
pub struct PrintablesNodeModel {
    pub pos: PosModel,
    pub items: Seq<PrintableNodeModel>,
}

pub open spec fn printable_view(p: Printable) -> PrintableModel {
    match p {
        Printable::String(s) => PrintableModel::StringLit(s@),
        Printable::ExpressionNode(e) => PrintableModel::ExpressionNode(
            super::super::expressions::expr_view(*e),
        ),
    }
}

pub open spec fn printable_node_view(n: Node<Printable>) -> PrintableNodeModel {
    PrintableNodeModel { pos: super::super::pos_view(n.position), content: printable_view(n.content) }
}

pub open spec fn printables_view(ps: Seq<Node<Printable>>) -> Seq<PrintableNodeModel> {
    ps.map_values(|n: Node<Printable>| printable_node_view(n))
}

// ---------------------------------------------------------------------------
// The grammar
// ---------------------------------------------------------------------------

/// One printable at `p`: a string literal token, or an expression.
pub open spec fn parse_one_printable_model(toks: Seq<TokenModel>, p: int) -> Result<
    (PrintableNodeModel, int),
    ParseErrModel,
>
    decreases toks.len() - p, 3int,
{
    if !(0 <= p < toks.len()) {
        Err(ParseErrModel::Eof)
    } else {
        let t = toks[p];
        match t.kind {
            TokenKindModel::StringLit(s) => Ok(
                (PrintableNodeModel { pos: tok_pos(t), content: PrintableModel::StringLit(s) }, p + 1),
            ),
            _ => match parse_expression_model(toks, p) {
                Err(e) => Err(e),
                Ok((node, p2)) => Ok(
                    (
                        PrintableNodeModel {
                            pos: node.pos,
                            content: PrintableModel::ExpressionNode(node.expr),
                        },
                        p2,
                    ),
                ),
            },
        }
    }
}

/// After one printable: as long as a comma follows, parse another.
pub open spec fn parse_printables_rest_model(
    toks: Seq<TokenModel>,
    p: int,
    items: Seq<PrintableNodeModel>,
) -> Result<(Seq<PrintableNodeModel>, int), ParseErrModel>
    decreases toks.len() - p, 4int,
{
    if !(0 <= p < toks.len()) {
        Ok((items, p))
    } else if toks[p].kind is Comma {
        match parse_one_printable_model(toks, p + 1) {
            Err(e) => Err(e),
            Ok((item, p2)) => {
                if p + 1 < p2 <= toks.len() {
                    parse_printables_rest_model(toks, p2, items.push(item))
                } else {
                    Err(ParseErrModel::Eof)
                }
            },
        }
    } else {
        Ok((items, p))
    }
}

/// The comma-separated printable list of a PRINT statement. Its span runs
/// from the first item's start to the last item's end.
pub open spec fn parse_printables_model(toks: Seq<TokenModel>, p: int) -> Result<
    (PrintablesNodeModel, int),
    ParseErrModel,
>
    decreases toks.len() - p, 5int,
{
    match parse_one_printable_model(toks, p) {
        Err(e) => Err(e),
        Ok((first, p2)) => {
            if !(p < p2 <= toks.len()) {
                Err(ParseErrModel::Eof)
            } else {
                match parse_printables_rest_model(toks, p2, seq![first]) {
                    Err(e) => Err(e),
                    Ok((items, p3)) => Ok(
                        (
                            PrintablesNodeModel {
                                pos: PosModel {
                                    line: items[0].pos.line,
                                    start: items[0].pos.start,
                                    end: items[items.len() - 1].pos.end,
                                },
                                items,
                            },
                            p3,
                        ),
                    ),
                }
            }
        },
    }
}

// ---------------------------------------------------------------------------
// The executable parser
// ---------------------------------------------------------------------------

/// Parse one printable at `*pos`: a string literal, or an expression.
fn parse_one_printable(tokens: &Vec<Token>, pos: &mut usize) -> (r: Result<Node<Printable>, ParseError>)
    requires
        *old(pos) <= tokens@.len(),
    ensures
        match r {
            Ok(node) => parse_one_printable_model(tokens_view(tokens@), *old(pos) as int) == Ok::<
                _,
                ParseErrModel,
            >((printable_node_view(node), *final(pos) as int)) && *old(pos) < *final(pos)
                <= tokens@.len(),
            Err(e) => parse_err_view(e) matches Some(m) && parse_one_printable_model(
                tokens_view(tokens@),
                *old(pos) as int,
            ) == Err::<(PrintableNodeModel, int), _>(m) && *old(pos) <= *final(pos) <= tokens@.len(),
        },
{
    if *pos >= tokens.len() {
        return Err(ParseError::UnexpectedEOF);
    }
    let token = &tokens[*pos];
    match &token.kind {
        TokenType::String(s) => {
            let node = Node { content: Printable::String(s.clone()), position: token.position };
            *pos = *pos + 1;
            Ok(node)
        },
        _ => {
            let node = match parse_expression(tokens, pos) {
                Ok(n) => n,
                Err(e) => {
                    return Err(e);
                },
            };
            Ok(Node {
                content: Printable::ExpressionNode(Box::new(node.content)),
                position: node.position,
            })
        },
    }
}

/// Parse the printable list of a PRINT statement at `*pos`.
pub fn parse_printables(tokens: &Vec<Token>, pos: &mut usize) -> (r: Result<Node<Printables>, ParseError>)
    requires
        *old(pos) <= tokens@.len(),
    ensures
        match r {
            Ok(node) => parse_printables_model(tokens_view(tokens@), *old(pos) as int) == Ok::<
                _,
                ParseErrModel,
            >(
                (
                    PrintablesNodeModel {
                        pos: super::super::pos_view(node.position),
                        items: printables_view(node.content@),
                    },
                    *final(pos) as int,
                ),
            ) && *old(pos) < *final(pos) <= tokens@.len(),
            Err(e) => parse_err_view(e) matches Some(m) && parse_printables_model(
                tokens_view(tokens@),
                *old(pos) as int,
            ) == Err::<(PrintablesNodeModel, int), _>(m) && *old(pos) <= *final(pos) <= tokens@.len(),
        },
{
    let ghost tv = tokens_view(tokens@);
    let ghost start = *pos as int;
    let mut printables: Vec<Node<Printable>> = Vec::new();
    let first = match parse_one_printable(tokens, pos) {
        Ok(n) => n,
        Err(e) => {
            return Err(e);
        },
    };
    printables.push(first);
    proof {
        assert(printables_view(printables@) =~= seq![printable_node_view(first)]);
    }
    while *pos < tokens.len() && matches!(&tokens[*pos].kind, TokenType::Comma)
        invariant
            tv == tokens_view(tokens@),
            *pos <= tokens@.len(),
            start < *pos,
            start == *old(pos),
            printables@.len() >= 1,
            parse_printables_model(tv, start) == (match parse_printables_rest_model(
                tv,
                *pos as int,
                printables_view(printables@),
            ) {
                Err(e) => Err::<(PrintablesNodeModel, int), ParseErrModel>(e),
                Ok((items, p3)) => Ok(
                    (
                        PrintablesNodeModel {
                            pos: PosModel {
                                line: items[0].pos.line,
                                start: items[0].pos.start,
                                end: items[items.len() - 1].pos.end,
                            },
                            items,
                        },
                        p3,
                    ),
                ),
            }),
        decreases tokens@.len() - *pos,
    {
        *pos = *pos + 1;
        let item = match parse_one_printable(tokens, pos) {
            Ok(n) => n,
            Err(e) => {
                return Err(e);
            },
        };
        let ghost old_items = printables@;
        printables.push(item);
        proof {
            assert(printables_view(printables@) =~= printables_view(old_items).push(
                printable_node_view(item),
            ));
        }
    }
    let first_position = printables[0].position;
    let last_position = printables[printables.len() - 1].position;
    let position = Position {
        line_num: first_position.line_num,
        col_start: first_position.col_start,
        col_end: last_position.col_end,
    };
    Ok(Node { content: printables, position })
}

} // verus!
