//! The tree-walking interpreter: executes the ordered line list with a
//! program counter, a variable table, and a call stack for subroutine return
//! addresses. Printed lines are collected in an output buffer that the caller
//! reads.
//!
//! Integer arithmetic is 64-bit signed and wraps around at the type's
//! boundaries; division truncates toward zero, and division by zero is a
//! runtime error.

use crate::parser::expressions::{
    BinaryOperator, BoolExprModel, BooleanExpression, expr_view, ExprModel, Expression,
    RelationalOperator, UnaryOperator,
};
use crate::parser::statements::if_statement::IfStmtModel;
use crate::parser::statements::let_statment::LetStmtModel;
use crate::parser::statements::print_statment::{Printable, PrintableModel, PrintableNodeModel};
use crate::parser::statements::{stmt_view, Statement, StmtModel};
use crate::parser::{lines_view, Line, LineModel, Node};
use vstd::prelude::*;
use vstd::string::*;
use vstd::wrapping::i64_specs;

verus! {

/// An error that aborts a run at the failing statement.
#[derive(Debug, PartialEq)]
pub enum InterpreterError {
    /// A variable was read before any assignment to it.
    UndeclaredVariable(String),
    /// A GOTO or GOSUB target was negative or matched no line label.
    InvalidGoto(i64),
    /// RETURN was executed with an empty call stack.
    ReturnWithoutGosub,
    /// An expression divided by zero.
    DivisionByZero,
}

/// The mathematical counterpart of `InterpreterError`.
pub enum RunErrModel {
    UndeclaredVariable(Seq<char>),
    InvalidGoto(i64),
    ReturnWithoutGosub,
    DivisionByZero,
}

pub open spec fn run_err_view(e: InterpreterError) -> RunErrModel {
    match e {
        InterpreterError::UndeclaredVariable(name) => RunErrModel::UndeclaredVariable(name@),
        InterpreterError::InvalidGoto(t) => RunErrModel::InvalidGoto(t),
        InterpreterError::ReturnWithoutGosub => RunErrModel::ReturnWithoutGosub,
        InterpreterError::DivisionByZero => RunErrModel::DivisionByZero,
    }
}

// ---------------------------------------------------------------------------
// Arithmetic: wrapping 64-bit signed operations, truncating division
// ---------------------------------------------------------------------------

pub open spec fn abs_int(a: int) -> int {
    if a < 0 {
        -a
    } else {
        a
    }
}

/// Division truncating toward zero: the quotient of the magnitudes, negated
/// when the signs differ.
pub open spec fn truncated_div(a: int, b: int) -> int {
    let q = abs_int(a) / abs_int(b);
    if (a < 0) == (b < 0) {
        q
    } else {
        -q
    }
}

/// Truncating division on `i64`, wrapping on the one overflowing case
/// (`i64::MIN / -1`).
pub open spec fn wrap_div_i64(a: i64, b: i64) -> i64 {
    i64_specs::signed_crop(truncated_div(a as int, b as int))
}

/// The value of a number literal: the token's unsigned value reinterpreted in
/// the signed 64-bit range (wrapping).
pub open spec fn literal_val(n: u64) -> i64 {
    if n <= i64::MAX as u64 {
        n as i64
    } else {
        ((n as int) - 0x1_0000_0000_0000_0000) as i64
    }
}

/// Apply a binary operator, wrapping at the 64-bit boundaries; division by
/// zero is the one failing case.
pub open spec fn apply_binary(op: BinaryOperator, l: i64, r: i64) -> Result<i64, RunErrModel> {
    match op {
        BinaryOperator::Plus => Ok(i64_specs::wrapping_add(l, r)),
        BinaryOperator::Minus => Ok(i64_specs::wrapping_sub(l, r)),
        BinaryOperator::Multiply => Ok(i64_specs::wrapping_mul(l, r)),
        BinaryOperator::Devide => if r == 0 {
            Err(RunErrModel::DivisionByZero)
        } else {
            Ok(wrap_div_i64(l, r))
        },
    }
}

proof fn lemma_signed_crop_identity(x: int)
    requires
        i64::MIN <= x <= i64::MAX,
    ensures
        i64_specs::signed_crop(x) == x,
{
    let m = 0x1_0000_0000_0000_0000int;
    if x >= 0 {
        vstd::arithmetic::div_mod::lemma_small_mod(x as nat, m as nat);
    } else {
        vstd::arithmetic::div_mod::lemma_mod_add_multiples_vanish(x, m);
        vstd::arithmetic::div_mod::lemma_small_mod((x + m) as nat, m as nat);
    }
}

proof fn lemma_signed_crop_min()
    ensures
        i64_specs::signed_crop(0x8000_0000_0000_0000int) == i64::MIN,
{
    let m = 0x1_0000_0000_0000_0000int;
    vstd::arithmetic::div_mod::lemma_small_mod(0x8000_0000_0000_0000nat, m as nat);
}

/// The magnitude of a 64-bit signed value, as an unsigned value.
fn magnitude(a: i64) -> (m: u64)
    ensures
        m as int == abs_int(a as int),
{
    if a == i64::MIN {
        0x8000_0000_0000_0000u64
    } else if a < 0 {
        (-a) as u64
    } else {
        a as u64
    }
}

/// Truncating division, wrapping on `i64::MIN / -1`.
fn wrap_div(a: i64, b: i64) -> (r: i64)
    requires
        b != 0,
    ensures
        r == wrap_div_i64(a, b),
{
    let ma = magnitude(a);
    let mb = magnitude(b);
    let q = ma / mb;
    let neg = (a < 0) != (b < 0);
    if neg {
        if q == 0x8000_0000_0000_0000u64 {
            proof {
                lemma_signed_crop_identity(-(q as int));
            }
            i64::MIN
        } else {
            proof {
                lemma_signed_crop_identity(-(q as int));
            }
            -(q as i64)
        }
    } else {
        if q >= 0x8000_0000_0000_0000u64 {
            proof {
                lemma_signed_crop_min();
            }
            i64::MIN
        } else {
            proof {
                lemma_signed_crop_identity(q as int);
            }
            q as i64
        }
    }
}

/// The value of a number literal (see `literal_val`).
fn literal_value(n: u64) -> (v: i64)
    ensures
        v == literal_val(n),
{
    if n <= i64::MAX as u64 {
        n as i64
    } else {
        let m = u64::MAX - n;
        -(m as i64) - 1
    }
}

// ---------------------------------------------------------------------------
// The variable table
// ---------------------------------------------------------------------------

/// The mapping from variable names to values; entries are created on first
/// assignment. Viewed as a `Map` from name to value, where the latest entry
/// for a name wins.
pub struct VarTable {
    entries: Vec<(String, i64)>,
}

/// The map denoted by an entry list: later entries shadow earlier ones.
pub open spec fn entries_map(s: Seq<(String, i64)>) -> Map<Seq<char>, i64>
    decreases s.len(),
{
    if s.len() == 0 {
        Map::empty()
    } else {
        entries_map(s.drop_last()).insert(s.last().0@, s.last().1)
    }
}

impl View for VarTable {
    type V = Map<Seq<char>, i64>;

    closed spec fn view(&self) -> Map<Seq<char>, i64> {
        entries_map(self.entries@)
    }
}

impl VarTable {
    /// An empty table.
    pub fn new() -> (r: Self)
        ensures
            r@ == Map::<Seq<char>, i64>::empty(),
    {
        VarTable { entries: Vec::new() }
    }

    /// The value of `name`, when it has one.
    pub fn get(&self, name: &String) -> (r: Option<i64>)
        ensures
            match r {
                Some(v) => self@.contains_key(name@) && self@[name@] == v,
                None => !self@.contains_key(name@),
            },
    {
        let mut i = self.entries.len();
        proof {
            assert(self.entries@.take(i as int) =~= self.entries@);
        }
        while i > 0
            invariant
                i <= self.entries@.len(),
                entries_map(self.entries@.take(i as int)).contains_key(name@)
                    ==> self@.contains_key(name@) && self@[name@] == entries_map(
                    self.entries@.take(i as int),
                )[name@],
                !entries_map(self.entries@.take(i as int)).contains_key(name@) ==> !self@.contains_key(
                    name@,
                ),
            decreases i,
        {
            proof {
                assert(self.entries@.take(i as int).drop_last() =~= self.entries@.take(i - 1));
                assert(self.entries@.take(i as int).last() == self.entries@[i - 1]);
            }
            if self.entries[i - 1].0 == *name {
                return Some(self.entries[i - 1].1);
            }
            i = i - 1;
        }
        proof {
            assert(self.entries@.take(0) =~= Seq::<(String, i64)>::empty());
        }
        None
    }

    /// Assign `val` to `name`: replace the latest entry for `name`, or add
    /// one when there is none.
    pub fn set(&mut self, name: &String, val: i64)
        ensures
            final(self)@ == old(self)@.insert(name@, val),
    {
        let ghost s0 = self.entries@;
        let mut i = self.entries.len();
        while i > 0
            invariant
                self.entries@ == s0,
                old(self)@ == entries_map(s0),
                i <= s0.len(),
                forall|j: int| i <= j < s0.len() ==> s0[j].0@ != name@,
            decreases i,
        {
            if self.entries[i - 1].0 == *name {
                let updated = (name.clone(), val);
                self.entries.set(i - 1, updated);
                proof {
                    lemma_entries_map_update(s0, i - 1, self.entries@[i - 1], name@, val);
                    assert(self.entries@ =~= s0.update(i - 1, self.entries@[i - 1]));
                }
                return ;
            }
            i = i - 1;
        }
        let pair = (name.clone(), val);
        self.entries.push(pair);
        proof {
            assert(self.entries@.drop_last() =~= s0);
            assert(self.entries@.last() == pair);
        }
    }
}

/// Replacing the latest entry for a name denotes the same map as inserting
/// the name afresh.
proof fn lemma_entries_map_update(s: Seq<(String, i64)>, i: int, p: (String, i64), name: Seq<char>, val: i64)
    requires
        0 <= i < s.len(),
        s[i].0@ == name,
        forall|j: int| i < j < s.len() ==> s[j].0@ != name,
        p.0@ == name,
        p.1 == val,
    ensures
        entries_map(s.update(i, p)) == entries_map(s).insert(name, val),
    decreases s.len(),
{
    let u = s.update(i, p);
    if i == s.len() - 1 {
        assert(u.drop_last() =~= s.drop_last());
        assert(u.last() == p);
        assert(entries_map(s).insert(s.last().0@, s.last().1).insert(name, val) =~= entries_map(
            s,
        ).insert(name, val));
        assert(entries_map(s.drop_last()).insert(name, val) =~= entries_map(s).insert(name, val));
    } else {
        assert(u.drop_last() =~= s.drop_last().update(i, p));
        assert(u.last() == s.last());
        lemma_entries_map_update(s.drop_last(), i, p, name, val);
        assert(entries_map(s.drop_last()).insert(name, val).insert(s.last().0@, s.last().1)
            =~= entries_map(s.drop_last()).insert(s.last().0@, s.last().1).insert(name, val));
    }
}

// ---------------------------------------------------------------------------
// Expression evaluation
// ---------------------------------------------------------------------------

/// Evaluate an expression under an environment: a recursive fold with
/// wrapping 64-bit arithmetic. Reading an unassigned variable and dividing by
/// zero are the failing cases.
pub open spec fn eval_expr_model(e: ExprModel, env: Map<Seq<char>, i64>) -> Result<i64, RunErrModel>
    decreases e,
{
    match e {
        ExprModel::NumberLiteral(n) => Ok(literal_val(n)),
        ExprModel::VarRetrieve(name) => if env.contains_key(name) {
            Ok(env[name])
        } else {
            Err(RunErrModel::UndeclaredVariable(name))
        },
        ExprModel::UnaryOperation { operator, expression } => match eval_expr_model(
            (*expression).expr,
            env,
        ) {
            Err(er) => Err(er),
            Ok(v) => match operator {
                UnaryOperator::Minus => Ok(i64_specs::wrapping_mul(-1i64, v)),
            },
        },
        ExprModel::BinaryOperation { operator, left, right } => match eval_expr_model(
            (*left).expr,
            env,
        ) {
            Err(er) => Err(er),
            Ok(l) => match eval_expr_model((*right).expr, env) {
                Err(er) => Err(er),
                Ok(r) => apply_binary(operator, l, r),
            },
        },
    }
}

/// Evaluate a comparison: both operands, then the relational operator.
pub open spec fn eval_bool_model(b: BoolExprModel, env: Map<Seq<char>, i64>) -> Result<bool, RunErrModel> {
    match eval_expr_model(b.left_expr.expr, env) {
        Err(er) => Err(er),
        Ok(l) => match eval_expr_model(b.right_expr.expr, env) {
            Err(er) => Err(er),
            Ok(r) => Ok(
                match b.operator {
                    RelationalOperator::Equal => l == r,
                    RelationalOperator::NotEqual => l != r,
                    RelationalOperator::Less => l < r,
                    RelationalOperator::LessEqual => l <= r,
                    RelationalOperator::Greater => l > r,
                    RelationalOperator::GreaterEqual => l >= r,
                },
            ),
        },
    }
}

/// Evaluate an expression against the variable table.
fn calculate_expression(variables: &VarTable, expression: &Expression) -> (r: Result<i64, InterpreterError>)
    ensures
        match r {
            Ok(v) => eval_expr_model(expr_view(*expression), variables@) == Ok::<_, RunErrModel>(v),
            Err(e) => eval_expr_model(expr_view(*expression), variables@) == Err::<i64, _>(
                run_err_view(e),
            ),
        },
    decreases expression,
{
    match expression {
        Expression::BinaryOperation(binary_op) => {
            let left = match calculate_expression(variables, &binary_op.left.content) {
                Ok(v) => v,
                Err(e) => {
                    return Err(e);
                },
            };
            let right = match calculate_expression(variables, &binary_op.right.content) {
                Ok(v) => v,
                Err(e) => {
                    return Err(e);
                },
            };
            match binary_op.operator {
                BinaryOperator::Plus => Ok(left.wrapping_add(right)),
                BinaryOperator::Minus => Ok(left.wrapping_sub(right)),
                BinaryOperator::Multiply => Ok(left.wrapping_mul(right)),
                BinaryOperator::Devide => {
                    if right == 0 {
                        Err(InterpreterError::DivisionByZero)
                    } else {
                        Ok(wrap_div(left, right))
                    }
                },
            }
        },
        Expression::UnaryOperation { expression: inner, operator } => {
            let v = match calculate_expression(variables, &inner.content) {
                Ok(v) => v,
                Err(e) => {
                    return Err(e);
                },
            };
            match operator {
                UnaryOperator::Minus => Ok((-1i64).wrapping_mul(v)),
            }
        },
        Expression::NumberLiteral(n) => Ok(literal_value(*n)),
        Expression::VarRetrieve(x) => match variables.get(x) {
            Some(v) => Ok(v),
            None => Err(InterpreterError::UndeclaredVariable(x.clone())),
        },
    }
}

/// Evaluate a comparison against the variable table.
fn calculate_boolean_expression(variables: &VarTable, expression: &BooleanExpression) -> (r: Result<
    bool,
    InterpreterError,
>)
    ensures
        match r {
            Ok(v) => eval_bool_model(crate::parser::expressions::bool_expr_view(*expression), variables@)
                == Ok::<_, RunErrModel>(v),
            Err(e) => eval_bool_model(
                crate::parser::expressions::bool_expr_view(*expression),
                variables@,
            ) == Err::<bool, _>(run_err_view(e)),
        },
{
    let left = match calculate_expression(variables, &expression.left_expr.content) {
        Ok(v) => v,
        Err(e) => {
            return Err(e);
        },
    };
    let right = match calculate_expression(variables, &expression.right_expr.content) {
        Ok(v) => v,
        Err(e) => {
            return Err(e);
        },
    };
    let result = match expression.operator {
        RelationalOperator::Equal => left == right,
        RelationalOperator::NotEqual => left != right,
        RelationalOperator::Less => left < right,
        RelationalOperator::LessEqual => left <= right,
        RelationalOperator::Greater => left > right,
        RelationalOperator::GreaterEqual => left >= right,
    };
    Ok(result)
}

// ---------------------------------------------------------------------------
// Printing values
// ---------------------------------------------------------------------------

pub open spec fn digit_char_of(d: int) -> char {
    if d == 0 {
        '0'
    } else if d == 1 {
        '1'
    } else if d == 2 {
        '2'
    } else if d == 3 {
        '3'
    } else if d == 4 {
        '4'
    } else if d == 5 {
        '5'
    } else if d == 6 {
        '6'
    } else if d == 7 {
        '7'
    } else if d == 8 {
        '8'
    } else {
        '9'
    }
}

/// The decimal digits of a non-negative value.
pub open spec fn dec_str(n: int) -> Seq<char>
    decreases n,
{
    if n < 10 {
        seq![digit_char_of(n)]
    } else {
        dec_str(n / 10).push(digit_char_of(n % 10))
    }
}

/// The decimal rendering of a 64-bit signed value.
pub open spec fn i64_dec_str(v: i64) -> Seq<char> {
    if v >= 0 {
        dec_str(v as int)
    } else {
        seq!['-'] + dec_str(-(v as int))
    }
}

fn digit_str(d: u64) -> (r: &'static str)
    requires
        d < 10,
    ensures
        r@ == seq![digit_char_of(d as int)],
{
    let r = match d {
        0u64 => "0",
        1u64 => "1",
        2u64 => "2",
        3u64 => "3",
        4u64 => "4",
        5u64 => "5",
        6u64 => "6",
        7u64 => "7",
        8u64 => "8",
        _ => "9",
    };
    proof {
        reveal_strlit("0");
        reveal_strlit("1");
        reveal_strlit("2");
        reveal_strlit("3");
        reveal_strlit("4");
        reveal_strlit("5");
        reveal_strlit("6");
        reveal_strlit("7");
        reveal_strlit("8");
        reveal_strlit("9");
        assert(r@ =~= seq![digit_char_of(d as int)]);
    }
    r
}

fn u64_to_string(n: u64) -> (s: String)
    ensures
        s@ == dec_str(n as int),
    decreases n,
{
    if n < 10 {
        digit_str(n).to_owned()
    } else {
        let mut s = u64_to_string(n / 10);
        s.append(digit_str(n % 10));
        proof {
            assert(s@ =~= dec_str(n as int));
        }
        s
    }
}

/// The decimal rendering of a value, as the output stream shows it.
fn value_to_string(v: i64) -> (s: String)
    ensures
        s@ == i64_dec_str(v),
{
    if v >= 0 {
        u64_to_string(v as u64)
    } else {
        let mag: u64 = if v == i64::MIN {
            0x8000_0000_0000_0000u64
        } else {
            (-v) as u64
        };
        let mut s = "-".to_owned();
        let digits = u64_to_string(mag);
        s.append(digits.as_str());
        proof {
            reveal_strlit("-");
            assert(s@ =~= seq!['-'] + dec_str(mag as int));
        }
        s
    }
}

/// The text a printable contributes to an output line.
pub open spec fn printable_text_model(p: PrintableModel, env: Map<Seq<char>, i64>) -> Result<
    Seq<char>,
    RunErrModel,
> {
    match p {
        PrintableModel::StringLit(s) => Ok(s),
        PrintableModel::ExpressionNode(e) => match eval_expr_model(e, env) {
            Err(er) => Err(er),
            Ok(v) => Ok(i64_dec_str(v)),
        },
    }
}

/// One output line: the items' texts joined with a tab separator.
pub open spec fn print_items_model(items: Seq<PrintableNodeModel>, env: Map<Seq<char>, i64>) -> Result<
    Seq<char>,
    RunErrModel,
>
    decreases items.len(),
{
    if items.len() == 0 {
        Ok(seq![])
    } else if items.len() == 1 {
        printable_text_model(items[0].content, env)
    } else {
        match print_items_model(items.drop_last(), env) {
            Err(e) => Err(e),
            Ok(prefix) => match printable_text_model(items.last().content, env) {
                Err(e) => Err(e),
                Ok(t) => Ok(prefix + seq!['\t'] + t),
            },
        }
    }
}

/// An error among the first `j` items is the whole line's error.
proof fn lemma_print_items_err_extend(items: Seq<PrintableNodeModel>, env: Map<Seq<char>, i64>, j: int)
    requires
        1 <= j <= items.len(),
        print_items_model(items.take(j), env) is Err,
    ensures
        print_items_model(items, env) == print_items_model(items.take(j), env),
    decreases items.len() - j,
{
    if j == items.len() {
        assert(items.take(j) =~= items);
    } else {
        assert(items.take(j + 1).drop_last() =~= items.take(j));
        lemma_print_items_err_extend(items, env, j + 1);
    }
}

/// Build the output line of a PRINT statement: each item's text, joined with
/// tabs.
fn build_print_line(variables: &VarTable, items: &Vec<Node<Printable>>) -> (r: Result<String, InterpreterError>)
    ensures
        match r {
            Ok(s) => print_items_model(
                crate::parser::statements::print_statment::printables_view(items@),
                variables@,
            ) == Ok::<_, RunErrModel>(s@),
            Err(e) => print_items_model(
                crate::parser::statements::print_statment::printables_view(items@),
                variables@,
            ) == Err::<Seq<char>, _>(run_err_view(e)),
        },
{
    let ghost iv = crate::parser::statements::print_statment::printables_view(items@);
    let mut out = String::new();
    let mut i: usize = 0;
    while i < items.len()
        invariant
            iv == crate::parser::statements::print_statment::printables_view(items@),
            i <= items@.len(),
            print_items_model(iv.take(i as int), variables@) == Ok::<_, RunErrModel>(out@),
        decreases items@.len() - i,
    {
        let text = match &items[i].content {
            Printable::String(s) => s.clone(),
            Printable::ExpressionNode(expression) => {
                let v = match calculate_expression(variables, expression) {
                    Ok(v) => v,
                    Err(e) => {
                        proof {
                            assert(iv.take(i + 1).drop_last() =~= iv.take(i as int));
                            assert(iv.take(i + 1).last() == iv[i as int]);
                            lemma_print_items_err_extend(iv, variables@, i + 1);
                        }
                        return Err(e);
                    },
                };
                value_to_string(v)
            },
        };
        if i > 0 {
            out.append("\t");
        }
        out.append(text.as_str());
        proof {
            reveal_strlit("\t");
            assert(iv.take(i + 1).drop_last() =~= iv.take(i as int));
            assert(iv.take(i + 1).last() == iv[i as int]);
            if i > 0 {
                assert(out@ =~= print_items_model(iv.take(i as int), variables@)->Ok_0 + seq!['\t']
                    + text@);
            } else {
                assert(out@ =~= text@);
            }
        }
        i = i + 1;
    }
    proof {
        assert(iv.take(items@.len() as int) =~= iv);
    }
    Ok(out)
}

// ---------------------------------------------------------------------------
// The machine: one statement dispatch, then iterated stepping
// ---------------------------------------------------------------------------

/// The interpreter's mutable state, mathematically: the variable table, the
/// program counter (an index into the line list, not a label), the call
/// stack, and the output lines written so far.
#[verifier::ext_equal]
pub struct MachineModel {
    pub env: Map<Seq<char>, i64>,
    pub pc: int,
    pub stack: Seq<int>,
    pub output: Seq<Seq<char>>,
}

pub open spec fn stack_view(s: Seq<usize>) -> Seq<int> {
    s.map_values(|x: usize| x as int)
}

pub open spec fn output_view(s: Seq<String>) -> Seq<Seq<char>> {
    s.map_values(|x: String| x@)
}

/// The first line whose label equals `target`, scanning in program order from
/// index `i`: with duplicate labels, the first occurrence wins.
pub open spec fn find_line_from(prog: Seq<LineModel>, target: int, i: int) -> Option<int>
    decreases prog.len() - i,
{
    if !(0 <= i < prog.len()) {
        None
    } else if prog[i].line_id == target {
        Some(i)
    } else {
        find_line_from(prog, target, i + 1)
    }
}

/// A jump: evaluate the target label, reject a negative one, find the first
/// line carrying it; a GOSUB also pushes the return index (the statement
/// after itself).
pub open spec fn jump_model(prog: Seq<LineModel>, st: MachineModel, e: ExprModel, push: bool) -> Result<
    MachineModel,
    RunErrModel,
> {
    match eval_expr_model(e, st.env) {
        Err(er) => Err(er),
        Ok(target) => {
            if target < 0 {
                Err(RunErrModel::InvalidGoto(target))
            } else {
                match find_line_from(prog, target as int, 0) {
                    None => Err(RunErrModel::InvalidGoto(target)),
                    Some(idx) => Ok(
                        MachineModel {
                            pc: idx,
                            stack: if push {
                                st.stack.push(st.pc + 1)
                            } else {
                                st.stack
                            },
                            env: st.env,
                            output: st.output,
                        },
                    ),
                }
            }
        },
    }
}

/// Execute one statement: how it transforms the machine state, or the error
/// that aborts the run. A taken IF branch dispatches its nested statement
/// without first advancing the program counter.
pub open spec fn step_stmt_model(prog: Seq<LineModel>, st: MachineModel, stmt: StmtModel) -> Result<
    MachineModel,
    RunErrModel,
>
    decreases stmt,
{
    match stmt {
        StmtModel::Let(l) => match eval_expr_model((*l).expression.expr, st.env) {
            Err(e) => Err(e),
            Ok(v) => Ok(
                MachineModel {
                    env: st.env.insert((*l).name, v),
                    pc: st.pc + 1,
                    stack: st.stack,
                    output: st.output,
                },
            ),
        },
        StmtModel::Print(items) => match print_items_model(items, st.env) {
            Err(e) => Err(e),
            Ok(line) => Ok(
                MachineModel {
                    output: st.output.push(line),
                    pc: st.pc + 1,
                    env: st.env,
                    stack: st.stack,
                },
            ),
        },
        StmtModel::GoTo(e) => jump_model(prog, st, e, false),
        StmtModel::GoSub(e) => jump_model(prog, st, e, true),
        StmtModel::Return => {
            if st.stack.len() == 0 {
                Err(RunErrModel::ReturnWithoutGosub)
            } else {
                Ok(
                    MachineModel {
                        pc: st.stack.last(),
                        stack: st.stack.drop_last(),
                        env: st.env,
                        output: st.output,
                    },
                )
            }
        },
        StmtModel::If(i) => match eval_bool_model((*i).boolean_expr.content, st.env) {
            Err(e) => Err(e),
            Ok(cond) => {
                if cond {
                    step_stmt_model(prog, st, (*i).then_statement.stmt)
                } else {
                    Ok(MachineModel { pc: st.pc + 1, env: st.env, stack: st.stack, output: st.output })
                }
            },
        },
    }
}

/// Execute the statement the program counter points at.
pub open spec fn step_model(prog: Seq<LineModel>, st: MachineModel) -> Result<MachineModel, RunErrModel>
    recommends
        0 <= st.pc < prog.len(),
{
    step_stmt_model(prog, st, prog[st.pc].statement.stmt)
}

/// Up to `n` steps: stop early when the program counter runs off the line
/// list.
pub open spec fn run_n_model(prog: Seq<LineModel>, st: MachineModel, n: nat) -> Result<
    MachineModel,
    RunErrModel,
>
    decreases n,
{
    if n == 0 || !(0 <= st.pc < prog.len()) {
        Ok(st)
    } else {
        match step_model(prog, st) {
            Err(e) => Err(e),
            Ok(st2) => run_n_model(prog, st2, (n - 1) as nat),
        }
    }
}

/// Find the first line whose label is `target`.
fn find_line(program: &Vec<Line>, target: u64) -> (r: Option<usize>)
    ensures
        match r {
            Some(i) => find_line_from(lines_view(program@), target as int, 0) == Some(i as int) && i
                < program@.len(),
            None => find_line_from(lines_view(program@), target as int, 0) is None,
        },
{
    let ghost pv = lines_view(program@);
    let mut i: usize = 0;
    while i < program.len()
        invariant
            pv == lines_view(program@),
            i <= program@.len(),
            find_line_from(pv, target as int, 0) == find_line_from(pv, target as int, i as int),
        decreases program@.len() - i,
    {
        if program[i].line_id == target {
            return Some(i);
        }
        i = i + 1;
    }
    None
}

/// Perform a GOTO or GOSUB (`push` tells them apart).
fn jump(
    program: &Vec<Line>,
    variables: &VarTable,
    statement_index: &mut usize,
    subroutine_stack: &mut Vec<usize>,
    expression: &Expression,
    push: bool,
) -> (r: Result<(), InterpreterError>)
    requires
        *old(statement_index) < program@.len(),
    ensures
        ({
            let st0 = MachineModel {
                env: variables@,
                pc: *old(statement_index) as int,
                stack: stack_view(old(subroutine_stack)@),
                output: Seq::<Seq<char>>::empty(),
            };
            match r {
                Ok(()) => jump_model(lines_view(program@), st0, expr_view(*expression), push)
                    == Ok::<_, RunErrModel>(
                    MachineModel {
                        env: variables@,
                        pc: *final(statement_index) as int,
                        stack: stack_view(final(subroutine_stack)@),
                        output: Seq::<Seq<char>>::empty(),
                    },
                ),
                Err(e) => jump_model(lines_view(program@), st0, expr_view(*expression), push)
                    == Err::<MachineModel, _>(run_err_view(e)) && *final(statement_index) == *old(
                    statement_index,
                ) && final(subroutine_stack)@ == old(subroutine_stack)@,
            }
        }),
{
    let target = match calculate_expression(variables, expression) {
        Ok(v) => v,
        Err(e) => {
            return Err(e);
        },
    };
    if target < 0 {
        return Err(InterpreterError::InvalidGoto(target));
    }
    let new_index = match find_line(program, target as u64) {
        Some(i) => i,
        None => {
            return Err(InterpreterError::InvalidGoto(target));
        },
    };
    if push {
        let here = *statement_index;
        proof {
            assert(here < program@.len() && program@.len() == program.len());
        }
        subroutine_stack.push(here + 1);
        proof {
            assert(stack_view(subroutine_stack@) =~= stack_view(old(subroutine_stack)@).push(
                *old(statement_index) + 1,
            ));
        }
    }
    *statement_index = new_index;
    Ok(())
}

/// Execute one statement against the interpreter's disassembled state,
/// dispatching on the statement kind. On an error nothing is changed.
fn dispatch_statement(
    program: &Vec<Line>,
    variables: &mut VarTable,
    statement_index: &mut usize,
    subroutine_stack: &mut Vec<usize>,
    output: &mut Vec<String>,
    statement: &Statement,
) -> (r: Result<(), InterpreterError>)
    requires
        *old(statement_index) < program@.len(),
    ensures
        ({
            let st0 = MachineModel {
                env: old(variables)@,
                pc: *old(statement_index) as int,
                stack: stack_view(old(subroutine_stack)@),
                output: output_view(old(output)@),
            };
            let st1 = MachineModel {
                env: final(variables)@,
                pc: *final(statement_index) as int,
                stack: stack_view(final(subroutine_stack)@),
                output: output_view(final(output)@),
            };
            match r {
                Ok(()) => step_stmt_model(lines_view(program@), st0, stmt_view(*statement)) == Ok::<
                    _,
                    RunErrModel,
                >(st1),
                Err(e) => step_stmt_model(lines_view(program@), st0, stmt_view(*statement)) == Err::<
                    MachineModel,
                    _,
                >(run_err_view(e)) && st1 == st0,
            }
        }),
    decreases statement,
{
    let prog_len = program.len();
    proof {
        assert(*statement_index < prog_len);
    }
    let ghost st0 = MachineModel {
        env: variables@,
        pc: *statement_index as int,
        stack: stack_view(subroutine_stack@),
        output: output_view(output@),
    };
    match statement {
        Statement::Let(let_stmt) => {
            let v = match calculate_expression(variables, &let_stmt.expression.content) {
                Ok(v) => v,
                Err(e) => {
                    return Err(e);
                },
            };
            variables.set(&let_stmt.name, v);
            *statement_index = *statement_index + 1;
            Ok(())
        },
        Statement::GoTo(expression) => jump(
            program,
            variables,
            statement_index,
            subroutine_stack,
            expression,
            false,
        ),
        Statement::GoSub(expression) => jump(
            program,
            variables,
            statement_index,
            subroutine_stack,
            expression,
            true,
        ),
        Statement::Return => {
            let index = match subroutine_stack.pop() {
                Some(i) => i,
                None => {
                    proof {
                        assert(stack_view(subroutine_stack@).len() == 0);
                    }
                    return Err(InterpreterError::ReturnWithoutGosub);
                },
            };
            *statement_index = index;
            proof {
                assert(stack_view(subroutine_stack@) =~= st0.stack.drop_last());
                assert(st0.stack.last() == index as int);
            }
            Ok(())
        },
        Statement::Print(node_printables) => {
            let line = match build_print_line(variables, node_printables) {
                Ok(s) => s,
                Err(e) => {
                    return Err(e);
                },
            };
            output.push(line);
            *statement_index = *statement_index + 1;
            proof {
                assert(output_view(output@) =~= st0.output.push(line@));
            }
            Ok(())
        },
        Statement::If(if_statement) => {
            let condition = match calculate_boolean_expression(
                variables,
                &if_statement.boolean_expr.content,
            ) {
                Ok(c) => c,
                Err(e) => {
                    return Err(e);
                },
            };
            if condition {
                dispatch_statement(
                    program,
                    variables,
                    statement_index,
                    subroutine_stack,
                    output,
                    &if_statement.then_statement.content,
                )
            } else {
                *statement_index = *statement_index + 1;
                Ok(())
            }
        },
    }
}

/// The interpreter: an immutable program, a variable table, a program
/// counter, a call stack, and the output lines written so far.
pub struct Interpreter {
    program: Vec<Line>,
    variables: VarTable,
    statement_index: usize,
    subroutine_stack: Vec<usize>,
    output: Vec<String>,
}

impl Interpreter {
    /// The program, mathematically.
    pub closed spec fn prog(&self) -> Seq<LineModel> {
        lines_view(self.program@)
    }

    /// The mutable state, mathematically.
    pub closed spec fn state(&self) -> MachineModel {
        MachineModel {
            env: self.variables@,
            pc: self.statement_index as int,
            stack: stack_view(self.subroutine_stack@),
            output: output_view(self.output@),
        }
    }

    /// A fresh interpreter over an already-built program: empty variable
    /// table, program counter at the first line, empty call stack, no output.
    pub fn new(program: Vec<Line>) -> (r: Self)
        ensures
            r.prog() == lines_view(program@),
            r.state() == (MachineModel {
                env: Map::<Seq<char>, i64>::empty(),
                pc: 0int,
                stack: Seq::<int>::empty(),
                output: Seq::<Seq<char>>::empty(),
            }),
    {
        let r = Interpreter {
            program,
            variables: VarTable::new(),
            statement_index: 0,
            subroutine_stack: Vec::new(),
            output: Vec::new(),
        };
        proof {
            assert(stack_view(r.subroutine_stack@) =~= Seq::<int>::empty());
            assert(output_view(r.output@) =~= Seq::<Seq<char>>::empty());
        }
        r
    }

    /// Whether the program counter has run off the end of the line list; a
    /// caller that drives the interpreter step by step checks this before
    /// each step.
    pub fn finished(&self) -> (r: bool)
        ensures
            r == !(self.state().pc < self.prog().len()),
    {
        self.statement_index >= self.program.len()
    }

    /// The label of the line the program counter points at, or `None` when
    /// the interpreter is finished. `step_line` and `run` leave the state at
    /// the failing statement on an error, so after an error this is the
    /// failing line's label.
    pub fn current_line_id(&self) -> (r: Option<u64>)
        ensures
            match r {
                Some(label) => self.state().pc < self.prog().len() && label == self.prog()[self.state().pc].line_id,
                None => !(self.state().pc < self.prog().len()),
            },
    {
        if self.statement_index < self.program.len() {
            Some(self.program[self.statement_index].line_id)
        } else {
            None
        }
    }

    /// The output lines written so far, one per executed PRINT.
    pub fn output(&self) -> (o: &Vec<String>)
        ensures
            output_view(o@) == self.state().output,
    {
        &self.output
    }

    /// Execute exactly one statement: fetch the line at the program counter,
    /// dispatch it, and advance or jump as it demands. On an error the state
    /// is unchanged.
    pub fn step_line(&mut self) -> (r: Result<(), InterpreterError>)
        requires
            old(self).state().pc < old(self).prog().len(),
        ensures
            final(self).prog() == old(self).prog(),
            match r {
                Ok(()) => step_model(old(self).prog(), old(self).state()) == Ok::<_, RunErrModel>(
                    final(self).state(),
                ),
                Err(e) => step_model(old(self).prog(), old(self).state()) == Err::<MachineModel, _>(
                    run_err_view(e),
                ) && final(self).state() == old(self).state(),
            },
    {
        let idx = self.statement_index;
        let r = dispatch_statement(
            &self.program,
            &mut self.variables,
            &mut self.statement_index,
            &mut self.subroutine_stack,
            &mut self.output,
            &self.program[idx].statement.content,
        );
        proof {
            assert(old(self).prog()[idx as int].statement.stmt == stmt_view(
                old(self).program@[idx as int].statement.content,
            ));
        }
        r
    }

    /// Run statements until the program counter runs off the end of the line
    /// list, a runtime error aborts at the failing statement, or `max_steps`
    /// statements have been dispatched. The cap is the caller's guard against
    /// programs that never terminate; `finished` tells a completed run from
    /// an exhausted budget.
    pub fn run(&mut self, max_steps: u64) -> (r: Result<(), InterpreterError>)
        ensures
            final(self).prog() == old(self).prog(),
            match r {
                Ok(()) => run_n_model(old(self).prog(), old(self).state(), max_steps as nat) == Ok::<
                    _,
                    RunErrModel,
                >(final(self).state()),
                Err(e) => run_n_model(old(self).prog(), old(self).state(), max_steps as nat) == Err::<
                    MachineModel,
                    _,
                >(run_err_view(e)) && exists|n: nat|
                    #[trigger] run_n_model(old(self).prog(), old(self).state(), n) == Ok::<
                        _,
                        RunErrModel,
                    >(final(self).state()),
            },
    {
        let ghost p = self.prog();
        let ghost s0 = self.state();
        let mut steps: u64 = 0;
        while steps < max_steps
            invariant
                p == self.prog(),
                p == old(self).prog(),
                s0 == old(self).state(),
                steps <= max_steps,
                run_n_model(p, s0, steps as nat) == Ok::<_, RunErrModel>(self.state()),
            decreases max_steps - steps,
        {
            if self.statement_index >= self.program.len() {
                proof {
                    lemma_run_n_stall(p, s0, steps as nat, max_steps as nat, self.state());
                }
                return Ok(());
            }
            let ghost before = self.state();
            match self.step_line() {
                Ok(()) => {
                    proof {
                        lemma_run_n_snoc(p, s0, steps as nat, before, self.state());
                    }
                },
                Err(e) => {
                    proof {
                        lemma_run_n_err_extend(
                            p,
                            s0,
                            steps as nat,
                            max_steps as nat,
                            before,
                            run_err_view(e),
                        );
                    }
                    return Err(e);
                },
            }
            steps = steps + 1;
        }
        Ok(())
    }
}

// ---------------------------------------------------------------------------
// Laws of the stepping semantics
// ---------------------------------------------------------------------------

/// No line from index `i` on carries the label.
proof fn lemma_find_line_none(prog: Seq<LineModel>, target: int, i: int)
    requires
        forall|j: int| 0 <= j < prog.len() ==> (#[trigger] prog[j].line_id) != target,
    ensures
        find_line_from(prog, target, i) is None,
    decreases prog.len() - i,
{
    if 0 <= i < prog.len() {
        lemma_find_line_none(prog, target, i + 1);
    }
}

proof fn lemma_find_line_first_from(prog: Seq<LineModel>, target: int, i: int, k: int)
    requires
        0 <= k <= i < prog.len(),
        prog[i].line_id == target,
        forall|j: int| 0 <= j < i ==> (#[trigger] prog[j].line_id) != target,
    ensures
        find_line_from(prog, target, k) == Some(i),
    decreases i - k,
{
    if k < i {
        lemma_find_line_first_from(prog, target, i, k + 1);
    }
}

/// Law: with duplicate labels, a jump resolves to the first line in program
/// order that carries the target label.
pub proof fn lemma_first_label_wins(prog: Seq<LineModel>, target: int, i: int)
    requires
        0 <= i < prog.len(),
        prog[i].line_id == target,
        forall|j: int| 0 <= j < i ==> (#[trigger] prog[j].line_id) != target,
    ensures
        find_line_from(prog, target, 0) == Some(i),
{
    lemma_find_line_first_from(prog, target, i, 0);
}

/// Law: stepping a one-line program `<label> LET <name> = <expr>` stores the
/// expression's value in the variable table under the name, and advances the
/// program counter by exactly one line, past the end of the program.
pub proof fn lemma_single_line_let(prog: Seq<LineModel>, st: MachineModel, l: LetStmtModel, v: i64)
    requires
        prog.len() == 1,
        prog[0].statement.stmt == StmtModel::Let(Box::new(l)),
        st.pc == 0,
        eval_expr_model(l.expression.expr, st.env) == Ok::<_, RunErrModel>(v),
    ensures
        step_model(prog, st) matches Ok(st2) && st2.env == st.env.insert(l.name, v) && st2.env[l.name]
            == v && st2.pc == 1 && !(st2.pc < prog.len()),
{
}

/// Law: a GOTO or GOSUB whose evaluated target is negative or absent from the
/// program always fails with `InvalidGoto` carrying that target — never a
/// silent no-op or a fall-through.
pub proof fn lemma_invalid_goto(
    prog: Seq<LineModel>,
    st: MachineModel,
    e: ExprModel,
    target: i64,
    is_gosub: bool,
)
    requires
        eval_expr_model(e, st.env) == Ok::<_, RunErrModel>(target),
        target < 0 || forall|j: int| 0 <= j < prog.len() ==> (#[trigger] prog[j].line_id) != target,
    ensures
        step_stmt_model(
            prog,
            st,
            if is_gosub {
                StmtModel::GoSub(e)
            } else {
                StmtModel::GoTo(e)
            },
        ) == Err::<MachineModel, _>(RunErrModel::InvalidGoto(target)),
{
    if !(target < 0) {
        lemma_find_line_none(prog, target as int, 0);
    }
}

/// Law: RETURN with an empty call stack always fails with
/// `ReturnWithoutGosub`.
pub proof fn lemma_return_without_gosub(prog: Seq<LineModel>, st: MachineModel)
    requires
        st.stack.len() == 0,
    ensures
        step_stmt_model(prog, st, StmtModel::Return) == Err::<MachineModel, _>(
            RunErrModel::ReturnWithoutGosub,
        ),
{
}

/// Law: an IF whose condition is false advances the program counter by
/// exactly one line and has no other effect — the nested statement's variable
/// writes, jumps, and output never occur.
pub proof fn lemma_if_false(prog: Seq<LineModel>, st: MachineModel, i: IfStmtModel)
    requires
        eval_bool_model(i.boolean_expr.content, st.env) == Ok::<_, RunErrModel>(false),
    ensures
        step_stmt_model(prog, st, StmtModel::If(Box::new(i))) == Ok::<_, RunErrModel>(
            MachineModel { pc: st.pc + 1, env: st.env, stack: st.stack, output: st.output },
        ),
{
}

/// Law: a program whose only line is a GOTO to its own label dispatches any
/// number of driven steps without failing and without finishing: each step
/// returns to the same state. (Labels above `i64::MAX` would wrap to a
/// negative jump target and are left out.)
pub proof fn lemma_self_goto_never_finishes(prog: Seq<LineModel>, st: MachineModel, label: u64, n: nat)
    requires
        prog.len() == 1,
        prog[0].line_id == label,
        prog[0].statement.stmt == StmtModel::GoTo(ExprModel::NumberLiteral(label)),
        label <= i64::MAX as u64,
        st.pc == 0,
    ensures
        run_n_model(prog, st, n) == Ok::<_, RunErrModel>(st),
        st.pc < prog.len(),
    decreases n,
{
    if n > 0 {
        assert(literal_val(label) == label as i64);
        assert(find_line_from(prog, label as int, 0) == Some(0int));
        let st2 = step_model(prog, st)->Ok_0;
        assert(st2 =~= st);
        lemma_self_goto_never_finishes(prog, st, label, (n - 1) as nat);
    }
}

/// A bounded run that has already stopped stays stopped under a larger bound.
proof fn lemma_run_n_stall(prog: Seq<LineModel>, s0: MachineModel, k: nat, m: nat, cur: MachineModel)
    requires
        run_n_model(prog, s0, k) == Ok::<_, RunErrModel>(cur),
        !(0 <= cur.pc < prog.len()),
        k <= m,
    ensures
        run_n_model(prog, s0, m) == Ok::<_, RunErrModel>(cur),
    decreases k,
{
    if k == 0 {
    } else if !(0 <= s0.pc < prog.len()) {
    } else {
        let s1 = step_model(prog, s0)->Ok_0;
        lemma_run_n_stall(prog, s1, (k - 1) as nat, (m - 1) as nat, cur);
    }
}

/// A step error within the bound is the bounded run's error.
proof fn lemma_run_n_err_extend(
    prog: Seq<LineModel>,
    s0: MachineModel,
    k: nat,
    m: nat,
    cur: MachineModel,
    em: RunErrModel,
)
    requires
        run_n_model(prog, s0, k) == Ok::<_, RunErrModel>(cur),
        0 <= cur.pc < prog.len(),
        step_model(prog, cur) == Err::<MachineModel, _>(em),
        k < m,
    ensures
        run_n_model(prog, s0, m) == Err::<MachineModel, _>(em),
    decreases k,
{
    if k == 0 {
    } else if !(0 <= s0.pc < prog.len()) {
    } else {
        let s1 = step_model(prog, s0)->Ok_0;
        lemma_run_n_err_extend(prog, s1, (k - 1) as nat, (m - 1) as nat, cur, em);
    }
}

/// Extending a successful bounded run by one successful step.
proof fn lemma_run_n_snoc(prog: Seq<LineModel>, s0: MachineModel, n: nat, st: MachineModel, st2: MachineModel)
    requires
        run_n_model(prog, s0, n) == Ok::<_, RunErrModel>(st),
        0 <= st.pc < prog.len(),
        step_model(prog, st) == Ok::<_, RunErrModel>(st2),
    ensures
        run_n_model(prog, s0, n + 1) == Ok::<_, RunErrModel>(st2),
    decreases n,
{
    if n == 0 {
        assert(run_n_model(prog, st2, 0nat) == Ok::<_, RunErrModel>(st2));
        assert(run_n_model(prog, s0, 1nat) == Ok::<_, RunErrModel>(st2));
    } else {
        if !(0 <= s0.pc < prog.len()) {
        } else {
            let s1 = step_model(prog, s0)->Ok_0;
            lemma_run_n_snoc(prog, s1, (n - 1) as nat, st, st2);
        }
    }
}

} // verus!

