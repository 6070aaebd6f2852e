//! The tree-walking evaluator: executes syntax tree nodes directly and
//! yields an object, or the first failure met anywhere in the subtree.
//!
//! Integers are 64-bit and wrap on overflow.  Every value other than
//! `false`, nil and the integer zero counts as true.

use crate::ast::{Expression, InfixOperator, PrefixOperator, Statement};
use crate::error::{result_view, ErrorKind, EvalResult, RuntimeError};
use crate::object::{type_of, wrap_i64, Object, ObjectType, Value};
use vstd::prelude::*;

verus! {

/// Integer division that rounds towards zero.
pub open spec fn trunc_div(a: int, b: int) -> int
    recommends
        b != 0,
{
    if a >= 0 && b > 0 {
        a / b
    } else if a < 0 && b < 0 {
        (-a) / (-b)
    } else if a < 0 {
        -((-a) / b)
    } else {
        -(a / (-b))
    }
}

/// Whether a value counts as true: a boolean is its own truth value, nil
/// is false, an integer is true unless it is zero, and every other value
/// is true.
pub open spec fn truth_value(v: Value) -> bool {
    match v {
        Value::Boolean(b) => b,
        Value::Nil => false,
        Value::Integer(i) => i != 0,
        _ => true,
    }
}

/// The failure of an infix operator on a pair of operands that it does
/// not support.
pub open spec fn unsupported_infix(
    operator: InfixOperator,
    left: ObjectType,
    right: ObjectType,
) -> RuntimeError {
    RuntimeError(ErrorKind::UnsupportedInfix { operator, left, right })
}

/// What a prefix operator yields on an operand.
pub open spec fn prefix_value(operator: PrefixOperator, operand: Value) -> Result<
    Value,
    RuntimeError,
> {
    match operator {
        PrefixOperator::Neg => match operand {
            Value::Integer(i) => Ok(Value::Integer(wrap_i64(-i))),
            other => Err(
                RuntimeError(
                    ErrorKind::UnsupportedPrefix {
                        prefix: PrefixOperator::Neg,
                        operand: type_of(other),
                    },
                ),
            ),
        },
        PrefixOperator::Not => Ok(Value::Boolean(!truth_value(operand))),
    }
}

/// What an infix operator yields on two integers.
pub open spec fn int_infix_value(operator: InfixOperator, left: int, right: int) -> Result<
    Value,
    RuntimeError,
> {
    match operator {
        InfixOperator::Add => Ok(Value::Integer(wrap_i64(left + right))),
        InfixOperator::Sub => Ok(Value::Integer(wrap_i64(left - right))),
        InfixOperator::Mul => Ok(Value::Integer(wrap_i64(left * right))),
        InfixOperator::Div => if right == 0 {
            Err(RuntimeError(ErrorKind::DivisionByZero))
        } else {
            Ok(Value::Integer(wrap_i64(trunc_div(left, right))))
        },
        InfixOperator::Eq => Ok(Value::Boolean(left == right)),
        InfixOperator::NotEq => Ok(Value::Boolean(left != right)),
        InfixOperator::Lt => Ok(Value::Boolean(left < right)),
        InfixOperator::LtEq => Ok(Value::Boolean(left <= right)),
        InfixOperator::Gt => Ok(Value::Boolean(left > right)),
        InfixOperator::GtEq => Ok(Value::Boolean(left >= right)),
        _ => Err(unsupported_infix(operator, ObjectType::Integer, ObjectType::Integer)),
    }
}

/// What an infix operator yields on two operands: arithmetic and the six
/// comparisons on two integers, equality and inequality on two booleans,
/// and a failure on every other pair.
pub open spec fn infix_value(operator: InfixOperator, left: Value, right: Value) -> Result<
    Value,
    RuntimeError,
> {
    match (left, right) {
        (Value::Integer(l), Value::Integer(r)) => int_infix_value(operator, l, r),
        (Value::Boolean(l), Value::Boolean(r)) => match operator {
            InfixOperator::Eq => Ok(Value::Boolean(l == r)),
            InfixOperator::NotEq => Ok(Value::Boolean(l != r)),
            _ => Err(unsupported_infix(operator, ObjectType::Boolean, ObjectType::Boolean)),
        },
        _ => Err(unsupported_infix(operator, type_of(left), type_of(right))),
    }
}

/// The value of an expression.  The left operand of an infix expression
/// is evaluated before the right one, so its failure is the one reported.
pub open spec fn expression_value(expression: Expression) -> Result<Value, RuntimeError>
    decreases expression,
{
    match expression {
        Expression::IntLiteral(i) => Ok(Value::Integer(i as int)),
        Expression::Boolean(b) => Ok(Value::Boolean(b)),
        Expression::PrefixExpression(operator, operand) => match expression_value(*operand) {
            Ok(value) => prefix_value(operator, value),
            Err(e) => Err(e),
        },
        Expression::InfixExpression(left, operator, right) => match expression_value(*left) {
            Ok(l) => match expression_value(*right) {
                Ok(r) => infix_value(operator, l, r),
                Err(e) => Err(e),
            },
            Err(e) => Err(e),
        },
        _ => Err(RuntimeError(ErrorKind::UnsupportedConstruct)),
    }
}

/// The value of a sequence of statements run in order: nil for none, the
/// first failure if one of them fails, else the value of the last.
pub open spec fn block_value(statements: Seq<Statement>) -> Result<Value, RuntimeError>
    decreases statements, 0nat,
{
    if statements.len() == 0 {
        Ok(Value::Nil)
    } else {
        match block_value(statements.drop_last()) {
            Ok(_) => statement_value(statements.last()),
            Err(e) => Err(e),
        }
    }
}

/// The value of a statement.
pub open spec fn statement_value(statement: Statement) -> Result<Value, RuntimeError>
    decreases statement, 1nat,
{
    match statement {
        Statement::ExpressionStatement(expression) => expression_value(*expression),
        Statement::BlockStatement(block) => block_value(block@),
        _ => Err(RuntimeError(ErrorKind::UnsupportedConstruct)),
    }
}

/// The magnitude of a truncated quotient is at most that of the dividend,
/// so the quotient fits in 64 bits unless the smallest integer is divided
/// by minus one.
pub proof fn lemma_trunc_div_fits(a: int, b: int)
    requires
        i64::MIN <= a <= i64::MAX,
        i64::MIN <= b <= i64::MAX,
        b != 0,
        !(a == i64::MIN && b == -1),
    ensures
        i64::MIN <= trunc_div(a, b) <= i64::MAX,
{
    if a >= 0 && b > 0 {
        vstd::arithmetic::div_mod::lemma_div_pos_is_pos(a, b);
        vstd::arithmetic::div_mod::lemma_div_nonincreasing(a, b);
    } else if a < 0 && b < 0 {
        vstd::arithmetic::div_mod::lemma_div_pos_is_pos(-a, -b);
        vstd::arithmetic::div_mod::lemma_div_nonincreasing(-a, -b);
        if -b > 1 {
            vstd::arithmetic::div_mod::lemma_div_decreases(-a, -b);
        }
    } else if a < 0 {
        vstd::arithmetic::div_mod::lemma_div_pos_is_pos(-a, b);
        vstd::arithmetic::div_mod::lemma_div_nonincreasing(-a, b);
    } else {
        vstd::arithmetic::div_mod::lemma_div_pos_is_pos(a, -b);
        vstd::arithmetic::div_mod::lemma_div_nonincreasing(a, -b);
    }
}

/// Whether an object counts as true.
pub fn get_truth_value(obj: Object) -> (truth: bool)
    ensures
        truth == truth_value(obj@),
{
    match obj {
        Object::Boolean(b) => b,
        Object::Nil => false,
        Object::Integer(i) => i != 0,
        _ => true,
    }
}

/// Applies an infix operator to two integers.
pub fn eval_int_infix_expression(operator: InfixOperator, left: i64, right: i64) -> (res:
    EvalResult)
    ensures
        result_view(res) == int_infix_value(operator, left as int, right as int),
{
    match operator {
        InfixOperator::Add => {
            let sum = left.wrapping_add(right);
            assert(sum == wrap_i64(left + right));
            Ok(Object::Integer(sum))
        },
        InfixOperator::Sub => {
            let difference = left.wrapping_sub(right);
            assert(difference == wrap_i64(left - right));
            Ok(Object::Integer(difference))
        },
        InfixOperator::Mul => {
            let product = left.wrapping_mul(right);
            assert(product == wrap_i64(left * right));
            Ok(Object::Integer(product))
        },
        InfixOperator::Div => {
            if right == 0 {
                Err(RuntimeError(ErrorKind::DivisionByZero))
            } else if left == i64::MIN && right == -1 {
                // The one quotient that does not fit wraps to the dividend.
                assert(trunc_div(left as int, right as int) == 0x8000_0000_0000_0000int);
                assert(wrap_i64(0x8000_0000_0000_0000int) == i64::MIN);
                Ok(Object::Integer(i64::MIN))
            } else {
                proof {
                    lemma_trunc_div_fits(left as int, right as int);
                }
                match left.checked_div(right) {
                    Some(quotient) => {
                        assert(quotient == trunc_div(left as int, right as int));
                        assert(quotient == wrap_i64(quotient as int));
                        Ok(Object::Integer(quotient))
                    },
                    None => Ok(Object::Integer(i64::MIN)),
                }
            }
        },
        InfixOperator::Eq => Ok(Object::Boolean(left == right)),
        InfixOperator::NotEq => Ok(Object::Boolean(left != right)),
        InfixOperator::Lt => Ok(Object::Boolean(left < right)),
        InfixOperator::LtEq => Ok(Object::Boolean(left <= right)),
        InfixOperator::Gt => Ok(Object::Boolean(left > right)),
        InfixOperator::GtEq => Ok(Object::Boolean(left >= right)),
        _ => Err(
            RuntimeError(
                ErrorKind::UnsupportedInfix {
                    operator,
                    left: ObjectType::Integer,
                    right: ObjectType::Integer,
                },
            ),
        ),
    }
}

/// Applies a prefix operator to an operand.
pub fn eval_prefix_expression(operator: PrefixOperator, right: Object) -> (res: EvalResult)
    ensures
        result_view(res) == prefix_value(operator, right@),
{
    match operator {
        PrefixOperator::Neg => match right {
            Object::Integer(i) => Ok(Object::Integer(0i64.wrapping_sub(i))),
            other => Err(
                RuntimeError(
                    ErrorKind::UnsupportedPrefix {
                        prefix: PrefixOperator::Neg,
                        operand: other.object_type(),
                    },
                ),
            ),
        },
        PrefixOperator::Not => Ok(Object::Boolean(!get_truth_value(right))),
    }
}

/// Applies an infix operator to two operands.
pub fn eval_infix_expression(operator: InfixOperator, left: Object, right: Object) -> (res:
    EvalResult)
    ensures
        result_view(res) == infix_value(operator, left@, right@),
{
    match (left, right) {
        (Object::Integer(l), Object::Integer(r)) => eval_int_infix_expression(operator, l, r),
        (Object::Boolean(l), Object::Boolean(r)) => match operator {
            InfixOperator::Eq => Ok(Object::Boolean(l == r)),
            InfixOperator::NotEq => Ok(Object::Boolean(l != r)),
            _ => Err(
                RuntimeError(
                    ErrorKind::UnsupportedInfix {
                        operator,
                        left: ObjectType::Boolean,
                        right: ObjectType::Boolean,
                    },
                ),
            ),
        },
        (l, r) => Err(
            RuntimeError(
                ErrorKind::UnsupportedInfix {
                    operator,
                    left: l.object_type(),
                    right: r.object_type(),
                },
            ),
        ),
    }
}

/// Evaluates an expression.
pub fn eval_expression(expression: Expression) -> (res: EvalResult)
    ensures
        result_view(res) == expression_value(expression),
    decreases expression,
{
    match expression {
        Expression::IntLiteral(i) => Ok(Object::Integer(i)),
        Expression::Boolean(b) => Ok(Object::Boolean(b)),
        Expression::PrefixExpression(operator, operand) => {
            match eval_expression(*operand) {
                Ok(right_side) => eval_prefix_expression(operator, right_side),
                Err(e) => Err(e),
            }
        },
        Expression::InfixExpression(left, operator, right) => {
            match eval_expression(*left) {
                Ok(left_side) => match eval_expression(*right) {
                    Ok(right_side) => eval_infix_expression(operator, left_side, right_side),
                    Err(e) => Err(e),
                },
                Err(e) => Err(e),
            }
        },
        _ => Err(RuntimeError(ErrorKind::UnsupportedConstruct)),
    }
}

/// Evaluates a statement.  The value of a block is that of its last
/// statement, nil if it has none; evaluation stops at the first statement
/// that fails.
pub fn eval_statement(statement: Statement) -> (res: EvalResult)
    ensures
        result_view(res) == statement_value(statement),
    decreases statement,
{
    match statement {
        Statement::ExpressionStatement(expression) => eval_expression(*expression),
        Statement::BlockStatement(block) => {
            let ghost statements = block@;
            let mut last = Object::Nil;
            for s in it: block.into_iter()
                invariant
                    decreases_to!(statement => statements),
                    statement_value(statement) == block_value(statements),
                    it.seq() == statements,
                    block_value(statements.take(it.index() as int)) == Ok::<Value, RuntimeError>(
                        last@,
                    ),
            {
                let ghost at = it.index() as int;
                proof {
                    assert(statements.take(at + 1).drop_last() =~= statements.take(at));
                    assert(statements.take(at + 1).last() == statements[at]);
                    assert(decreases_to!(statements => statements[at]));
                }
                match eval_statement(s) {
                    Ok(value) => {
                        last = value;
                    },
                    Err(e) => {
                        proof {
                            lemma_block_fails(statements, at);
                        }
                        return Err(e);
                    },
                }
            }
            assert(statements.take(statements.len() as int) =~= statements);
            Ok(last)
        },
        _ => Err(RuntimeError(ErrorKind::UnsupportedConstruct)),
    }
}

/// A block whose statements before `at` all succeed and whose statement
/// at `at` fails, fails with that statement's failure.
pub proof fn lemma_block_fails(statements: Seq<Statement>, at: int)
    requires
        0 <= at < statements.len(),
        block_value(statements.take(at)) is Ok,
        statement_value(statements[at]) is Err,
    ensures
        block_value(statements) == statement_value(statements[at]),
    decreases statements.len(),
{
    if at == statements.len() - 1 {
        assert(statements.drop_last() =~= statements.take(at));
    } else {
        let shorter = statements.drop_last();
        assert(shorter.take(at) =~= statements.take(at));
        assert(shorter[at] == statements[at]);
        lemma_block_fails(shorter, at);
    }
}

/// The expression `left / right` on two integer literals.
pub open spec fn division_of(left: i64, right: i64) -> Expression {
    Expression::InfixExpression(
        Box::new(Expression::IntLiteral(left)),
        InfixOperator::Div,
        Box::new(Expression::IntLiteral(right)),
    )
}

/// Evaluating `a / b` with `b` other than zero yields the quotient rounded
/// towards zero.  The one quotient that does not fit in 64 bits, that of
/// the smallest integer by minus one, is left out here: it wraps.
pub proof fn lemma_division_truncates(a: i64, b: i64)
    requires
        b != 0,
        !(a == i64::MIN && b == -1),
    ensures
        expression_value(division_of(a, b)) == Ok::<Value, RuntimeError>(
            Value::Integer(trunc_div(a as int, b as int)),
        ),
{
    lemma_trunc_div_fits(a as int, b as int);
    reveal_with_fuel(expression_value, 2);
}

/// Evaluating `a / 0` fails with the division-by-zero failure.
pub proof fn lemma_division_by_zero(a: i64)
    ensures
        expression_value(division_of(a, 0)) == Err::<Value, RuntimeError>(
            RuntimeError(ErrorKind::DivisionByZero),
        ),
{
    reveal_with_fuel(expression_value, 2);
}

/// The truncated quotient is the quotient rounded towards zero: what is
/// left of the dividend is smaller in magnitude than the divisor and has
/// the sign of the dividend.
pub proof fn lemma_trunc_div_rounds_towards_zero(a: int, b: int)
    requires
        b != 0,
    ensures
        ({
            let rest = a - trunc_div(a, b) * b;
            &&& a >= 0 ==> 0 <= rest
            &&& a <= 0 ==> rest <= 0
            &&& b > 0 ==> -b < rest < b
            &&& b < 0 ==> b < rest < -b
        }),
{
    let x = if a >= 0 {
        a
    } else {
        -a
    };
    let d = if b > 0 {
        b
    } else {
        -b
    };
    vstd::arithmetic::div_mod::lemma_fundamental_div_mod(x, d);
    vstd::arithmetic::div_mod::lemma_mod_bound(x, d);
    let q = x / d;
    assert(x == d * q + x % d);
    assert((-q) * b == -(q * b)) by (nonlinear_arith);
    assert(q * (-b) == -(q * b)) by (nonlinear_arith);
    assert(d * q == q * d) by (nonlinear_arith);
}

/// The `!` operator negates truthiness: the integer zero and nil give
/// true, every other integer gives false, and a boolean gives its
/// opposite.
pub proof fn lemma_not_negates_truthiness(i: int, b: bool)
    ensures
        prefix_value(PrefixOperator::Not, Value::Integer(i)) == Ok::<Value, RuntimeError>(
            Value::Boolean(i == 0),
        ),
        prefix_value(PrefixOperator::Not, Value::Nil) == Ok::<Value, RuntimeError>(
            Value::Boolean(true),
        ),
        prefix_value(PrefixOperator::Not, Value::Boolean(b)) == Ok::<Value, RuntimeError>(
            Value::Boolean(!b),
        ),
{
}

/// The value of a block statement is nil if the block is empty, and that
/// of its last statement if the statements before it all succeed.
pub proof fn lemma_block_statement_value(block: Vec<Statement>)
    requires
        forall|i: int|
            0 <= i < block@.len() - 1 ==> statement_value(#[trigger] block@[i]) is Ok,
    ensures
        block@.len() == 0 ==> statement_value(Statement::BlockStatement(block)) == Ok::<
            Value,
            RuntimeError,
        >(Value::Nil),
        block@.len() > 0 ==> statement_value(Statement::BlockStatement(block))
            == statement_value(block@.last()),
{
    lemma_block_value_is_last(block@);
}

/// The value of a sequence of statements is nil if it is empty, and that
/// of its last statement if the statements before it all succeed.
pub proof fn lemma_block_value_is_last(statements: Seq<Statement>)
    requires
        forall|i: int|
            0 <= i < statements.len() - 1 ==> statement_value(#[trigger] statements[i]) is Ok,
    ensures
        statements.len() == 0 ==> block_value(statements) == Ok::<Value, RuntimeError>(
            Value::Nil,
        ),
        statements.len() > 0 ==> block_value(statements) == statement_value(statements.last()),
    decreases statements.len(),
{
    if statements.len() > 1 {
        let shorter = statements.drop_last();
        assert forall|i: int| 0 <= i < shorter.len() - 1 implies statement_value(
            #[trigger] shorter[i],
        ) is Ok by {
            assert(shorter[i] == statements[i]);
        }
        lemma_block_value_is_last(shorter);
        assert(shorter.last() == statements[statements.len() - 2]);
        assert(block_value(shorter) is Ok);
    } else if statements.len() == 1 {
        assert(block_value(statements.drop_last()) == Ok::<Value, RuntimeError>(Value::Nil));
    }
}

} // verus!
