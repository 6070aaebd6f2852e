use monkey::ast::InfixOperator::{Add, Div, Gt, GtEq, Lt, LtEq, Mul, NotEq, Pow, Rem, Sub};
use monkey::ast::PrefixOperator::{Neg, Not};
use monkey::ast::{Expression, InfixOperator, PrefixOperator, Statement};
use monkey::error::{ErrorKind, RuntimeError};
use monkey::eval::{
    eval_expression, eval_infix_expression, eval_int_infix_expression, eval_prefix_expression,
    eval_statement, get_truth_value,
};
use monkey::object::{HashObject, Object, ObjectType};

fn lit(i: i64) -> Box<Expression> {
    Box::new(Expression::IntLiteral(i))
}

fn boolean(b: bool) -> Box<Expression> {
    Box::new(Expression::Boolean(b))
}

fn prefix(op: PrefixOperator, e: Box<Expression>) -> Box<Expression> {
    Box::new(Expression::PrefixExpression(op, e))
}

fn infix(l: Box<Expression>, op: InfixOperator, r: Box<Expression>) -> Box<Expression> {
    Box::new(Expression::InfixExpression(l, op, r))
}

fn stmt(e: Box<Expression>) -> Statement {
    Statement::ExpressionStatement(e)
}

fn block(statements: Vec<Statement>) -> Statement {
    Statement::BlockStatement(statements)
}

fn assert_eval(program: Vec<Statement>, expected: &[Object]) {
    assert_eq!(program.len(), expected.len());
    for (st, exp) in program.into_iter().zip(expected) {
        let got = eval_statement(st).expect("Runtime error during test");
        assert_eq!(&got, exp);
    }
}

fn fails_with(kind: ErrorKind) -> Result<Object, RuntimeError> {
    Err(RuntimeError(kind))
}

#[test]
fn test_eval_int_expression() {
    let program = vec![
        stmt(lit(5)),
        stmt(prefix(Neg, lit(10))),
        stmt(prefix(Neg, prefix(Neg, lit(42)))),
        stmt(prefix(Neg, lit(0))),
        stmt(infix(lit(2), Add, lit(2))),
        stmt(infix(infix(lit(1), Mul, lit(2)), Add, lit(3))),
        stmt(infix(lit(1), Add, infix(lit(2), Mul, lit(3)))),
        stmt(infix(infix(lit(1), Add, lit(1)), Mul, infix(lit(2), Add, lit(2)))),
        stmt(infix(lit(66), Div, infix(infix(lit(2), Mul, lit(3)), Add, lit(5)))),
    ];
    let expected = [
        Object::Integer(5),
        Object::Integer(-10),
        Object::Integer(42),
        Object::Integer(0),
        Object::Integer(4),
        Object::Integer(5),
        Object::Integer(7),
        Object::Integer(8),
        Object::Integer(6),
    ];
    assert_eval(program, &expected);
}

#[test]
fn test_eval_bool_expression() {
    let program = vec![
        stmt(boolean(false)),
        stmt(prefix(Not, boolean(true))),
        stmt(prefix(Not, prefix(Not, boolean(true)))),
        stmt(infix(lit(1), Lt, lit(2))),
        stmt(infix(lit(2), LtEq, lit(0))),
        stmt(infix(lit(1), Gt, lit(2))),
        stmt(infix(lit(2), GtEq, lit(0))),
        stmt(infix(lit(0), InfixOperator::Eq, lit(0))),
        stmt(infix(lit(1), NotEq, lit(0))),
        stmt(infix(boolean(true), InfixOperator::Eq, boolean(true))),
        stmt(infix(boolean(false), InfixOperator::Eq, boolean(false))),
        stmt(infix(boolean(false), NotEq, boolean(false))),
        stmt(infix(boolean(true), NotEq, boolean(false))),
    ];
    let expected = [
        Object::Boolean(false),
        Object::Boolean(false),
        Object::Boolean(true),
        Object::Boolean(true),
        Object::Boolean(false),
        Object::Boolean(false),
        Object::Boolean(true),
        Object::Boolean(true),
        Object::Boolean(true),
        Object::Boolean(true),
        Object::Boolean(true),
        Object::Boolean(false),
        Object::Boolean(true),
    ];
    assert_eval(program, &expected);
}

#[test]
fn test_eval_block_statement() {
    let program = vec![
        block(vec![stmt(lit(5))]),
        block(vec![stmt(lit(2)), stmt(boolean(false))]),
        block(vec![block(vec![stmt(boolean(true)), stmt(lit(3))])]),
    ];
    let expected = [Object::Integer(5), Object::Boolean(false), Object::Integer(3)];
    assert_eval(program, &expected);
}

#[test]
fn block_value_is_that_of_the_last_statement() {
    let three = block(vec![stmt(lit(1)), stmt(lit(2)), stmt(lit(3))]);
    assert_eq!(eval_statement(three), Ok(Object::Integer(3)));
    assert_eq!(eval_statement(block(vec![])), Ok(Object::Nil));
}

#[test]
fn block_stops_at_the_first_failure() {
    let failing = block(vec![
        stmt(lit(1)),
        stmt(infix(lit(1), Div, lit(0))),
        stmt(prefix(Neg, boolean(true))),
    ]);
    assert_eq!(eval_statement(failing), fails_with(ErrorKind::DivisionByZero));
    let early = block(vec![stmt(prefix(Neg, boolean(true))), stmt(lit(1))]);
    assert_eq!(
        eval_statement(early),
        fails_with(ErrorKind::UnsupportedPrefix { prefix: Neg, operand: ObjectType::Boolean })
    );
}

#[test]
fn division_truncates_towards_zero() {
    assert_eq!(eval_expression(*infix(lit(7), Div, lit(2))), Ok(Object::Integer(3)));
    assert_eq!(eval_expression(*infix(lit(-7), Div, lit(2))), Ok(Object::Integer(-3)));
    assert_eq!(eval_expression(*infix(lit(7), Div, lit(-2))), Ok(Object::Integer(-3)));
    assert_eq!(eval_expression(*infix(lit(-7), Div, lit(-2))), Ok(Object::Integer(3)));
    assert_eq!(eval_expression(*infix(lit(0), Div, lit(-2))), Ok(Object::Integer(0)));
    assert_eq!(eval_expression(*infix(lit(1), Div, lit(i64::MIN))), Ok(Object::Integer(0)));
    assert_eq!(
        eval_expression(*infix(lit(i64::MIN), Div, lit(1))),
        Ok(Object::Integer(i64::MIN))
    );
    assert_eq!(
        eval_expression(*infix(lit(i64::MAX), Div, lit(-1))),
        Ok(Object::Integer(-i64::MAX))
    );
}

#[test]
fn division_by_zero_is_reported() {
    assert_eq!(
        eval_expression(*infix(lit(5), Div, lit(0))),
        fails_with(ErrorKind::DivisionByZero)
    );
    assert_eq!(
        eval_expression(*infix(lit(0), Div, lit(0))),
        fails_with(ErrorKind::DivisionByZero)
    );
    assert_eq!(
        eval_int_infix_expression(Div, i64::MIN, 0),
        fails_with(ErrorKind::DivisionByZero)
    );
}

#[test]
fn integers_wrap_on_overflow() {
    assert_eq!(eval_int_infix_expression(Add, i64::MAX, 1), Ok(Object::Integer(i64::MIN)));
    assert_eq!(eval_int_infix_expression(Sub, i64::MIN, 1), Ok(Object::Integer(i64::MAX)));
    assert_eq!(eval_int_infix_expression(Mul, i64::MAX, 2), Ok(Object::Integer(-2)));
    assert_eq!(eval_int_infix_expression(Div, i64::MIN, -1), Ok(Object::Integer(i64::MIN)));
    assert_eq!(
        eval_prefix_expression(Neg, Object::Integer(i64::MIN)),
        Ok(Object::Integer(i64::MIN))
    );
}

#[test]
fn integer_arithmetic_and_comparisons() {
    assert_eq!(eval_int_infix_expression(Add, 2, 3), Ok(Object::Integer(5)));
    assert_eq!(eval_int_infix_expression(Sub, 2, 3), Ok(Object::Integer(-1)));
    assert_eq!(eval_int_infix_expression(Mul, -4, 3), Ok(Object::Integer(-12)));
    assert_eq!(eval_int_infix_expression(Div, 9, 3), Ok(Object::Integer(3)));
    assert_eq!(eval_int_infix_expression(InfixOperator::Eq, 2, 2), Ok(Object::Boolean(true)));
    assert_eq!(eval_int_infix_expression(NotEq, 2, 2), Ok(Object::Boolean(false)));
    assert_eq!(eval_int_infix_expression(Lt, 2, 2), Ok(Object::Boolean(false)));
    assert_eq!(eval_int_infix_expression(LtEq, 2, 2), Ok(Object::Boolean(true)));
    assert_eq!(eval_int_infix_expression(Gt, 3, 2), Ok(Object::Boolean(true)));
    assert_eq!(eval_int_infix_expression(GtEq, 1, 2), Ok(Object::Boolean(false)));
}

#[test]
fn operators_that_integers_do_not_support() {
    assert_eq!(
        eval_int_infix_expression(Pow, 2, 3),
        fails_with(ErrorKind::UnsupportedInfix {
            operator: Pow,
            left: ObjectType::Integer,
            right: ObjectType::Integer
        })
    );
    assert_eq!(
        eval_expression(*infix(lit(7), Rem, lit(2))),
        fails_with(ErrorKind::UnsupportedInfix {
            operator: Rem,
            left: ObjectType::Integer,
            right: ObjectType::Integer
        })
    );
}

#[test]
fn truthiness_table() {
    assert_eq!(eval_prefix_expression(Not, Object::Integer(0)), Ok(Object::Boolean(true)));
    assert_eq!(eval_prefix_expression(Not, Object::Integer(1)), Ok(Object::Boolean(false)));
    assert_eq!(eval_prefix_expression(Not, Object::Integer(-7)), Ok(Object::Boolean(false)));
    assert_eq!(eval_prefix_expression(Not, Object::Nil), Ok(Object::Boolean(true)));
    assert_eq!(eval_prefix_expression(Not, Object::Boolean(true)), Ok(Object::Boolean(false)));
    assert_eq!(eval_prefix_expression(Not, Object::Boolean(false)), Ok(Object::Boolean(true)));
    assert_eq!(eval_expression(*prefix(Not, lit(0))), Ok(Object::Boolean(true)));
    assert_eq!(eval_expression(*prefix(Not, lit(1))), Ok(Object::Boolean(false)));
    assert_eq!(eval_expression(*prefix(Not, boolean(true))), Ok(Object::Boolean(false)));
    assert_eq!(
        eval_expression(*prefix(Not, prefix(Not, boolean(true)))),
        Ok(Object::Boolean(true))
    );
}

#[test]
fn every_other_value_is_true() {
    assert!(get_truth_value(Object::Str(String::new())));
    assert!(get_truth_value(Object::Array(vec![])));
    assert!(get_truth_value(Object::Hash(HashObject::new())));
    assert!(get_truth_value(Object::Boolean(true)));
    assert!(get_truth_value(Object::Integer(5)));
    assert!(!get_truth_value(Object::Integer(0)));
    assert!(!get_truth_value(Object::Nil));
    assert!(!get_truth_value(Object::Boolean(false)));
    assert_eq!(
        eval_prefix_expression(Not, Object::Str("x".to_string())),
        Ok(Object::Boolean(false))
    );
}

#[test]
fn minus_needs_an_integer() {
    assert_eq!(
        eval_prefix_expression(Neg, Object::Boolean(true)),
        fails_with(ErrorKind::UnsupportedPrefix { prefix: Neg, operand: ObjectType::Boolean })
    );
    assert_eq!(
        eval_prefix_expression(Neg, Object::Nil),
        fails_with(ErrorKind::UnsupportedPrefix { prefix: Neg, operand: ObjectType::Nil })
    );
    assert_eq!(eval_prefix_expression(Neg, Object::Integer(5)), Ok(Object::Integer(-5)));
}

#[test]
fn booleans_support_only_equality() {
    assert_eq!(
        eval_infix_expression(InfixOperator::Eq, Object::Boolean(true), Object::Boolean(false)),
        Ok(Object::Boolean(false))
    );
    assert_eq!(
        eval_infix_expression(NotEq, Object::Boolean(true), Object::Boolean(false)),
        Ok(Object::Boolean(true))
    );
    assert_eq!(
        eval_infix_expression(Add, Object::Boolean(true), Object::Boolean(false)),
        fails_with(ErrorKind::UnsupportedInfix {
            operator: Add,
            left: ObjectType::Boolean,
            right: ObjectType::Boolean
        })
    );
    assert_eq!(
        eval_infix_expression(Lt, Object::Boolean(true), Object::Boolean(false)),
        fails_with(ErrorKind::UnsupportedInfix {
            operator: Lt,
            left: ObjectType::Boolean,
            right: ObjectType::Boolean
        })
    );
}

#[test]
fn mixed_operands_fail_with_both_type_names() {
    let res = eval_infix_expression(Add, Object::Integer(1), Object::Boolean(true));
    assert_eq!(
        res,
        fails_with(ErrorKind::UnsupportedInfix {
            operator: Add,
            left: ObjectType::Integer,
            right: ObjectType::Boolean
        })
    );
    assert_eq!(
        res.unwrap_err().message(),
        "Unsupported operand types for operator +: 'integer' and 'boolean'"
    );
    assert_eq!(
        eval_infix_expression(InfixOperator::Eq, Object::Str("a".to_string()), Object::Str("a".to_string())),
        fails_with(ErrorKind::UnsupportedInfix {
            operator: InfixOperator::Eq,
            left: ObjectType::Str,
            right: ObjectType::Str
        })
    );
}

#[test]
fn the_left_operand_fails_first() {
    let both_fail = infix(prefix(Neg, boolean(true)), Add, infix(lit(1), Div, lit(0)));
    assert_eq!(
        eval_expression(*both_fail),
        fails_with(ErrorKind::UnsupportedPrefix { prefix: Neg, operand: ObjectType::Boolean })
    );
    let right_fails = infix(lit(1), Add, infix(lit(1), Div, lit(0)));
    assert_eq!(eval_expression(*right_fails), fails_with(ErrorKind::DivisionByZero));
}

#[test]
fn unsupported_constructs_are_reported() {
    assert_eq!(
        eval_expression(Expression::Identifier("x".to_string())),
        fails_with(ErrorKind::UnsupportedConstruct)
    );
    assert_eq!(
        eval_expression(Expression::StringLiteral("x".to_string())),
        fails_with(ErrorKind::UnsupportedConstruct)
    );
    assert_eq!(eval_expression(Expression::Nil), fails_with(ErrorKind::UnsupportedConstruct));
    assert_eq!(
        eval_expression(*prefix(Not, Box::new(Expression::Nil))),
        fails_with(ErrorKind::UnsupportedConstruct)
    );
    assert_eq!(
        eval_statement(Statement::Let("x".to_string(), lit(1))),
        fails_with(ErrorKind::UnsupportedConstruct)
    );
    assert_eq!(
        eval_statement(Statement::Return(lit(1))),
        fails_with(ErrorKind::UnsupportedConstruct)
    );
    assert_eq!(
        eval_statement(block(vec![stmt(lit(1)), Statement::Return(lit(2)), stmt(lit(3))])),
        fails_with(ErrorKind::UnsupportedConstruct)
    );
}
