//! The abstract syntax tree that the evaluator consumes.  Operators are a
//! closed set of their own, independent of how a token was spelled.

use vstd::prelude::*;

verus! {

/// Operators that stand in front of their operand.
#[derive(Clone, Copy, Debug, PartialEq, Eq, Structural)]
pub enum PrefixOperator {
    /// Arithmetic negation, `-`.
    Neg,
    /// Truthiness negation, `!`.
    Not,
}

/// Operators that stand between two operands.
#[derive(Clone, Copy, Debug, PartialEq, Eq, Structural)]
pub enum InfixOperator {
    Add,
    Sub,
    Mul,
    Div,
    Pow,
    Rem,
    Eq,
    NotEq,
    Lt,
    LtEq,
    Gt,
    GtEq,
}

/// An expression node.
#[derive(Debug)]
pub enum Expression {
    Identifier(String),
    IntLiteral(i64),
    Boolean(bool),
    StringLiteral(String),
    Nil,
    PrefixExpression(PrefixOperator, Box<Expression>),
    InfixExpression(Box<Expression>, InfixOperator, Box<Expression>),
}

/// A statement node.
#[derive(Debug)]
pub enum Statement {
    Let(String, Box<Expression>),
    Return(Box<Expression>),
    ExpressionStatement(Box<Expression>),
    BlockStatement(Vec<Statement>),
}

/// How a prefix operator is written.
pub open spec fn prefix_symbol(op: PrefixOperator) -> Seq<char> {
    match op {
        PrefixOperator::Neg => "-"@,
        PrefixOperator::Not => "!"@,
    }
}

/// How an infix operator is written.
pub open spec fn infix_symbol(op: InfixOperator) -> Seq<char> {
    match op {
        InfixOperator::Add => "+"@,
        InfixOperator::Sub => "-"@,
        InfixOperator::Mul => "*"@,
        InfixOperator::Div => "/"@,
        InfixOperator::Pow => "^"@,
        InfixOperator::Rem => "%"@,
        InfixOperator::Eq => "=="@,
        InfixOperator::NotEq => "!="@,
        InfixOperator::Lt => "<"@,
        InfixOperator::LtEq => "<="@,
        InfixOperator::Gt => ">"@,
        InfixOperator::GtEq => ">="@,
    }
}

impl PrefixOperator {
    /// How this operator is written.
    pub fn symbol(&self) -> (symbol: &'static str)
        ensures
            symbol@ == prefix_symbol(*self),
    {
        match self {
            PrefixOperator::Neg => "-",
            PrefixOperator::Not => "!",
        }
    }
}

impl InfixOperator {
    /// How this operator is written.
    pub fn symbol(&self) -> (symbol: &'static str)
        ensures
            symbol@ == infix_symbol(*self),
    {
        match self {
            InfixOperator::Add => "+",
            InfixOperator::Sub => "-",
            InfixOperator::Mul => "*",
            InfixOperator::Div => "/",
            InfixOperator::Pow => "^",
            InfixOperator::Rem => "%",
            InfixOperator::Eq => "==",
            InfixOperator::NotEq => "!=",
            InfixOperator::Lt => "<",
            InfixOperator::LtEq => "<=",
            InfixOperator::Gt => ">",
            InfixOperator::GtEq => ">=",
        }
    }
}

} // verus!
