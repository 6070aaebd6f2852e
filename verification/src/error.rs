//! The single error surface of the runtime: every failure of the
//! evaluator, of the virtual machine and of a builtin is a `RuntimeError`
//! that names its cause and renders a human-readable message.

use crate::ast::{infix_symbol, prefix_symbol, InfixOperator, PrefixOperator};
use crate::builtins::{builtin_name, Builtin};
use crate::object::{kind_name, Object, ObjectType, Value};
use crate::text::{decimal_nat, push_decimal_u64};
use vstd::prelude::*;
use vstd::string::StringExecFns;

verus! {

/// What went wrong.
#[derive(Clone, Copy, Debug, PartialEq, Eq, Structural)]
pub enum ErrorKind {
    /// A builtin of fixed arity was called with another number of arguments.
    WrongArgumentCount { expected: usize, given: usize },
    /// A builtin that takes at least `minimum` arguments was called with fewer.
    TooFewArguments { minimum: usize, given: usize },
    /// `len` of an object that is neither text nor an array.
    NoLength { found: ObjectType },
    /// `get` on an array with an index that is not an integer.
    IndexNotInteger { found: ObjectType },
    /// An object of a kind without value equality was used as a dictionary key.
    UnhashableKey { found: ObjectType },
    /// `get` on an object that is neither an array nor a hash.
    NotIndexable { found: ObjectType },
    /// An array argument of `push`, `cons`, `hd` or `tl` was something else.
    ArrayExpected { builtin: Builtin, found: ObjectType },
    /// A prefix operator was applied to an operand it does not support.
    UnsupportedPrefix { prefix: PrefixOperator, operand: ObjectType },
    /// An infix operator was applied to a pair of operands it does not support.
    UnsupportedInfix { operator: InfixOperator, left: ObjectType, right: ObjectType },
    /// Integer division with a zero divisor.
    DivisionByZero,
    /// A syntax tree node of a kind that the evaluator does not implement.
    UnsupportedConstruct,
    /// A push onto a full operand stack.
    StackOverflow,
    /// A pop from an empty operand stack.
    StackUnderflow,
    /// A load-constant instruction whose index is outside the constant pool.
    ConstantOutOfRange { index: usize },
    /// A byte that is not the opcode of any instruction.
    UnknownOpcode { byte: u8 },
    /// An instruction whose operand bytes run past the end of the buffer.
    TruncatedInstruction,
}

/// A failure of the runtime.
#[derive(Clone, Copy, Debug, PartialEq, Eq, Structural)]
pub struct RuntimeError(pub ErrorKind);

/// The outcome of an evaluation: an object, or the first failure.
pub type EvalResult = Result<Object, RuntimeError>;

/// The model of an outcome: the model of the object, or the failure.
pub open spec fn result_view(r: EvalResult) -> Result<Value, RuntimeError> {
    match r {
        Ok(obj) => Ok(obj@),
        Err(e) => Err(e),
    }
}

/// Which argument of an array builtin has to be the array, in words.
pub open spec fn array_argument_text(b: Builtin) -> Seq<char> {
    match b {
        Builtin::Push => "First argument to `"@,
        Builtin::Cons => "Second argument to `"@,
        _ => "Argument to `"@,
    }
}

/// The human-readable message of a failure.
pub open spec fn message_text(kind: ErrorKind) -> Seq<char> {
    match kind {
        ErrorKind::WrongArgumentCount { expected, given } => {
            "Wrong number of arguments. Expected "@ + decimal_nat(expected as nat)
                + " arguments, "@ + decimal_nat(given as nat) + " were given"@
        },
        ErrorKind::TooFewArguments { minimum, given } => {
            "Wrong number of arguments. Expected "@ + decimal_nat(minimum as nat)
                + " or more arguments, "@ + decimal_nat(given as nat) + " were given"@
        },
        ErrorKind::NoLength { found } => { "'"@ + kind_name(found) + "' object has no `len`"@ },
        ErrorKind::IndexNotInteger { found } => {
            "Array index must be integer, not '"@ + kind_name(found) + "'"@
        },
        ErrorKind::UnhashableKey { found } => {
            "Hash key must be hashable type, not '"@ + kind_name(found) + "'"@
        },
        ErrorKind::NotIndexable { found } => {
            "'"@ + kind_name(found) + "' is not an array or hash object"@
        },
        ErrorKind::ArrayExpected { builtin, found } => {
            array_argument_text(builtin) + builtin_name(builtin) + "` must be array, got '"@
                + kind_name(found) + "'"@
        },
        ErrorKind::UnsupportedPrefix { prefix, operand } => {
            "Unsupported operand type for prefix operator "@ + prefix_symbol(prefix) + ": '"@
                + kind_name(operand) + "'"@
        },
        ErrorKind::UnsupportedInfix { operator, left, right } => {
            "Unsupported operand types for operator "@ + infix_symbol(operator) + ": '"@
                + kind_name(left) + "' and '"@ + kind_name(right) + "'"@
        },
        ErrorKind::DivisionByZero => "Division by zero"@,
        ErrorKind::UnsupportedConstruct => "Unsupported construct"@,
        ErrorKind::StackOverflow => "Stack overflow"@,
        ErrorKind::StackUnderflow => "Stack underflow"@,
        ErrorKind::ConstantOutOfRange { index } => {
            "Constant index "@ + decimal_nat(index as nat) + " is out of range"@
        },
        ErrorKind::UnknownOpcode { byte } => { "Unknown opcode "@ + decimal_nat(byte as nat) },
        ErrorKind::TruncatedInstruction => "Truncated instruction"@,
    }
}

impl RuntimeError {
    /// The cause of this failure.
    pub fn kind(&self) -> (kind: ErrorKind)
        ensures
            kind == self.0,
    {
        self.0
    }

    /// The human-readable message of this failure.
    pub fn message(&self) -> (text: String)
        ensures
            text@ == message_text(self.0),
    {
        match self.0 {
            ErrorKind::WrongArgumentCount { expected, given } => {
                let mut text = String::from_str("Wrong number of arguments. Expected ");
                push_decimal_u64(&mut text, expected as u64);
                text.append(" arguments, ");
                push_decimal_u64(&mut text, given as u64);
                text.append(" were given");
                text
            },
            ErrorKind::TooFewArguments { minimum, given } => {
                let mut text = String::from_str("Wrong number of arguments. Expected ");
                push_decimal_u64(&mut text, minimum as u64);
                text.append(" or more arguments, ");
                push_decimal_u64(&mut text, given as u64);
                text.append(" were given");
                text
            },
            ErrorKind::NoLength { found } => {
                let mut text = String::from_str("'");
                text.append(found.name());
                text.append("' object has no `len`");
                text
            },
            ErrorKind::IndexNotInteger { found } => {
                let mut text = String::from_str("Array index must be integer, not '");
                text.append(found.name());
                text.append("'");
                text
            },
            ErrorKind::UnhashableKey { found } => {
                let mut text = String::from_str("Hash key must be hashable type, not '");
                text.append(found.name());
                text.append("'");
                text
            },
            ErrorKind::NotIndexable { found } => {
                let mut text = String::from_str("'");
                text.append(found.name());
                text.append("' is not an array or hash object");
                text
            },
            ErrorKind::ArrayExpected { builtin, found } => {
                let mut text = String::from_str(
                    match builtin {
                        Builtin::Push => "First argument to `",
                        Builtin::Cons => "Second argument to `",
                        _ => "Argument to `",
                    },
                );
                text.append(builtin.name());
                text.append("` must be array, got '");
                text.append(found.name());
                text.append("'");
                text
            },
            ErrorKind::UnsupportedPrefix { prefix, operand } => {
                let mut text = String::from_str("Unsupported operand type for prefix operator ");
                text.append(prefix.symbol());
                text.append(": '");
                text.append(operand.name());
                text.append("'");
                text
            },
            ErrorKind::UnsupportedInfix { operator, left, right } => {
                let mut text = String::from_str("Unsupported operand types for operator ");
                text.append(operator.symbol());
                text.append(": '");
                text.append(left.name());
                text.append("' and '");
                text.append(right.name());
                text.append("'");
                text
            },
            ErrorKind::DivisionByZero => String::from_str("Division by zero"),
            ErrorKind::UnsupportedConstruct => String::from_str("Unsupported construct"),
            ErrorKind::StackOverflow => String::from_str("Stack overflow"),
            ErrorKind::StackUnderflow => String::from_str("Stack underflow"),
            ErrorKind::ConstantOutOfRange { index } => {
                let mut text = String::from_str("Constant index ");
                push_decimal_u64(&mut text, index as u64);
                text.append(" is out of range");
                text
            },
            ErrorKind::UnknownOpcode { byte } => {
                let mut text = String::from_str("Unknown opcode ");
                push_decimal_u64(&mut text, byte as u64);
                text
            },
            ErrorKind::TruncatedInstruction => String::from_str("Truncated instruction"),
        }
    }
}

} // verus!
