use monkey::ast::{InfixOperator, PrefixOperator};
use monkey::builtins::Builtin;
use monkey::error::{ErrorKind, RuntimeError};
use monkey::object::ObjectType;

fn message(kind: ErrorKind) -> String {
    RuntimeError(kind).message()
}

#[test]
fn argument_count_messages() {
    assert_eq!(
        message(ErrorKind::WrongArgumentCount { expected: 2, given: 0 }),
        "Wrong number of arguments. Expected 2 arguments, 0 were given"
    );
    assert_eq!(
        message(ErrorKind::WrongArgumentCount { expected: 1, given: 12 }),
        "Wrong number of arguments. Expected 1 arguments, 12 were given"
    );
    assert_eq!(
        message(ErrorKind::TooFewArguments { minimum: 1, given: 0 }),
        "Wrong number of arguments. Expected 1 or more arguments, 0 were given"
    );
}

#[test]
fn type_messages() {
    assert_eq!(
        message(ErrorKind::NoLength { found: ObjectType::Integer }),
        "'integer' object has no `len`"
    );
    assert_eq!(
        message(ErrorKind::IndexNotInteger { found: ObjectType::Str }),
        "Array index must be integer, not 'string'"
    );
    assert_eq!(
        message(ErrorKind::UnhashableKey { found: ObjectType::Array }),
        "Hash key must be hashable type, not 'array'"
    );
    assert_eq!(
        message(ErrorKind::NotIndexable { found: ObjectType::Nil }),
        "'nil' is not an array or hash object"
    );
}

#[test]
fn array_argument_messages() {
    assert_eq!(
        message(ErrorKind::ArrayExpected { builtin: Builtin::Push, found: ObjectType::Hash }),
        "First argument to `push` must be array, got 'hash'"
    );
    assert_eq!(
        message(ErrorKind::ArrayExpected { builtin: Builtin::Cons, found: ObjectType::Boolean }),
        "Second argument to `cons` must be array, got 'boolean'"
    );
    assert_eq!(
        message(ErrorKind::ArrayExpected { builtin: Builtin::Hd, found: ObjectType::Builtin }),
        "Argument to `hd` must be array, got 'builtin'"
    );
    assert_eq!(
        message(ErrorKind::ArrayExpected { builtin: Builtin::Tl, found: ObjectType::Integer }),
        "Argument to `tl` must be array, got 'integer'"
    );
}

#[test]
fn operator_messages() {
    assert_eq!(
        message(ErrorKind::UnsupportedPrefix {
            prefix: PrefixOperator::Neg,
            operand: ObjectType::Boolean
        }),
        "Unsupported operand type for prefix operator -: 'boolean'"
    );
    assert_eq!(
        message(ErrorKind::UnsupportedInfix {
            operator: InfixOperator::LtEq,
            left: ObjectType::Boolean,
            right: ObjectType::Integer
        }),
        "Unsupported operand types for operator <=: 'boolean' and 'integer'"
    );
    assert_eq!(PrefixOperator::Not.symbol(), "!");
    let symbols: Vec<&str> = [
        InfixOperator::Add,
        InfixOperator::Sub,
        InfixOperator::Mul,
        InfixOperator::Div,
        InfixOperator::Pow,
        InfixOperator::Rem,
        InfixOperator::Eq,
        InfixOperator::NotEq,
        InfixOperator::Lt,
        InfixOperator::LtEq,
        InfixOperator::Gt,
        InfixOperator::GtEq,
    ]
    .iter()
    .map(|op| op.symbol())
    .collect();
    assert_eq!(symbols, vec!["+", "-", "*", "/", "^", "%", "==", "!=", "<", "<=", ">", ">="]);
}

#[test]
fn plain_messages() {
    assert_eq!(message(ErrorKind::DivisionByZero), "Division by zero");
    assert_eq!(message(ErrorKind::UnsupportedConstruct), "Unsupported construct");
    assert_eq!(message(ErrorKind::StackOverflow), "Stack overflow");
    assert_eq!(message(ErrorKind::StackUnderflow), "Stack underflow");
    assert_eq!(message(ErrorKind::TruncatedInstruction), "Truncated instruction");
}

#[test]
fn bytecode_messages() {
    assert_eq!(
        message(ErrorKind::ConstantOutOfRange { index: 65535 }),
        "Constant index 65535 is out of range"
    );
    assert_eq!(message(ErrorKind::UnknownOpcode { byte: 200 }), "Unknown opcode 200");
}

#[test]
fn causes_stay_distinguishable() {
    let e = RuntimeError(ErrorKind::StackOverflow);
    assert_eq!(e.kind(), ErrorKind::StackOverflow);
    assert_ne!(e, RuntimeError(ErrorKind::StackUnderflow));
    assert_ne!(
        RuntimeError(ErrorKind::WrongArgumentCount { expected: 1, given: 2 }),
        RuntimeError(ErrorKind::WrongArgumentCount { expected: 2, given: 1 })
    );
}
