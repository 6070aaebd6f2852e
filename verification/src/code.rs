//! The bytecode format: a flat buffer of instructions, each one opcode
//! byte followed by a fixed number of operand bytes that the opcode alone
//! determines, and the constant pool that the instructions refer to.

use crate::object::Object;
use vstd::prelude::*;

verus! {

/// The opcode byte of the load-constant instruction.
pub const OP_CONSTANT: u8 = 0;

/// The operations of the virtual machine.
#[derive(Clone, Copy, Debug, PartialEq, Eq, Structural)]
pub enum OpCode {
    /// Pushes a copy of the constant whose index is the operand: two
    /// bytes, most significant first.
    OpConstant,
}

/// A buffer of encoded instructions.
#[derive(Debug)]
pub struct Instructions(pub Vec<u8>);

/// What a compiler hands to the virtual machine: the constant pool and the
/// instructions that refer to it.
#[derive(Debug)]
pub struct Bytecode {
    pub constants: Vec<Object>,
    pub instructions: Instructions,
}

/// The opcode that a byte stands for, if any.
pub open spec fn opcode_of(byte: u8) -> Option<OpCode> {
    if byte == OP_CONSTANT {
        Some(OpCode::OpConstant)
    } else {
        None
    }
}

/// The number of operand bytes that follow an opcode.
pub open spec fn operand_width(op: OpCode) -> nat {
    match op {
        OpCode::OpConstant => 2,
    }
}

/// The number that two bytes encode, most significant byte first.
pub open spec fn big_endian_u16(high: u8, low: u8) -> int {
    high as int * 256 + low as int
}

/// The encoding of one load-constant instruction.
pub open spec fn load_constant(index: u16) -> Seq<u8> {
    seq![OP_CONSTANT, (index / 256) as u8, (index % 256) as u8]
}

/// The encoding of a run of load-constant instructions, one for each
/// index, in order.
pub open spec fn load_constants(indices: Seq<u16>) -> Seq<u8>
    decreases indices.len(),
{
    if indices.len() == 0 {
        Seq::empty()
    } else {
        load_constants(indices.drop_last()) + load_constant(indices.last())
    }
}

impl OpCode {
    /// Decodes an opcode byte.
    pub fn from_byte(byte: u8) -> (op: Option<OpCode>)
        ensures
            op == opcode_of(byte),
    {
        if byte == OP_CONSTANT {
            Some(OpCode::OpConstant)
        } else {
            None
        }
    }

    /// The byte that encodes this opcode; decoding it gives the opcode
    /// back.
    pub fn to_byte(&self) -> (byte: u8)
        ensures
            byte == opcode_byte(*self),
            opcode_of(byte) == Some(*self),
    {
        match self {
            OpCode::OpConstant => OP_CONSTANT,
        }
    }

    /// The number of operand bytes that follow this opcode.
    pub fn width(&self) -> (width: usize)
        ensures
            width == operand_width(*self),
    {
        match self {
            OpCode::OpConstant => 2,
        }
    }
}

/// The byte that encodes an opcode.
pub open spec fn opcode_byte(op: OpCode) -> u8 {
    match op {
        OpCode::OpConstant => OP_CONSTANT,
    }
}

/// Reads the two-byte operand that starts at `at`, most significant byte
/// first, or `None` where the buffer ends before it.
pub fn read_u16(bytes: &Vec<u8>, at: usize) -> (operand: Option<u16>)
    ensures
        at + 2 <= bytes@.len() ==> operand is Some && operand->0 == big_endian_u16(
            bytes@[at as int],
            bytes@[at + 1],
        ),
        at + 2 > bytes@.len() ==> operand is None,
{
    if bytes.len() < 2 || at > bytes.len() - 2 {
        None
    } else {
        let high: u16 = bytes[at] as u16;
        let low: u16 = bytes[at + 1] as u16;
        Some(high * 256 + low)
    }
}

impl Instructions {
    /// An empty buffer.
    pub fn new() -> (code: Instructions)
        ensures
            code.0@ == Seq::<u8>::empty(),
    {
        Instructions(Vec::new())
    }

    /// Appends one load-constant instruction.
    pub fn push_constant(&mut self, index: u16)
        ensures
            final(self).0@ == old(self).0@ + load_constant(index),
    {
        self.0.push(OP_CONSTANT);
        self.0.push((index / 256) as u8);
        self.0.push((index % 256) as u8);
        assert(self.0@ =~= old(self).0@ + load_constant(index));
    }
}

/// Decoding the operand of an encoded load-constant instruction gives the
/// index back.
pub proof fn lemma_load_constant_decodes(index: u16)
    ensures
        load_constant(index).len() == 3,
        opcode_of(load_constant(index)[0]) == Some(OpCode::OpConstant),
        big_endian_u16(load_constant(index)[1], load_constant(index)[2]) == index,
{
}

} // verus!
