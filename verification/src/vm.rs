//! The bytecode virtual machine: executes a flat instruction stream
//! against a constant pool, on an operand stack of fixed capacity.

use crate::code::{
    big_endian_u16, load_constant, load_constants, lemma_load_constant_decodes, opcode_of,
    read_u16, Bytecode, Instructions, OpCode,
};
use crate::error::{ErrorKind, RuntimeError};
use crate::object::{lemma_values_of, values_of, Object, Value};
use vstd::prelude::*;

verus! {

/// Capacity of the operand stack.
pub const STACK_SIZE: usize = 2048;

/// How a run ended: the operand stack that it left, and the failure that
/// stopped it, if one did.  A failing instruction leaves the stack as it
/// found it.
pub struct Outcome {
    pub stack: Seq<Value>,
    pub failure: Option<RuntimeError>,
}

/// The number of bytes that the instruction with this opcode byte takes.
pub open spec fn instruction_len(byte: u8) -> nat {
    match opcode_of(byte) {
        Some(op) => 1 + crate::code::operand_width(op),
        None => 1,
    }
}

/// The effect of the instruction at `pc` on the stack: the new stack, or
/// the failure.
pub open spec fn step_spec(constants: Seq<Value>, code: Seq<u8>, pc: int, stack: Seq<Value>) -> Result<
    Seq<Value>,
    RuntimeError,
>
    recommends
        0 <= pc < code.len(),
{
    match opcode_of(code[pc]) {
        None => Err(RuntimeError(ErrorKind::UnknownOpcode { byte: code[pc] })),
        Some(OpCode::OpConstant) => {
            if pc + 3 > code.len() {
                Err(RuntimeError(ErrorKind::TruncatedInstruction))
            } else {
                let index = big_endian_u16(code[pc + 1], code[pc + 2]);
                if index >= constants.len() {
                    Err(RuntimeError(ErrorKind::ConstantOutOfRange { index: index as usize }))
                } else if stack.len() >= STACK_SIZE {
                    Err(RuntimeError(ErrorKind::StackOverflow))
                } else {
                    Ok(stack.push(constants[index]))
                }
            }
        },
    }
}

/// The effect of running from `pc` to the end of the code or to the first
/// failure.
pub open spec fn run_spec(constants: Seq<Value>, code: Seq<u8>, pc: int, stack: Seq<Value>) -> Outcome
    decreases code.len() - pc,
{
    if pc < 0 || pc >= code.len() {
        Outcome { stack, failure: None }
    } else {
        match step_spec(constants, code, pc, stack) {
            Ok(next) => run_spec(constants, code, pc + instruction_len(code[pc]), next),
            Err(error) => Outcome { stack, failure: Some(error) },
        }
    }
}

/// The virtual machine.
pub struct VM {
    constants: Vec<Object>,
    instructions: Instructions,
    stack: Vec<Object>,
    sp: usize,
}

impl VM {
    #[verifier::type_invariant]
    spec fn inv(&self) -> bool {
        &&& self.stack@.len() == STACK_SIZE
        &&& self.sp <= STACK_SIZE
    }

    /// The operand stack, bottom first.
    pub closed spec fn stack(&self) -> Seq<Value> {
        values_of(self.stack@.take(self.sp as int))
    }

    /// The constant pool.
    pub closed spec fn constants(&self) -> Seq<Value> {
        values_of(self.constants@)
    }

    /// The instruction buffer.
    pub closed spec fn code(&self) -> Seq<u8> {
        self.instructions.0@
    }

    /// A machine that is about to execute `bytecode`, with an empty stack.
    pub fn new(bytecode: Bytecode) -> (vm: VM)
        ensures
            vm.stack() == Seq::<Value>::empty(),
            vm.constants() == values_of(bytecode.constants@),
            vm.code() == bytecode.instructions.0@,
    {
        let mut stack: Vec<Object> = Vec::new();
        let mut i: usize = 0;
        while i < STACK_SIZE
            invariant
                i <= STACK_SIZE,
                stack@.len() == i,
            decreases STACK_SIZE - i,
        {
            stack.push(Object::Nil);
            i += 1;
        }
        let vm = VM {
            constants: bytecode.constants,
            instructions: bytecode.instructions,
            stack,
            sp: 0,
        };
        assert(vm.stack() =~= Seq::<Value>::empty());
        vm
    }

    /// The number of objects on the stack, which never exceeds the
    /// capacity.
    pub fn stack_len(&self) -> (n: usize)
        ensures
            n == self.stack().len(),
            n <= STACK_SIZE,
    {
        proof {
            use_type_invariant(self);
            lemma_values_of(self.stack@.take(self.sp as int));
        }
        self.sp
    }

    /// The most recently pushed object, or `None` on an empty stack.  The
    /// stack is left as it is.
    pub fn stack_top(&self) -> (top: Option<&Object>)
        ensures
            self.stack().len() == 0 ==> top is None,
            self.stack().len() > 0 ==> top is Some && top->0@ == self.stack().last(),
    {
        proof {
            use_type_invariant(self);
            lemma_values_of(self.stack@.take(self.sp as int));
        }
        if self.sp == 0 {
            None
        } else {
            Some(&self.stack[self.sp - 1])
        }
    }

    /// Pushes an object.  On a full stack nothing changes and the overflow
    /// is reported.
    pub fn push(&mut self, obj: Object) -> (res: Result<(), RuntimeError>)
        ensures
            old(self).stack().len() < STACK_SIZE ==> res is Ok && final(self).stack() == old(
                self,
            ).stack().push(obj@),
            old(self).stack().len() >= STACK_SIZE ==> res == Err::<(), RuntimeError>(
                RuntimeError(ErrorKind::StackOverflow),
            ) && final(self).stack() == old(self).stack(),
            final(self).constants() == old(self).constants(),
            final(self).code() == old(self).code(),
    {
        proof {
            use_type_invariant(&*self);
            lemma_values_of(self.stack@.take(self.sp as int));
        }
        if self.sp >= STACK_SIZE {
            Err(RuntimeError(ErrorKind::StackOverflow))
        } else {
            let ghost before = self.stack@.take(self.sp as int);
            self.stack[self.sp] = obj;
            self.sp += 1;
            proof {
                let after = self.stack@.take(self.sp as int);
                lemma_values_of(after);
                assert(after =~= before.push(obj));
                assert(values_of(after) =~= values_of(before).push(obj@));
            }
            Ok(())
        }
    }

    /// Pops the most recently pushed object.  On an empty stack nothing
    /// changes and the underflow is reported.
    pub fn pop(&mut self) -> (res: Result<Object, RuntimeError>)
        ensures
            old(self).stack().len() > 0 ==> res is Ok && res->Ok_0@ == old(self).stack().last()
                && final(self).stack() == old(self).stack().drop_last(),
            old(self).stack().len() == 0 ==> res is Err && res->Err_0 == RuntimeError(
                ErrorKind::StackUnderflow,
            ) && final(self).stack() == old(self).stack(),
            final(self).constants() == old(self).constants(),
            final(self).code() == old(self).code(),
    {
        proof {
            use_type_invariant(&*self);
            lemma_values_of(self.stack@.take(self.sp as int));
        }
        if self.sp == 0 {
            Err(RuntimeError(ErrorKind::StackUnderflow))
        } else {
            let ghost before = self.stack@.take(self.sp as int);
            let top = self.stack[self.sp - 1].clone();
            self.sp -= 1;
            proof {
                let after = self.stack@.take(self.sp as int);
                lemma_values_of(after);
                assert(after =~= before.drop_last());
                assert(values_of(after) =~= values_of(before).drop_last());
            }
            Ok(top)
        }
    }

    /// Executes the instruction at `pc` and returns where the next one
    /// starts.
    fn step(&mut self, pc: usize) -> (res: Result<usize, RuntimeError>)
        requires
            pc < old(self).code().len(),
        ensures
            match step_spec(old(self).constants(), old(self).code(), pc as int, old(self).stack()) {
                Ok(stack) => res is Ok && res->Ok_0 == pc + instruction_len(
                    old(self).code()[pc as int],
                ) && res->Ok_0 <= old(self).code().len() && final(self).stack() == stack,
                Err(error) => res is Err && res->Err_0 == error && final(self).stack() == old(
                    self,
                ).stack(),
            },
            final(self).constants() == old(self).constants(),
            final(self).code() == old(self).code(),
    {
        proof {
            use_type_invariant(&*self);
            lemma_values_of(self.stack@.take(self.sp as int));
            lemma_values_of(self.constants@);
        }
        let code_len = self.instructions.0.len();
        assert(pc < code_len);
        match OpCode::from_byte(self.instructions.0[pc]) {
            None => Err(RuntimeError(ErrorKind::UnknownOpcode { byte: self.instructions.0[pc] })),
            Some(OpCode::OpConstant) => {
                match read_u16(&self.instructions.0, pc + 1) {
                    None => Err(RuntimeError(ErrorKind::TruncatedInstruction)),
                    Some(operand) => {
                        let constant_index = operand as usize;
                        if constant_index >= self.constants.len() {
                            Err(
                                RuntimeError(
                                    ErrorKind::ConstantOutOfRange { index: constant_index },
                                ),
                            )
                        } else {
                            let constant = self.constants[constant_index].clone();
                            match self.push(constant) {
                                Ok(_) => Ok(pc + 3),
                                Err(e) => Err(e),
                            }
                        }
                    },
                }
            },
        }
    }

    /// Runs the code from its start to its end or to the first failure.
    /// Each load-constant instruction pushes a copy of the constant that
    /// it names.  After a failure the stack is as the failing instruction
    /// found it.
    pub fn run(&mut self) -> (res: Result<(), RuntimeError>)
        ensures
            final(self).stack() == run_spec(
                old(self).constants(),
                old(self).code(),
                0,
                old(self).stack(),
            ).stack,
            match run_spec(old(self).constants(), old(self).code(), 0, old(self).stack()).failure {
                Some(error) => res is Err && res->Err_0 == error,
                None => res is Ok,
            },
            final(self).constants() == old(self).constants(),
            final(self).code() == old(self).code(),
    {
        let mut pc: usize = 0;
        while pc < self.instructions.0.len()
            invariant
                pc <= self.code().len(),
                self.code() == self.instructions.0@,
                self.constants() == old(self).constants(),
                self.code() == old(self).code(),
                run_spec(old(self).constants(), old(self).code(), 0, old(self).stack())
                    == run_spec(self.constants(), self.code(), pc as int, self.stack()),
            decreases self.code().len() - pc,
        {
            match self.step(pc) {
                Ok(next) => {
                    pc = next;
                },
                Err(e) => {
                    return Err(e);
                },
            }
        }
        Ok(())
    }
}

/// The constants that a sequence of indices names, in order.
pub open spec fn constants_at(constants: Seq<Value>, indices: Seq<u16>) -> Seq<Value> {
    Seq::new(indices.len(), |i: int| constants[indices[i] as int])
}

/// The layout of a run of load-constant instructions: three bytes each,
/// the opcode and the index, most significant byte first.
pub proof fn lemma_load_constants_layout(indices: Seq<u16>)
    ensures
        load_constants(indices).len() == 3 * indices.len(),
        forall|k: int|
            0 <= k < indices.len() ==> {
                &&& opcode_of(#[trigger] load_constants(indices)[3 * k]) == Some(
                    OpCode::OpConstant,
                )
                &&& big_endian_u16(
                    load_constants(indices)[3 * k + 1],
                    load_constants(indices)[3 * k + 2],
                ) == indices[k]
            },
    decreases indices.len(),
{
    if indices.len() > 0 {
        let shorter = indices.drop_last();
        lemma_load_constants_layout(shorter);
        lemma_load_constant_decodes(indices.last());
        let code = load_constants(indices);
        assert(code == load_constants(shorter) + load_constant(indices.last()));
        assert forall|k: int| 0 <= k < indices.len() implies {
            &&& opcode_of(#[trigger] code[3 * k]) == Some(OpCode::OpConstant)
            &&& big_endian_u16(code[3 * k + 1], code[3 * k + 2]) == indices[k]
        } by {
            if k < shorter.len() {
                assert(code[3 * k] == load_constants(shorter)[3 * k]);
                assert(code[3 * k + 1] == load_constants(shorter)[3 * k + 1]);
                assert(code[3 * k + 2] == load_constants(shorter)[3 * k + 2]);
                assert(shorter[k] == indices[k]);
            } else {
                assert(code[3 * k] == load_constant(indices.last())[0]);
                assert(code[3 * k + 1] == load_constant(indices.last())[1]);
                assert(code[3 * k + 2] == load_constant(indices.last())[2]);
            }
        }
    }
}

/// The number of load-constant instructions that succeed on a stack of
/// `depth` objects: all `count` of them if they fit, else as many as fill
/// the stack.
pub open spec fn loads_that_fit(depth: nat, count: nat) -> nat {
    if depth + count <= STACK_SIZE {
        count
    } else {
        (STACK_SIZE - depth) as nat
    }
}

proof fn lemma_run_load_constants_from(
    constants: Seq<Value>,
    indices: Seq<u16>,
    stack: Seq<Value>,
    k: int,
)
    requires
        forall|i: int| 0 <= i < indices.len() ==> (#[trigger] indices[i]) < constants.len(),
        stack.len() <= STACK_SIZE,
        0 <= k <= loads_that_fit(stack.len(), indices.len()),
    ensures
        run_spec(
            constants,
            load_constants(indices),
            3 * k,
            stack + constants_at(constants, indices.take(k)),
        ) == (Outcome {
            stack: stack + constants_at(
                constants,
                indices.take(loads_that_fit(stack.len(), indices.len()) as int),
            ),
            failure: if stack.len() + indices.len() <= STACK_SIZE {
                None
            } else {
                Some(RuntimeError(ErrorKind::StackOverflow))
            },
        }),
    decreases indices.len() - k,
{
    let code = load_constants(indices);
    let fit = loads_that_fit(stack.len(), indices.len());
    let now = stack + constants_at(constants, indices.take(k));
    lemma_load_constants_layout(indices);
    if k < indices.len() {
        assert(opcode_of(code[3 * k]) == Some(OpCode::OpConstant));
        assert(big_endian_u16(code[3 * k + 1], code[3 * k + 2]) == indices[k]);
        if k < fit {
            let next = stack + constants_at(constants, indices.take(k + 1));
            assert(next =~= now.push(constants[indices[k] as int]));
            lemma_run_load_constants_from(constants, indices, stack, k + 1);
        }
    }
}

/// A run of load-constant instructions that name constants of the pool
/// pushes those constants in order, so that the last one named ends up on
/// top.  If they do not all fit, the run reports a stack overflow and
/// leaves the stack full, holding the constants that did fit.
pub proof fn lemma_run_load_constants(
    constants: Seq<Value>,
    indices: Seq<u16>,
    stack: Seq<Value>,
)
    requires
        forall|i: int| 0 <= i < indices.len() ==> (#[trigger] indices[i]) < constants.len(),
        stack.len() <= STACK_SIZE,
    ensures
        stack.len() + indices.len() <= STACK_SIZE ==> run_spec(
            constants,
            load_constants(indices),
            0,
            stack,
        ) == (Outcome { stack: stack + constants_at(constants, indices), failure: None }),
        stack.len() + indices.len() <= STACK_SIZE && indices.len() > 0 ==> run_spec(
            constants,
            load_constants(indices),
            0,
            stack,
        ).stack.last() == constants[indices.last() as int],
        stack.len() + indices.len() > STACK_SIZE ==> {
            let outcome = run_spec(constants, load_constants(indices), 0, stack);
            &&& outcome.failure == Some(RuntimeError(ErrorKind::StackOverflow))
            &&& outcome.stack.len() == STACK_SIZE
            &&& outcome.stack == stack + constants_at(
                constants,
                indices.take(STACK_SIZE - stack.len()),
            )
        },
{
    lemma_run_load_constants_from(constants, indices, stack, 0);
    assert(stack + constants_at(constants, indices.take(0)) =~= stack);
    assert(indices.take(indices.len() as int) =~= indices);
}

} // verus!
