//! The stack virtual machine: its state, its small-step semantics as a
//! mathematical function, and the interpreter loop that implements them.

use vstd::prelude::*;

use crate::codec::{
    AddI, Call, CondJmp, FStop, Goto, Instruction, Mul, Neg, Pop, PopCopy, PushCopy, PushI, ResV,
    Ret, spec_decode_all, spec_decode_all_err, spec_decode_all_err_offset, StreamDecodingError,
};
use crate::value::{RuntimeError, Type, Value};

verus! {

// ---------------------------------------------------------------------------
// Machine state
// ---------------------------------------------------------------------------

/// The mathematical image of a running machine: an instruction pointer and
/// the stack contents, bottom first.
pub struct VmState {
    pub ip: nat,
    pub stack: Seq<Value>,
}

impl VmState {
    /// The state a machine starts in: empty stack, instruction pointer 0.
    pub open spec fn init() -> VmState {
        VmState { ip: 0, stack: Seq::empty() }
    }
}

/// The runtime stack of the machine.
#[derive(Clone, Debug, PartialEq)]
pub struct Stack(Vec<Value>);

impl View for Stack {
    type V = Seq<Value>;

    closed spec fn view(&self) -> Seq<Value> {
        self.0@
    }
}

impl Stack {
    pub fn new() -> (s: Stack)
        ensures
            s@ =~= Seq::<Value>::empty(),
    {
        Stack(Vec::new())
    }

    /// Pushes a value on top of the stack.
    pub fn push_value(&mut self, v: Value)
        ensures
            final(self)@ == old(self)@.push(v),
    {
        self.0.push(v);
    }

    /// Pushes an integer value.
    pub fn push_integer(&mut self, n: i32)
        ensures
            final(self)@ == old(self)@.push(Value::Integer(n)),
    {
        self.push_value(Value::Integer(n));
    }

    /// Pushes an instruction-pointer value.
    pub fn push_instruction_pointer(&mut self, idx: u32)
        ensures
            final(self)@ == old(self)@.push(Value::InstructionPointer(idx)),
    {
        self.push_value(Value::InstructionPointer(idx));
    }

    /// Pops the top value; fails on an empty stack.
    pub fn pop(&mut self) -> (r: Result<Value, RuntimeError>)
        ensures
            match r {
                Ok(v) => old(self)@.len() >= 1 && v == old(self)@.last() && final(self)@ == old(self)@.drop_last(),
                Err(e) => old(self)@.len() == 0 && final(self)@ == old(self)@ && e
                    == RuntimeError::EmptyStack,
            },
    {
        match self.0.pop() {
            Some(v) => Ok(v),
            None => Err(RuntimeError::EmptyStack),
        }
    }

    /// Pops the top value and requires it to be an integer.
    pub fn pop_integer(&mut self) -> (r: Result<i32, RuntimeError>)
        ensures
            match r {
                Ok(n) => old(self)@.len() >= 1 && old(self)@.last() == Value::Integer(n) && final(self)@ == old(self)@.drop_last(),
                Err(e) => if old(self)@.len() == 0 {
                    final(self)@ == old(self)@ && e == RuntimeError::EmptyStack
                } else {
                    !(old(self)@.last() is Integer) && final(self)@ == old(self)@.drop_last() && e
                        == (RuntimeError::TypeMismatch {
                        expected: Type::Integer,
                        found: old(self)@.last().spec_type(),
                    })
                },
            },
    {
        let v = self.pop()?;
        v.try_into_integer()
    }

    /// The program's terminal value: the single stack entry at `f_stop`.
    pub fn full_stop_value(&self) -> (r: Result<&Value, RuntimeError>)
        ensures
            match r {
                Ok(v) => self@.len() == 1 && *v == self@[0],
                Err(e) => self@.len() != 1 && e == RuntimeError::StackNotSingleton,
            },
    {
        if self.0.len() == 1 {
            Ok(&self.0[0])
        } else {
            Err(RuntimeError::StackNotSingleton)
        }
    }

    /// Clones the value `idx` slots below the top and pushes the clone.
    pub fn copy_value(&mut self, idx: u16) -> (r: Result<(), RuntimeError>)
        ensures
            match r {
                Ok(()) => old(self)@.len() >= idx as int + 1 && final(self)@ == old(self)@.push(
                    old(self)@[old(self)@.len() - 1 - idx as int],
                ),
                Err(e) => old(self)@.len() < idx as int + 1 && final(self)@ == old(self)@ && e
                    == RuntimeError::OutOfBoundStackAccess,
            },
    {
        if (idx as usize) < self.0.len() {
            let slot = self.0.len() - 1 - idx as usize;
            let value = self.0[slot];
            self.0.push(value);
            Ok(())
        } else {
            Err(RuntimeError::OutOfBoundStackAccess)
        }
    }

    /// The value `idx` slots below the top, without popping it.
    pub fn get_at_offset(&self, idx: u16) -> (r: Result<&Value, RuntimeError>)
        ensures
            match r {
                Ok(v) => self@.len() >= idx as int + 1 && *v == self@[self@.len() - 1 - idx as int],
                Err(e) => self@.len() < idx as int + 1 && e
                    == RuntimeError::OutOfBoundStackAccess,
            },
    {
        if (idx as usize) < self.0.len() {
            Ok(&self.0[self.0.len() - 1 - idx as usize])
        } else {
            Err(RuntimeError::OutOfBoundStackAccess)
        }
    }

    /// The instruction pointer stored `idx` slots below the top.
    pub fn get_instruction_pointer_at_offset(&self, idx: u16) -> (r: Result<u32, RuntimeError>)
        ensures
            match r {
                Ok(ip) => self@.len() >= idx as int + 1 && self@[self@.len() - 1 - idx as int]
                    == Value::InstructionPointer(ip),
                Err(e) => if self@.len() < idx as int + 1 {
                    e == RuntimeError::OutOfBoundStackAccess
                } else {
                    !(self@[self@.len() - 1 - idx as int] is InstructionPointer) && e
                        == (RuntimeError::TypeMismatch {
                        expected: Type::InstructionPointer,
                        found: self@[self@.len() - 1 - idx as int].spec_type(),
                    })
                },
            },
    {
        let v = self.get_at_offset(idx)?;
        (*v).try_into_instruction_pointer()
    }

    /// Drops the topmost `count` slots.
    pub fn truncate(&mut self, count: u16) -> (r: Result<(), RuntimeError>)
        ensures
            match r {
                Ok(()) => count as int <= old(self)@.len() && final(self)@ == old(self)@.take(
                    old(self)@.len() - count as int,
                ),
                Err(e) => count as int > old(self)@.len() && final(self)@ == old(self)@ && e
                    == RuntimeError::OutOfBoundStackAccess,
            },
    {
        if (count as usize) <= self.0.len() {
            let keep = self.0.len() - count as usize;
            self.0.truncate(keep);
            Ok(())
        } else {
            Err(RuntimeError::OutOfBoundStackAccess)
        }
    }

    /// Overwrites the slot `offset` slots below the top (the top itself is
    /// offset 1) with `val`.
    pub fn replace(&mut self, offset: u16, val: Value) -> (r: Result<(), RuntimeError>)
        ensures
            match r {
                Ok(()) => 1 <= offset as int <= old(self)@.len() && final(self)@ == old(self)@.update(old(self)@.len() - offset as int, val),
                Err(e) => !(1 <= offset as int <= old(self)@.len()) && final(self)@ == old(self)@
                    && e == RuntimeError::OutOfBoundStackAccess,
            },
    {
        if 0 < (offset as usize) && (offset as usize) <= self.0.len() {
            let slot = self.0.len() - offset as usize;
            self.0[slot] = val;
            Ok(())
        } else {
            Err(RuntimeError::OutOfBoundStackAccess)
        }
    }
}

/// The live state of a run: the instruction pointer and the runtime stack.
#[derive(Clone, Debug, PartialEq)]
pub struct RunningInterpreterState {
    ip: u32,
    stack: Stack,
}

impl View for RunningInterpreterState {
    type V = VmState;

    closed spec fn view(&self) -> VmState {
        VmState { ip: self.ip as nat, stack: self.stack@ }
    }
}

impl RunningInterpreterState {
    pub fn new() -> (s: RunningInterpreterState)
        ensures
            s@ == VmState::init(),
    {
        let s = RunningInterpreterState { ip: 0, stack: Stack::new() };
        proof {
            assert(s@.stack =~= VmState::init().stack);
        }
        s
    }

    /// Advances the instruction pointer to the next instruction.
    pub fn continue_to_next(self) -> (s: RunningInterpreterState)
        requires
            self@.ip < u32::MAX,
        ensures
            s@ == (VmState { ip: self@.ip + 1, stack: self@.stack }),
    {
        RunningInterpreterState { ip: self.ip + 1, stack: self.stack }
    }

    /// Jumps to an absolute instruction index.
    pub fn continue_to(self, addr: u32) -> (s: RunningInterpreterState)
        ensures
            s@ == (VmState { ip: addr as nat, stack: self@.stack }),
    {
        RunningInterpreterState { ip: addr, stack: self.stack }
    }

    /// The current instruction pointer.
    pub fn ip(&self) -> (r: u32)
        ensures
            r as nat == self@.ip,
    {
        self.ip
    }

    /// The runtime stack.
    pub fn stack(&self) -> (r: &Stack)
        ensures
            r@ == self@.stack,
    {
        &self.stack
    }

    /// The runtime stack, for mutation.
    pub fn stack_mut(&mut self) -> (r: &mut Stack)
        ensures
            (*r)@ == old(self)@.stack,
            final(self)@.stack == (*final(r))@,
            final(self)@.ip == old(self)@.ip,
    {
        &mut self.stack
    }
}

// ---------------------------------------------------------------------------
// Small-step semantics
// ---------------------------------------------------------------------------

/// What one instruction does: go on at the next or a given instruction,
/// halt with the terminal value, or fail.
pub enum SpecStep {
    Continue(VmState),
    Stop(Value),
    Fail(RuntimeError),
}

/// The wrapping negation of an `i32`.
pub open spec fn wrap_neg_i32(x: i32) -> i32 {
    if x == i32::MIN {
        i32::MIN
    } else {
        (0 - x as int) as i32
    }
}

/// The meaning of one instruction on a machine state.
pub open spec fn spec_step_instr(i: Instruction, s: VmState) -> SpecStep {
    let len = s.stack.len() as int;
    match i {
        Instruction::PushI(op) => SpecStep::Continue(
            VmState { ip: s.ip + 1, stack: s.stack.push(Value::Integer(op.0)) },
        ),
        Instruction::AddI(_) => if len == 0 {
            SpecStep::Fail(RuntimeError::EmptyStack)
        } else if !(s.stack[len - 1] is Integer) {
            SpecStep::Fail(
                RuntimeError::TypeMismatch {
                    expected: Type::Integer,
                    found: s.stack[len - 1].spec_type(),
                },
            )
        } else if len == 1 {
            SpecStep::Fail(RuntimeError::EmptyStack)
        } else if !(s.stack[len - 2] is Integer) {
            SpecStep::Fail(
                RuntimeError::TypeMismatch {
                    expected: Type::Integer,
                    found: s.stack[len - 2].spec_type(),
                },
            )
        } else {
            let lhs = s.stack[len - 1]->Integer_0;
            let rhs = s.stack[len - 2]->Integer_0;
            SpecStep::Continue(
                VmState {
                    ip: s.ip + 1,
                    stack: s.stack.take(len - 2).push(
                        Value::Integer(vstd::wrapping::i32_specs::wrapping_add(lhs, rhs)),
                    ),
                },
            )
        },
        Instruction::Mul(_) => if len == 0 {
            SpecStep::Fail(RuntimeError::EmptyStack)
        } else if !(s.stack[len - 1] is Integer) {
            SpecStep::Fail(
                RuntimeError::TypeMismatch {
                    expected: Type::Integer,
                    found: s.stack[len - 1].spec_type(),
                },
            )
        } else if len == 1 {
            SpecStep::Fail(RuntimeError::EmptyStack)
        } else if !(s.stack[len - 2] is Integer) {
            SpecStep::Fail(
                RuntimeError::TypeMismatch {
                    expected: Type::Integer,
                    found: s.stack[len - 2].spec_type(),
                },
            )
        } else {
            let lhs = s.stack[len - 1]->Integer_0;
            let rhs = s.stack[len - 2]->Integer_0;
            SpecStep::Continue(
                VmState {
                    ip: s.ip + 1,
                    stack: s.stack.take(len - 2).push(
                        Value::Integer(vstd::wrapping::i32_specs::wrapping_mul(lhs, rhs)),
                    ),
                },
            )
        },
        Instruction::FStop(_) => if len == 1 {
            SpecStep::Stop(s.stack[0])
        } else {
            SpecStep::Fail(RuntimeError::StackNotSingleton)
        },
        Instruction::PushCopy(op) => if len >= op.0 as int + 1 {
            SpecStep::Continue(
                VmState { ip: s.ip + 1, stack: s.stack.push(s.stack[len - 1 - op.0 as int]) },
            )
        } else {
            SpecStep::Fail(RuntimeError::OutOfBoundStackAccess)
        },
        Instruction::Call(op) => SpecStep::Continue(
            VmState {
                ip: op.0 as nat,
                stack: s.stack.push(Value::InstructionPointer(((s.ip + 1) as u32))),
            },
        ),
        Instruction::Ret(op) => if len < op.ip_offset as int + 1 {
            SpecStep::Fail(RuntimeError::OutOfBoundStackAccess)
        } else if !(s.stack[len - 1 - op.ip_offset as int] is InstructionPointer) {
            SpecStep::Fail(
                RuntimeError::TypeMismatch {
                    expected: Type::InstructionPointer,
                    found: s.stack[len - 1 - op.ip_offset as int].spec_type(),
                },
            )
        } else if op.shrink_offset as int > len {
            SpecStep::Fail(RuntimeError::OutOfBoundStackAccess)
        } else {
            SpecStep::Continue(
                VmState {
                    ip: s.stack[len - 1 - op.ip_offset as int]->InstructionPointer_0 as nat,
                    stack: s.stack.take(len - op.shrink_offset as int),
                },
            )
        },
        Instruction::ResV(op) => SpecStep::Continue(
            VmState {
                ip: s.ip + 1,
                stack: s.stack + Seq::new(op.0 as nat, |k: int| Value::Integer(0)),
            },
        ),
        Instruction::PopCopy(op) => if len == 0 {
            SpecStep::Fail(RuntimeError::EmptyStack)
        } else if !(1 <= op.0 as int && op.0 as int <= len - 1) {
            SpecStep::Fail(RuntimeError::OutOfBoundStackAccess)
        } else {
            SpecStep::Continue(
                VmState {
                    ip: s.ip + 1,
                    stack: s.stack.drop_last().update(len - 1 - op.0 as int, s.stack[len - 1]),
                },
            )
        },
        Instruction::Goto(op) => SpecStep::Continue(VmState { ip: op.0 as nat, stack: s.stack }),
        Instruction::CondJmp(op) => if len == 0 {
            SpecStep::Fail(RuntimeError::EmptyStack)
        } else if !(s.stack[len - 1] is Integer) {
            SpecStep::Fail(
                RuntimeError::TypeMismatch {
                    expected: Type::Integer,
                    found: s.stack[len - 1].spec_type(),
                },
            )
        } else {
            let v = s.stack[len - 1]->Integer_0;
            let target = if v < 0 {
                op.negative_addr
            } else if v == 0 {
                op.null_addr
            } else {
                op.positive_addr
            };
            SpecStep::Continue(VmState { ip: target as nat, stack: s.stack.drop_last() })
        },
        Instruction::Neg(_) => if len == 0 {
            SpecStep::Fail(RuntimeError::EmptyStack)
        } else if !(s.stack[len - 1] is Integer) {
            SpecStep::Fail(
                RuntimeError::TypeMismatch {
                    expected: Type::Integer,
                    found: s.stack[len - 1].spec_type(),
                },
            )
        } else {
            let v = s.stack[len - 1]->Integer_0;
            SpecStep::Continue(
                VmState {
                    ip: s.ip + 1,
                    stack: s.stack.drop_last().push(Value::Integer(wrap_neg_i32(v))),
                },
            )
        },
        Instruction::Pop(op) => if op.0 as int <= len {
            SpecStep::Continue(VmState { ip: s.ip + 1, stack: s.stack.take(len - op.0 as int) })
        } else {
            SpecStep::Fail(RuntimeError::OutOfBoundStackAccess)
        },
    }
}

/// One step of the whole machine: fetch the instruction under the
/// instruction pointer and run it.
pub open spec fn spec_step(code: Seq<Instruction>, s: VmState) -> SpecStep {
    if s.ip >= code.len() {
        SpecStep::Fail(RuntimeError::OutOfBoundInstructionAccess)
    } else {
        spec_step_instr(code[s.ip as int], s)
    }
}

/// Where a run stands after at most `fuel` steps.
pub enum SpecRun {
    Running(VmState),
    Stopped(Value),
    Failed(RuntimeError),
}

/// Runs the machine for at most `fuel` steps from state `s`.
pub open spec fn spec_run(code: Seq<Instruction>, s: VmState, fuel: nat) -> SpecRun
    decreases fuel,
{
    if fuel == 0 {
        SpecRun::Running(s)
    } else {
        match spec_step(code, s) {
            SpecStep::Continue(s2) => spec_run(code, s2, (fuel - 1) as nat),
            SpecStep::Stop(v) => SpecRun::Stopped(v),
            SpecStep::Fail(e) => SpecRun::Failed(e),
        }
    }
}

/// The result a run reports for a given final standing.
pub open spec fn run_outcome(r: SpecRun) -> Result<Value, RuntimeError> {
    match r {
        SpecRun::Stopped(v) => Ok(v),
        SpecRun::Failed(e) => Err(e),
        SpecRun::Running(_) => Err(RuntimeError::StepLimitExceeded),
    }
}

// ---------------------------------------------------------------------------
// Executing one instruction
// ---------------------------------------------------------------------------

/// What one executed instruction asks the interpreter loop to do.
pub enum RunStatus {
    Continue(RunningInterpreterState),
    Stop(Value),
}

/// Whether the outcome of one executed instruction agrees with the
/// small-step semantics.
pub open spec fn step_matches(r: Result<RunStatus, RuntimeError>, s: SpecStep) -> bool {
    match s {
        SpecStep::Continue(s2) => r matches Ok(RunStatus::Continue(st)) && st@ == s2,
        SpecStep::Stop(v) => r matches Ok(RunStatus::Stop(w)) && w == v,
        SpecStep::Fail(e) => r matches Err(e2) && e2 == e,
    }
}

impl PushI {
    pub fn run(self, state: RunningInterpreterState) -> (r: Result<RunStatus, RuntimeError>)
        requires
            state@.ip < u32::MAX,
        ensures
            step_matches(r, spec_step_instr(Instruction::PushI(self), state@)),
    {
        let mut state = state;
        state.stack_mut().push_integer(self.0);
        Ok(RunStatus::Continue(state.continue_to_next()))
    }
}

impl AddI {
    pub fn run(self, state: RunningInterpreterState) -> (r: Result<RunStatus, RuntimeError>)
        requires
            state@.ip < u32::MAX,
        ensures
            step_matches(r, spec_step_instr(Instruction::AddI(self), state@)),
    {
        let ghost s0 = state@;
        let mut state = state;
        let lhs = state.stack_mut().pop_integer()?;
        let rhs = state.stack_mut().pop_integer()?;
        state.stack_mut().push_integer(lhs.wrapping_add(rhs));
        proof {
            assert(s0.stack.drop_last().drop_last() =~= s0.stack.take(s0.stack.len() - 2));
        }
        Ok(RunStatus::Continue(state.continue_to_next()))
    }
}

impl Mul {
    pub fn run(self, state: RunningInterpreterState) -> (r: Result<RunStatus, RuntimeError>)
        requires
            state@.ip < u32::MAX,
        ensures
            step_matches(r, spec_step_instr(Instruction::Mul(self), state@)),
    {
        let ghost s0 = state@;
        let mut state = state;
        let lhs = state.stack_mut().pop_integer()?;
        let rhs = state.stack_mut().pop_integer()?;
        state.stack_mut().push_integer(lhs.wrapping_mul(rhs));
        proof {
            assert(s0.stack.drop_last().drop_last() =~= s0.stack.take(s0.stack.len() - 2));
        }
        Ok(RunStatus::Continue(state.continue_to_next()))
    }
}

impl FStop {
    pub fn run(self, state: RunningInterpreterState) -> (r: Result<RunStatus, RuntimeError>)
        ensures
            step_matches(r, spec_step_instr(Instruction::FStop(self), state@)),
    {
        let final_value = *state.stack().full_stop_value()?;
        Ok(RunStatus::Stop(final_value))
    }
}

impl PushCopy {
    pub fn run(self, state: RunningInterpreterState) -> (r: Result<RunStatus, RuntimeError>)
        requires
            state@.ip < u32::MAX,
        ensures
            step_matches(r, spec_step_instr(Instruction::PushCopy(self), state@)),
    {
        let mut state = state;
        state.stack_mut().copy_value(self.0)?;
        Ok(RunStatus::Continue(state.continue_to_next()))
    }
}

impl Call {
    pub fn run(self, state: RunningInterpreterState) -> (r: Result<RunStatus, RuntimeError>)
        requires
            state@.ip < u32::MAX,
        ensures
            step_matches(r, spec_step_instr(Instruction::Call(self), state@)),
    {
        let jump_addr = self.0;
        let next_addr = state.ip() + 1;
        let mut state = state;
        state.stack_mut().push_instruction_pointer(next_addr);
        Ok(RunStatus::Continue(state.continue_to(jump_addr)))
    }
}

impl Ret {
    pub fn run(self, state: RunningInterpreterState) -> (r: Result<RunStatus, RuntimeError>)
        ensures
            step_matches(r, spec_step_instr(Instruction::Ret(self), state@)),
    {
        let initial_offset = state.stack().get_instruction_pointer_at_offset(self.ip_offset)?;
        let mut state = state;
        state.stack_mut().truncate(self.shrink_offset)?;
        Ok(RunStatus::Continue(state.continue_to(initial_offset)))
    }
}

impl ResV {
    pub fn run(self, state: RunningInterpreterState) -> (r: Result<RunStatus, RuntimeError>)
        requires
            state@.ip < u32::MAX,
        ensures
            step_matches(r, spec_step_instr(Instruction::ResV(self), state@)),
    {
        let ResV(offset) = self;
        let ghost s0 = state@;
        let mut state = state;
        let mut k: u16 = 0;
        while k < offset
            invariant
                k <= offset,
                state@.ip == s0.ip,
                state@.stack == s0.stack + Seq::new(k as nat, |j: int| Value::Integer(0)),
            decreases offset - k,
        {
            state.stack_mut().push_integer(0);
            proof {
                assert(s0.stack + Seq::new((k + 1) as nat, |j: int| Value::Integer(0)) =~= (
                s0.stack + Seq::new(k as nat, |j: int| Value::Integer(0))).push(
                    Value::Integer(0),
                ));
            }
            k = k + 1;
        }
        Ok(RunStatus::Continue(state.continue_to_next()))
    }
}

impl PopCopy {
    pub fn run(self, state: RunningInterpreterState) -> (r: Result<RunStatus, RuntimeError>)
        requires
            state@.ip < u32::MAX,
        ensures
            step_matches(r, spec_step_instr(Instruction::PopCopy(self), state@)),
    {
        let PopCopy(offset) = self;
        let mut state = state;
        let v = state.stack_mut().pop()?;
        state.stack_mut().replace(offset, v)?;
        Ok(RunStatus::Continue(state.continue_to_next()))
    }
}

impl Goto {
    pub fn run(self, state: RunningInterpreterState) -> (r: Result<RunStatus, RuntimeError>)
        ensures
            step_matches(r, spec_step_instr(Instruction::Goto(self), state@)),
    {
        let dest = self.0;
        Ok(RunStatus::Continue(state.continue_to(dest)))
    }
}

impl CondJmp {
    pub fn run(self, state: RunningInterpreterState) -> (r: Result<RunStatus, RuntimeError>)
        ensures
            step_matches(r, spec_step_instr(Instruction::CondJmp(self), state@)),
    {
        let mut state = state;
        let i = state.stack_mut().pop_integer()?;
        let target = if i < 0 {
            self.negative_addr
        } else if i == 0 {
            self.null_addr
        } else {
            self.positive_addr
        };
        Ok(RunStatus::Continue(state.continue_to(target)))
    }
}

impl Neg {
    pub fn run(self, state: RunningInterpreterState) -> (r: Result<RunStatus, RuntimeError>)
        requires
            state@.ip < u32::MAX,
        ensures
            step_matches(r, spec_step_instr(Instruction::Neg(self), state@)),
    {
        let mut state = state;
        let i = state.stack_mut().pop_integer()?;
        let negated: i32 = if i == i32::MIN {
            i32::MIN
        } else {
            -i
        };
        state.stack_mut().push_integer(negated);
        Ok(RunStatus::Continue(state.continue_to_next()))
    }
}

impl Pop {
    pub fn run(self, state: RunningInterpreterState) -> (r: Result<RunStatus, RuntimeError>)
        requires
            state@.ip < u32::MAX,
        ensures
            step_matches(r, spec_step_instr(Instruction::Pop(self), state@)),
    {
        let mut state = state;
        state.stack_mut().truncate(self.0)?;
        Ok(RunStatus::Continue(state.continue_to_next()))
    }
}

// ---------------------------------------------------------------------------
// The interpreter
// ---------------------------------------------------------------------------

/// A machine loaded with a program.
pub struct Interpreter {
    code: Vec<Instruction>,
}

impl View for Interpreter {
    type V = Seq<Instruction>;

    closed spec fn view(&self) -> Seq<Instruction> {
        self.code@
    }
}

impl Interpreter {
    /// Loads a machine from an encoded byte stream; a failure names the
    /// byte offset of the instruction it struck.
    pub fn from_bytecode(code: &[u8]) -> (r: Result<Interpreter, StreamDecodingError>)
        ensures
            match r {
                Ok(it) => spec_decode_all(code@) == Some(it@),
                Err(e) => spec_decode_all(code@) is None && e.error == spec_decode_all_err(
                    code@,
                ) && e.offset == spec_decode_all_err_offset(code@),
            },
    {
        let instructions = Instruction::from_bytes(code)?;
        Ok(Interpreter::from_instructions(instructions))
    }

    /// Loads a machine from a decoded instruction list.
    pub fn from_instructions(code: Vec<Instruction>) -> (r: Interpreter)
        ensures
            r@ == code@,
    {
        Interpreter { code }
    }

    /// Executes the instruction under the instruction pointer.
    pub fn run_single(&self, state: RunningInterpreterState) -> (r: Result<
        RunStatus,
        RuntimeError,
    >)
        requires
            self@.len() <= u32::MAX,
        ensures
            step_matches(r, spec_step(self@, state@)),
    {
        if state.ip() as usize >= self.code.len() {
            return Err(RuntimeError::OutOfBoundInstructionAccess);
        }
        let instr = self.code[state.ip() as usize];
        match instr {
            Instruction::PushI(op) => op.run(state),
            Instruction::AddI(op) => op.run(state),
            Instruction::FStop(op) => op.run(state),
            Instruction::PushCopy(op) => op.run(state),
            Instruction::Call(op) => op.run(state),
            Instruction::Ret(op) => op.run(state),
            Instruction::ResV(op) => op.run(state),
            Instruction::PopCopy(op) => op.run(state),
            Instruction::Goto(op) => op.run(state),
            Instruction::CondJmp(op) => op.run(state),
            Instruction::Neg(op) => op.run(state),
            Instruction::Mul(op) => op.run(state),
            Instruction::Pop(op) => op.run(state),
        }
    }

    /// Runs the machine from instruction 0 on an empty stack until it halts
    /// at `f_stop` or fails.  The step budget of `u64::MAX` steps exists to
    /// bound the loop; a run of the language's programs never reaches it.
    pub fn run(&self) -> (r: Result<Value, RuntimeError>)
        requires
            self@.len() <= u32::MAX,
        ensures
            r == run_outcome(spec_run(self@, VmState::init(), u64::MAX as nat)),
    {
        let mut state = RunningInterpreterState::new();
        let mut steps: u64 = 0;
        while steps < u64::MAX
            invariant
                self@.len() <= u32::MAX,
                steps <= u64::MAX,
                spec_run(self@, VmState::init(), u64::MAX as nat) == spec_run(
                    self@,
                    state@,
                    (u64::MAX - steps) as nat,
                ),
            decreases u64::MAX - steps,
        {
            let ghost fuel = (u64::MAX - steps) as nat;
            match self.run_single(state) {
                Ok(RunStatus::Continue(next_state)) => {
                    proof {
                        assert(spec_run(self@, state@, fuel) == spec_run(
                            self@,
                            next_state@,
                            (fuel - 1) as nat,
                        ));
                    }
                    state = next_state;
                    steps = steps + 1;
                },
                Ok(RunStatus::Stop(v)) => {
                    proof {
                        assert(spec_run(self@, state@, fuel) == SpecRun::Stopped(v));
                    }
                    return Ok(v);
                },
                Err(e) => {
                    proof {
                        assert(spec_run(self@, state@, fuel) == SpecRun::Failed(e));
                    }
                    return Err(e);
                },
            }
        }
        assert(spec_run(self@, state@, 0) == SpecRun::Running(state@));
        Err(RuntimeError::StepLimitExceeded)
    }
}

} // verus!
