//! Tests of the stack machine: instruction-list construction, execution of
//! small programs, and the runtime failure modes.

use dyl::codec::Instruction;
use dyl::interpreter::Interpreter;
use dyl::value::{RuntimeError, Type, Value};

fn run(instrs: Vec<Instruction>) -> Result<Value, RuntimeError> {
    Interpreter::from_instructions(instrs).run()
}

#[test]
fn push_i() {
    assert_eq!(
        vec![Instruction::push_i(42), Instruction::push_i(101)],
        [Instruction::push_i(42), Instruction::push_i(101)],
    )
}

#[test]
fn add_i() {
    assert_eq!(vec![Instruction::add_i()], [Instruction::add_i()],)
}

#[test]
fn f_stop() {
    assert_eq!(vec![Instruction::f_stop()], [Instruction::f_stop()],)
}

#[test]
fn push_c() {
    assert_eq!(
        vec![Instruction::push_cpy(2), Instruction::push_cpy(4)],
        [Instruction::push_cpy(2), Instruction::push_cpy(4)],
    )
}

#[test]
fn call_earlier_defined() {
    // a label defined at the instruction itself resolves to its own index
    assert_eq!(vec![Instruction::call(0)], [Instruction::call(0)]);

    assert_eq!(
        vec![
            Instruction::add_i(),
            Instruction::add_i(),
            Instruction::call(2),
        ],
        [
            Instruction::add_i(),
            Instruction::add_i(),
            Instruction::call(2),
        ],
    );
}

#[test]
fn call_later_defined() {
    // a label defined after the call resolves to the next free index
    assert_eq!(vec![Instruction::call(1)], [Instruction::call(1)]);

    assert_eq!(
        vec![
            Instruction::call(3),
            Instruction::add_i(),
            Instruction::add_i(),
        ],
        [
            Instruction::call(3),
            Instruction::add_i(),
            Instruction::add_i(),
        ],
    );
}

#[test]
fn ret() {
    assert_eq!(vec![Instruction::ret(1, 4)], [Instruction::ret(1, 4)],);
}

#[test]
fn res_v() {
    assert_eq!(vec![Instruction::res_v(32)], [Instruction::res_v(32)],)
}

#[test]
fn pop_cpy() {
    assert_eq!(vec![Instruction::pop_cpy(3)], [Instruction::pop_cpy(3)],)
}

#[test]
fn push_i_simple() {
    let rslt = run(vec![Instruction::push_i(42), Instruction::f_stop()]);
    assert_eq!(rslt.unwrap(), Value::Integer(42));
}

#[test]
fn add_i_simple() {
    let rslt = run(vec![
        Instruction::push_i(40),
        Instruction::push_i(1),
        Instruction::push_i(1),
        Instruction::add_i(),
        Instruction::add_i(),
        Instruction::f_stop(),
    ]);
    assert_eq!(rslt.unwrap(), Value::Integer(42));
}

#[test]
fn function_simple() {
    let rslt = run(vec![
        Instruction::res_v(1),
        Instruction::push_i(41),
        Instruction::call(4),
        Instruction::f_stop(),
        // ADD_1:
        Instruction::push_cpy(1),
        Instruction::push_i(1),
        Instruction::add_i(),
        Instruction::pop_cpy(3),
        Instruction::ret(0, 2),
    ]);
    assert_eq!(rslt.unwrap(), Value::Integer(42));
}

#[test]
fn goto_simple() {
    let rslt = run(vec![
        Instruction::goto(3),
        // PREV:
        Instruction::push_i(42),
        Instruction::f_stop(),
        // NEXT:
        Instruction::goto(1),
    ]);
    assert_eq!(rslt.unwrap(), Value::Integer(42));
}

#[test]
fn mul_simple() {
    let rslt = run(vec![
        Instruction::push_i(6),
        Instruction::push_i(7),
        Instruction::mul(),
        Instruction::f_stop(),
    ]);
    assert_eq!(rslt.unwrap(), Value::Integer(42));
}

#[test]
fn neg_simple() {
    let rslt = run(vec![
        Instruction::push_i(-42),
        Instruction::neg(),
        Instruction::f_stop(),
    ]);
    assert_eq!(rslt.unwrap(), Value::Integer(42));
}

#[test]
fn pop_drops_slots() {
    let rslt = run(vec![
        Instruction::push_i(42),
        Instruction::push_i(1),
        Instruction::push_i(2),
        Instruction::pop(2),
        Instruction::f_stop(),
    ]);
    assert_eq!(rslt.unwrap(), Value::Integer(42));
}

#[test]
fn cond_jmp_selects_null_arm() {
    let rslt = run(vec![
        Instruction::push_i(0),
        Instruction::cond_jmp(2, 4, 2),
        // positive / negative arm
        Instruction::push_i(-1),
        Instruction::f_stop(),
        // null arm
        Instruction::push_i(42),
        Instruction::f_stop(),
    ]);
    assert_eq!(rslt.unwrap(), Value::Integer(42));
}

#[test]
fn cond_jmp_selects_negative_arm() {
    let rslt = run(vec![
        Instruction::push_i(-7),
        Instruction::cond_jmp(4, 2, 2),
        Instruction::push_i(-1),
        Instruction::f_stop(),
        Instruction::push_i(42),
        Instruction::f_stop(),
    ]);
    assert_eq!(rslt.unwrap(), Value::Integer(42));
}

#[test]
fn add_wraps_around() {
    let rslt = run(vec![
        Instruction::push_i(1),
        Instruction::push_i(i32::MAX),
        Instruction::add_i(),
        Instruction::f_stop(),
    ]);
    assert_eq!(rslt.unwrap(), Value::Integer(i32::MIN));
}

#[test]
fn empty_stack_error() {
    let rslt = run(vec![Instruction::add_i()]);
    assert_eq!(rslt.unwrap_err(), RuntimeError::EmptyStack);
}

#[test]
fn stack_not_singleton_error() {
    let rslt = run(vec![
        Instruction::push_i(1),
        Instruction::push_i(2),
        Instruction::f_stop(),
    ]);
    assert_eq!(rslt.unwrap_err(), RuntimeError::StackNotSingleton);
    let rslt = run(vec![Instruction::f_stop()]);
    assert_eq!(rslt.unwrap_err(), RuntimeError::StackNotSingleton);
}

#[test]
fn out_of_bound_stack_error() {
    let rslt = run(vec![Instruction::push_i(1), Instruction::push_cpy(1)]);
    assert_eq!(rslt.unwrap_err(), RuntimeError::OutOfBoundStackAccess);
}

#[test]
fn type_mismatch_error() {
    // `add_i` finds a return address where it expects an integer
    let rslt = run(vec![
        Instruction::push_i(1),
        Instruction::call(2),
        Instruction::add_i(),
    ]);
    assert_eq!(
        rslt.unwrap_err(),
        RuntimeError::TypeMismatch {
            expected: Type::Integer,
            found: Type::InstructionPointer,
        }
    );
}

#[test]
fn instruction_pointer_leaves_program() {
    let rslt = run(vec![Instruction::push_i(1)]);
    assert_eq!(rslt.unwrap_err(), RuntimeError::OutOfBoundInstructionAccess);
}

#[test]
fn from_bytecode_runs_decoded_stream() {
    let bytes = vec![
        0, 0, 0, 0, 42, // push_i 42
        2,   // f_stop
    ];
    let rslt = Interpreter::from_bytecode(&bytes).unwrap().run();
    assert_eq!(rslt.unwrap(), Value::Integer(42));
}

#[test]
fn value_accessors() {
    assert_eq!(Value::Integer(3).type_(), Type::Integer);
    assert_eq!(Value::InstructionPointer(3).type_(), Type::InstructionPointer);
    assert_eq!(Value::Integer(3).try_into_integer().unwrap(), 3);
    assert!(Value::Integer(3).try_into_instruction_pointer().is_err());
    assert!(Value::InstructionPointer(3).is_instruction_pointer());
    assert!(!Value::Integer(3).is_instruction_pointer());
}

#[test]
fn ret_requires_instruction_pointer() {
    let rslt = run(vec![Instruction::push_i(1), Instruction::ret(0, 0)]);
    assert_eq!(
        rslt.unwrap_err(),
        RuntimeError::TypeMismatch {
            expected: Type::InstructionPointer,
            found: Type::Integer,
        }
    );
}

#[test]
fn pop_copy_rejects_zero_offset() {
    let rslt = run(vec![Instruction::push_i(1), Instruction::pop_cpy(0)]);
    assert_eq!(rslt.unwrap_err(), RuntimeError::OutOfBoundStackAccess);
}

#[test]
fn res_v_zero_is_a_no_op() {
    let rslt = run(vec![
        Instruction::res_v(0),
        Instruction::push_i(42),
        Instruction::f_stop(),
    ]);
    assert_eq!(rslt.unwrap(), Value::Integer(42));
}

#[test]
fn from_bytecode_names_failure_offset() {
    // add_i, then a truncated push_i: the failure names byte offset 1
    let bytes = vec![1, 0, 0];
    let failure = match Interpreter::from_bytecode(&bytes) {
        Err(failure) => failure,
        Ok(_) => panic!("a truncated stream decoded"),
    };
    assert_eq!(failure.offset, 1);
    assert_eq!(failure.error, dyl::codec::DecodingError::UnexpectedEof);
}
