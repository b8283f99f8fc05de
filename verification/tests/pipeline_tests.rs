//! End-to-end tests: source text compiled, encoded, decoded and executed.

use dyl::codec::Instruction;
use dyl::interpreter::Interpreter;
use dyl::pipeline::{bytecode_from_program, compile};
use dyl::value::Value;

fn run_source(src: &str) -> Value {
    let instrs = bytecode_from_program(src).unwrap();
    Interpreter::from_instructions(instrs).run().unwrap()
}

fn run_compiled_bytes(src: &str) -> Value {
    let bytes = compile(src).unwrap();
    Interpreter::from_bytecode(&bytes).unwrap().run().unwrap()
}

// Parses, lowers, resolves and runs without the type checker: the lowering
// and the machine accept an integer condition (it lowers to a 0-or-1 test),
// even though the type checker asks for `bool` there.
fn run_unchecked(src: &str) -> Value {
    let (ctxt, ast) = dyl::parser::parse_input(src).unwrap();
    let ctxt = ctxt.into_lowering_context();
    let (ctxt, instrs) = dyl::lowering::lower_ast(&ast, ctxt).unwrap();
    let resolved = dyl::lowering::resolve_context(&instrs, &ctxt).unwrap();
    Interpreter::from_instructions(resolved).run().unwrap()
}

#[test]
fn run_literal() {
    assert_eq!(run_source("fn main() { 42 }"), Value::Integer(42));
}

#[test]
fn run_chained_addition() {
    assert_eq!(run_source("fn main() { 40 + 1 + 1 }"), Value::Integer(42));
}

#[test]
fn run_priority() {
    assert_eq!(run_source("fn main() { 10 * 4 + 2 }"), Value::Integer(42));
}

#[test]
fn run_conditional() {
    assert_eq!(
        run_unchecked("fn main() { if 1 { 42 } else { -1 } }"),
        Value::Integer(42)
    );
}

#[test]
fn run_bindings() {
    assert_eq!(
        run_source("fn main() { let a = 40; let b = 2; a + b }"),
        Value::Integer(42)
    );
}

#[test]
fn run_subtraction() {
    assert_eq!(run_source("fn main() { 43 - 1 }"), Value::Integer(42));
}

#[test]
fn run_conditional_false_branch() {
    assert_eq!(
        run_unchecked("fn main() { if 0 { -1 } else { 42 } }"),
        Value::Integer(42)
    );
}

#[test]
fn run_boolean_condition() {
    assert_eq!(
        run_source("fn main() { if true { 42 } else { 0 } }"),
        Value::Integer(42)
    );
}

#[test]
fn run_nested_blocks_and_shadowing() {
    assert_eq!(
        run_source("fn main() { let a = 1; let a = 41; a + 1 }"),
        Value::Integer(42)
    );
}

#[test]
fn compiled_bytes_round_trip() {
    assert_eq!(
        run_compiled_bytes("fn main() { let a = 40; if true { a + 2 } else { 0 } }"),
        Value::Integer(42)
    );
}

#[test]
fn push_i_encoding_is_pinned() {
    let mut bytes = Vec::new();
    Instruction::push_i(42).encode(&mut bytes);
    assert_eq!(bytes, [0, 0, 0, 0, 42]);
}

#[test]
fn cond_jmp_encoding_is_pinned() {
    let mut bytes = Vec::new();
    Instruction::cond_jmp(101, 69, 13).encode(&mut bytes);
    assert_eq!(bytes, [9, 0, 0, 0, 101, 0, 0, 0, 69, 0, 0, 0, 13]);
}

#[test]
fn compile_emits_decodable_bytes() {
    let bytes = compile("fn main() { 42 }").unwrap();
    let instrs = Instruction::from_bytes(&bytes).unwrap();
    assert_eq!(instrs, vec![Instruction::push_i(42), Instruction::f_stop()]);
}

#[test]
fn compile_rejects_parse_error() {
    assert!(compile("fn main() {").is_err());
    assert!(compile("}{").is_err());
}

#[test]
fn compile_rejects_type_error() {
    assert!(compile("fn main() { true }").is_err());
    assert!(compile("fn main() { 1 + true }").is_err());
    assert!(compile("fn main() { if 1 { 2 } else { 3 } }").is_err());
}

#[test]
fn compile_rejects_missing_main() {
    assert!(compile("fn other() { 42 }").is_err());
}

#[test]
fn compile_rejects_unknown_variable() {
    assert!(compile("fn main() { unknown }").is_err());
}

#[test]
fn compile_counts_recovered_errors() {
    let e = compile("fn main() { let a 40; let b = 2 a + b }").unwrap_err();
    assert!(e.0 >= 1);
}

#[test]
fn secondary_functions_are_lowered_after_main() {
    let instrs = bytecode_from_program("fn zzz() { 7 } fn main() { 42 }").unwrap();
    assert_eq!(instrs[0], Instruction::push_i(42));
    assert_eq!(instrs[1], Instruction::f_stop());
    // the other function's code follows, ending in its epilogue
    assert_eq!(instrs[2], Instruction::push_i(7));
    assert_eq!(instrs[3], Instruction::pop_cpy(1));
    assert_eq!(instrs[4], Instruction::ret(0, 0));
}

#[test]
fn compile_program_reports_diagnostics() {
    let failure = dyl::pipeline::compile_program("fn main() { undefined }").unwrap_err();
    assert_eq!(failure.error, dyl::context::CompilerPassError(2));
    assert_eq!(
        failure.diagnostics,
        "Undefined variable `undefined`\n`main` function must return `int`\n"
    );
}

#[test]
fn compile_program_reports_missing_main() {
    let failure = dyl::pipeline::compile_program("fn other() { 42 }").unwrap_err();
    assert_eq!(failure.diagnostics, "No `main` function found\n");
}
