//! Tests of the instruction codec: exact encodings, the opcode table, and
//! the round trip between instructions and bytes.

use dyl::codec::{DecodingError, Instruction};

fn encode(instr: Instruction) -> Vec<u8> {
    let mut tmp = Vec::new();
    instr.encode(&mut tmp);
    tmp
}

#[test]
fn encode_instructions_simple() {
    let instructions = vec![
        Instruction::push_i(42),
        Instruction::push_i(101),
        Instruction::add_i(),
    ];

    let left = Instruction::encode_multiple(&instructions);
    let right = [
        0, 0, 0, 0, 42, // push_i 42
        0, 0, 0, 0, 101, // push_i 101
        1,   // add_i
    ];
    assert_eq!(left, right);
}

#[test]
fn decoder_id_matches_operation_id() {
    // decoding a stream whose first byte is the identifier of an opcode
    // yields an instruction of exactly that kind
    let cases: Vec<(Vec<u8>, Instruction)> = vec![
        (vec![0, 0, 0, 0, 42], Instruction::push_i(42)),
        (vec![1], Instruction::add_i()),
        (vec![2], Instruction::f_stop()),
        (vec![3, 0, 7], Instruction::push_cpy(7)),
        (vec![4, 0, 0, 0, 9], Instruction::call(9)),
        (vec![5, 0, 2, 0, 4], Instruction::ret(4, 2)),
        (vec![6, 0, 22], Instruction::res_v(22)),
        (vec![7, 0, 32], Instruction::pop_cpy(32)),
        (vec![8, 0, 0, 1, 188], Instruction::goto(444)),
        (
            vec![9, 0, 0, 0, 101, 0, 0, 0, 69, 0, 0, 0, 13],
            Instruction::cond_jmp(101, 69, 13),
        ),
        (vec![10], Instruction::neg()),
        (vec![11], Instruction::mul()),
        (vec![12, 0, 5], Instruction::pop(5)),
    ];
    for (id, (bytes, expected)) in cases.into_iter().enumerate() {
        assert_eq!(bytes[0] as usize, id);
        let (instr, consumed, tail) = Instruction::decode(&bytes).unwrap();
        assert_eq!(instr, expected);
        assert_eq!(consumed, bytes.len());
        assert!(tail.is_empty());
    }
}

#[test]
fn operations_encoding() {
    assert_eq!(encode(Instruction::push_i(42)), [0, 0, 0, 0, 42]);
    assert_eq!(encode(Instruction::add_i()), [1]);
    assert_eq!(encode(Instruction::f_stop()), [2]);
    assert_eq!(encode(Instruction::push_cpy(300)), [3, 1, 44]);
    assert_eq!(encode(Instruction::call(247)), [4, 0, 0, 0, 247]);
    assert_eq!(encode(Instruction::ret(4, 2)), [5, 0, 2, 0, 4]);
    assert_eq!(encode(Instruction::res_v(22)), [6, 0, 22]);
    assert_eq!(encode(Instruction::pop_cpy(32)), [7, 0, 32]);
    assert_eq!(encode(Instruction::goto(444)), [8, 0, 0, 1, 188]);
    assert_eq!(
        encode(Instruction::cond_jmp(101, 69, 13)),
        [9, 0, 0, 0, 101, 0, 0, 0, 69, 0, 0, 0, 13]
    );
    assert_eq!(encode(Instruction::neg()), [10]);
    assert_eq!(encode(Instruction::mul()), [11]);
    assert_eq!(encode(Instruction::pop(5)), [12, 0, 5]);
}

#[test]
fn operations_round_trip() {
    let samples = vec![
        Instruction::push_i(42),
        Instruction::push_i(-1),
        Instruction::push_i(i32::MIN),
        Instruction::add_i(),
        Instruction::f_stop(),
        Instruction::push_cpy(300),
        Instruction::call(u32::MAX),
        Instruction::ret(4, 2),
        Instruction::res_v(101),
        Instruction::pop_cpy(13),
        Instruction::goto(10),
        Instruction::cond_jmp(101, 69, 42),
        Instruction::neg(),
        Instruction::mul(),
        Instruction::pop(0),
    ];
    for instr in samples.iter() {
        let bytes = encode(*instr);
        let (decoded, consumed, tail) = Instruction::decode(&bytes).unwrap();
        assert_eq!(decoded, *instr);
        assert_eq!(consumed, bytes.len());
        assert!(tail.is_empty());
        // and back again
        assert_eq!(encode(decoded), bytes);
    }
}

#[test]
fn from_bytes_whole_stream() {
    let bytes = vec![
        0, 0, 0, 0, 42, // push_i 42
        2,   // f_stop
    ];
    let instrs = Instruction::from_bytes(&bytes).unwrap();
    assert_eq!(instrs, vec![Instruction::push_i(42), Instruction::f_stop()]);
}

#[test]
fn from_bytes_round_trips_encode_multiple() {
    let instrs = vec![
        Instruction::res_v(1),
        Instruction::push_i(41),
        Instruction::call(4),
        Instruction::f_stop(),
        Instruction::cond_jmp(1, 2, 3),
    ];
    let bytes = Instruction::encode_multiple(&instrs);
    assert_eq!(Instruction::from_bytes(&bytes).unwrap(), instrs);
}

#[test]
fn decode_unknown_opcode() {
    let bytes = vec![13, 0, 0];
    assert_eq!(
        Instruction::decode(&bytes).unwrap_err(),
        DecodingError::UnknownOpcode(13)
    );
    let bytes = vec![255];
    assert_eq!(
        Instruction::decode(&bytes).unwrap_err(),
        DecodingError::UnknownOpcode(255)
    );
}

#[test]
fn decode_unexpected_eof() {
    let empty: Vec<u8> = vec![];
    assert_eq!(
        Instruction::decode(&empty).unwrap_err(),
        DecodingError::UnexpectedEof
    );
    // a push_i with only three of its four operand bytes
    let truncated = vec![0, 0, 0, 0];
    assert_eq!(
        Instruction::decode(&truncated).unwrap_err(),
        DecodingError::UnexpectedEof
    );
}

#[test]
fn from_bytes_reports_error_in_later_instruction() {
    // the failure names the byte offset of the instruction it struck
    let bytes = vec![1, 1, 13];
    let failure = Instruction::from_bytes(&bytes).unwrap_err();
    assert_eq!(failure.error, DecodingError::UnknownOpcode(13));
    assert_eq!(failure.offset, 2);

    let bytes = vec![1, 3, 0];
    let failure = Instruction::from_bytes(&bytes).unwrap_err();
    assert_eq!(failure.error, DecodingError::UnexpectedEof);
    assert_eq!(failure.offset, 1);

    // a push_i truncated after five whole instructions
    let bytes = vec![1, 1, 1, 1, 1, 0, 0];
    let failure = Instruction::from_bytes(&bytes).unwrap_err();
    assert_eq!(failure.error, DecodingError::UnexpectedEof);
    assert_eq!(failure.offset, 5);
}

#[test]
fn dump_helpers() {
    assert_eq!(dyl::codec::dump_one(7), [7]);
    assert_eq!(dyl::codec::dump_two(300), [1, 44]);
    assert_eq!(dyl::codec::dump_four(444), [0, 0, 1, 188]);
}

#[test]
fn pump_helpers() {
    let bytes = vec![1, 44, 9];
    let (v, tail) = dyl::codec::pump_two(&bytes).unwrap();
    assert_eq!(v, 300);
    assert_eq!(tail, &[9]);
    let bytes = vec![0, 0, 1, 188, 7];
    let (v, tail) = dyl::codec::pump_four(&bytes).unwrap();
    assert_eq!(v, 444);
    assert_eq!(tail, &[7]);
    let (b, tail) = dyl::codec::pump_one(&bytes).unwrap();
    assert_eq!(b, 0);
    assert_eq!(tail.len(), 4);
    let empty: Vec<u8> = vec![];
    assert_eq!(
        dyl::codec::pump_one(&empty).unwrap_err(),
        DecodingError::UnexpectedEof
    );
}

#[test]
fn render_gives_display_text() {
    assert_eq!(Instruction::push_i(42).render(), "push_i 42");
    assert_eq!(Instruction::push_i(-7).render(), "push_i -7");
    assert_eq!(Instruction::push_i(i32::MIN).render(), "push_i -2147483648");
    assert_eq!(Instruction::add_i().render(), "add_i");
    assert_eq!(Instruction::f_stop().render(), "f_stop");
    assert_eq!(Instruction::push_cpy(3).render(), "push_copy 3");
    assert_eq!(Instruction::call(247).render(), "call 247");
    assert_eq!(Instruction::ret(4, 2).render(), "ret 2 4");
    assert_eq!(Instruction::res_v(22).render(), "res_v 22");
    assert_eq!(Instruction::pop_cpy(32).render(), "pop_copy 32");
    assert_eq!(Instruction::goto(444).render(), "goto 444");
    assert_eq!(
        Instruction::cond_jmp(101, 69, 13).render(),
        "cond_jmp 101, 69, 13"
    );
    assert_eq!(Instruction::neg().render(), "neg");
    assert_eq!(Instruction::mul().render(), "mul");
    assert_eq!(Instruction::pop(5).render(), "pop 5");
}
