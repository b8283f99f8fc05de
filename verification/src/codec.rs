//! The instruction set and its wire codec.
//!
//! Each instruction is encoded as one opcode byte followed by its operands in
//! big-endian order.  The opcode identifiers form the contiguous range
//! `0 ..= 12`, and each opcode has a fixed wire size of 1, 3, 5 or 13 bytes.

use vstd::prelude::*;

verus! {

// ---------------------------------------------------------------------------
// Big-endian byte packing
// ---------------------------------------------------------------------------

/// The two big-endian bytes of a `u16`.
pub open spec fn u16_bytes(x: u16) -> Seq<u8> {
    seq![((x >> 8) & 0xff) as u8, (x & 0xff) as u8]
}

/// The four big-endian bytes of a `u32`.
pub open spec fn u32_bytes(x: u32) -> Seq<u8> {
    seq![
        ((x >> 24) & 0xff) as u8,
        ((x >> 16) & 0xff) as u8,
        ((x >> 8) & 0xff) as u8,
        (x & 0xff) as u8,
    ]
}

/// The `u16` read from two big-endian bytes.
pub open spec fn be16(b0: u8, b1: u8) -> u16 {
    ((b0 as u16) << 8) | (b1 as u16)
}

/// The `u32` read from four big-endian bytes.
pub open spec fn be32(b0: u8, b1: u8, b2: u8, b3: u8) -> u32 {
    ((b0 as u32) << 24) | ((b1 as u32) << 16) | ((b2 as u32) << 8) | (b3 as u32)
}

pub proof fn lemma_be16_of_bytes(x: u16)
    ensures
        be16(u16_bytes(x)[0], u16_bytes(x)[1]) == x,
{
    assert((((((x >> 8) & 0xff) as u8) as u16) << 8) | (((x & 0xff) as u8) as u16) == x)
        by (bit_vector);
}

pub proof fn lemma_bytes_of_be16(b0: u8, b1: u8)
    ensures
        u16_bytes(be16(b0, b1)) =~= seq![b0, b1],
{
    let x = be16(b0, b1);
    assert(((((b0 as u16) << 8) | (b1 as u16)) >> 8) & 0xff == b0 as u16) by (bit_vector);
    assert((((b0 as u16) << 8) | (b1 as u16)) & 0xff == b1 as u16) by (bit_vector);
}

pub proof fn lemma_be32_of_bytes(x: u32)
    ensures
        be32(u32_bytes(x)[0], u32_bytes(x)[1], u32_bytes(x)[2], u32_bytes(x)[3]) == x,
{
    assert(((((x >> 24) & 0xff) as u8 as u32) << 24) | ((((x >> 16) & 0xff) as u8 as u32) << 16)
        | ((((x >> 8) & 0xff) as u8 as u32) << 8) | ((x & 0xff) as u8 as u32) == x)
        by (bit_vector);
}

pub proof fn lemma_bytes_of_be32(b0: u8, b1: u8, b2: u8, b3: u8)
    ensures
        u32_bytes(be32(b0, b1, b2, b3)) =~= seq![b0, b1, b2, b3],
{
    let x = be32(b0, b1, b2, b3);
    assert({
        let y = ((b0 as u32) << 24) | ((b1 as u32) << 16) | ((b2 as u32) << 8) | (b3 as u32);
        &&& (y >> 24) & 0xff == b0 as u32
        &&& (y >> 16) & 0xff == b1 as u32
        &&& (y >> 8) & 0xff == b2 as u32
        &&& y & 0xff == b3 as u32
    }) by (bit_vector);
}

/// An `i32` travels on the wire as its two's-complement `u32` image.
pub proof fn lemma_i32_u32_roundtrip(x: i32)
    ensures
        (x as u32) as i32 == x,
{
    assert((x as u32) as i32 == x) by (bit_vector);
}

// ---------------------------------------------------------------------------
// Instruction set
// ---------------------------------------------------------------------------

/// Pushes a constant integer on the stack.
#[derive(Clone, Copy, Debug, PartialEq, Eq, Structural)]
pub struct PushI(pub i32);

/// Pops two integers, pushes their wrapping sum.
#[derive(Clone, Copy, Debug, PartialEq, Eq, Structural)]
pub struct AddI;

/// Stops the program; the single remaining stack value is the result.
#[derive(Clone, Copy, Debug, PartialEq, Eq, Structural)]
pub struct FStop;

/// Clones the value at the given depth from the top, pushes the clone.
#[derive(Clone, Copy, Debug, PartialEq, Eq, Structural)]
pub struct PushCopy(pub u16);

/// Pushes the return address, jumps to an absolute instruction index.
#[derive(Clone, Copy, Debug, PartialEq, Eq, Structural)]
pub struct Call(pub u32);

/// Reads a return address from the stack, shrinks the stack, jumps back.
#[derive(Clone, Copy, Debug, PartialEq, Eq, Structural)]
pub struct Ret {
    pub shrink_offset: u16,
    pub ip_offset: u16,
}

/// Pushes the given number of zero integers.
#[derive(Clone, Copy, Debug, PartialEq, Eq, Structural)]
pub struct ResV(pub u16);

/// Pops a value, overwrites the slot at the given offset from the top.
#[derive(Clone, Copy, Debug, PartialEq, Eq, Structural)]
pub struct PopCopy(pub u16);

/// Jumps to an absolute instruction index.
#[derive(Clone, Copy, Debug, PartialEq, Eq, Structural)]
pub struct Goto(pub u32);

/// Pops an integer, jumps to one of three addresses depending on its sign.
#[derive(Clone, Copy, Debug, PartialEq, Eq, Structural)]
pub struct CondJmp {
    pub negative_addr: u32,
    pub null_addr: u32,
    pub positive_addr: u32,
}

/// Pops an integer, pushes its wrapping negation.
#[derive(Clone, Copy, Debug, PartialEq, Eq, Structural)]
pub struct Neg;

/// Pops two integers, pushes their wrapping product.
#[derive(Clone, Copy, Debug, PartialEq, Eq, Structural)]
pub struct Mul;

/// Drops the given number of slots from the top of the stack.
#[derive(Clone, Copy, Debug, PartialEq, Eq, Structural)]
pub struct Pop(pub u16);

/// One wire instruction, ready to be encoded or executed.
#[derive(Clone, Copy, Debug, PartialEq, Eq, Structural)]
pub enum Instruction {
    PushI(PushI),
    AddI(AddI),
    FStop(FStop),
    PushCopy(PushCopy),
    Call(Call),
    Ret(Ret),
    ResV(ResV),
    PopCopy(PopCopy),
    Goto(Goto),
    CondJmp(CondJmp),
    Neg(Neg),
    Mul(Mul),
    Pop(Pop),
}

/// A decoding failure: a first byte outside the opcode range, or an input
/// that ends in the middle of an instruction.
#[derive(Clone, Copy, Debug, PartialEq, Eq, Structural)]
pub enum DecodingError {
    UnknownOpcode(u8),
    UnexpectedEof,
}

impl Instruction {
    pub fn push_i(i: i32) -> (r: Instruction)
        ensures
            r == Instruction::PushI(PushI(i)),
    {
        Instruction::PushI(PushI(i))
    }

    pub fn add_i() -> (r: Instruction)
        ensures
            r == Instruction::AddI(AddI),
    {
        Instruction::AddI(AddI)
    }

    pub fn f_stop() -> (r: Instruction)
        ensures
            r == Instruction::FStop(FStop),
    {
        Instruction::FStop(FStop)
    }

    pub fn push_cpy(idx: u16) -> (r: Instruction)
        ensures
            r == Instruction::PushCopy(PushCopy(idx)),
    {
        Instruction::PushCopy(PushCopy(idx))
    }

    pub fn call(ptr: u32) -> (r: Instruction)
        ensures
            r == Instruction::Call(Call(ptr)),
    {
        Instruction::Call(Call(ptr))
    }

    pub fn ret(ip_offset: u16, shrink_offset: u16) -> (r: Instruction)
        ensures
            r == Instruction::Ret(Ret { shrink_offset, ip_offset }),
    {
        Instruction::Ret(Ret { shrink_offset, ip_offset })
    }

    pub fn res_v(idx: u16) -> (r: Instruction)
        ensures
            r == Instruction::ResV(ResV(idx)),
    {
        Instruction::ResV(ResV(idx))
    }

    pub fn pop_cpy(idx: u16) -> (r: Instruction)
        ensures
            r == Instruction::PopCopy(PopCopy(idx)),
    {
        Instruction::PopCopy(PopCopy(idx))
    }

    pub fn goto(addr: u32) -> (r: Instruction)
        ensures
            r == Instruction::Goto(Goto(addr)),
    {
        Instruction::Goto(Goto(addr))
    }

    pub fn cond_jmp(negative_addr: u32, null_addr: u32, positive_addr: u32) -> (r: Instruction)
        ensures
            r == Instruction::CondJmp(CondJmp { negative_addr, null_addr, positive_addr }),
    {
        Instruction::CondJmp(CondJmp { negative_addr, null_addr, positive_addr })
    }

    pub fn neg() -> (r: Instruction)
        ensures
            r == Instruction::Neg(Neg),
    {
        Instruction::Neg(Neg)
    }

    pub fn mul() -> (r: Instruction)
        ensures
            r == Instruction::Mul(Mul),
    {
        Instruction::Mul(Mul)
    }

    pub fn pop(count: u16) -> (r: Instruction)
        ensures
            r == Instruction::Pop(Pop(count)),
    {
        Instruction::Pop(Pop(count))
    }
}

// ---------------------------------------------------------------------------
// Wire format, as a mathematical function
// ---------------------------------------------------------------------------

/// The stable numeric identifier of an instruction: the first wire byte.
pub open spec fn instr_id(i: Instruction) -> u8 {
    match i {
        Instruction::PushI(_) => 0,
        Instruction::AddI(_) => 1,
        Instruction::FStop(_) => 2,
        Instruction::PushCopy(_) => 3,
        Instruction::Call(_) => 4,
        Instruction::Ret(_) => 5,
        Instruction::ResV(_) => 6,
        Instruction::PopCopy(_) => 7,
        Instruction::Goto(_) => 8,
        Instruction::CondJmp(_) => 9,
        Instruction::Neg(_) => 10,
        Instruction::Mul(_) => 11,
        Instruction::Pop(_) => 12,
    }
}

/// The wire size, in bytes, of the instruction whose identifier is `id`.
/// Identifiers outside `0 ..= 12` have no instruction and get size 0.
pub open spec fn size_of_id(id: u8) -> nat {
    if id == 1 || id == 2 || id == 10 || id == 11 {
        1
    } else if id == 3 || id == 6 || id == 7 || id == 12 {
        3
    } else if id == 0 || id == 4 || id == 5 || id == 8 {
        5
    } else if id == 9 {
        13
    } else {
        0
    }
}

/// The wire size, in bytes, of one instruction.
pub open spec fn instr_size(i: Instruction) -> nat {
    size_of_id(instr_id(i))
}

/// The canonical wire bytes of one instruction: its identifier, then its
/// operands in big-endian order.
pub open spec fn instr_bytes(i: Instruction) -> Seq<u8> {
    match i {
        Instruction::PushI(op) => seq![0u8] + u32_bytes(op.0 as u32),
        Instruction::AddI(_) => seq![1u8],
        Instruction::FStop(_) => seq![2u8],
        Instruction::PushCopy(op) => seq![3u8] + u16_bytes(op.0),
        Instruction::Call(op) => seq![4u8] + u32_bytes(op.0),
        Instruction::Ret(op) => seq![5u8] + u16_bytes(op.shrink_offset) + u16_bytes(op.ip_offset),
        Instruction::ResV(op) => seq![6u8] + u16_bytes(op.0),
        Instruction::PopCopy(op) => seq![7u8] + u16_bytes(op.0),
        Instruction::Goto(op) => seq![8u8] + u32_bytes(op.0),
        Instruction::CondJmp(op) => seq![9u8] + u32_bytes(op.negative_addr)
            + u32_bytes(op.null_addr) + u32_bytes(op.positive_addr),
        Instruction::Neg(_) => seq![10u8],
        Instruction::Mul(_) => seq![11u8],
        Instruction::Pop(op) => seq![12u8] + u16_bytes(op.0),
    }
}

/// Whether `bytes` starts with one complete, well-formed instruction.
pub open spec fn decodable(bytes: Seq<u8>) -> bool {
    &&& bytes.len() >= 1
    &&& bytes[0] <= 12
    &&& bytes.len() >= size_of_id(bytes[0])
}

/// The instruction at the head of `bytes`, assuming `decodable(bytes)`.
pub open spec fn spec_decode_instr(bytes: Seq<u8>) -> Instruction
    recommends
        decodable(bytes),
{
    let id = bytes[0];
    if id == 0 {
        Instruction::PushI(PushI(be32(bytes[1], bytes[2], bytes[3], bytes[4]) as i32))
    } else if id == 1 {
        Instruction::AddI(AddI)
    } else if id == 2 {
        Instruction::FStop(FStop)
    } else if id == 3 {
        Instruction::PushCopy(PushCopy(be16(bytes[1], bytes[2])))
    } else if id == 4 {
        Instruction::Call(Call(be32(bytes[1], bytes[2], bytes[3], bytes[4])))
    } else if id == 5 {
        Instruction::Ret(Ret {
            shrink_offset: be16(bytes[1], bytes[2]),
            ip_offset: be16(bytes[3], bytes[4]),
        })
    } else if id == 6 {
        Instruction::ResV(ResV(be16(bytes[1], bytes[2])))
    } else if id == 7 {
        Instruction::PopCopy(PopCopy(be16(bytes[1], bytes[2])))
    } else if id == 8 {
        Instruction::Goto(Goto(be32(bytes[1], bytes[2], bytes[3], bytes[4])))
    } else if id == 9 {
        Instruction::CondJmp(CondJmp {
            negative_addr: be32(bytes[1], bytes[2], bytes[3], bytes[4]),
            null_addr: be32(bytes[5], bytes[6], bytes[7], bytes[8]),
            positive_addr: be32(bytes[9], bytes[10], bytes[11], bytes[12]),
        })
    } else if id == 10 {
        Instruction::Neg(Neg)
    } else if id == 11 {
        Instruction::Mul(Mul)
    } else {
        Instruction::Pop(Pop(be16(bytes[1], bytes[2])))
    }
}

/// The error reported when `bytes` does not start with a complete
/// instruction: an opcode outside the table, or too few bytes.
pub open spec fn spec_decode_err(bytes: Seq<u8>) -> DecodingError
    recommends
        !decodable(bytes),
{
    if bytes.len() >= 1 && bytes[0] > 12 {
        DecodingError::UnknownOpcode(bytes[0])
    } else {
        DecodingError::UnexpectedEof
    }
}

// ---------------------------------------------------------------------------
// Byte readers and writers
// ---------------------------------------------------------------------------

/// The single byte of a `u8`.
pub fn dump_one(input: u8) -> (r: [u8; 1])
    ensures
        r@ =~= seq![input],
{
    [input]
}

/// The two big-endian bytes of a `u16`.
pub fn dump_two(input: u16) -> (r: [u8; 2])
    ensures
        r@ =~= u16_bytes(input),
{
    [((input >> 8) & 0xff) as u8, (input & 0xff) as u8]
}

/// The four big-endian bytes of a `u32`.
pub fn dump_four(input: u32) -> (r: [u8; 4])
    ensures
        r@ =~= u32_bytes(input),
{
    [
        ((input >> 24) & 0xff) as u8,
        ((input >> 16) & 0xff) as u8,
        ((input >> 8) & 0xff) as u8,
        (input & 0xff) as u8,
    ]
}

/// Reads one byte, returning it with the remaining input.
pub fn pump_one(input: &[u8]) -> (r: Result<(u8, &[u8]), DecodingError>)
    ensures
        match r {
            Ok((b, tail)) => input@.len() >= 1 && b == input@[0] && tail@ == input@.skip(1),
            Err(e) => input@.len() < 1 && e == DecodingError::UnexpectedEof,
        },
{
    if input.len() < 1 {
        return Err(DecodingError::UnexpectedEof);
    }
    let b = *vstd::slice::slice_index_get(input, 0);
    let tail = vstd::slice::slice_subrange(input, 1, input.len());
    assert(tail@ =~= input@.skip(1));
    Ok((b, tail))
}

/// Reads a big-endian `u16`, returning it with the remaining input.
pub fn pump_two(input: &[u8]) -> (r: Result<(u16, &[u8]), DecodingError>)
    ensures
        match r {
            Ok((v, tail)) => input@.len() >= 2 && v == be16(input@[0], input@[1]) && tail@
                == input@.skip(2),
            Err(e) => input@.len() < 2 && e == DecodingError::UnexpectedEof,
        },
{
    if input.len() < 2 {
        return Err(DecodingError::UnexpectedEof);
    }
    let b0 = *vstd::slice::slice_index_get(input, 0);
    let b1 = *vstd::slice::slice_index_get(input, 1);
    let v = ((b0 as u16) << 8) | (b1 as u16);
    let tail = vstd::slice::slice_subrange(input, 2, input.len());
    assert(tail@ =~= input@.skip(2));
    Ok((v, tail))
}

/// Reads a big-endian `u32`, returning it with the remaining input.
pub fn pump_four(input: &[u8]) -> (r: Result<(u32, &[u8]), DecodingError>)
    ensures
        match r {
            Ok((v, tail)) => input@.len() >= 4 && v == be32(
                input@[0],
                input@[1],
                input@[2],
                input@[3],
            ) && tail@ == input@.skip(4),
            Err(e) => input@.len() < 4 && e == DecodingError::UnexpectedEof,
        },
{
    if input.len() < 4 {
        return Err(DecodingError::UnexpectedEof);
    }
    let b0 = *vstd::slice::slice_index_get(input, 0);
    let b1 = *vstd::slice::slice_index_get(input, 1);
    let b2 = *vstd::slice::slice_index_get(input, 2);
    let b3 = *vstd::slice::slice_index_get(input, 3);
    let v = ((b0 as u32) << 24) | ((b1 as u32) << 16) | ((b2 as u32) << 8) | (b3 as u32);
    let tail = vstd::slice::slice_subrange(input, 4, input.len());
    assert(tail@ =~= input@.skip(4));
    Ok((v, tail))
}

// ---------------------------------------------------------------------------
// Encoding
// ---------------------------------------------------------------------------

impl Instruction {
    /// Appends this instruction's canonical wire bytes to `encoder`.
    pub fn encode(&self, encoder: &mut Vec<u8>)
        ensures
            final(encoder)@ == old(encoder)@ + instr_bytes(*self),
    {
        match self {
            Instruction::PushI(op) => {
                encoder.push(0);
                push_four(encoder, op.0 as u32);
            },
            Instruction::AddI(_) => {
                encoder.push(1);
            },
            Instruction::FStop(_) => {
                encoder.push(2);
            },
            Instruction::PushCopy(op) => {
                encoder.push(3);
                push_two(encoder, op.0);
            },
            Instruction::Call(op) => {
                encoder.push(4);
                push_four(encoder, op.0);
            },
            Instruction::Ret(op) => {
                encoder.push(5);
                push_two(encoder, op.shrink_offset);
                push_two(encoder, op.ip_offset);
            },
            Instruction::ResV(op) => {
                encoder.push(6);
                push_two(encoder, op.0);
            },
            Instruction::PopCopy(op) => {
                encoder.push(7);
                push_two(encoder, op.0);
            },
            Instruction::Goto(op) => {
                encoder.push(8);
                push_four(encoder, op.0);
            },
            Instruction::CondJmp(op) => {
                encoder.push(9);
                push_four(encoder, op.negative_addr);
                push_four(encoder, op.null_addr);
                push_four(encoder, op.positive_addr);
            },
            Instruction::Neg(_) => {
                encoder.push(10);
            },
            Instruction::Mul(_) => {
                encoder.push(11);
            },
            Instruction::Pop(op) => {
                encoder.push(12);
                push_two(encoder, op.0);
            },
        }
        assert(encoder@ =~= old(encoder)@ + instr_bytes(*self));
    }
}

/// Appends the two big-endian bytes of `x`.
fn push_two(encoder: &mut Vec<u8>, x: u16)
    ensures
        final(encoder)@ == old(encoder)@ + u16_bytes(x),
{
    encoder.push(((x >> 8) & 0xff) as u8);
    encoder.push((x & 0xff) as u8);
    assert(encoder@ =~= old(encoder)@ + u16_bytes(x));
}

/// Appends the four big-endian bytes of `x`.
fn push_four(encoder: &mut Vec<u8>, x: u32)
    ensures
        final(encoder)@ == old(encoder)@ + u32_bytes(x),
{
    encoder.push(((x >> 24) & 0xff) as u8);
    encoder.push(((x >> 16) & 0xff) as u8);
    encoder.push(((x >> 8) & 0xff) as u8);
    encoder.push((x & 0xff) as u8);
    assert(encoder@ =~= old(encoder)@ + u32_bytes(x));
}

/// The concatenated wire bytes of a sequence of instructions.
pub open spec fn instrs_bytes(s: Seq<Instruction>) -> Seq<u8>
    decreases s.len(),
{
    if s.len() == 0 {
        Seq::empty()
    } else {
        instr_bytes(s[0]) + instrs_bytes(s.drop_first())
    }
}

impl Instruction {
    /// Encodes a whole instruction sequence into one byte stream.
    pub fn encode_multiple(instructions: &Vec<Instruction>) -> (r: Vec<u8>)
        ensures
            r@ == instrs_bytes(instructions@),
    {
        let mut buff: Vec<u8> = Vec::new();
        let mut k: usize = 0;
        while k < instructions.len()
            invariant
                k <= instructions@.len(),
                buff@ == instrs_bytes(instructions@.take(k as int)),
            decreases instructions@.len() - k,
        {
            instructions[k].encode(&mut buff);
            proof {
                lemma_instrs_bytes_take_step(instructions@, k as int);
            }
            k = k + 1;
        }
        proof {
            assert(instructions@.take(instructions@.len() as int) =~= instructions@);
        }
        buff
    }
}

proof fn lemma_instrs_bytes_take_step(s: Seq<Instruction>, k: int)
    requires
        0 <= k < s.len(),
    ensures
        instrs_bytes(s.take(k + 1)) == instrs_bytes(s.take(k)) + instr_bytes(s[k]),
    decreases k,
{
    if k == 0 {
        assert(s.take(1).drop_first() =~= Seq::<Instruction>::empty());
        assert(s.take(1)[0] == s[0]);
        assert(instrs_bytes(Seq::<Instruction>::empty()) == Seq::<u8>::empty());
        assert(instrs_bytes(s.take(1)) == instr_bytes(s[0]) + Seq::<u8>::empty());
        assert(instr_bytes(s[0]) + Seq::<u8>::empty() =~= instr_bytes(s[0]));
        assert(s.take(0) =~= Seq::<Instruction>::empty());
        assert(instrs_bytes(s.take(0)) + instr_bytes(s[0]) =~= instr_bytes(s[0]));
    } else {
        lemma_instrs_bytes_take_step(s.drop_first(), k - 1);
        assert(s.take(k + 1).drop_first() =~= s.drop_first().take(k));
        assert(s.take(k).drop_first() =~= s.drop_first().take(k - 1));
        assert(s.take(k + 1)[0] == s[0]);
        assert(s.take(k)[0] == s[0]);
        assert(s.drop_first()[k - 1] == s[k]);
        assert(instr_bytes(s[0]) + (instrs_bytes(s.drop_first().take(k - 1)) + instr_bytes(s[k]))
            =~= (instr_bytes(s[0]) + instrs_bytes(s.drop_first().take(k - 1))) + instr_bytes(
            s[k],
        ));
    }
}

// ---------------------------------------------------------------------------
// Decoding
// ---------------------------------------------------------------------------

impl Instruction {
    /// Decodes the instruction at the head of `input`, returning it together
    /// with the number of bytes consumed and the remaining input.
    pub fn decode(input: &[u8]) -> (r: Result<(Instruction, usize, &[u8]), DecodingError>)
        ensures
            match r {
                Ok((instr, n, tail)) => {
                    &&& decodable(input@)
                    &&& instr == spec_decode_instr(input@)
                    &&& n == size_of_id(input@[0])
                    &&& n == instr_size(instr)
                    &&& tail@ == input@.skip(n as int)
                },
                Err(e) => !decodable(input@) && e == spec_decode_err(input@),
            },
    {
        let (op, operands) = pump_one(input)?;
        match op {
            0 => {
                let (v, tail) = pump_four(operands)?;
                proof {
                    assert(input@.skip(1).skip(4) =~= input@.skip(5));
                }
                Ok((Instruction::push_i(v as i32), 5, tail))
            },
            1 => Ok((Instruction::add_i(), 1, operands)),
            2 => Ok((Instruction::f_stop(), 1, operands)),
            3 => {
                let (v, tail) = pump_two(operands)?;
                proof {
                    assert(input@.skip(1).skip(2) =~= input@.skip(3));
                }
                Ok((Instruction::push_cpy(v), 3, tail))
            },
            4 => {
                let (v, tail) = pump_four(operands)?;
                proof {
                    assert(input@.skip(1).skip(4) =~= input@.skip(5));
                }
                Ok((Instruction::call(v), 5, tail))
            },
            5 => {
                let (shrink_offset, tail) = pump_two(operands)?;
                let (ip_offset, tail) = pump_two(tail)?;
                proof {
                    assert(input@.skip(1).skip(2).skip(2) =~= input@.skip(5));
                }
                Ok((Instruction::ret(ip_offset, shrink_offset), 5, tail))
            },
            6 => {
                let (v, tail) = pump_two(operands)?;
                proof {
                    assert(input@.skip(1).skip(2) =~= input@.skip(3));
                }
                Ok((Instruction::res_v(v), 3, tail))
            },
            7 => {
                let (v, tail) = pump_two(operands)?;
                proof {
                    assert(input@.skip(1).skip(2) =~= input@.skip(3));
                }
                Ok((Instruction::pop_cpy(v), 3, tail))
            },
            8 => {
                let (v, tail) = pump_four(operands)?;
                proof {
                    assert(input@.skip(1).skip(4) =~= input@.skip(5));
                }
                Ok((Instruction::goto(v), 5, tail))
            },
            9 => {
                let (negative_addr, tail) = pump_four(operands)?;
                let (null_addr, tail) = pump_four(tail)?;
                let (positive_addr, tail) = pump_four(tail)?;
                proof {
                    assert(input@.skip(1).skip(4).skip(4).skip(4) =~= input@.skip(13));
                }
                Ok((Instruction::cond_jmp(negative_addr, null_addr, positive_addr), 13, tail))
            },
            10 => Ok((Instruction::neg(), 1, operands)),
            11 => Ok((Instruction::mul(), 1, operands)),
            12 => {
                let (v, tail) = pump_two(operands)?;
                proof {
                    assert(input@.skip(1).skip(2) =~= input@.skip(3));
                }
                Ok((Instruction::pop(v), 3, tail))
            },
            _ => Err(DecodingError::UnknownOpcode(op)),
        }
    }
}

/// Whether every byte of `bytes` belongs to a well-formed instruction, and
/// the instructions they form.
pub open spec fn spec_decode_all(bytes: Seq<u8>) -> Option<Seq<Instruction>>
    decreases bytes.len(),
{
    if bytes.len() == 0 {
        Some(Seq::empty())
    } else if !decodable(bytes) {
        None
    } else {
        let n = size_of_id(bytes[0]) as int;
        match spec_decode_all(bytes.skip(n)) {
            Some(rest) => Some(seq![spec_decode_instr(bytes)] + rest),
            None => None,
        }
    }
}

/// The error reported for a byte stream that does not decode whole: the
/// error of its first ill-formed instruction.
pub open spec fn spec_decode_all_err(bytes: Seq<u8>) -> DecodingError
    recommends
        spec_decode_all(bytes) is None,
    decreases bytes.len(),
{
    if !decodable(bytes) {
        spec_decode_err(bytes)
    } else {
        spec_decode_all_err(bytes.skip(size_of_id(bytes[0]) as int))
    }
}

/// The byte offset of the first ill-formed instruction of a byte stream:
/// the sum of the sizes of the instructions decoded before it.
pub open spec fn spec_decode_all_err_offset(bytes: Seq<u8>) -> nat
    recommends
        spec_decode_all(bytes) is None,
    decreases bytes.len(),
{
    if !decodable(bytes) {
        0
    } else {
        size_of_id(bytes[0]) + spec_decode_all_err_offset(
            bytes.skip(size_of_id(bytes[0]) as int),
        )
    }
}

/// A decoding failure inside a byte stream: what went wrong, at the byte
/// offset of the instruction it struck.
#[derive(Clone, Copy, Debug, PartialEq, Eq, Structural)]
pub struct StreamDecodingError {
    pub offset: usize,
    pub error: DecodingError,
}

impl Instruction {
    /// Decodes a whole byte stream into the instruction sequence it spells;
    /// a failure names the byte offset of the instruction it struck.
    pub fn from_bytes(input: &[u8]) -> (r: Result<Vec<Instruction>, StreamDecodingError>)
        ensures
            match r {
                Ok(instrs) => spec_decode_all(input@) == Some(instrs@),
                Err(e) => spec_decode_all(input@) is None && e.error == spec_decode_all_err(
                    input@,
                ) && e.offset == spec_decode_all_err_offset(input@),
            },
    {
        let total = input.len();
        let mut instrs: Vec<Instruction> = Vec::new();
        let mut rest: &[u8] = input;
        let mut idx: usize = 0;
        while rest.len() > 0
            invariant
                total == input@.len(),
                idx + rest@.len() == input@.len(),
                spec_decode_all(input@) == match spec_decode_all(rest@) {
                    Some(r) => Some(instrs@ + r),
                    None => None::<Seq<Instruction>>,
                },
                spec_decode_all(rest@) is None ==> spec_decode_all_err(rest@)
                    == spec_decode_all_err(input@),
                spec_decode_all(rest@) is None ==> idx + spec_decode_all_err_offset(rest@)
                    == spec_decode_all_err_offset(input@),
            decreases rest@.len(),
        {
            match Instruction::decode(rest) {
                Ok((instr, len, tail)) => {
                    let ghost prev = instrs@;
                    instrs.push(instr);
                    proof {
                        if spec_decode_all(tail@) is Some {
                            let r = spec_decode_all(tail@).unwrap();
                            assert(instrs@ + r =~= prev + (seq![instr] + r));
                        }
                    }
                    idx = idx + len;
                    rest = tail;
                },
                Err(e) => {
                    return Err(StreamDecodingError { offset: idx, error: e });
                },
            }
        }
        assert(spec_decode_all(rest@) == Some(Seq::<Instruction>::empty()));
        assert(instrs@ + Seq::<Instruction>::empty() =~= instrs@);
        Ok(instrs)
    }
}

// ---------------------------------------------------------------------------
// Display text
// ---------------------------------------------------------------------------

/// The display text of one instruction: its name, then its operands in
/// decimal.
pub open spec fn instr_text(i: Instruction) -> Seq<char> {
    match i {
        Instruction::PushI(op) => "push_i "@ + crate::text::dec_digits_signed(op.0 as int),
        Instruction::AddI(_) => "add_i"@,
        Instruction::FStop(_) => "f_stop"@,
        Instruction::PushCopy(op) => "push_copy "@ + crate::text::dec_digits(op.0 as nat),
        Instruction::Call(op) => "call "@ + crate::text::dec_digits(op.0 as nat),
        Instruction::Ret(op) => "ret "@ + crate::text::dec_digits(op.shrink_offset as nat) + " "@
            + crate::text::dec_digits(op.ip_offset as nat),
        Instruction::ResV(op) => "res_v "@ + crate::text::dec_digits(op.0 as nat),
        Instruction::PopCopy(op) => "pop_copy "@ + crate::text::dec_digits(op.0 as nat),
        Instruction::Goto(op) => "goto "@ + crate::text::dec_digits(op.0 as nat),
        Instruction::CondJmp(op) => "cond_jmp "@ + crate::text::dec_digits(op.negative_addr as nat)
            + ", "@ + crate::text::dec_digits(op.null_addr as nat) + ", "@
            + crate::text::dec_digits(op.positive_addr as nat),
        Instruction::Neg(_) => "neg"@,
        Instruction::Mul(_) => "mul"@,
        Instruction::Pop(op) => "pop "@ + crate::text::dec_digits(op.0 as nat),
    }
}

impl Instruction {
    /// The display text of this instruction, for disassembly listings.
    pub fn render(&self) -> (r: String)
        ensures
            r@ == instr_text(*self),
    {
        match self {
            Instruction::PushI(op) => {
                let mut out = "push_i ".to_owned();
                let digits = crate::text::i32_to_string(op.0);
                out.append(digits.as_str());
                proof {
                    assert(out@ =~= instr_text(*self));
                }
                out
            },
            Instruction::AddI(_) => "add_i".to_owned(),
            Instruction::FStop(_) => "f_stop".to_owned(),
            Instruction::PushCopy(op) => named_u64("push_copy ", op.0 as u64),
            Instruction::Call(op) => named_u64("call ", op.0 as u64),
            Instruction::Ret(op) => {
                let mut out = named_u64("ret ", op.shrink_offset as u64);
                out.append(" ");
                let digits = crate::text::u64_to_string(op.ip_offset as u64);
                out.append(digits.as_str());
                proof {
                    assert(out@ =~= instr_text(*self));
                }
                out
            },
            Instruction::ResV(op) => named_u64("res_v ", op.0 as u64),
            Instruction::PopCopy(op) => named_u64("pop_copy ", op.0 as u64),
            Instruction::Goto(op) => named_u64("goto ", op.0 as u64),
            Instruction::CondJmp(op) => {
                let mut out = named_u64("cond_jmp ", op.negative_addr as u64);
                out.append(", ");
                let digits = crate::text::u64_to_string(op.null_addr as u64);
                out.append(digits.as_str());
                out.append(", ");
                let digits = crate::text::u64_to_string(op.positive_addr as u64);
                out.append(digits.as_str());
                proof {
                    assert(out@ =~= instr_text(*self));
                }
                out
            },
            Instruction::Neg(_) => "neg".to_owned(),
            Instruction::Mul(_) => "mul".to_owned(),
            Instruction::Pop(op) => named_u64("pop ", op.0 as u64),
        }
    }
}

/// A name followed by one decimal operand.
fn named_u64(name: &str, operand: u64) -> (r: String)
    ensures
        r@ == name@ + crate::text::dec_digits(operand as nat),
{
    let mut out = name.to_owned();
    let digits = crate::text::u64_to_string(operand);
    out.append(digits.as_str());
    out
}

// ---------------------------------------------------------------------------
// Round-trip laws
// ---------------------------------------------------------------------------

/// Encoding an instruction and decoding the result, with any bytes behind
/// it, gives the instruction back and consumes exactly its wire size.
pub proof fn lemma_decode_of_encode(i: Instruction, rest: Seq<u8>)
    ensures
        instr_bytes(i).len() == instr_size(i),
        decodable(instr_bytes(i) + rest),
        spec_decode_instr(instr_bytes(i) + rest) == i,
        size_of_id((instr_bytes(i) + rest)[0]) == instr_size(i),
{
    let bytes = instr_bytes(i) + rest;
    assert(bytes[0] == instr_bytes(i)[0]);
    match i {
        Instruction::PushI(op) => {
            lemma_be32_of_bytes(op.0 as u32);
            lemma_i32_u32_roundtrip(op.0);
        },
        Instruction::PushCopy(op) => {
            lemma_be16_of_bytes(op.0);
        },
        Instruction::Call(op) => {
            lemma_be32_of_bytes(op.0);
        },
        Instruction::Ret(op) => {
            lemma_be16_of_bytes(op.shrink_offset);
            lemma_be16_of_bytes(op.ip_offset);
        },
        Instruction::ResV(op) => {
            lemma_be16_of_bytes(op.0);
        },
        Instruction::PopCopy(op) => {
            lemma_be16_of_bytes(op.0);
        },
        Instruction::Goto(op) => {
            lemma_be32_of_bytes(op.0);
        },
        Instruction::CondJmp(op) => {
            lemma_be32_of_bytes(op.negative_addr);
            lemma_be32_of_bytes(op.null_addr);
            lemma_be32_of_bytes(op.positive_addr);
        },
        Instruction::Pop(op) => {
            lemma_be16_of_bytes(op.0);
        },
        _ => {},
    }
}

/// Re-encoding a decoded instruction reproduces exactly the bytes that were
/// consumed for it.
pub proof fn lemma_encode_of_decode(bytes: Seq<u8>)
    requires
        decodable(bytes),
    ensures
        instr_bytes(spec_decode_instr(bytes)) =~= bytes.subrange(0, size_of_id(bytes[0]) as int),
{
    let id = bytes[0];
    if id == 0 || id == 4 || id == 8 {
        lemma_bytes_of_be32(bytes[1], bytes[2], bytes[3], bytes[4]);
        if id == 0 {
            let v = be32(bytes[1], bytes[2], bytes[3], bytes[4]);
            assert((v as i32) as u32 == v) by (bit_vector);
        }
    } else if id == 3 || id == 5 || id == 6 || id == 7 || id == 12 {
        lemma_bytes_of_be16(bytes[1], bytes[2]);
        if id == 5 {
            lemma_bytes_of_be16(bytes[3], bytes[4]);
        }
    } else if id == 9 {
        lemma_bytes_of_be32(bytes[1], bytes[2], bytes[3], bytes[4]);
        lemma_bytes_of_be32(bytes[5], bytes[6], bytes[7], bytes[8]);
        lemma_bytes_of_be32(bytes[9], bytes[10], bytes[11], bytes[12]);
    }
}

/// The opcode table is dense and ordered: the identifier of every decoded
/// instruction is the byte it was decoded from, every identifier is in
/// `0 ..= 12`, and the first wire byte of every instruction is its
/// identifier.
pub proof fn lemma_opcode_table_dense()
    ensures
        forall|i: Instruction| (#[trigger] instr_bytes(i))[0] == instr_id(i),
        forall|i: Instruction| #[trigger] instr_id(i) <= 12,
        forall|bytes: Seq<u8>|
            decodable(bytes) ==> instr_id(#[trigger] spec_decode_instr(bytes)) == bytes[0],
{
    assert forall|i: Instruction| (#[trigger] instr_bytes(i))[0] == instr_id(i) by {
        match i {
            Instruction::PushI(_) => {},
            _ => {},
        }
    }
}

/// Encoding a sequence of instructions and decoding the bytes gives the
/// sequence back: every compiled program decodes to what was compiled.
pub proof fn lemma_decode_all_of_encoded(s: Seq<Instruction>)
    ensures
        spec_decode_all(instrs_bytes(s)) == Some(s),
    decreases s.len(),
{
    if s.len() == 0 {
        assert(spec_decode_all(instrs_bytes(s)) == Some(Seq::<Instruction>::empty()));
        assert(Seq::<Instruction>::empty() =~= s);
    } else {
        let head = s[0];
        let tail = s.drop_first();
        let bytes = instrs_bytes(s);
        lemma_decode_all_of_encoded(tail);
        lemma_decode_of_encode(head, instrs_bytes(tail));
        assert(bytes == instr_bytes(head) + instrs_bytes(tail));
        assert(bytes.len() >= instr_bytes(head).len());
        assert(bytes.skip(size_of_id(bytes[0]) as int) =~= instrs_bytes(tail));
        assert(seq![head] + tail =~= s);
    }
}

/// Re-encoding a fully decoded byte stream reproduces it byte for byte; in
/// particular its length is the sum of the decoded instructions' sizes.
pub proof fn lemma_encode_of_decode_all(bytes: Seq<u8>)
    requires
        spec_decode_all(bytes) is Some,
    ensures
        instrs_bytes(spec_decode_all(bytes).unwrap()) =~= bytes,
    decreases bytes.len(),
{
    if bytes.len() == 0 {
    } else {
        let n = size_of_id(bytes[0]) as int;
        let head = spec_decode_instr(bytes);
        lemma_encode_of_decode_all(bytes.skip(n));
        lemma_encode_of_decode(bytes);
        let s = spec_decode_all(bytes).unwrap();
        assert(s == seq![head] + spec_decode_all(bytes.skip(n)).unwrap());
        assert(s.drop_first() =~= spec_decode_all(bytes.skip(n)).unwrap());
        assert(s[0] == head);
        assert(instrs_bytes(s) == instr_bytes(head) + instrs_bytes(s.drop_first()));
        assert(instr_bytes(head) =~= bytes.subrange(0, n));
        assert(bytes.subrange(0, n) + bytes.skip(n) =~= bytes);
    }
}


} // verus!
