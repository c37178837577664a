//! Bytecode chunks.
//!
//! A chunk is a byte-addressable instruction buffer with two parallel
//! companions: a line table holding one source line per code byte, and a
//! constant pool. Multi-byte operands are big-endian 32-bit words inlined in
//! the code stream.

use vstd::prelude::*;
use crate::value::Value;

verus! {

#[derive(Clone, Copy, PartialEq, Eq, Structural, Debug)]
pub enum OpCode {
    Return,
    Constant,
    Divide,
    Add,
    Negate,
    Multiply,
    Substract,
    Not,
    Equal,
    Greater,
    Less,
    Print,
    Nil,
    Pop,
    JumpIfFalse,
    GetLocal,
    SetLocal,
    Jump,
    Loop,
    Call,
    Closure,
    GetUpvalue,
    SetUpvalue,
}

/// The encoding of each opcode as a code byte.
pub open spec fn opcode_byte(op: OpCode) -> u8 {
    match op {
        OpCode::Return => 0,
        OpCode::Constant => 1,
        OpCode::Divide => 2,
        OpCode::Add => 3,
        OpCode::Negate => 4,
        OpCode::Multiply => 5,
        OpCode::Substract => 6,
        OpCode::Not => 7,
        OpCode::Equal => 8,
        OpCode::Greater => 9,
        OpCode::Less => 10,
        OpCode::Print => 11,
        OpCode::Nil => 12,
        OpCode::Pop => 13,
        OpCode::JumpIfFalse => 14,
        OpCode::GetLocal => 15,
        OpCode::SetLocal => 16,
        OpCode::Jump => 17,
        OpCode::Loop => 18,
        OpCode::Call => 19,
        OpCode::Closure => 20,
        OpCode::GetUpvalue => 21,
        OpCode::SetUpvalue => 22,
    }
}

/// The opcode a code byte stands for, if any.
pub open spec fn spec_opcode_of(b: u8) -> Option<OpCode> {
    if b == 0 { Some(OpCode::Return) }
    else if b == 1 { Some(OpCode::Constant) }
    else if b == 2 { Some(OpCode::Divide) }
    else if b == 3 { Some(OpCode::Add) }
    else if b == 4 { Some(OpCode::Negate) }
    else if b == 5 { Some(OpCode::Multiply) }
    else if b == 6 { Some(OpCode::Substract) }
    else if b == 7 { Some(OpCode::Not) }
    else if b == 8 { Some(OpCode::Equal) }
    else if b == 9 { Some(OpCode::Greater) }
    else if b == 10 { Some(OpCode::Less) }
    else if b == 11 { Some(OpCode::Print) }
    else if b == 12 { Some(OpCode::Nil) }
    else if b == 13 { Some(OpCode::Pop) }
    else if b == 14 { Some(OpCode::JumpIfFalse) }
    else if b == 15 { Some(OpCode::GetLocal) }
    else if b == 16 { Some(OpCode::SetLocal) }
    else if b == 17 { Some(OpCode::Jump) }
    else if b == 18 { Some(OpCode::Loop) }
    else if b == 19 { Some(OpCode::Call) }
    else if b == 20 { Some(OpCode::Closure) }
    else if b == 21 { Some(OpCode::GetUpvalue) }
    else if b == 22 { Some(OpCode::SetUpvalue) }
    else { None }
}

impl OpCode {
    pub fn to_byte(self) -> (r: u8)
        ensures
            r == opcode_byte(self),
            spec_opcode_of(r) == Some(self),
    {
        match self {
            OpCode::Return => 0,
            OpCode::Constant => 1,
            OpCode::Divide => 2,
            OpCode::Add => 3,
            OpCode::Negate => 4,
            OpCode::Multiply => 5,
            OpCode::Substract => 6,
            OpCode::Not => 7,
            OpCode::Equal => 8,
            OpCode::Greater => 9,
            OpCode::Less => 10,
            OpCode::Print => 11,
            OpCode::Nil => 12,
            OpCode::Pop => 13,
            OpCode::JumpIfFalse => 14,
            OpCode::GetLocal => 15,
            OpCode::SetLocal => 16,
            OpCode::Jump => 17,
            OpCode::Loop => 18,
            OpCode::Call => 19,
            OpCode::Closure => 20,
            OpCode::GetUpvalue => 21,
            OpCode::SetUpvalue => 22,
        }
    }

    pub fn from_byte(b: u8) -> (r: Option<OpCode>)
        ensures
            r == spec_opcode_of(b),
    {
        if b == 0 { Some(OpCode::Return) }
        else if b == 1 { Some(OpCode::Constant) }
        else if b == 2 { Some(OpCode::Divide) }
        else if b == 3 { Some(OpCode::Add) }
        else if b == 4 { Some(OpCode::Negate) }
        else if b == 5 { Some(OpCode::Multiply) }
        else if b == 6 { Some(OpCode::Substract) }
        else if b == 7 { Some(OpCode::Not) }
        else if b == 8 { Some(OpCode::Equal) }
        else if b == 9 { Some(OpCode::Greater) }
        else if b == 10 { Some(OpCode::Less) }
        else if b == 11 { Some(OpCode::Print) }
        else if b == 12 { Some(OpCode::Nil) }
        else if b == 13 { Some(OpCode::Pop) }
        else if b == 14 { Some(OpCode::JumpIfFalse) }
        else if b == 15 { Some(OpCode::GetLocal) }
        else if b == 16 { Some(OpCode::SetLocal) }
        else if b == 17 { Some(OpCode::Jump) }
        else if b == 18 { Some(OpCode::Loop) }
        else if b == 19 { Some(OpCode::Call) }
        else if b == 20 { Some(OpCode::Closure) }
        else if b == 21 { Some(OpCode::GetUpvalue) }
        else if b == 22 { Some(OpCode::SetUpvalue) }
        else { None }
    }
}

/// The most code bytes a chunk may hold; appending past it is rejected, so
/// every code offset and every patched operand fits in 32 bits with room for
/// an instruction's worth of operand bytes.
pub const CODE_LIMIT: usize = 0xffff_ff00;

/// The most constants a chunk may hold, so a constant index fits in 32 bits.
pub const CONST_LIMIT: usize = 0xffff_ff00;

/// The big-endian bytes of a 32-bit word.
pub open spec fn be_bytes(x: u32) -> Seq<u8> {
    seq![
        (x >> 24) as u8,
        ((x >> 16) & 0xff) as u8,
        ((x >> 8) & 0xff) as u8,
        (x & 0xff) as u8,
    ]
}

/// The 32-bit word four big-endian bytes spell.
pub open spec fn word_of_be(b0: u8, b1: u8, b2: u8, b3: u8) -> u32 {
    (((b0 as u32) << 24) | ((b1 as u32) << 16) | ((b2 as u32) << 8) | (b3 as u32)) as u32
}

/// Reading back the four big-endian bytes of a word yields the word: an
/// operand written or patched into a chunk decodes to the value it was
/// written with.
pub proof fn lemma_word_of_be_bytes(x: u32)
    ensures
        word_of_be(be_bytes(x)[0], be_bytes(x)[1], be_bytes(x)[2], be_bytes(x)[3]) == x,
{
    assert((((((x >> 24) as u8) as u32) << 24) | (((((x >> 16) & 0xff) as u8) as u32) << 16) | ((
    (((x >> 8) & 0xff) as u8) as u32) << 8) | (((x & 0xff) as u8) as u32)) == x) by (bit_vector);
}

#[derive(Clone, Debug)]
pub struct Chunk {
    pub code: Vec<u8>,
    pub lines: Vec<u32>,
    pub constants: Vec<Value>,
}

impl Chunk {
    /// The code and line tables run in parallel and stay below the limits.
    pub open spec fn wf(self) -> bool {
        &&& self.code@.len() == self.lines@.len()
        &&& self.code@.len() <= CODE_LIMIT
        &&& self.constants@.len() <= CONST_LIMIT
    }

    pub fn new() -> (r: Chunk)
        ensures
            r.wf(),
            r.code@.len() == 0,
            r.constants@.len() == 0,
    {
        Chunk { code: Vec::new(), lines: Vec::new(), constants: Vec::new() }
    }

    pub fn size(&self) -> (r: usize)
        ensures
            r == self.code@.len(),
    {
        self.code.len()
    }

    /// Append one raw code byte, recording its source line. Refused (leaving
    /// the chunk unchanged) when the chunk is full.
    pub fn write_u8(&mut self, b: u8, line: u32) -> (ok: bool)
        requires
            old(self).wf(),
        ensures
            final(self).wf(),
            ok == (old(self).code@.len() + 1 <= CODE_LIMIT),
            ok ==> final(self).code@ == old(self).code@.push(b)
                && final(self).lines@ == old(self).lines@.push(line)
                && final(self).constants == old(self).constants,
            !ok ==> *final(self) == *old(self),
    {
        if self.code.len() < CODE_LIMIT {
            self.code.push(b);
            self.lines.push(line);
            true
        } else {
            false
        }
    }

    /// Append one opcode, recording its source line.
    pub fn write_chunk(&mut self, op: OpCode, line: u32) -> (ok: bool)
        requires
            old(self).wf(),
        ensures
            final(self).wf(),
            ok == (old(self).code@.len() + 1 <= CODE_LIMIT),
            ok ==> final(self).code@ == old(self).code@.push(opcode_byte(op))
                && final(self).lines@ == old(self).lines@.push(line)
                && final(self).constants == old(self).constants,
            !ok ==> *final(self) == *old(self),
    {
        let b = op.to_byte();
        self.write_u8(b, line)
    }

    /// Append a 32-bit big-endian operand, recording the line for each of its
    /// four bytes. Refused (leaving the chunk unchanged) when it cannot fit.
    pub fn write_u32(&mut self, x: u32, line: u32) -> (ok: bool)
        requires
            old(self).wf(),
        ensures
            final(self).wf(),
            ok == (old(self).code@.len() + 4 <= CODE_LIMIT),
            ok ==> final(self).code@ == old(self).code@ + be_bytes(x)
                && final(self).lines@ == old(self).lines@ + seq![line, line, line, line]
                && final(self).constants == old(self).constants,
            !ok ==> *final(self) == *old(self),
    {
        if self.code.len() <= CODE_LIMIT - 4 {
            assert((x >> 24) < 256 && ((x >> 16) & 0xff) < 256 && ((x >> 8) & 0xff) < 256 && (
            x & 0xff) < 256) by (bit_vector);
            self.code.push((x >> 24) as u8);
            self.code.push(((x >> 16) & 0xff) as u8);
            self.code.push(((x >> 8) & 0xff) as u8);
            self.code.push((x & 0xff) as u8);
            self.lines.push(line);
            self.lines.push(line);
            self.lines.push(line);
            self.lines.push(line);
            proof {
                assert(self.code@ =~= old(self).code@ + be_bytes(x));
                assert(self.lines@ =~= old(self).lines@ + seq![line, line, line, line]);
            }
            true
        } else {
            false
        }
    }

    /// Overwrite the four code bytes at `at` with the big-endian word `x`,
    /// leaving everything else alone.
    pub fn patch_u32(&mut self, at: usize, x: u32)
        requires
            old(self).wf(),
            at + 4 <= old(self).code@.len(),
        ensures
            final(self).wf(),
            final(self).code@.len() == old(self).code@.len(),
            final(self).code@ == old(self).code@
                .update(at as int, be_bytes(x)[0])
                .update(at + 1, be_bytes(x)[1])
                .update(at + 2, be_bytes(x)[2])
                .update(at + 3, be_bytes(x)[3]),
            final(self).lines == old(self).lines,
            final(self).constants == old(self).constants,
    {
        assert((x >> 24) < 256 && ((x >> 16) & 0xff) < 256 && ((x >> 8) & 0xff) < 256 && (
        x & 0xff) < 256) by (bit_vector);
        self.code.set(at, (x >> 24) as u8);
        self.code.set(at + 1, ((x >> 16) & 0xff) as u8);
        self.code.set(at + 2, ((x >> 8) & 0xff) as u8);
        self.code.set(at + 3, (x & 0xff) as u8);
    }

    /// Append a constant and return its index, or nothing when the pool is
    /// full.
    pub fn add_constant(&mut self, v: Value) -> (r: Option<u32>)
        requires
            old(self).wf(),
        ensures
            final(self).wf(),
            final(self).code == old(self).code,
            final(self).lines == old(self).lines,
            r is Some ==> final(self).constants@ == old(self).constants@.push(v)
                && r->Some_0 == old(self).constants@.len(),
            r is None ==> *final(self) == *old(self)
                && old(self).constants@.len() >= CONST_LIMIT,
    {
        if self.constants.len() < CONST_LIMIT {
            let i = self.constants.len() as u32;
            self.constants.push(v);
            Some(i)
        } else {
            None
        }
    }
}

/// A compiled function: immutable once compilation of its body ends.
#[derive(Clone, Debug)]
pub struct Function {
    pub arity: u32,
    pub upvalue_count: u32,
    pub chunk: Chunk,
    pub name: Vec<u8>,
}

impl Function {
    pub fn new(arity: u32, name: Vec<u8>) -> (r: Function)
        ensures
            r.arity == arity,
            r.name == name,
            r.upvalue_count == 0,
            r.chunk.wf(),
            r.chunk.code@.len() == 0,
            r.chunk.constants@.len() == 0,
    {
        Function { arity, upvalue_count: 0, chunk: Chunk::new(), name }
    }
}

/// Whether a constant-pool value makes sense against the given table sizes:
/// only data values appear in a pool, never runtime-arena references.
pub open spec fn const_ok(v: Value, nfuncs: int, nstrings: int) -> bool {
    match v {
        Value::Str(s) => s < nstrings,
        Value::Fun(f) => f < nfuncs,
        Value::Closure(_) => false,
        Value::Lifted(_) => false,
        Value::NativeClock => false,
        _ => true,
    }
}

/// A well-formed chunk against the given table sizes.
pub open spec fn chunk_ok(c: Chunk, nfuncs: int, nstrings: int) -> bool {
    &&& c.wf()
    &&& forall|i: int|
        0 <= i < c.constants@.len() ==> const_ok(#[trigger] c.constants@[i], nfuncs, nstrings)
}

/// A chunk well-formed against some table sizes stays well-formed when the
/// tables only grow.
pub proof fn lemma_chunk_ok_grow(c: Chunk, nf1: int, ns1: int, nf2: int, ns2: int)
    requires
        chunk_ok(c, nf1, ns1),
        nf2 >= nf1,
        ns2 >= ns1,
    ensures
        chunk_ok(c, nf2, ns2),
{
    assert forall|i: int| 0 <= i < c.constants@.len() implies const_ok(
        #[trigger] c.constants@[i],
        nf2,
        ns2,
    ) by {
        assert(const_ok(c.constants@[i], nf1, ns1));
    }
}

/// A compiled program: the function table, the interned string table, and
/// the index of the top-level script function.
#[derive(Clone, Debug)]
pub struct Program {
    pub funcs: Vec<Function>,
    pub strings: Vec<Vec<u8>>,
    pub script: usize,
}

/// In a well-formed program every code position of every chunk has a line
/// entry: the line table runs exactly in parallel with the code.
pub proof fn lemma_lines_cover_code(p: Program, f: int)
    requires
        p.wf(),
        0 <= f < p.funcs@.len(),
    ensures
        p.funcs@[f].chunk.lines@.len() == p.funcs@[f].chunk.code@.len(),
{
    assert(chunk_ok(p.funcs@[f].chunk, p.funcs@.len() as int, p.strings@.len() as int));
}

impl Program {
    pub open spec fn wf(self) -> bool {
        &&& self.script < self.funcs@.len()
        &&& forall|f: int|
            0 <= f < self.funcs@.len() ==> chunk_ok(
                (#[trigger] self.funcs@[f]).chunk,
                self.funcs@.len() as int,
                self.strings@.len() as int,
            )
    }
}

} // verus!
