//! The decoded instruction set: one struct per opcode carrying its decoded
//! operands, the closed instruction enum, and the exact decode/encode pair
//! for the 32-bit little-endian instruction word format.
use vstd::prelude::*;
use crate::error::LoadError;
use crate::instruction::{
    Reg, DataSource, Count, op_field, a_field, b_field, c_field, bx_field, sbx_field,
    spec_data_source, spec_data_source_raw, spec_count_of, spec_count_raw, parse_A_B, parse_A_Bx,
    parse_A_sBx, parse_A_B_C,
};

verus! {

/// `R(A) := R(B)`
#[derive(Debug, Clone, Copy, PartialEq, Eq, Structural)]
pub struct Move { pub to: Reg, pub from: Reg }

/// `R(A) := Kst(Bx)`
#[derive(Debug, Clone, Copy, PartialEq, Eq, Structural)]
pub struct LoadK { pub local: Reg, pub constant: Reg }

/// `R(A) := (Bool)B; if (C) pc++`
#[derive(Debug, Clone, Copy, PartialEq, Eq, Structural)]
pub struct LoadBool { pub reg: Reg, pub value: bool, pub jump: bool }

/// `R(A), R(A+1), ..., R(A+B) := nil`
#[derive(Debug, Clone, Copy, PartialEq, Eq, Structural)]
pub struct LoadNil { pub start: Reg, pub range: usize }

/// `R(A) := UpValue[B]`
#[derive(Debug, Clone, Copy, PartialEq, Eq, Structural)]
pub struct GetUpval { pub reg: Reg, pub upvalue: usize }

/// `R(A) := UpValue[B][RK(C)]`
#[derive(Debug, Clone, Copy, PartialEq, Eq, Structural)]
pub struct GetTabUp { pub reg: Reg, pub upvalue: usize, pub constant: DataSource }

/// `R(A) := R(B)[RK(C)]`
#[derive(Debug, Clone, Copy, PartialEq, Eq, Structural)]
pub struct GetTable { pub a: Reg, pub b: Reg, pub c: DataSource }

/// `UpValue[A][RK(B)] := RK(C)`
#[derive(Debug, Clone, Copy, PartialEq, Eq, Structural)]
pub struct SetTabUp { pub upval: usize, pub key: DataSource, pub value: DataSource }

/// `R(A)[RK(B)] := RK(C)`
#[derive(Debug, Clone, Copy, PartialEq, Eq, Structural)]
pub struct SetTable { pub a: Reg, pub b: DataSource, pub c: DataSource }

/// `R(A) := {} (the size hints in B and C are not kept)`
#[derive(Debug, Clone, Copy, PartialEq, Eq, Structural)]
pub struct NewTable { pub a: Reg }

/// `R(A+1) := R(B); R(A) := R(B)[RK(C)]`
#[derive(Debug, Clone, Copy, PartialEq, Eq, Structural)]
pub struct SelfOp { pub a: Reg, pub table: Reg, pub key: DataSource }

/// `R(A) := RK(B) op RK(C)`
#[derive(Debug, Clone, Copy, PartialEq, Eq, Structural)]
pub struct Add { pub a: Reg, pub b: DataSource, pub c: DataSource }

/// `R(A) := RK(B) op RK(C)`
#[derive(Debug, Clone, Copy, PartialEq, Eq, Structural)]
pub struct Sub { pub a: Reg, pub b: DataSource, pub c: DataSource }

/// `R(A) := RK(B) op RK(C)`
#[derive(Debug, Clone, Copy, PartialEq, Eq, Structural)]
pub struct Mul { pub a: Reg, pub b: DataSource, pub c: DataSource }

/// `R(A) := RK(B) op RK(C)`
#[derive(Debug, Clone, Copy, PartialEq, Eq, Structural)]
pub struct Mod { pub a: Reg, pub b: DataSource, pub c: DataSource }

/// `R(A) := RK(B) op RK(C)`
#[derive(Debug, Clone, Copy, PartialEq, Eq, Structural)]
pub struct Pow { pub a: Reg, pub b: DataSource, pub c: DataSource }

/// `R(A) := RK(B) op RK(C)`
#[derive(Debug, Clone, Copy, PartialEq, Eq, Structural)]
pub struct Div { pub a: Reg, pub b: DataSource, pub c: DataSource }

/// `R(A) := RK(B) op RK(C)`
#[derive(Debug, Clone, Copy, PartialEq, Eq, Structural)]
pub struct IDiv { pub a: Reg, pub b: DataSource, pub c: DataSource }

/// `R(A) := RK(B) op RK(C)`
#[derive(Debug, Clone, Copy, PartialEq, Eq, Structural)]
pub struct BAnd { pub a: Reg, pub b: DataSource, pub c: DataSource }

/// `R(A) := RK(B) op RK(C)`
#[derive(Debug, Clone, Copy, PartialEq, Eq, Structural)]
pub struct BOr { pub a: Reg, pub b: DataSource, pub c: DataSource }

/// `R(A) := RK(B) op RK(C)`
#[derive(Debug, Clone, Copy, PartialEq, Eq, Structural)]
pub struct BXor { pub a: Reg, pub b: DataSource, pub c: DataSource }

/// `R(A) := RK(B) op RK(C)`
#[derive(Debug, Clone, Copy, PartialEq, Eq, Structural)]
pub struct Shl { pub a: Reg, pub b: DataSource, pub c: DataSource }

/// `R(A) := RK(B) op RK(C)`
#[derive(Debug, Clone, Copy, PartialEq, Eq, Structural)]
pub struct Shr { pub a: Reg, pub b: DataSource, pub c: DataSource }

/// `R(A) := op R(B)`
#[derive(Debug, Clone, Copy, PartialEq, Eq, Structural)]
pub struct Unm { pub a: Reg, pub b: Reg }

/// `R(A) := op R(B)`
#[derive(Debug, Clone, Copy, PartialEq, Eq, Structural)]
pub struct BNot { pub a: Reg, pub b: Reg }

/// `R(A) := op R(B)`
#[derive(Debug, Clone, Copy, PartialEq, Eq, Structural)]
pub struct Not { pub a: Reg, pub b: Reg }

/// `R(A) := op R(B)`
#[derive(Debug, Clone, Copy, PartialEq, Eq, Structural)]
pub struct Len { pub a: Reg, pub b: Reg }

/// `R(A) := R(B).. ... ..R(C)`
#[derive(Debug, Clone, Copy, PartialEq, Eq, Structural)]
pub struct Concat { pub a: Reg, pub b: Reg, pub c: Reg }

/// `pc += sBx`
#[derive(Debug, Clone, Copy, PartialEq, Eq, Structural)]
pub struct Jmp { pub a: Reg, pub jump: isize }

/// `if ((RK(B) == RK(C)) ~= A) then pc++`
#[derive(Debug, Clone, Copy, PartialEq, Eq, Structural)]
pub struct Equals { pub lhs: DataSource, pub rhs: DataSource, pub inverted: bool }

/// `if ((RK(B) < RK(C)) ~= A) then pc++`
#[derive(Debug, Clone, Copy, PartialEq, Eq, Structural)]
pub struct LessThan { pub lhs: DataSource, pub rhs: DataSource, pub inverted: bool }

/// `if ((RK(B) <= RK(C)) ~= A) then pc++`
#[derive(Debug, Clone, Copy, PartialEq, Eq, Structural)]
pub struct LessThanOrEquals { pub lhs: DataSource, pub rhs: DataSource, pub inverted: bool }

/// `if not (R(A) <=> C) then pc++`
#[derive(Debug, Clone, Copy, PartialEq, Eq, Structural)]
pub struct Test { pub value: Reg, pub constant: bool }

/// `if (R(B) <=> C) then R(A) := R(B) else pc++`
#[derive(Debug, Clone, Copy, PartialEq, Eq, Structural)]
pub struct TestSet { pub reg: Reg, pub value: Reg, pub constant: bool }

/// `R(A), ..., R(A+C-2) := R(A)(R(A+1), ..., R(A+B-1))`
#[derive(Debug, Clone, Copy, PartialEq, Eq, Structural)]
pub struct Call { pub function: Reg, pub params: Count, pub returns: Count }

/// `return R(A)(R(A+1), ..., R(A+B-1))`
#[derive(Debug, Clone, Copy, PartialEq, Eq, Structural)]
pub struct Tailcall { pub function: Reg, pub params: Count, pub c: Reg }

/// `return R(A), ..., R(A+B-2)`
#[derive(Debug, Clone, Copy, PartialEq, Eq, Structural)]
pub struct Return { pub base: Reg, pub count: Count }

/// `R(A) += R(A+2); if R(A) <?= R(A+1) then { pc += sBx; R(A+3) = R(A) }`
#[derive(Debug, Clone, Copy, PartialEq, Eq, Structural)]
pub struct ForLoop { pub a: Reg, pub jump: isize }

/// `R(A) -= R(A+2); pc += sBx`
#[derive(Debug, Clone, Copy, PartialEq, Eq, Structural)]
pub struct ForPrep { pub a: Reg, pub jump: isize }

/// `R(A) := closure(KPROTO[Bx])`
#[derive(Debug, Clone, Copy, PartialEq, Eq, Structural)]
pub struct Closure { pub a: Reg, pub b: Reg }


/// The closed set of decodable instructions, each with its operands.
#[derive(Debug, Clone, Copy, PartialEq, Eq, Structural)]
pub enum Instruction {
    MOVE(Move),
    LOADK(LoadK),
    LOADBOOL(LoadBool),
    LOADNIL(LoadNil),
    GETUPVAL(GetUpval),
    GETTABUP(GetTabUp),
    GETTABLE(GetTable),
    SETTABUP(SetTabUp),
    SETTABLE(SetTable),
    NEWTABLE(NewTable),
    SELF(SelfOp),
    ADD(Add),
    SUB(Sub),
    MUL(Mul),
    MOD(Mod),
    POW(Pow),
    DIV(Div),
    IDIV(IDiv),
    BAND(BAnd),
    BOR(BOr),
    BXOR(BXor),
    SHL(Shl),
    SHR(Shr),
    UNM(Unm),
    BNOT(BNot),
    NOT(Not),
    LEN(Len),
    CONCAT(Concat),
    JMP(Jmp),
    EQ(Equals),
    LT(LessThan),
    LE(LessThanOrEquals),
    TEST(Test),
    TESTSET(TestSet),
    CALL(Call),
    TAILCALL(Tailcall),
    RETURN(Return),
    FORLOOP(ForLoop),
    FORPREP(ForPrep),
    CLOSURE(Closure),
}

/// Decode of one 32-bit instruction word: opcode from the low six bits, the
/// remaining bits sliced by the opcode's operand layout. `None` for an opcode
/// outside the supported set.
pub open spec fn spec_decode(d: u32) -> Option<Instruction> {
    let op = op_field(d);
    let a = a_field(d) as usize;
    let b = b_field(d) as usize;
    let c = c_field(d) as usize;
    let bx = bx_field(d) as usize;
    let sbx = sbx_field(d);
    if op == 0 {
        Some(Instruction::MOVE(Move { to: a, from: b }))
    } else
    if op == 1 {
        Some(Instruction::LOADK(LoadK { local: a, constant: bx }))
    } else
    if op == 3 {
        Some(Instruction::LOADBOOL(LoadBool { reg: a, value: b > 0, jump: c > 0 }))
    } else
    if op == 4 {
        Some(Instruction::LOADNIL(LoadNil { start: a, range: b }))
    } else
    if op == 5 {
        Some(Instruction::GETUPVAL(GetUpval { reg: a, upvalue: b }))
    } else
    if op == 6 {
        Some(Instruction::GETTABUP(GetTabUp { reg: a, upvalue: b, constant: spec_data_source(c) }))
    } else
    if op == 7 {
        Some(Instruction::GETTABLE(GetTable { a: a, b: b, c: spec_data_source(c) }))
    } else
    if op == 8 {
        Some(Instruction::SETTABUP(SetTabUp { upval: a, key: spec_data_source(b), value: spec_data_source(c) }))
    } else
    if op == 10 {
        Some(Instruction::SETTABLE(SetTable { a: a, b: spec_data_source(b), c: spec_data_source(c) }))
    } else
    if op == 11 {
        Some(Instruction::NEWTABLE(NewTable { a: a }))
    } else
    if op == 12 {
        Some(Instruction::SELF(SelfOp { a: a, table: b, key: spec_data_source(c) }))
    } else
    if op == 13 {
        Some(Instruction::ADD(Add { a: a, b: spec_data_source(b), c: spec_data_source(c) }))
    } else
    if op == 14 {
        Some(Instruction::SUB(Sub { a: a, b: spec_data_source(b), c: spec_data_source(c) }))
    } else
    if op == 15 {
        Some(Instruction::MUL(Mul { a: a, b: spec_data_source(b), c: spec_data_source(c) }))
    } else
    if op == 16 {
        Some(Instruction::MOD(Mod { a: a, b: spec_data_source(b), c: spec_data_source(c) }))
    } else
    if op == 17 {
        Some(Instruction::POW(Pow { a: a, b: spec_data_source(b), c: spec_data_source(c) }))
    } else
    if op == 18 {
        Some(Instruction::DIV(Div { a: a, b: spec_data_source(b), c: spec_data_source(c) }))
    } else
    if op == 19 {
        Some(Instruction::IDIV(IDiv { a: a, b: spec_data_source(b), c: spec_data_source(c) }))
    } else
    if op == 20 {
        Some(Instruction::BAND(BAnd { a: a, b: spec_data_source(b), c: spec_data_source(c) }))
    } else
    if op == 21 {
        Some(Instruction::BOR(BOr { a: a, b: spec_data_source(b), c: spec_data_source(c) }))
    } else
    if op == 22 {
        Some(Instruction::BXOR(BXor { a: a, b: spec_data_source(b), c: spec_data_source(c) }))
    } else
    if op == 23 {
        Some(Instruction::SHL(Shl { a: a, b: spec_data_source(b), c: spec_data_source(c) }))
    } else
    if op == 24 {
        Some(Instruction::SHR(Shr { a: a, b: spec_data_source(b), c: spec_data_source(c) }))
    } else
    if op == 25 {
        Some(Instruction::UNM(Unm { a: a, b: b }))
    } else
    if op == 26 {
        Some(Instruction::BNOT(BNot { a: a, b: b }))
    } else
    if op == 27 {
        Some(Instruction::NOT(Not { a: a, b: b }))
    } else
    if op == 28 {
        Some(Instruction::LEN(Len { a: a, b: b }))
    } else
    if op == 29 {
        Some(Instruction::CONCAT(Concat { a: a, b: b, c: c }))
    } else
    if op == 30 {
        Some(Instruction::JMP(Jmp { a: a, jump: sbx as isize }))
    } else
    if op == 31 {
        Some(Instruction::EQ(Equals { lhs: spec_data_source(b), rhs: spec_data_source(c), inverted: a == 0 }))
    } else
    if op == 32 {
        Some(Instruction::LT(LessThan { lhs: spec_data_source(b), rhs: spec_data_source(c), inverted: a == 0 }))
    } else
    if op == 33 {
        Some(Instruction::LE(LessThanOrEquals { lhs: spec_data_source(b), rhs: spec_data_source(c), inverted: a == 0 }))
    } else
    if op == 34 {
        Some(Instruction::TEST(Test { value: a, constant: c > 0 }))
    } else
    if op == 35 {
        Some(Instruction::TESTSET(TestSet { reg: a, value: b, constant: c > 0 }))
    } else
    if op == 36 {
        Some(Instruction::CALL(Call { function: a, params: spec_count_of(b), returns: spec_count_of(c) }))
    } else
    if op == 37 {
        Some(Instruction::TAILCALL(Tailcall { function: a, params: spec_count_of(b), c: c }))
    } else
    if op == 38 {
        Some(Instruction::RETURN(Return { base: a, count: spec_count_of(b) }))
    } else
    if op == 39 {
        Some(Instruction::FORLOOP(ForLoop { a: a, jump: sbx as isize }))
    } else
    if op == 40 {
        Some(Instruction::FORPREP(ForPrep { a: a, jump: sbx as isize }))
    } else
    if op == 44 {
        Some(Instruction::CLOSURE(Closure { a: a, b: bx }))
    } else {
        None
    }
}


impl Instruction {
    /// Every operand fits the bitfield that carries it.
    pub open spec fn wf(self) -> bool {
        match self {
            Instruction::MOVE(s) => s.to < 256 && s.from < 512,
            Instruction::LOADK(s) => s.local < 256 && s.constant < 262144,
            Instruction::LOADBOOL(s) => s.reg < 256,
            Instruction::LOADNIL(s) => s.start < 256 && s.range < 512,
            Instruction::GETUPVAL(s) => s.reg < 256 && s.upvalue < 512,
            Instruction::GETTABUP(s) => s.reg < 256 && s.upvalue < 512 && s.constant.wf(),
            Instruction::GETTABLE(s) => s.a < 256 && s.b < 512 && s.c.wf(),
            Instruction::SETTABUP(s) => s.upval < 256 && s.key.wf() && s.value.wf(),
            Instruction::SETTABLE(s) => s.a < 256 && s.b.wf() && s.c.wf(),
            Instruction::NEWTABLE(s) => s.a < 256,
            Instruction::SELF(s) => s.a < 256 && s.table < 512 && s.key.wf(),
            Instruction::ADD(s) => s.a < 256 && s.b.wf() && s.c.wf(),
            Instruction::SUB(s) => s.a < 256 && s.b.wf() && s.c.wf(),
            Instruction::MUL(s) => s.a < 256 && s.b.wf() && s.c.wf(),
            Instruction::MOD(s) => s.a < 256 && s.b.wf() && s.c.wf(),
            Instruction::POW(s) => s.a < 256 && s.b.wf() && s.c.wf(),
            Instruction::DIV(s) => s.a < 256 && s.b.wf() && s.c.wf(),
            Instruction::IDIV(s) => s.a < 256 && s.b.wf() && s.c.wf(),
            Instruction::BAND(s) => s.a < 256 && s.b.wf() && s.c.wf(),
            Instruction::BOR(s) => s.a < 256 && s.b.wf() && s.c.wf(),
            Instruction::BXOR(s) => s.a < 256 && s.b.wf() && s.c.wf(),
            Instruction::SHL(s) => s.a < 256 && s.b.wf() && s.c.wf(),
            Instruction::SHR(s) => s.a < 256 && s.b.wf() && s.c.wf(),
            Instruction::UNM(s) => s.a < 256 && s.b < 512,
            Instruction::BNOT(s) => s.a < 256 && s.b < 512,
            Instruction::NOT(s) => s.a < 256 && s.b < 512,
            Instruction::LEN(s) => s.a < 256 && s.b < 512,
            Instruction::CONCAT(s) => s.a < 256 && s.b < 512 && s.c < 512,
            Instruction::JMP(s) => s.a < 256 && -131071 <= s.jump <= 131072,
            Instruction::EQ(s) => s.lhs.wf() && s.rhs.wf(),
            Instruction::LT(s) => s.lhs.wf() && s.rhs.wf(),
            Instruction::LE(s) => s.lhs.wf() && s.rhs.wf(),
            Instruction::TEST(s) => s.value < 256,
            Instruction::TESTSET(s) => s.reg < 256 && s.value < 512,
            Instruction::CALL(s) => s.function < 256 && s.params.wf() && s.returns.wf(),
            Instruction::TAILCALL(s) => s.function < 256 && s.params.wf() && s.c < 512,
            Instruction::RETURN(s) => s.base < 256 && s.count.wf(),
            Instruction::FORLOOP(s) => s.a < 256 && -131071 <= s.jump <= 131072,
            Instruction::FORPREP(s) => s.a < 256 && -131071 <= s.jump <= 131072,
            Instruction::CLOSURE(s) => s.a < 256 && s.b < 262144,
        }
    }
}

/// Assembly of an A/B/C-layout word.
pub open spec fn spec_enc_abc(op: u32, a: u32, b: u32, c: u32) -> u32 {
    op | (a << 6) | (c << 14) | (b << 23)
}

/// Assembly of an A/Bx-layout word.
pub open spec fn spec_enc_abx(op: u32, a: u32, bx: u32) -> u32 {
    op | (a << 6) | (bx << 14)
}

/// The instruction word that a (well-formed) instruction decodes from.
pub open spec fn spec_encode(i: Instruction) -> u32 {
    match i {
        Instruction::MOVE(s) => spec_enc_abc(0, (s.to) as u32, (s.from) as u32, (0) as u32),
        Instruction::LOADK(s) => spec_enc_abx(1, (s.local) as u32, (s.constant) as u32),
        Instruction::LOADBOOL(s) => spec_enc_abc(3, (s.reg) as u32, if s.value { 1u32 } else { 0u32 }, if s.jump { 1u32 } else { 0u32 }),
        Instruction::LOADNIL(s) => spec_enc_abc(4, (s.start) as u32, (s.range) as u32, (0) as u32),
        Instruction::GETUPVAL(s) => spec_enc_abc(5, (s.reg) as u32, (s.upvalue) as u32, (0) as u32),
        Instruction::GETTABUP(s) => spec_enc_abc(6, (s.reg) as u32, (s.upvalue) as u32, (spec_data_source_raw(s.constant)) as u32),
        Instruction::GETTABLE(s) => spec_enc_abc(7, (s.a) as u32, (s.b) as u32, (spec_data_source_raw(s.c)) as u32),
        Instruction::SETTABUP(s) => spec_enc_abc(8, (s.upval) as u32, (spec_data_source_raw(s.key)) as u32, (spec_data_source_raw(s.value)) as u32),
        Instruction::SETTABLE(s) => spec_enc_abc(10, (s.a) as u32, (spec_data_source_raw(s.b)) as u32, (spec_data_source_raw(s.c)) as u32),
        Instruction::NEWTABLE(s) => spec_enc_abc(11, (s.a) as u32, (0) as u32, (0) as u32),
        Instruction::SELF(s) => spec_enc_abc(12, (s.a) as u32, (s.table) as u32, (spec_data_source_raw(s.key)) as u32),
        Instruction::ADD(s) => spec_enc_abc(13, (s.a) as u32, (spec_data_source_raw(s.b)) as u32, (spec_data_source_raw(s.c)) as u32),
        Instruction::SUB(s) => spec_enc_abc(14, (s.a) as u32, (spec_data_source_raw(s.b)) as u32, (spec_data_source_raw(s.c)) as u32),
        Instruction::MUL(s) => spec_enc_abc(15, (s.a) as u32, (spec_data_source_raw(s.b)) as u32, (spec_data_source_raw(s.c)) as u32),
        Instruction::MOD(s) => spec_enc_abc(16, (s.a) as u32, (spec_data_source_raw(s.b)) as u32, (spec_data_source_raw(s.c)) as u32),
        Instruction::POW(s) => spec_enc_abc(17, (s.a) as u32, (spec_data_source_raw(s.b)) as u32, (spec_data_source_raw(s.c)) as u32),
        Instruction::DIV(s) => spec_enc_abc(18, (s.a) as u32, (spec_data_source_raw(s.b)) as u32, (spec_data_source_raw(s.c)) as u32),
        Instruction::IDIV(s) => spec_enc_abc(19, (s.a) as u32, (spec_data_source_raw(s.b)) as u32, (spec_data_source_raw(s.c)) as u32),
        Instruction::BAND(s) => spec_enc_abc(20, (s.a) as u32, (spec_data_source_raw(s.b)) as u32, (spec_data_source_raw(s.c)) as u32),
        Instruction::BOR(s) => spec_enc_abc(21, (s.a) as u32, (spec_data_source_raw(s.b)) as u32, (spec_data_source_raw(s.c)) as u32),
        Instruction::BXOR(s) => spec_enc_abc(22, (s.a) as u32, (spec_data_source_raw(s.b)) as u32, (spec_data_source_raw(s.c)) as u32),
        Instruction::SHL(s) => spec_enc_abc(23, (s.a) as u32, (spec_data_source_raw(s.b)) as u32, (spec_data_source_raw(s.c)) as u32),
        Instruction::SHR(s) => spec_enc_abc(24, (s.a) as u32, (spec_data_source_raw(s.b)) as u32, (spec_data_source_raw(s.c)) as u32),
        Instruction::UNM(s) => spec_enc_abc(25, (s.a) as u32, (s.b) as u32, (0) as u32),
        Instruction::BNOT(s) => spec_enc_abc(26, (s.a) as u32, (s.b) as u32, (0) as u32),
        Instruction::NOT(s) => spec_enc_abc(27, (s.a) as u32, (s.b) as u32, (0) as u32),
        Instruction::LEN(s) => spec_enc_abc(28, (s.a) as u32, (s.b) as u32, (0) as u32),
        Instruction::CONCAT(s) => spec_enc_abc(29, (s.a) as u32, (s.b) as u32, (s.c) as u32),
        Instruction::JMP(s) => spec_enc_abx(30, (s.a) as u32, (s.jump + 131071) as u32),
        Instruction::EQ(s) => spec_enc_abc(31, if s.inverted { 0u32 } else { 1u32 }, (spec_data_source_raw(s.lhs)) as u32, (spec_data_source_raw(s.rhs)) as u32),
        Instruction::LT(s) => spec_enc_abc(32, if s.inverted { 0u32 } else { 1u32 }, (spec_data_source_raw(s.lhs)) as u32, (spec_data_source_raw(s.rhs)) as u32),
        Instruction::LE(s) => spec_enc_abc(33, if s.inverted { 0u32 } else { 1u32 }, (spec_data_source_raw(s.lhs)) as u32, (spec_data_source_raw(s.rhs)) as u32),
        Instruction::TEST(s) => spec_enc_abc(34, (s.value) as u32, (0) as u32, if s.constant { 1u32 } else { 0u32 }),
        Instruction::TESTSET(s) => spec_enc_abc(35, (s.reg) as u32, (s.value) as u32, if s.constant { 1u32 } else { 0u32 }),
        Instruction::CALL(s) => spec_enc_abc(36, (s.function) as u32, (spec_count_raw(s.params)) as u32, (spec_count_raw(s.returns)) as u32),
        Instruction::TAILCALL(s) => spec_enc_abc(37, (s.function) as u32, (spec_count_raw(s.params)) as u32, (s.c) as u32),
        Instruction::RETURN(s) => spec_enc_abc(38, (s.base) as u32, (spec_count_raw(s.count)) as u32, (0) as u32),
        Instruction::FORLOOP(s) => spec_enc_abx(39, (s.a) as u32, (s.jump + 131071) as u32),
        Instruction::FORPREP(s) => spec_enc_abx(40, (s.a) as u32, (s.jump + 131071) as u32),
        Instruction::CLOSURE(s) => spec_enc_abx(44, (s.a) as u32, (s.b) as u32),
    }
}


/// Raw field value of a well-formed RK operand.
pub fn data_source_raw(s: DataSource) -> (r: usize)
    requires
        s.wf(),
    ensures
        r == spec_data_source_raw(s),
{
    match s {
        DataSource::Register(i) => i,
        DataSource::Constant(i) => i + 256,
    }
}

/// Raw field value of a well-formed count.
pub fn count_raw(c: Count) -> (r: usize)
    requires
        c.wf(),
    ensures
        r == spec_count_raw(c),
{
    match c {
        Count::Unknown => 0,
        Count::Known(n) => n + 1,
    }
}

/// Assembles an A/B/C word.
fn enc_abc(op: u32, a: u32, b: u32, c: u32) -> (d: u32)
    requires
        op < 64,
        a < 256,
        b < 512,
        c < 512,
    ensures
        d == spec_enc_abc(op, a, b, c),
{
    op | (a << 6u32) | (c << 14u32) | (b << 23u32)
}

/// Assembles an A/Bx word.
fn enc_abx(op: u32, a: u32, bx: u32) -> (d: u32)
    requires
        op < 64,
        a < 256,
        bx < 262144,
    ensures
        d == spec_enc_abx(op, a, bx),
{
    op | (a << 6u32) | (bx << 14u32)
}

/// Field extraction inverts A/B/C word assembly.
proof fn lemma_enc_abc(op: u32, a: u32, b: u32, c: u32)
    requires
        op < 64,
        a < 256,
        b < 512,
        c < 512,
    ensures
        op_field(spec_enc_abc(op, a, b, c)) == op,
        a_field(spec_enc_abc(op, a, b, c)) == a,
        b_field(spec_enc_abc(op, a, b, c)) == b,
        c_field(spec_enc_abc(op, a, b, c)) == c,
{
    assert((op | (a << 6) | (c << 14) | (b << 23)) & 63 == op && ((op | (a << 6) | (c << 14) | (b
        << 23)) >> 6) & 0xff == a && ((op | (a << 6) | (c << 14) | (b << 23)) >> 23) & 0x1ff == b
        && ((op | (a << 6) | (c << 14) | (b << 23)) >> 14) & 0x1ff == c) by (bit_vector)
        requires
            op < 64u32 && a < 256u32 && b < 512u32 && c < 512u32,
    ;
}

/// Field extraction inverts A/Bx word assembly.
proof fn lemma_enc_abx(op: u32, a: u32, bx: u32)
    requires
        op < 64,
        a < 256,
        bx < 262144,
    ensures
        op_field(spec_enc_abx(op, a, bx)) == op,
        a_field(spec_enc_abx(op, a, bx)) == a,
        bx_field(spec_enc_abx(op, a, bx)) == bx,
{
    assert((op | (a << 6) | (bx << 14)) & 63 == op && ((op | (a << 6) | (bx << 14)) >> 6) & 0xff
        == a && ((op | (a << 6) | (bx << 14)) >> 14) & 0x3ffff == bx) by (bit_vector)
        requires
            op < 64u32 && a < 256u32 && bx < 262144u32,
    ;
}

/// An RK operand survives the trip through its raw field value.
proof fn lemma_ds_round_trip(s: DataSource)
    requires
        s.wf(),
    ensures
        spec_data_source((spec_data_source_raw(s) as u32) as usize) == s,
{
    match s {
        DataSource::Register(i) => {
        },
        DataSource::Constant(i) => {
            let x: usize = (i + 256) as usize;
            assert(x & 0xff == x - 256) by (bit_vector)
                requires
                    256 <= x && x < 512,
            ;
        },
    }
}



/// The bitfields of any word are within their widths.
proof fn lemma_field_bounds(d: u32)
    ensures
        a_field(d) < 256,
        b_field(d) < 512,
        c_field(d) < 512,
        bx_field(d) < 262144,
        -131071 <= sbx_field(d) <= 131072,
{
    assert((d >> 6) & 0xff < 256 && (d >> 23) & 0x1ff < 512 && (d >> 14) & 0x1ff < 512 && (d >> 14)
        & 0x3ffff < 262144) by (bit_vector);
}

/// A 9-bit field decodes to a well-formed RK operand.
proof fn lemma_ds_wf(v: usize)
    requires
        v < 512,
    ensures
        spec_data_source(v).wf(),
{
    if v >= 256 {
        assert(v & 0xff < 256) by (bit_vector);
    }
}

/// Whatever decodes is well-formed: every operand fits its bitfield.
pub proof fn lemma_decode_wf(d: u32)
    ensures
        spec_decode(d) matches Some(i) ==> i.wf(),
{
    lemma_field_bounds(d);
    lemma_ds_wf(b_field(d) as usize);
    lemma_ds_wf(c_field(d) as usize);
}

/// Decoding the encoded word of any well-formed instruction reproduces the
/// instruction exactly, biased signed offsets and register-or-constant
/// operands included: the instruction word format round-trips.
pub proof fn lemma_instruction_round_trip(i: Instruction)
    requires
        i.wf(),
    ensures
        spec_decode(spec_encode(i)) == Some(i),
{
    match i {
        Instruction::MOVE(s) => {
            lemma_enc_abc(0, (s.to) as u32, (s.from) as u32, (0) as u32);
        },
        Instruction::LOADK(s) => {
            lemma_enc_abx(1, (s.local) as u32, (s.constant) as u32);
        },
        Instruction::LOADBOOL(s) => {
            lemma_enc_abc(3, (s.reg) as u32, if s.value { 1u32 } else { 0u32 }, if s.jump { 1u32 } else { 0u32 });
        },
        Instruction::LOADNIL(s) => {
            lemma_enc_abc(4, (s.start) as u32, (s.range) as u32, (0) as u32);
        },
        Instruction::GETUPVAL(s) => {
            lemma_enc_abc(5, (s.reg) as u32, (s.upvalue) as u32, (0) as u32);
        },
        Instruction::GETTABUP(s) => {
            lemma_enc_abc(6, (s.reg) as u32, (s.upvalue) as u32, (spec_data_source_raw(s.constant)) as u32);
            lemma_ds_round_trip(s.constant);
        },
        Instruction::GETTABLE(s) => {
            lemma_enc_abc(7, (s.a) as u32, (s.b) as u32, (spec_data_source_raw(s.c)) as u32);
            lemma_ds_round_trip(s.c);
        },
        Instruction::SETTABUP(s) => {
            lemma_enc_abc(8, (s.upval) as u32, (spec_data_source_raw(s.key)) as u32, (spec_data_source_raw(s.value)) as u32);
            lemma_ds_round_trip(s.key);
            lemma_ds_round_trip(s.value);
        },
        Instruction::SETTABLE(s) => {
            lemma_enc_abc(10, (s.a) as u32, (spec_data_source_raw(s.b)) as u32, (spec_data_source_raw(s.c)) as u32);
            lemma_ds_round_trip(s.b);
            lemma_ds_round_trip(s.c);
        },
        Instruction::NEWTABLE(s) => {
            lemma_enc_abc(11, (s.a) as u32, (0) as u32, (0) as u32);
        },
        Instruction::SELF(s) => {
            lemma_enc_abc(12, (s.a) as u32, (s.table) as u32, (spec_data_source_raw(s.key)) as u32);
            lemma_ds_round_trip(s.key);
        },
        Instruction::ADD(s) => {
            lemma_enc_abc(13, (s.a) as u32, (spec_data_source_raw(s.b)) as u32, (spec_data_source_raw(s.c)) as u32);
            lemma_ds_round_trip(s.b);
            lemma_ds_round_trip(s.c);
        },
        Instruction::SUB(s) => {
            lemma_enc_abc(14, (s.a) as u32, (spec_data_source_raw(s.b)) as u32, (spec_data_source_raw(s.c)) as u32);
            lemma_ds_round_trip(s.b);
            lemma_ds_round_trip(s.c);
        },
        Instruction::MUL(s) => {
            lemma_enc_abc(15, (s.a) as u32, (spec_data_source_raw(s.b)) as u32, (spec_data_source_raw(s.c)) as u32);
            lemma_ds_round_trip(s.b);
            lemma_ds_round_trip(s.c);
        },
        Instruction::MOD(s) => {
            lemma_enc_abc(16, (s.a) as u32, (spec_data_source_raw(s.b)) as u32, (spec_data_source_raw(s.c)) as u32);
            lemma_ds_round_trip(s.b);
            lemma_ds_round_trip(s.c);
        },
        Instruction::POW(s) => {
            lemma_enc_abc(17, (s.a) as u32, (spec_data_source_raw(s.b)) as u32, (spec_data_source_raw(s.c)) as u32);
            lemma_ds_round_trip(s.b);
            lemma_ds_round_trip(s.c);
        },
        Instruction::DIV(s) => {
            lemma_enc_abc(18, (s.a) as u32, (spec_data_source_raw(s.b)) as u32, (spec_data_source_raw(s.c)) as u32);
            lemma_ds_round_trip(s.b);
            lemma_ds_round_trip(s.c);
        },
        Instruction::IDIV(s) => {
            lemma_enc_abc(19, (s.a) as u32, (spec_data_source_raw(s.b)) as u32, (spec_data_source_raw(s.c)) as u32);
            lemma_ds_round_trip(s.b);
            lemma_ds_round_trip(s.c);
        },
        Instruction::BAND(s) => {
            lemma_enc_abc(20, (s.a) as u32, (spec_data_source_raw(s.b)) as u32, (spec_data_source_raw(s.c)) as u32);
            lemma_ds_round_trip(s.b);
            lemma_ds_round_trip(s.c);
        },
        Instruction::BOR(s) => {
            lemma_enc_abc(21, (s.a) as u32, (spec_data_source_raw(s.b)) as u32, (spec_data_source_raw(s.c)) as u32);
            lemma_ds_round_trip(s.b);
            lemma_ds_round_trip(s.c);
        },
        Instruction::BXOR(s) => {
            lemma_enc_abc(22, (s.a) as u32, (spec_data_source_raw(s.b)) as u32, (spec_data_source_raw(s.c)) as u32);
            lemma_ds_round_trip(s.b);
            lemma_ds_round_trip(s.c);
        },
        Instruction::SHL(s) => {
            lemma_enc_abc(23, (s.a) as u32, (spec_data_source_raw(s.b)) as u32, (spec_data_source_raw(s.c)) as u32);
            lemma_ds_round_trip(s.b);
            lemma_ds_round_trip(s.c);
        },
        Instruction::SHR(s) => {
            lemma_enc_abc(24, (s.a) as u32, (spec_data_source_raw(s.b)) as u32, (spec_data_source_raw(s.c)) as u32);
            lemma_ds_round_trip(s.b);
            lemma_ds_round_trip(s.c);
        },
        Instruction::UNM(s) => {
            lemma_enc_abc(25, (s.a) as u32, (s.b) as u32, (0) as u32);
        },
        Instruction::BNOT(s) => {
            lemma_enc_abc(26, (s.a) as u32, (s.b) as u32, (0) as u32);
        },
        Instruction::NOT(s) => {
            lemma_enc_abc(27, (s.a) as u32, (s.b) as u32, (0) as u32);
        },
        Instruction::LEN(s) => {
            lemma_enc_abc(28, (s.a) as u32, (s.b) as u32, (0) as u32);
        },
        Instruction::CONCAT(s) => {
            lemma_enc_abc(29, (s.a) as u32, (s.b) as u32, (s.c) as u32);
        },
        Instruction::JMP(s) => {
            lemma_enc_abx(30, (s.a) as u32, (s.jump + 131071) as u32);
        },
        Instruction::EQ(s) => {
            lemma_enc_abc(31, if s.inverted { 0u32 } else { 1u32 }, (spec_data_source_raw(s.lhs)) as u32, (spec_data_source_raw(s.rhs)) as u32);
            lemma_ds_round_trip(s.lhs);
            lemma_ds_round_trip(s.rhs);
        },
        Instruction::LT(s) => {
            lemma_enc_abc(32, if s.inverted { 0u32 } else { 1u32 }, (spec_data_source_raw(s.lhs)) as u32, (spec_data_source_raw(s.rhs)) as u32);
            lemma_ds_round_trip(s.lhs);
            lemma_ds_round_trip(s.rhs);
        },
        Instruction::LE(s) => {
            lemma_enc_abc(33, if s.inverted { 0u32 } else { 1u32 }, (spec_data_source_raw(s.lhs)) as u32, (spec_data_source_raw(s.rhs)) as u32);
            lemma_ds_round_trip(s.lhs);
            lemma_ds_round_trip(s.rhs);
        },
        Instruction::TEST(s) => {
            lemma_enc_abc(34, (s.value) as u32, (0) as u32, if s.constant { 1u32 } else { 0u32 });
        },
        Instruction::TESTSET(s) => {
            lemma_enc_abc(35, (s.reg) as u32, (s.value) as u32, if s.constant { 1u32 } else { 0u32 });
        },
        Instruction::CALL(s) => {
            lemma_enc_abc(36, (s.function) as u32, (spec_count_raw(s.params)) as u32, (spec_count_raw(s.returns)) as u32);
        },
        Instruction::TAILCALL(s) => {
            lemma_enc_abc(37, (s.function) as u32, (spec_count_raw(s.params)) as u32, (s.c) as u32);
        },
        Instruction::RETURN(s) => {
            lemma_enc_abc(38, (s.base) as u32, (spec_count_raw(s.count)) as u32, (0) as u32);
        },
        Instruction::FORLOOP(s) => {
            lemma_enc_abx(39, (s.a) as u32, (s.jump + 131071) as u32);
        },
        Instruction::FORPREP(s) => {
            lemma_enc_abx(40, (s.a) as u32, (s.jump + 131071) as u32);
        },
        Instruction::CLOSURE(s) => {
            lemma_enc_abx(44, (s.a) as u32, (s.b) as u32);
        },
    }
}



impl Instruction {
    /// Decodes one instruction word, failing on an unknown opcode.
    pub fn decode(d: u32) -> (r: Result<Instruction, LoadError>)
        ensures
            match r {
                Ok(i) => spec_decode(d) == Some(i),
                Err(e) => spec_decode(d) is None && e == LoadError::UnknownOpcode(d & 63),
            },
    {
        let op = d & 63;
        let (a, b, c) = parse_A_B_C(d);
        let (_, bx) = parse_A_Bx(d);
        let (_, sbx) = parse_A_sBx(d);
        match op {
            0 => Ok(Instruction::MOVE(Move { to: a, from: b })),
            1 => Ok(Instruction::LOADK(LoadK { local: a, constant: bx })),
            3 => Ok(Instruction::LOADBOOL(LoadBool { reg: a, value: b > 0, jump: c > 0 })),
            4 => Ok(Instruction::LOADNIL(LoadNil { start: a, range: b })),
            5 => Ok(Instruction::GETUPVAL(GetUpval { reg: a, upvalue: b })),
            6 => Ok(Instruction::GETTABUP(GetTabUp { reg: a, upvalue: b, constant: DataSource::from(c) })),
            7 => Ok(Instruction::GETTABLE(GetTable { a: a, b: b, c: DataSource::from(c) })),
            8 => Ok(Instruction::SETTABUP(SetTabUp { upval: a, key: DataSource::from(b), value: DataSource::from(c) })),
            10 => Ok(Instruction::SETTABLE(SetTable { a: a, b: DataSource::from(b), c: DataSource::from(c) })),
            11 => Ok(Instruction::NEWTABLE(NewTable { a: a })),
            12 => Ok(Instruction::SELF(SelfOp { a: a, table: b, key: DataSource::from(c) })),
            13 => Ok(Instruction::ADD(Add { a: a, b: DataSource::from(b), c: DataSource::from(c) })),
            14 => Ok(Instruction::SUB(Sub { a: a, b: DataSource::from(b), c: DataSource::from(c) })),
            15 => Ok(Instruction::MUL(Mul { a: a, b: DataSource::from(b), c: DataSource::from(c) })),
            16 => Ok(Instruction::MOD(Mod { a: a, b: DataSource::from(b), c: DataSource::from(c) })),
            17 => Ok(Instruction::POW(Pow { a: a, b: DataSource::from(b), c: DataSource::from(c) })),
            18 => Ok(Instruction::DIV(Div { a: a, b: DataSource::from(b), c: DataSource::from(c) })),
            19 => Ok(Instruction::IDIV(IDiv { a: a, b: DataSource::from(b), c: DataSource::from(c) })),
            20 => Ok(Instruction::BAND(BAnd { a: a, b: DataSource::from(b), c: DataSource::from(c) })),
            21 => Ok(Instruction::BOR(BOr { a: a, b: DataSource::from(b), c: DataSource::from(c) })),
            22 => Ok(Instruction::BXOR(BXor { a: a, b: DataSource::from(b), c: DataSource::from(c) })),
            23 => Ok(Instruction::SHL(Shl { a: a, b: DataSource::from(b), c: DataSource::from(c) })),
            24 => Ok(Instruction::SHR(Shr { a: a, b: DataSource::from(b), c: DataSource::from(c) })),
            25 => Ok(Instruction::UNM(Unm { a: a, b: b })),
            26 => Ok(Instruction::BNOT(BNot { a: a, b: b })),
            27 => Ok(Instruction::NOT(Not { a: a, b: b })),
            28 => Ok(Instruction::LEN(Len { a: a, b: b })),
            29 => Ok(Instruction::CONCAT(Concat { a: a, b: b, c: c })),
            30 => Ok(Instruction::JMP(Jmp { a: a, jump: sbx })),
            31 => Ok(Instruction::EQ(Equals { lhs: DataSource::from(b), rhs: DataSource::from(c), inverted: a == 0 })),
            32 => Ok(Instruction::LT(LessThan { lhs: DataSource::from(b), rhs: DataSource::from(c), inverted: a == 0 })),
            33 => Ok(Instruction::LE(LessThanOrEquals { lhs: DataSource::from(b), rhs: DataSource::from(c), inverted: a == 0 })),
            34 => Ok(Instruction::TEST(Test { value: a, constant: c > 0 })),
            35 => Ok(Instruction::TESTSET(TestSet { reg: a, value: b, constant: c > 0 })),
            36 => Ok(Instruction::CALL(Call { function: a, params: Count::from(b), returns: Count::from(c) })),
            37 => Ok(Instruction::TAILCALL(Tailcall { function: a, params: Count::from(b), c: c })),
            38 => Ok(Instruction::RETURN(Return { base: a, count: Count::from(b) })),
            39 => Ok(Instruction::FORLOOP(ForLoop { a: a, jump: sbx })),
            40 => Ok(Instruction::FORPREP(ForPrep { a: a, jump: sbx })),
            44 => Ok(Instruction::CLOSURE(Closure { a: a, b: bx })),
            _ => Err(LoadError::UnknownOpcode(op)),
        }
    }


    /// Writes the instruction word this instruction decodes from.
    pub fn encode(&self) -> (d: u32)
        requires
            self.wf(),
        ensures
            d == spec_encode(*self),
            spec_decode(d) == Some(*self),
    {
        proof {
            lemma_instruction_round_trip(*self);
        }
        match *self {
            Instruction::MOVE(s) => enc_abc(0, (s.to) as u32, (s.from) as u32, (0) as u32),
            Instruction::LOADK(s) => enc_abx(1, (s.local) as u32, (s.constant) as u32),
            Instruction::LOADBOOL(s) => enc_abc(3, (s.reg) as u32, if s.value { 1u32 } else { 0u32 }, if s.jump { 1u32 } else { 0u32 }),
            Instruction::LOADNIL(s) => enc_abc(4, (s.start) as u32, (s.range) as u32, (0) as u32),
            Instruction::GETUPVAL(s) => enc_abc(5, (s.reg) as u32, (s.upvalue) as u32, (0) as u32),
            Instruction::GETTABUP(s) => enc_abc(6, (s.reg) as u32, (s.upvalue) as u32, (data_source_raw(s.constant)) as u32),
            Instruction::GETTABLE(s) => enc_abc(7, (s.a) as u32, (s.b) as u32, (data_source_raw(s.c)) as u32),
            Instruction::SETTABUP(s) => enc_abc(8, (s.upval) as u32, (data_source_raw(s.key)) as u32, (data_source_raw(s.value)) as u32),
            Instruction::SETTABLE(s) => enc_abc(10, (s.a) as u32, (data_source_raw(s.b)) as u32, (data_source_raw(s.c)) as u32),
            Instruction::NEWTABLE(s) => enc_abc(11, (s.a) as u32, (0) as u32, (0) as u32),
            Instruction::SELF(s) => enc_abc(12, (s.a) as u32, (s.table) as u32, (data_source_raw(s.key)) as u32),
            Instruction::ADD(s) => enc_abc(13, (s.a) as u32, (data_source_raw(s.b)) as u32, (data_source_raw(s.c)) as u32),
            Instruction::SUB(s) => enc_abc(14, (s.a) as u32, (data_source_raw(s.b)) as u32, (data_source_raw(s.c)) as u32),
            Instruction::MUL(s) => enc_abc(15, (s.a) as u32, (data_source_raw(s.b)) as u32, (data_source_raw(s.c)) as u32),
            Instruction::MOD(s) => enc_abc(16, (s.a) as u32, (data_source_raw(s.b)) as u32, (data_source_raw(s.c)) as u32),
            Instruction::POW(s) => enc_abc(17, (s.a) as u32, (data_source_raw(s.b)) as u32, (data_source_raw(s.c)) as u32),
            Instruction::DIV(s) => enc_abc(18, (s.a) as u32, (data_source_raw(s.b)) as u32, (data_source_raw(s.c)) as u32),
            Instruction::IDIV(s) => enc_abc(19, (s.a) as u32, (data_source_raw(s.b)) as u32, (data_source_raw(s.c)) as u32),
            Instruction::BAND(s) => enc_abc(20, (s.a) as u32, (data_source_raw(s.b)) as u32, (data_source_raw(s.c)) as u32),
            Instruction::BOR(s) => enc_abc(21, (s.a) as u32, (data_source_raw(s.b)) as u32, (data_source_raw(s.c)) as u32),
            Instruction::BXOR(s) => enc_abc(22, (s.a) as u32, (data_source_raw(s.b)) as u32, (data_source_raw(s.c)) as u32),
            Instruction::SHL(s) => enc_abc(23, (s.a) as u32, (data_source_raw(s.b)) as u32, (data_source_raw(s.c)) as u32),
            Instruction::SHR(s) => enc_abc(24, (s.a) as u32, (data_source_raw(s.b)) as u32, (data_source_raw(s.c)) as u32),
            Instruction::UNM(s) => enc_abc(25, (s.a) as u32, (s.b) as u32, (0) as u32),
            Instruction::BNOT(s) => enc_abc(26, (s.a) as u32, (s.b) as u32, (0) as u32),
            Instruction::NOT(s) => enc_abc(27, (s.a) as u32, (s.b) as u32, (0) as u32),
            Instruction::LEN(s) => enc_abc(28, (s.a) as u32, (s.b) as u32, (0) as u32),
            Instruction::CONCAT(s) => enc_abc(29, (s.a) as u32, (s.b) as u32, (s.c) as u32),
            Instruction::JMP(s) => enc_abx(30, (s.a) as u32, (s.jump + 131071) as u32),
            Instruction::EQ(s) => enc_abc(31, if s.inverted { 0u32 } else { 1u32 }, (data_source_raw(s.lhs)) as u32, (data_source_raw(s.rhs)) as u32),
            Instruction::LT(s) => enc_abc(32, if s.inverted { 0u32 } else { 1u32 }, (data_source_raw(s.lhs)) as u32, (data_source_raw(s.rhs)) as u32),
            Instruction::LE(s) => enc_abc(33, if s.inverted { 0u32 } else { 1u32 }, (data_source_raw(s.lhs)) as u32, (data_source_raw(s.rhs)) as u32),
            Instruction::TEST(s) => enc_abc(34, (s.value) as u32, (0) as u32, if s.constant { 1u32 } else { 0u32 }),
            Instruction::TESTSET(s) => enc_abc(35, (s.reg) as u32, (s.value) as u32, if s.constant { 1u32 } else { 0u32 }),
            Instruction::CALL(s) => enc_abc(36, (s.function) as u32, (count_raw(s.params)) as u32, (count_raw(s.returns)) as u32),
            Instruction::TAILCALL(s) => enc_abc(37, (s.function) as u32, (count_raw(s.params)) as u32, (s.c) as u32),
            Instruction::RETURN(s) => enc_abc(38, (s.base) as u32, (count_raw(s.count)) as u32, (0) as u32),
            Instruction::FORLOOP(s) => enc_abx(39, (s.a) as u32, (s.jump + 131071) as u32),
            Instruction::FORPREP(s) => enc_abx(40, (s.a) as u32, (s.jump + 131071) as u32),
            Instruction::CLOSURE(s) => enc_abx(44, (s.a) as u32, (s.b) as u32),
        }
    }
}


} // verus!