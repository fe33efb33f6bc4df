use lua_interpreter::instruction::{get_bits, parse_A_B, parse_A_B_C, parse_A_Bx, parse_A_sBx, Count, DataSource, UpvalueIndex};
use lua_interpreter::instructions::{
    Add, Call, Closure, Equals, ForLoop, GetTabUp, Instruction, Jmp, LoadBool, LoadK, Move,
    Return, Tailcall, Test,
};
use lua_interpreter::error::LoadError;
use lua_interpreter::reader::read_u32;

#[test]
fn instruction_get_bits_works() {
    let data = 0b1111_0001_1001_1001u32;
    assert_eq!(get_bits(data, 0, 6), 0b011001);
    assert_eq!(get_bits(data, 6, 8), 0b10);
    assert_eq!(get_bits(data, 8, 16), 0b1111_0001);
}

#[test]
fn instructions_get_bits_works() {
    let data = 0b1111_0001_1001_1001u32;
    assert_eq!(get_bits(data, 0, 6), 0b011001);
    assert_eq!(get_bits(data, 6, 8), 0b10);
    assert_eq!(get_bits(data, 8, 16), 0b1111_0001);
}

fn decode_bytes(data: &[u8]) -> Instruction {
    let (word, pos) = read_u32(data, 0).unwrap();
    assert_eq!(pos, 4);
    Instruction::decode(word).unwrap()
}

#[test]
fn instruction_parses_return_instruction() {
    let data = &[0x26, 0x00, 0x80, 0x00];
    let instruction = decode_bytes(data);
    assert_eq!(
        instruction,
        Instruction::RETURN(Return { base: 0, count: Count::Known(0) })
    );
}

#[test]
fn instructions_parses_return_instruction() {
    let data = &[0x26, 0x00, 0x80, 0x00];
    let instruction = decode_bytes(data);
    assert_eq!(
        instruction,
        Instruction::RETURN(Return { base: 0, count: Count::Known(0) })
    );
}

#[test]
fn instruction_parses_gettabup() {
    let data = &[0b00000110, 0b00000000, 0b01000000, 0];
    let instruction = decode_bytes(data);
    assert_eq!(
        instruction,
        Instruction::GETTABUP(GetTabUp {
            reg: 0,
            upvalue: 0,
            constant: DataSource::Constant(0)
        })
    );
}

#[test]
fn instructions_parses_gettabup() {
    let data = &[0b00000110, 0b00000000, 0b01000000, 0];
    let instruction = decode_bytes(data);
    assert_eq!(
        instruction,
        Instruction::GETTABUP(GetTabUp {
            reg: 0,
            upvalue: 0,
            constant: DataSource::Constant(0)
        })
    );
}

#[test]
fn unknown_opcode_is_rejected() {
    // opcode 46 is outside the supported set
    assert_eq!(Instruction::decode(46), Err(LoadError::UnknownOpcode(46)));
    assert_eq!(Instruction::decode(9), Err(LoadError::UnknownOpcode(9)));
}

fn round_trip(i: Instruction) {
    let word = i.encode();
    assert_eq!(Instruction::decode(word), Ok(i));
}

#[test]
fn instruction_words_round_trip_at_boundaries() {
    round_trip(Instruction::MOVE(Move { to: 0, from: 0 }));
    round_trip(Instruction::MOVE(Move { to: 255, from: 511 }));
    round_trip(Instruction::LOADK(LoadK { local: 255, constant: 262143 }));
    round_trip(Instruction::LOADK(LoadK { local: 0, constant: 0 }));
    round_trip(Instruction::LOADBOOL(LoadBool { reg: 7, value: true, jump: false }));
    round_trip(Instruction::LOADBOOL(LoadBool { reg: 7, value: false, jump: true }));
    round_trip(Instruction::ADD(Add {
        a: 255,
        b: DataSource::Register(255),
        c: DataSource::Constant(255),
    }));
    round_trip(Instruction::ADD(Add {
        a: 0,
        b: DataSource::Constant(0),
        c: DataSource::Register(0),
    }));
    round_trip(Instruction::EQ(Equals {
        lhs: DataSource::Constant(17),
        rhs: DataSource::Register(3),
        inverted: true,
    }));
    round_trip(Instruction::EQ(Equals {
        lhs: DataSource::Register(0),
        rhs: DataSource::Constant(255),
        inverted: false,
    }));
    round_trip(Instruction::TEST(Test { value: 19, constant: true }));
    round_trip(Instruction::CALL(Call {
        function: 255,
        params: Count::Unknown,
        returns: Count::Known(510),
    }));
    round_trip(Instruction::CALL(Call {
        function: 0,
        params: Count::Known(0),
        returns: Count::Unknown,
    }));
    round_trip(Instruction::TAILCALL(Tailcall {
        function: 9,
        params: Count::Known(2),
        c: 0,
    }));
    round_trip(Instruction::RETURN(Return { base: 0, count: Count::Known(0) }));
    round_trip(Instruction::CLOSURE(Closure { a: 1, b: 262143 }));
    // the biased signed offset at both extremes
    round_trip(Instruction::JMP(Jmp { a: 0, jump: -131071 }));
    round_trip(Instruction::JMP(Jmp { a: 0, jump: 131072 }));
    round_trip(Instruction::JMP(Jmp { a: 5, jump: 0 }));
    round_trip(Instruction::FORLOOP(ForLoop { a: 3, jump: -2 }));
}

#[test]
fn sbx_bias_is_exact() {
    // a raw Bx of 131070 encodes the offset -1
    let word = Instruction::JMP(Jmp { a: 0, jump: -1 }).encode();
    assert_eq!((word >> 14) & 0x3ffff, 131070);
    let word = Instruction::JMP(Jmp { a: 0, jump: 0 }).encode();
    assert_eq!((word >> 14) & 0x3ffff, 131071);
}

#[test]
fn operand_layout_parsers() {
    // MOVE-shaped word: A = 3, B = 7, C = 5
    let word: u32 = (3 << 6) | (5 << 14) | (7 << 23);
    assert_eq!(parse_A_B_C(word), (3, 7, 5));
    assert_eq!(parse_A_B(word), (3, 7));
    let word: u32 = (2 << 6) | (131071 << 14);
    assert_eq!(parse_A_Bx(word), (2, 131071));
    assert_eq!(parse_A_sBx(word), (2, 0));
    let word: u32 = (2 << 6) | ((131071 - 4) << 14);
    assert_eq!(parse_A_sBx(word), (2, -4));
    // an upvalue operand with the constant flag set becomes a negative marker
    assert_eq!(UpvalueIndex::load(3), UpvalueIndex(3));
    assert_eq!(UpvalueIndex::load(256 + 3), UpvalueIndex(-3));
}
