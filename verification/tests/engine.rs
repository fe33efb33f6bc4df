use lua_interpreter::bytecode::Bytecode;
use lua_interpreter::env::Environment;
use lua_interpreter::error::RuntimeError;
use lua_interpreter::function_block::FunctionBlock;
use lua_interpreter::header::Header;
use lua_interpreter::instruction::{Count, DataSource};
use lua_interpreter::instructions::{
    Add, BAnd, BNot, Call, Closure, Concat, Div, Equals, ForLoop, ForPrep, GetTabUp, GetTable,
    GetUpval, Instruction, Jmp, Len, LessThan, LoadBool, LoadK, LoadNil, Mod, Move, NewTable, Return,
    SetTabUp, SetTable, Shl, Tailcall, Unm,
};
use lua_interpreter::interpreter::{ArithOp, Interpreter, StepEvent, PC};
use lua_interpreter::types::{Number, Type};
use lua_interpreter::upvalues::{Upvalue, UpvalueInfo};

fn env_upvalue() -> UpvalueInfo {
    UpvalueInfo { name: None, instack: true, index: 0 }
}

fn block(
    instructions: Vec<Instruction>,
    constants: Vec<Type>,
    protos: Vec<FunctionBlock>,
    params: u8,
    upvalues: Vec<UpvalueInfo>,
) -> FunctionBlock {
    FunctionBlock {
        source_name: None,
        lines: (0, 0),
        amount_parameters: params,
        is_vararg: true,
        stack_size: 8,
        instructions,
        constants,
        protos,
        upvalues,
        debug: None,
    }
}

fn chunk(func: FunctionBlock) -> Bytecode {
    Bytecode { header: Header::default(), upvalues: 1, func }
}

fn interp(func: FunctionBlock) -> Interpreter {
    Interpreter::new(chunk(func), Environment::LuaStandard).unwrap()
}

fn reg(i: &Interpreter, r: usize) -> Type {
    i.context.stack.get_rel(r).unwrap()
}

/// A chunk whose single instruction is a bare `RETURN` halts after one step.
#[test]
fn single_return_halts_after_one_step() {
    let main = block(
        vec![Instruction::RETURN(Return { base: 0, count: Count::Known(0) })],
        vec![],
        vec![],
        0,
        vec![env_upvalue()],
    );
    let mut it = interp(main);
    let result = it.run().unwrap();
    assert_eq!(result.instruction_count, 1);
    assert!(it.printed.is_empty());
    assert_eq!(it.context.call_info.len(), 0);
}

fn encode_code(instrs: &[Instruction]) -> Vec<u8> {
    let mut out = Vec::new();
    out.extend_from_slice(&(instrs.len() as u32).to_le_bytes());
    for i in instrs {
        out.extend_from_slice(&i.encode().to_le_bytes());
    }
    out
}

fn encode_short_string(s: &[u8]) -> Vec<u8> {
    let mut out = vec![0x04u8, (s.len() + 1) as u8];
    out.extend_from_slice(s);
    out
}

/// Builds the byte image of a "hello world" chunk and runs it through the
/// whole pipeline: loader, engine, native boundary.
#[test]
fn hello_world_runs_in_four_steps() {
    let mut data = Header::default().serialize();
    data.push(1); // main upvalue count
    // function block: no source name, lines 0/0, 0 params, vararg, stack 2
    data.push(0x00);
    data.extend_from_slice(&0u32.to_le_bytes());
    data.extend_from_slice(&0u32.to_le_bytes());
    data.push(0);
    data.push(2);
    data.push(2);
    data.extend_from_slice(&encode_code(&[
        Instruction::GETTABUP(GetTabUp { reg: 0, upvalue: 0, constant: DataSource::Constant(0) }),
        Instruction::LOADK(LoadK { local: 1, constant: 1 }),
        Instruction::CALL(Call { function: 0, params: Count::Known(1), returns: Count::Known(0) }),
        Instruction::RETURN(Return { base: 0, count: Count::Known(0) }),
    ]));
    // two string constants
    data.extend_from_slice(&2u32.to_le_bytes());
    data.extend_from_slice(&encode_short_string(b"print"));
    data.extend_from_slice(&encode_short_string(b"Hello, World!"));
    // one upvalue descriptor: in stack, index 0
    data.extend_from_slice(&1u32.to_le_bytes());
    data.push(1);
    data.push(0);
    // no nested prototypes, no debug data
    data.extend_from_slice(&0u32.to_le_bytes());
    data.extend_from_slice(&0u32.to_le_bytes());
    data.extend_from_slice(&0u32.to_le_bytes());
    data.extend_from_slice(&0u32.to_le_bytes());

    let (bytecode, consumed) = Bytecode::parse(&data, 0).unwrap();
    assert_eq!(consumed, data.len());
    let mut it = Interpreter::new(bytecode, Environment::LuaStandard).unwrap();
    let result = it.run().unwrap();
    assert_eq!(result.instruction_count, 4);
    // the print native received exactly one string argument
    assert_eq!(it.printed.len(), 1);
    assert_eq!(it.printed[0], vec![Type::String(b"Hello, World!".to_vec())]);
}

/// `assert(false)` surfaces an assertion failure and execution stops there.
#[test]
fn assert_false_raises() {
    let main = block(
        vec![
            Instruction::GETTABUP(GetTabUp {
                reg: 0,
                upvalue: 0,
                constant: DataSource::Constant(0),
            }),
            Instruction::LOADBOOL(LoadBool { reg: 1, value: false, jump: false }),
            Instruction::CALL(Call {
                function: 0,
                params: Count::Known(1),
                returns: Count::Known(0),
            }),
            Instruction::RETURN(Return { base: 0, count: Count::Known(0) }),
        ],
        vec![Type::String(b"assert".to_vec())],
        vec![],
        0,
        vec![env_upvalue()],
    );
    let mut it = interp(main);
    assert_eq!(it.run(), Err(RuntimeError::AssertionFailed));
    // the failing call never completed
    assert_eq!(it.instruction_count, 2);
}

/// `assert` echoes its arguments when the first one is truthy.
#[test]
fn assert_true_echoes() {
    let main = block(
        vec![
            Instruction::GETTABUP(GetTabUp {
                reg: 0,
                upvalue: 0,
                constant: DataSource::Constant(0),
            }),
            Instruction::LOADK(LoadK { local: 1, constant: 1 }),
            Instruction::CALL(Call {
                function: 0,
                params: Count::Known(1),
                returns: Count::Known(1),
            }),
            Instruction::RETURN(Return { base: 0, count: Count::Known(0) }),
        ],
        vec![Type::String(b"assert".to_vec()), Type::Number(Number::Integer(7))],
        vec![],
        0,
        vec![env_upvalue()],
    );
    let mut it = interp(main);
    for _ in 0..3 {
        it.step().unwrap();
    }
    assert_eq!(reg(&it, 0), Type::Number(Number::Integer(7)));
}

/// The `type` native maps a value to its type name.
#[test]
fn type_native_returns_name() {
    let main = block(
        vec![
            Instruction::GETTABUP(GetTabUp {
                reg: 0,
                upvalue: 0,
                constant: DataSource::Constant(0),
            }),
            Instruction::LOADK(LoadK { local: 1, constant: 1 }),
            Instruction::CALL(Call {
                function: 0,
                params: Count::Known(1),
                returns: Count::Known(1),
            }),
            Instruction::RETURN(Return { base: 0, count: Count::Known(0) }),
        ],
        vec![Type::String(b"type".to_vec()), Type::Number(Number::Integer(3))],
        vec![],
        0,
        vec![env_upvalue()],
    );
    let mut it = interp(main);
    for _ in 0..3 {
        it.step().unwrap();
    }
    assert_eq!(reg(&it, 0), Type::String(b"number".to_vec()));
}

/// Integer arithmetic stays integer; division always defers to the host and
/// produces a float even for two integers.
#[test]
fn numeric_promotion() {
    // 2 + 3 stays an integer, computed by the engine itself; stop before
    // RETURN so the frame's registers are still live
    let main = block(
        vec![
            Instruction::LOADK(LoadK { local: 0, constant: 0 }),
            Instruction::LOADK(LoadK { local: 1, constant: 1 }),
            Instruction::ADD(Add {
                a: 2,
                b: DataSource::Register(0),
                c: DataSource::Register(1),
            }),
            Instruction::RETURN(Return { base: 0, count: Count::Known(0) }),
        ],
        vec![Type::Number(Number::Integer(2)), Type::Number(Number::Integer(3))],
        vec![],
        0,
        vec![env_upvalue()],
    );
    let mut it = interp(main);
    for _ in 0..3 {
        match it.step().unwrap() {
            StepEvent::Normal => {}
            other => panic!("unexpected event {:?}", other),
        }
    }
    assert_eq!(reg(&it, 2), Type::Number(Number::Integer(5)));
}

/// A float operand sends the operation to the host; the result follows the
/// wider operand.
#[test]
fn mixed_addition_is_float() {
    let main = block(
        vec![
            Instruction::LOADK(LoadK { local: 0, constant: 0 }),
            Instruction::LOADK(LoadK { local: 1, constant: 1 }),
            Instruction::ADD(Add {
                a: 2,
                b: DataSource::Register(0),
                c: DataSource::Register(1),
            }),
            Instruction::RETURN(Return { base: 0, count: Count::Known(0) }),
        ],
        vec![
            Type::Number(Number::Integer(2)),
            Type::Number(Number::Float(3.5f64.to_bits())),
        ],
        vec![],
        0,
        vec![env_upvalue()],
    );
    let mut it = interp(main);
    it.step().unwrap();
    it.step().unwrap();
    match it.step().unwrap() {
        StepEvent::FloatArith { op, lhs, rhs } => {
            assert_eq!(op, ArithOp::Add);
            assert_eq!(lhs, Number::Integer(2));
            assert_eq!(rhs, Number::Float(3.5f64.to_bits()));
            // the host performs the promotion and the addition
            let result = 2f64 + 3.5f64;
            it.resume_number(Number::Float(result.to_bits())).unwrap();
        }
        other => panic!("expected a host arithmetic event, got {:?}", other),
    }
    assert_eq!(reg(&it, 2), Type::Number(Number::Float(5.5f64.to_bits())));
}

/// `4 / 2` is float `2.0`, not integer `2`.
#[test]
fn division_of_integers_is_float() {
    let main = block(
        vec![
            Instruction::LOADK(LoadK { local: 0, constant: 0 }),
            Instruction::LOADK(LoadK { local: 1, constant: 1 }),
            Instruction::DIV(Div {
                a: 2,
                b: DataSource::Register(0),
                c: DataSource::Register(1),
            }),
            Instruction::RETURN(Return { base: 0, count: Count::Known(0) }),
        ],
        vec![Type::Number(Number::Integer(4)), Type::Number(Number::Integer(2))],
        vec![],
        0,
        vec![env_upvalue()],
    );
    let mut it = interp(main);
    it.step().unwrap();
    it.step().unwrap();
    match it.step().unwrap() {
        StepEvent::FloatArith { op, lhs, rhs } => {
            assert_eq!(op, ArithOp::Div);
            assert_eq!(lhs, Number::Integer(4));
            assert_eq!(rhs, Number::Integer(2));
            let result = 4f64 / 2f64;
            it.resume_number(Number::Float(result.to_bits())).unwrap();
        }
        other => panic!("expected a host arithmetic event, got {:?}", other),
    }
    assert_eq!(reg(&it, 2), Type::Number(Number::Float(2.0f64.to_bits())));
}

#[test]
fn modulo_by_zero_is_an_error() {
    let main = block(
        vec![
            Instruction::LOADK(LoadK { local: 0, constant: 0 }),
            Instruction::LOADK(LoadK { local: 1, constant: 1 }),
            Instruction::MOD(Mod {
                a: 2,
                b: DataSource::Register(0),
                c: DataSource::Register(1),
            }),
            Instruction::RETURN(Return { base: 0, count: Count::Known(0) }),
        ],
        vec![Type::Number(Number::Integer(5)), Type::Number(Number::Integer(0))],
        vec![],
        0,
        vec![env_upvalue()],
    );
    let mut it = interp(main);
    assert_eq!(it.run(), Err(RuntimeError::DivisionByZero));
}

/// Tables: fresh, written, read back; a missing key reads as nil.
#[test]
fn table_set_then_get() {
    let main = block(
        vec![
            Instruction::NEWTABLE(NewTable { a: 0 }),
            Instruction::SETTABLE(SetTable {
                a: 0,
                b: DataSource::Constant(0),
                c: DataSource::Constant(1),
            }),
            Instruction::GETTABLE(GetTable { a: 1, b: 0, c: DataSource::Constant(0) }),
            Instruction::GETTABLE(GetTable { a: 2, b: 0, c: DataSource::Constant(2) }),
            Instruction::RETURN(Return { base: 0, count: Count::Known(0) }),
        ],
        vec![
            Type::String(b"key".to_vec()),
            Type::Number(Number::Integer(21)),
            Type::String(b"other".to_vec()),
        ],
        vec![],
        0,
        vec![env_upvalue()],
    );
    let mut it = interp(main);
    for _ in 0..4 {
        it.step().unwrap();
    }
    assert_eq!(reg(&it, 1), Type::Number(Number::Integer(21)));
    assert_eq!(reg(&it, 2), Type::Nil);
}

/// The numeric for loop: sums 1 through 5.
#[test]
fn numeric_for_loop_sums() {
    let main = block(
        vec![
            Instruction::LOADK(LoadK { local: 0, constant: 0 }),
            Instruction::LOADK(LoadK { local: 1, constant: 1 }),
            Instruction::LOADK(LoadK { local: 2, constant: 2 }),
            Instruction::LOADK(LoadK { local: 3, constant: 1 }),
            Instruction::FORPREP(ForPrep { a: 1, jump: 1 }),
            Instruction::ADD(Add {
                a: 0,
                b: DataSource::Register(0),
                c: DataSource::Register(4),
            }),
            Instruction::FORLOOP(ForLoop { a: 1, jump: -2 }),
            Instruction::RETURN(Return { base: 0, count: Count::Known(0) }),
        ],
        vec![
            Type::Number(Number::Integer(0)),
            Type::Number(Number::Integer(1)),
            Type::Number(Number::Integer(5)),
        ],
        vec![],
        0,
        vec![env_upvalue()],
    );
    let mut it = interp(main);
    // 4 loads, the prep, five additions, six loop tests: 16 steps to the sum
    for _ in 0..16 {
        it.step().unwrap();
    }
    assert_eq!(reg(&it, 0), Type::Number(Number::Integer(15)));
    let result = it.run().unwrap();
    assert_eq!(result.instruction_count, 17);
}

/// Comparisons drive the skip-plus-jump idiom: `EQ` then `JMP`.
#[test]
fn branches_on_equality() {
    // if r0 == 1 then r1 = 10 else r1 = 20
    let main = block(
        vec![
            Instruction::LOADK(LoadK { local: 0, constant: 0 }),
            // skip the next instruction when r0 != 1
            Instruction::EQ(Equals {
                lhs: DataSource::Register(0),
                rhs: DataSource::Constant(1),
                inverted: false,
            }),
            Instruction::JMP(Jmp { a: 0, jump: 2 }),
            Instruction::LOADK(LoadK { local: 1, constant: 2 }), // else branch
            Instruction::JMP(Jmp { a: 0, jump: 1 }),
            Instruction::LOADK(LoadK { local: 1, constant: 3 }), // then branch
            Instruction::RETURN(Return { base: 0, count: Count::Known(0) }),
        ],
        vec![
            Type::Number(Number::Integer(1)),
            Type::Number(Number::Integer(1)),
            Type::Number(Number::Integer(20)),
            Type::Number(Number::Integer(10)),
        ],
        vec![],
        0,
        vec![env_upvalue()],
    );
    let mut it = interp(main);
    for _ in 0..4 {
        it.step().unwrap();
    }
    assert_eq!(reg(&it, 1), Type::Number(Number::Integer(10)));
}

fn gcd_proto() -> FunctionBlock {
    // gcd(a, b): if b == 0 then return a else return gcd(b, a % b)
    block(
        vec![
            // skip the RETURN when b != 0
            Instruction::EQ(Equals {
                lhs: DataSource::Register(1),
                rhs: DataSource::Constant(0),
                inverted: false,
            }),
            Instruction::RETURN(Return { base: 0, count: Count::Known(1) }),
            Instruction::GETTABUP(GetTabUp {
                reg: 2,
                upvalue: 0,
                constant: DataSource::Constant(1),
            }),
            Instruction::MOVE(Move { to: 3, from: 1 }),
            Instruction::MOD(Mod {
                a: 4,
                b: DataSource::Register(0),
                c: DataSource::Register(1),
            }),
            Instruction::TAILCALL(Tailcall { function: 2, params: Count::Known(2), c: 0 }),
            Instruction::RETURN(Return { base: 2, count: Count::Known(0) }),
        ],
        vec![Type::Number(Number::Integer(0)), Type::String(b"gcd".to_vec())],
        vec![],
        2,
        vec![UpvalueInfo { name: None, instack: false, index: 0 }],
    )
}

/// A recursive greatest-common-divisor through tail calls: prints the
/// mathematically correct value, and tail calls keep the call-stack depth
/// constant while plain calls grow it by exactly one.
#[test]
fn gcd_via_tailcalls() {
    let main = block(
        vec![
            Instruction::CLOSURE(Closure { a: 0, b: 0 }),
            Instruction::SETTABUP(SetTabUp {
                upval: 0,
                key: DataSource::Constant(0),
                value: DataSource::Register(0),
            }),
            Instruction::GETTABUP(GetTabUp {
                reg: 1,
                upvalue: 0,
                constant: DataSource::Constant(1),
            }),
            Instruction::GETTABUP(GetTabUp {
                reg: 2,
                upvalue: 0,
                constant: DataSource::Constant(0),
            }),
            Instruction::LOADK(LoadK { local: 3, constant: 2 }),
            Instruction::LOADK(LoadK { local: 4, constant: 3 }),
            Instruction::CALL(Call {
                function: 2,
                params: Count::Known(2),
                returns: Count::Known(1),
            }),
            Instruction::CALL(Call {
                function: 1,
                params: Count::Known(1),
                returns: Count::Known(0),
            }),
            Instruction::RETURN(Return { base: 0, count: Count::Known(0) }),
        ],
        vec![
            Type::String(b"gcd".to_vec()),
            Type::String(b"print".to_vec()),
            Type::Number(Number::Integer(99)),
            Type::Number(Number::Integer(56)),
        ],
        vec![gcd_proto()],
        0,
        vec![env_upvalue()],
    );
    let mut it = interp(main);
    let mut max_depth = 0;
    let mut fuel = 0;
    loop {
        let depth_before = it.context.call_info.len();
        if depth_before > max_depth {
            max_depth = depth_before;
        }
        match it.step().unwrap() {
            StepEvent::Halted => break,
            _ => {}
        }
        fuel += 1;
        assert!(fuel < 1000, "did not terminate");
    }
    // gcd(99, 56) == 1
    assert_eq!(it.printed, vec![vec![Type::Number(Number::Integer(1))]]);
    // recursion ran through tail calls: never more than main + one gcd frame
    assert_eq!(max_depth, 2);
}

/// The depth after a `RETURN` equals the depth before the matching `CALL`.
#[test]
fn call_return_depth_balance() {
    // id(x) = x, called once
    let id_proto = block(
        vec![Instruction::RETURN(Return { base: 0, count: Count::Known(1) })],
        vec![],
        vec![],
        1,
        vec![],
    );
    let main = block(
        vec![
            Instruction::CLOSURE(Closure { a: 0, b: 0 }),
            Instruction::LOADK(LoadK { local: 1, constant: 0 }),
            Instruction::CALL(Call {
                function: 0,
                params: Count::Known(1),
                returns: Count::Known(1),
            }),
            Instruction::RETURN(Return { base: 0, count: Count::Known(0) }),
        ],
        vec![Type::Number(Number::Integer(11))],
        vec![id_proto],
        0,
        vec![env_upvalue()],
    );
    let mut it = interp(main);
    it.step().unwrap(); // CLOSURE
    it.step().unwrap(); // LOADK
    let depth_before_call = it.context.call_info.len();
    it.step().unwrap(); // CALL enters the callee
    assert_eq!(it.context.call_info.len(), depth_before_call + 1);
    it.step().unwrap(); // callee RETURN
    assert_eq!(it.context.call_info.len(), depth_before_call);
    it.step().unwrap(); // the rewound CALL scatters the result
    assert_eq!(reg(&it, 0), Type::Number(Number::Integer(11)));
}

/// Two closures created from the same frame that capture the same register
/// share one upvalue cell; while the frame lives they observe the frame's
/// writes, and when it returns the cell freezes at the value the register
/// last held.
#[test]
fn upvalue_aliasing_and_closing() {
    // inner() = the captured upvalue
    let inner = block(
        vec![
            Instruction::GETUPVAL(GetUpval { reg: 0, upvalue: 0 }),
            Instruction::RETURN(Return { base: 0, count: Count::Known(1) }),
        ],
        vec![],
        vec![],
        0,
        vec![UpvalueInfo { name: None, instack: true, index: 0 }],
    );
    // outer(): r0 = 42; two closures capture r0; r0 = 99; return
    let outer = block(
        vec![
            Instruction::LOADK(LoadK { local: 0, constant: 0 }),
            Instruction::CLOSURE(Closure { a: 1, b: 0 }),
            Instruction::CLOSURE(Closure { a: 2, b: 0 }),
            Instruction::LOADK(LoadK { local: 0, constant: 1 }),
            Instruction::RETURN(Return { base: 0, count: Count::Known(0) }),
        ],
        vec![Type::Number(Number::Integer(42)), Type::Number(Number::Integer(99))],
        vec![inner],
        0,
        vec![UpvalueInfo { name: None, instack: false, index: 0 }],
    );
    let main = block(
        vec![
            Instruction::CLOSURE(Closure { a: 0, b: 0 }),
            Instruction::CALL(Call {
                function: 0,
                params: Count::Known(0),
                returns: Count::Known(0),
            }),
            Instruction::RETURN(Return { base: 0, count: Count::Known(0) }),
        ],
        vec![],
        vec![outer],
        0,
        vec![env_upvalue()],
    );
    let mut it = interp(main);
    it.step().unwrap(); // CLOSURE outer
    it.step().unwrap(); // CALL outer (enter)
    it.step().unwrap(); // LOADK r0 = 42
    it.step().unwrap(); // CLOSURE first inner
    it.step().unwrap(); // CLOSURE second inner
    // the two inner closures resolved the same capture to one shared cell
    let n = it.context.closures.len();
    let cell_a = it.context.closures[n - 2].upvalues[0];
    let cell_b = it.context.closures[n - 1].upvalues[0];
    assert_eq!(cell_a, cell_b);
    // while open, the cell reads the live register: both observe the write
    it.step().unwrap(); // LOADK r0 = 99
    let seen = it.context.upvalue_value(cell_a).unwrap();
    assert_eq!(seen, Type::Number(Number::Integer(99)));
    it.step().unwrap(); // outer RETURN: closes the cell
    // frozen at the value the register held when the frame returned
    let frozen = it.context.upvalue_value(cell_a).unwrap();
    assert_eq!(frozen, Type::Number(Number::Integer(99)));
    match &it.context.upvalue_cells[cell_a] {
        Upvalue::Closed(v) => {
            assert_eq!(*v, Type::Number(Number::Integer(99)));
        }
        other => panic!("cell still open after the frame returned: {:?}", other),
    }
}

/// String operations: length, concatenation, and equality by content.
#[test]
fn string_len_concat_eq() {
    let main = block(
        vec![
            Instruction::LOADK(LoadK { local: 0, constant: 0 }),
            Instruction::LOADK(LoadK { local: 1, constant: 1 }),
            Instruction::CONCAT(Concat { a: 2, b: 0, c: 1 }),
            Instruction::LEN(Len { a: 3, b: 2 }),
            // skip the next instruction when r2 != "lua!"
            Instruction::EQ(Equals {
                lhs: DataSource::Register(2),
                rhs: DataSource::Constant(2),
                inverted: false,
            }),
            Instruction::LOADBOOL(LoadBool { reg: 4, value: true, jump: false }),
            Instruction::RETURN(Return { base: 0, count: Count::Known(0) }),
        ],
        vec![
            Type::String(b"lu".to_vec()),
            Type::String(b"a!".to_vec()),
            Type::String(b"lua!".to_vec()),
        ],
        vec![],
        0,
        vec![env_upvalue()],
    );
    let mut it = interp(main);
    for _ in 0..6 {
        it.step().unwrap();
    }
    assert_eq!(reg(&it, 2), Type::String(b"lua!".to_vec()));
    assert_eq!(reg(&it, 3), Type::Number(Number::Integer(4)));
    assert_eq!(reg(&it, 4), Type::Boolean(true));
}

/// Bitwise operations require integer operands and shifts stay in range.
#[test]
fn bitwise_and_shifts() {
    let main = block(
        vec![
            Instruction::LOADK(LoadK { local: 0, constant: 0 }),
            Instruction::BAND(BAnd {
                a: 1,
                b: DataSource::Register(0),
                c: DataSource::Constant(1),
            }),
            Instruction::SHL(Shl {
                a: 2,
                b: DataSource::Register(0),
                c: DataSource::Constant(2),
            }),
            Instruction::BNOT(BNot { a: 3, b: 0 }),
            Instruction::UNM(Unm { a: 4, b: 0 }),
            Instruction::RETURN(Return { base: 0, count: Count::Known(0) }),
        ],
        vec![
            Type::Number(Number::Integer(0b1100)),
            Type::Number(Number::Integer(0b1010)),
            Type::Number(Number::Integer(2)),
        ],
        vec![],
        0,
        vec![env_upvalue()],
    );
    let mut it = interp(main);
    for _ in 0..5 {
        it.step().unwrap();
    }
    assert_eq!(reg(&it, 1), Type::Number(Number::Integer(0b1000)));
    assert_eq!(reg(&it, 2), Type::Number(Number::Integer(0b110000)));
    assert_eq!(reg(&it, 3), Type::Number(Number::Integer(!0b1100)));
    assert_eq!(reg(&it, 4), Type::Number(Number::Integer(-12)));
}

/// A float comparison is decided by the host.
#[test]
fn float_comparison_goes_to_host() {
    let main = block(
        vec![
            Instruction::LOADK(LoadK { local: 0, constant: 0 }),
            // skip the next instruction when !(r0 < 2.5)
            Instruction::LT(LessThan {
                lhs: DataSource::Register(0),
                rhs: DataSource::Constant(1),
                inverted: false,
            }),
            Instruction::LOADBOOL(LoadBool { reg: 1, value: true, jump: false }),
            Instruction::RETURN(Return { base: 0, count: Count::Known(0) }),
        ],
        vec![
            Type::Number(Number::Integer(2)),
            Type::Number(Number::Float(2.5f64.to_bits())),
        ],
        vec![],
        0,
        vec![env_upvalue()],
    );
    let mut it = interp(main);
    it.step().unwrap();
    match it.step().unwrap() {
        StepEvent::FloatCompare { lhs, rhs, .. } => {
            let l = match lhs {
                Number::Integer(v) => v as f64,
                Number::Float(bits) => f64::from_bits(bits),
            };
            let r = match rhs {
                Number::Integer(v) => v as f64,
                Number::Float(bits) => f64::from_bits(bits),
            };
            it.resume_bool(l < r).unwrap();
        }
        other => panic!("expected a host comparison, got {:?}", other),
    }
    it.step().unwrap(); // LOADBOOL (not skipped: 2 < 2.5)
    assert_eq!(reg(&it, 1), Type::Boolean(true));
}

/// A closure returned out of its frame keeps the captured value it saw when
/// the frame closed: two later calls with different arguments both read that
/// frozen value rather than a destroyed stack slot.
#[test]
fn returned_closure_reads_frozen_capture() {
    // inner(x) = captured + x
    let inner = block(
        vec![
            Instruction::GETUPVAL(GetUpval { reg: 1, upvalue: 0 }),
            Instruction::ADD(Add {
                a: 2,
                b: DataSource::Register(1),
                c: DataSource::Register(0),
            }),
            Instruction::RETURN(Return { base: 2, count: Count::Known(1) }),
        ],
        vec![],
        vec![],
        1,
        vec![UpvalueInfo { name: None, instack: true, index: 0 }],
    );
    // outer(): local v = 41; return inner
    let outer = block(
        vec![
            Instruction::LOADK(LoadK { local: 0, constant: 0 }),
            Instruction::CLOSURE(Closure { a: 1, b: 0 }),
            Instruction::RETURN(Return { base: 1, count: Count::Known(1) }),
        ],
        vec![Type::Number(Number::Integer(41))],
        vec![inner],
        0,
        vec![UpvalueInfo { name: None, instack: false, index: 0 }],
    );
    let main = block(
        vec![
            Instruction::CLOSURE(Closure { a: 0, b: 0 }),
            Instruction::CALL(Call {
                function: 0,
                params: Count::Known(0),
                returns: Count::Known(1),
            }),
            // save the returned closure, call it with 1, save the result,
            // then call it again with 9 (registers fill in stack order)
            Instruction::LOADK(LoadK { local: 1, constant: 0 }),
            Instruction::MOVE(Move { to: 2, from: 0 }),
            Instruction::CALL(Call {
                function: 0,
                params: Count::Known(1),
                returns: Count::Known(1),
            }),
            Instruction::MOVE(Move { to: 3, from: 0 }),
            Instruction::MOVE(Move { to: 0, from: 2 }),
            Instruction::LOADK(LoadK { local: 1, constant: 1 }),
            Instruction::CALL(Call {
                function: 0,
                params: Count::Known(1),
                returns: Count::Known(1),
            }),
            Instruction::RETURN(Return { base: 0, count: Count::Known(0) }),
        ],
        vec![Type::Number(Number::Integer(1)), Type::Number(Number::Integer(9))],
        vec![outer],
        0,
        vec![env_upvalue()],
    );
    let mut it = interp(main);
    let mut fuel = 0;
    // step up to (but not through) the final RETURN
    loop {
        let at_return = {
            let frame = &it.context.call_info;
            frame.len() == 1 && it.pc()._pc == 9
        };
        if at_return {
            break;
        }
        match it.step().unwrap() {
            StepEvent::Halted => panic!("halted before the final return"),
            _ => {}
        }
        fuel += 1;
        assert!(fuel < 100, "did not reach the final return");
    }
    assert_eq!(reg(&it, 3), Type::Number(Number::Integer(42)));
    assert_eq!(reg(&it, 0), Type::Number(Number::Integer(50)));
}

/// The program counter over an instruction list: construction, peeking and
/// skipping.
#[test]
fn program_counter_basics() {
    let instrs = vec![
        Instruction::RETURN(Return { base: 0, count: Count::Known(0) }),
        Instruction::JMP(Jmp { a: 0, jump: 0 }),
    ];
    let mut pc = PC::new(instrs);
    assert!(!pc.at_end());
    assert!(matches!(pc.current(), Instruction::RETURN(_)));
    assert!(matches!(pc.get(1), Instruction::JMP(_)));
    pc.skip(1);
    assert!(matches!(pc.current(), Instruction::JMP(_)));
    assert!(matches!(pc.get(-1), Instruction::RETURN(_)));
    pc.skip(1);
    assert!(pc.at_end());
}

fn run_expecting_error(code: Vec<Instruction>, constants: Vec<Type>) -> RuntimeError {
    let main = block(code, constants, vec![], 0, vec![env_upvalue()]);
    let mut it = interp(main);
    it.run().unwrap_err()
}

/// Each execution error names its cause.
#[test]
fn runtime_error_variants() {
    // arithmetic on a non-number
    assert_eq!(
        run_expecting_error(
            vec![
                Instruction::LOADK(LoadK { local: 0, constant: 0 }),
                Instruction::ADD(Add {
                    a: 1,
                    b: DataSource::Register(0),
                    c: DataSource::Register(0),
                }),
            ],
            vec![Type::String(b"x".to_vec())],
        ),
        RuntimeError::NotANumber
    );
    // bitwise arithmetic on a float has no integer representation
    assert_eq!(
        run_expecting_error(
            vec![
                Instruction::LOADK(LoadK { local: 0, constant: 0 }),
                Instruction::BAND(BAnd {
                    a: 1,
                    b: DataSource::Register(0),
                    c: DataSource::Register(0),
                }),
            ],
            vec![Type::Number(Number::Float(1.5f64.to_bits()))],
        ),
        RuntimeError::NoIntegerRepresentation
    );
    // ordering a string against a number
    assert_eq!(
        run_expecting_error(
            vec![
                Instruction::LOADK(LoadK { local: 0, constant: 0 }),
                Instruction::LT(LessThan {
                    lhs: DataSource::Register(0),
                    rhs: DataSource::Constant(1),
                    inverted: false,
                }),
            ],
            vec![Type::String(b"x".to_vec()), Type::Number(Number::Integer(1))],
        ),
        RuntimeError::NotComparable
    );
    // the length of a boolean is not defined
    assert_eq!(
        run_expecting_error(
            vec![
                Instruction::LOADBOOL(LoadBool { reg: 0, value: true, jump: false }),
                Instruction::LEN(Len { a: 1, b: 0 }),
            ],
            vec![],
        ),
        RuntimeError::InvalidLenOperand
    );
    // concatenation of a non-string
    assert_eq!(
        run_expecting_error(
            vec![
                Instruction::LOADK(LoadK { local: 0, constant: 0 }),
                Instruction::LOADK(LoadK { local: 1, constant: 0 }),
                Instruction::CONCAT(Concat { a: 2, b: 0, c: 1 }),
            ],
            vec![Type::Number(Number::Integer(1))],
        ),
        RuntimeError::NotConcatenable
    );
    // a shift amount outside the integer width
    assert_eq!(
        run_expecting_error(
            vec![
                Instruction::LOADK(LoadK { local: 0, constant: 0 }),
                Instruction::LOADK(LoadK { local: 1, constant: 1 }),
                Instruction::SHL(Shl {
                    a: 2,
                    b: DataSource::Register(0),
                    c: DataSource::Register(1),
                }),
            ],
            vec![Type::Number(Number::Integer(1)), Type::Number(Number::Integer(64))],
        ),
        RuntimeError::ShiftOutOfRange
    );
    // reading a register beyond the live window
    assert_eq!(
        run_expecting_error(
            vec![Instruction::MOVE(Move { to: 0, from: 7 })],
            vec![],
        ),
        RuntimeError::RegisterOutOfRange
    );
    // a constant index beyond the pool
    assert_eq!(
        run_expecting_error(
            vec![Instruction::LOADK(LoadK { local: 0, constant: 3 })],
            vec![],
        ),
        RuntimeError::ConstantOutOfRange
    );
    // calling a value that is not a function
    assert_eq!(
        run_expecting_error(
            vec![
                Instruction::LOADK(LoadK { local: 0, constant: 0 }),
                Instruction::CALL(Call {
                    function: 0,
                    params: Count::Known(0),
                    returns: Count::Known(0),
                }),
            ],
            vec![Type::Number(Number::Integer(1))],
        ),
        RuntimeError::NotCallable
    );
    // indexing a non-table
    assert_eq!(
        run_expecting_error(
            vec![
                Instruction::LOADK(LoadK { local: 0, constant: 0 }),
                Instruction::GETTABLE(GetTable { a: 1, b: 0, c: DataSource::Constant(0) }),
            ],
            vec![Type::Number(Number::Integer(1))],
        ),
        RuntimeError::NotATable
    );
    // nil cannot key a table
    assert_eq!(
        run_expecting_error(
            vec![
                Instruction::NEWTABLE(NewTable { a: 0 }),
                Instruction::LOADNIL(LoadNil { start: 1, range: 0 }),
                Instruction::SETTABLE(SetTable {
                    a: 0,
                    b: DataSource::Register(1),
                    c: DataSource::Register(1),
                }),
            ],
            vec![],
        ),
        RuntimeError::InvalidTableKey
    );
    // assert with no argument at all
    assert_eq!(
        run_expecting_error(
            vec![
                Instruction::GETTABUP(GetTabUp {
                    reg: 0,
                    upvalue: 0,
                    constant: DataSource::Constant(0),
                }),
                Instruction::CALL(Call {
                    function: 0,
                    params: Count::Known(0),
                    returns: Count::Known(0),
                }),
            ],
            vec![Type::String(b"assert".to_vec())],
        ),
        RuntimeError::MissingArgument
    );
    // a numeric for loop over a non-integer register
    assert_eq!(
        run_expecting_error(
            vec![
                Instruction::LOADBOOL(LoadBool { reg: 0, value: true, jump: false }),
                Instruction::LOADBOOL(LoadBool { reg: 1, value: true, jump: false }),
                Instruction::LOADBOOL(LoadBool { reg: 2, value: true, jump: false }),
                Instruction::FORPREP(ForPrep { a: 0, jump: 0 }),
            ],
            vec![],
        ),
        RuntimeError::InvalidForLoop
    );
}

/// Stepping while a host answer is pending, and answering when none is.
#[test]
fn host_protocol_errors() {
    let main = block(
        vec![
            Instruction::LOADK(LoadK { local: 0, constant: 0 }),
            Instruction::DIV(Div {
                a: 1,
                b: DataSource::Register(0),
                c: DataSource::Register(0),
            }),
            Instruction::RETURN(Return { base: 0, count: Count::Known(0) }),
        ],
        vec![Type::Number(Number::Integer(4))],
        vec![],
        0,
        vec![env_upvalue()],
    );
    let mut it = interp(main);
    assert_eq!(it.resume_bool(true), Err(RuntimeError::NoHostResultPending));
    it.step().unwrap();
    match it.step().unwrap() {
        StepEvent::FloatArith { .. } => {}
        other => panic!("expected host arithmetic, got {:?}", other),
    }
    // stepping before answering is refused
    assert_eq!(it.step().unwrap_err(), RuntimeError::HostResultPending);
    // a comparison answer cannot satisfy an arithmetic request
    assert_eq!(it.resume_bool(true), Err(RuntimeError::NoHostResultPending));
    it.resume_number(Number::Float(1.0f64.to_bits())).unwrap();
    assert_eq!(reg(&it, 1), Type::Number(Number::Float(1.0f64.to_bits())));
}
