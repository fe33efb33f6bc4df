//! The execution engine: call frames over the shared register stack, the
//! open-upvalue list, the table and closure arenas, and the fetch-decode-
//! execute step. The engine is a state machine driven by `step`; work it
//! cannot do itself — printing, and every floating-point computation — is
//! surfaced to the host as a `StepEvent` and answered through `resume_number`
//! or `resume_bool`.
use vstd::prelude::*;
use crate::error::RuntimeError;
use crate::function::{LuaFunction, Proto};
use crate::instructions::Instruction;
use crate::stack::{Stack, StackLevel};
use crate::table::{spec_table_wf, TableData};
use crate::instruction::{Count, DataSource};
use crate::types::{spec_valid_key, Function, LuaTable, NativeFn, Number, Type, Value};
use crate::upvalues::Upvalue;

verus! {

/// A program counter over one prototype's instruction list. The counter is
/// advanced before an instruction executes, so jumps add their offset on top
/// of the advance.
#[derive(Debug)]
pub struct PC {
    pub _pc: usize,
    pub _instructions: Vec<Instruction>,
}

impl PC {
    pub fn new(instructions: Vec<Instruction>) -> (r: PC)
        ensures
            r._pc == 0,
            r._instructions@ == instructions@,
    {
        PC { _pc: 0, _instructions: instructions }
    }

    pub fn at_end(&self) -> (r: bool)
        ensures
            r == (self._pc >= self._instructions@.len()),
    {
        self._pc >= self._instructions.len()
    }

    /// The instruction at the given offset from the counter.
    pub fn get(&self, relative_index: isize) -> (r: &Instruction)
        requires
            0 <= self._pc + relative_index < self._instructions@.len(),
        ensures
            *r == self._instructions@[self._pc + relative_index],
    {
        let n = self._instructions.len();
        let index = self._pc.wrapping_add_signed(relative_index);
        proof {
            assert(index == self._pc + relative_index);
        }
        &self._instructions[index]
    }

    /// The instruction under the counter.
    pub fn current(&self) -> (r: &Instruction)
        requires
            self._pc < self._instructions@.len(),
        ensures
            *r == self._instructions@[self._pc as int],
    {
        self.get(0)
    }

    /// Moves the counter forward.
    pub fn skip(&mut self, n: usize)
        requires
            old(self)._pc + n <= usize::MAX,
        ensures
            final(self)._pc == old(self)._pc + n,
            final(self)._instructions@ == old(self)._instructions@,
    {
        self._pc = self._pc + n;
    }
}

/// One activation record: its program counter, the prototype it runs (by
/// arena index), its resolved upvalue cells (by arena index), and a staged
/// result while one of its calls is in flight.
#[derive(Debug)]
pub struct CallInfo {
    pub pc: PC,
    pub func: usize,
    pub upvalues: Vec<usize>,
    pub _subcall_returns: Option<Vec<Type>>,
}

/// Arithmetic the host must finish because a float is involved.
#[derive(Debug, Clone, Copy, PartialEq, Eq, Structural)]
pub enum ArithOp {
    Add,
    Sub,
    Mul,
    Mod,
    Pow,
    Div,
    IDiv,
}

/// A comparison the host must finish because a float is involved.
#[derive(Debug, Clone, Copy, PartialEq, Eq, Structural)]
pub enum CompareOp {
    Eq,
    Lt,
    Le,
}

/// What one `step` did, and what (if anything) it needs from the host.
#[derive(Debug)]
pub enum StepEvent {
    /// The instruction completed.
    Normal,
    /// The `print` native ran; these were its arguments.
    Print(Vec<Type>),
    /// A numeric operation needs the host: answer with `resume_number`.
    FloatArith { op: ArithOp, lhs: Number, rhs: Number },
    /// A numeric comparison needs the host: answer with `resume_bool`.
    FloatCompare { op: CompareOp, lhs: Number, rhs: Number },
    /// The call stack is empty; the program has ended.
    Halted,
}

/// Whether the engine is ready to step or awaiting a host answer.
#[derive(Debug, Clone, Copy, PartialEq, Eq, Structural)]
pub enum Mode {
    Ready,
    /// A host-computed number will land in live-window slot `dest`.
    NeedArith { dest: usize },
    /// A host-computed comparison drives a conditional skip.
    NeedCompare { inverted: bool },
}

/// The whole mutable execution state.
#[derive(Debug)]
pub struct Context {
    pub call_info: Vec<CallInfo>,
    pub stack: Stack,
    pub open_upval: usize,
    pub upvalue_cells: Vec<Upvalue>,
    pub tables: Vec<TableData>,
    pub closures: Vec<LuaFunction>,
    pub protos: Vec<Proto>,
    pub mode: Mode,
}


/// What the engine itself computes for `ADD`/`SUB`/`MUL`/`MOD`: two integers
/// combine as wrapping 64-bit integers and stay integers; division by zero is
/// an error; everything else — any float operand, and `POW`/`DIV`/`IDIV`,
/// which are float-valued — is handed to the host (`None`).
pub open spec fn spec_arith_local(op: ArithOp, a: Number, b: Number) -> Option<
    Result<Number, RuntimeError>,
> {
    match (op, a, b) {
        (ArithOp::Add, Number::Integer(x), Number::Integer(y)) => Some(
            Ok(Number::Integer(x.wrapping_add(y))),
        ),
        (ArithOp::Sub, Number::Integer(x), Number::Integer(y)) => Some(
            Ok(Number::Integer(x.wrapping_sub(y))),
        ),
        (ArithOp::Mul, Number::Integer(x), Number::Integer(y)) => Some(
            Ok(Number::Integer(x.wrapping_mul(y))),
        ),
        (ArithOp::Mod, Number::Integer(x), Number::Integer(y)) => Some(
            if y == 0 {
                Err(RuntimeError::DivisionByZero)
            } else {
                Ok(
                    Number::Integer(
                        match x.checked_rem(y) {
                            Some(r) => r,
                            None => 0,
                        },
                    ),
                )
            },
        ),
        _ => None,
    }
}

/// Integer closure of the basic operators: `ADD`, `SUB`, `MUL` and `MOD`
/// between two integers yield an integer, computed by the engine itself,
/// while `DIV` is always handed to the host for float division — even
/// between two integers — as are `POW`, `IDIV`, and every mixed operation,
/// whose results follow the wider (float) operand.
pub proof fn lemma_numeric_promotion(op: ArithOp, x: i64, y: i64, a: Number, b: Number)
    ensures
        (op == ArithOp::Add || op == ArithOp::Sub || op == ArithOp::Mul || (op == ArithOp::Mod && y
            != 0)) ==> (match spec_arith_local(op, Number::Integer(x), Number::Integer(y)) {
            Some(res) => match res {
                Ok(n) => n is Integer,
                Err(_) => false,
            },
            None => false,
        }),
        spec_arith_local(ArithOp::Div, a, b) is None,
        spec_arith_local(ArithOp::Pow, a, b) is None,
        spec_arith_local(ArithOp::IDiv, a, b) is None,
        (a is Float || b is Float) ==> spec_arith_local(op, a, b) is None,
{
}

/// Computes what the engine can; `None` defers to the host.
pub fn arith_local(op: ArithOp, a: Number, b: Number) -> (r: Option<Result<Number, RuntimeError>>)
    ensures
        r == spec_arith_local(op, a, b),
{
    match (op, a, b) {
        (ArithOp::Add, Number::Integer(x), Number::Integer(y)) => Some(
            Ok(Number::Integer(x.wrapping_add(y))),
        ),
        (ArithOp::Sub, Number::Integer(x), Number::Integer(y)) => Some(
            Ok(Number::Integer(x.wrapping_sub(y))),
        ),
        (ArithOp::Mul, Number::Integer(x), Number::Integer(y)) => Some(
            Ok(Number::Integer(x.wrapping_mul(y))),
        ),
        (ArithOp::Mod, Number::Integer(x), Number::Integer(y)) => {
            if y == 0 {
                Some(Err(RuntimeError::DivisionByZero))
            } else {
                let rem = match x.checked_rem(y) {
                    Some(r) => r,
                    None => 0,
                };
                Some(Ok(Number::Integer(rem)))
            }
        },
        _ => None,
    }
}

/// Open-list links strictly descend, so every walk along `next` ends.
pub open spec fn chain_dec(cells: Seq<Upvalue>) -> bool {
    forall|i: int|
        0 <= i < cells.len() ==> match #[trigger] cells[i] {
            Upvalue::Open { next: Some(j), .. } => j < i,
            _ => true,
        }
}

/// The first open cell on the list from `head` whose position is `abs`, as
/// the capture walk finds it; `None` when the walk ends without a match.
pub open spec fn spec_find_open(cells: Seq<Upvalue>, head: int, abs: int) -> Option<int>
    decreases head + 1,
        when chain_dec(cells)
{
    if !(0 <= head < cells.len()) {
        None
    } else {
        match cells[head] {
            Upvalue::Open { position, next } => if position.spec_abs() == abs {
                Some(head)
            } else {
                match next {
                    Some(j) => spec_find_open(cells, j as int, abs),
                    None => None,
                }
            },
            Upvalue::Closed(_) => None,
        }
    }
}

/// The cells the closing walk from `head` closes: the longest prefix of the
/// open list whose positions are at or above `abs`.
pub open spec fn spec_close_chain(cells: Seq<Upvalue>, head: int, abs: int) -> Set<int>
    decreases head + 1,
        when chain_dec(cells)
{
    if !(0 <= head < cells.len()) {
        Set::empty()
    } else {
        match cells[head] {
            Upvalue::Open { position, next } => if position.spec_abs() >= abs {
                match next {
                    Some(j) => spec_close_chain(cells, j as int, abs).insert(head),
                    None => Set::empty().insert(head),
                }
            } else {
                Set::empty()
            },
            Upvalue::Closed(_) => Set::empty(),
        }
    }
}


/// Where the closing walk from `head` ends: the first cell below the close
/// level or already closed — the open list's new head.
pub open spec fn spec_close_stop(cells: Seq<Upvalue>, head: int, abs: int) -> int
    decreases head + 1,
        when chain_dec(cells)
{
    if !(0 <= head < cells.len()) {
        head
    } else {
        match cells[head] {
            Upvalue::Open { position, next } => if position.spec_abs() >= abs {
                match next {
                    Some(j) => spec_close_stop(cells, j as int, abs),
                    None => head,
                }
            } else {
                head
            },
            Upvalue::Closed(_) => head,
        }
    }
}

/// The cell indices at which `now` differs from `before`: with the closing
/// walk, exactly the cells already closed.
pub open spec fn closed_so_far(before: Seq<Upvalue>, now: Seq<Upvalue>) -> Set<int> {
    Set::new(|i: int| 0 <= i < before.len() && now.len() == before.len() && now[i] != before[i])
}

/// `after` is the closed form of `before`: `before` was an open cell at or
/// above `upto`, and `after` owns exactly the value `before` read in `ctx`.
pub open spec fn spec_closed_from(ctx: Context, before: Upvalue, after: Upvalue, upto: StackLevel) -> bool {
    match before {
        Upvalue::Open { position, .. } => position.spec_abs() >= upto.spec_abs() && (match after {
            Upvalue::Closed(v) => v@ == ctx.spec_upvalue_value(before),
            _ => false,
        }),
        _ => false,
    }
}




/// What a comparison decides in the engine: equality by value (identity for
/// tables and functions), order only between numbers; two integers compare as
/// integers, any float defers to the host (`None`).
pub open spec fn spec_cmp_local(op: CompareOp, a: Value, b: Value) -> Option<
    Result<bool, RuntimeError>,
> {
    match op {
        CompareOp::Eq => match crate::types::spec_try_value_eq(a, b) {
            Some(r) => Some(Ok(r)),
            None => None,
        },
        CompareOp::Lt => match (a, b) {
            (Value::Number(Number::Integer(x)), Value::Number(Number::Integer(y))) => Some(
                Ok(x < y),
            ),
            (Value::Number(_), Value::Number(_)) => None,
            _ => Some(Err(RuntimeError::NotComparable)),
        },
        CompareOp::Le => match (a, b) {
            (Value::Number(Number::Integer(x)), Value::Number(Number::Integer(y))) => Some(
                Ok(x <= y),
            ),
            (Value::Number(_), Value::Number(_)) => None,
            _ => Some(Err(RuntimeError::NotComparable)),
        },
    }
}

/// The concatenation of the values in stack slots `lo..=hi`, defined exactly
/// when they are all strings.
pub open spec fn spec_concat_range(s: Seq<Value>, lo: int, hi: int) -> Option<Seq<u8>>
    decreases hi + 1 - lo,
{
    if lo > hi {
        Some(Seq::empty())
    } else if !(0 <= lo < s.len()) {
        None
    } else {
        match s[lo] {
            Value::Str(bytes) => match spec_concat_range(s, lo + 1, hi) {
                Some(rest) => Some(bytes + rest),
                None => None,
            },
            _ => None,
        }
    }
}


/// A range of slots that all hold strings has a defined concatenation.
proof fn lemma_concat_defined(s: Seq<Value>, lo: int, hi: int)
    requires
        forall|j: int| lo <= j <= hi ==> 0 <= j < s.len() && (#[trigger] s[j]) is Str,
    ensures
        spec_concat_range(s, lo, hi) is Some,
    decreases hi + 1 - lo,
{
    if lo <= hi {
        lemma_concat_defined(s, lo + 1, hi);
    }
}


/// A bitwise operator over exact integer representations.
#[derive(Debug, Clone, Copy, PartialEq, Eq, Structural)]
pub enum BitOp {
    And,
    Or,
    Xor,
    Shl,
    Shr,
}

/// What the bitwise instructions compute: 64-bit integer bit operations,
/// with shifts defined only for amounts inside the integer width.
pub open spec fn spec_bitwise(op: BitOp, x: i64, y: i64) -> Result<i64, RuntimeError> {
    match op {
        BitOp::And => Ok(x & y),
        BitOp::Or => Ok(x | y),
        BitOp::Xor => Ok(x ^ y),
        BitOp::Shl => if 0 <= y < 64 {
            Ok(x << y)
        } else {
            Err(RuntimeError::ShiftOutOfRange)
        },
        BitOp::Shr => if 0 <= y < 64 {
            Ok(x >> y)
        } else {
            Err(RuntimeError::ShiftOutOfRange)
        },
    }
}

/// `b` is `a` with the engine mode replaced, and nothing else changed.
pub open spec fn spec_with_mode(a: Context, b: Context, m: Mode) -> bool {
    &&& b.call_info@ == a.call_info@
    &&& b.stack == a.stack
    &&& b.open_upval == a.open_upval
    &&& b.upvalue_cells@ == a.upvalue_cells@
    &&& b.tables@ == a.tables@
    &&& b.closures@ == a.closures@
    &&& b.protos@ == a.protos@
    &&& b.mode == m
}



/// Live-window slot `i` can be read: the slot is inside the stack.
pub open spec fn spec_can_read(pre: Context, i: int) -> bool {
    pre.stack.spec_base() + i < pre.stack.view_seq().len()
}

/// Live-window slot `i` can be written: inside the window, or the one slot
/// just past its end that a write grows the stack into.
pub open spec fn spec_can_write(pre: Context, i: int) -> bool {
    pre.stack.spec_base() + i <= pre.stack.view_seq().len()
}

/// The current frame's counter can move by `delta`.
pub open spec fn spec_can_jump(pre: Context, delta: int) -> bool {
    &&& pre.frame_pc() <= pre.cur_instructions().len()
    &&& 0 <= pre.frame_pc() + delta <= pre.cur_instructions().len()
}

/// `MOVE` succeeds exactly when its source slot exists and its destination
/// is writable.
pub open spec fn spec_move_ok(pre: Context, i: crate::instructions::Move) -> bool {
    spec_can_read(pre, i.from as int) && spec_can_write(pre, i.to as int)
}

/// The effect of `MOVE`: the source slot's value lands in the destination.
pub open spec fn spec_move_rel(pre: Context, post: Context, i: crate::instructions::Move) -> bool {
    spec_reg_write(pre, post, i.to as int, pre.stack.view_seq()[pre.stack.spec_base() + i.from])
}

/// `LOADK` succeeds exactly when the constant exists and the destination is
/// writable.
pub open spec fn spec_loadk_ok(pre: Context, i: crate::instructions::LoadK) -> bool {
    &&& pre.proto_ok()
    &&& i.constant < pre.cur_proto().constants@.len()
    &&& spec_can_write(pre, i.local as int)
}

/// The effect of `LOADK`: the constant's value lands in the destination.
pub open spec fn spec_loadk_rel(pre: Context, post: Context, i: crate::instructions::LoadK) -> bool {
    spec_reg_write(pre, post, i.local as int, pre.cur_proto().constants@[i.constant as int]@)
}

/// `LOADBOOL` succeeds exactly when the destination is writable and, with
/// the jump flag, the skip stays inside the instruction list.
pub open spec fn spec_loadbool_ok(pre: Context, i: crate::instructions::LoadBool) -> bool {
    spec_can_write(pre, i.reg as int) && (i.jump ==> spec_can_jump(pre, 1))
}

/// The effect of `LOADBOOL`: the boolean lands in the destination, and with
/// the jump flag the counter moves one further.
pub open spec fn spec_loadbool_rel(pre: Context, post: Context, i: crate::instructions::LoadBool) -> bool {
    if i.jump {
        exists|mid: Context|
            #[trigger] spec_reg_write(pre, mid, i.reg as int, Value::Boolean(i.value))
                && Context::spec_with_pc(mid, post, pre.frame_pc() + 1)
    } else {
        spec_reg_write(pre, post, i.reg as int, Value::Boolean(i.value))
    }
}

/// `LOADNIL` succeeds exactly when its first destination is writable; the
/// following ones land in the window it grows.
pub open spec fn spec_loadnil_ok(pre: Context, i: crate::instructions::LoadNil) -> bool {
    spec_can_write(pre, i.start as int)
}

/// The effect of `LOADNIL`: slots `start..=start + range` hold `nil`, every
/// other slot and everything else is untouched, and the stack has grown
/// exactly far enough to hold the cleared range.
pub open spec fn spec_loadnil_rel(pre: Context, post: Context, i: crate::instructions::LoadNil) -> bool {
    &&& post.call_info@ == pre.call_info@
    &&& post.stack.frames@ == pre.stack.frames@
    &&& post.open_upval == pre.open_upval
    &&& post.upvalue_cells@ == pre.upvalue_cells@
    &&& post.tables@ == pre.tables@
    &&& post.closures@ == pre.closures@
    &&& post.protos@ == pre.protos@
    &&& post.mode == pre.mode
    &&& post.stack.view_seq().len() == (if pre.stack.view_seq().len() >= pre.stack.spec_base()
        + i.start + i.range + 1 {
        pre.stack.view_seq().len() as int
    } else {
        pre.stack.spec_base() + i.start + i.range + 1
    })
    &&& forall|j: int|
        pre.stack.spec_base() + i.start <= j <= pre.stack.spec_base() + i.start + i.range
            ==> #[trigger] post.stack.view_seq()[j] == Value::Nil
    &&& forall|j: int|
        0 <= j < pre.stack.view_seq().len() && !(pre.stack.spec_base() + i.start <= j
            <= pre.stack.spec_base() + i.start + i.range) ==> #[trigger] post.stack.view_seq()[j]
            == pre.stack.view_seq()[j]
}

/// `GETUPVAL` succeeds exactly when the frame has that upvalue, its cell is
/// live and the destination is writable.
pub open spec fn spec_getupval_ok(pre: Context, i: crate::instructions::GetUpval) -> bool {
    &&& i.upvalue < pre.cur_frame().upvalues@.len()
    &&& (pre.cur_frame().upvalues@[i.upvalue as int] as int) < pre.upvalue_cells@.len()
    &&& spec_can_write(pre, i.reg as int)
}

/// The effect of `GETUPVAL`: the cell's current value lands in the
/// destination.
pub open spec fn spec_getupval_rel(pre: Context, post: Context, i: crate::instructions::GetUpval) -> bool {
    spec_reg_write(
        pre,
        post,
        i.reg as int,
        pre.spec_upvalue_value(
            pre.upvalue_cells@[pre.cur_frame().upvalues@[i.upvalue as int] as int],
        ),
    )
}

/// `JMP` succeeds exactly when the offset lands inside the instruction list
/// (or one past its end).
pub open spec fn spec_jmp_ok(pre: Context, i: crate::instructions::Jmp) -> bool {
    spec_can_jump(pre, i.jump as int)
}

/// The effect of `JMP`: the counter moves by the offset.
pub open spec fn spec_jmp_rel(pre: Context, post: Context, i: crate::instructions::Jmp) -> bool {
    Context::spec_with_pc(pre, post, pre.frame_pc() + i.jump)
}


/// The arithmetic body succeeds exactly when both operands are numbers and
/// either the engine computes the result (two integers, no division by zero,
/// destination writable) or the operation goes to the host.
pub open spec fn spec_arith_ok(pre: Context, op: ArithOp, a: int, bsrc: DataSource, csrc: DataSource) -> bool {
    match (pre.spec_get_from(bsrc), pre.spec_get_from(csrc)) {
        (Some(Value::Number(x)), Some(Value::Number(y))) => match spec_arith_local(op, x, y) {
            Some(res) => res is Ok && spec_can_write(pre, a),
            None => true,
        },
        _ => false,
    }
}

/// The effect of an arithmetic instruction: an engine-computed result lands
/// in the destination; a host-deferred one is surfaced with the operands and
/// the destination remembered in the mode.
pub open spec fn spec_arith_rel(pre: Context, post: Context, op: ArithOp, a: int, bsrc: DataSource, csrc: DataSource, ev: StepEvent) -> bool {
    match (pre.spec_get_from(bsrc), pre.spec_get_from(csrc)) {
        (Some(Value::Number(x)), Some(Value::Number(y))) => match spec_arith_local(op, x, y) {
            Some(res) => match res {
                Ok(n) => ev is Normal && spec_reg_write(pre, post, a, Value::Number(n)),
                Err(_) => false,
            },
            None => (match ev {
                StepEvent::FloatArith { op: o2, lhs, rhs } => o2 == op && lhs == x && rhs == y,
                _ => false,
            }) && spec_with_mode(pre, post, Mode::NeedArith { dest: a as usize }),
        },
        _ => false,
    }
}

/// The bitwise body succeeds exactly when both operands are integers, the
/// shift (if any) stays inside the integer width, and the destination is
/// writable.
pub open spec fn spec_bitwise_ok(pre: Context, op: BitOp, a: int, bsrc: DataSource, csrc: DataSource) -> bool {
    match (pre.spec_get_from(bsrc), pre.spec_get_from(csrc)) {
        (Some(Value::Number(Number::Integer(x))), Some(Value::Number(Number::Integer(y)))) => spec_bitwise(
            op,
            x,
            y,
        ) is Ok && spec_can_write(pre, a),
        _ => false,
    }
}

/// The effect of a bitwise instruction: the computed integer lands in the
/// destination.
pub open spec fn spec_bitwise_rel(pre: Context, post: Context, op: BitOp, a: int, bsrc: DataSource, csrc: DataSource) -> bool {
    match (pre.spec_get_from(bsrc), pre.spec_get_from(csrc)) {
        (Some(Value::Number(Number::Integer(x))), Some(Value::Number(Number::Integer(y)))) => match spec_bitwise(
            op,
            x,
            y,
        ) {
            Ok(z) => spec_reg_write(pre, post, a, Value::Number(Number::Integer(z))),
            Err(_) => false,
        },
        _ => false,
    }
}

/// `UNM` succeeds exactly on an integer source and a writable destination.
pub open spec fn spec_unm_ok(pre: Context, i: crate::instructions::Unm) -> bool {
    pre.spec_get_from(DataSource::Register(i.b)) matches Some(
        Value::Number(Number::Integer(_)),
    ) && spec_can_write(pre, i.a as int)
}

/// The effect of `UNM`: the wrapping negation lands in the destination.
pub open spec fn spec_unm_rel(pre: Context, post: Context, i: crate::instructions::Unm) -> bool {
    match pre.spec_get_from(DataSource::Register(i.b)) {
        Some(Value::Number(Number::Integer(x))) => spec_reg_write(
            pre,
            post,
            i.a as int,
            Value::Number(Number::Integer((0i64).wrapping_sub(x))),
        ),
        _ => false,
    }
}

/// `BNOT` succeeds exactly on an integer source and a writable destination.
pub open spec fn spec_bnot_ok(pre: Context, i: crate::instructions::BNot) -> bool {
    pre.spec_get_from(DataSource::Register(i.b)) matches Some(
        Value::Number(Number::Integer(_)),
    ) && spec_can_write(pre, i.a as int)
}

/// The effect of `BNOT`: the bitwise complement lands in the destination.
pub open spec fn spec_bnot_rel(pre: Context, post: Context, i: crate::instructions::BNot) -> bool {
    match pre.spec_get_from(DataSource::Register(i.b)) {
        Some(Value::Number(Number::Integer(x))) => spec_reg_write(
            pre,
            post,
            i.a as int,
            Value::Number(Number::Integer(!x)),
        ),
        _ => false,
    }
}

/// `NOT` succeeds exactly when the source exists and the destination is
/// writable.
pub open spec fn spec_not_ok(pre: Context, i: crate::instructions::Not) -> bool {
    pre.spec_get_from(DataSource::Register(i.b)) is Some && spec_can_write(pre, i.a as int)
}

/// The effect of `NOT`: the source's truthiness, flipped, as a boolean.
pub open spec fn spec_not_rel(pre: Context, post: Context, i: crate::instructions::Not) -> bool {
    match pre.spec_get_from(DataSource::Register(i.b)) {
        Some(v) => spec_reg_write(pre, post, i.a as int, Value::Boolean(!crate::types::spec_truthy(v))),
        _ => false,
    }
}

/// `LEN` succeeds exactly on a string source and a writable destination.
pub open spec fn spec_len_ok(pre: Context, i: crate::instructions::Len) -> bool {
    pre.spec_get_from(DataSource::Register(i.b)) matches Some(Value::Str(_)) && spec_can_write(
        pre,
        i.a as int,
    )
}

/// The effect of `LEN`: the string's byte length as an integer.
pub open spec fn spec_len_rel(pre: Context, post: Context, i: crate::instructions::Len) -> bool {
    match pre.spec_get_from(DataSource::Register(i.b)) {
        Some(Value::Str(s)) => spec_reg_write(
            pre,
            post,
            i.a as int,
            Value::Number(Number::Integer(s.len() as i64)),
        ),
        _ => false,
    }
}

/// `CONCAT` succeeds exactly when every slot in `b..=c` holds a string and
/// the destination is writable.
pub open spec fn spec_concat_ok(pre: Context, i: crate::instructions::Concat) -> bool {
    spec_concat_range(
        pre.stack.view_seq(),
        pre.stack.spec_base() + i.b,
        pre.stack.spec_base() + i.c,
    ) is Some && spec_can_write(pre, i.a as int)
}

/// The effect of `CONCAT`: the joined bytes land in the destination.
pub open spec fn spec_concat_rel(pre: Context, post: Context, i: crate::instructions::Concat) -> bool {
    match spec_concat_range(
        pre.stack.view_seq(),
        pre.stack.spec_base() + i.b,
        pre.stack.spec_base() + i.c,
    ) {
        Some(bytes) => spec_reg_write(pre, post, i.a as int, Value::Str(bytes)),
        None => false,
    }
}

/// A comparison succeeds exactly when both operands resolve and are
/// comparable, and — when the outcome demands the skip — the skip stays in
/// range; a host-deferred comparison always succeeds.
pub open spec fn spec_compare_ok(pre: Context, op: CompareOp, lhs: DataSource, rhs: DataSource, inverted: bool) -> bool {
    match (pre.spec_get_from(lhs), pre.spec_get_from(rhs)) {
        (Some(a), Some(b)) => match spec_cmp_local(op, a, b) {
            Some(res) => match res {
                Ok(res) => res == inverted ==> spec_can_jump(pre, 1),
                Err(_) => false,
            },
            None => true,
        },
        _ => false,
    }
}

/// The effect of a comparison: an engine-decided outcome drives the
/// conditional skip; a host-deferred one is surfaced with the operands and
/// the inverted flag remembered in the mode.
pub open spec fn spec_compare_rel(pre: Context, post: Context, op: CompareOp, lhs: DataSource, rhs: DataSource, inverted: bool, ev: StepEvent) -> bool {
    match (pre.spec_get_from(lhs), pre.spec_get_from(rhs)) {
        (Some(a), Some(b)) => match spec_cmp_local(op, a, b) {
            Some(res) => match res {
                Ok(res) => ev is Normal && if res == inverted {
                    Context::spec_with_pc(pre, post, pre.frame_pc() + 1)
                } else {
                    post == pre
                },
                Err(_) => false,
            },
            None => (match ev {
                StepEvent::FloatCompare { op: o2, lhs: x, rhs: y } => o2 == op && a
                    == Value::Number(x) && b == Value::Number(y),
                _ => false,
            }) && spec_with_mode(pre, post, Mode::NeedCompare { inverted }),
        },
        _ => false,
    }
}

/// `TEST` succeeds exactly when the register exists and — when the
/// truthiness test demands the skip — the skip stays in range.
pub open spec fn spec_test_ok(pre: Context, i: crate::instructions::Test) -> bool {
    match pre.spec_get_from(DataSource::Register(i.value)) {
        Some(v) => crate::types::spec_truthy(v) != i.constant ==> spec_can_jump(pre, 1),
        None => false,
    }
}

/// The effect of `TEST`: skip the next instruction when the register's
/// truthiness differs from the constant flag.
pub open spec fn spec_test_rel(pre: Context, post: Context, i: crate::instructions::Test) -> bool {
    match pre.spec_get_from(DataSource::Register(i.value)) {
        Some(v) => if crate::types::spec_truthy(v) != i.constant {
            Context::spec_with_pc(pre, post, pre.frame_pc() + 1)
        } else {
            post == pre
        },
        None => false,
    }
}

/// `TESTSET` succeeds exactly when the source register exists and the taken
/// branch — copy or skip — is possible.
pub open spec fn spec_testset_ok(pre: Context, i: crate::instructions::TestSet) -> bool {
    match pre.spec_get_from(DataSource::Register(i.value)) {
        Some(v) => if crate::types::spec_truthy(v) == i.constant {
            spec_can_write(pre, i.reg as int)
        } else {
            spec_can_jump(pre, 1)
        },
        None => false,
    }
}

/// The effect of `TESTSET`: copy the source when its truthiness equals the
/// constant flag, otherwise skip the next instruction.
pub open spec fn spec_testset_rel(pre: Context, post: Context, i: crate::instructions::TestSet) -> bool {
    match pre.spec_get_from(DataSource::Register(i.value)) {
        Some(v) => if crate::types::spec_truthy(v) == i.constant {
            spec_reg_write(pre, post, i.reg as int, v)
        } else {
            Context::spec_with_pc(pre, post, pre.frame_pc() + 1)
        },
        None => false,
    }
}


/// `NEWTABLE` succeeds exactly when the destination is writable.
pub open spec fn spec_newtable_ok(pre: Context, i: crate::instructions::NewTable) -> bool {
    spec_can_write(pre, i.a as int)
}

/// The effect of `NEWTABLE`: a fresh empty table is allocated and its handle
/// lands in the destination.
pub open spec fn spec_newtable_rel(pre: Context, post: Context, i: crate::instructions::NewTable) -> bool {
    exists|mid: Context|
        #[trigger] spec_tbl_alloc(pre, mid) && spec_reg_write(
            mid,
            post,
            i.a as int,
            Value::Table(pre.tables@.len() as int),
        )
}

/// `GETTABLE` succeeds exactly when the indexed register holds a live table,
/// the key resolves to a comparable value and the destination is writable.
pub open spec fn spec_gettable_ok(pre: Context, i: crate::instructions::GetTable) -> bool {
    match (pre.spec_get_from(DataSource::Register(i.b)), pre.spec_get_from(i.c)) {
        (Some(Value::Table(t)), Some(k)) => 0 <= t < pre.tables@.len() && spec_valid_key(k)
            && spec_can_write(pre, i.a as int),
        _ => false,
    }
}

/// The effect of `GETTABLE`: the binding of the key (or `nil`) lands in the
/// destination.
pub open spec fn spec_gettable_rel(pre: Context, post: Context, i: crate::instructions::GetTable) -> bool {
    match (pre.spec_get_from(DataSource::Register(i.b)), pre.spec_get_from(i.c)) {
        (Some(Value::Table(t)), Some(k)) => spec_reg_write(
            pre,
            post,
            i.a as int,
            spec_tbl_read(pre, t, k),
        ),
        _ => false,
    }
}

/// `SETTABLE` succeeds exactly when the indexed register holds a live table
/// and both operands resolve, the key to a comparable value.
pub open spec fn spec_settable_ok(pre: Context, i: crate::instructions::SetTable) -> bool {
    match (
        pre.spec_get_from(DataSource::Register(i.a)),
        pre.spec_get_from(i.b),
        pre.spec_get_from(i.c),
    ) {
        (Some(Value::Table(t)), Some(k), Some(_)) => 0 <= t < pre.tables@.len() && spec_valid_key(
            k,
        ),
        _ => false,
    }
}

/// The effect of `SETTABLE`: the binding is added to the table.
pub open spec fn spec_settable_rel(pre: Context, post: Context, i: crate::instructions::SetTable) -> bool {
    match (
        pre.spec_get_from(DataSource::Register(i.a)),
        pre.spec_get_from(i.b),
        pre.spec_get_from(i.c),
    ) {
        (Some(Value::Table(t)), Some(k), Some(v)) => spec_tbl_push(pre, post, t, k, v),
        _ => false,
    }
}

/// `GETTABUP` succeeds exactly when the frame's upvalue holds a live table,
/// the key resolves to a comparable value and the destination is writable.
pub open spec fn spec_gettabup_ok(pre: Context, i: crate::instructions::GetTabUp) -> bool {
    &&& i.upvalue < pre.cur_frame().upvalues@.len()
    &&& (pre.cur_frame().upvalues@[i.upvalue as int] as int) < pre.upvalue_cells@.len()
    &&& match pre.spec_upvalue_value(
        pre.upvalue_cells@[pre.cur_frame().upvalues@[i.upvalue as int] as int],
    ) {
        Value::Table(t) => 0 <= t < pre.tables@.len(),
        _ => false,
    }
    &&& match pre.spec_get_from(i.constant) {
        Some(k) => spec_valid_key(k),
        None => false,
    }
    &&& spec_can_write(pre, i.reg as int)
}

/// The effect of `GETTABUP`: the binding of the key in the upvalue's table
/// (or `nil`) lands in the destination.
pub open spec fn spec_gettabup_rel(pre: Context, post: Context, i: crate::instructions::GetTabUp) -> bool {
    match pre.spec_upvalue_value(
        pre.upvalue_cells@[pre.cur_frame().upvalues@[i.upvalue as int] as int],
    ) {
        Value::Table(t) => match pre.spec_get_from(i.constant) {
            Some(k) => spec_reg_write(pre, post, i.reg as int, spec_tbl_read(pre, t, k)),
            None => false,
        },
        _ => false,
    }
}

/// `SETTABUP` succeeds exactly when the frame's upvalue holds a live table
/// and both operands resolve, the key to a comparable value.
pub open spec fn spec_settabup_ok(pre: Context, i: crate::instructions::SetTabUp) -> bool {
    &&& i.upval < pre.cur_frame().upvalues@.len()
    &&& (pre.cur_frame().upvalues@[i.upval as int] as int) < pre.upvalue_cells@.len()
    &&& match pre.spec_upvalue_value(
        pre.upvalue_cells@[pre.cur_frame().upvalues@[i.upval as int] as int],
    ) {
        Value::Table(t) => 0 <= t < pre.tables@.len(),
        _ => false,
    }
    &&& match (pre.spec_get_from(i.key), pre.spec_get_from(i.value)) {
        (Some(k), Some(_)) => spec_valid_key(k),
        _ => false,
    }
}

/// The effect of `SETTABUP`: the binding is added to the upvalue's table.
pub open spec fn spec_settabup_rel(pre: Context, post: Context, i: crate::instructions::SetTabUp) -> bool {
    match pre.spec_upvalue_value(
        pre.upvalue_cells@[pre.cur_frame().upvalues@[i.upval as int] as int],
    ) {
        Value::Table(t) => match (pre.spec_get_from(i.key), pre.spec_get_from(i.value)) {
            (Some(k), Some(v)) => spec_tbl_push(pre, post, t, k, v),
            _ => false,
        },
        _ => false,
    }
}


/// What the `SELF` key operand denotes once the receiver has been stored one
/// slot above `a` — the key is read after that write, so a key register equal
/// to `a + 1` reads the receiver itself.
pub open spec fn spec_self_key(pre: Context, i: crate::instructions::SelfOp) -> Option<Value> {
    match i.key {
        DataSource::Constant(c) => pre.spec_get_from(DataSource::Constant(c)),
        DataSource::Register(k) => if k == i.a + 1 {
            match pre.spec_get_from(DataSource::Register(i.table)) {
                Some(Value::Table(t)) => Some(Value::Table(t)),
                _ => None,
            }
        } else {
            pre.spec_get_from(DataSource::Register(k))
        },
    }
}

/// `SELF` succeeds exactly when the receiver register holds a live table,
/// the slot above `a` is writable, and the key (read after that write)
/// resolves to a comparable value.
pub open spec fn spec_self_ok(pre: Context, i: crate::instructions::SelfOp) -> bool {
    match pre.spec_get_from(DataSource::Register(i.table)) {
        Some(Value::Table(t)) => 0 <= t < pre.tables@.len() && spec_can_write(pre, i.a + 1) && (
        match spec_self_key(pre, i) {
            Some(k) => spec_valid_key(k),
            None => false,
        }),
        _ => false,
    }
}

/// `FORPREP` succeeds exactly when the loop and step registers hold
/// integers, the loop register is writable and the jump stays in range.
pub open spec fn spec_forprep_ok(pre: Context, i: crate::instructions::ForPrep) -> bool {
    &&& pre.spec_get_from(DataSource::Register(i.a)) matches Some(
        Value::Number(Number::Integer(_)),
    )
    &&& pre.spec_get_from(DataSource::Register((i.a + 2) as usize)) matches Some(
        Value::Number(Number::Integer(_)),
    )
    &&& spec_can_write(pre, i.a as int)
    &&& spec_can_jump(pre, i.jump as int)
}

/// The effect of `FORPREP`: the step is subtracted from the loop register
/// once and the counter jumps to the loop head.
pub open spec fn spec_forprep_rel(pre: Context, post: Context, i: crate::instructions::ForPrep) -> bool {
    match (
        pre.spec_get_from(DataSource::Register(i.a)),
        pre.spec_get_from(DataSource::Register((i.a + 2) as usize)),
    ) {
        (
            Some(Value::Number(Number::Integer(init))),
            Some(Value::Number(Number::Integer(step))),
        ) => exists|mid: Context|
            #[trigger] spec_reg_write(
                pre,
                mid,
                i.a as int,
                Value::Number(Number::Integer(init.wrapping_sub(step))),
            ) && Context::spec_with_pc(mid, post, pre.frame_pc() + i.jump),
        _ => false,
    }
}

/// Whether a `FORLOOP` with the given loop value, limit and step continues.
pub open spec fn spec_forloop_continues(cur: i64, limit: i64, step: i64) -> bool {
    (step > 0 && cur.wrapping_add(step) <= limit) || (step < 0 && cur.wrapping_add(step) >= limit)
}

/// `FORLOOP` succeeds exactly when the three loop registers hold integers,
/// the loop register is writable, and — when the loop continues — the
/// visible copy is writable and the back-jump stays in range.
pub open spec fn spec_forloop_ok(pre: Context, i: crate::instructions::ForLoop) -> bool {
    match (
        pre.spec_get_from(DataSource::Register(i.a)),
        pre.spec_get_from(DataSource::Register((i.a + 1) as usize)),
        pre.spec_get_from(DataSource::Register((i.a + 2) as usize)),
    ) {
        (
            Some(Value::Number(Number::Integer(cur))),
            Some(Value::Number(Number::Integer(limit))),
            Some(Value::Number(Number::Integer(step))),
        ) => spec_can_write(pre, i.a as int) && (spec_forloop_continues(cur, limit, step)
            ==> spec_can_write(pre, i.a + 3) && spec_can_jump(pre, i.jump as int)),
        _ => false,
    }
}

/// The effect of `FORLOOP`: the step is re-added to the loop register; while
/// the limit is not passed, the visible copy is published and the counter
/// jumps back.
pub open spec fn spec_forloop_rel(pre: Context, post: Context, i: crate::instructions::ForLoop) -> bool {
    match (
        pre.spec_get_from(DataSource::Register(i.a)),
        pre.spec_get_from(DataSource::Register((i.a + 1) as usize)),
        pre.spec_get_from(DataSource::Register((i.a + 2) as usize)),
    ) {
        (
            Some(Value::Number(Number::Integer(cur))),
            Some(Value::Number(Number::Integer(limit))),
            Some(Value::Number(Number::Integer(step))),
        ) => {
            let next = cur.wrapping_add(step);
            if spec_forloop_continues(cur, limit, step) {
                exists|m1: Context, m2: Context|
                    #[trigger] spec_reg_write(
                        pre,
                        m1,
                        i.a as int,
                        Value::Number(Number::Integer(next)),
                    ) && #[trigger] spec_reg_write(
                        m1,
                        m2,
                        i.a + 3,
                        Value::Number(Number::Integer(next)),
                    ) && Context::spec_with_pc(m2, post, pre.frame_pc() + i.jump)
            } else {
                spec_reg_write(pre, post, i.a as int, Value::Number(Number::Integer(next)))
            }
        },
        _ => false,
    }
}


/// Appending a cell to the arena leaves every walk that starts at an
/// existing cell unchanged: the open list never reaches the new cell.
proof fn lemma_find_open_extend(cells: Seq<Upvalue>, extra: Upvalue, head: int, abs: int)
    requires
        chain_dec(cells),
        0 <= head < cells.len(),
        match extra {
            Upvalue::Open { next: Some(j), .. } => (j as int) < cells.len(),
            _ => true,
        },
    ensures
        spec_find_open(cells.push(extra), head, abs) == spec_find_open(cells, head, abs),
    decreases head + 1,
{
    assert(chain_dec(cells.push(extra))) by {
        assert(forall|i: int| 0 <= i < cells.len() ==> cells.push(extra)[i] == cells[i]);
    }
    match cells[head] {
        Upvalue::Open { position, next } => {
            if position.spec_abs() != abs {
                match next {
                    Some(j) => {
                        lemma_find_open_extend(cells, extra, j as int, abs);
                    },
                    None => {
                    },
                }
            }
        },
        Upvalue::Closed(_) => {
        },
    }
}

/// `CLOSURE` succeeds exactly when the nested prototype exists and every
/// upvalue descriptor resolves: an in-stack capture within the machine's
/// address range, an aliasing one to a live cell of the enclosing frame; the
/// destination must be writable.
pub open spec fn spec_closure_ok(pre: Context, i: crate::instructions::Closure) -> bool {
    &&& pre.proto_ok()
    &&& i.b < pre.cur_proto().nested@.len()
    &&& (pre.cur_proto().nested@[i.b as int] as int) < pre.protos@.len()
    &&& spec_can_write(pre, i.a as int)
    &&& ({
        let descs = pre.protos@[pre.cur_proto().nested@[i.b as int] as int].upvalues@;
        forall|d: int|
            0 <= d < descs.len() ==> (if (#[trigger] descs[d]).instack {
                pre.stack.spec_base() + descs[d].index <= usize::MAX
            } else {
                (descs[d].index as int) < pre.cur_frame().upvalues@.len() && (
                pre.cur_frame().upvalues@[descs[d].index as int] as int)
                    < pre.upvalue_cells@.len()
            })
    })
}


/// How many values an operand count names at `start`: a known count as is,
/// an unknown one everything from `start` up to the stack top; undefined
/// while the live window is empty.
pub open spec fn spec_resolved_count(pre: Context, start: int, c: Count) -> Option<int> {
    match c {
        Count::Known(k) => Some(k as int),
        Count::Unknown => if pre.stack.view_seq().len() > pre.stack.spec_base() {
            Some(
                if pre.stack.view_seq().len() - 1 - pre.stack.spec_base() > start {
                    pre.stack.view_seq().len() - 1 - pre.stack.spec_base() - start
                } else {
                    0
                },
            )
        } else {
            None
        },
    }
}

/// The stack-view effect of scattering `rets` into slots `start..start +
/// slots`: up to `slots` values land there (extra returned values are
/// dropped), every other slot keeps its value.
pub open spec fn spec_scatter_view(pre_view: Seq<Value>, base: int, start: int, slots: int, rets: Seq<Value>, post_view: Seq<Value>) -> bool {
    let n = if slots <= rets.len() {
        slots
    } else {
        rets.len() as int
    };
    &&& post_view.len() >= pre_view.len()
    &&& forall|j: int|
        base + start <= j < base + start + n && j < post_view.len() ==> #[trigger] post_view[j]
            == rets[j - (base + start)]
    &&& forall|j: int|
        0 <= j < pre_view.len() && !(base + start <= j < base + start + slots)
            ==> #[trigger] post_view[j] == pre_view[j]
}

/// `RETURN` succeeds exactly when its return count resolves and names a
/// range inside the live window.
pub open spec fn spec_return_ok(pre: Context, i: crate::instructions::Return) -> bool {
    match spec_resolved_count(pre, i.base as int, i.count) {
        Some(k) => i.base + k <= usize::MAX && (k == 0 || pre.stack.spec_base() + i.base + k
            <= pre.stack.view_seq().len()),
        None => false,
    }
}

/// The effect of `RETURN`: the frame is popped and its window discarded;
/// with a caller left, the open upvalues over the popped window close and
/// the designated return values are staged on the caller, whose own state is
/// otherwise untouched.
pub open spec fn spec_return_rel(pre: Context, post: Context, i: crate::instructions::Return) -> bool {
    let k = spec_resolved_count(pre, i.base as int, i.count).unwrap();
    let upto = StackLevel { base: pre.stack.spec_base() as usize, index: 0 };
    &&& post.depth() == pre.depth() - 1
    &&& forall|f: int| 0 <= f < pre.depth() - 2 ==> #[trigger] post.call_info@[f] == pre.call_info@[f]
    &&& (if pre.stack.frames@.len() > 0 {
        post.stack.view_seq() == pre.stack.view_seq().take(pre.stack.spec_base())
            && post.stack.frames@ == pre.stack.frames@.drop_last()
    } else {
        post.stack.view_seq() == Seq::<Value>::empty() && post.stack.frames@
            == pre.stack.frames@
    })
    &&& post.tables@ == pre.tables@
    &&& post.closures@ == pre.closures@
    &&& post.protos@ == pre.protos@
    &&& post.mode == pre.mode
    &&& post.upvalue_cells@.len() == pre.upvalue_cells@.len()
    &&& (if pre.depth() > 1 {
        &&& post.cur_frame().pc == pre.call_info@[pre.depth() - 2].pc
        &&& post.cur_frame().func == pre.call_info@[pre.depth() - 2].func
        &&& post.cur_frame().upvalues@ == pre.call_info@[pre.depth() - 2].upvalues@
        &&& (match post.cur_frame()._subcall_returns {
            Some(rets) => rets@.len() == k && forall|m: int|
                0 <= m < k ==> (#[trigger] rets@[m])@ == pre.stack.view_seq()[
                    pre.stack.spec_base() + i.base + m
                ],
            None => false,
        })
        // every open upvalue on the list prefix over the popped window
        // closes over the value its slot held; the rest are untouched
        &&& forall|c: int|
            0 <= c < pre.upvalue_cells@.len() ==> if spec_close_chain(
                pre.upvalue_cells@,
                pre.open_upval as int,
                pre.stack.spec_base(),
            ).contains(c) {
                spec_closed_from(pre, pre.upvalue_cells@[c], #[trigger] post.upvalue_cells@[c], upto)
            } else {
                post.upvalue_cells@[c] == pre.upvalue_cells@[c]
            }
        &&& post.open_upval == spec_close_stop(
            pre.upvalue_cells@,
            pre.open_upval as int,
            pre.stack.spec_base(),
        )
    } else {
        post.upvalue_cells@ == pre.upvalue_cells@ && post.open_upval == pre.open_upval
    })
}


/// `TAILCALL` succeeds exactly when the callee register holds a live closure
/// over a live prototype and the parameter count resolves to a range inside
/// the live window.
pub open spec fn spec_tailcall_ok(pre: Context, i: crate::instructions::Tailcall) -> bool {
    &&& (match pre.spec_get_from(DataSource::Register(i.function)) {
        Some(Value::Function(Function::Lua(cid))) => (cid as int) < pre.closures@.len() && (
        pre.closures@[cid as int].proto as int) < pre.protos@.len(),
        _ => false,
    })
    &&& (match spec_resolved_count(pre, i.function + 1, i.params) {
        Some(k) => i.function + 1 + k <= usize::MAX && (k == 0 || pre.stack.spec_base()
            + i.function + 1 + k <= pre.stack.view_seq().len()),
        None => false,
    })
}

/// The effect of `TAILCALL`: the current frame is replaced by the callee —
/// same depth, callers untouched — the open upvalues over the abandoned
/// window close, the window is replaced by one holding the parameters
/// (missing ones padded with `nil`), and the callee starts at counter zero.
pub open spec fn spec_tailcall_rel(pre: Context, post: Context, i: crate::instructions::Tailcall) -> bool {
    match pre.spec_get_from(DataSource::Register(i.function)) {
        Some(Value::Function(Function::Lua(cid))) => {
            let pid = pre.closures@[cid as int].proto;
            let k = spec_resolved_count(pre, i.function + 1, i.params).unwrap();
            let want = pre.protos@[pid as int].amount_parameters as int;
            let padded = if k >= want {
                k
            } else {
                want
            };
            let retained = if pre.stack.frames@.len() > 0 {
                pre.stack.spec_base()
            } else {
                0
            };
            let upto = StackLevel { base: pre.stack.spec_base() as usize, index: 0 };
            &&& post.depth() == pre.depth()
            &&& forall|f: int|
                0 <= f < pre.depth() - 1 ==> #[trigger] post.call_info@[f] == pre.call_info@[f]
            &&& post.cur_frame().func == pid
            &&& post.cur_frame().pc._pc == 0
            &&& post.cur_frame().pc._instructions@ == pre.protos@[pid as int].instructions@
            &&& post.cur_frame().upvalues@ == pre.closures@[cid as int].upvalues@
            &&& post.cur_frame()._subcall_returns is None
            &&& (if pre.stack.frames@.len() > 0 {
                post.stack.frames@ == pre.stack.frames@.drop_last().push(
                    pre.stack.spec_base() as usize,
                )
            } else {
                post.stack.frames@ == pre.stack.frames@.push(0)
            })
            &&& post.stack.view_seq().len() == retained + padded
            &&& forall|j: int| 0 <= j < retained ==> #[trigger] post.stack.view_seq()[j] == pre.stack.view_seq()[j]
            &&& forall|q: int|
                0 <= q < padded ==> #[trigger] post.stack.view_seq()[retained + q] == (if q < k {
                    pre.stack.view_seq()[pre.stack.spec_base() + i.function + 1 + q]
                } else {
                    Value::Nil
                })
            &&& post.tables@ == pre.tables@
            &&& post.closures@ == pre.closures@
            &&& post.protos@ == pre.protos@
            &&& post.mode == pre.mode
            &&& post.upvalue_cells@.len() == pre.upvalue_cells@.len()
            &&& forall|c: int|
                0 <= c < pre.upvalue_cells@.len() ==> if spec_close_chain(
                    pre.upvalue_cells@,
                    pre.open_upval as int,
                    pre.stack.spec_base(),
                ).contains(c) {
                    spec_closed_from(
                        pre,
                        pre.upvalue_cells@[c],
                        #[trigger] post.upvalue_cells@[c],
                        upto,
                    )
                } else {
                    post.upvalue_cells@[c] == pre.upvalue_cells@[c]
                }
            &&& post.open_upval == spec_close_stop(
                pre.upvalue_cells@,
                pre.open_upval as int,
                pre.stack.spec_base(),
            )
        },
        _ => false,
    }
}


/// The return slots of a finished native or staged call resolve and stay in
/// the machine's address range.
pub open spec fn spec_ret_slots_ok(pre: Context, i: crate::instructions::Call) -> bool {
    match spec_resolved_count(pre, i.function as int, i.returns) {
        Some(slots) => i.function + slots <= usize::MAX,
        None => false,
    }
}

/// `CALL` succeeds exactly when — with a staged result — the return window
/// resolves and can take the scatter; with a native callee, the arguments
/// resolve and the native's own demands hold (`assert` wants a truthy first
/// argument, `type` any first argument); with a Lua callee, the closure and
/// its prototype are live, the parameters resolve, and the counter can be
/// rewound onto this instruction.
pub open spec fn spec_call_ok(pre: Context, i: crate::instructions::Call) -> bool {
    if pre.cur_frame()._subcall_returns is Some {
        let rets = pre.cur_frame()._subcall_returns.unwrap();
        match spec_resolved_count(pre, i.function as int, i.returns) {
            Some(slots) => i.function + slots <= usize::MAX && ((if slots <= rets@.len() {
                slots
            } else {
                rets@.len() as int
            }) == 0 || pre.stack.spec_base() + i.function <= pre.stack.view_seq().len()),
            None => false,
        }
    } else {
        match pre.spec_get_from(DataSource::Register(i.function)) {
            Some(Value::Function(Function::Native(nf))) => (match spec_resolved_count(
                pre,
                i.function + 1,
                i.params,
            ) {
                Some(k) => i.function + 1 + k <= usize::MAX && (k == 0 || pre.stack.spec_base()
                    + i.function + 1 + k <= pre.stack.view_seq().len()) && (match nf {
                    NativeFn::Print => true,
                    NativeFn::Assert => k >= 1 && crate::types::spec_truthy(
                        pre.stack.view_seq()[pre.stack.spec_base() + i.function + 1],
                    ) && spec_ret_slots_ok(pre, i),
                    NativeFn::Type => k >= 1 && spec_ret_slots_ok(pre, i),
                }),
                None => false,
            }),
            Some(Value::Function(Function::Lua(cid))) => (cid as int) < pre.closures@.len() && (
            pre.closures@[cid as int].proto as int) < pre.protos@.len() && (
            match spec_resolved_count(pre, i.function + 1, i.params) {
                Some(k) => i.function + 1 + k <= usize::MAX && (k == 0 || pre.stack.spec_base()
                    + i.function + 1 + k <= pre.stack.view_seq().len()),
                None => false,
            }) && 1 <= pre.frame_pc() <= pre.cur_instructions().len(),
            _ => false,
        }
    }
}

/// The effect of `CALL`. A staged result is consumed and scattered into the
/// return window. A native runs to completion: `print` changes nothing and
/// surfaces its arguments, `assert` echoes its arguments into the return
/// window, `type` returns the first argument's type name. A Lua callee gets
/// one new frame over a fresh window holding the parameters (missing ones
/// padded with `nil`), and the caller's counter is rewound onto this call.
pub open spec fn spec_call_rel(pre: Context, post: Context, i: crate::instructions::Call, ev: StepEvent) -> bool {
    let base = pre.stack.spec_base();
    let f = i.function as int;
    if pre.cur_frame()._subcall_returns is Some {
        let rets = pre.cur_frame()._subcall_returns.unwrap();
        let slots = spec_resolved_count(pre, f, i.returns).unwrap();
        &&& ev is Normal
        &&& post.depth() == pre.depth()
        &&& forall|q: int| 0 <= q < pre.depth() - 1 ==> #[trigger] post.call_info@[q] == pre.call_info@[q]
        &&& post.cur_frame().pc == pre.cur_frame().pc
        &&& post.cur_frame().func == pre.cur_frame().func
        &&& post.cur_frame().upvalues@ == pre.cur_frame().upvalues@
        &&& post.cur_frame()._subcall_returns is None
        &&& spec_scatter_view(
            pre.stack.view_seq(),
            base,
            f,
            slots,
            crate::stack::views(rets@),
            post.stack.view_seq(),
        )
        &&& post.stack.frames@ == pre.stack.frames@
        &&& post.open_upval == pre.open_upval
        &&& post.upvalue_cells@ == pre.upvalue_cells@
        &&& post.tables@ == pre.tables@
        &&& post.closures@ == pre.closures@
        &&& post.protos@ == pre.protos@
        &&& post.mode == pre.mode
    } else {
        match pre.spec_get_from(DataSource::Register(i.function)) {
            Some(Value::Function(Function::Native(nf))) => {
                let k = spec_resolved_count(pre, f + 1, i.params).unwrap();
                let args = pre.stack.view_seq().subrange(base + f + 1, base + f + 1 + k);
                match nf {
                    NativeFn::Print => post == pre && (match ev {
                        StepEvent::Print(out) => crate::stack::views(out@) == args,
                        _ => false,
                    }),
                    NativeFn::Assert => {
                        let slots = spec_resolved_count(pre, f, i.returns).unwrap();
                        &&& ev is Normal
                        &&& post.call_info@ == pre.call_info@
                        &&& spec_scatter_view(
                            pre.stack.view_seq(),
                            base,
                            f,
                            slots,
                            args,
                            post.stack.view_seq(),
                        )
                        &&& post.stack.frames@ == pre.stack.frames@
                        &&& post.open_upval == pre.open_upval
                        &&& post.upvalue_cells@ == pre.upvalue_cells@
                        &&& post.tables@ == pre.tables@
                        &&& post.closures@ == pre.closures@
                        &&& post.protos@ == pre.protos@
                        &&& post.mode == pre.mode
                    },
                    NativeFn::Type => {
                        let slots = spec_resolved_count(pre, f, i.returns).unwrap();
                        &&& ev is Normal
                        &&& post.call_info@ == pre.call_info@
                        &&& spec_scatter_view(
                            pre.stack.view_seq(),
                            base,
                            f,
                            slots,
                            seq![Value::Str(crate::types::spec_as_type_name(args[0]))],
                            post.stack.view_seq(),
                        )
                        &&& post.stack.frames@ == pre.stack.frames@
                        &&& post.open_upval == pre.open_upval
                        &&& post.upvalue_cells@ == pre.upvalue_cells@
                        &&& post.tables@ == pre.tables@
                        &&& post.closures@ == pre.closures@
                        &&& post.protos@ == pre.protos@
                        &&& post.mode == pre.mode
                    },
                }
            },
            Some(Value::Function(Function::Lua(cid))) => {
                let pid = pre.closures@[cid as int].proto;
                let k = spec_resolved_count(pre, f + 1, i.params).unwrap();
                let want = pre.protos@[pid as int].amount_parameters as int;
                let padded = if k >= want {
                    k
                } else {
                    want
                };
                let newbase = pre.stack.view_seq().len() as int;
                &&& ev is Normal
                &&& post.depth() == pre.depth() + 1
                &&& forall|q: int| 0 <= q < pre.depth() - 1 ==> #[trigger] post.call_info@[q] == pre.call_info@[q]
                // the caller's counter is rewound onto this call
                &&& post.call_info@[pre.depth() - 1].pc._pc == pre.frame_pc() - 1
                &&& post.call_info@[pre.depth() - 1].pc._instructions@
                    == pre.cur_frame().pc._instructions@
                &&& post.call_info@[pre.depth() - 1].func == pre.cur_frame().func
                &&& post.call_info@[pre.depth() - 1].upvalues@ == pre.cur_frame().upvalues@
                &&& post.call_info@[pre.depth() - 1]._subcall_returns
                    == pre.cur_frame()._subcall_returns
                &&& post.cur_frame().func == pid
                &&& post.cur_frame().pc._pc == 0
                &&& post.cur_frame().pc._instructions@ == pre.protos@[pid as int].instructions@
                &&& post.cur_frame().upvalues@ == pre.closures@[cid as int].upvalues@
                &&& post.cur_frame()._subcall_returns is None
                // one new window opens at the old top, holding the parameters
                &&& post.stack.frames@ == pre.stack.frames@.push(
                    pre.stack.view_seq().len() as usize,
                )
                &&& post.stack.view_seq().len() == newbase + padded
                &&& forall|j: int| 0 <= j < newbase ==> #[trigger] post.stack.view_seq()[j] == pre.stack.view_seq()[j]
                &&& forall|q: int|
                    0 <= q < padded ==> #[trigger] post.stack.view_seq()[newbase + q] == (if q < k {
                        pre.stack.view_seq()[base + f + 1 + q]
                    } else {
                        Value::Nil
                    })
                &&& post.open_upval == pre.open_upval
                &&& post.upvalue_cells@ == pre.upvalue_cells@
                &&& post.tables@ == pre.tables@
                &&& post.closures@ == pre.closures@
                &&& post.protos@ == pre.protos@
                &&& post.mode == pre.mode
            },
            _ => false,
        }
    }
}


/// Whether instruction `i`, executed against the advanced state `mid`, is
/// owed success: the dispatch of the per-instruction success conditions.
pub open spec fn spec_instr_ok(mid: Context, i: Instruction) -> bool {
    match i {
        Instruction::MOVE(s) => spec_move_ok(mid, s),
        Instruction::LOADK(s) => spec_loadk_ok(mid, s),
        Instruction::LOADBOOL(s) => spec_loadbool_ok(mid, s),
        Instruction::LOADNIL(s) => spec_loadnil_ok(mid, s),
        Instruction::GETUPVAL(s) => spec_getupval_ok(mid, s),
        Instruction::GETTABUP(s) => spec_gettabup_ok(mid, s),
        Instruction::GETTABLE(s) => spec_gettable_ok(mid, s),
        Instruction::SETTABUP(s) => spec_settabup_ok(mid, s),
        Instruction::SETTABLE(s) => spec_settable_ok(mid, s),
        Instruction::NEWTABLE(s) => spec_newtable_ok(mid, s),
        Instruction::UNM(s) => spec_unm_ok(mid, s),
        Instruction::BNOT(s) => spec_bnot_ok(mid, s),
        Instruction::NOT(s) => spec_not_ok(mid, s),
        Instruction::LEN(s) => spec_len_ok(mid, s),
        Instruction::CONCAT(s) => spec_concat_ok(mid, s),
        Instruction::JMP(s) => spec_jmp_ok(mid, s),
        Instruction::TEST(s) => spec_test_ok(mid, s),
        Instruction::TESTSET(s) => spec_testset_ok(mid, s),
        Instruction::FORLOOP(s) => spec_forloop_ok(mid, s),
        Instruction::FORPREP(s) => spec_forprep_ok(mid, s),
        Instruction::ADD(s) => spec_arith_ok(mid, ArithOp::Add, s.a as int, s.b, s.c),
        Instruction::SUB(s) => spec_arith_ok(mid, ArithOp::Sub, s.a as int, s.b, s.c),
        Instruction::MUL(s) => spec_arith_ok(mid, ArithOp::Mul, s.a as int, s.b, s.c),
        Instruction::MOD(s) => spec_arith_ok(mid, ArithOp::Mod, s.a as int, s.b, s.c),
        Instruction::POW(s) => spec_arith_ok(mid, ArithOp::Pow, s.a as int, s.b, s.c),
        Instruction::DIV(s) => spec_arith_ok(mid, ArithOp::Div, s.a as int, s.b, s.c),
        Instruction::IDIV(s) => spec_arith_ok(mid, ArithOp::IDiv, s.a as int, s.b, s.c),
        Instruction::BAND(s) => spec_bitwise_ok(mid, BitOp::And, s.a as int, s.b, s.c),
        Instruction::BOR(s) => spec_bitwise_ok(mid, BitOp::Or, s.a as int, s.b, s.c),
        Instruction::BXOR(s) => spec_bitwise_ok(mid, BitOp::Xor, s.a as int, s.b, s.c),
        Instruction::SHL(s) => spec_bitwise_ok(mid, BitOp::Shl, s.a as int, s.b, s.c),
        Instruction::SHR(s) => spec_bitwise_ok(mid, BitOp::Shr, s.a as int, s.b, s.c),
        Instruction::EQ(s) => spec_compare_ok(mid, CompareOp::Eq, s.lhs, s.rhs, s.inverted),
        Instruction::LT(s) => spec_compare_ok(mid, CompareOp::Lt, s.lhs, s.rhs, s.inverted),
        Instruction::LE(s) => spec_compare_ok(mid, CompareOp::Le, s.lhs, s.rhs, s.inverted),
        Instruction::SELF(s) => spec_self_ok(mid, s),
        Instruction::CLOSURE(s) => spec_closure_ok(mid, s),
        Instruction::CALL(s) => spec_call_ok(mid, s),
        Instruction::TAILCALL(s) => spec_tailcall_ok(mid, s),
        Instruction::RETURN(s) => spec_return_ok(mid, s),
    }
}

/// The contracted effect of instruction `i` from the advanced state `mid` to
/// `post`, with the event it produced: the dispatch of the per-instruction
/// effect relations.
pub open spec fn spec_instr_rel(mid: Context, post: Context, i: Instruction, ev: StepEvent) -> bool {
    match i {
        Instruction::MOVE(s) => ev is Normal && spec_move_rel(mid, post, s),
        Instruction::LOADK(s) => ev is Normal && spec_loadk_rel(mid, post, s),
        Instruction::LOADBOOL(s) => ev is Normal && spec_loadbool_rel(mid, post, s),
        Instruction::LOADNIL(s) => ev is Normal && spec_loadnil_rel(mid, post, s),
        Instruction::GETUPVAL(s) => ev is Normal && spec_getupval_rel(mid, post, s),
        Instruction::GETTABUP(s) => ev is Normal && spec_gettabup_rel(mid, post, s),
        Instruction::GETTABLE(s) => ev is Normal && spec_gettable_rel(mid, post, s),
        Instruction::SETTABUP(s) => ev is Normal && spec_settabup_rel(mid, post, s),
        Instruction::SETTABLE(s) => ev is Normal && spec_settable_rel(mid, post, s),
        Instruction::NEWTABLE(s) => ev is Normal && spec_newtable_rel(mid, post, s),
        Instruction::UNM(s) => ev is Normal && spec_unm_rel(mid, post, s),
        Instruction::BNOT(s) => ev is Normal && spec_bnot_rel(mid, post, s),
        Instruction::NOT(s) => ev is Normal && spec_not_rel(mid, post, s),
        Instruction::LEN(s) => ev is Normal && spec_len_rel(mid, post, s),
        Instruction::CONCAT(s) => ev is Normal && spec_concat_rel(mid, post, s),
        Instruction::JMP(s) => ev is Normal && spec_jmp_rel(mid, post, s),
        Instruction::TEST(s) => ev is Normal && spec_test_rel(mid, post, s),
        Instruction::TESTSET(s) => ev is Normal && spec_testset_rel(mid, post, s),
        Instruction::FORLOOP(s) => ev is Normal && spec_forloop_rel(mid, post, s),
        Instruction::FORPREP(s) => ev is Normal && spec_forprep_rel(mid, post, s),
        Instruction::ADD(s) => spec_arith_rel(mid, post, ArithOp::Add, s.a as int, s.b, s.c, ev),
        Instruction::SUB(s) => spec_arith_rel(mid, post, ArithOp::Sub, s.a as int, s.b, s.c, ev),
        Instruction::MUL(s) => spec_arith_rel(mid, post, ArithOp::Mul, s.a as int, s.b, s.c, ev),
        Instruction::MOD(s) => spec_arith_rel(mid, post, ArithOp::Mod, s.a as int, s.b, s.c, ev),
        Instruction::POW(s) => spec_arith_rel(mid, post, ArithOp::Pow, s.a as int, s.b, s.c, ev),
        Instruction::DIV(s) => spec_arith_rel(mid, post, ArithOp::Div, s.a as int, s.b, s.c, ev),
        Instruction::IDIV(s) => spec_arith_rel(mid, post, ArithOp::IDiv, s.a as int, s.b, s.c, ev),
        Instruction::BAND(s) => ev is Normal && spec_bitwise_rel(mid, post, BitOp::And, s.a as int, s.b, s.c),
        Instruction::BOR(s) => ev is Normal && spec_bitwise_rel(mid, post, BitOp::Or, s.a as int, s.b, s.c),
        Instruction::BXOR(s) => ev is Normal && spec_bitwise_rel(mid, post, BitOp::Xor, s.a as int, s.b, s.c),
        Instruction::SHL(s) => ev is Normal && spec_bitwise_rel(mid, post, BitOp::Shl, s.a as int, s.b, s.c),
        Instruction::SHR(s) => ev is Normal && spec_bitwise_rel(mid, post, BitOp::Shr, s.a as int, s.b, s.c),
        Instruction::EQ(s) => spec_compare_rel(mid, post, CompareOp::Eq, s.lhs, s.rhs, s.inverted, ev),
        Instruction::LT(s) => spec_compare_rel(mid, post, CompareOp::Lt, s.lhs, s.rhs, s.inverted, ev),
        Instruction::LE(s) => spec_compare_rel(mid, post, CompareOp::Le, s.lhs, s.rhs, s.inverted, ev),
        Instruction::SELF(s) => ev is Normal && (match mid.spec_get_from(
            DataSource::Register(s.table),
        ) {
            Some(Value::Table(t)) => spec_self_effect(mid, post, s.a as int, t, s.key),
            _ => false,
        }),
        Instruction::CLOSURE(s) => ev is Normal && spec_closure_rel(mid, post, s),
        Instruction::CALL(s) => spec_call_rel(mid, post, s, ev),
        Instruction::TAILCALL(s) => ev is Normal && spec_tailcall_rel(mid, post, s),
        Instruction::RETURN(s) => ev is Normal && spec_return_rel(mid, post, s),
    }
}


/// The effect of `CLOSURE`: one fresh closure over the nested prototype is
/// appended, its in-stack captures resolved through the open list (so equal
/// registers share one cell) and its aliases taken from the enclosing frame;
/// the new handle lands in the destination; no existing cell or closure is
/// rewritten.
pub open spec fn spec_closure_rel(pre: Context, post: Context, i: crate::instructions::Closure) -> bool {
    let newid = pre.closures@.len() as int;
    let pid = pre.cur_proto().nested@[i.b as int];
    &&& post.closures@.len() == pre.closures@.len() + 1
    &&& forall|c: int| 0 <= c < pre.closures@.len() ==> #[trigger] post.closures@[c] == pre.closures@[c]
    &&& ({
        let closure = post.closures@[newid];
        let descs = pre.protos@[pid as int].upvalues@;
        &&& closure.proto == pid
        &&& closure.upvalues@.len() == descs.len()
        &&& forall|d: int|
            0 <= d < descs.len() ==> (#[trigger] closure.upvalues@[d] as int)
                < post.upvalue_cells@.len()
        // an in-stack capture is exactly the cell the open-list lookup finds
        // in the final state, so any other capture of the same register
        // yields the same cell
        &&& forall|d: int|
            0 <= d < descs.len() && (#[trigger] descs[d]).instack ==> spec_find_open(
                post.upvalue_cells@,
                post.open_upval as int,
                pre.stack.spec_base() + descs[d].index,
            ) == Some(closure.upvalues@[d] as int)
        &&& forall|d: int|
            0 <= d < descs.len() && (#[trigger] descs[d]).instack ==> (match post.upvalue_cells@[
                closure.upvalues@[d] as int
            ] {
                Upvalue::Open { position, .. } => position.spec_abs() == pre.stack.spec_base()
                    + descs[d].index,
                _ => false,
            })
        &&& forall|d: int|
            0 <= d < descs.len() && !(#[trigger] descs[d]).instack ==> closure.upvalues@[d]
                == pre.cur_frame().upvalues@[descs[d].index as int]
    })
    // existing cells are never rewritten by a capture
    &&& forall|c: int|
        0 <= c < pre.upvalue_cells@.len() ==> #[trigger] post.upvalue_cells@[c]
            == pre.upvalue_cells@[c]
    &&& post.call_info@ == pre.call_info@
    &&& post.tables@ == pre.tables@
    &&& post.protos@ == pre.protos@
    &&& post.mode == pre.mode
    &&& post.stack.frames@ == pre.stack.frames@
    &&& ({
        let abs = pre.stack.spec_base() + i.a;
        if abs < pre.stack.view_seq().len() {
            post.stack.view_seq() == pre.stack.view_seq().update(
                abs,
                Value::Function(Function::Lua(pre.closures@.len() as usize)),
            )
        } else {
            abs == pre.stack.view_seq().len() && post.stack.view_seq()
                == pre.stack.view_seq().push(
                Value::Function(Function::Lua(pre.closures@.len() as usize)),
            )
        }
    })
}

/// `b` is `a` with the binding `(k, v)` added to table `t`, and nothing else
/// changed.
pub open spec fn spec_tbl_push(a: Context, b: Context, t: int, k: Value, v: Value) -> bool {
    &&& 0 <= t < a.tables@.len()
    &&& spec_valid_key(k)
    &&& b.tables@.len() == a.tables@.len()
    &&& b.tables@[t].view_seq() == a.tables@[t].view_seq().push((k, v))
    &&& forall|u: int| 0 <= u < a.tables@.len() && u != t ==> #[trigger] b.tables@[u] == a.tables@[u]
    &&& b.call_info@ == a.call_info@
    &&& b.stack == a.stack
    &&& b.open_upval == a.open_upval
    &&& b.upvalue_cells@ == a.upvalue_cells@
    &&& b.closures@ == a.closures@
    &&& b.protos@ == a.protos@
    &&& b.mode == a.mode
}

/// `b` is `a` with one fresh empty table appended to the arena, and nothing
/// else changed.
pub open spec fn spec_tbl_alloc(a: Context, b: Context) -> bool {
    &&& b.tables@.len() == a.tables@.len() + 1
    &&& b.tables@[a.tables@.len() as int].view_seq() == Seq::<(Value, Value)>::empty()
    &&& forall|u: int| 0 <= u < a.tables@.len() ==> #[trigger] b.tables@[u] == a.tables@[u]
    &&& b.call_info@ == a.call_info@
    &&& b.stack == a.stack
    &&& b.open_upval == a.open_upval
    &&& b.upvalue_cells@ == a.upvalue_cells@
    &&& b.closures@ == a.closures@
    &&& b.protos@ == a.protos@
    &&& b.mode == a.mode
}

/// The value bound to `k` in table `t`, with a missing binding reading as
/// `nil`.
pub open spec fn spec_tbl_read(a: Context, t: int, k: Value) -> Value {
    match crate::table::spec_table_lookup(a.tables@[t].view_seq(), k) {
        Some(w) => w,
        None => Value::Nil,
    }
}


/// The effect of the method-call convention: the receiver table lands one
/// slot above `a`, then the method looked up by the key (read after that
/// write) lands in `a`.
pub open spec fn spec_self_effect(pre: Context, post: Context, a: int, t: int, key: DataSource) -> bool {
    exists|mid: Context|
        {
            &&& #[trigger] spec_reg_write(pre, mid, a + 1, Value::Table(t))
            &&& 0 <= t < mid.tables@.len()
            &&& mid.spec_get_from(key) matches Some(k)
            &&& spec_valid_key(k)
            &&& spec_reg_write(mid, post, a, spec_tbl_read(mid, t, k))
        }
}

/// `b` is `a` with value `v` written to live-window slot `i` of the stack —
/// updating the slot, or growing the stack by one when the write lands just
/// past its end — and nothing else changed.
pub open spec fn spec_reg_write(a: Context, b: Context, i: int, v: Value) -> bool {
    &&& b.call_info@ == a.call_info@
    &&& b.stack.frames@ == a.stack.frames@
    &&& {
        let abs = a.stack.spec_base() + i;
        if abs < a.stack.view_seq().len() {
            b.stack.view_seq() == a.stack.view_seq().update(abs, v)
        } else {
            abs == a.stack.view_seq().len() && b.stack.view_seq() == a.stack.view_seq().push(v)
        }
    }
    &&& b.open_upval == a.open_upval
    &&& b.upvalue_cells@ == a.upvalue_cells@
    &&& b.tables@ == a.tables@
    &&& b.closures@ == a.closures@
    &&& b.protos@ == a.protos@
    &&& b.mode == a.mode
}

impl Context {
    /// Number of live call frames.
    pub open spec fn depth(self) -> int {
        self.call_info@.len() as int
    }

    pub open spec fn has_frame(self) -> bool {
        self.depth() > 0
    }

    pub open spec fn cur_frame(self) -> CallInfo {
        self.call_info@.last()
    }

    pub open spec fn frame_pc(self) -> int {
        self.cur_frame().pc._pc as int
    }

    pub open spec fn cur_instructions(self) -> Seq<Instruction> {
        self.cur_frame().pc._instructions@
    }

    /// A current instruction exists under the counter.
    pub open spec fn fetchable(self) -> bool {
        self.has_frame() && self.frame_pc() < self.cur_instructions().len()
    }

    pub open spec fn cur_instr(self) -> Instruction {
        self.cur_instructions()[self.frame_pc()]
    }

    /// Structural soundness: the stack's windows are ordered, the open-
    /// upvalue list head is a cell, cell links strictly descend (so walks
    /// end), and every table's keys are comparable.
    pub open spec fn wf(self) -> bool {
        &&& self.stack.wf()
        &&& self.open_upval < self.upvalue_cells@.len()
        &&& chain_dec(self.upvalue_cells@)
        &&& forall|i: int|
            0 <= i < self.upvalue_cells@.len() ==> match #[trigger] self.upvalue_cells@[i] {
                Upvalue::Open { position, .. } => position.base + position.index <= usize::MAX,
                _ => true,
            }
        &&& forall|t: int|
            0 <= t < self.tables@.len() ==> spec_table_wf(
                #[trigger] self.tables@[t].view_seq(),
            )
    }


    /// The prototype the current frame runs.
    pub open spec fn cur_proto(self) -> Proto {
        self.protos@[self.cur_frame().func as int]
    }

    /// The current frame's prototype index is a live arena index.
    pub open spec fn proto_ok(self) -> bool {
        self.has_frame() && self.cur_frame().func < self.protos@.len()
    }

    /// `b` is `a` with the current frame's program counter moved to `newpc`,
    /// and nothing else changed.
    pub open spec fn spec_with_pc(a: Context, b: Context, newpc: int) -> bool {
        &&& a.has_frame()
        &&& b.call_info@.len() == a.call_info@.len()
        &&& forall|i: int|
            0 <= i < a.call_info@.len() - 1 ==> #[trigger] b.call_info@[i] == a.call_info@[i]
        &&& b.cur_frame().pc._pc == newpc
        &&& b.cur_frame().pc._instructions@ == a.cur_frame().pc._instructions@
        &&& b.cur_frame().func == a.cur_frame().func
        &&& b.cur_frame().upvalues@ == a.cur_frame().upvalues@
        &&& b.cur_frame()._subcall_returns == a.cur_frame()._subcall_returns
        &&& b.stack == a.stack
        &&& b.open_upval == a.open_upval
        &&& b.upvalue_cells@ == a.upvalue_cells@
        &&& b.tables@ == a.tables@
        &&& b.closures@ == a.closures@
        &&& b.protos@ == a.protos@
        &&& b.mode == a.mode
    }

    /// The current frame.
    pub fn ci(&self) -> (r: &CallInfo)
        requires
            self.has_frame(),
        ensures
            *r == self.cur_frame(),
    {
        &self.call_info[self.call_info.len() - 1]
    }

    /// Moves the current frame's program counter by `delta`; the counter may
    /// land anywhere in the instruction list or one past its end.
    pub fn pc_advance(&mut self, delta: isize) -> (r: Result<(), RuntimeError>)
        requires
            old(self).has_frame(),
        ensures
            match r {
                Ok(()) => {
                    let newpc = old(self).frame_pc() + delta;
                    old(self).frame_pc() <= old(self).cur_instructions().len() && 0 <= newpc
                        <= old(self).cur_instructions().len() && Context::spec_with_pc(
                        *old(self),
                        *final(self),
                        newpc,
                    )
                },
                Err(e) => e == RuntimeError::ProgramCounterOutOfRange && *final(self) == *old(self)
                    && !(old(self).frame_pc() <= old(self).cur_instructions().len() && 0 <= old(self).frame_pc() + delta <= old(self).cur_instructions().len()),
            },
    {
        let n = self.call_info.len() - 1;
        let pc = self.call_info[n].pc._pc;
        let ilen = self.call_info[n].pc._instructions.len();
        if pc > ilen {
            return Err(RuntimeError::ProgramCounterOutOfRange);
        }
        if delta >= 0 {
            let d = delta as usize;
            if d <= ilen - pc {
                self.call_info[n].pc._pc = pc + d;
                Ok(())
            } else {
                Err(RuntimeError::ProgramCounterOutOfRange)
            }
        } else {
            let newpc = pc.wrapping_add_signed(delta);
            if newpc <= pc {
                self.call_info[n].pc._pc = newpc;
                Ok(())
            } else {
                Err(RuntimeError::ProgramCounterOutOfRange)
            }
        }
    }

    /// Reads constant `index` of the current prototype.
    pub fn get_constant(&self, index: usize) -> (r: Result<Type, RuntimeError>)
        requires
            self.has_frame(),
        ensures
            match r {
                Ok(v) => self.proto_ok() && index < self.cur_proto().constants@.len() && v@
                    == self.cur_proto().constants@[index as int]@,
                Err(e) => (e == RuntimeError::PrototypeOutOfRange && !self.proto_ok()) || (e
                    == RuntimeError::ConstantOutOfRange && self.proto_ok() && index
                    >= self.cur_proto().constants@.len()),
            },
    {
        let f = self.ci().func;
        if f >= self.protos.len() {
            return Err(RuntimeError::PrototypeOutOfRange);
        }
        let p = &self.protos[f];
        if index >= p.constants.len() {
            return Err(RuntimeError::ConstantOutOfRange);
        }
        Ok(p.constants[index].clone())
    }

    /// What an operand denotes in the current state: a live-window register
    /// (a slot outside the stack has no value) or a constant-pool entry.
    pub open spec fn spec_get_from(self, s: DataSource) -> Option<Value> {
        match s {
            DataSource::Register(i) => if self.stack.spec_base() + i
                < self.stack.view_seq().len() {
                Some(self.stack.view_seq()[self.stack.spec_base() + i])
            } else {
                None
            },
            DataSource::Constant(i) => if self.proto_ok() && i < self.cur_proto().constants@.len() {
                Some(self.cur_proto().constants@[i as int]@)
            } else {
                None
            },
        }
    }

    /// Resolves an RK operand.
    pub fn get_from(&self, s: DataSource) -> (r: Result<Type, RuntimeError>)
        requires
            self.has_frame(),
            self.wf(),
        ensures
            match r {
                Ok(v) => self.spec_get_from(s) == Some(v@),
                Err(e) => self.spec_get_from(s) is None && (e == RuntimeError::RegisterOutOfRange
                    || e == RuntimeError::ConstantOutOfRange || e
                    == RuntimeError::PrototypeOutOfRange),
            },
    {
        match s {
            DataSource::Register(i) => match self.stack.get_rel(i) {
                Some(v) => Ok(v),
                None => Err(RuntimeError::RegisterOutOfRange),
            },
            DataSource::Constant(i) => self.get_constant(i),
        }
    }

    /// Allocates a fresh empty table and hands out its identity.
    pub fn alloc_table(&mut self) -> (r: LuaTable)
        requires
            old(self).wf(),
        ensures
            final(self).wf(),
            r.0 == old(self).tables@.len(),
            final(self).tables@.len() == old(self).tables@.len() + 1,
            final(self).tables@[r.0 as int].view_seq() == Seq::<(Value, Value)>::empty(),
            forall|t: int|
                0 <= t < old(self).tables@.len() ==> #[trigger] final(self).tables@[t] == old(self).tables@[t],
            final(self).call_info == old(self).call_info,
            final(self).stack == old(self).stack,
            final(self).upvalue_cells == old(self).upvalue_cells,
            final(self).open_upval == old(self).open_upval,
            final(self).closures == old(self).closures,
            final(self).protos == old(self).protos,
            final(self).mode == old(self).mode,
    {
        let id = self.tables.len();
        self.tables.push(TableData::new());
        LuaTable(id)
    }

    /// Reads `table[key]`; a missing binding reads as `nil`.
    pub fn table_get(&self, t: LuaTable, key: &Type) -> (r: Result<Type, RuntimeError>)
        requires
            self.wf(),
        ensures
            match r {
                Ok(v) => t.0 < self.tables@.len() && spec_valid_key(key@) && v@ == (
                match crate::table::spec_table_lookup(self.tables@[t.0 as int].view_seq(), key@) {
                    Some(w) => w,
                    None => Value::Nil,
                }),
                Err(e) => (e == RuntimeError::NotATable && t.0 >= self.tables@.len()) || (e
                    == RuntimeError::InvalidTableKey && !spec_valid_key(key@)),
            },
    {
        if t.0 >= self.tables.len() {
            return Err(RuntimeError::NotATable);
        }
        self.tables[t.0].get(key)
    }

    /// Writes `table[key] = value`.
    pub fn table_set(&mut self, t: LuaTable, key: Type, value: Type) -> (r: Result<
        (),
        RuntimeError,
    >)
        requires
            old(self).wf(),
        ensures
            final(self).wf(),
            final(self).call_info == old(self).call_info,
            final(self).stack == old(self).stack,
            final(self).upvalue_cells == old(self).upvalue_cells,
            final(self).open_upval == old(self).open_upval,
            final(self).closures == old(self).closures,
            final(self).protos == old(self).protos,
            final(self).mode == old(self).mode,
            final(self).tables@.len() == old(self).tables@.len(),
            match r {
                Ok(()) => t.0 < old(self).tables@.len() && spec_valid_key(key@) && final(self).tables@[t.0 as int].view_seq() == old(self).tables@[t.0 as int].view_seq().push(
                    (key@, value@),
                ) && forall|u: int|
                    0 <= u < old(self).tables@.len() && u != t.0 ==> #[trigger] final(self).tables@[u] == old(self).tables@[u],
                Err(e) => *final(self) == *old(self) && ((e == RuntimeError::NotATable && t.0
                    >= old(self).tables@.len()) || (e == RuntimeError::InvalidTableKey
                    && !spec_valid_key(key@))),
            },
    {
        if t.0 >= self.tables.len() {
            return Err(RuntimeError::NotATable);
        }
        if !key.is_valid_key() {
            return Err(RuntimeError::InvalidTableKey);
        }
        let ghost oldtables = self.tables@;
        let td = &mut self.tables[t.0];
        let res = td.set(key, value);
        proof {
            assert(res is Ok);
        }
        Ok(())
    }

    /// The value an upvalue cell denotes: an open cell reads through the
    /// stack (a popped slot reads as `nil`), a closed one owns its value.
    pub open spec fn spec_upvalue_value(self, cell: Upvalue) -> Value {
        match cell {
            Upvalue::Open { position, .. } => {
                if position.spec_abs() < self.stack.view_seq().len() {
                    self.stack.view_seq()[position.spec_abs()]
                } else {
                    Value::Nil
                }
            },
            Upvalue::Closed(v) => v@,
        }
    }

    /// Reads the value of cell `id`.
    pub fn upvalue_value(&self, id: usize) -> (r: Result<Type, RuntimeError>)
        ensures
            match r {
                Ok(v) => id < self.upvalue_cells@.len() && v@ == self.spec_upvalue_value(
                    self.upvalue_cells@[id as int],
                ),
                Err(e) => e == RuntimeError::UpvalueOutOfRange && id >= self.upvalue_cells@.len(),
            },
    {
        if id >= self.upvalue_cells.len() {
            return Err(RuntimeError::UpvalueOutOfRange);
        }
        match &self.upvalue_cells[id] {
            Upvalue::Open { position, .. } => {
                match self.stack.get(*position) {
                    Some(v) => Ok(v),
                    None => Ok(Type::Nil),
                }
            },
            Upvalue::Closed(v) => Ok(v.clone()),
        }
    }

    /// Finds the open cell at `level` on the open list, or threads a fresh
    /// one onto its head. A register already captured resolves to its
    /// existing cell, so two captures of one live register share one cell.
    #[verifier::loop_isolation(false)]
    pub fn find_upvalue(&mut self, level: StackLevel) -> (r: usize)
        requires
            old(self).wf(),
            level.base + level.index <= usize::MAX,
        ensures
            final(self).wf(),
            r < final(self).upvalue_cells@.len(),
            final(self).upvalue_cells@[r as int] matches Upvalue::Open { position, .. }
                && position.spec_abs() == level.spec_abs(),
            match spec_find_open(
                old(self).upvalue_cells@,
                old(self).open_upval as int,
                level.spec_abs(),
            ) {
                // a hit returns the existing cell and changes nothing
                Some(k) => r == k && final(self).upvalue_cells@ == old(self).upvalue_cells@
                    && final(self).open_upval == old(self).open_upval,
                // a miss threads one fresh open cell onto the head
                None => final(self).upvalue_cells@ == old(self).upvalue_cells@.push(
                    Upvalue::Open { position: level, next: Some(old(self).open_upval) },
                ) && final(self).open_upval == old(self).upvalue_cells@.len() && r == old(self).upvalue_cells@.len(),
            },
            final(self).call_info == old(self).call_info,
            final(self).stack == old(self).stack,
            final(self).tables == old(self).tables,
            final(self).closures == old(self).closures,
            final(self).protos == old(self).protos,
            final(self).mode == old(self).mode,
    {
        let ghost orig = *old(self);
        let ghost abs = level.spec_abs();
        let target = level.abs();
        let mut cur = self.open_upval;
        let mut walking = true;
        while walking
            invariant
                *self == orig,
                self.wf(),
                walking ==> cur < self.upvalue_cells@.len(),
                walking ==> spec_find_open(self.upvalue_cells@, self.open_upval as int, abs)
                    == spec_find_open(self.upvalue_cells@, cur as int, abs),
                !walking ==> spec_find_open(self.upvalue_cells@, self.open_upval as int, abs)
                    is None,
            decreases (if walking {
                cur + 1
            } else {
                0
            }),
        {
            match &self.upvalue_cells[cur] {
                Upvalue::Open { position, next } => {
                    if position.base <= usize::MAX - position.index && position.base
                        + position.index == target {
                        proof {
                            assert(spec_find_open(self.upvalue_cells@, cur as int, abs) == Some(
                                cur as int,
                            ));
                        }
                        return cur;
                    }
                    proof {
                        assert(self.upvalue_cells@[cur as int] matches Upvalue::Open {
                            position,
                            ..
                        } && position.spec_abs() != abs);
                    }
                    match next {
                        Some(j) => {
                            proof {
                                assert(spec_find_open(self.upvalue_cells@, cur as int, abs)
                                    == spec_find_open(self.upvalue_cells@, *j as int, abs));
                            }
                            cur = *j;
                        },
                        None => {
                            proof {
                                assert(spec_find_open(self.upvalue_cells@, cur as int, abs)
                                    is None);
                            }
                            walking = false;
                        },
                    }
                },
                Upvalue::Closed(_) => {
                    proof {
                        assert(spec_find_open(self.upvalue_cells@, cur as int, abs) is None);
                    }
                    walking = false;
                },
            }
        }
        let fresh = self.upvalue_cells.len();
        self.upvalue_cells.push(Upvalue::Open { position: level, next: Some(self.open_upval) });
        self.open_upval = fresh;
        proof {
            assert(forall|i: int|
                0 <= i < fresh ==> self.upvalue_cells@[i] == old(self).upvalue_cells@[i]);
        }
        fresh
    }

    /// Closes every open cell on the list prefix whose position is at or
    /// above `upto`: each such cell becomes the sole owner of the value its
    /// stack slot holds now, and is never reopened. The walk stops at the
    /// first cell below `upto` or at a closed cell, which becomes the list's
    /// new head; cells off that prefix are untouched.
    #[verifier::loop_isolation(false)]
    pub fn close_upvalues(&mut self, upto: StackLevel)
        requires
            old(self).wf(),
            upto.base + upto.index <= usize::MAX,
        ensures
            final(self).wf(),
            final(self).upvalue_cells@.len() == old(self).upvalue_cells@.len(),
            forall|i: int|
                0 <= i < old(self).upvalue_cells@.len() ==> if spec_close_chain(
                    old(self).upvalue_cells@,
                    old(self).open_upval as int,
                    upto.spec_abs(),
                ).contains(i) {
                    spec_closed_from(
                        *old(self),
                        old(self).upvalue_cells@[i],
                        #[trigger] final(self).upvalue_cells@[i],
                        upto,
                    )
                } else {
                    final(self).upvalue_cells@[i] == old(self).upvalue_cells@[i]
                },
            final(self).open_upval == spec_close_stop(
                old(self).upvalue_cells@,
                old(self).open_upval as int,
                upto.spec_abs(),
            ),
            final(self).call_info == old(self).call_info,
            final(self).stack == old(self).stack,
            final(self).tables == old(self).tables,
            final(self).closures == old(self).closures,
            final(self).protos == old(self).protos,
            final(self).mode == old(self).mode,
    {
        let ghost orig = *old(self);
        let ghost abs = upto.spec_abs();
        let ghost whole = spec_close_chain(orig.upvalue_cells@, orig.open_upval as int, abs);
        let target = upto.abs();
        let mut cur = self.open_upval;
        let mut walking = true;
        while walking
            invariant
                self.wf(),
                self.stack == orig.stack,
                self.call_info == orig.call_info,
                self.tables == orig.tables,
                self.closures == orig.closures,
                self.protos == orig.protos,
                self.mode == orig.mode,
                self.open_upval == cur,
                self.upvalue_cells@.len() == orig.upvalue_cells@.len(),
                cur < self.upvalue_cells@.len(),
                // the walk has not yet reached anything at or below the cursor
                walking ==> forall|j: int|
                    0 <= j <= cur ==> #[trigger] self.upvalue_cells@[j] == orig.upvalue_cells@[j],
                // the walk still to do is exactly the remaining close set
                walking ==> whole == spec_close_chain(
                    orig.upvalue_cells@,
                    cur as int,
                    abs,
                ) + closed_so_far(orig.upvalue_cells@, self.upvalue_cells@),
                !walking ==> whole == closed_so_far(orig.upvalue_cells@, self.upvalue_cells@),
                // the walk's end point is the new head
                spec_close_stop(orig.upvalue_cells@, orig.open_upval as int, abs)
                    == (if walking {
                    spec_close_stop(orig.upvalue_cells@, cur as int, abs)
                } else {
                    cur as int
                }),
                // every changed cell was closed properly and is in the set
                forall|i: int|
                    0 <= i < orig.upvalue_cells@.len() ==> if closed_so_far(
                        orig.upvalue_cells@,
                        self.upvalue_cells@,
                    ).contains(i) {
                        whole.contains(i) && spec_closed_from(
                            orig,
                            orig.upvalue_cells@[i],
                            #[trigger] self.upvalue_cells@[i],
                            upto,
                        )
                    } else {
                        self.upvalue_cells@[i] == orig.upvalue_cells@[i]
                    },
            decreases (if walking {
                cur + 1
            } else {
                0
            }),
        {
            let (is_open_high, next_opt, position) = match &self.upvalue_cells[cur] {
                Upvalue::Open { position, next } => {
                    if position.base <= usize::MAX - position.index && position.base
                        + position.index >= target {
                        (true, *next, *position)
                    } else {
                        (false, None, *position)
                    }
                },
                Upvalue::Closed(_) => (false, None, StackLevel { base: 0, index: 0 }),
            };
            if is_open_high {
                let ghost before = self.upvalue_cells@;
                let val = match self.stack.get(position) {
                    Some(v) => v,
                    None => Type::Nil,
                };
                self.upvalue_cells.set(cur, Upvalue::Closed(val));
                proof {
                    assert(orig.upvalue_cells@[cur as int] == before[cur as int]);
                    assert(closed_so_far(orig.upvalue_cells@, self.upvalue_cells@) =~= closed_so_far(
                        orig.upvalue_cells@,
                        before,
                    ).insert(cur as int));
                    assert(spec_close_chain(orig.upvalue_cells@, cur as int, abs) == match next_opt {
                        Some(j) => spec_close_chain(orig.upvalue_cells@, j as int, abs).insert(
                            cur as int,
                        ),
                        None => Set::<int>::empty().insert(cur as int),
                    });
                }
                match next_opt {
                    Some(j) => {
                        proof {
                            assert(whole =~= spec_close_chain(orig.upvalue_cells@, j as int, abs)
                                + closed_so_far(orig.upvalue_cells@, self.upvalue_cells@));
                        }
                        cur = j;
                        self.open_upval = j;
                    },
                    None => {
                        proof {
                            assert(whole =~= closed_so_far(
                                orig.upvalue_cells@,
                                self.upvalue_cells@,
                            ));
                        }
                        walking = false;
                    },
                }
            } else {
                proof {
                    assert(spec_close_chain(orig.upvalue_cells@, cur as int, abs)
                        =~= Set::<int>::empty());
                }
                walking = false;
            }
        }
    }

    /// `MOVE`: copies register `from` to register `to`.
    pub fn exec_move(&mut self, i: crate::instructions::Move) -> (r: Result<StepEvent, RuntimeError>)
        requires
            old(self).wf(),
            old(self).has_frame(),
        ensures
            final(self).wf(),
            r is Ok <==> spec_move_ok(*old(self), i),
            match r {
                Ok(ev) => ev is Normal && spec_move_rel(*old(self), *final(self), i),
                Err(e) => e == RuntimeError::RegisterOutOfRange && *final(self) == *old(self),
            },
    {
        let val = match self.stack.get_rel(i.from) {
            Some(v) => v,
            None => {
                return Err(RuntimeError::RegisterOutOfRange);
            },
        };
        self.stack.set(i.to, val)?;
        Ok(StepEvent::Normal)
    }

    /// `LOADK`: loads a constant into a register.
    pub fn exec_loadk(&mut self, i: crate::instructions::LoadK) -> (r: Result<StepEvent, RuntimeError>)
        requires
            old(self).wf(),
            old(self).has_frame(),
        ensures
            final(self).wf(),
            r is Ok <==> spec_loadk_ok(*old(self), i),
            match r {
                Ok(ev) => ev is Normal && spec_loadk_rel(*old(self), *final(self), i),
                Err(e) => *final(self) == *old(self) && match e {
                    RuntimeError::PrototypeOutOfRange => !old(self).proto_ok(),
                    RuntimeError::ConstantOutOfRange => old(self).proto_ok() && i.constant >= old(self).cur_proto().constants@.len(),
                    RuntimeError::RegisterOutOfRange => !spec_can_write(*old(self), i.local as int),
                    _ => false,
                },
            },
    {
        let c = self.get_constant(i.constant)?;
        self.stack.set(i.local, c)?;
        Ok(StepEvent::Normal)
    }

    /// `LOADBOOL`: loads a boolean; when the jump flag is set, skips the next
    /// instruction.
    pub fn exec_loadbool(&mut self, i: crate::instructions::LoadBool) -> (r: Result<
        StepEvent,
        RuntimeError,
    >)
        requires
            old(self).wf(),
            old(self).has_frame(),
        ensures
            final(self).wf(),
            r is Ok <==> spec_loadbool_ok(*old(self), i),
            match r {
                Ok(ev) => ev is Normal && spec_loadbool_rel(*old(self), *final(self), i),
                Err(e) => *final(self) == *old(self) && match e {
                    RuntimeError::ProgramCounterOutOfRange => i.jump && !spec_can_jump(
                        *old(self),
                        1,
                    ),
                    RuntimeError::RegisterOutOfRange => !spec_can_write(*old(self), i.reg as int),
                    _ => false,
                },
            },
    {
        if i.jump {
            let n = self.call_info.len() - 1;
            let pc = self.call_info[n].pc._pc;
            let ilen = self.call_info[n].pc._instructions.len();
            if pc >= ilen {
                return Err(RuntimeError::ProgramCounterOutOfRange);
            }
        }
        self.stack.set(i.reg, Type::Boolean(i.value))?;
        let ghost mid = *self;
        if i.jump {
            let adv = self.pc_advance(1);
            proof {
                assert(adv is Ok);
                assert(spec_reg_write(*old(self), mid, i.reg as int, Value::Boolean(i.value)));
            }
        }
        Ok(StepEvent::Normal)
    }

    /// `LOADNIL`: clears registers `start` through `start + range`.
    #[verifier::loop_isolation(false)]
    pub fn exec_loadnil(&mut self, i: crate::instructions::LoadNil) -> (r: Result<
        StepEvent,
        RuntimeError,
    >)
        requires
            old(self).wf(),
            old(self).has_frame(),
            i.start + i.range + 1 <= usize::MAX,
        ensures
            final(self).wf(),
            r is Ok <==> spec_loadnil_ok(*old(self), i),
            match r {
                Ok(ev) => ev is Normal && spec_loadnil_rel(*old(self), *final(self), i),
                Err(e) => e == RuntimeError::RegisterOutOfRange && *final(self) == *old(self),
            },
    {
        let ghost orig = *old(self);
        let mut k: usize = i.start;
        let stop = i.start + i.range;
        if self.stack.base() > self.stack.len() || i.start > self.stack.len() - self.stack.base() {
            return Err(RuntimeError::RegisterOutOfRange);
        }
        while k <= stop
            invariant
                self.wf(),
                i.start <= k <= stop + 1,
                stop == i.start + i.range,
                self.call_info@ == orig.call_info@,
                self.stack.frames@ == orig.stack.frames@,
                self.stack.spec_base() == orig.stack.spec_base(),
                self.open_upval == orig.open_upval,
                self.upvalue_cells@ == orig.upvalue_cells@,
                self.tables@ == orig.tables@,
                self.closures@ == orig.closures@,
                self.protos@ == orig.protos@,
                self.mode == orig.mode,
                k > i.start || self.stack.view_seq() == orig.stack.view_seq(),
                orig.stack.spec_base() + i.start <= orig.stack.view_seq().len(),
                self.stack.view_seq().len() == (if orig.stack.view_seq().len() >= orig.stack.spec_base() + k {
                    orig.stack.view_seq().len() as int
                } else {
                    orig.stack.spec_base() + k
                }),
                forall|j: int|
                    orig.stack.spec_base() + i.start <= j < orig.stack.spec_base() + k && j
                        < self.stack.view_seq().len() ==> #[trigger] self.stack.view_seq()[j]
                        == Value::Nil,
                forall|j: int|
                    0 <= j < orig.stack.view_seq().len() && !(orig.stack.spec_base() + i.start <= j
                        < orig.stack.spec_base() + k) ==> #[trigger] self.stack.view_seq()[j]
                        == orig.stack.view_seq()[j],
            decreases stop + 1 - k,
        {
            let res = self.stack.set(k, Type::Nil);
            proof {
                assert(res is Ok);
            }
            k = k + 1;
        }
        Ok(StepEvent::Normal)
    }

    /// `GETUPVAL`: reads the frame's resolved upvalue `upvalue` into `reg`.
    pub fn exec_getupval(&mut self, i: crate::instructions::GetUpval) -> (r: Result<
        StepEvent,
        RuntimeError,
    >)
        requires
            old(self).wf(),
            old(self).has_frame(),
        ensures
            final(self).wf(),
            r is Ok <==> spec_getupval_ok(*old(self), i),
            match r {
                Ok(ev) => ev is Normal && spec_getupval_rel(*old(self), *final(self), i),
                Err(e) => *final(self) == *old(self) && match e {
                    RuntimeError::UpvalueOutOfRange => i.upvalue >= old(self).cur_frame().upvalues@.len() || (old(self).cur_frame().upvalues@[
                        i.upvalue as int
                    ] as int) >= old(self).upvalue_cells@.len(),
                    RuntimeError::RegisterOutOfRange => !spec_can_write(*old(self), i.reg as int),
                    _ => false,
                },
            },
    {
        let f = self.ci();
        if i.upvalue >= f.upvalues.len() {
            return Err(RuntimeError::UpvalueOutOfRange);
        }
        let cell = f.upvalues[i.upvalue];
        let val = self.upvalue_value(cell)?;
        self.stack.set(i.reg, val)?;
        Ok(StepEvent::Normal)
    }

    /// One shared body for the arithmetic and float-valued operators: two
    /// integers are combined by the engine, anything else is surfaced to the
    /// host and the destination register remembered.
    pub fn exec_arith(&mut self, op: ArithOp, a: crate::instruction::Reg, bsrc: DataSource, csrc: DataSource) -> (r: Result<
        StepEvent,
        RuntimeError,
    >)
        requires
            old(self).wf(),
            old(self).has_frame(),
            old(self).mode == Mode::Ready,
        ensures
            final(self).wf(),
            r is Ok <==> spec_arith_ok(*old(self), op, a as int, bsrc, csrc),
            match r {
                Ok(ev) => spec_arith_rel(*old(self), *final(self), op, a as int, bsrc, csrc, ev),
                Err(e) => *final(self) == *old(self) && match (
                    old(self).spec_get_from(bsrc),
                    old(self).spec_get_from(csrc),
                ) {
                    (Some(Value::Number(x)), Some(Value::Number(y))) => match spec_arith_local(
                        op,
                        x,
                        y,
                    ) {
                        Some(res2) => match res2 {
                            // the operation succeeded but the destination
                            // write was out of the window
                            Ok(_) => e == RuntimeError::RegisterOutOfRange && !spec_can_write(
                                *old(self),
                                a as int,
                            ),
                            Err(e2) => e == e2,
                        },
                        None => false,
                    },
                    (Some(_), Some(_)) => e == RuntimeError::NotANumber,
                    _ => e == RuntimeError::RegisterOutOfRange || e
                        == RuntimeError::ConstantOutOfRange || e
                        == RuntimeError::PrototypeOutOfRange,
                },
            },
    {
        let bv = self.get_from(bsrc)?;
        let cv = self.get_from(csrc)?;
        let x = match bv {
            Type::Number(n) => n,
            _ => {
                return Err(RuntimeError::NotANumber);
            },
        };
        let y = match cv {
            Type::Number(n) => n,
            _ => {
                return Err(RuntimeError::NotANumber);
            },
        };
        match arith_local(op, x, y) {
            Some(res) => {
                let n = res?;
                match self.stack.set(a, Type::Number(n)) {
                    Ok(()) => Ok(StepEvent::Normal),
                    Err(e) => Err(e),
                }
            },
            None => {
                self.mode = Mode::NeedArith { dest: a };
                Ok(StepEvent::FloatArith { op, lhs: x, rhs: y })
            },
        }
    }

    /// `UNM`: integer negation (wrapping at the 64-bit boundary); any operand
    /// without an integer representation is refused.
    pub fn exec_unm(&mut self, i: crate::instructions::Unm) -> (r: Result<StepEvent, RuntimeError>)
        requires
            old(self).wf(),
            old(self).has_frame(),
        ensures
            final(self).wf(),
            r is Ok <==> spec_unm_ok(*old(self), i),
            match r {
                Ok(ev) => ev is Normal && spec_unm_rel(*old(self), *final(self), i),
                Err(e) => *final(self) == *old(self) && match e {
                    RuntimeError::RegisterOutOfRange => !spec_can_read(*old(self), i.b as int)
                        || !spec_can_write(*old(self), i.a as int),
                    RuntimeError::NoIntegerRepresentation => !(old(self).spec_get_from(
                        DataSource::Register(i.b),
                    ) matches Some(Value::Number(Number::Integer(_)))),
                    _ => false,
                },
            },
    {
        let v = match self.stack.get_rel(i.b) {
            Some(v) => v,
            None => {
                return Err(RuntimeError::RegisterOutOfRange);
            },
        };
        match v {
            Type::Number(Number::Integer(x)) => {
                self.stack.set(i.a, Type::Number(Number::Integer((0i64).wrapping_sub(x))))?;
                Ok(StepEvent::Normal)
            },
            _ => Err(RuntimeError::NoIntegerRepresentation),
        }
    }

    /// `BNOT`: bitwise complement of an integer.
    pub fn exec_bnot(&mut self, i: crate::instructions::BNot) -> (r: Result<StepEvent, RuntimeError>)
        requires
            old(self).wf(),
            old(self).has_frame(),
        ensures
            final(self).wf(),
            r is Ok <==> spec_bnot_ok(*old(self), i),
            match r {
                Ok(ev) => ev is Normal && spec_bnot_rel(*old(self), *final(self), i),
                Err(e) => *final(self) == *old(self) && match e {
                    RuntimeError::RegisterOutOfRange => !spec_can_read(*old(self), i.b as int)
                        || !spec_can_write(*old(self), i.a as int),
                    RuntimeError::NoIntegerRepresentation => !(old(self).spec_get_from(
                        DataSource::Register(i.b),
                    ) matches Some(Value::Number(Number::Integer(_)))),
                    _ => false,
                },
            },
    {
        let v = match self.stack.get_rel(i.b) {
            Some(v) => v,
            None => {
                return Err(RuntimeError::RegisterOutOfRange);
            },
        };
        match v {
            Type::Number(Number::Integer(x)) => {
                self.stack.set(i.a, Type::Number(Number::Integer(!x)))?;
                Ok(StepEvent::Normal)
            },
            _ => Err(RuntimeError::NoIntegerRepresentation),
        }
    }

    /// `NOT`: the truthiness flip; `nil` and `false` negate to `true`,
    /// everything else to `false`.
    pub fn exec_not(&mut self, i: crate::instructions::Not) -> (r: Result<StepEvent, RuntimeError>)
        requires
            old(self).wf(),
            old(self).has_frame(),
        ensures
            final(self).wf(),
            r is Ok <==> spec_not_ok(*old(self), i),
            match r {
                Ok(ev) => ev is Normal && spec_not_rel(*old(self), *final(self), i),
                Err(e) => e == RuntimeError::RegisterOutOfRange && *final(self) == *old(self),
            },
    {
        let v = match self.stack.get_rel(i.b) {
            Some(v) => v,
            None => {
                return Err(RuntimeError::RegisterOutOfRange);
            },
        };
        let t = v.truthy();
        self.stack.set(i.a, Type::Boolean(!t))?;
        Ok(StepEvent::Normal)
    }

    /// `LEN`: byte length of a string; no other operand has a length here
    /// (a table length is deliberately not defined).
    pub fn exec_len(&mut self, i: crate::instructions::Len) -> (r: Result<StepEvent, RuntimeError>)
        requires
            old(self).wf(),
            old(self).has_frame(),
        ensures
            final(self).wf(),
            r is Ok <==> spec_len_ok(*old(self), i),
            match r {
                Ok(ev) => ev is Normal && spec_len_rel(*old(self), *final(self), i),
                Err(e) => *final(self) == *old(self) && match e {
                    RuntimeError::RegisterOutOfRange => !spec_can_read(*old(self), i.b as int)
                        || !spec_can_write(*old(self), i.a as int),
                    RuntimeError::InvalidLenOperand => !(old(self).spec_get_from(
                        DataSource::Register(i.b),
                    ) matches Some(Value::Str(_))),
                    _ => false,
                },
            },
    {
        let v = match self.stack.get_rel(i.b) {
            Some(v) => v,
            None => {
                return Err(RuntimeError::RegisterOutOfRange);
            },
        };
        match v {
            Type::String(s) => {
                let n = s.len();
                proof {
                    assert(n as i64 == s@.len() as i64);
                }
                self.stack.set(i.a, Type::Number(Number::Integer(n as i64)))?;
                Ok(StepEvent::Normal)
            },
            _ => Err(RuntimeError::InvalidLenOperand),
        }
    }

    /// `CONCAT`: joins the strings in registers `b..=c` into register `a`.
    #[verifier::loop_isolation(false)]
    pub fn exec_concat(&mut self, i: crate::instructions::Concat) -> (r: Result<
        StepEvent,
        RuntimeError,
    >)
        requires
            old(self).wf(),
            old(self).has_frame(),
            i.c < usize::MAX,
        ensures
            final(self).wf(),
            r is Ok <==> spec_concat_ok(*old(self), i),
            match r {
                Ok(ev) => ev is Normal && spec_concat_rel(*old(self), *final(self), i),
                Err(e) => *final(self) == *old(self) && match e {
                    RuntimeError::RegisterOutOfRange => old(self).stack.spec_base() + i.c
                        >= old(self).stack.view_seq().len() || !spec_can_write(
                        *old(self),
                        i.a as int,
                    ),
                    RuntimeError::NotConcatenable => exists|j: int|
                        old(self).stack.spec_base() + i.b <= j <= old(self).stack.spec_base() + i.c
                            && j < old(self).stack.view_seq().len() && !((#[trigger] old(self).stack.view_seq()[j]) is Str),
                    _ => false,
                },
            },
    {
        let ghost base = self.stack.spec_base();
        let ghost hi = base + i.c;
        let mut out: Vec<u8> = Vec::new();
        let mut k: usize = i.b;
        proof {
            if spec_concat_range(self.stack.view_seq(), base + i.b, hi) is Some {
                let w = spec_concat_range(self.stack.view_seq(), base + i.b, hi).unwrap();
                assert(Seq::<u8>::empty() + w =~= w);
            }
        }
        while k <= i.c
            invariant
                self == old(self),
                i.b <= k,
                i.b <= i.c ==> k <= i.c + 1,
                forall|j: int|
                    base + i.b <= j < base + k ==> j < self.stack.view_seq().len()
                        && (#[trigger] self.stack.view_seq()[j]) is Str,
                spec_concat_range(self.stack.view_seq(), base + i.b, hi) matches Some(whole)
                    ==> spec_concat_range(self.stack.view_seq(), base + k, hi) matches Some(rest)
                    && whole == out@ + rest,
            decreases i.c + 1 - k,
        {
            let ghost view = self.stack.view_seq();
            let ghost out_before = out@;
            let v = match self.stack.get_rel(k) {
                Some(v) => v,
                None => {
                    proof {
                        assert(!(base + k < self.stack.view_seq().len()));
                    }
                    return Err(RuntimeError::RegisterOutOfRange);
                },
            };
            match v {
                Type::String(s) => {
                    proof {
                        assert(view[base + k] == Value::Str(s@));
                    }
                    let mut m: usize = 0;
                    let ghost mid = out@;
                    while m < s.len()
                        invariant
                            m <= s@.len(),
                            out@ == mid + s@.subrange(0, m as int),
                        decreases s@.len() - m,
                    {
                        out.push(s[m]);
                        proof {
                            assert(out@ =~= mid + s@.subrange(0, m as int + 1));
                        }
                        m = m + 1;
                    }
                    proof {
                        assert(s@.subrange(0, s@.len() as int) =~= s@);
                        assert(out@ == out_before + s@);
                        if spec_concat_range(view, base + i.b, hi) is Some {
                            let restk = spec_concat_range(view, base + k, hi);
                            let restk1 = spec_concat_range(view, base + k + 1, hi);
                            assert(restk is Some);
                            assert(restk1 is Some);
                            assert(restk.unwrap() == s@ + restk1.unwrap());
                            assert((out_before + s@) + restk1.unwrap() =~= out_before + (s@
                                + restk1.unwrap()));
                        }
                    }
                },
                _ => {
                    proof {
                        assert(base + k < self.stack.view_seq().len() && !(self.stack.view_seq()[
                            base + k
                        ] is Str));
                    }
                    return Err(RuntimeError::NotConcatenable);
                },
            }
            k = k + 1;
        }
        proof {
            lemma_concat_defined(self.stack.view_seq(), base + i.b, base + i.c);
            let whole = spec_concat_range(self.stack.view_seq(), base + i.b, hi);
            assert(whole is Some);
            assert(spec_concat_range(self.stack.view_seq(), base + k, hi) == Some(
                Seq::<u8>::empty(),
            ));
            assert(out@ + Seq::<u8>::empty() =~= out@);
            assert(whole.unwrap() == out@);
        }
        self.stack.set(i.a, Type::String(out))?;
        Ok(StepEvent::Normal)
    }

    /// `JMP`: moves the program counter by the signed offset, on top of the
    /// advance the fetch already made.
    pub fn exec_jmp(&mut self, i: crate::instructions::Jmp) -> (r: Result<StepEvent, RuntimeError>)
        requires
            old(self).wf(),
            old(self).has_frame(),
        ensures
            final(self).wf(),
            r is Ok <==> spec_jmp_ok(*old(self), i),
            match r {
                Ok(ev) => ev is Normal && spec_jmp_rel(*old(self), *final(self), i),
                Err(e) => e == RuntimeError::ProgramCounterOutOfRange && *final(self) == *old(self),
            },
    {
        self.pc_advance(i.jump)?;
        Ok(StepEvent::Normal)
    }

    /// One shared body for `EQ`/`LT`/`LE`: decides the comparison (or hands
    /// it to the host), then skips the next instruction when the outcome
    /// equals the instruction's inverted flag.
    pub fn exec_compare(&mut self, op: CompareOp, lhs: DataSource, rhs: DataSource, inverted: bool) -> (r: Result<
        StepEvent,
        RuntimeError,
    >)
        requires
            old(self).wf(),
            old(self).has_frame(),
            old(self).mode == Mode::Ready,
        ensures
            final(self).wf(),
            r is Ok <==> spec_compare_ok(*old(self), op, lhs, rhs, inverted),
            match r {
                Ok(ev) => spec_compare_rel(*old(self), *final(self), op, lhs, rhs, inverted, ev),
                Err(e) => *final(self) == *old(self) && match (
                    old(self).spec_get_from(lhs),
                    old(self).spec_get_from(rhs),
                ) {
                    (Some(a), Some(b)) => match spec_cmp_local(op, a, b) {
                        Some(res2) => match res2 {
                            Ok(res) => e == RuntimeError::ProgramCounterOutOfRange && res
                                == inverted && !spec_can_jump(*old(self), 1),
                            Err(e2) => e == e2,
                        },
                        None => false,
                    },
                    _ => e == RuntimeError::RegisterOutOfRange || e
                        == RuntimeError::ConstantOutOfRange || e
                        == RuntimeError::PrototypeOutOfRange,
                },
            },
    {
        let av = self.get_from(lhs)?;
        let bv = self.get_from(rhs)?;
        let local: Option<Result<bool, RuntimeError>> = match op {
            CompareOp::Eq => match av.try_value_eq(&bv) {
                Some(res) => Some(Ok(res)),
                None => None,
            },
            CompareOp::Lt => match (&av, &bv) {
                (Type::Number(Number::Integer(x)), Type::Number(Number::Integer(y))) => Some(
                    Ok(*x < *y),
                ),
                (Type::Number(_), Type::Number(_)) => None,
                _ => Some(Err(RuntimeError::NotComparable)),
            },
            CompareOp::Le => match (&av, &bv) {
                (Type::Number(Number::Integer(x)), Type::Number(Number::Integer(y))) => Some(
                    Ok(*x <= *y),
                ),
                (Type::Number(_), Type::Number(_)) => None,
                _ => Some(Err(RuntimeError::NotComparable)),
            },
        };
        match local {
            Some(res) => {
                let res = res?;
                if res == inverted {
                    self.pc_advance(1)?;
                }
                Ok(StepEvent::Normal)
            },
            None => {
                let x = match av {
                    Type::Number(n) => n,
                    _ => {
                        return Err(RuntimeError::NotComparable);
                    },
                };
                let y = match bv {
                    Type::Number(n) => n,
                    _ => {
                        return Err(RuntimeError::NotComparable);
                    },
                };
                self.mode = Mode::NeedCompare { inverted };
                Ok(StepEvent::FloatCompare { op, lhs: x, rhs: y })
            },
        }
    }

    /// `TEST`: skips the next instruction when the register's truthiness
    /// differs from the constant flag.
    pub fn exec_test(&mut self, i: crate::instructions::Test) -> (r: Result<StepEvent, RuntimeError>)
        requires
            old(self).wf(),
            old(self).has_frame(),
        ensures
            final(self).wf(),
            r is Ok <==> spec_test_ok(*old(self), i),
            match r {
                Ok(ev) => ev is Normal && spec_test_rel(*old(self), *final(self), i),
                Err(e) => *final(self) == *old(self) && (e == RuntimeError::RegisterOutOfRange || e
                    == RuntimeError::ProgramCounterOutOfRange),
            },
    {
        let v = match self.stack.get_rel(i.value) {
            Some(v) => v,
            None => {
                return Err(RuntimeError::RegisterOutOfRange);
            },
        };
        if v.truthy() != i.constant {
            self.pc_advance(1)?;
        }
        Ok(StepEvent::Normal)
    }

    /// `TESTSET`: when the source register's truthiness equals the constant
    /// flag, copies it into the destination; otherwise skips the next
    /// instruction.
    pub fn exec_testset(&mut self, i: crate::instructions::TestSet) -> (r: Result<
        StepEvent,
        RuntimeError,
    >)
        requires
            old(self).wf(),
            old(self).has_frame(),
        ensures
            final(self).wf(),
            r is Ok <==> spec_testset_ok(*old(self), i),
            match r {
                Ok(ev) => ev is Normal && spec_testset_rel(*old(self), *final(self), i),
                Err(e) => *final(self) == *old(self) && (e == RuntimeError::RegisterOutOfRange || e
                    == RuntimeError::ProgramCounterOutOfRange),
            },
    {
        let v = match self.stack.get_rel(i.value) {
            Some(v) => v,
            None => {
                return Err(RuntimeError::RegisterOutOfRange);
            },
        };
        if v.truthy() == i.constant {
            self.stack.set(i.reg, v)?;
        } else {
            self.pc_advance(1)?;
        }
        Ok(StepEvent::Normal)
    }

    /// Hands the engine the number the host computed for a pending arithmetic
    /// operation; it lands in the remembered destination register and the
    /// engine is ready to step again.
    pub fn resume_number(&mut self, n: Number) -> (r: Result<(), RuntimeError>)
        requires
            old(self).wf(),
        ensures
            final(self).wf(),
            r is Ok <==> (old(self).mode matches Mode::NeedArith { dest } && spec_can_write(
                *old(self),
                dest as int,
            )),
            match r {
                Ok(()) => ({
                    &&& old(self).mode matches Mode::NeedArith { dest }
                    &&& exists|mid: Context|
                        spec_with_mode(*old(self), mid, Mode::Ready) && #[trigger] spec_reg_write(
                            mid,
                            *final(self),
                            dest as int,
                            Value::Number(n),
                        )
                }),
                Err(e) => *final(self) == *old(self) && ((e == RuntimeError::NoHostResultPending
                    && !(old(self).mode matches Mode::NeedArith { .. })) || (e
                    == RuntimeError::RegisterOutOfRange && (match old(self).mode {
                    Mode::NeedArith { dest } => !spec_can_write(*old(self), dest as int),
                    _ => false,
                }))),
            },
    {
        let dest = match self.mode {
            Mode::NeedArith { dest } => dest,
            _ => {
                return Err(RuntimeError::NoHostResultPending);
            },
        };
        self.mode = Mode::Ready;
        let ghost mid = *self;
        match self.stack.set(dest, Type::Number(n)) {
            Ok(()) => {
                proof {
                    assert(spec_with_mode(*old(self), mid, Mode::Ready));
                    assert(spec_reg_write(mid, *self, dest as int, Value::Number(n)));
                }
                Ok(())
            },
            Err(e) => {
                self.mode = Mode::NeedArith { dest };
                Err(e)
            },
        }
    }

    /// Hands the engine the outcome the host computed for a pending
    /// comparison; the conditional skip runs exactly as it would have for an
    /// engine-decided comparison.
    pub fn resume_bool(&mut self, res: bool) -> (r: Result<(), RuntimeError>)
        requires
            old(self).wf(),
        ensures
            final(self).wf(),
            r is Ok <==> (old(self).mode matches Mode::NeedCompare { inverted } && old(self).has_frame() && (res == inverted ==> spec_can_jump(*old(self), 1))),
            match r {
                Ok(()) => ({
                    &&& old(self).mode matches Mode::NeedCompare { inverted }
                    &&& exists|mid: Context|
                        #[trigger] spec_with_mode(*old(self), mid, Mode::Ready) && if res
                            == inverted {
                            Context::spec_with_pc(mid, *final(self), old(self).frame_pc() + 1)
                        } else {
                            *final(self) == mid
                        }
                }),
                Err(e) => *final(self) == *old(self) && ((e == RuntimeError::NoHostResultPending
                    && !(old(self).mode matches Mode::NeedCompare { .. })) || (e
                    == RuntimeError::ProgramCounterOutOfRange && (!old(self).has_frame() || (
                    match old(self).mode {
                        Mode::NeedCompare { inverted } => res == inverted && !spec_can_jump(
                            *old(self),
                            1,
                        ),
                        _ => false,
                    })))),
            },
    {
        let inverted = match self.mode {
            Mode::NeedCompare { inverted } => inverted,
            _ => {
                return Err(RuntimeError::NoHostResultPending);
            },
        };
        if self.call_info.len() == 0 {
            return Err(RuntimeError::ProgramCounterOutOfRange);
        }
        if res == inverted {
            let n = self.call_info.len() - 1;
            let pc = self.call_info[n].pc._pc;
            let ilen = self.call_info[n].pc._instructions.len();
            if pc >= ilen {
                return Err(RuntimeError::ProgramCounterOutOfRange);
            }
        }
        self.mode = Mode::Ready;
        let ghost mid = *self;
        if res == inverted {
            let adv = self.pc_advance(1);
            proof {
                assert(adv is Ok);
                assert(spec_with_mode(*old(self), mid, Mode::Ready));
            }
        } else {
            proof {
                assert(spec_with_mode(*old(self), mid, Mode::Ready));
            }
        }
        Ok(())
    }

    /// One shared body for the bitwise instructions: both operands must be
    /// integers, shifts must stay inside the 64-bit width.
    pub fn exec_bitwise(&mut self, op: BitOp, a: crate::instruction::Reg, bsrc: DataSource, csrc: DataSource) -> (r: Result<
        StepEvent,
        RuntimeError,
    >)
        requires
            old(self).wf(),
            old(self).has_frame(),
        ensures
            final(self).wf(),
            r is Ok <==> spec_bitwise_ok(*old(self), op, a as int, bsrc, csrc),
            match r {
                Ok(ev) => ev is Normal && spec_bitwise_rel(*old(self), *final(self), op, a as int, bsrc, csrc),
                Err(e) => *final(self) == *old(self) && match (
                    old(self).spec_get_from(bsrc),
                    old(self).spec_get_from(csrc),
                ) {
                    (
                        Some(Value::Number(Number::Integer(x))),
                        Some(Value::Number(Number::Integer(y))),
                    ) => spec_bitwise(op, x, y) == Err::<i64, RuntimeError>(e) || (e
                        == RuntimeError::RegisterOutOfRange && !spec_can_write(
                        *old(self),
                        a as int,
                    )),
                    (Some(_), Some(_)) => e == RuntimeError::NoIntegerRepresentation,
                    _ => e == RuntimeError::RegisterOutOfRange || e
                        == RuntimeError::ConstantOutOfRange || e
                        == RuntimeError::PrototypeOutOfRange,
                },
            },
    {
        let bv = self.get_from(bsrc)?;
        let cv = self.get_from(csrc)?;
        let x = match bv {
            Type::Number(Number::Integer(x)) => x,
            _ => {
                return Err(RuntimeError::NoIntegerRepresentation);
            },
        };
        let y = match cv {
            Type::Number(Number::Integer(y)) => y,
            _ => {
                return Err(RuntimeError::NoIntegerRepresentation);
            },
        };
        let z = match op {
            BitOp::And => x & y,
            BitOp::Or => x | y,
            BitOp::Xor => x ^ y,
            BitOp::Shl => {
                if 0 <= y && y < 64 {
                    x << y
                } else {
                    return Err(RuntimeError::ShiftOutOfRange);
                }
            },
            BitOp::Shr => {
                if 0 <= y && y < 64 {
                    x >> y
                } else {
                    return Err(RuntimeError::ShiftOutOfRange);
                }
            },
        };
        self.stack.set(a, Type::Number(Number::Integer(z)))?;
        Ok(StepEvent::Normal)
    }

    /// `NEWTABLE`: allocates a fresh empty table into register `a`.
    pub fn exec_newtable(&mut self, i: crate::instructions::NewTable) -> (r: Result<
        StepEvent,
        RuntimeError,
    >)
        requires
            old(self).wf(),
            old(self).has_frame(),
        ensures
            final(self).wf(),
            r is Ok <==> spec_newtable_ok(*old(self), i),
            match r {
                Ok(ev) => ev is Normal && spec_newtable_rel(*old(self), *final(self), i),
                Err(e) => e == RuntimeError::RegisterOutOfRange && *final(self) == *old(self),
            },
    {
        let b = self.stack.base();
        if b > self.stack.len() || i.a > self.stack.len() - b {
            return Err(RuntimeError::RegisterOutOfRange);
        }
        let t = self.alloc_table();
        let ghost mid = *self;
        let res = self.stack.set(i.a, Type::Table(t));
        proof {
            assert(res is Ok);
            assert(spec_tbl_alloc(*old(self), mid));
        }
        Ok(StepEvent::Normal)
    }

    /// `GETTABLE`: reads `R(B)[RK(C)]` into register `a`.
    pub fn exec_gettable(&mut self, i: crate::instructions::GetTable) -> (r: Result<
        StepEvent,
        RuntimeError,
    >)
        requires
            old(self).wf(),
            old(self).has_frame(),
        ensures
            final(self).wf(),
            r is Ok <==> spec_gettable_ok(*old(self), i),
            match r {
                Ok(ev) => ev is Normal && spec_gettable_rel(*old(self), *final(self), i),
                Err(e) => *final(self) == *old(self) && (e == RuntimeError::RegisterOutOfRange || e
                    == RuntimeError::ConstantOutOfRange || e == RuntimeError::PrototypeOutOfRange
                    || e == RuntimeError::NotATable || e == RuntimeError::InvalidTableKey),
            },
    {
        let key = self.get_from(i.c)?;
        let tv = match self.stack.get_rel(i.b) {
            Some(v) => v,
            None => {
                return Err(RuntimeError::RegisterOutOfRange);
            },
        };
        let t = match tv {
            Type::Table(t) => t,
            _ => {
                return Err(RuntimeError::NotATable);
            },
        };
        let v = self.table_get(t, &key)?;
        self.stack.set(i.a, v)?;
        Ok(StepEvent::Normal)
    }

    /// `SETTABLE`: writes `R(A)[RK(B)] = RK(C)`.
    pub fn exec_settable(&mut self, i: crate::instructions::SetTable) -> (r: Result<
        StepEvent,
        RuntimeError,
    >)
        requires
            old(self).wf(),
            old(self).has_frame(),
        ensures
            final(self).wf(),
            r is Ok <==> spec_settable_ok(*old(self), i),
            match r {
                Ok(ev) => ev is Normal && spec_settable_rel(*old(self), *final(self), i),
                Err(e) => *final(self) == *old(self) && (e == RuntimeError::RegisterOutOfRange || e
                    == RuntimeError::ConstantOutOfRange || e == RuntimeError::PrototypeOutOfRange
                    || e == RuntimeError::NotATable || e == RuntimeError::InvalidTableKey),
            },
    {
        let key = self.get_from(i.b)?;
        let value = self.get_from(i.c)?;
        let tv = match self.stack.get_rel(i.a) {
            Some(v) => v,
            None => {
                return Err(RuntimeError::RegisterOutOfRange);
            },
        };
        let t = match tv {
            Type::Table(t) => t,
            _ => {
                return Err(RuntimeError::NotATable);
            },
        };
        self.table_set(t, key, value)?;
        Ok(StepEvent::Normal)
    }

    /// `SELF`: stores the receiver into `a + 1` and the method looked up by
    /// the key into `a` — the method-call convention. The key is read after
    /// the receiver write, as the calling convention lays the registers out.
    pub fn exec_self(&mut self, i: crate::instructions::SelfOp) -> (r: Result<
        StepEvent,
        RuntimeError,
    >)
        requires
            old(self).wf(),
            old(self).has_frame(),
            i.a < usize::MAX,
        ensures
            final(self).wf(),
            r is Ok <==> spec_self_ok(*old(self), i),
            match r {
                Ok(ev) => ({
                    &&& ev is Normal
                    &&& old(self).spec_get_from(DataSource::Register(i.table)) matches Some(
                        Value::Table(t),
                    )
                    &&& spec_self_effect(*old(self), *final(self), i.a as int, t, i.key)
                }),
                Err(e) => (*final(self) == *old(self) || (match old(self).spec_get_from(
                    DataSource::Register(i.table),
                ) {
                    Some(Value::Table(t)) => spec_reg_write(
                        *old(self),
                        *final(self),
                        i.a + 1,
                        Value::Table(t),
                    ),
                    _ => false,
                })) && (e == RuntimeError::RegisterOutOfRange || e
                    == RuntimeError::ConstantOutOfRange || e == RuntimeError::PrototypeOutOfRange
                    || e == RuntimeError::NotATable || e == RuntimeError::InvalidTableKey),
            },
    {
        let tv = match self.stack.get_rel(i.table) {
            Some(v) => v,
            None => {
                return Err(RuntimeError::RegisterOutOfRange);
            },
        };
        let t = match tv {
            Type::Table(t) => t,
            _ => {
                return Err(RuntimeError::NotATable);
            },
        };
        if t.0 >= self.tables.len() {
            return Err(RuntimeError::NotATable);
        }
        self.stack.set(i.a + 1, Type::Table(t))?;
        let ghost mid = *self;
        let key = match self.get_from(i.key) {
            Ok(k) => k,
            Err(e) => {
                proof {
                    assert(mid.spec_get_from(i.key) == spec_self_key(*old(self), i));
                }
                return Err(e);
            },
        };
        proof {
            assert(mid.spec_get_from(i.key) == spec_self_key(*old(self), i));
        }
        let v = self.table_get(t, &key)?;
        let ghost k = key@;
        let res = self.stack.set(i.a, v);
        proof {
            assert(res is Ok);
            assert(spec_reg_write(*old(self), mid, i.a + 1, Value::Table(t.0 as int)));
            assert(0 <= t.0 < mid.tables@.len());
            assert(mid.spec_get_from(i.key) == Some(k));
            assert(spec_valid_key(k));
            assert(v@ == spec_tbl_read(mid, t.0 as int, k));
            assert(spec_reg_write(mid, *self, i.a as int, spec_tbl_read(mid, t.0 as int, k)));
            assert(spec_self_effect(*old(self), *self, i.a as int, t.0 as int, i.key));
        }
        Ok(StepEvent::Normal)
    }

    /// `GETTABUP`: reads `UpValue[B][RK(C)]` into register `reg`; the upvalue
    /// must hold a table.
    pub fn exec_gettabup(&mut self, i: crate::instructions::GetTabUp) -> (r: Result<
        StepEvent,
        RuntimeError,
    >)
        requires
            old(self).wf(),
            old(self).has_frame(),
        ensures
            final(self).wf(),
            r is Ok <==> spec_gettabup_ok(*old(self), i),
            match r {
                Ok(ev) => ev is Normal && spec_gettabup_rel(*old(self), *final(self), i),
                Err(e) => *final(self) == *old(self) && (e == RuntimeError::RegisterOutOfRange || e
                    == RuntimeError::ConstantOutOfRange || e == RuntimeError::PrototypeOutOfRange
                    || e == RuntimeError::UpvalueOutOfRange || e == RuntimeError::NotATable || e
                    == RuntimeError::InvalidTableKey),
            },
    {
        let key = self.get_from(i.constant)?;
        let f = self.ci();
        if i.upvalue >= f.upvalues.len() {
            return Err(RuntimeError::UpvalueOutOfRange);
        }
        let cell = f.upvalues[i.upvalue];
        let uv = self.upvalue_value(cell)?;
        let t = match uv {
            Type::Table(t) => t,
            _ => {
                return Err(RuntimeError::NotATable);
            },
        };
        let v = self.table_get(t, &key)?;
        self.stack.set(i.reg, v)?;
        Ok(StepEvent::Normal)
    }

    /// `SETTABUP`: writes `UpValue[A][RK(B)] = RK(C)`; the upvalue must hold
    /// a table.
    pub fn exec_settabup(&mut self, i: crate::instructions::SetTabUp) -> (r: Result<
        StepEvent,
        RuntimeError,
    >)
        requires
            old(self).wf(),
            old(self).has_frame(),
        ensures
            final(self).wf(),
            r is Ok <==> spec_settabup_ok(*old(self), i),
            match r {
                Ok(ev) => ev is Normal && spec_settabup_rel(*old(self), *final(self), i),
                Err(e) => *final(self) == *old(self) && (e == RuntimeError::RegisterOutOfRange || e
                    == RuntimeError::ConstantOutOfRange || e == RuntimeError::PrototypeOutOfRange
                    || e == RuntimeError::UpvalueOutOfRange || e == RuntimeError::NotATable || e
                    == RuntimeError::InvalidTableKey),
            },
    {
        let f = self.ci();
        if i.upval >= f.upvalues.len() {
            return Err(RuntimeError::UpvalueOutOfRange);
        }
        let cell = f.upvalues[i.upval];
        let key = self.get_from(i.key)?;
        let value = self.get_from(i.value)?;
        let uv = self.upvalue_value(cell)?;
        let t = match uv {
            Type::Table(t) => t,
            _ => {
                return Err(RuntimeError::NotATable);
            },
        };
        self.table_set(t, key, value)?;
        Ok(StepEvent::Normal)
    }

    /// Copies the instruction list of prototype `pid`.
    fn copy_instructions(&self, pid: usize) -> (r: Vec<Instruction>)
        requires
            pid < self.protos@.len(),
        ensures
            r@ == self.protos@[pid as int].instructions@,
    {
        let mut v: Vec<Instruction> = Vec::new();
        let p = &self.protos[pid];
        let mut j: usize = 0;
        while j < p.instructions.len()
            invariant
                j <= p.instructions@.len(),
                v@ =~= p.instructions@.subrange(0, j as int),
            decreases p.instructions@.len() - j,
        {
            v.push(p.instructions[j]);
            j = j + 1;
        }
        proof {
            assert(v@ =~= p.instructions@);
        }
        v
    }

    /// Copies the resolved upvalue list of closure `cid`.
    fn copy_closure_upvalues(&self, cid: usize) -> (r: Vec<usize>)
        requires
            cid < self.closures@.len(),
        ensures
            r@ == self.closures@[cid as int].upvalues@,
    {
        let mut v: Vec<usize> = Vec::new();
        let c = &self.closures[cid];
        let mut j: usize = 0;
        while j < c.upvalues.len()
            invariant
                j <= c.upvalues@.len(),
                v@ =~= c.upvalues@.subrange(0, j as int),
            decreases c.upvalues@.len() - j,
        {
            v.push(c.upvalues[j]);
            j = j + 1;
        }
        proof {
            assert(v@ =~= c.upvalues@);
        }
        v
    }

    /// Collects `count` values from live-window slots `start..start + count`.
    #[verifier::loop_isolation(false)]
    pub fn collect_range(&self, start: usize, count: usize) -> (r: Result<Vec<Type>, RuntimeError>)
        requires
            self.wf(),
            start + count <= usize::MAX,
        ensures
            r is Ok <==> (count == 0 || self.stack.spec_base() + start + count
                <= self.stack.view_seq().len()),
            match r {
                Ok(v) => v@.len() == count && forall|m: int|
                    0 <= m < count ==> (#[trigger] v@[m])@ == self.stack.view_seq()[
                        self.stack.spec_base() + start + m
                    ],
                Err(e) => e == RuntimeError::RegisterOutOfRange,
            },
    {
        let mut v: Vec<Type> = Vec::new();
        let mut m: usize = 0;
        while m < count
            invariant
                self.wf(),
                m <= count,
                start + count <= usize::MAX,
                v@.len() == m,
                m > 0 ==> self.stack.spec_base() + start + m <= self.stack.view_seq().len(),
                forall|q: int|
                    0 <= q < m ==> (#[trigger] v@[q])@ == self.stack.view_seq()[
                        self.stack.spec_base() + start + q
                    ],
            decreases count - m,
        {
            match self.stack.get_rel(start + m) {
                Some(val) => {
                    v.push(val);
                },
                None => {
                    return Err(RuntimeError::RegisterOutOfRange);
                },
            }
            m = m + 1;
        }
        Ok(v)
    }

    /// Resolves an operand count starting at `start`: a known count is taken
    /// as is, an unknown one means everything up to the current stack top.
    pub fn resolve_count(&self, start: usize, c: Count) -> (r: Result<usize, RuntimeError>)
        requires
            self.wf(),
        ensures
            r is Ok <==> spec_resolved_count(*self, start as int, c) is Some,
            match r {
                Ok(n) => spec_resolved_count(*self, start as int, c) == Some(n as int),
                Err(e) => e == RuntimeError::RegisterOutOfRange && c is Unknown,
            },
    {
        match c {
            Count::Known(k) => Ok(k),
            Count::Unknown => {
                let t = match self.stack.top() {
                    Some(t) => t,
                    None => {
                        return Err(RuntimeError::RegisterOutOfRange);
                    },
                };
                if t > start {
                    Ok(t - start)
                } else {
                    Ok(0)
                }
            },
        }
    }

    /// Scatters up to `slots` returned values into live-window slots starting
    /// at `start`; extra values are dropped, missing slots stay as they are.
    #[verifier::loop_isolation(false)]
    fn scatter(&mut self, start: usize, slots: usize, rets: &Vec<Type>) -> (r: Result<
        (),
        RuntimeError,
    >)
        requires
            old(self).wf(),
            start + slots <= usize::MAX,
        ensures
            final(self).wf(),
            final(self).call_info@ == old(self).call_info@,
            final(self).stack.frames@ == old(self).stack.frames@,
            final(self).stack.spec_base() == old(self).stack.spec_base(),
            final(self).open_upval == old(self).open_upval,
            final(self).upvalue_cells@ == old(self).upvalue_cells@,
            final(self).tables@ == old(self).tables@,
            final(self).closures@ == old(self).closures@,
            final(self).protos@ == old(self).protos@,
            final(self).mode == old(self).mode,
            r is Ok <==> ((if slots <= rets@.len() {
                slots
            } else {
                rets.len()
            }) == 0 || old(self).stack.spec_base() + start <= old(self).stack.view_seq().len()),
            match r {
                Ok(()) => spec_scatter_view(
                    old(self).stack.view_seq(),
                    old(self).stack.spec_base(),
                    start as int,
                    slots as int,
                    crate::stack::views(rets@),
                    final(self).stack.view_seq(),
                ),
                Err(e) => e == RuntimeError::RegisterOutOfRange && *final(self) == *old(self),
            },
    {
        let ghost orig = *old(self);
        let n = if slots <= rets.len() {
            slots
        } else {
            rets.len()
        };
        let b = self.stack.base();
        if n > 0 && (b > self.stack.len() || start > self.stack.len() - b) {
            return Err(RuntimeError::RegisterOutOfRange);
        }
        let mut m: usize = 0;
        while m < n
            invariant
                self.wf(),
                m <= n,
                n <= slots,
                n <= rets@.len(),
                self.call_info@ == orig.call_info@,
                self.stack.frames@ == orig.stack.frames@,
                self.stack.spec_base() == orig.stack.spec_base(),
                self.open_upval == orig.open_upval,
                self.upvalue_cells@ == orig.upvalue_cells@,
                self.tables@ == orig.tables@,
                self.closures@ == orig.closures@,
                self.protos@ == orig.protos@,
                self.mode == orig.mode,
                self.stack.view_seq().len() >= orig.stack.view_seq().len(),
                n > 0 ==> self.stack.view_seq().len() >= orig.stack.spec_base() + start + m,
                n > 0 ==> orig.stack.spec_base() + start <= orig.stack.view_seq().len(),
                forall|j: int|
                    orig.stack.spec_base() + start <= j < orig.stack.spec_base() + start + m && j
                        < self.stack.view_seq().len() ==> #[trigger] self.stack.view_seq()[j]
                        == rets@[j - (orig.stack.spec_base() + start)]@,
                forall|j: int|
                    0 <= j < orig.stack.view_seq().len() && !(orig.stack.spec_base() + start <= j
                        < orig.stack.spec_base() + start + m) ==> #[trigger] self.stack.view_seq()[j]
                        == orig.stack.view_seq()[j],
            decreases n - m,
        {
            let val = rets[m].clone();
            let res = self.stack.set(start + m, val);
            proof {
                assert(res is Ok);
            }
            m = m + 1;
        }
        Ok(())
    }

    /// `FORPREP`: subtracts the step from the loop variable once (the first
    /// `FORLOOP` add restores it) and jumps to the loop head. Only integer
    /// loop registers are supported.
    pub fn exec_forprep(&mut self, i: crate::instructions::ForPrep) -> (r: Result<
        StepEvent,
        RuntimeError,
    >)
        requires
            old(self).wf(),
            old(self).has_frame(),
            i.a + 2 <= usize::MAX,
        ensures
            final(self).wf(),
            r is Ok <==> spec_forprep_ok(*old(self), i),
            match r {
                Ok(ev) => ev is Normal && spec_forprep_rel(*old(self), *final(self), i),
                Err(e) => *final(self) == *old(self) && (e == RuntimeError::RegisterOutOfRange || e
                    == RuntimeError::InvalidForLoop || e
                    == RuntimeError::ProgramCounterOutOfRange),
            },
    {
        let init = match self.stack.get_rel(i.a) {
            Some(Type::Number(Number::Integer(v))) => v,
            Some(_) => {
                return Err(RuntimeError::InvalidForLoop);
            },
            None => {
                return Err(RuntimeError::RegisterOutOfRange);
            },
        };
        let step = match self.stack.get_rel(i.a + 2) {
            Some(Type::Number(Number::Integer(v))) => v,
            Some(_) => {
                return Err(RuntimeError::InvalidForLoop);
            },
            None => {
                return Err(RuntimeError::RegisterOutOfRange);
            },
        };
        let n = self.call_info.len() - 1;
        let pc = self.call_info[n].pc._pc;
        let ilen = self.call_info[n].pc._instructions.len();
        if pc > ilen {
            return Err(RuntimeError::ProgramCounterOutOfRange);
        }
        let target = pc.wrapping_add_signed(i.jump);
        if (i.jump >= 0 && !(target >= pc && target <= ilen)) || (i.jump < 0 && target > pc) {
            return Err(RuntimeError::ProgramCounterOutOfRange);
        }
        self.stack.set(i.a, Type::Number(Number::Integer(init.wrapping_sub(step))))?;
        let ghost mid = *self;
        let adv = self.pc_advance(i.jump);
        proof {
            assert(adv is Ok);
            assert(spec_reg_write(
                *old(self),
                mid,
                i.a as int,
                Value::Number(Number::Integer(init.wrapping_sub(step))),
            ));
        }
        Ok(StepEvent::Normal)
    }

    /// `FORLOOP`: re-adds the step to the loop variable; while the limit is
    /// not passed (direction-sensitively), publishes the loop variable's
    /// visible copy and jumps back. Only integer loop registers are
    /// supported.
    pub fn exec_forloop(&mut self, i: crate::instructions::ForLoop) -> (r: Result<
        StepEvent,
        RuntimeError,
    >)
        requires
            old(self).wf(),
            old(self).has_frame(),
            i.a + 3 <= usize::MAX,
        ensures
            final(self).wf(),
            r is Ok <==> spec_forloop_ok(*old(self), i),
            match r {
                Ok(ev) => ev is Normal && spec_forloop_rel(*old(self), *final(self), i),
                Err(e) => *final(self) == *old(self) && (e == RuntimeError::RegisterOutOfRange || e
                    == RuntimeError::InvalidForLoop || e
                    == RuntimeError::ProgramCounterOutOfRange),
            },
    {
        let cur = match self.stack.get_rel(i.a) {
            Some(Type::Number(Number::Integer(v))) => v,
            Some(_) => {
                return Err(RuntimeError::InvalidForLoop);
            },
            None => {
                return Err(RuntimeError::RegisterOutOfRange);
            },
        };
        let limit = match self.stack.get_rel(i.a + 1) {
            Some(Type::Number(Number::Integer(v))) => v,
            Some(_) => {
                return Err(RuntimeError::InvalidForLoop);
            },
            None => {
                return Err(RuntimeError::RegisterOutOfRange);
            },
        };
        let step = match self.stack.get_rel(i.a + 2) {
            Some(Type::Number(Number::Integer(v))) => v,
            Some(_) => {
                return Err(RuntimeError::InvalidForLoop);
            },
            None => {
                return Err(RuntimeError::RegisterOutOfRange);
            },
        };
        let next = cur.wrapping_add(step);
        let continuing = (step > 0 && next <= limit) || (step < 0 && next >= limit);
        if continuing {
            // the visible copy and the back-jump must both land
            let b = self.stack.base();
            if b > self.stack.len() || i.a + 3 > self.stack.len() - b {
                return Err(RuntimeError::RegisterOutOfRange);
            }
            let n = self.call_info.len() - 1;
            let pc = self.call_info[n].pc._pc;
            let ilen = self.call_info[n].pc._instructions.len();
            if pc > ilen {
                return Err(RuntimeError::ProgramCounterOutOfRange);
            }
            let target = pc.wrapping_add_signed(i.jump);
            if (i.jump >= 0 && !(target >= pc && target <= ilen)) || (i.jump < 0 && target > pc) {
                return Err(RuntimeError::ProgramCounterOutOfRange);
            }
        }
        self.stack.set(i.a, Type::Number(Number::Integer(next)))?;
        let ghost m1 = *self;
        if continuing {
            let res = self.stack.set(i.a + 3, Type::Number(Number::Integer(next)));
            let ghost m2 = *self;
            let adv = self.pc_advance(i.jump);
            proof {
                assert(res is Ok);
                assert(adv is Ok);
                assert(spec_reg_write(
                    *old(self),
                    m1,
                    i.a as int,
                    Value::Number(Number::Integer(next)),
                ));
                assert(spec_reg_write(m1, m2, i.a + 3, Value::Number(Number::Integer(next))));
            }
        }
        Ok(StepEvent::Normal)
    }

    /// `CLOSURE`: instantiates nested prototype `b` of the current prototype,
    /// resolving each upvalue descriptor — an in-stack descriptor captures
    /// the enclosing frame's register through the open-upvalue list (so a
    /// register already captured, by this closure or an earlier one, resolves
    /// to the very same shared cell), any other aliases the enclosing
    /// closure's already-resolved upvalue — and writes the fresh closure's
    /// handle to register `a`.
    #[verifier::loop_isolation(false)]
    pub fn exec_closure(&mut self, i: crate::instructions::Closure) -> (r: Result<
        StepEvent,
        RuntimeError,
    >)
        requires
            old(self).wf(),
            old(self).has_frame(),
        ensures
            final(self).wf(),
            r is Ok <==> spec_closure_ok(*old(self), i),
            match r {
                Ok(ev) => ev is Normal && spec_closure_rel(*old(self), *final(self), i),
                Err(e) => *final(self) == *old(self) && (e == RuntimeError::PrototypeOutOfRange
                    || e == RuntimeError::RegisterOutOfRange || e
                    == RuntimeError::UpvalueOutOfRange),
            },
    {
        let f = self.ci().func;
        if f >= self.protos.len() {
            return Err(RuntimeError::PrototypeOutOfRange);
        }
        if i.b >= self.protos[f].nested.len() {
            return Err(RuntimeError::PrototypeOutOfRange);
        }
        let pid = self.protos[f].nested[i.b];
        if pid >= self.protos.len() {
            return Err(RuntimeError::PrototypeOutOfRange);
        }
        let b = self.stack.base();
        if b > self.stack.len() || i.a > self.stack.len() - b {
            return Err(RuntimeError::RegisterOutOfRange);
        }
        let ghost orig = *old(self);
        let ghost descs = self.protos@[pid as int].upvalues@;
        let ndesc = self.protos[pid].upvalues.len();
        let pre_cells_len = self.upvalue_cells.len();
        // every descriptor must resolve before any cell is threaded, so that
        // a failing instruction leaves no trace
        let mut d: usize = 0;
        while d < ndesc
            invariant
                *self == orig,
                d <= ndesc,
                forall|q: int|
                    0 <= q < d ==> (if (#[trigger] descs[q]).instack {
                        orig.stack.spec_base() + descs[q].index <= usize::MAX
                    } else {
                        (descs[q].index as int) < orig.cur_frame().upvalues@.len() && (
                        orig.cur_frame().upvalues@[descs[q].index as int] as int)
                            < orig.upvalue_cells@.len()
                    }),
            decreases ndesc - d,
        {
            let (instack, index) = {
                let p = &self.protos[pid];
                (p.upvalues[d].instack, p.upvalues[d].index)
            };
            if instack {
                if index as usize > usize::MAX - b {
                    return Err(RuntimeError::RegisterOutOfRange);
                }
            } else {
                let fr = self.ci();
                if index as usize >= fr.upvalues.len() {
                    return Err(RuntimeError::UpvalueOutOfRange);
                }
                if fr.upvalues[index as usize] >= pre_cells_len {
                    return Err(RuntimeError::UpvalueOutOfRange);
                }
            }
            d = d + 1;
        }
        proof {
            assert(spec_closure_ok(orig, i));
        }
        let mut upvals: Vec<usize> = Vec::new();
        let mut d: usize = 0;
        while d < ndesc
            invariant
                self.wf(),
                self.has_frame(),
                d <= ndesc,
                upvals@.len() == d,
                spec_closure_ok(orig, i),
                self.call_info@ == orig.call_info@,
                self.stack == orig.stack,
                self.tables@ == orig.tables@,
                self.closures@ == orig.closures@,
                self.protos@ == orig.protos@,
                self.mode == orig.mode,
                forall|c: int|
                    0 <= c < orig.upvalue_cells@.len() ==> #[trigger] self.upvalue_cells@[c]
                        == orig.upvalue_cells@[c],
                self.upvalue_cells@.len() >= orig.upvalue_cells@.len(),
                self.open_upval < self.upvalue_cells@.len(),
                forall|q: int|
                    0 <= q < d ==> (#[trigger] upvals@[q] as int) < self.upvalue_cells@.len(),
                forall|q: int|
                    0 <= q < d && (#[trigger] descs[q]).instack ==> spec_find_open(
                        self.upvalue_cells@,
                        self.open_upval as int,
                        orig.stack.spec_base() + descs[q].index,
                    ) == Some(upvals@[q] as int),
                forall|q: int|
                    0 <= q < d && (#[trigger] descs[q]).instack ==> (match self.upvalue_cells@[
                        upvals@[q] as int
                    ] {
                        Upvalue::Open { position, .. } => position.spec_abs()
                            == orig.stack.spec_base() + descs[q].index,
                        _ => false,
                    }),
                forall|q: int|
                    0 <= q < d && !(#[trigger] descs[q]).instack ==> upvals@[q]
                        == orig.cur_frame().upvalues@[descs[q].index as int],
            decreases ndesc - d,
        {
            let (instack, index) = {
                let p = &self.protos[pid];
                (p.upvalues[d].instack, p.upvalues[d].index)
            };
            if instack {
                let level = self.stack.get_level(index as usize);
                let ghost cells_before = self.upvalue_cells@;
                let ghost head_before = self.open_upval;
                let ghost pre_state = *self;
                let cell = self.find_upvalue(level);
                proof {
                    lemma_upvalue_capture_shared(pre_state, *self, level, cell);
                    assert(forall|c: int|
                        0 <= c < cells_before.len() ==> #[trigger] self.upvalue_cells@[c]
                            == cells_before[c]);
                    // earlier captures are still found at their cells: a hit
                    // changed nothing; a miss threaded a cell at a level no
                    // earlier capture occupies
                    assert forall|q: int|
                        0 <= q < d && (#[trigger] descs[q]).instack implies spec_find_open(
                        self.upvalue_cells@,
                        self.open_upval as int,
                        orig.stack.spec_base() + descs[q].index,
                    ) == Some(upvals@[q] as int) by {
                        let abs_q = orig.stack.spec_base() + descs[q].index;
                        if self.upvalue_cells@ == cells_before {
                        } else {
                            if abs_q == level.spec_abs() {
                                assert(spec_find_open(cells_before, head_before as int, abs_q)
                                    is Some);
                                assert(false);
                            }
                            lemma_find_open_extend(
                                cells_before,
                                Upvalue::Open { position: level, next: Some(head_before) },
                                head_before as int,
                                abs_q,
                            );
                        }
                    }
                }
                upvals.push(cell);
            } else {
                let fr = self.ci();
                if index as usize >= fr.upvalues.len() {
                    return Err(RuntimeError::UpvalueOutOfRange);
                }
                let cell = fr.upvalues[index as usize];
                if cell >= self.upvalue_cells.len() {
                    return Err(RuntimeError::UpvalueOutOfRange);
                }
                upvals.push(cell);
            }
            d = d + 1;
        }
        let newid = self.closures.len();
        self.closures.push(LuaFunction { upvalues: upvals, proto: pid });
        let res = self.stack.set(i.a, Type::Function(Function::Lua(newid)));
        proof {
            assert(res is Ok);
        }
        Ok(StepEvent::Normal)
    }

    /// `RETURN`: pops the current frame and collects its designated return
    /// values. With a caller left, every upvalue over the popped window is
    /// closed, the window is discarded, and the values are staged on the
    /// caller for its rewound `CALL` to scatter; the last frame's return
    /// empties the machine. The call-stack depth always drops by exactly one.
    pub fn exec_return(&mut self, i: crate::instructions::Return) -> (r: Result<
        StepEvent,
        RuntimeError,
    >)
        requires
            old(self).wf(),
            old(self).has_frame(),
        ensures
            final(self).wf(),
            r is Ok <==> spec_return_ok(*old(self), i),
            match r {
                Ok(ev) => ev is Normal && spec_return_rel(*old(self), *final(self), i),
                Err(e) => e == RuntimeError::RegisterOutOfRange && *final(self) == *old(self),
            },
    {
        let count = self.resolve_count(i.base, i.count)?;
        if i.base > usize::MAX - count {
            return Err(RuntimeError::RegisterOutOfRange);
        }
        let ret_values = self.collect_range(i.base, count)?;
        let popped = self.call_info.pop();
        if self.call_info.len() > 0 {
            let call_base = self.stack.get_level(0);
            self.close_upvalues(call_base);
            self.stack.pop_barrier();
            let n = self.call_info.len() - 1;
            self.call_info[n]._subcall_returns = Some(ret_values);
        } else {
            self.stack.pop_barrier();
        }
        Ok(StepEvent::Normal)
    }

    /// Writes `params` into the (fresh) live window slots `0..params.len()`.
    #[verifier::loop_isolation(false)]
    fn write_params(&mut self, params: &Vec<Type>) -> (r: Result<(), RuntimeError>)
        requires
            old(self).wf(),
            old(self).stack.spec_base() == old(self).stack.view_seq().len(),
        ensures
            final(self).wf(),
            r is Ok,
            final(self).call_info@ == old(self).call_info@,
            final(self).stack.frames@ == old(self).stack.frames@,
            final(self).stack.spec_base() == old(self).stack.spec_base(),
            final(self).open_upval == old(self).open_upval,
            final(self).upvalue_cells@ == old(self).upvalue_cells@,
            final(self).tables@ == old(self).tables@,
            final(self).closures@ == old(self).closures@,
            final(self).protos@ == old(self).protos@,
            final(self).mode == old(self).mode,
            final(self).stack.view_seq().len() == old(self).stack.view_seq().len()
                + params@.len(),
            forall|j: int|
                0 <= j < old(self).stack.view_seq().len() ==> #[trigger] final(self).stack.view_seq()[j] == old(self).stack.view_seq()[j],
            forall|q: int|
                0 <= q < params@.len() ==> #[trigger] final(self).stack.view_seq()[old(self).stack.view_seq().len() + q] == params@[q]@,
    {
        let ghost orig = *old(self);
        let mut m: usize = 0;
        while m < params.len()
            invariant
                self.wf(),
                m <= params@.len(),
                self.call_info@ == orig.call_info@,
                self.stack.frames@ == orig.stack.frames@,
                self.stack.spec_base() == orig.stack.spec_base(),
                self.open_upval == orig.open_upval,
                self.upvalue_cells@ == orig.upvalue_cells@,
                self.tables@ == orig.tables@,
                self.closures@ == orig.closures@,
                self.protos@ == orig.protos@,
                self.mode == orig.mode,
                self.stack.view_seq().len() == orig.stack.view_seq().len() + m,
                forall|j: int|
                    0 <= j < orig.stack.view_seq().len() ==> #[trigger] self.stack.view_seq()[j]
                        == orig.stack.view_seq()[j],
                forall|q: int|
                    0 <= q < m ==> #[trigger] self.stack.view_seq()[orig.stack.view_seq().len()
                        + q] == params@[q]@,
            decreases params@.len() - m,
        {
            let val = params[m].clone();
            let res = self.stack.set(m, val);
            proof {
                assert(res is Ok);
            }
            m = m + 1;
        }
        Ok(())
    }

    /// `CALL`: invokes the callee in register `function`. A native runs to
    /// completion inside this step — `print` surfaces its arguments to the
    /// host, `assert` raises on a missing or falsy first argument and echoes
    /// its arguments otherwise, `type` returns the type name. A Lua callee
    /// pushes one new frame over a fresh window holding the parameters
    /// (missing ones padded with `nil`), and rewinds this instruction so that
    /// the matching `RETURN` finds it again with the results staged; that
    /// second run scatters the staged results into the return window. The
    /// depth thus grows by exactly one on entry and never otherwise.
    pub fn exec_call(&mut self, i: crate::instructions::Call) -> (r: Result<
        StepEvent,
        RuntimeError,
    >)
        requires
            old(self).wf(),
            old(self).has_frame(),
            old(self).mode == Mode::Ready,
            i.function < 256,
        ensures
            final(self).wf(),
            r is Ok <==> spec_call_ok(*old(self), i),
            match r {
                Ok(ev) => spec_call_rel(*old(self), *final(self), i, ev),
                Err(e) => *final(self) == *old(self) && ({
                    ||| e == RuntimeError::RegisterOutOfRange
                    ||| e == RuntimeError::NotCallable
                    ||| e == RuntimeError::PrototypeOutOfRange
                    ||| e == RuntimeError::MissingArgument
                    ||| e == RuntimeError::AssertionFailed
                    ||| e == RuntimeError::ProgramCounterOutOfRange
                }) && (e == RuntimeError::AssertionFailed ==> ({
                    &&& old(self).cur_frame()._subcall_returns is None
                    &&& old(self).spec_get_from(DataSource::Register(i.function)) == Some(
                        Value::Function(Function::Native(NativeFn::Assert)),
                    )
                    &&& old(self).spec_get_from(DataSource::Register((i.function + 1) as usize))
                        matches Some(v)
                    &&& !crate::types::spec_truthy(v)
                })),
            },
    {
        let n = self.call_info.len() - 1;
        if self.call_info[n]._subcall_returns.is_some() {
            // resolve and check the return window before consuming the
            // staged values, so a refused scatter leaves everything as it was
            let slots = self.resolve_count(i.function, i.returns)?;
            if i.function > usize::MAX - slots {
                return Err(RuntimeError::RegisterOutOfRange);
            }
            let staged_len = match &self.call_info[n]._subcall_returns {
                Some(v) => v.len(),
                None => 0,
            };
            let m = if slots <= staged_len {
                slots
            } else {
                staged_len
            };
            let b = self.stack.base();
            if m > 0 && (b > self.stack.len() || i.function > self.stack.len() - b) {
                return Err(RuntimeError::RegisterOutOfRange);
            }
            let staged = self.call_info[n]._subcall_returns.take();
            match staged {
                Some(rets) => {
                    let res = self.scatter(i.function, slots, &rets);
                    proof {
                        assert(res is Ok);
                    }
                    return Ok(StepEvent::Normal);
                },
                None => {
                    return Err(RuntimeError::NoHostResultPending);
                },
            }
        }
        let callee = match self.stack.get_rel(i.function) {
            Some(v) => v,
            None => {
                return Err(RuntimeError::RegisterOutOfRange);
            },
        };
        let fref = match callee {
            Type::Function(fr) => fr,
            _ => {
                return Err(RuntimeError::NotCallable);
            },
        };
        match fref {
            Function::Native(nf) => {
                let nparams = self.resolve_count(i.function + 1, i.params)?;
                if i.function + 1 > usize::MAX - nparams {
                    return Err(RuntimeError::RegisterOutOfRange);
                }
                let args = self.collect_range(i.function + 1, nparams)?;
                proof {
                    assert(crate::stack::views(args@) =~= old(self).stack.view_seq().subrange(
                        old(self).stack.spec_base() + i.function + 1,
                        old(self).stack.spec_base() + i.function + 1 + nparams,
                    ));
                }
                match nf {
                    NativeFn::Print => Ok(StepEvent::Print(args)),
                    NativeFn::Assert => {
                        if args.len() == 0 {
                            return Err(RuntimeError::MissingArgument);
                        }
                        if !args[0].truthy() {
                            return Err(RuntimeError::AssertionFailed);
                        }
                        let slots = self.resolve_count(i.function, i.returns)?;
                        if i.function > usize::MAX - slots {
                            return Err(RuntimeError::RegisterOutOfRange);
                        }
                        let res = self.scatter(i.function, slots, &args);
                        proof {
                            assert(res is Ok);
                        }
                        Ok(StepEvent::Normal)
                    },
                    NativeFn::Type => {
                        if args.len() == 0 {
                            return Err(RuntimeError::MissingArgument);
                        }
                        let name = args[0].as_type_name();
                        let mut rets: Vec<Type> = Vec::new();
                        rets.push(Type::String(name));
                        let slots = self.resolve_count(i.function, i.returns)?;
                        if i.function > usize::MAX - slots {
                            return Err(RuntimeError::RegisterOutOfRange);
                        }
                        proof {
                            assert(crate::stack::views(rets@) =~= seq![
                                Value::Str(
                                    crate::types::spec_as_type_name(
                                        old(self).stack.view_seq()[old(self).stack.spec_base()
                                            + i.function + 1],
                                    ),
                                ),
                            ]);
                        }
                        let res = self.scatter(i.function, slots, &rets);
                        proof {
                            assert(res is Ok);
                        }
                        Ok(StepEvent::Normal)
                    },
                }
            },
            Function::Lua(cid) => {
                if cid >= self.closures.len() {
                    return Err(RuntimeError::NotCallable);
                }
                let pid = self.closures[cid].proto;
                if pid >= self.protos.len() {
                    return Err(RuntimeError::PrototypeOutOfRange);
                }
                let nparams = self.resolve_count(i.function + 1, i.params)?;
                if i.function + 1 > usize::MAX - nparams {
                    return Err(RuntimeError::RegisterOutOfRange);
                }
                let mut params = self.collect_range(i.function + 1, nparams)?;
                let ghost collected = params@;
                let want = self.protos[pid].amount_parameters as usize;
                while params.len() < want
                    invariant
                        params@.len() <= want || params@.len() == nparams,
                        params@.len() >= collected.len(),
                        forall|q: int|
                            0 <= q < collected.len() ==> #[trigger] params@[q] == collected[q],
                        forall|q: int|
                            collected.len() <= q < params@.len() ==> (#[trigger] params@[q])@
                                == Value::Nil,
                    decreases want - params@.len(),
                {
                    params.push(Type::Nil);
                }
                self.pc_advance(-1)?;
                let instrs = self.copy_instructions(pid);
                let encup = self.copy_closure_upvalues(cid);
                self.call_info.push(
                    CallInfo {
                        pc: PC::new(instrs),
                        func: pid,
                        upvalues: encup,
                        _subcall_returns: None,
                    },
                );
                self.stack.insert_barrier();
                self.write_params(&params)?;
                Ok(StepEvent::Normal)
            },
        }
    }

    /// `TAILCALL`: replaces the current frame with the Lua callee — closing
    /// the upvalues over the abandoned window, discarding it, and opening a
    /// fresh one holding the parameters — without growing the call stack.
    pub fn exec_tailcall(&mut self, i: crate::instructions::Tailcall) -> (r: Result<
        StepEvent,
        RuntimeError,
    >)
        requires
            old(self).wf(),
            old(self).has_frame(),
            old(self).mode == Mode::Ready,
            i.function < 256,
        ensures
            final(self).wf(),
            r is Ok <==> spec_tailcall_ok(*old(self), i),
            match r {
                Ok(ev) => ev is Normal && spec_tailcall_rel(*old(self), *final(self), i),
                Err(e) => *final(self) == *old(self) && (e == RuntimeError::RegisterOutOfRange || e
                    == RuntimeError::NotCallable || e == RuntimeError::PrototypeOutOfRange),
            },
    {
        let callee = match self.stack.get_rel(i.function) {
            Some(v) => v,
            None => {
                return Err(RuntimeError::RegisterOutOfRange);
            },
        };
        let cid = match callee {
            Type::Function(Function::Lua(cid)) => cid,
            _ => {
                return Err(RuntimeError::NotCallable);
            },
        };
        if cid >= self.closures.len() {
            return Err(RuntimeError::NotCallable);
        }
        let pid = self.closures[cid].proto;
        if pid >= self.protos.len() {
            return Err(RuntimeError::PrototypeOutOfRange);
        }
        let nparams = self.resolve_count(i.function + 1, i.params)?;
        if i.function + 1 > usize::MAX - nparams {
            return Err(RuntimeError::RegisterOutOfRange);
        }
        let mut params = self.collect_range(i.function + 1, nparams)?;
        let ghost collected = params@;
        let want = self.protos[pid].amount_parameters as usize;
        while params.len() < want
            invariant
                params@.len() <= want || params@.len() == nparams,
                params@.len() >= collected.len(),
                forall|q: int| 0 <= q < collected.len() ==> #[trigger] params@[q] == collected[q],
                forall|q: int|
                    collected.len() <= q < params@.len() ==> (#[trigger] params@[q])@
                        == Value::Nil,
            decreases want - params@.len(),
        {
            params.push(Type::Nil);
        }
        let instrs = self.copy_instructions(pid);
        let encup = self.copy_closure_upvalues(cid);
        let n = self.call_info.len() - 1;
        self.call_info[n] = CallInfo {
            pc: PC::new(instrs),
            func: pid,
            upvalues: encup,
            _subcall_returns: None,
        };
        let call_base = self.stack.get_level(0);
        self.close_upvalues(call_base);
        self.stack.pop_barrier();
        self.stack.insert_barrier();
        self.write_params(&params)?;
        Ok(StepEvent::Normal)
    }
}

/// Clones a value list, preserving every value's denotation./// Clones a value list, preserving every value's denotation.
fn clone_values(vals: &Vec<Type>) -> (r: Vec<Type>)
    ensures
        r@.len() == vals@.len(),
        forall|m: int| 0 <= m < vals@.len() ==> (#[trigger] r@[m])@ == vals@[m]@,
{
    let mut r: Vec<Type> = Vec::new();
    let mut m: usize = 0;
    while m < vals.len()
        invariant
            m <= vals@.len(),
            r@.len() == m,
            forall|q: int| 0 <= q < m ==> (#[trigger] r@[q])@ == vals@[q]@,
        decreases vals@.len() - m,
    {
        r.push(vals[m].clone());
        m = m + 1;
    }
    r
}

/// Flattens a prototype tree into the arena, nested prototypes first, and
/// returns the root's index. Existing entries are untouched.
#[verifier::loop_isolation(false)]
pub fn flatten_prototypes(fb: crate::function_block::FunctionBlock, arena: &mut Vec<Proto>) -> (r:
    usize)
    ensures
        final(arena)@.len() > old(arena)@.len(),
        r == final(arena)@.len() - 1,
        forall|j: int| 0 <= j < old(arena)@.len() ==> #[trigger] final(arena)@[j] == old(arena)@[j],
        final(arena)@[r as int].instructions == fb.instructions,
        final(arena)@[r as int].constants == fb.constants,
        final(arena)@[r as int].upvalues == fb.upvalues,
        final(arena)@[r as int].amount_parameters == fb.amount_parameters,
        final(arena)@[r as int].stack_size == fb.stack_size,
        final(arena)@[r as int].nested@.len() == fb.protos@.len(),
        forall|j: int|
            0 <= j < final(arena)@[r as int].nested@.len() ==> (#[trigger] final(arena)@[r as int].nested@[j] as int) < r,
    decreases fb,
{
    let crate::function_block::FunctionBlock {
        source_name,
        lines,
        amount_parameters,
        is_vararg,
        stack_size,
        instructions,
        constants,
        protos,
        upvalues,
        debug,
    } = fb;
    let mut nested: Vec<usize> = Vec::new();
    let mut rest = protos;
    let ghost orig_rest = rest@;
    let ghost entry_len = arena@.len();
    let n = rest.len();
    let mut i: usize = 0;
    while i < n
        invariant
            i + rest@.len() == n,
            n == orig_rest.len(),
            nested@.len() == i,
            arena@.len() >= entry_len,
            forall|q: int| 0 <= q < rest@.len() ==> #[trigger] rest@[q] == orig_rest[i + q],
            forall|j: int| 0 <= j < entry_len ==> #[trigger] arena@[j] == old(arena)@[j],
            forall|q: int| 0 <= q < i ==> (#[trigger] nested@[q] as int) < arena@.len(),
        decreases rest@.len(),
    {
        let sub = rest.remove(0);
        proof {
            assert(sub == orig_rest[i as int]);
            assert(orig_rest == fb.protos@);
        }
        let id = flatten_prototypes(sub, arena);
        nested.push(id);
        i = i + 1;
    }
    let r = arena.len();
    arena.push(
        Proto {
            source_name,
            amount_parameters,
            stack_size,
            instructions,
            constants,
            nested,
            upvalues,
        },
    );
    r
}

/// What one run produced: how many instructions were executed.
#[derive(Debug, Clone, Copy, PartialEq, Eq, Structural)]
pub struct RunResult {
    pub instruction_count: usize,
}

/// The interpreter: the execution context, the loaded chunk's header, the
/// environment value, and what execution has produced so far. The host
/// drives it by `step`, answering `FloatArith`/`FloatCompare` events through
/// `resume_number`/`resume_bool`; `print` output accumulates in `printed`.
#[derive(Debug)]
pub struct Interpreter {
    pub context: Context,
    pub header: crate::header::Header,
    pub env: Type,
    pub instruction_count: usize,
    pub printed: Vec<Vec<Type>>,
}

impl Interpreter {
    /// Builds the starting state for a loaded chunk: the prototype tree is
    /// flattened into the arena, the chosen environment table is allocated,
    /// placed in stack slot 0 and closed into the entry frame's single
    /// upvalue cell, and one frame is opened on the main prototype at
    /// counter zero. Construction always succeeds.
    pub fn new(bytecode: crate::bytecode::Bytecode, env: crate::env::Environment) -> (r: Result<
        Interpreter,
        RuntimeError,
    >)
        ensures
            r is Ok,
            match r {
                Ok(it) => ({
                    &&& it.context.wf()
                    &&& it.context.depth() == 1
                    &&& it.context.mode == Mode::Ready
                    &&& it.instruction_count == 0
                    &&& it.printed@.len() == 0
                    &&& it.header == bytecode.header
                    // the entry frame runs the chunk's main prototype from
                    // its first instruction
                    &&& it.context.frame_pc() == 0
                    &&& it.context.proto_ok()
                    &&& it.context.cur_proto().instructions == bytecode.func.instructions
                    &&& it.context.cur_proto().constants == bytecode.func.constants
                    &&& it.context.cur_proto().amount_parameters
                        == bytecode.func.amount_parameters
                    &&& it.context.cur_instructions() == bytecode.func.instructions@
                    &&& it.context.cur_frame()._subcall_returns is None
                    // the frame's one upvalue is the closed environment cell
                    &&& it.context.cur_frame().upvalues@ == seq![0usize]
                    &&& it.context.upvalue_cells@.len() == 1
                    &&& (match it.context.upvalue_cells@[0] {
                        Upvalue::Closed(v) => v@ == it.env@,
                        _ => false,
                    })
                    // register stack slot 0 holds the environment table
                    &&& it.context.stack.view_seq() == seq![it.env@]
                    &&& it.context.stack.frames@.len() == 0
                    &&& (it.env@ matches Value::Table(t) && 0 <= t < it.context.tables@.len())
                    // the standard environment supplies its three natives
                    &&& (env == crate::env::Environment::LuaStandard ==> (
                    match it.env@ {
                        Value::Table(t) => {
                            let bindings = it.context.tables@[t].view_seq();
                            &&& crate::table::spec_table_lookup(
                                bindings,
                                Value::Str(seq![0x70u8, 0x72u8, 0x69u8, 0x6eu8, 0x74u8]),
                            ) == Some(Value::Function(Function::Native(NativeFn::Print)))
                            &&& crate::table::spec_table_lookup(
                                bindings,
                                Value::Str(
                                    seq![0x61u8, 0x73u8, 0x73u8, 0x65u8, 0x72u8, 0x74u8],
                                ),
                            ) == Some(Value::Function(Function::Native(NativeFn::Assert)))
                            &&& crate::table::spec_table_lookup(
                                bindings,
                                Value::Str(seq![0x74u8, 0x79u8, 0x70u8, 0x65u8]),
                            ) == Some(Value::Function(Function::Native(NativeFn::Type)))
                        },
                        _ => false,
                    }))
                }),
                Err(_) => false,
            },
    {
        let mut context = Context {
            call_info: Vec::new(),
            stack: Stack::new(),
            open_upval: 0,
            upvalue_cells: Vec::new(),
            tables: Vec::new(),
            closures: Vec::new(),
            protos: Vec::new(),
            mode: Mode::Ready,
        };
        let root = flatten_prototypes(bytecode.func, &mut context.protos);
        context.upvalue_cells.push(Upvalue::Closed(Type::Nil));
        proof {
            assert(context.wf());
        }
        let env_val = match env.make(&mut context) {
            Ok(v) => v,
            Err(e) => {
                return Err(e);
            },
        };
        let res = context.stack.set(0, env_val.clone());
        proof {
            assert(res is Ok);
        }
        context.upvalue_cells.set(0, Upvalue::Closed(env_val.clone()));
        let instrs = context.copy_instructions(root);
        let mut entry_upvals: Vec<usize> = Vec::new();
        entry_upvals.push(0);
        proof {
            assert(entry_upvals@ =~= seq![0usize]);
        }
        context.call_info.push(
            CallInfo {
                pc: PC::new(instrs),
                func: root,
                upvalues: entry_upvals,
                _subcall_returns: None,
            },
        );
        proof {
            assert(context.stack.view_seq() =~= seq![env_val@]);
        }
        Ok(
            Interpreter {
                context,
                header: bytecode.header,
                env: env_val,
                instruction_count: 0,
                printed: Vec::new(),
            },
        )
    }

    /// The entry frame's program counter.
    pub fn pc(&self) -> (r: &PC)
        requires
            self.context.has_frame(),
        ensures
            *r == self.context.cur_frame().pc,
    {
        &self.context.ci().pc
    }

    /// One fetch-decode-execute step. With no frame left the machine is
    /// halted and nothing changes. Otherwise the current instruction is
    /// fetched, the counter advanced by one before execution (so jumps add
    /// their own offset on top), and the instruction executed: the final
    /// state is related to the advanced state exactly by the fetched
    /// instruction's own contract. Success is owed whenever a frame exists,
    /// the engine is ready, the counter is in range, and the well-formed
    /// instruction's own conditions hold. The call-stack depth moves exactly
    /// as the call protocol demands: a `RETURN` pops one frame, a `TAILCALL`
    /// keeps the depth, a `CALL` entering a Lua callee pushes one frame and
    /// any other `CALL` keeps the depth, and every other instruction leaves
    /// the call stack alone.
    pub fn step(&mut self) -> (r: Result<StepEvent, RuntimeError>)
        requires
            old(self).context.wf(),
        ensures
            final(self).context.wf(),
            r == Err::<StepEvent, RuntimeError>(RuntimeError::HostResultPending) ==> (*final(self)
                == *old(self) && old(self).context.mode != Mode::Ready),
            (old(self).context.has_frame() && old(self).context.mode == Mode::Ready && old(self).context.fetchable() && old(self).instruction_count < usize::MAX && old(self).context.cur_instr().wf() && (forall|mid: Context|
                Context::spec_with_pc(
                    old(self).context,
                    mid,
                    old(self).context.frame_pc() + 1,
                ) ==> spec_instr_ok(mid, old(self).context.cur_instr()))) ==> r is Ok,
            match r {
                Ok(ev) => if !old(self).context.has_frame() {
                    ev is Halted && *final(self) == *old(self)
                } else {
                    let i = old(self).context.cur_instr();
                    &&& old(self).context.mode == Mode::Ready
                    &&& old(self).context.fetchable()
                    &&& final(self).instruction_count == old(self).instruction_count + 1
                    &&& final(self).header == old(self).header
                    &&& final(self).env == old(self).env
                    // the fetched instruction's contracted effect happened,
                    // against the pre-advanced counter
                    &&& exists|mid: Context|
                        #[trigger] Context::spec_with_pc(
                            old(self).context,
                            mid,
                            old(self).context.frame_pc() + 1,
                        ) && spec_instr_ok(mid, i) && spec_instr_rel(mid, final(self).context, i, ev)
                    &&& (match ev {
                        StepEvent::Print(args) => final(self).printed@.len() == old(self).printed@.len() + 1 && (forall|q: int|
                            0 <= q < old(self).printed@.len() ==> #[trigger] final(self).printed@[q] == old(self).printed@[q]) && crate::stack::views(
                            final(self).printed@.last()@,
                        ) == crate::stack::views(args@),
                        _ => final(self).printed@ == old(self).printed@,
                    })
                    &&& (i matches Instruction::RETURN(_) ==> final(self).context.depth() == old(self).context.depth() - 1)
                    &&& (i matches Instruction::TAILCALL(_) ==> final(self).context.depth() == old(self).context.depth())
                    &&& (i matches Instruction::CALL(c) ==> (final(self).context.depth() == old(self).context.depth() + 1 || final(self).context.depth() == old(self).context.depth()))
                    &&& ((i matches Instruction::CALL(c) && old(self).context.cur_frame()._subcall_returns is None && old(self).context.spec_get_from(
                        DataSource::Register(c.function),
                    ) matches Some(Value::Function(Function::Lua(_)))) ==> final(self).context.depth() == old(self).context.depth() + 1)
                    &&& ((i matches Instruction::CALL(c) && old(self).context.cur_frame()._subcall_returns is Some) ==> final(self).context.depth()
                        == old(self).context.depth())
                    &&& (!(i matches Instruction::RETURN(_)) && !(i matches Instruction::CALL(_))
                        ==> final(self).context.depth() == old(self).context.depth())
                },
                Err(_) => true,
            },
    {
        if self.context.call_info.len() == 0 {
            return Ok(StepEvent::Halted);
        }
        if self.instruction_count == usize::MAX {
            return Err(RuntimeError::InstructionCountOverflow);
        }
        match self.context.mode {
            Mode::Ready => {},
            _ => {
                return Err(RuntimeError::HostResultPending);
            },
        }
        let n = self.context.call_info.len() - 1;
        let pc = self.context.call_info[n].pc._pc;
        if pc >= self.context.call_info[n].pc._instructions.len() {
            return Err(RuntimeError::ProgramCounterOutOfRange);
        }
        let instr = *self.context.call_info[n].pc.current();
        let adv = self.context.pc_advance(1);
        proof {
            assert(adv is Ok);
        }
        let ghost mid = self.context;
        let ev = match instr {
            Instruction::MOVE(s) => {
                let r0 = self.context.exec_move(s);
                proof {
                    assert(r0 is Ok <==> spec_instr_ok(mid, instr));
                    assert(r0 != Err::<StepEvent, RuntimeError>(RuntimeError::HostResultPending));
                }
                r0
            },
            Instruction::LOADK(s) => {
                let r0 = self.context.exec_loadk(s);
                proof {
                    assert(r0 is Ok <==> spec_instr_ok(mid, instr));
                    assert(r0 != Err::<StepEvent, RuntimeError>(RuntimeError::HostResultPending));
                }
                r0
            },
            Instruction::LOADBOOL(s) => {
                let r0 = self.context.exec_loadbool(s);
                proof {
                    assert(r0 is Ok <==> spec_instr_ok(mid, instr));
                    assert(r0 != Err::<StepEvent, RuntimeError>(RuntimeError::HostResultPending));
                }
                r0
            },
            Instruction::LOADNIL(s) => {
                if s.range > usize::MAX - 1 || s.start > usize::MAX - 1 - s.range {
                    return Err(RuntimeError::RegisterOutOfRange);
                }
                {
                let r0 = self.context.exec_loadnil(s);
                proof {
                    assert(r0 is Ok <==> spec_instr_ok(mid, instr));
                    assert(r0 != Err::<StepEvent, RuntimeError>(RuntimeError::HostResultPending));
                }
                r0
            }
            },
            Instruction::GETUPVAL(s) => {
                let r0 = self.context.exec_getupval(s);
                proof {
                    assert(r0 is Ok <==> spec_instr_ok(mid, instr));
                    assert(r0 != Err::<StepEvent, RuntimeError>(RuntimeError::HostResultPending));
                }
                r0
            },
            Instruction::GETTABUP(s) => {
                let r0 = self.context.exec_gettabup(s);
                proof {
                    assert(r0 is Ok <==> spec_instr_ok(mid, instr));
                    assert(r0 != Err::<StepEvent, RuntimeError>(RuntimeError::HostResultPending));
                }
                r0
            },
            Instruction::GETTABLE(s) => {
                let r0 = self.context.exec_gettable(s);
                proof {
                    assert(r0 is Ok <==> spec_instr_ok(mid, instr));
                    assert(r0 != Err::<StepEvent, RuntimeError>(RuntimeError::HostResultPending));
                }
                r0
            },
            Instruction::SETTABUP(s) => {
                let r0 = self.context.exec_settabup(s);
                proof {
                    assert(r0 is Ok <==> spec_instr_ok(mid, instr));
                    assert(r0 != Err::<StepEvent, RuntimeError>(RuntimeError::HostResultPending));
                }
                r0
            },
            Instruction::SETTABLE(s) => {
                let r0 = self.context.exec_settable(s);
                proof {
                    assert(r0 is Ok <==> spec_instr_ok(mid, instr));
                    assert(r0 != Err::<StepEvent, RuntimeError>(RuntimeError::HostResultPending));
                }
                r0
            },
            Instruction::NEWTABLE(s) => {
                let r0 = self.context.exec_newtable(s);
                proof {
                    assert(r0 is Ok <==> spec_instr_ok(mid, instr));
                    assert(r0 != Err::<StepEvent, RuntimeError>(RuntimeError::HostResultPending));
                }
                r0
            },
            Instruction::SELF(s) => {
                if s.a >= usize::MAX {
                    return Err(RuntimeError::RegisterOutOfRange);
                }
                {
                let r0 = self.context.exec_self(s);
                proof {
                    assert(r0 is Ok <==> spec_instr_ok(mid, instr));
                    assert(r0 != Err::<StepEvent, RuntimeError>(RuntimeError::HostResultPending));
                }
                r0
            }
            },
            Instruction::ADD(s) => {
                let r0 = self.context.exec_arith(ArithOp::Add, s.a, s.b, s.c);
                proof {
                    assert(r0 is Ok <==> spec_instr_ok(mid, instr));
                    assert(r0 != Err::<StepEvent, RuntimeError>(RuntimeError::HostResultPending));
                }
                r0
            },
            Instruction::SUB(s) => {
                let r0 = self.context.exec_arith(ArithOp::Sub, s.a, s.b, s.c);
                proof {
                    assert(r0 is Ok <==> spec_instr_ok(mid, instr));
                    assert(r0 != Err::<StepEvent, RuntimeError>(RuntimeError::HostResultPending));
                }
                r0
            },
            Instruction::MUL(s) => {
                let r0 = self.context.exec_arith(ArithOp::Mul, s.a, s.b, s.c);
                proof {
                    assert(r0 is Ok <==> spec_instr_ok(mid, instr));
                    assert(r0 != Err::<StepEvent, RuntimeError>(RuntimeError::HostResultPending));
                }
                r0
            },
            Instruction::MOD(s) => {
                let r0 = self.context.exec_arith(ArithOp::Mod, s.a, s.b, s.c);
                proof {
                    assert(r0 is Ok <==> spec_instr_ok(mid, instr));
                    assert(r0 != Err::<StepEvent, RuntimeError>(RuntimeError::HostResultPending));
                }
                r0
            },
            Instruction::POW(s) => {
                let r0 = self.context.exec_arith(ArithOp::Pow, s.a, s.b, s.c);
                proof {
                    assert(r0 is Ok <==> spec_instr_ok(mid, instr));
                    assert(r0 != Err::<StepEvent, RuntimeError>(RuntimeError::HostResultPending));
                }
                r0
            },
            Instruction::DIV(s) => {
                let r0 = self.context.exec_arith(ArithOp::Div, s.a, s.b, s.c);
                proof {
                    assert(r0 is Ok <==> spec_instr_ok(mid, instr));
                    assert(r0 != Err::<StepEvent, RuntimeError>(RuntimeError::HostResultPending));
                }
                r0
            },
            Instruction::IDIV(s) => {
                let r0 = self.context.exec_arith(ArithOp::IDiv, s.a, s.b, s.c);
                proof {
                    assert(r0 is Ok <==> spec_instr_ok(mid, instr));
                    assert(r0 != Err::<StepEvent, RuntimeError>(RuntimeError::HostResultPending));
                }
                r0
            },
            Instruction::BAND(s) => {
                let r0 = self.context.exec_bitwise(BitOp::And, s.a, s.b, s.c);
                proof {
                    assert(r0 is Ok <==> spec_instr_ok(mid, instr));
                    assert(r0 != Err::<StepEvent, RuntimeError>(RuntimeError::HostResultPending));
                }
                r0
            },
            Instruction::BOR(s) => {
                let r0 = self.context.exec_bitwise(BitOp::Or, s.a, s.b, s.c);
                proof {
                    assert(r0 is Ok <==> spec_instr_ok(mid, instr));
                    assert(r0 != Err::<StepEvent, RuntimeError>(RuntimeError::HostResultPending));
                }
                r0
            },
            Instruction::BXOR(s) => {
                let r0 = self.context.exec_bitwise(BitOp::Xor, s.a, s.b, s.c);
                proof {
                    assert(r0 is Ok <==> spec_instr_ok(mid, instr));
                    assert(r0 != Err::<StepEvent, RuntimeError>(RuntimeError::HostResultPending));
                }
                r0
            },
            Instruction::SHL(s) => {
                let r0 = self.context.exec_bitwise(BitOp::Shl, s.a, s.b, s.c);
                proof {
                    assert(r0 is Ok <==> spec_instr_ok(mid, instr));
                    assert(r0 != Err::<StepEvent, RuntimeError>(RuntimeError::HostResultPending));
                }
                r0
            },
            Instruction::SHR(s) => {
                let r0 = self.context.exec_bitwise(BitOp::Shr, s.a, s.b, s.c);
                proof {
                    assert(r0 is Ok <==> spec_instr_ok(mid, instr));
                    assert(r0 != Err::<StepEvent, RuntimeError>(RuntimeError::HostResultPending));
                }
                r0
            },
            Instruction::UNM(s) => {
                let r0 = self.context.exec_unm(s);
                proof {
                    assert(r0 is Ok <==> spec_instr_ok(mid, instr));
                    assert(r0 != Err::<StepEvent, RuntimeError>(RuntimeError::HostResultPending));
                }
                r0
            },
            Instruction::BNOT(s) => {
                let r0 = self.context.exec_bnot(s);
                proof {
                    assert(r0 is Ok <==> spec_instr_ok(mid, instr));
                    assert(r0 != Err::<StepEvent, RuntimeError>(RuntimeError::HostResultPending));
                }
                r0
            },
            Instruction::NOT(s) => {
                let r0 = self.context.exec_not(s);
                proof {
                    assert(r0 is Ok <==> spec_instr_ok(mid, instr));
                    assert(r0 != Err::<StepEvent, RuntimeError>(RuntimeError::HostResultPending));
                }
                r0
            },
            Instruction::LEN(s) => {
                let r0 = self.context.exec_len(s);
                proof {
                    assert(r0 is Ok <==> spec_instr_ok(mid, instr));
                    assert(r0 != Err::<StepEvent, RuntimeError>(RuntimeError::HostResultPending));
                }
                r0
            },
            Instruction::CONCAT(s) => {
                if s.c >= usize::MAX {
                    return Err(RuntimeError::RegisterOutOfRange);
                }
                {
                let r0 = self.context.exec_concat(s);
                proof {
                    assert(r0 is Ok <==> spec_instr_ok(mid, instr));
                    assert(r0 != Err::<StepEvent, RuntimeError>(RuntimeError::HostResultPending));
                }
                r0
            }
            },
            Instruction::JMP(s) => {
                let r0 = self.context.exec_jmp(s);
                proof {
                    assert(r0 is Ok <==> spec_instr_ok(mid, instr));
                    assert(r0 != Err::<StepEvent, RuntimeError>(RuntimeError::HostResultPending));
                }
                r0
            },
            Instruction::EQ(s) => {
                let r0 = self.context.exec_compare(
                CompareOp::Eq,
                s.lhs,
                s.rhs,
                s.inverted,
            );
                proof {
                    assert(r0 is Ok <==> spec_instr_ok(mid, instr));
                    assert(r0 != Err::<StepEvent, RuntimeError>(RuntimeError::HostResultPending));
                }
                r0
            },
            Instruction::LT(s) => {
                let r0 = self.context.exec_compare(
                CompareOp::Lt,
                s.lhs,
                s.rhs,
                s.inverted,
            );
                proof {
                    assert(r0 is Ok <==> spec_instr_ok(mid, instr));
                    assert(r0 != Err::<StepEvent, RuntimeError>(RuntimeError::HostResultPending));
                }
                r0
            },
            Instruction::LE(s) => {
                let r0 = self.context.exec_compare(
                CompareOp::Le,
                s.lhs,
                s.rhs,
                s.inverted,
            );
                proof {
                    assert(r0 is Ok <==> spec_instr_ok(mid, instr));
                    assert(r0 != Err::<StepEvent, RuntimeError>(RuntimeError::HostResultPending));
                }
                r0
            },
            Instruction::TEST(s) => {
                let r0 = self.context.exec_test(s);
                proof {
                    assert(r0 is Ok <==> spec_instr_ok(mid, instr));
                    assert(r0 != Err::<StepEvent, RuntimeError>(RuntimeError::HostResultPending));
                }
                r0
            },
            Instruction::TESTSET(s) => {
                let r0 = self.context.exec_testset(s);
                proof {
                    assert(r0 is Ok <==> spec_instr_ok(mid, instr));
                    assert(r0 != Err::<StepEvent, RuntimeError>(RuntimeError::HostResultPending));
                }
                r0
            },
            Instruction::CALL(s) => {
                if s.function >= 256 {
                    return Err(RuntimeError::RegisterOutOfRange);
                }
                {
                let r0 = self.context.exec_call(s);
                proof {
                    assert(r0 is Ok <==> spec_instr_ok(mid, instr));
                    assert(r0 != Err::<StepEvent, RuntimeError>(RuntimeError::HostResultPending));
                }
                r0
            }
            },
            Instruction::TAILCALL(s) => {
                if s.function >= 256 {
                    return Err(RuntimeError::RegisterOutOfRange);
                }
                {
                let r0 = self.context.exec_tailcall(s);
                proof {
                    assert(r0 is Ok <==> spec_instr_ok(mid, instr));
                    assert(r0 != Err::<StepEvent, RuntimeError>(RuntimeError::HostResultPending));
                }
                r0
            }
            },
            Instruction::RETURN(s) => {
                let r0 = self.context.exec_return(s);
                proof {
                    assert(r0 is Ok <==> spec_instr_ok(mid, instr));
                    assert(r0 != Err::<StepEvent, RuntimeError>(RuntimeError::HostResultPending));
                }
                r0
            },
            Instruction::FORLOOP(s) => {
                if s.a > usize::MAX - 3 {
                    return Err(RuntimeError::RegisterOutOfRange);
                }
                {
                let r0 = self.context.exec_forloop(s);
                proof {
                    assert(r0 is Ok <==> spec_instr_ok(mid, instr));
                    assert(r0 != Err::<StepEvent, RuntimeError>(RuntimeError::HostResultPending));
                }
                r0
            }
            },
            Instruction::FORPREP(s) => {
                if s.a > usize::MAX - 2 {
                    return Err(RuntimeError::RegisterOutOfRange);
                }
                {
                let r0 = self.context.exec_forprep(s);
                proof {
                    assert(r0 is Ok <==> spec_instr_ok(mid, instr));
                    assert(r0 != Err::<StepEvent, RuntimeError>(RuntimeError::HostResultPending));
                }
                r0
            }
            },
            Instruction::CLOSURE(s) => {
                let r0 = self.context.exec_closure(s);
                proof {
                    assert(r0 is Ok <==> spec_instr_ok(mid, instr));
                    assert(r0 != Err::<StepEvent, RuntimeError>(RuntimeError::HostResultPending));
                }
                r0
            },
        };
        let ev = ev?;
        self.instruction_count = self.instruction_count + 1;
        match &ev {
            StepEvent::Print(args) => {
                let copy = clone_values(args);
                proof {
                    assert(crate::stack::views(copy@) =~= crate::stack::views(args@));
                }
                self.printed.push(copy);
            },
            _ => {},
        }
        Ok(ev)
    }

    /// Hands the engine a host-computed number; see `Context::resume_number`.
    pub fn resume_number(&mut self, n: Number) -> (r: Result<(), RuntimeError>)
        requires
            old(self).context.wf(),
        ensures
            final(self).context.wf(),
    {
        self.context.resume_number(n)
    }

    /// Hands the engine a host-computed comparison outcome; see
    /// `Context::resume_bool`.
    pub fn resume_bool(&mut self, res: bool) -> (r: Result<(), RuntimeError>)
        requires
            old(self).context.wf(),
        ensures
            final(self).context.wf(),
    {
        self.context.resume_bool(res)
    }

    /// Drives `step` until the program halts, counting the executed
    /// instructions. Every step is governed by `step`'s own contract; the
    /// driver adds no outcome of its own except that a step that needs the
    /// host — a pending float operation or comparison — is surfaced as
    /// `HostResultPending`, and such programs are driven with `step`,
    /// `resume_number` and `resume_bool` instead.
    pub fn run(&mut self) -> (r: Result<RunResult, RuntimeError>)
        requires
            old(self).context.wf(),
        ensures
            final(self).context.wf(),
            match r {
                Ok(res) => !final(self).context.has_frame() && res.instruction_count == final(self).instruction_count,
                Err(e) => e == RuntimeError::HostResultPending ==> final(self).context.mode
                    != Mode::Ready,
            },
    {
        loop
            invariant
                self.context.wf(),
            decreases usize::MAX - self.instruction_count,
        {
            let ghost count_before = self.instruction_count;
            let had_frame = self.context.call_info.len() > 0;
            let ev = self.step()?;
            match ev {
                StepEvent::Halted => {
                    proof {
                        assert(self.context.call_info.len() == 0);
                    }
                    return Ok(RunResult { instruction_count: self.instruction_count });
                },
                StepEvent::Normal => {},
                StepEvent::Print(_) => {},
                StepEvent::FloatArith { .. } => {
                    proof {
                        assert(self.context.mode != Mode::Ready);
                    }
                    return Err(RuntimeError::HostResultPending);
                },
                StepEvent::FloatCompare { .. } => {
                    proof {
                        assert(self.context.mode != Mode::Ready);
                    }
                    return Err(RuntimeError::HostResultPending);
                },
            }
            proof {
                assert(self.instruction_count == count_before + 1);
            }
        }
    }

    /// What the run produced so far.
    pub fn run_result(&self) -> (r: RunResult)
        ensures
            r.instruction_count == self.instruction_count,
    {
        RunResult { instruction_count: self.instruction_count }
    }
}


/// Upvalue aliasing. `post` is the state `find_upvalue` leaves behind when a
/// capture of the register at `level` returned cell `r` in state `pre`
/// (either the walk hit an existing open cell, or one fresh cell was threaded
/// onto the head). In `post`, capturing the same register again resolves to
/// the very same cell `r`: closures created from the same enclosing frame
/// that capture the same in-stack variable share one cell. While that cell is
/// open, both read it through the one stack slot it names, so each observes
/// the other's writes (`Context::spec_upvalue_value`); once the frame returns
/// and `close_upvalues` closes the cell, it owns the value the slot last held
/// and reads of it ignore the stack from then on.
pub proof fn lemma_upvalue_capture_shared(pre: Context, post: Context, level: StackLevel, r: usize)
    requires
        pre.wf(),
        match spec_find_open(pre.upvalue_cells@, pre.open_upval as int, level.spec_abs()) {
            Some(k) => r == k && post.upvalue_cells@ == pre.upvalue_cells@ && post.open_upval
                == pre.open_upval,
            None => post.upvalue_cells@ == pre.upvalue_cells@.push(
                Upvalue::Open { position: level, next: Some(pre.open_upval) },
            ) && post.open_upval == pre.upvalue_cells@.len() && r == pre.upvalue_cells@.len(),
        },
    ensures
        spec_find_open(post.upvalue_cells@, post.open_upval as int, level.spec_abs()) == Some(
            r as int,
        ),
{
    let abs = level.spec_abs();
    match spec_find_open(pre.upvalue_cells@, pre.open_upval as int, abs) {
        Some(k) => {
        },
        None => {
            let cells = post.upvalue_cells@;
            assert(chain_dec(cells)) by {
                assert(forall|i: int|
                    0 <= i < pre.upvalue_cells@.len() ==> cells[i] == pre.upvalue_cells@[i]);
            }
            assert(cells[post.open_upval as int] matches Upvalue::Open { position, .. }
                && position.spec_abs() == abs);
        },
    }
}

} // verus!
