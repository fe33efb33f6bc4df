//! Instruction words: bitfield extraction for the four operand layouts, and
//! the operand sorts shared by the decoded instruction set — register-or-
//! constant sources, call-operand counts, and signed jump offsets.
use vstd::prelude::*;

verus! {

/// A register index, relative to the current frame's base.
pub type Reg = usize;


/// The bits of `d` from position `from` (inclusive) to `until` (exclusive),
/// shifted down to the low end.
pub open spec fn spec_get_bits(d: u32, from: u32, until: u32) -> u32
    recommends
        from <= until <= 32,
{
    (d >> from) & ((((1u64 << (until - from) as u64) - 1) as u32))
}

/// Extracts a bitfield.
pub fn get_bits(d: u32, from: u32, until: u32) -> (r: u32)
    requires
        from < 32,
        from <= until <= 32,
    ensures
        r == spec_get_bits(d, from, until),
{
    let width = (until - from) as u64;
    proof {
        assert(1u64 << (width as u64) >= 1 && 1u64 << (width as u64) <= 0x100000000u64)
            by (bit_vector)
            requires
                width <= 32u64,
        ;
    }
    let mask = ((1u64 << width) - 1) as u32;
    (d >> from) & mask
}

/// Bits 0..6 of an instruction word: the opcode.
pub open spec fn op_field(d: u32) -> u32 {
    d & 63
}

/// Bits 6..14: the 8-bit A operand.
pub open spec fn a_field(d: u32) -> u32 {
    (d >> 6) & 0xff
}

/// Bits 14..23: the 9-bit C operand.
pub open spec fn c_field(d: u32) -> u32 {
    (d >> 14) & 0x1ff
}

/// Bits 23..32: the 9-bit B operand. B sits above C in the word, the reverse
/// of their operand order; this layout is load-bearing.
pub open spec fn b_field(d: u32) -> u32 {
    (d >> 23) & 0x1ff
}

/// Bits 14..32: the 18-bit unsigned Bx operand.
pub open spec fn bx_field(d: u32) -> u32 {
    (d >> 14) & 0x3ffff
}

/// The signed sBx operand: Bx biased by half its unsigned maximum.
pub open spec fn sbx_field(d: u32) -> int {
    bx_field(d) - 131071
}

#[allow(non_snake_case)]
pub fn parse_A_B(d: u32) -> (r: (Reg, Reg))
    ensures
        r.0 == a_field(d) as usize,
        r.1 == b_field(d) as usize,
{
    let (a, b, _) = parse_A_B_C(d);
    (a, b)
}

#[allow(non_snake_case)]
pub fn parse_A_Bx(d: u32) -> (r: (Reg, Reg))
    ensures
        r.0 == a_field(d) as usize,
        r.1 == bx_field(d) as usize,
{
    let a = (d >> 6) & 0xff;
    let b = (d >> 14) & 0x3ffff;
    (a as Reg, b as Reg)
}

#[allow(non_snake_case)]
pub fn parse_A_sBx(d: u32) -> (r: (Reg, isize))
    ensures
        r.0 == a_field(d) as usize,
        r.1 == sbx_field(d),
{
    let a = (d >> 6) & 0xff;
    let b = (d >> 14) & 0x3ffff;
    proof {
        assert((d >> 14) & 0x3ffff < 0x40000u32) by (bit_vector);
    }
    let sbx = b as isize - 131071;
    (a as Reg, sbx)
}

#[allow(non_snake_case)]
pub fn parse_A_B_C(d: u32) -> (r: (Reg, Reg, Reg))
    ensures
        r.0 == a_field(d) as usize,
        r.1 == b_field(d) as usize,
        r.2 == c_field(d) as usize,
{
    let a = (d >> 6) & 0xff;
    let b = (d >> 23) & 0x1ff;
    let c = (d >> 14) & 0x1ff;
    (a as Reg, b as Reg, c as Reg)
}

/// An operand that addresses either a frame register or a constant-pool slot,
/// disambiguated at decode time by the high bit of its 9-bit field.
#[derive(Debug, Clone, Copy, PartialEq, Eq, Structural)]
pub enum DataSource {
    Register(usize),
    Constant(usize),
}

/// Decode of a 9-bit RK operand field: values with the high bit set address
/// the constant pool, the rest address registers.
pub open spec fn spec_data_source(other: usize) -> DataSource {
    if other >= 256 {
        DataSource::Constant(other & 0xff)
    } else {
        DataSource::Register(other)
    }
}

/// The field value that encodes a (well-formed) RK operand.
pub open spec fn spec_data_source_raw(s: DataSource) -> int {
    match s {
        DataSource::Register(i) => i as int,
        DataSource::Constant(i) => i + 256,
    }
}

impl DataSource {
    /// Both payloads fit the 8 bits left after the constant flag.
    pub open spec fn wf(self) -> bool {
        match self {
            DataSource::Register(i) => i < 256,
            DataSource::Constant(i) => i < 256,
        }
    }
}

impl From<usize> for DataSource {
    fn from(other: usize) -> (r: DataSource)
        ensures
            r == spec_data_source(other),
    {
        if other >= 256 {
            DataSource::Constant(other & 0xff)
        } else {
            DataSource::Register(other)
        }
    }
}

impl vstd::std_specs::convert::FromSpecImpl<usize> for DataSource {
    open spec fn obeys_from_spec() -> bool {
        true
    }

    open spec fn from_spec(other: usize) -> DataSource {
        spec_data_source(other)
    }
}

/// An operand count for call parameters or returns: `Unknown` means "up to
/// the current stack top", a raw value of `n + 1` means exactly `n`.
#[derive(Debug, Clone, Copy, PartialEq, Eq, Structural)]
pub enum Count {
    Unknown,
    Known(usize),
}

/// Decode of a raw 9-bit count field: zero is "unknown", any other value
/// encodes one more than the count it names.
pub open spec fn spec_count_of(n: usize) -> Count {
    if n == 0 {
        Count::Unknown
    } else {
        Count::Known((n - 1) as usize)
    }
}

/// The field value that encodes a (well-formed) count.
pub open spec fn spec_count_raw(c: Count) -> int {
    match c {
        Count::Unknown => 0,
        Count::Known(n) => n + 1,
    }
}

impl Count {
    /// The encoded value fits the 9-bit field.
    pub open spec fn wf(self) -> bool {
        match self {
            Count::Unknown => true,
            Count::Known(n) => n < 511,
        }
    }
}

impl From<usize> for Count {
    fn from(n: usize) -> (r: Count)
        ensures
            r == spec_count_of(n),
    {
        match n {
            0 => Count::Unknown,
            _ => Count::Known(n - 1),
        }
    }
}

impl vstd::std_specs::convert::FromSpecImpl<usize> for Count {
    open spec fn obeys_from_spec() -> bool {
        true
    }

    open spec fn from_spec(n: usize) -> Count {
        spec_count_of(n)
    }
}

/// Decode of a raw upvalue operand field.
pub open spec fn spec_upvalue_index(other: usize) -> UpvalueIndex {
    if other >= 256 {
        UpvalueIndex(((0 - ((other & 0xff) as int)) as i64))
    } else {
        UpvalueIndex(other as i64)
    }
}

/// A raw upvalue operand, negated when its constant flag was set: a signed
/// marker consumed by the diagnostic surface.
#[derive(Debug, Clone, Copy, PartialEq, Eq, Structural)]
pub struct UpvalueIndex(pub i64);

impl UpvalueIndex {
    pub fn load(val: usize) -> (r: UpvalueIndex)
        ensures
            r == spec_upvalue_index(val),
    {
        if val >= 256 {
            proof {
                assert(val & 0xff < 256) by (bit_vector);
            }
            UpvalueIndex(-((val & 0xff) as i64))
        } else {
            UpvalueIndex(val as i64)
        }
    }
}

impl From<usize> for UpvalueIndex {
    fn from(other: usize) -> (r: UpvalueIndex)
        ensures
            r == spec_upvalue_index(other),
    {
        UpvalueIndex::load(other)
    }
}

impl vstd::std_specs::convert::FromSpecImpl<usize> for UpvalueIndex {
    open spec fn obeys_from_spec() -> bool {
        true
    }

    open spec fn from_spec(other: usize) -> UpvalueIndex {
        spec_upvalue_index(other)
    }
}

} // verus!
