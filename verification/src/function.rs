//! Runtime function shapes: the flattened prototype the engine executes, and
//! the instantiated closure pairing a prototype with its resolved upvalue
//! cells. Prototypes and closures live in arenas owned by the execution
//! context and are addressed by index, so closure equality is identity.
use vstd::prelude::*;
use crate::instructions::Instruction;
use crate::types::Type;
use crate::upvalues::UpvalueInfo;

verus! {

/// One compiled function body, flattened for execution: nested prototypes are
/// arena indices instead of owned subtrees.
#[derive(Debug)]
pub struct Proto {
    pub source_name: Option<Vec<u8>>,
    pub amount_parameters: u8,
    pub stack_size: u8,
    pub instructions: Vec<Instruction>,
    pub constants: Vec<Type>,
    pub nested: Vec<usize>,
    pub upvalues: Vec<UpvalueInfo>,
}

/// An instantiated closure: a prototype plus the upvalue cells resolved when
/// the enclosing `CLOSURE` instruction ran, both by arena index.
#[derive(Debug)]
pub struct LuaFunction {
    pub upvalues: Vec<usize>,
    pub proto: usize,
}

} // verus!
