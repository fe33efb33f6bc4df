//! A verified loader and execution engine for precompiled Lua 5.3 binary
//! chunks: header validation, recursive prototype deserialization, bitfield
//! instruction decoding, and a register-machine stepper with closures,
//! shared upvalues and mutable tables.
pub mod bytecode;
pub mod constants;
pub mod debug;
pub mod env;
pub mod error;
pub mod function;
pub mod function_block;
pub mod header;
pub mod instruction;
pub mod instructions;
pub mod interpreter;
pub mod reader;
pub mod stack;
pub mod table;
pub mod types;
pub mod upvalues;
