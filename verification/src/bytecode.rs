//! The chunk root: the validated header, the count of upvalues of the main
//! prototype, and the main prototype tree.
use vstd::prelude::*;
use crate::error::LoadError;
use crate::function_block::FunctionBlock;
use crate::header::{spec_header_ok, spec_reference_header, Header};
use crate::reader::read_u8;

verus! {

/// A fully loaded chunk, immutable once parsed.
#[derive(Debug)]
pub struct Bytecode {
    pub header: Header,
    pub upvalues: u8,
    pub func: FunctionBlock,
}

impl Bytecode {
    /// Parses a whole chunk: the fixed header, one byte counting the main
    /// prototype's upvalues, and the main prototype tree.
    pub fn parse(data: &[u8], pos: usize) -> (r: Result<(Bytecode, usize), LoadError>)
        ensures
            // a childless chunk is owed success whenever its header, upvalue
            // count, flat prefix and debug block all decode
            (spec_header_ok(data@, pos as int) && (match crate::reader::spec_read_u8(
                data@,
                pos + 33,
            ) {
                Some((_, p34)) => (match crate::function_block::spec_fb_flat(data@, p34) {
                    Some((flat, p10)) => flat.8 == 0 && crate::debug::spec_parse_debug(data@, p10)
                        is Some,
                    None => false,
                }),
                None => false,
            })) ==> r is Ok,
            match r {
                Ok((b, p)) => ({
                    &&& pos < p <= data@.len()
                    &&& b.header == spec_reference_header()
                    &&& spec_header_ok(data@, pos as int)
                    // one byte after the header counts the main upvalues; the
                    // main block is the exact decode of what follows it
                    &&& crate::reader::spec_read_u8(data@, pos + 33) == Some(
                        (b.upvalues, pos + 34),
                    )
                    &&& crate::function_block::spec_fb_parse_result(
                        data@,
                        pos + 34,
                        b.func,
                        p as int,
                    )
                }),
                Err(_) => true,
            },
    {
        let (header, p1) = Header::parse(data, pos)?;
        let (upvalues, p2) = read_u8(data, p1)?;
        let (func, p3) = FunctionBlock::parse(data, p2)?;
        Ok((Bytecode { header, upvalues, func }, p3))
    }
}

} // verus!
