//! Constant-pool decoding: one type-tag byte selects the payload that
//! follows. Only nil, booleans, numbers and strings can live in a pool.
use vstd::prelude::*;
use crate::error::LoadError;
use crate::reader::{read_lua_string, read_u32, read_u64, read_u8, spec_read_lua_string, spec_read_u64, spec_read_u8};
use crate::types::{Number, Type, Value};

verus! {

/// One constant at `pos`: tag 0 is nil; 1 is a boolean encoded by one byte
/// that must be 0 or 1; 3 and 19 share the number tag, float against integer,
/// both eight little-endian bytes; 4 and 20 share the string tag (short
/// against long, identical decoding), with an absent string reading as nil.
/// `None` for a short read, a foreign tag, or a malformed boolean.
pub open spec fn spec_decode_constant(data: Seq<u8>, pos: int) -> Option<(Value, int)> {
    match spec_read_u8(data, pos) {
        None => None,
        Some((tag, p1)) => if tag == 0 {
            Some((Value::Nil, p1))
        } else if tag == 1 {
            match spec_read_u8(data, p1) {
                None => None,
                Some((b, p2)) => if b == 0 {
                    Some((Value::Boolean(false), p2))
                } else if b == 1 {
                    Some((Value::Boolean(true), p2))
                } else {
                    None
                },
            }
        } else if tag == 3 {
            match spec_read_u64(data, p1) {
                None => None,
                Some((bits, p2)) => Some((Value::Number(Number::Float(bits)), p2)),
            }
        } else if tag == 19 {
            match spec_read_u64(data, p1) {
                None => None,
                Some((bits, p2)) => Some((Value::Number(Number::Integer(bits as i64)), p2)),
            }
        } else if tag == 4 || tag == 20 {
            match spec_read_lua_string(data, p1) {
                None => None,
                Some((s, p2)) => Some(
                    (
                        match s {
                            None => Value::Nil,
                            Some(bytes) => Value::Str(bytes),
                        },
                        p2,
                    ),
                ),
            }
        } else {
            None
        },
    }
}

/// Decodes one constant-pool entry.
pub fn decode_constant(data: &[u8], pos: usize) -> (r: Result<(Type, usize), LoadError>)
    ensures
        match r {
            Ok((t, p)) => spec_decode_constant(data@, pos as int) == Some((t@, p as int)),
            Err(_) => spec_decode_constant(data@, pos as int) is None,
        },
{
    let (tag, p1) = read_u8(data, pos)?;
    if tag == 0 {
        Ok((Type::Nil, p1))
    } else if tag == 1 {
        let (b, p2) = read_u8(data, p1)?;
        if b == 0 {
            Ok((Type::Boolean(false), p2))
        } else if b == 1 {
            Ok((Type::Boolean(true), p2))
        } else {
            Err(LoadError::InvalidBoolean(b))
        }
    } else if tag == 3 {
        let (bits, p2) = read_u64(data, p1)?;
        Ok((Type::Number(Number::Float(bits)), p2))
    } else if tag == 19 {
        let (bits, p2) = read_u64(data, p1)?;
        Ok((Type::Number(Number::Integer(bits as i64)), p2))
    } else if tag == 4 || tag == 20 {
        let (s, p2) = read_lua_string(data, p1)?;
        match s {
            None => Ok((Type::Nil, p2)),
            Some(bytes) => Ok((Type::String(bytes), p2)),
        }
    } else {
        Err(LoadError::UnsupportedConstantType(tag))
    }
}

/// `count` consecutive constants at `pos`.
pub open spec fn spec_parse_constant_list(data: Seq<u8>, pos: int, count: int) -> Option<
    (Seq<Value>, int),
>
    decreases count,
{
    if count <= 0 {
        Some((Seq::empty(), pos))
    } else {
        match spec_decode_constant(data, pos) {
            None => None,
            Some((v, p)) => match spec_parse_constant_list(data, p, count - 1) {
                None => None,
                Some((rest, p2)) => Some((seq![v] + rest, p2)),
            },
        }
    }
}

/// The length-prefixed constant list at `pos`.
pub open spec fn spec_parse_constants(data: Seq<u8>, pos: int) -> Option<(Seq<Value>, int)> {
    match crate::reader::spec_read_u32(data, pos) {
        None => None,
        Some((n, p1)) => spec_parse_constant_list(data, p1, n as int),
    }
}

/// Reads the length-prefixed constant list; the result is exactly the
/// decoded sequence.
#[verifier::loop_isolation(false)]
pub fn parse_constants(data: &[u8], pos: usize) -> (r: Result<(Vec<Type>, usize), LoadError>)
    ensures
        r is Ok <==> spec_parse_constants(data@, pos as int) is Some,
        match r {
            Ok((v, p)) => pos < p <= data@.len() && spec_parse_constants(data@, pos as int)
                == Some((crate::stack::views(v@), p as int)),
            Err(_) => true,
        },
{
    let (count, mut p) = read_u32(data, pos)?;
    let ghost p1 = p as int;
    let mut v: Vec<Type> = Vec::new();
    let mut i: u32 = 0;
    while i < count
        invariant
            pos < p <= data@.len(),
            i <= count,
            v@.len() == i,
            spec_parse_constant_list(data@, p1, count as int) == (
            match spec_parse_constant_list(data@, p as int, count - i) {
                None => None::<(Seq<Value>, int)>,
                Some((rest, pend)) => Some((crate::stack::views(v@) + rest, pend)),
            }),
        decreases count - i,
    {
        let ghost before = crate::stack::views(v@);
        let (t, p2) = match decode_constant(data, p) {
            Ok(x) => x,
            Err(e) => {
                return Err(e);
            },
        };
        proof {
            crate::constants::lemma_decode_constant_advances(data@, p as int);
        }
        v.push(t);
        proof {
            assert(crate::stack::views(v@) =~= before + seq![t@]);
            if spec_parse_constant_list(data@, p2 as int, count - i - 1) is Some {
                let (rest2, pend2) = spec_parse_constant_list(
                    data@,
                    p2 as int,
                    count - i - 1,
                ).unwrap();
                assert((before + (seq![t@] + rest2)) =~= ((before + seq![t@]) + rest2));
            }
        }
        p = p2;
        i = i + 1;
    }
    proof {
        assert(crate::stack::views(v@) + Seq::<Value>::empty() =~= crate::stack::views(v@));
    }
    Ok((v, p))
}

/// A decoded constant consumes at least its tag byte and never runs past the
/// input.
pub proof fn lemma_decode_constant_advances(data: Seq<u8>, pos: int)
    ensures
        spec_decode_constant(data, pos) matches Some((_, p)) ==> pos < p <= data.len(),
{
}

} // verus!
