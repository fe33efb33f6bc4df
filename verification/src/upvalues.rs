//! Upvalue descriptors as loaded from a chunk, and the live upvalue cells
//! the engine shares between closures. Open cells form a singly linked list,
//! newest (deepest) first, so closing "everything at or above level L" is a
//! prefix walk; a cell closes exactly once and never reopens.
use vstd::prelude::*;
use crate::error::LoadError;
use crate::reader::{read_u8, read_u32, spec_read_u8};
use crate::stack::StackLevel;
use crate::types::Type;

verus! {


/// One descriptor at `pos`: the in-stack flag byte and the index byte.
pub open spec fn spec_parse_upvalue(data: Seq<u8>, pos: int) -> Option<((bool, u8), int)> {
    match spec_read_u8(data, pos) {
        None => None,
        Some((b0, p1)) => match spec_read_u8(data, p1) {
            None => None,
            Some((b1, p2)) => Some(((b0 > 0, b1), p2)),
        },
    }
}

/// `count` consecutive descriptors at `pos`.
pub open spec fn spec_parse_upvalue_list(data: Seq<u8>, pos: int, count: int) -> Option<
    (Seq<(bool, u8)>, int),
>
    decreases count,
{
    if count <= 0 {
        Some((Seq::empty(), pos))
    } else {
        match spec_parse_upvalue(data, pos) {
            None => None,
            Some((u, p)) => match spec_parse_upvalue_list(data, p, count - 1) {
                None => None,
                Some((rest, p2)) => Some((seq![u] + rest, p2)),
            },
        }
    }
}

/// The length-prefixed descriptor list at `pos`.
pub open spec fn spec_parse_upvalues(data: Seq<u8>, pos: int) -> Option<(Seq<(bool, u8)>, int)> {
    match crate::reader::spec_read_u32(data, pos) {
        None => None,
        Some((n, p1)) => spec_parse_upvalue_list(data, p1, n as int),
    }
}

/// The flag/index views of a descriptor list.
pub open spec fn spec_upvalue_views(s: Seq<UpvalueInfo>) -> Seq<(bool, u8)> {
    s.map_values(|u: UpvalueInfo| (u.instack, u.index))
}

/// A loaded upvalue descriptor. `instack` means "capture the enclosing
/// frame's register at `index`"; otherwise "alias the enclosing closure's
/// upvalue at `index`". The name, when present, comes from debug data.
#[derive(Debug, PartialEq, Eq)]
pub struct UpvalueInfo {
    pub name: Option<Vec<u8>>,
    pub instack: bool,
    pub index: u8,
}

impl UpvalueInfo {
    /// Reads one descriptor: an in-stack flag byte and an index byte. Names
    /// arrive later, from debug data.
    pub fn parse(data: &[u8], pos: usize) -> (r: Result<(UpvalueInfo, usize), LoadError>)
        ensures
            match r {
                Ok((u, p)) => {
                    &&& spec_read_u8(data@, pos as int) matches Some((b0, p1)) && u.instack == (b0
                        > 0) && spec_read_u8(data@, p1) == Some((u.index, p as int))
                    &&& u.name is None
                },
                Err(e) => e == LoadError::UnexpectedEof && pos + 2 > data@.len(),
            },
    {
        let (b0, p1) = read_u8(data, pos)?;
        let (b1, p2) = read_u8(data, p1)?;
        Ok((UpvalueInfo { name: None, instack: b0 > 0, index: b1 }, p2))
    }

    /// Reads the length-prefixed descriptor list; the result is exactly the
    /// decoded flag/index pairs, with no names yet.
    #[verifier::loop_isolation(false)]
    pub fn parse_list(data: &[u8], pos: usize) -> (r: Result<(Vec<UpvalueInfo>, usize), LoadError>)
        ensures
            r is Ok <==> spec_parse_upvalues(data@, pos as int) is Some,
            match r {
                Ok((v, p)) => pos < p <= data@.len() && spec_parse_upvalues(data@, pos as int)
                    == Some((spec_upvalue_views(v@), p as int)) && forall|i: int|
                    0 <= i < v@.len() ==> (#[trigger] v@[i]).name is None,
                Err(e) => e == LoadError::UnexpectedEof,
            },
    {
        let (count, mut p) = read_u32(data, pos)?;
        let ghost p1 = p as int;
        let mut v: Vec<UpvalueInfo> = Vec::new();
        let mut i: u32 = 0;
        while i < count
            invariant
                pos < p <= data@.len(),
                i <= count,
                v@.len() == i,
                forall|k: int| 0 <= k < v@.len() ==> (#[trigger] v@[k]).name is None,
                spec_parse_upvalue_list(data@, p1, count as int) == (
                match spec_parse_upvalue_list(data@, p as int, count - i) {
                    None => None::<(Seq<(bool, u8)>, int)>,
                    Some((rest, pend)) => Some((spec_upvalue_views(v@) + rest, pend)),
                }),
            decreases count - i,
        {
            let ghost before = spec_upvalue_views(v@);
            let (u, p2) = UpvalueInfo::parse(data, p)?;
            let ghost uv = (u.instack, u.index);
            v.push(u);
            proof {
                assert(spec_upvalue_views(v@) =~= before + seq![uv]);
                if spec_parse_upvalue_list(data@, p2 as int, count - i - 1) is Some {
                    let (rest2, pend2) = spec_parse_upvalue_list(
                        data@,
                        p2 as int,
                        count - i - 1,
                    ).unwrap();
                    assert((before + (seq![uv] + rest2)) =~= ((before + seq![uv]) + rest2));
                }
            }
            p = p2;
            i = i + 1;
        }
        proof {
            assert(spec_upvalue_views(v@) + Seq::<(bool, u8)>::empty() =~= spec_upvalue_views(v@));
        }
        Ok((v, p))
    }
}

/// A live upvalue cell. While its frame lives the cell is `Open` and reads
/// and writes go through the stack slot it names; when the frame is popped
/// the cell becomes `Closed` and owns the value the slot last held.
#[derive(Debug)]
pub enum Upvalue {
    Open { position: StackLevel, next: Option<usize> },
    Closed(Type),
}

} // verus!
