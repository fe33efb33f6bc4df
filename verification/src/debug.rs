//! Optional per-prototype debug metadata: source line deltas, local-variable
//! ranges, and upvalue names. Debug data never influences execution; it only
//! attaches names to loaded upvalue descriptors.
use vstd::prelude::*;
use crate::error::LoadError;
use crate::reader::{read_lua_string, read_u32};
use crate::upvalues::UpvalueInfo;

verus! {


/// One local record at `pos`: a required name and two counters.
pub open spec fn spec_parse_local(data: Seq<u8>, pos: int) -> Option<((Seq<u8>, u32, u32), int)> {
    match crate::reader::spec_read_lua_string(data, pos) {
        None => None,
        Some((s, p1)) => match s {
            None => None,
            Some(name) => match crate::reader::spec_read_u32(data, p1) {
                None => None,
                Some((a, p2)) => match crate::reader::spec_read_u32(data, p2) {
                    None => None,
                    Some((b, p3)) => Some(((name, a, b), p3)),
                },
            },
        },
    }
}

/// `count` consecutive 32-bit values at `pos`.
pub open spec fn spec_parse_u32_list(data: Seq<u8>, pos: int, count: int) -> Option<
    (Seq<u32>, int),
>
    decreases count,
{
    if count <= 0 {
        Some((Seq::empty(), pos))
    } else {
        match crate::reader::spec_read_u32(data, pos) {
            None => None,
            Some((v, p)) => match spec_parse_u32_list(data, p, count - 1) {
                None => None,
                Some((rest, p2)) => Some((seq![v] + rest, p2)),
            },
        }
    }
}

/// `count` consecutive local records at `pos`.
pub open spec fn spec_parse_local_list(data: Seq<u8>, pos: int, count: int) -> Option<
    (Seq<(Seq<u8>, u32, u32)>, int),
>
    decreases count,
{
    if count <= 0 {
        Some((Seq::empty(), pos))
    } else {
        match spec_parse_local(data, pos) {
            None => None,
            Some((l, p)) => match spec_parse_local_list(data, p, count - 1) {
                None => None,
                Some((rest, p2)) => Some((seq![l] + rest, p2)),
            },
        }
    }
}

/// `count` consecutive required strings at `pos`.
pub open spec fn spec_parse_name_list(data: Seq<u8>, pos: int, count: int) -> Option<
    (Seq<Seq<u8>>, int),
>
    decreases count,
{
    if count <= 0 {
        Some((Seq::empty(), pos))
    } else {
        match crate::reader::spec_read_lua_string(data, pos) {
            None => None,
            Some((s, p)) => match s {
                None => None,
                Some(name) => match spec_parse_name_list(data, p, count - 1) {
                    None => None,
                    Some((rest, p2)) => Some((seq![name] + rest, p2)),
                },
            },
        }
    }
}

/// The debug block at `pos`: three length-prefixed lists, collapsing to
/// "absent" exactly when all three length prefixes are zero.
pub open spec fn spec_parse_debug(data: Seq<u8>, pos: int) -> Option<
    (Option<(Seq<u32>, Seq<(Seq<u8>, u32, u32)>, Seq<Seq<u8>>)>, int),
> {
    match crate::reader::spec_read_u32(data, pos) {
        None => None,
        Some((n1, p1)) => match spec_parse_u32_list(data, p1, n1 as int) {
            None => None,
            Some((lines, p2)) => match crate::reader::spec_read_u32(data, p2) {
                None => None,
                Some((n2, p3)) => match spec_parse_local_list(data, p3, n2 as int) {
                    None => None,
                    Some((locals, p4)) => match crate::reader::spec_read_u32(data, p4) {
                        None => None,
                        Some((n3, p5)) => match spec_parse_name_list(data, p5, n3 as int) {
                            None => None,
                            Some((names, p6)) => Some(
                                (
                                    if n1 == 0 && n2 == 0 && n3 == 0 {
                                        None
                                    } else {
                                        Some((lines, locals, names))
                                    },
                                    p6,
                                ),
                            ),
                        },
                    },
                },
            },
        },
    }
}

/// The view of a local record.
pub open spec fn spec_local_view(l: Local) -> (Seq<u8>, u32, u32) {
    (l.varname@, l.startpc, l.endpc)
}

/// The views of a local list.
pub open spec fn spec_local_views(s: Seq<Local>) -> Seq<(Seq<u8>, u32, u32)> {
    s.map_values(|l: Local| spec_local_view(l))
}

/// The views of a name list.
pub open spec fn spec_name_views(s: Seq<Vec<u8>>) -> Seq<Seq<u8>> {
    s.map_values(|v: Vec<u8>| v@)
}

/// The view of an optional debug block.
pub open spec fn spec_debug_view(d: Option<DebugData>) -> Option<
    (Seq<u32>, Seq<(Seq<u8>, u32, u32)>, Seq<Seq<u8>>),
> {
    match d {
        None => None,
        Some(db) => Some((db.line_info@, spec_local_views(db.locals@), spec_name_views(db.upvalue_names@))),
    }
}

/// A named local variable together with the instruction range it lives in.
#[derive(Debug, PartialEq, Eq)]
pub struct Local {
    pub varname: Vec<u8>,
    pub startpc: u32,
    pub endpc: u32,
}

impl Local {
    /// Reads one local record: its (required) name and its live range.
    pub fn parse(data: &[u8], pos: usize) -> (r: Result<(Local, usize), LoadError>)
        ensures
            r is Ok <==> spec_parse_local(data@, pos as int) is Some,
            match r {
                Ok((l, p)) => pos < p <= data@.len() && spec_parse_local(data@, pos as int)
                    == Some((spec_local_view(l), p as int)),
                Err(_) => true,
            },
    {
        let (name, p1) = read_lua_string(data, pos)?;
        let varname = match name {
            Some(v) => v,
            None => {
                return Err(LoadError::MissingString);
            },
        };
        let (startpc, p2) = read_u32(data, p1)?;
        let (endpc, p3) = read_u32(data, p2)?;
        Ok((Local { varname, startpc, endpc }, p3))
    }
}

/// The debug block: line deltas per instruction, locals, and upvalue names.
#[derive(Debug, PartialEq, Eq)]
pub struct DebugData {
    pub line_info: Vec<u32>,
    pub locals: Vec<Local>,
    pub upvalue_names: Vec<Vec<u8>>,
}

impl DebugData {
    /// Reads the three length-prefixed debug lists. A block whose three
    /// length prefixes are all zero collapses to "no debug data" — the source
    /// format does not distinguish an all-empty block from an absent one.
    /// The result is exactly the parsed triple.
    #[verifier::loop_isolation(false)]
    pub fn parse(data: &[u8], pos: usize) -> (r: Result<(Option<DebugData>, usize), LoadError>)
        ensures
            r is Ok <==> spec_parse_debug(data@, pos as int) is Some,
            match r {
                Ok((d, p)) => pos < p <= data@.len() && spec_parse_debug(data@, pos as int)
                    == Some((spec_debug_view(d), p as int)) && (d matches Some(db)
                    ==> db.line_info@.len() + db.locals@.len() + db.upvalue_names@.len() > 0),
                Err(_) => true,
            },
    {
        let (n_lines, mut p) = read_u32(data, pos)?;
        let ghost pl = p as int;
        let mut line_info: Vec<u32> = Vec::new();
        let mut i: u32 = 0;
        while i < n_lines
            invariant
                pos < p <= data@.len(),
                i <= n_lines,
                line_info@.len() == i,
                spec_parse_u32_list(data@, pl, n_lines as int) == (
                match spec_parse_u32_list(data@, p as int, n_lines - i) {
                    None => None::<(Seq<u32>, int)>,
                    Some((rest, pend)) => Some((line_info@ + rest, pend)),
                }),
            decreases n_lines - i,
        {
            let ghost before = line_info@;
            let (line, p2) = read_u32(data, p)?;
            line_info.push(line);
            proof {
                assert(line_info@ =~= before + seq![line]);
                if spec_parse_u32_list(data@, p2 as int, n_lines - i - 1) is Some {
                    let (rest2, pend2) = spec_parse_u32_list(
                        data@,
                        p2 as int,
                        n_lines - i - 1,
                    ).unwrap();
                    assert((before + (seq![line] + rest2)) =~= ((before + seq![line]) + rest2));
                }
            }
            p = p2;
            i = i + 1;
        }
        proof {
            assert(line_info@ + Seq::<u32>::empty() =~= line_info@);
        }
        let (n_locals, p1) = read_u32(data, p)?;
        p = p1;
        let ghost plo = p as int;
        let mut locals: Vec<Local> = Vec::new();
        let mut j: u32 = 0;
        while j < n_locals
            invariant
                pos < p <= data@.len(),
                j <= n_locals,
                locals@.len() == j,
                spec_parse_local_list(data@, plo, n_locals as int) == (
                match spec_parse_local_list(data@, p as int, n_locals - j) {
                    None => None::<(Seq<(Seq<u8>, u32, u32)>, int)>,
                    Some((rest, pend)) => Some((spec_local_views(locals@) + rest, pend)),
                }),
            decreases n_locals - j,
        {
            let ghost before = spec_local_views(locals@);
            let (local, p2) = match Local::parse(data, p) {
                Ok(x) => x,
                Err(e) => {
                    return Err(e);
                },
            };
            let ghost lv = spec_local_view(local);
            locals.push(local);
            proof {
                assert(spec_local_views(locals@) =~= before + seq![lv]);
                if spec_parse_local_list(data@, p2 as int, n_locals - j - 1) is Some {
                    let (rest2, pend2) = spec_parse_local_list(
                        data@,
                        p2 as int,
                        n_locals - j - 1,
                    ).unwrap();
                    assert((before + (seq![lv] + rest2)) =~= ((before + seq![lv]) + rest2));
                }
            }
            p = p2;
            j = j + 1;
        }
        proof {
            assert(spec_local_views(locals@) + Seq::<(Seq<u8>, u32, u32)>::empty()
                =~= spec_local_views(locals@));
        }
        let (n_names, p2) = read_u32(data, p)?;
        p = p2;
        let ghost pn = p as int;
        let mut upvalue_names: Vec<Vec<u8>> = Vec::new();
        let mut k: u32 = 0;
        while k < n_names
            invariant
                pos < p <= data@.len(),
                k <= n_names,
                upvalue_names@.len() == k,
                spec_parse_name_list(data@, pn, n_names as int) == (
                match spec_parse_name_list(data@, p as int, n_names - k) {
                    None => None::<(Seq<Seq<u8>>, int)>,
                    Some((rest, pend)) => Some((spec_name_views(upvalue_names@) + rest, pend)),
                }),
            decreases n_names - k,
        {
            let ghost before = spec_name_views(upvalue_names@);
            let (name, p3) = read_lua_string(data, p)?;
            let bytes = match name {
                Some(v) => v,
                None => {
                    return Err(LoadError::MissingString);
                },
            };
            proof {
                crate::function_block::lemma_string_read_advances(data@, p as int);
            }
            let ghost bv = bytes@;
            upvalue_names.push(bytes);
            proof {
                assert(spec_name_views(upvalue_names@) =~= before + seq![bv]);
                if spec_parse_name_list(data@, p3 as int, n_names - k - 1) is Some {
                    let (rest2, pend2) = spec_parse_name_list(
                        data@,
                        p3 as int,
                        n_names - k - 1,
                    ).unwrap();
                    assert((before + (seq![bv] + rest2)) =~= ((before + seq![bv]) + rest2));
                }
            }
            p = p3;
            k = k + 1;
        }
        proof {
            assert(spec_name_views(upvalue_names@) + Seq::<Seq<u8>>::empty() =~= spec_name_views(
                upvalue_names@,
            ));
        }
        if n_lines == 0 && n_locals == 0 && n_names == 0 {
            Ok((None, p))
        } else {
            Ok((Some(DebugData { line_info, locals, upvalue_names }), p))
        }
    }

    /// Attaches this block's upvalue names to the given descriptors, pairing
    /// them in order; descriptors beyond the name list keep their state.
    pub fn update_upvalues(&self, upvalues: &mut Vec<UpvalueInfo>)
        ensures
            final(upvalues)@.len() == old(upvalues)@.len(),
            forall|k: int|
                0 <= k < old(upvalues)@.len() ==> {
                    let u = #[trigger] final(upvalues)@[k];
                    &&& u.instack == old(upvalues)@[k].instack
                    &&& u.index == old(upvalues)@[k].index
                    &&& (k < self.upvalue_names@.len() ==> (match u.name {
                        Some(n) => n@ == self.upvalue_names@[k]@,
                        None => false,
                    }))
                    &&& (k >= self.upvalue_names@.len() ==> u.name == old(upvalues)@[k].name)
                },
    {
        let ghost orig = upvalues@;
        let n = if upvalues.len() <= self.upvalue_names.len() {
            upvalues.len()
        } else {
            self.upvalue_names.len()
        };
        let mut k: usize = 0;
        while k < n
            invariant
                k <= n,
                n <= orig.len(),
                n <= self.upvalue_names@.len(),
                upvalues@.len() == orig.len(),
                forall|q: int|
                    0 <= q < orig.len() ==> {
                        let u = #[trigger] upvalues@[q];
                        &&& u.instack == orig[q].instack
                        &&& u.index == orig[q].index
                        &&& (q < k ==> (match u.name {
                            Some(m) => m@ == self.upvalue_names@[q]@,
                            None => false,
                        }))
                        &&& (q >= k ==> u.name == orig[q].name)
                    },
            decreases n - k,
        {
            let mut name: Vec<u8> = Vec::new();
            let src = &self.upvalue_names[k];
            let mut b: usize = 0;
            while b < src.len()
                invariant
                    b <= src@.len(),
                    name@ =~= src@.subrange(0, b as int),
            decreases src@.len() - b,
            {
                name.push(src[b]);
                b = b + 1;
            }
            proof {
                assert(name@ =~= src@);
            }
            let instack = upvalues[k].instack;
            let index = upvalues[k].index;
            upvalues.set(k, UpvalueInfo { name: Some(name), instack, index });
            k = k + 1;
        }
    }
}

} // verus!
