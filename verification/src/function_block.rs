//! Function prototypes as loaded from a chunk: a recursive block of
//! metadata, instructions, constants, upvalue descriptors, nested prototypes
//! and optional debug data, parsed in that fixed order.
use vstd::prelude::*;
use crate::constants::parse_constants;
use crate::debug::DebugData;
use crate::error::LoadError;
use crate::instructions::Instruction;
use crate::reader::{read_lua_string, read_u32, read_u8};
use crate::types::Type;
use crate::upvalues::UpvalueInfo;

verus! {


/// `count` consecutive instruction words at `pos`, each decoded.
pub open spec fn spec_parse_code_list(data: Seq<u8>, pos: int, count: int) -> Option<
    (Seq<Instruction>, int),
>
    decreases count,
{
    if count <= 0 {
        Some((Seq::empty(), pos))
    } else {
        match crate::reader::spec_read_u32(data, pos) {
            None => None,
            Some((w, p1)) => match crate::instructions::spec_decode(w) {
                None => None,
                Some(ins) => match spec_parse_code_list(data, p1, count - 1) {
                    None => None,
                    Some((rest, p2)) => Some((seq![ins] + rest, p2)),
                },
            },
        }
    }
}

/// The length-prefixed instruction list at `pos`.
pub open spec fn spec_parse_code(data: Seq<u8>, pos: int) -> Option<(Seq<Instruction>, int)> {
    match crate::reader::spec_read_u32(data, pos) {
        None => None,
        Some((n, p1)) => spec_parse_code_list(data, p1, n as int),
    }
}

/// The flat prefix of a function block at `pos`: everything up to and
/// including the nested-prototype count — source name, line range, parameter
/// count, vararg flag, stack size, instructions, constants, raw upvalue
/// descriptors, and the count itself — with the position right after the
/// count.
pub open spec fn spec_fb_flat(data: Seq<u8>, pos: int) -> Option<
    (
        (
            Option<Seq<u8>>,
            (u32, u32),
            u8,
            bool,
            u8,
            Seq<Instruction>,
            Seq<crate::types::Value>,
            Seq<(bool, u8)>,
            u32,
        ),
        int,
    ),
> {
    match crate::reader::spec_read_lua_string(data, pos) {
        None => None,
        Some((sn, p1)) => match crate::reader::spec_read_u32(data, p1) {
            None => None,
            Some((la, p2)) => match crate::reader::spec_read_u32(data, p2) {
                None => None,
                Some((lb, p3)) => match crate::reader::spec_read_u8(data, p3) {
                    None => None,
                    Some((params, p4)) => match crate::reader::spec_read_u8(data, p4) {
                        None => None,
                        Some((va, p5)) => if va != 0 && va != 2 {
                            None
                        } else {
                            match crate::reader::spec_read_u8(data, p5) {
                                None => None,
                                Some((stack, p6)) => match spec_parse_code(data, p6) {
                                    None => None,
                                    Some((code, p7)) => match crate::constants::spec_parse_constants(
                                        data,
                                        p7,
                                    ) {
                                        None => None,
                                        Some((consts, p8)) => match crate::upvalues::spec_parse_upvalues(
                                            data,
                                            p8,
                                        ) {
                                            None => None,
                                            Some((descs, p9)) => match crate::reader::spec_read_u32(
                                                data,
                                                p9,
                                            ) {
                                                None => None,
                                                Some((n_protos, p10)) => Some(
                                                    (
                                                        (
                                                            sn,
                                                            (la, lb),
                                                            params,
                                                            va == 2,
                                                            stack,
                                                            code,
                                                            consts,
                                                            descs,
                                                            n_protos,
                                                        ),
                                                        p10,
                                                    ),
                                                ),
                                            },
                                        },
                                    },
                                },
                            }
                        },
                    },
                },
            },
        },
    }
}

/// `post` is `pre` with the nearest-enclosing-name rule applied for the
/// enclosing name `name`: a block without a name of its own takes `name`,
/// and the same enclosing name flows through the whole subtree; everything
/// else is untouched.
pub open spec fn spec_propagated(pre: FunctionBlock, post: FunctionBlock, name: Option<Seq<u8>>) -> bool
    decreases pre,
{
    &&& (match pre.source_name {
        Some(_) => post.source_name == pre.source_name,
        None => match (name, post.source_name) {
            (Some(n), Some(rn)) => rn@ == n,
            (None, None) => true,
            _ => false,
        },
    })
    &&& post.lines == pre.lines
    &&& post.amount_parameters == pre.amount_parameters
    &&& post.is_vararg == pre.is_vararg
    &&& post.stack_size == pre.stack_size
    &&& post.instructions == pre.instructions
    &&& post.constants == pre.constants
    &&& post.upvalues == pre.upvalues
    &&& post.debug == pre.debug
    &&& post.protos@.len() == pre.protos@.len()
    &&& forall|d: int|
        0 <= d < pre.protos@.len() ==> spec_propagated(
            pre.protos@[d],
            #[trigger] post.protos@[d],
            name,
        )
}

/// The observable shape of the nearest-ancestor rule: a nested prototype
/// lacks a source name only where its enclosing block lacks one too.
pub open spec fn spec_name_coherent(fb: FunctionBlock) -> bool
    decreases fb,
{
    forall|d: int|
        0 <= d < fb.protos@.len() ==> (((#[trigger] fb.protos@[d]).source_name is None
            ==> fb.source_name is None) && spec_name_coherent(fb.protos@[d]))
}

/// Propagation with an enclosing name leaves no block of the subtree
/// unnamed.
proof fn lemma_propagated_all_named(pre: FunctionBlock, post: FunctionBlock, n: Seq<u8>)
    requires
        spec_propagated(pre, post, Some(n)),
    ensures
        spec_all_named(post),
    decreases pre,
{
    assert forall|d: int| 0 <= d < post.protos@.len() implies spec_all_named(
        #[trigger] post.protos@[d],
    ) by {
        lemma_propagated_all_named(pre.protos@[d], post.protos@[d], n);
    }
}

/// Propagation without an enclosing name changes no name at all, so name
/// coherence carries over.
proof fn lemma_propagated_none(pre: FunctionBlock, post: FunctionBlock)
    requires
        spec_propagated(pre, post, None),
        spec_name_coherent(pre),
    ensures
        spec_name_coherent(post),
        post.source_name is Some <==> pre.source_name is Some,
    decreases pre,
{
    assert forall|d: int| 0 <= d < post.protos@.len() implies spec_name_coherent(
        #[trigger] post.protos@[d],
    ) && ((post.protos@[d]).source_name is None ==> post.source_name is None) by {
        lemma_propagated_none(pre.protos@[d], post.protos@[d]);
    }
}

/// Every block of the subtree carries a source name.
pub open spec fn spec_all_named(fb: FunctionBlock) -> bool
    decreases fb,
{
    fb.source_name is Some && forall|d: int|
        0 <= d < fb.protos@.len() ==> spec_all_named(#[trigger] fb.protos@[d])
}

/// A named subtree is trivially name-coherent.
proof fn lemma_all_named_coherent(fb: FunctionBlock)
    requires
        spec_all_named(fb),
    ensures
        spec_name_coherent(fb),
    decreases fb,
{
    assert forall|d: int| 0 <= d < fb.protos@.len() implies spec_name_coherent(
        #[trigger] fb.protos@[d],
    ) && fb.protos@[d].source_name is Some by {
        lemma_all_named_coherent(fb.protos@[d]);
    }
}

/// What a successful block parse at `pos`, ending at `p`, guarantees of its
/// result: every flat field is the exact decode of its bytes, nested
/// prototypes carry the nearest enclosing name, descriptor names come
/// index-wise from the debug block, and a childless block ends exactly at
/// its decoded debug block.
pub open spec fn spec_fb_parse_result(data: Seq<u8>, pos: int, fb: FunctionBlock, p: int) -> bool {
    &&& (match spec_fb_flat(data, pos) {
        Some((flat, p10)) => ({
            &&& (match (flat.0, fb.source_name) {
                (Some(bytes), Some(have)) => have@ == bytes,
                (None, None) => true,
                _ => false,
            })
            &&& fb.lines == (flat.1.0 as usize, flat.1.1 as usize)
            &&& fb.amount_parameters == flat.2
            &&& fb.is_vararg == flat.3
            &&& fb.stack_size == flat.4
            &&& fb.instructions@ == flat.5
            &&& (forall|m: int|
                0 <= m < fb.instructions@.len() ==> crate::instructions::spec_decode(
                    crate::instructions::spec_encode(#[trigger] fb.instructions@[m]),
                ) == Some(fb.instructions@[m]))
            &&& crate::stack::views(fb.constants@) == flat.6
            &&& crate::upvalues::spec_upvalue_views(fb.upvalues@) == flat.7
            &&& fb.protos@.len() == flat.8
            // with no nested prototypes, the debug block follows the count
            // directly and ends the block
            &&& (flat.8 == 0 ==> crate::debug::spec_parse_debug(data, p10) == Some(
                (crate::debug::spec_debug_view(fb.debug), p),
            ))
        }),
        None => false,
    })
    // nested prototypes carry the nearest enclosing name
    &&& spec_name_coherent(fb)
    &&& (fb.source_name is Some ==> forall|d: int|
        0 <= d < fb.protos@.len() ==> spec_all_named(#[trigger] fb.protos@[d]))
    // descriptor names come index-wise from the debug block
    &&& (match fb.debug {
        Some(db) => (db.line_info@.len() + db.locals@.len() + db.upvalue_names@.len() > 0)
            && forall|k: int|
            0 <= k < fb.upvalues@.len() ==> (match (#[trigger] fb.upvalues@[k]).name {
                Some(nm) => k < db.upvalue_names@.len() && nm@ == db.upvalue_names@[k]@,
                None => k >= db.upvalue_names@.len(),
            }),
        None => forall|k: int|
            0 <= k < fb.upvalues@.len() ==> (#[trigger] fb.upvalues@[k]).name is None,
    })
}

/// One compiled function body, as the chunk stores it.
#[derive(Debug)]
pub struct FunctionBlock {
    pub source_name: Option<Vec<u8>>,
    pub lines: (usize, usize),
    pub amount_parameters: u8,
    pub is_vararg: bool,
    pub stack_size: u8,
    pub instructions: Vec<Instruction>,
    pub constants: Vec<Type>,
    pub protos: Vec<FunctionBlock>,
    pub upvalues: Vec<UpvalueInfo>,
    pub debug: Option<DebugData>,
}

/// Reads the length-prefixed instruction list: each instruction is one
/// little-endian 32-bit word, decoded exactly as `spec_decode` describes.
#[verifier::loop_isolation(false)]
pub fn parse_code(data: &[u8], pos: usize) -> (r: Result<(Vec<Instruction>, usize), LoadError>)
    ensures
        r is Ok <==> spec_parse_code(data@, pos as int) is Some,
        match r {
            Ok((v, p)) => pos < p <= data@.len() && spec_parse_code(data@, pos as int) == Some(
                (v@, p as int),
            ) && forall|m: int|
                0 <= m < v@.len() ==> crate::instructions::spec_decode(
                    crate::instructions::spec_encode(#[trigger] v@[m]),
                ) == Some(v@[m]),
            Err(_) => true,
        },
{
    let (count, mut p) = read_u32(data, pos)?;
    let ghost p1 = p as int;
    let mut v: Vec<Instruction> = Vec::new();
    let mut i: u32 = 0;
    while i < count
        invariant
            pos < p <= data@.len(),
            i <= count,
            v@.len() == i,
            spec_parse_code_list(data@, p1, count as int) == (
            match spec_parse_code_list(data@, p as int, count - i) {
                None => None::<(Seq<Instruction>, int)>,
                Some((rest, pend)) => Some((v@ + rest, pend)),
            }),
            forall|m: int|
                0 <= m < v@.len() ==> crate::instructions::spec_decode(
                    crate::instructions::spec_encode(#[trigger] v@[m]),
                ) == Some(v@[m]),
        decreases count - i,
    {
        let ghost before = v@;
        let (word, p2) = read_u32(data, p)?;
        let instr = match Instruction::decode(word) {
            Ok(x) => x,
            Err(e) => {
                return Err(e);
            },
        };
        proof {
            crate::instructions::lemma_decode_wf(word);
            crate::instructions::lemma_instruction_round_trip(instr);
        }
        v.push(instr);
        proof {
            assert(v@ =~= before + seq![instr]);
            if spec_parse_code_list(data@, p2 as int, count - i - 1) is Some {
                let (rest2, pend2) = spec_parse_code_list(data@, p2 as int, count - i - 1).unwrap();
                assert((before + (seq![instr] + rest2)) =~= ((before + seq![instr]) + rest2));
            }
        }
        p = p2;
        i = i + 1;
    }
    proof {
        assert(v@ + Seq::<Instruction>::empty() =~= v@);
    }
    Ok((v, p))
}

/// Reads the flat prefix of a function block: everything up to and including
/// the nested-prototype count, exactly as `spec_fb_flat` decodes it.
#[verifier::rlimit(100)]
fn parse_flat(data: &[u8], pos: usize) -> (r: Result<
    ((Option<Vec<u8>>, (u32, u32), u8, bool, u8, Vec<Instruction>, Vec<Type>, Vec<UpvalueInfo>, u32), usize),
    LoadError,
>)
    ensures
        r is Ok <==> spec_fb_flat(data@, pos as int) is Some,
        match r {
            Ok((flat, p10)) => pos < p10 <= data@.len() && (match spec_fb_flat(data@, pos as int) {
                Some((sflat, sp10)) => ({
                    &&& sp10 == p10
                    &&& (match (sflat.0, flat.0) {
                        (Some(bytes), Some(have)) => have@ == bytes,
                        (None, None) => true,
                        _ => false,
                    })
                    &&& flat.1 == sflat.1
                    &&& flat.2 == sflat.2
                    &&& flat.3 == sflat.3
                    &&& flat.4 == sflat.4
                    &&& flat.5@ == sflat.5
                    &&& (forall|m: int|
                        0 <= m < flat.5@.len() ==> crate::instructions::spec_decode(
                            crate::instructions::spec_encode(#[trigger] flat.5@[m]),
                        ) == Some(flat.5@[m]))
                    &&& crate::stack::views(flat.6@) == sflat.6
                    &&& crate::upvalues::spec_upvalue_views(flat.7@) == sflat.7
                    &&& forall|k: int|
                        0 <= k < flat.7@.len() ==> (#[trigger] flat.7@[k]).name is None
                    &&& flat.8 == sflat.8
                }),
                None => false,
            }),
            Err(_) => true,
        },
{
    let (source_name, p1) = read_lua_string(data, pos)?;
    proof {
        crate::function_block::lemma_string_read_advances(data@, pos as int);
    }
    let (line_from, p2) = read_u32(data, p1)?;
    let (line_to, p3) = read_u32(data, p2)?;
    let (params, p4) = read_u8(data, p3)?;
    let (vararg, p5) = read_u8(data, p4)?;
    let is_vararg = match vararg {
        0 => false,
        2 => true,
        _ => {
            return Err(LoadError::UnsupportedVararg(vararg));
        },
    };
    let (stack_size, p6) = read_u8(data, p5)?;
    let (instructions, p7) = parse_code(data, p6)?;
    let (constants, p8) = parse_constants(data, p7)?;
    let (upvalues, p9) = UpvalueInfo::parse_list(data, p8)?;
    let (n_protos, p10) = read_u32(data, p9)?;
    Ok(
        (
            (
                source_name,
                (line_from, line_to),
                params,
                is_vararg,
                stack_size,
                instructions,
                constants,
                upvalues,
                n_protos,
            ),
            p10,
        ),
    )
}

impl FunctionBlock {
    /// Parses one function block: source name, line range, parameter count,
    /// vararg flag, stack size, then the instruction, constant, upvalue-
    /// descriptor and nested-prototype lists, and finally the debug block,
    /// whose names are attached to the descriptors. The enclosing source
    /// name is handed into nested prototypes that lack one of their own.
    /// Every field up to the nested prototypes is exactly the decode of its
    /// bytes; a block without nested prototypes is owed success whenever its
    /// flat prefix and its debug block decode.
    #[verifier::loop_isolation(false)]
    #[verifier::rlimit(50)]
    pub fn parse(data: &[u8], pos: usize) -> (r: Result<(FunctionBlock, usize), LoadError>)
        ensures
            (match spec_fb_flat(data@, pos as int) {
                Some((flat, p10)) => flat.8 == 0 && crate::debug::spec_parse_debug(data@, p10)
                    is Some,
                None => false,
            }) ==> r is Ok,
            match r {
                Ok((fb, p)) => pos < p <= data@.len() && spec_fb_parse_result(
                    data@,
                    pos as int,
                    fb,
                    p as int,
                ),
                Err(_) => true,
            },
        decreases data@.len() - pos,
    {
        let (flat, p10) = parse_flat(data, pos)?;
        let (source_name, lines_pair, params, is_vararg, stack_size, instructions, constants, upvalues, n_protos) =
            flat;
        let mut upvalues = upvalues;
        let ghost raw_descs = crate::upvalues::spec_upvalue_views(upvalues@);
        let (line_from, line_to) = lines_pair;
        let mut p = p10;
        let mut protos: Vec<FunctionBlock> = Vec::new();
        let mut i: u32 = 0;
        while i < n_protos
            invariant
                pos < p <= data@.len(),
                i <= n_protos,
                protos@.len() == i,
                n_protos == 0 ==> p == p10,
                forall|q: int| 0 <= q < i ==> spec_name_coherent(#[trigger] protos@[q]),
                source_name is Some ==> forall|q: int|
                    0 <= q < i ==> spec_all_named(#[trigger] protos@[q]),
                forall|q: int|
                    0 <= q < i && (#[trigger] protos@[q]).source_name is None ==> source_name
                        is None,
            decreases n_protos - i,
        {
            let pair = FunctionBlock::parse(data, p)?;
            let ghost raw = pair.0;
            let (proto, pnext) = pair;
            let proto = proto.propagated(&source_name);
            proof {
                match &source_name {
                    Some(nm) => {
                        lemma_propagated_all_named(raw, proto, nm@);
                        lemma_all_named_coherent(proto);
                    },
                    None => {
                        lemma_propagated_none(raw, proto);
                    },
                }
            }
            protos.push(proto);
            p = pnext;
            i = i + 1;
        }
        let (debug, pend) = DebugData::parse(data, p)?;
        match &debug {
            Some(db) => {
                db.update_upvalues(&mut upvalues);
            },
            None => {},
        }
        proof {
            assert(crate::upvalues::spec_upvalue_views(upvalues@) =~= raw_descs);
            if spec_fb_flat(data@, pos as int) is Some {
                let (sflat, sp10) = spec_fb_flat(data@, pos as int).unwrap();
                if sflat.8 == 0 {
                    assert(n_protos == 0);
                    assert(p == sp10);
                    assert(crate::debug::spec_parse_debug(data@, sp10) == Some(
                        (crate::debug::spec_debug_view(debug), pend as int),
                    ));
                }
            }
        }
        Ok(
            (
                FunctionBlock {
                    source_name,
                    lines: (line_from as usize, line_to as usize),
                    amount_parameters: params,
                    is_vararg,
                    stack_size,
                    instructions,
                    constants,
                    protos,
                    upvalues,
                    debug,
                },
                pend,
            ),
        )
    }

    /// The nearest-enclosing-name rule: a prototype without a source name
    /// takes the given enclosing name, and passes the same enclosing name on
    /// through its subtree, so that every unnamed prototype ends up with the
    /// name of its nearest named ancestor.
    #[verifier::loop_isolation(false)]
    pub fn propagated(self, name: &Option<Vec<u8>>) -> (r: FunctionBlock)
        ensures
            spec_propagated(
                self,
                r,
                match *name {
                    Some(n) => Some(n@),
                    None => None,
                },
            ),
        decreases self,
    {
        let FunctionBlock {
            source_name,
            lines,
            amount_parameters,
            is_vararg,
            stack_size,
            instructions,
            constants,
            protos,
            upvalues,
            debug,
        } = self;
        let mut new_protos: Vec<FunctionBlock> = Vec::new();
        let mut rest = protos;
        let ghost orig_rest = rest@;
        let n = rest.len();
        let mut i: usize = 0;
        while i < n
            invariant
                i + rest@.len() == n,
                new_protos@.len() == i,
                forall|q: int| 0 <= q < rest@.len() ==> #[trigger] rest@[q] == orig_rest[i + q],
                n == orig_rest.len(),
                forall|q: int|
                    0 <= q < i ==> spec_propagated(
                        orig_rest[q],
                        #[trigger] new_protos@[q],
                        match *name {
                            Some(nm) => Some(nm@),
                            None => None,
                        },
                    ),
            decreases rest@.len(),
        {
            let sub = rest.remove(0);
            proof {
                assert(sub == orig_rest[i as int]);
                assert(orig_rest == self.protos@);
            }
            let sub = sub.propagated(name);
            new_protos.push(sub);
            i = i + 1;
        }
        let new_name: Option<Vec<u8>> = match source_name {
            Some(v) => Some(v),
            None => match name {
                Some(n) => {
                    let mut copy: Vec<u8> = Vec::new();
                    let mut b: usize = 0;
                    while b < n.len()
                        invariant
                            b <= n@.len(),
                            copy@ =~= n@.subrange(0, b as int),
                        decreases n@.len() - b,
                    {
                        copy.push(n[b]);
                        b = b + 1;
                    }
                    proof {
                        assert(copy@ =~= n@);
                    }
                    Some(copy)
                },
                None => None,
            },
        };
        FunctionBlock {
            source_name: new_name,
            lines,
            amount_parameters,
            is_vararg,
            stack_size,
            instructions,
            constants,
            protos: new_protos,
            upvalues,
            debug,
        }
    }
}

/// A string read consumes at least one byte and never runs past the input.
pub proof fn lemma_string_read_advances(data: Seq<u8>, pos: int)
    ensures
        crate::reader::spec_read_lua_string(data, pos) matches Some((_, p)) ==> pos < p
            <= data.len(),
{
}

} // verus!
