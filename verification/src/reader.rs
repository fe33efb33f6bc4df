//! Primitive readers over a byte slice: fixed-width little-endian integers,
//! byte-exact literals, and the length-prefixed string format of the chunk.
use vstd::prelude::*;
use crate::error::LoadError;

verus! {

/// Value of four little-endian bytes.
pub open spec fn spec_u32_of(b0: u8, b1: u8, b2: u8, b3: u8) -> u32 {
    (b0 as u32 + b1 as u32 * 0x100 + b2 as u32 * 0x10000 + b3 as u32 * 0x1000000) as u32
}

/// Value of eight little-endian bytes.
pub open spec fn spec_u64_of(b: Seq<u8>) -> u64
    recommends
        b.len() == 8,
{
    (b[0] as u64
        + b[1] as u64 * 0x100
        + b[2] as u64 * 0x10000
        + b[3] as u64 * 0x1000000
        + b[4] as u64 * 0x100000000
        + b[5] as u64 * 0x10000000000
        + b[6] as u64 * 0x1000000000000
        + b[7] as u64 * 0x100000000000000) as u64
}

/// One byte at `pos`, advancing the position; `None` on a short read.
pub open spec fn spec_read_u8(data: Seq<u8>, pos: int) -> Option<(u8, int)> {
    if 0 <= pos && pos + 1 <= data.len() {
        Some((data[pos], pos + 1))
    } else {
        None
    }
}

pub open spec fn spec_read_u32(data: Seq<u8>, pos: int) -> Option<(u32, int)> {
    if 0 <= pos && pos + 4 <= data.len() {
        Some((spec_u32_of(data[pos], data[pos + 1], data[pos + 2], data[pos + 3]), pos + 4))
    } else {
        None
    }
}

pub open spec fn spec_read_u64(data: Seq<u8>, pos: int) -> Option<(u64, int)> {
    if 0 <= pos && pos + 8 <= data.len() {
        Some((spec_u64_of(data.subrange(pos, pos + 8)), pos + 8))
    } else {
        None
    }
}

/// `n` raw bytes at `pos`.
pub open spec fn spec_read_bytes(data: Seq<u8>, pos: int, n: int) -> Option<(Seq<u8>, int)> {
    if 0 <= pos && 0 <= n && pos + n <= data.len() {
        Some((data.subrange(pos, pos + n), pos + n))
    } else {
        None
    }
}

/// A length-prefixed string at `pos`: one prefix byte, where `0x00` encodes
/// "absent", `0xFF` escapes to a four-byte little-endian length, and any other
/// byte is the length itself; the stored length counts the content plus one
/// (the trailing NUL of the source format), so the payload is one byte
/// shorter. `None` stands for a short read or a stored length of zero.
pub open spec fn spec_read_lua_string(data: Seq<u8>, pos: int) -> Option<(Option<Seq<u8>>, int)> {
    match spec_read_u8(data, pos) {
        None => None,
        Some((b, p1)) => if b == 0 {
            Some((None, p1))
        } else if b == 0xFF {
            match spec_read_u32(data, p1) {
                None => None,
                Some((n, p2)) => if n == 0 {
                    None
                } else {
                    match spec_read_bytes(data, p2, n - 1) {
                        None => None,
                        Some((s, p3)) => Some((Some(s), p3)),
                    }
                },
            }
        } else {
            match spec_read_bytes(data, p1, b - 1) {
                None => None,
                Some((s, p2)) => Some((Some(s), p2)),
            }
        },
    }
}

/// Byte image of an optional string under the length-prefix scheme: the
/// stored length is the content length plus one, spilling into the four-byte
/// form behind `0xFF` once it no longer fits a single byte.
pub open spec fn spec_encode_lua_string(s: Option<Seq<u8>>) -> Seq<u8> {
    match s {
        None => seq![0u8],
        Some(s) => if s.len() + 1 < 255 {
            seq![(s.len() + 1) as u8] + s
        } else {
            seq![
                0xFFu8,
                (((s.len() + 1) as u32) & 0xFF) as u8,
                ((((s.len() + 1) as u32) >> 8) & 0xFF) as u8,
                ((((s.len() + 1) as u32) >> 16) & 0xFF) as u8,
                ((((s.len() + 1) as u32) >> 24) & 0xFF) as u8,
            ] + s
        },
    }
}

pub fn read_u8(data: &[u8], pos: usize) -> (r: Result<(u8, usize), LoadError>)
    ensures
        match r {
            Ok((b, p)) => spec_read_u8(data@, pos as int) == Some((b, p as int)),
            Err(e) => spec_read_u8(data@, pos as int) is None && e == LoadError::UnexpectedEof,
        },
{
    if pos < data.len() {
        Ok((data[pos], pos + 1))
    } else {
        Err(LoadError::UnexpectedEof)
    }
}

pub fn read_u32(data: &[u8], pos: usize) -> (r: Result<(u32, usize), LoadError>)
    ensures
        match r {
            Ok((v, p)) => spec_read_u32(data@, pos as int) == Some((v, p as int)),
            Err(e) => spec_read_u32(data@, pos as int) is None && e == LoadError::UnexpectedEof,
        },
{
    if pos < data.len() && data.len() - pos >= 4 {
        let v = data[pos] as u32 + data[pos + 1] as u32 * 0x100 + data[pos + 2] as u32 * 0x10000
            + data[pos + 3] as u32 * 0x1000000;
        Ok((v, pos + 4))
    } else {
        Err(LoadError::UnexpectedEof)
    }
}

pub fn read_u64(data: &[u8], pos: usize) -> (r: Result<(u64, usize), LoadError>)
    ensures
        match r {
            Ok((v, p)) => spec_read_u64(data@, pos as int) == Some((v, p as int)),
            Err(e) => spec_read_u64(data@, pos as int) is None && e == LoadError::UnexpectedEof,
        },
{
    if pos < data.len() && data.len() - pos >= 8 {
        let v = data[pos] as u64 + data[pos + 1] as u64 * 0x100 + data[pos + 2] as u64 * 0x10000
            + data[pos + 3] as u64 * 0x1000000 + data[pos + 4] as u64 * 0x100000000
            + data[pos + 5] as u64 * 0x10000000000 + data[pos + 6] as u64 * 0x1000000000000
            + data[pos + 7] as u64 * 0x100000000000000;
        proof {
            let sub = data@.subrange(pos as int, pos as int + 8);
            assert(sub[0] == data@[pos as int]);
            assert(sub[1] == data@[pos as int + 1]);
            assert(sub[2] == data@[pos as int + 2]);
            assert(sub[3] == data@[pos as int + 3]);
            assert(sub[4] == data@[pos as int + 4]);
            assert(sub[5] == data@[pos as int + 5]);
            assert(sub[6] == data@[pos as int + 6]);
            assert(sub[7] == data@[pos as int + 7]);
        }
        Ok((v, pos + 8))
    } else {
        Err(LoadError::UnexpectedEof)
    }
}

pub fn read_bytes(data: &[u8], pos: usize, n: usize) -> (r: Result<(Vec<u8>, usize), LoadError>)
    ensures
        match r {
            Ok((v, p)) => spec_read_bytes(data@, pos as int, n as int) == Some((v@, p as int)),
            Err(e) => spec_read_bytes(data@, pos as int, n as int) is None && e
                == LoadError::UnexpectedEof,
        },
{
    if pos <= data.len() && data.len() - pos >= n {
        let mut v: Vec<u8> = Vec::new();
        let mut i: usize = 0;
        while i < n
            invariant
                i <= n,
                pos + n <= data.len(),
                v@ =~= data@.subrange(pos as int, pos as int + i as int),
            decreases n - i,
        {
            v.push(data[pos + i]);
            i = i + 1;
        }
        assert(v@ =~= data@.subrange(pos as int, pos as int + n as int));
        Ok((v, pos + n))
    } else {
        Err(LoadError::UnexpectedEof)
    }
}

/// Reads an optional length-prefixed string.
pub fn read_lua_string(data: &[u8], pos: usize) -> (r: Result<
    (Option<Vec<u8>>, usize),
    LoadError,
>)
    ensures
        match r {
            Ok((s, p)) => {
                let sspec = match s {
                    Some(v) => Some(v@),
                    None => None,
                };
                spec_read_lua_string(data@, pos as int) == Some((sspec, p as int))
            },
            Err(e) => spec_read_lua_string(data@, pos as int) is None && (e
                == LoadError::UnexpectedEof || e == LoadError::InvalidStringLength),
        },
{
    let (b, p1) = read_u8(data, pos)?;
    if b == 0 {
        Ok((None, p1))
    } else if b == 0xFF {
        let (n, p2) = read_u32(data, p1)?;
        if n == 0 {
            return Err(LoadError::InvalidStringLength);
        }
        let (s, p3) = read_bytes(data, p2, (n - 1) as usize)?;
        Ok((Some(s), p3))
    } else {
        let (s, p2) = read_bytes(data, p1, (b - 1) as usize)?;
        Ok((Some(s), p2))
    }
}

/// Writes the byte image of an optional string onto `out`.
pub fn write_lua_string(out: &mut Vec<u8>, s: &Option<Vec<u8>>)
    requires
        match *s {
            Some(v) => v@.len() + 1 <= 0xFFFFFFFF,
            None => true,
        },
    ensures
        final(out)@ == old(out)@ + spec_encode_lua_string(match *s {
            Some(v) => Some(v@),
            None => None,
        }),
{
    match s {
        None => {
            out.push(0);
            assert(out@ =~= old(out)@ + spec_encode_lua_string(None::<Seq<u8>>));
        },
        Some(v) => {
            let stored: u64 = v.len() as u64 + 1;
            if stored < 255 {
                out.push(stored as u8);
            } else {
                out.push(0xFF);
                let n = stored as u32;
                out.push((n & 0xFF) as u8);
                out.push(((n >> 8) & 0xFF) as u8);
                out.push(((n >> 16) & 0xFF) as u8);
                out.push(((n >> 24) & 0xFF) as u8);
            }
            let ghost mid = out@;
            let mut i: usize = 0;
            while i < v.len()
                invariant
                    i <= v@.len(),
                    out@ == mid + v@.subrange(0, i as int),
                decreases v@.len() - i,
            {
                out.push(v[i]);
                assert(out@ =~= mid + v@.subrange(0, i as int + 1));
                i = i + 1;
            }
            proof {
                assert(v@.subrange(0, v@.len() as int) =~= v@);
                assert(out@ =~= old(out)@ + spec_encode_lua_string(Some(v@)));
            }
        },
    }
}

/// Little-endian reassembly of the four bytes of a 32-bit value.
proof fn lemma_u32_le_round_trip(v: u32)
    ensures
        spec_u32_of((v & 0xFF) as u8, ((v >> 8) & 0xFF) as u8, ((v >> 16) & 0xFF) as u8, ((v >> 24)
            & 0xFF) as u8) == v,
{
    assert(((v & 0xFF) as u8) as u32 + (((v >> 8) & 0xFF) as u8) as u32 * 0x100 + (((v >> 16)
        & 0xFF) as u8) as u32 * 0x10000 + (((v >> 24) & 0xFF) as u8) as u32 * 0x1000000 == v)
        by (bit_vector);
}

/// Decoding an encoded string recovers it exactly, whatever follows it in the
/// input: the string format round-trips, for every string (the empty string
/// included) and for the absent case.
pub proof fn lemma_string_round_trip(s: Option<Seq<u8>>, rest: Seq<u8>)
    requires
        match s {
            Some(v) => v.len() + 1 <= 0xFFFFFFFF,
            None => true,
        },
    ensures
        spec_read_lua_string(spec_encode_lua_string(s) + rest, 0) == Some(
            (s, spec_encode_lua_string(s).len() as int),
        ),
{
    let enc = spec_encode_lua_string(s);
    let data = enc + rest;
    match s {
        None => {
            assert(data[0] == 0);
        },
        Some(v) => {
            let stored = (v.len() + 1) as u32;
            if v.len() + 1 < 255 {
                assert(data[0] == (v.len() + 1) as u8);
                let b = (v.len() + 1) as u8;
                assert(b != 0 && b != 0xFF);
                assert(b - 1 == v.len());
                assert(spec_read_bytes(data, 1, v.len() as int) == Some(
                    (data.subrange(1, 1 + v.len() as int), 1 + v.len() as int),
                ));
                assert(data.subrange(1, 1 + v.len() as int) =~= v);
            } else {
                assert(data[0] == 0xFF);
                assert(data[1] == (stored & 0xFF) as u8);
                assert(data[2] == ((stored >> 8) & 0xFF) as u8);
                assert(data[3] == ((stored >> 16) & 0xFF) as u8);
                assert(data[4] == ((stored >> 24) & 0xFF) as u8);
                lemma_u32_le_round_trip(stored);
                assert(spec_read_u32(data, 1) == Some((stored, 5int)));
                assert(stored != 0);
                assert(stored - 1 == v.len());
                assert(spec_read_bytes(data, 5, v.len() as int) == Some(
                    (data.subrange(5, 5 + v.len() as int), 5 + v.len() as int),
                ));
                assert(data.subrange(5, 5 + v.len() as int) =~= v);
            }
        },
    }
}

/// The length prefix of a short string is its byte length plus one, in a
/// single byte; from 254 bytes of content on, the prefix escapes to `0xFF`
/// followed by the four-byte stored length.
pub proof fn lemma_string_prefix(v: Seq<u8>)
    requires
        v.len() + 1 <= 0xFFFFFFFF,
    ensures
        v.len() < 254 ==> spec_encode_lua_string(Some(v)) == seq![(v.len() + 1) as u8] + v,
        v.len() >= 254 ==> spec_encode_lua_string(Some(v))[0] == 0xFF
            && spec_u32_of(
            spec_encode_lua_string(Some(v))[1],
            spec_encode_lua_string(Some(v))[2],
            spec_encode_lua_string(Some(v))[3],
            spec_encode_lua_string(Some(v))[4],
        ) == v.len() + 1,
{
    if v.len() >= 254 {
        lemma_u32_le_round_trip((v.len() + 1) as u32);
    }
}

} // verus!
