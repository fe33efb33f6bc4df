//! Chunk header: validation against the single supported profile
//! (Lua 5.3, format 0, 4/8/4/8/8 byte widths, little-endian, with the two
//! trailing sentinel values), and the matching writer.
use vstd::prelude::*;
use crate::error::{HeaderField, LoadError};

verus! {

/// Platform profile carried by a binary chunk. Exactly one profile loads;
/// every deviation is a fatal `LoadError::HeaderMismatch`.
#[derive(Debug, Clone, Copy)]
pub struct Header {
    pub version: (u8, u8),
    pub format_version: u8,
    pub size_of_int: u8,
    pub size_of_size_t: u8,
    pub size_of_instruction: u8,
    pub size_of_integer: u8,
    pub size_of_number: u8,
}

/// The one header the loader accepts.
pub open spec fn spec_reference_header() -> Header {
    Header {
        version: (5, 3),
        format_version: 0,
        size_of_int: 4,
        size_of_size_t: 8,
        size_of_instruction: 4,
        size_of_integer: 8,
        size_of_number: 8,
    }
}

/// Byte image of a header: signature, version byte, format byte, the literal
/// data block, the five width bytes, then the integer and number sentinels.
pub open spec fn spec_serialize_header(h: Header) -> Seq<u8> {
    seq![
        0x1bu8, 0x4cu8, 0x75u8, 0x61u8,
        ((h.version.0 * 16 + h.version.1) as u8),
        h.format_version,
        0x19u8, 0x93u8, 0x0du8, 0x0au8, 0x1au8, 0x0au8,
        h.size_of_int,
        h.size_of_size_t,
        h.size_of_instruction,
        h.size_of_integer,
        h.size_of_number,
        0x78u8, 0x56u8, 0u8, 0u8, 0u8, 0u8, 0u8, 0u8,
        0u8, 0u8, 0u8, 0u8, 0u8, 0x28u8, 0x77u8, 0x40u8,
    ]
}

/// The 33 bytes that every loadable chunk starts with.
pub open spec fn reference_header_bytes() -> Seq<u8> {
    spec_serialize_header(spec_reference_header())
}

/// Parsing succeeds at `pos` exactly when the full header region is present
/// and equals the reference image.
pub open spec fn spec_header_ok(data: Seq<u8>, pos: int) -> bool {
    &&& 0 <= pos
    &&& pos + 33 <= data.len()
    &&& data.subrange(pos, pos + 33) == reference_header_bytes()
}

impl PartialEq for Header {
    fn eq(&self, other: &Header) -> (r: bool) {
        self.version.0 == other.version.0 && self.version.1 == other.version.1
            && self.format_version == other.format_version && self.size_of_int == other.size_of_int
            && self.size_of_size_t == other.size_of_size_t && self.size_of_instruction
            == other.size_of_instruction && self.size_of_integer == other.size_of_integer
            && self.size_of_number == other.size_of_number
    }
}

impl Eq for Header {

}

impl vstd::std_specs::cmp::PartialEqSpecImpl for Header {
    open spec fn obeys_eq_spec() -> bool {
        true
    }

    open spec fn eq_spec(&self, other: &Header) -> bool {
        *self == *other
    }
}

impl Default for Header {
    /// The reference profile.
    fn default() -> (h: Header)
        ensures
            h == spec_reference_header(),
    {
        Header {
            version: (5, 3),
            format_version: 0,
            size_of_int: 4,
            size_of_size_t: 8,
            size_of_instruction: 4,
            size_of_integer: 8,
            size_of_number: 8,
        }
    }
}

/// The header field that owns byte `i` of the header image.
fn field_of_offset(i: usize) -> HeaderField {
    if i < 4 {
        HeaderField::Signature
    } else if i < 5 {
        HeaderField::Version
    } else if i < 6 {
        HeaderField::FormatVersion
    } else if i < 12 {
        HeaderField::Data
    } else if i < 13 {
        HeaderField::SizeOfInt
    } else if i < 14 {
        HeaderField::SizeOfSizeT
    } else if i < 15 {
        HeaderField::SizeOfInstruction
    } else if i < 16 {
        HeaderField::SizeOfInteger
    } else if i < 17 {
        HeaderField::SizeOfNumber
    } else if i < 25 {
        HeaderField::IntegerSentinel
    } else {
        HeaderField::NumberSentinel
    }
}

impl Header {
    /// Consumes exactly the header region. Returns the reference header when
    /// the bytes match it, `HeaderMismatch` on a full-length deviation, and
    /// `UnexpectedEof` when the input ends inside a field.
    pub fn parse(data: &[u8], pos: usize) -> (r: Result<(Header, usize), LoadError>)
        ensures
            match r {
                Ok((h, p)) => spec_header_ok(data@, pos as int) && h == spec_reference_header()
                    && p == pos + 33,
                Err(e) => !spec_header_ok(data@, pos as int) && (pos + 33 <= data@.len()
                    ==> e matches LoadError::HeaderMismatch(_)),
            },
    {
        let h = Header::default();
        let expected = h.serialize();
        proof {
            assert(expected@ == reference_header_bytes());
            assert(expected@.len() == 33);
        }
        let dlen = data.len();
        if dlen < 33 || pos > dlen - 33 {
            return Err(LoadError::UnexpectedEof);
        }
        let mut i: usize = 0;
        while i < 33
            invariant
                i <= 33,
                pos + 33 <= dlen,
                dlen == data@.len(),
                expected@ == reference_header_bytes(),
                expected@.len() == 33,
                forall|j: int| 0 <= j < i ==> data@[pos + j] == expected@[j],
            decreases 33 - i,
        {
            if data[pos + i] != expected[i] {
                proof {
                    assert(data@.subrange(pos as int, pos as int + 33)[i as int] != expected@[
                        i as int
                    ]);
                }
                return Err(LoadError::HeaderMismatch(field_of_offset(i)));
            }
            i = i + 1;
        }
        proof {
            assert(data@.subrange(pos as int, pos as int + 33) =~= expected@);
        }
        Ok((h, pos + 33))
    }

    /// Writes the byte image of this header.
    pub fn serialize(&self) -> (v: Vec<u8>)
        requires
            self.version.0 <= 15,
            self.version.1 <= 15,
        ensures
            v@ == spec_serialize_header(*self),
    {
        let mut v: Vec<u8> = Vec::new();
        v.push(0x1b);
        v.push(0x4c);
        v.push(0x75);
        v.push(0x61);
        v.push(self.version.0 * 16 + self.version.1);
        v.push(self.format_version);
        v.push(0x19);
        v.push(0x93);
        v.push(0x0d);
        v.push(0x0a);
        v.push(0x1a);
        v.push(0x0a);
        v.push(self.size_of_int);
        v.push(self.size_of_size_t);
        v.push(self.size_of_instruction);
        v.push(self.size_of_integer);
        v.push(self.size_of_number);
        v.push(0x78);
        v.push(0x56);
        v.push(0);
        v.push(0);
        v.push(0);
        v.push(0);
        v.push(0);
        v.push(0);
        v.push(0);
        v.push(0);
        v.push(0);
        v.push(0);
        v.push(0);
        v.push(0x28);
        v.push(0x77);
        v.push(0x40);
        proof {
            assert(v@ =~= spec_serialize_header(*self));
        }
        v
    }
}

/// Serializing the reference header reproduces exactly the bytes the loader
/// accepts, and loading them succeeds: the header round-trips.
pub proof fn lemma_header_round_trip()
    ensures
        spec_serialize_header(spec_reference_header()) == reference_header_bytes(),
        spec_header_ok(reference_header_bytes(), 0),
{
    assert(reference_header_bytes().subrange(0, 33) =~= reference_header_bytes());
}

/// Changing any single byte of the reference header image makes the header
/// check fail; together with `Header::parse`'s contract, loading the mutated
/// image returns a `HeaderMismatch`.
pub proof fn lemma_header_mutation(i: int, b: u8)
    requires
        0 <= i < 33,
        b != reference_header_bytes()[i],
    ensures
        !spec_header_ok(reference_header_bytes().update(i, b), 0),
{
    let mutated = reference_header_bytes().update(i, b);
    assert(mutated.subrange(0, 33)[i] == b);
    assert(reference_header_bytes()[i] != b);
}

} // verus!
