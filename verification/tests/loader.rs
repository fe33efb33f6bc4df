use lua_interpreter::debug::Local;
use lua_interpreter::error::{HeaderField, LoadError};
use lua_interpreter::function_block::FunctionBlock;
use lua_interpreter::header::Header;
use lua_interpreter::constants::decode_constant;
use lua_interpreter::reader::{read_lua_string, write_lua_string};
use lua_interpreter::types::{Number, Type};

fn reference_bytes() -> Vec<u8> {
    vec![
        0x1b, 0x4c, 0x75, 0x61, // signature
        0x53, // version 5.3
        0x00, // format
        0x19, 0x93, 0x0d, 0x0a, 0x1a, 0x0a, // data block
        0x04, 0x08, 0x04, 0x08, 0x08, // widths
        0x78, 0x56, 0x00, 0x00, 0x00, 0x00, 0x00, 0x00, // integer sentinel
        0x00, 0x00, 0x00, 0x00, 0x00, 0x28, 0x77, 0x40, // number sentinel
    ]
}

#[test]
fn header_parses_assignment() {
    // the 33 bytes every compiled chunk starts with
    let data = reference_bytes();
    let (result, pos) = Header::parse(&data, 0).unwrap();
    assert_eq!(33, pos);
    let expected = Header::default();
    assert_eq!(result, expected);
}

#[test]
fn header_serializes_to_reference_bytes() {
    let h = Header::default();
    assert_eq!(h.serialize(), reference_bytes());
}

#[test]
fn header_round_trips() {
    let h = Header::default();
    let bytes = h.serialize();
    let (parsed, pos) = Header::parse(&bytes, 0).unwrap();
    assert_eq!(pos, bytes.len());
    assert_eq!(parsed, h);
    assert_eq!(parsed.serialize(), bytes);
}

#[test]
fn header_rejects_every_single_byte_mutation() {
    let good = reference_bytes();
    for i in 0..33 {
        let mut bad = good.clone();
        bad[i] = bad[i].wrapping_add(1);
        match Header::parse(&bad, 0) {
            Err(LoadError::HeaderMismatch(_)) => {}
            other => panic!("mutation at {} not rejected: {:?}", i, other),
        }
    }
}

#[test]
fn header_mismatch_names_the_field() {
    let mut bad = reference_bytes();
    bad[4] = 0x52; // version byte
    assert_eq!(
        Header::parse(&bad, 0),
        Err(LoadError::HeaderMismatch(HeaderField::Version))
    );
    let mut bad = reference_bytes();
    bad[0] = 0x1c;
    assert_eq!(
        Header::parse(&bad, 0),
        Err(LoadError::HeaderMismatch(HeaderField::Signature))
    );
}

#[test]
fn header_short_input_is_eof() {
    let good = reference_bytes();
    assert_eq!(Header::parse(&good[..20], 0), Err(LoadError::UnexpectedEof));
}

fn encode_string(s: Option<&[u8]>) -> Vec<u8> {
    let mut out = Vec::new();
    let owned = s.map(|b| b.to_vec());
    write_lua_string(&mut out, &owned);
    out
}

#[test]
fn string_absent_round_trips() {
    let enc = encode_string(None);
    assert_eq!(enc, vec![0x00]);
    let (s, pos) = read_lua_string(&enc, 0).unwrap();
    assert_eq!(s, None);
    assert_eq!(pos, 1);
}

#[test]
fn string_empty_round_trips() {
    let enc = encode_string(Some(b""));
    assert_eq!(enc, vec![0x01]);
    let (s, pos) = read_lua_string(&enc, 0).unwrap();
    assert_eq!(s, Some(vec![]));
    assert_eq!(pos, 1);
}

#[test]
fn string_short_prefix_is_length_plus_one() {
    let enc = encode_string(Some(b"abc"));
    assert_eq!(enc[0], 4);
    assert_eq!(&enc[1..], b"abc");
    let (s, pos) = read_lua_string(&enc, 0).unwrap();
    assert_eq!(s, Some(b"abc".to_vec()));
    assert_eq!(pos, enc.len());
}

#[test]
fn string_of_253_bytes_still_uses_one_prefix_byte() {
    let content = vec![0x61u8; 253];
    let enc = encode_string(Some(&content));
    assert_eq!(enc[0], 254);
    assert_eq!(enc.len(), 254);
    let (s, _) = read_lua_string(&enc, 0).unwrap();
    assert_eq!(s, Some(content));
}

#[test]
fn string_of_254_bytes_escapes_to_long_form() {
    // the stored length is content + 1 = 255, which collides with the
    // escape byte, so 254 bytes of content already take the long form
    let content = vec![0x62u8; 254];
    let enc = encode_string(Some(&content));
    assert_eq!(enc[0], 0xff);
    assert_eq!(&enc[1..5], &255u32.to_le_bytes());
    let (s, _) = read_lua_string(&enc, 0).unwrap();
    assert_eq!(s, Some(content));
}

#[test]
fn string_long_round_trips() {
    let content: Vec<u8> = (0..300u32).map(|i| (i % 251) as u8).collect();
    let enc = encode_string(Some(&content));
    assert_eq!(enc[0], 0xff);
    assert_eq!(&enc[1..5], &301u32.to_le_bytes());
    let (s, pos) = read_lua_string(&enc, 0).unwrap();
    assert_eq!(s, Some(content));
    assert_eq!(pos, enc.len());
}

#[test]
fn string_decode_ignores_trailing_input() {
    let mut enc = encode_string(Some(b"xy"));
    enc.extend_from_slice(b"rest");
    let (s, pos) = read_lua_string(&enc, 0).unwrap();
    assert_eq!(s, Some(b"xy".to_vec()));
    assert_eq!(pos, 3);
}

#[test]
fn string_zero_stored_length_is_rejected() {
    let enc = vec![0xffu8, 0, 0, 0, 0];
    assert_eq!(
        read_lua_string(&enc, 0),
        Err(LoadError::InvalidStringLength)
    );
}

#[test]
fn constant_tags_decode() {
    let (t, p) = decode_constant(&[0x00], 0).unwrap();
    assert_eq!(t, Type::Nil);
    assert_eq!(p, 1);
    let (t, _) = decode_constant(&[0x01, 0x01], 0).unwrap();
    assert_eq!(t, Type::Boolean(true));
    let mut data = vec![0x13u8];
    data.extend_from_slice(&42u64.to_le_bytes());
    let (t, _) = decode_constant(&data, 0).unwrap();
    assert_eq!(t, Type::Number(Number::Integer(42)));
    let mut data = vec![0x03u8];
    data.extend_from_slice(&(-0.08333333333f64).to_bits().to_le_bytes());
    let (t, _) = decode_constant(&data, 0).unwrap();
    assert_eq!(t, Type::Number(Number::Float((-0.08333333333f64).to_bits())));
    let data = vec![0x04u8, 0x03, 0x68, 0x69];
    let (t, _) = decode_constant(&data, 0).unwrap();
    assert_eq!(t, Type::String(b"hi".to_vec()));
    assert_eq!(
        decode_constant(&[0x05], 0),
        Err(LoadError::UnsupportedConstantType(5))
    );
    assert_eq!(
        decode_constant(&[0x01, 0x02], 0),
        Err(LoadError::InvalidBoolean(2))
    );
}

#[test]
fn vararg_flag_outside_the_supported_set_is_rejected() {
    let mut data = vec![0x00u8]; // absent source name
    data.extend_from_slice(&0u32.to_le_bytes());
    data.extend_from_slice(&0u32.to_le_bytes());
    data.push(0); // parameters
    data.push(1); // vararg flag outside {0, 2}
    match FunctionBlock::parse(&data, 0) {
        Err(e) => assert_eq!(e, LoadError::UnsupportedVararg(1)),
        Ok(_) => panic!("a vararg flag of 1 must be refused"),
    }
}

#[test]
fn missing_required_string_is_rejected() {
    // a local record whose name is marked absent
    let data = vec![0x00u8, 0, 0, 0, 0, 0, 0, 0, 0];
    match Local::parse(&data, 0) {
        Err(e) => assert_eq!(e, LoadError::MissingString),
        Ok(_) => panic!("an absent local name must be refused"),
    }
}
