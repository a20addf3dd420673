use std::rc::Rc;
use uapi::OwnedFd;
use wirecore::schema::Type;
use wirecore::wire::{
    decode_frame, decode_payload, encode_message, parse_header, Arg, ArrayArg, DecodeError, Fixed,
    Header, MsgFormatter, MsgParser, ToolClientError,
};

fn fd(raw: i32) -> Rc<OwnedFd> {
    Rc::new(OwnedFd::new(raw))
}

fn words(ws: &[u32]) -> Vec<u8> {
    ws.iter().flat_map(|w| w.to_le_bytes()).collect()
}

fn all_types() -> Vec<Type> {
    vec![
        Type::Id(b"WlSurface".to_vec()),
        Type::U32,
        Type::I32,
        Type::Fixed,
        Type::Str,
        Type::BStr,
        Type::Fd,
        Type::Array(Box::new(Type::U32)),
        Type::Array(Box::new(Type::I32)),
        Type::Array(Box::new(Type::Fixed)),
        Type::Array(Box::new(Type::Id(b"WlOutput".to_vec()))),
        Type::Fd,
    ]
}

fn assert_same(a: &Arg, b: &Arg) {
    match (a, b) {
        (Arg::Object(x), Arg::Object(y)) => assert_eq!(x, y),
        (Arg::Uint(x), Arg::Uint(y)) => assert_eq!(x, y),
        (Arg::Int(x), Arg::Int(y)) => assert_eq!(x, y),
        (Arg::Fixed(x), Arg::Fixed(y)) => assert_eq!(x, y),
        (Arg::Str(x), Arg::Str(y)) => assert_eq!(x, y),
        (Arg::Bytes(x), Arg::Bytes(y)) => assert_eq!(x, y),
        (Arg::Fd(x), Arg::Fd(y)) => assert!(Rc::ptr_eq(x, y)),
        (Arg::Array(ArrayArg::Uints(x)), Arg::Array(ArrayArg::Uints(y))) => assert_eq!(x, y),
        (Arg::Array(ArrayArg::Objects(x)), Arg::Array(ArrayArg::Objects(y))) => assert_eq!(x, y),
        (Arg::Array(ArrayArg::Ints(x)), Arg::Array(ArrayArg::Ints(y))) => assert_eq!(x, y),
        (Arg::Array(ArrayArg::Fixeds(x)), Arg::Array(ArrayArg::Fixeds(y))) => assert_eq!(x, y),
        _ => panic!("{:?} differs from {:?}", a, b),
    }
}

fn round_trip(args: Vec<Arg>, copy: Vec<Arg>, types: Vec<Type>) {
    let (bytes, fds) = encode_message(9, 3, args);
    let d = match decode_frame(&types, &bytes, fds) {
        Ok(d) => d,
        Err(e) => panic!("decode failed: {:?}", e),
    };
    assert_eq!(d.header, Header { object: 9, len: bytes.len() as u32, opcode: 3 });
    assert_eq!(d.args.len(), copy.len());
    for (a, b) in d.args.iter().zip(copy.iter()) {
        assert_same(a, b);
    }
    assert!(d.fds.is_empty());
}

#[test]
fn round_trip_every_field_kind() {
    let f1 = fd(-1);
    let f2 = fd(-1);
    let make = || {
        vec![
            Arg::Object(7),
            Arg::Uint(u32::MAX),
            Arg::Int(i32::MIN),
            Arg::Fixed(Fixed(-256)),
            Arg::Str("text/plain;charset=utf-8 ✓".to_string()),
            Arg::Bytes(vec![0xff, 0, 1]),
            Arg::Fd(f1.clone()),
            Arg::Array(ArrayArg::Uints(vec![1, u32::MAX])),
            Arg::Array(ArrayArg::Ints(vec![-1, i32::MAX])),
            Arg::Array(ArrayArg::Fixeds(vec![Fixed(1), Fixed(-1)])),
            Arg::Array(ArrayArg::Objects(vec![3])),
            Arg::Fd(f2.clone()),
        ]
    };
    round_trip(make(), make(), all_types());
}

#[test]
fn round_trip_empty_values() {
    let make = || {
        vec![
            Arg::Str(String::new()),
            Arg::Bytes(Vec::new()),
            Arg::Array(ArrayArg::Uints(Vec::new())),
            Arg::Int(i32::MAX),
            Arg::Uint(0),
        ]
    };
    let types = vec![Type::Str, Type::BStr, Type::Array(Box::new(Type::U32)), Type::I32, Type::U32];
    round_trip(make(), make(), types);
    round_trip(Vec::new(), Vec::new(), Vec::new());
}

#[test]
fn string_layout_on_the_wire() {
    let mut f = MsgFormatter::new();
    f.string("abc");
    assert_eq!(f.buf, vec![4, 0, 0, 0, b'a', b'b', b'c', 0]);
    let mut f = MsgFormatter::new();
    f.string("abcd");
    assert_eq!(f.buf, vec![5, 0, 0, 0, b'a', b'b', b'c', b'd', 0, 0, 0, 0]);
    let mut f = MsgFormatter::new();
    f.bstr(b"");
    assert_eq!(f.buf, vec![1, 0, 0, 0, 0, 0, 0, 0]);
    let mut f = MsgFormatter::new();
    f.array(&ArrayArg::Ints(vec![-2]));
    assert_eq!(f.buf, vec![4, 0, 0, 0, 0xfe, 0xff, 0xff, 0xff]);
    let mut f = MsgFormatter::new();
    f.sint(-1);
    f.fixed(Fixed(256));
    f.object(0);
    assert_eq!(f.buf, words(&[u32::MAX, 256, 0]));
    assert!(f.fds.is_empty());
}

#[test]
fn ping_frame_bytes() {
    let (bytes, fds) = encode_message(5, 0, vec![Arg::Uint(42)]);
    assert_eq!(bytes, words(&[5, 12 << 16, 42]));
    assert!(fds.is_empty());
    let d = decode_frame(&vec![Type::U32], &bytes, Vec::new()).unwrap();
    assert_eq!(d.header, Header { object: 5, len: 12, opcode: 0 });
    assert!(matches!(d.args[..], [Arg::Uint(42)]));
}

#[test]
fn header_length_checks() {
    assert_eq!(parse_header(1, 4 << 16), Err(ToolClientError::MsgLenTooSmall));
    assert_eq!(parse_header(1, (11 << 16) | 2), Err(ToolClientError::UnalignedMessage));
    assert_eq!(parse_header(1, (12 << 16) | 2), Ok(Header { object: 1, len: 12, opcode: 2 }));
    assert_eq!(parse_header(1, 8 << 16), Ok(Header { object: 1, len: 8, opcode: 0 }));
}

#[test]
fn frame_of_twelve_bytes_holds_one_word() {
    let bytes = words(&[1, 12 << 16, 77]);
    let d = decode_frame(&vec![Type::U32], &bytes, Vec::new()).unwrap();
    assert!(matches!(d.args[..], [Arg::Uint(77)]));
    assert_eq!(
        decode_frame(&vec![Type::U32, Type::U32], &bytes, Vec::new()).err(),
        Some(ToolClientError::Parsing(DecodeError::UnexpectedEof))
    );
    assert_eq!(
        decode_frame(&Vec::new(), &bytes, Vec::new()).err(),
        Some(ToolClientError::Parsing(DecodeError::TrailingBytes))
    );
    assert_eq!(
        decode_frame(&vec![Type::U32], &words(&[1, 4 << 16, 77]), Vec::new()).err(),
        Some(ToolClientError::MsgLenTooSmall)
    );
    assert_eq!(
        decode_frame(&vec![Type::U32], &words(&[1, 11 << 16, 77]), Vec::new()).err(),
        Some(ToolClientError::UnalignedMessage)
    );
    assert_eq!(
        decode_frame(&vec![Type::U32], &words(&[1, 16 << 16, 77]), Vec::new()).err(),
        Some(ToolClientError::Parsing(DecodeError::UnexpectedEof))
    );
    assert_eq!(
        decode_frame(&vec![Type::U32], &[1, 0, 0], Vec::new()).err(),
        Some(ToolClientError::Parsing(DecodeError::UnexpectedEof))
    );
}

#[test]
fn frame_stops_at_its_length() {
    let mut bytes = words(&[1, 12 << 16, 77]);
    bytes.extend_from_slice(&words(&[2, 8 << 16]));
    let d = decode_frame(&vec![Type::U32], &bytes, Vec::new()).unwrap();
    assert_eq!(d.header.len, 12);
}

#[test]
fn decode_errors() {
    let e = |ts: Vec<Type>, b: Vec<u8>| decode_payload(&ts, &b, Vec::new()).err();
    assert_eq!(e(vec![Type::U32], vec![1, 2]), Some(DecodeError::UnexpectedEof));
    assert_eq!(e(vec![Type::Str], words(&[0])), Some(DecodeError::MissingNul));
    assert_eq!(e(vec![Type::BStr], vec![2, 0, 0, 0, b'a', b'b', 0, 0]), Some(DecodeError::MissingNul));
    assert_eq!(e(vec![Type::Str], vec![2, 0, 0, 0, 0xff, 0, 0, 0]), Some(DecodeError::NonUtf8));
    assert_eq!(e(vec![Type::Str], vec![9, 0, 0, 0, b'a', 0, 0, 0]), Some(DecodeError::UnexpectedEof));
    assert_eq!(e(vec![Type::Array(Box::new(Type::U32))], words(&[6, 0, 0])), Some(DecodeError::UnalignedArray));
    assert_eq!(e(vec![Type::Array(Box::new(Type::U32))], words(&[8, 0])), Some(DecodeError::UnexpectedEof));
    assert_eq!(e(vec![Type::Array(Box::new(Type::Str))], words(&[4, 0])), Some(DecodeError::UnsupportedType));
    assert_eq!(e(vec![Type::Fd], Vec::new()), Some(DecodeError::MissingFd));
    assert_eq!(e(vec![Type::U32], words(&[1, 2])), Some(DecodeError::TrailingBytes));
}

#[test]
fn parser_reads_in_order() {
    let mut b = words(&[7, u32::MAX, 0xffff_ff00]);
    b.extend_from_slice(&[3, 0, 0, 0, b'h', b'i', 0, 0]);
    let f = fd(-1);
    let mut p = MsgParser::new(&b, vec![f.clone()]);
    assert_eq!(p.object(), Ok(7));
    assert_eq!(p.sint(), Ok(-1));
    assert_eq!(p.fixed(), Ok(Fixed(-256)));
    assert_eq!(p.str(), Ok("hi"));
    assert!(Rc::ptr_eq(&p.fd().unwrap(), &f));
    assert_eq!(p.fd().err(), Some(DecodeError::MissingFd));
    assert!(p.at_end());
    assert_eq!(p.uint(), Err(DecodeError::UnexpectedEof));
}

#[test]
fn array_elements_are_decoded_each() {
    let b = words(&[8, u32::MAX, 1]);
    let mut p = MsgParser::new(&b, Vec::new());
    match p.array(&Type::I32) {
        Ok(ArrayArg::Ints(v)) => assert_eq!(v, vec![-1, 1]),
        other => panic!("{:?}", other),
    }
    let mut p = MsgParser::new(&b, Vec::new());
    match p.array(&Type::Fixed) {
        Ok(ArrayArg::Fixeds(v)) => assert_eq!(v, vec![Fixed(-1), Fixed(1)]),
        other => panic!("{:?}", other),
    }
    let mut p = MsgParser::new(&b, Vec::new());
    match p.array(&Type::Id(b"X".to_vec())) {
        Ok(ArrayArg::Objects(v)) => assert_eq!(v, vec![u32::MAX, 1]),
        other => panic!("{:?}", other),
    }
}

#[test]
fn borrowed_reads_point_into_the_payload() {
    let b = vec![3, 0, 0, 0, b'o', b'k', 0, 0, 2, 0, 0, 0, 0xc3, 0, 0, 0];
    let mut p = MsgParser::new(&b, Vec::new());
    assert_eq!(p.bstr(), Ok(&b"ok"[..]));
    assert_eq!(p.bstr(), Ok(&[0xc3u8][..]));
    let mut p = MsgParser::new(&b[8..], Vec::new());
    assert_eq!(p.str(), Err(DecodeError::NonUtf8));
}

#[test]
fn requests_are_chosen_by_opcode() {
    let ms = wirecore::parser::parse_messages(b"msg destroy = 0 {}\nmsg attach = 1 { buffer: id(wl_buffer), x: i32, y: i32 }").unwrap();
    let frame = words(&[3, (20 << 16) | 1, 9, (-4i32) as u32, 6]);
    let (i, d) = wirecore::dispatch::decode_request(&ms, &frame, Vec::new()).unwrap();
    assert_eq!(i, 1);
    assert_eq!(d.header, Header { object: 3, len: 20, opcode: 1 });
    assert!(matches!(d.args[..], [Arg::Object(9), Arg::Int(-4), Arg::Int(6)]));
    let (i, d) = wirecore::dispatch::decode_request(&ms, &words(&[3, 8 << 16]), Vec::new()).unwrap();
    assert_eq!(i, 0);
    assert!(d.args.is_empty());
    assert_eq!(
        wirecore::dispatch::decode_request(&ms, &words(&[3, (8 << 16) | 5]), Vec::new()).err(),
        Some(ToolClientError::Parsing(DecodeError::UnknownOpcode))
    );
    assert_eq!(
        wirecore::dispatch::decode_request(&ms, &words(&[3, (4 << 16) | 1]), Vec::new()).err(),
        Some(ToolClientError::MsgLenTooSmall)
    );
}
