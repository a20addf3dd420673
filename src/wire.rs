use vstd::prelude::*;
use vstd::bytes::{
    lemma_auto_spec_u32_to_from_le_bytes, spec_u32_from_le_bytes, spec_u32_to_le_bytes,
    u32_from_le_bytes, u32_to_le_bytes,
};
use vstd::utf8::{decode_utf8, encode_utf8, encode_utf8_decode_utf8, encode_utf8_valid_utf8, valid_utf8};
use vstd::string::StringSliceAdditionalSpecFns;
use std::rc::Rc;
use uapi::OwnedFd;
use crate::schema::{Type, TypeV};

verus! {

/// Relies on uapi's `OwnedFd`: descriptors are only held and handed on, never
/// looked into.
#[verifier::external_type_specification]
#[verifier::external_body]
pub struct ExOwnedFd(uapi::OwnedFd);

/// A signed number with 8 fractional bits, carried as its raw `i32`.
#[derive(Copy, Clone, Debug, PartialEq, Eq, Structural)]
pub struct Fixed(pub i32);

/// The elements of an array field; every element kind is 4 bytes wide.
#[derive(Debug)]
pub enum ArrayArg {
    Objects(Vec<u32>),
    Uints(Vec<u32>),
    Ints(Vec<i32>),
    Fixeds(Vec<Fixed>),
}

/// One field value of a message.
#[derive(Debug)]
pub enum Arg {
    Object(u32),
    Uint(u32),
    Int(i32),
    Fixed(Fixed),
    Str(String),
    Bytes(Vec<u8>),
    Fd(Rc<OwnedFd>),
    Array(ArrayArg),
}

pub enum ArrayV {
    Objects(Seq<u32>),
    Uints(Seq<u32>),
    Ints(Seq<i32>),
    Fixeds(Seq<i32>),
}

pub enum ArgV {
    Object(u32),
    Uint(u32),
    Int(i32),
    Fixed(i32),
    Str(Seq<char>),
    Bytes(Seq<u8>),
    Fd(Rc<OwnedFd>),
    Array(ArrayV),
}

impl View for ArrayArg {
    type V = ArrayV;

    open spec fn view(&self) -> ArrayV {
        match self {
            ArrayArg::Objects(v) => ArrayV::Objects(v@),
            ArrayArg::Uints(v) => ArrayV::Uints(v@),
            ArrayArg::Ints(v) => ArrayV::Ints(v@),
            ArrayArg::Fixeds(v) => ArrayV::Fixeds(v@.map_values(|f: Fixed| f.0)),
        }
    }
}

impl View for Arg {
    type V = ArgV;

    open spec fn view(&self) -> ArgV {
        match self {
            Arg::Object(x) => ArgV::Object(*x),
            Arg::Uint(x) => ArgV::Uint(*x),
            Arg::Int(x) => ArgV::Int(*x),
            Arg::Fixed(x) => ArgV::Fixed(x.0),
            Arg::Str(s) => ArgV::Str(s@),
            Arg::Bytes(b) => ArgV::Bytes(b@),
            Arg::Fd(f) => ArgV::Fd(*f),
            Arg::Array(a) => ArgV::Array(a@),
        }
    }
}

pub open spec fn args_view(args: Seq<Arg>) -> Seq<ArgV> {
    args.map_values(|a: Arg| a@)
}

/// Why a message could not be decoded.
#[derive(Debug, Clone, Copy, PartialEq, Eq, Structural)]
pub enum DecodeError {
    /// The payload ended inside a field.
    UnexpectedEof,
    /// A string or byte string lacks its terminating NUL.
    MissingNul,
    /// A string is not valid UTF-8.
    NonUtf8,
    /// The byte length of an array is not a multiple of 4.
    UnalignedArray,
    /// A file descriptor field found no descriptor left.
    MissingFd,
    /// Bytes were left over after the last field.
    TrailingBytes,
    /// A field type that the wire cannot carry (an array of a reference kind).
    UnsupportedType,
    /// No message of the target's interface has the frame's opcode.
    UnknownOpcode,
}

// ---------------------------------------------------------------------------
// Encoding

/// The 4 bytes of `x` in little-endian order.
pub open spec fn le32(x: u32) -> Seq<u8> {
    spec_u32_to_le_bytes(x)
}

/// The number of zero bytes that pad `n` bytes to a multiple of 4.
pub open spec fn pad4(n: int) -> int {
    (4 - n % 4) % 4
}

pub open spec fn zeros(n: int) -> Seq<u8> {
    Seq::new(n as nat, |i: int| 0u8)
}

/// A (byte) string on the wire: its length with the NUL, the bytes, the NUL, and padding.
pub open spec fn enc_blob(b: Seq<u8>) -> Seq<u8> {
    le32((b.len() + 1) as u32) + b + seq![0u8] + zeros(pad4(b.len() + 1 as int))
}

pub open spec fn enc_words(ws: Seq<u32>) -> Seq<u8>
    decreases ws.len(),
{
    if ws.len() == 0 {
        seq![]
    } else {
        enc_words(ws.drop_last()) + le32(ws.last())
    }
}

/// The words that carry the elements of an array.
pub open spec fn array_words(a: ArrayV) -> Seq<u32> {
    match a {
        ArrayV::Objects(v) => v,
        ArrayV::Uints(v) => v,
        ArrayV::Ints(v) => v.map_values(|x: i32| x as u32),
        ArrayV::Fixeds(v) => v.map_values(|x: i32| x as u32),
    }
}

/// The bytes of one field; a file descriptor has none, it travels out of band.
pub open spec fn enc_arg(a: ArgV) -> Seq<u8> {
    match a {
        ArgV::Object(x) => le32(x),
        ArgV::Uint(x) => le32(x),
        ArgV::Int(x) => le32(x as u32),
        ArgV::Fixed(x) => le32(x as u32),
        ArgV::Str(s) => enc_blob(encode_utf8(s)),
        ArgV::Bytes(b) => enc_blob(b),
        ArgV::Fd(_) => seq![],
        ArgV::Array(a) => le32((4 * array_words(a).len()) as u32) + enc_words(array_words(a)),
    }
}

pub open spec fn enc_args(args: Seq<ArgV>) -> Seq<u8>
    decreases args.len(),
{
    if args.len() == 0 {
        seq![]
    } else {
        enc_arg(args[0]) + enc_args(args.drop_first())
    }
}

/// The file descriptors that go with the fields, in field order.
pub open spec fn arg_fds(a: ArgV) -> Seq<Rc<OwnedFd>> {
    match a {
        ArgV::Fd(f) => seq![f],
        _ => seq![],
    }
}

pub open spec fn args_fds(args: Seq<ArgV>) -> Seq<Rc<OwnedFd>>
    decreases args.len(),
{
    if args.len() == 0 {
        seq![]
    } else {
        arg_fds(args[0]) + args_fds(args.drop_first())
    }
}

/// Whether the encoded lengths of a field fit the 32-bit length prefixes.
pub open spec fn arg_fits(a: ArgV) -> bool {
    match a {
        ArgV::Str(s) => encode_utf8(s).len() + 4 < u32::MAX,
        ArgV::Bytes(b) => b.len() + 4 < u32::MAX,
        ArgV::Array(a) => 4 * array_words(a).len() < u32::MAX,
        _ => true,
    }
}

/// Whether field value `a` is of wire type `t`.
pub open spec fn arg_has_type(a: ArgV, t: TypeV) -> bool {
    match (a, t) {
        (ArgV::Object(_), TypeV::Id(_)) => true,
        (ArgV::Uint(_), TypeV::U32) => true,
        (ArgV::Int(_), TypeV::I32) => true,
        (ArgV::Fixed(_), TypeV::Fixed) => true,
        (ArgV::Str(_), TypeV::Str) => true,
        (ArgV::Bytes(_), TypeV::BStr) => true,
        (ArgV::Fd(_), TypeV::Fd) => true,
        (ArgV::Array(a), TypeV::Array(e)) => match (a, *e) {
            (ArrayV::Objects(_), TypeV::Id(_)) => true,
            (ArrayV::Uints(_), TypeV::U32) => true,
            (ArrayV::Ints(_), TypeV::I32) => true,
            (ArrayV::Fixeds(_), TypeV::Fixed) => true,
            _ => false,
        },
        _ => false,
    }
}

/// Whether `args` is a record of the field types `ts` that can be encoded.
pub open spec fn args_conform(args: Seq<ArgV>, ts: Seq<TypeV>) -> bool {
    &&& args.len() == ts.len()
    &&& forall|i: int| 0 <= i < args.len() ==> arg_has_type(#[trigger] args[i], ts[i])
    &&& forall|i: int| 0 <= i < args.len() ==> arg_fits(#[trigger] args[i])
}

// ---------------------------------------------------------------------------
// Decoding

/// The word at `pos`, if 4 bytes are there.
pub open spec fn dec_word(s: Seq<u8>, pos: int) -> Option<u32> {
    if 0 <= pos && pos + 4 <= s.len() {
        Some(spec_u32_from_le_bytes(s.subrange(pos, pos + 4)))
    } else {
        None
    }
}

/// The bytes of a (byte) string at `pos` without its NUL, and the position after it.
pub open spec fn dec_blob(s: Seq<u8>, pos: int) -> Result<(Seq<u8>, int), DecodeError> {
    match dec_word(s, pos) {
        None => Err(DecodeError::UnexpectedEof),
        Some(n) => {
            let end = pos + 4 + n + pad4(n as int);
            if end > s.len() {
                Err(DecodeError::UnexpectedEof)
            } else if n == 0 || s[pos + 4 + n - 1] != 0 {
                Err(DecodeError::MissingNul)
            } else {
                Ok((s.subrange(pos + 4, pos + 4 + n - 1), end))
            }
        },
    }
}

/// The `count` words that start at `start`.
pub open spec fn dec_words(s: Seq<u8>, start: int, count: nat) -> Seq<u32>
    decreases count,
{
    if count == 0 {
        seq![]
    } else {
        dec_words(s, start, (count - 1) as nat).push(
            spec_u32_from_le_bytes(s.subrange(start + 4 * (count - 1), start + 4 * count)),
        )
    }
}

/// The elements of an array of element type `e` carried by `ws`.
pub open spec fn array_of(e: TypeV, ws: Seq<u32>) -> Option<ArrayV> {
    match e {
        TypeV::Id(_) => Some(ArrayV::Objects(ws)),
        TypeV::U32 => Some(ArrayV::Uints(ws)),
        TypeV::I32 => Some(ArrayV::Ints(ws.map_values(|w: u32| w as i32))),
        TypeV::Fixed => Some(ArrayV::Fixeds(ws.map_values(|w: u32| w as i32))),
        _ => None,
    }
}

/// Decoding one field of type `t` at `pos`: the value, the next position and the
/// descriptors left over.
pub open spec fn dec_arg(t: TypeV, s: Seq<u8>, pos: int, fds: Seq<Rc<OwnedFd>>) -> Result<
    (ArgV, int, Seq<Rc<OwnedFd>>),
    DecodeError,
> {
    match t {
        TypeV::Fd => if fds.len() == 0 {
            Err(DecodeError::MissingFd)
        } else {
            Ok((ArgV::Fd(fds[0]), pos, fds.drop_first()))
        },
        TypeV::Str => match dec_blob(s, pos) {
            Err(e) => Err(e),
            Ok((b, end)) => if valid_utf8(b) {
                Ok((ArgV::Str(decode_utf8(b)), end, fds))
            } else {
                Err(DecodeError::NonUtf8)
            },
        },
        TypeV::BStr => match dec_blob(s, pos) {
            Err(e) => Err(e),
            Ok((b, end)) => Ok((ArgV::Bytes(b), end, fds)),
        },
        TypeV::Array(e) => match dec_word(s, pos) {
            None => Err(DecodeError::UnexpectedEof),
            Some(n) => if n % 4 != 0 {
                Err(DecodeError::UnalignedArray)
            } else if pos + 4 + n > s.len() {
                Err(DecodeError::UnexpectedEof)
            } else {
                match array_of(*e, dec_words(s, pos + 4, (n / 4) as nat)) {
                    None => Err(DecodeError::UnsupportedType),
                    Some(a) => Ok((ArgV::Array(a), pos + 4 + n, fds)),
                }
            },
        },
        _ => match dec_word(s, pos) {
            None => Err(DecodeError::UnexpectedEof),
            Some(w) => Ok(
                (
                    match t {
                        TypeV::Id(_) => ArgV::Object(w),
                        TypeV::U32 => ArgV::Uint(w),
                        TypeV::I32 => ArgV::Int(w as i32),
                        _ => ArgV::Fixed(w as i32),
                    },
                    pos + 4,
                    fds,
                ),
            ),
        },
    }
}

/// Decoding the fields of types `ts`, in order, from `pos`.
pub open spec fn dec_args(ts: Seq<TypeV>, s: Seq<u8>, pos: int, fds: Seq<Rc<OwnedFd>>) -> Result<
    (Seq<ArgV>, int, Seq<Rc<OwnedFd>>),
    DecodeError,
>
    decreases ts.len(),
{
    if ts.len() == 0 {
        Ok((seq![], pos, fds))
    } else {
        match dec_arg(ts[0], s, pos, fds) {
            Err(e) => Err(e),
            Ok((a, p, f)) => match dec_args(ts.drop_first(), s, p, f) {
                Err(e) => Err(e),
                Ok((rest, p2, f2)) => Ok((seq![a] + rest, p2, f2)),
            },
        }
    }
}

/// Decoding a whole payload: every byte must belong to a field.
pub open spec fn dec_payload(ts: Seq<TypeV>, s: Seq<u8>, fds: Seq<Rc<OwnedFd>>) -> Result<
    (Seq<ArgV>, Seq<Rc<OwnedFd>>),
    DecodeError,
> {
    match dec_args(ts, s, 0, fds) {
        Err(e) => Err(e),
        Ok((args, p, f)) => if p == s.len() {
            Ok((args, f))
        } else {
            Err(DecodeError::TrailingBytes)
        },
    }
}

// ---------------------------------------------------------------------------
// Round trip

proof fn lemma_word(s: Seq<u8>, pos: int, x: u32)
    requires
        0 <= pos,
        pos + 4 <= s.len(),
        s.subrange(pos, pos + 4) == le32(x),
    ensures
        dec_word(s, pos) == Some(x),
{
    lemma_auto_spec_u32_to_from_le_bytes();
    assert(spec_u32_to_le_bytes(x).len() == 4);
}

proof fn lemma_cast_i32(x: i32)
    ensures
        (x as u32) as i32 == x,
{
    assert((x as u32) as i32 == x) by (bit_vector);
}

proof fn lemma_enc_words_len(ws: Seq<u32>)
    ensures
        enc_words(ws).len() == 4 * ws.len(),
    decreases ws.len(),
{
    lemma_auto_spec_u32_to_from_le_bytes();
    if ws.len() > 0 {
        lemma_enc_words_len(ws.drop_last());
    }
}

proof fn lemma_words(s: Seq<u8>, start: int, ws: Seq<u32>)
    requires
        0 <= start,
        start + 4 * ws.len() <= s.len(),
        s.subrange(start, start + 4 * ws.len()) == enc_words(ws),
    ensures
        dec_words(s, start, ws.len()) == ws,
    decreases ws.len(),
{
    lemma_auto_spec_u32_to_from_le_bytes();
    if ws.len() > 0 {
        let n = ws.len() - 1;
        let init = ws.drop_last();
        lemma_enc_words_len(init);
        let whole = s.subrange(start, start + 4 * ws.len());
        assert(whole == enc_words(init) + le32(ws.last()));
        assert(s.subrange(start, start + 4 * n) =~= whole.subrange(0, 4 * n));
        assert(whole.subrange(0, 4 * n) =~= enc_words(init));
        lemma_words(s, start, init);
        assert(s.subrange(start + 4 * n, start + 4 * n + 4) =~= whole.subrange(4 * n, 4 * n + 4));
        assert(whole.subrange(4 * n, 4 * n + 4) =~= le32(ws.last()));
        assert(dec_words(s, start, ws.len()) =~= ws);
    }
}

proof fn lemma_blob(s: Seq<u8>, pos: int, b: Seq<u8>)
    requires
        0 <= pos,
        b.len() + 4 < u32::MAX,
        pos + enc_blob(b).len() <= s.len(),
        s.subrange(pos, pos + enc_blob(b).len()) == enc_blob(b),
    ensures
        dec_blob(s, pos) == Ok::<(Seq<u8>, int), DecodeError>((b, pos + enc_blob(b).len())),
{
    lemma_auto_spec_u32_to_from_le_bytes();
    let n = (b.len() + 1) as u32;
    let whole = enc_blob(b);
    assert(whole.len() == 4 + n + pad4(n as int));
    assert(s.subrange(pos, pos + 4) =~= whole.subrange(0, 4));
    assert(whole.subrange(0, 4) =~= le32(n));
    lemma_word(s, pos, n);
    assert(s[pos + 4 + n - 1] == whole[4 + n - 1]);
    assert forall|i: int| 0 <= i < b.len() implies s[pos + 4 + i] == b[i] by {
        assert(s[pos + 4 + i] == s.subrange(pos, pos + whole.len())[4 + i]);
        assert(whole[4 + i] == b[i]);
    }
    assert(s.subrange(pos + 4, pos + 4 + n - 1) =~= b);
}

proof fn lemma_arg(a: ArgV, t: TypeV, s: Seq<u8>, pos: int, fds: Seq<Rc<OwnedFd>>)
    requires
        arg_has_type(a, t),
        arg_fits(a),
        0 <= pos,
        pos + enc_arg(a).len() <= s.len(),
        s.subrange(pos, pos + enc_arg(a).len()) == enc_arg(a),
    ensures
        dec_arg(t, s, pos, arg_fds(a) + fds) == Ok::<(ArgV, int, Seq<Rc<OwnedFd>>), DecodeError>(
            (a, pos + enc_arg(a).len(), fds),
        ),
{
    lemma_auto_spec_u32_to_from_le_bytes();
    match a {
        ArgV::Object(x) => {
            lemma_word(s, pos, x);
        },
        ArgV::Uint(x) => {
            lemma_word(s, pos, x);
        },
        ArgV::Int(x) => {
            lemma_word(s, pos, x as u32);
            lemma_cast_i32(x);
        },
        ArgV::Fixed(x) => {
            lemma_word(s, pos, x as u32);
            lemma_cast_i32(x);
        },
        ArgV::Str(cs) => {
            lemma_blob(s, pos, encode_utf8(cs));
            encode_utf8_valid_utf8(cs);
            encode_utf8_decode_utf8(cs);
        },
        ArgV::Bytes(b) => {
            lemma_blob(s, pos, b);
        },
        ArgV::Fd(f) => {
            assert((seq![f] + fds).drop_first() =~= fds);
        },
        ArgV::Array(arr) => {
            let ws = array_words(arr);
            let n = (4 * ws.len()) as u32;
            lemma_enc_words_len(ws);
            let whole = enc_arg(a);
            assert(s.subrange(pos, pos + 4) =~= whole.subrange(0, 4));
            assert(whole.subrange(0, 4) =~= le32(n));
            lemma_word(s, pos, n);
            assert(s.subrange(pos + 4, pos + 4 + 4 * ws.len()) =~= whole.subrange(4, 4 + 4 * ws.len() as int));
            assert(whole.subrange(4, 4 + 4 * ws.len() as int) =~= enc_words(ws));
            lemma_words(s, pos + 4, ws);
            assert(n / 4 == ws.len());
            match arr {
                ArrayV::Ints(v) => {
                    assert forall|i: int| 0 <= i < v.len() implies (v[i] as u32) as i32 == v[i] by {
                        lemma_cast_i32(v[i]);
                    }
                    assert(ws.map_values(|w: u32| w as i32) =~= v);
                },
                ArrayV::Fixeds(v) => {
                    assert forall|i: int| 0 <= i < v.len() implies (v[i] as u32) as i32 == v[i] by {
                        lemma_cast_i32(v[i]);
                    }
                    assert(ws.map_values(|w: u32| w as i32) =~= v);
                },
                _ => {},
            }
        },
    }
}

proof fn lemma_args(args: Seq<ArgV>, ts: Seq<TypeV>, s: Seq<u8>, pos: int, fds: Seq<Rc<OwnedFd>>)
    requires
        args_conform(args, ts),
        0 <= pos,
        pos + enc_args(args).len() <= s.len(),
        s.subrange(pos, pos + enc_args(args).len()) == enc_args(args),
    ensures
        dec_args(ts, s, pos, args_fds(args) + fds) == Ok::<
            (Seq<ArgV>, int, Seq<Rc<OwnedFd>>),
            DecodeError,
        >((args, pos + enc_args(args).len(), fds)),
    decreases args.len(),
{
    if args.len() > 0 {
        let a = args[0];
        let rest = args.drop_first();
        let k = enc_arg(a).len() as int;
        let whole = enc_args(args);
        assert(whole == enc_arg(a) + enc_args(rest));
        assert(s.subrange(pos, pos + k) =~= whole.subrange(0, k));
        assert(whole.subrange(0, k) =~= enc_arg(a));
        assert(args_fds(args) + fds =~= arg_fds(a) + (args_fds(rest) + fds));
        lemma_arg(a, ts[0], s, pos, args_fds(rest) + fds);
        assert(args_conform(rest, ts.drop_first())) by {
            assert forall|i: int| 0 <= i < rest.len() implies arg_has_type(#[trigger] rest[i], ts.drop_first()[i]) by {
                assert(rest[i] == args[i + 1]);
            }
            assert forall|i: int| 0 <= i < rest.len() implies arg_fits(#[trigger] rest[i]) by {
                assert(rest[i] == args[i + 1]);
            }
        }
        assert(s.subrange(pos + k, pos + whole.len()) =~= whole.subrange(k, whole.len() as int));
        assert(whole.subrange(k, whole.len() as int) =~= enc_args(rest));
        lemma_args(rest, ts.drop_first(), s, pos + k, fds);
        assert(seq![a] + rest =~= args);
    } else {
        assert(args_fds(args) + fds =~= fds);
        assert(args =~= seq![]);
    }
}

/// Decoding what encoding produced gives back the record: for every list of field
/// types and every record of those types, the payload decodes to the same field
/// values, every byte is used, and the descriptors are taken in field order.
pub proof fn lemma_round_trip(args: Seq<ArgV>, ts: Seq<TypeV>)
    requires
        args_conform(args, ts),
    ensures
        dec_payload(ts, enc_args(args), args_fds(args)) == Ok::<
            (Seq<ArgV>, Seq<Rc<OwnedFd>>),
            DecodeError,
        >((args, seq![])),
{
    let s = enc_args(args);
    assert(s.subrange(0, s.len() as int) =~= s);
    assert(args_fds(args) + seq![] =~= args_fds(args));
    lemma_args(args, ts, s, 0, seq![]);
}

// ---------------------------------------------------------------------------
// Reading fields

/// Relies on `std::str::from_utf8`: it succeeds exactly on valid UTF-8, and the
/// string slice it returns holds the same bytes.
#[verifier::external_body]
fn str_from_utf8<'b>(b: &'b [u8]) -> (r: Option<&'b str>)
    ensures
        r is Some <==> valid_utf8(b@),
        r matches Some(t) ==> t.spec_bytes() == b@,
{
    std::str::from_utf8(b).ok()
}

/// Reads the fields of one message payload, in order.
pub struct MsgParser<'a> {
    pub data: &'a [u8],
    pub pos: usize,
    /// The descriptors that arrived with the message and are not yet claimed.
    pub fds: Vec<Rc<OwnedFd>>,
}

/// What a successful read of field type `t` leaves: the value `v`, and the parser advanced.
pub open spec fn read_ok(t: TypeV, old_p: &MsgParser, new_p: &MsgParser, v: ArgV) -> bool {
    match dec_arg(t, old_p.data@, old_p.pos as int, old_p.fds@) {
        Ok((a, pos, fds)) => v == a && new_p.pos == pos && new_p.fds@ == fds && new_p.data
            == old_p.data,
        Err(_) => false,
    }
}

/// The error that reading field type `t` meets, if any.
pub open spec fn read_err(t: TypeV, p: &MsgParser) -> Option<DecodeError> {
    match dec_arg(t, p.data@, p.pos as int, p.fds@) {
        Ok(_) => None,
        Err(e) => Some(e),
    }
}

impl<'a> MsgParser<'a> {
    pub fn new(data: &'a [u8], fds: Vec<Rc<OwnedFd>>) -> (r: Self)
        ensures
            r.data@ == data@,
            r.pos == 0,
            r.fds@ == fds@,
    {
        MsgParser { data, pos: 0, fds }
    }

    /// Whether every byte of the payload has been read.
    pub fn at_end(&self) -> (r: bool)
        ensures
            r == (self.pos == self.data@.len()),
    {
        self.pos == self.data.len()
    }

    fn word(&self) -> (r: Option<u32>)
        ensures
            r == dec_word(self.data@, self.pos as int),
    {
        if self.pos > self.data.len() || self.data.len() - self.pos < 4 {
            None
        } else {
            Some(u32_from_le_bytes(&self.data[self.pos..self.pos + 4]))
        }
    }

    fn scalar(&mut self) -> (r: Result<u32, DecodeError>)
        ensures
            match dec_word(old(self).data@, old(self).pos as int) {
                Some(w) => r == Ok::<u32, DecodeError>(w) && final(self).pos == old(self).pos + 4
                    && final(self).data == old(self).data && final(self).fds == old(self).fds,
                None => r == Err::<u32, DecodeError>(DecodeError::UnexpectedEof),
            },
    {
        let _ = self.data.len();
        match self.word() {
            Some(w) => {
                self.pos = self.pos + 4;
                Ok(w)
            },
            None => Err(DecodeError::UnexpectedEof),
        }
    }

    /// Reads an object id.
    pub fn object(&mut self) -> (r: Result<u32, DecodeError>)
        ensures
            match r {
                Ok(v) => read_ok(TypeV::Id(seq![]), old(self), final(self), ArgV::Object(v)),
                Err(e) => read_err(TypeV::Id(seq![]), old(self)) == Some(e),
            },
    {
        self.scalar()
    }

    /// Reads an unsigned 32-bit integer.
    pub fn uint(&mut self) -> (r: Result<u32, DecodeError>)
        ensures
            match r {
                Ok(v) => read_ok(TypeV::U32, old(self), final(self), ArgV::Uint(v)),
                Err(e) => read_err(TypeV::U32, old(self)) == Some(e),
            },
    {
        self.scalar()
    }

    /// Reads a signed 32-bit integer.
    pub fn sint(&mut self) -> (r: Result<i32, DecodeError>)
        ensures
            match r {
                Ok(v) => read_ok(TypeV::I32, old(self), final(self), ArgV::Int(v)),
                Err(e) => read_err(TypeV::I32, old(self)) == Some(e),
            },
    {
        match self.scalar() {
            Ok(w) => Ok(#[verifier::truncate] (w as i32)),
            Err(e) => Err(e),
        }
    }

    /// Reads a fixed-point number.
    pub fn fixed(&mut self) -> (r: Result<Fixed, DecodeError>)
        ensures
            match r {
                Ok(v) => read_ok(TypeV::Fixed, old(self), final(self), ArgV::Fixed(v.0)),
                Err(e) => read_err(TypeV::Fixed, old(self)) == Some(e),
            },
    {
        match self.scalar() {
            Ok(w) => Ok(Fixed(#[verifier::truncate] (w as i32))),
            Err(e) => Err(e),
        }
    }

    fn blob(&mut self) -> (r: Result<&'a [u8], DecodeError>)
        ensures
            match dec_blob(old(self).data@, old(self).pos as int) {
                Ok((b, end)) => r matches Ok(v) && v@ == b && final(self).pos == end
                    && final(self).data == old(self).data && final(self).fds == old(self).fds,
                Err(e) => r == Err::<&[u8], DecodeError>(e),
            },
    {
        let w = match self.word() {
            Some(w) => w,
            None => return Err(DecodeError::UnexpectedEof),
        };
        let n = w as usize;
        let pad: usize = (4 - n % 4) % 4;
        let rest = self.data.len() - self.pos - 4;
        if n > rest || pad > rest - n {
            return Err(DecodeError::UnexpectedEof);
        }
        let start = self.pos + 4;
        if n == 0 || self.data[start + n - 1] != 0 {
            return Err(DecodeError::MissingNul);
        }
        let b = &self.data[start..start + n - 1];
        self.pos = start + n + pad;
        Ok(b)
    }

    /// Reads a string, which must be valid UTF-8; the result borrows from the payload.
    pub fn str(&mut self) -> (r: Result<&'a str, DecodeError>)
        ensures
            match r {
                Ok(v) => read_ok(TypeV::Str, old(self), final(self), ArgV::Str(v@)),
                Err(e) => read_err(TypeV::Str, old(self)) == Some(e),
            },
    {
        let b = match self.blob() {
            Ok(b) => b,
            Err(e) => return Err(e),
        };
        match str_from_utf8(b) {
            Some(t) => {
                proof {
                    vstd::utf8::encode_utf8_decode_utf8(t@);
                }
                Ok(t)
            },
            None => Err(DecodeError::NonUtf8),
        }
    }

    /// Reads a byte string; the result borrows from the payload.
    pub fn bstr(&mut self) -> (r: Result<&'a [u8], DecodeError>)
        ensures
            match r {
                Ok(v) => read_ok(TypeV::BStr, old(self), final(self), ArgV::Bytes(v@)),
                Err(e) => read_err(TypeV::BStr, old(self)) == Some(e),
            },
    {
        self.blob()
    }

    /// Takes the next file descriptor that arrived with the message.
    pub fn fd(&mut self) -> (r: Result<Rc<OwnedFd>, DecodeError>)
        ensures
            match r {
                Ok(v) => read_ok(TypeV::Fd, old(self), final(self), ArgV::Fd(v)),
                Err(e) => read_err(TypeV::Fd, old(self)) == Some(e),
            },
    {
        if self.fds.len() == 0 {
            return Err(DecodeError::MissingFd);
        }
        let f = self.fds.remove(0);
        proof {
            assert(self.fds@ =~= old(self).fds@.drop_first());
        }
        Ok(f)
    }

    /// Reads the `count` words that start at `start`.
    fn words(&self, start: usize, count: usize) -> (r: Vec<u32>)
        requires
            start + 4 * count <= self.data@.len(),
        ensures
            r@ == dec_words(self.data@, start as int, count as nat),
    {
        let _ = self.data.len();
        let mut v: Vec<u32> = Vec::new();
        let mut i: usize = 0;
        while i < count
            invariant
                i <= count,
                start + 4 * count <= self.data@.len(),
                self.data@.len() <= usize::MAX,
                v@ == dec_words(self.data@, start as int, i as nat),
            decreases count - i,
        {
            let p = start + 4 * i;
            let w = u32_from_le_bytes(&self.data[p..p + 4]);
            v.push(w);
            i = i + 1;
        }
        v
    }

    /// Reads an array whose elements are of type `elem`; each element is decoded
    /// from its 4 bytes in turn.
    pub fn array(&mut self, elem: &Type) -> (r: Result<ArrayArg, DecodeError>)
        ensures
            match r {
                Ok(v) => read_ok(
                    TypeV::Array(Box::new(elem@)),
                    old(self),
                    final(self),
                    ArgV::Array(v@),
                ),
                Err(e) => read_err(TypeV::Array(Box::new(elem@)), old(self)) == Some(e),
            },
    {
        let w = match self.word() {
            Some(w) => w,
            None => return Err(DecodeError::UnexpectedEof),
        };
        if w % 4 != 0 {
            return Err(DecodeError::UnalignedArray);
        }
        let n = w as usize;
        if n > self.data.len() - self.pos - 4 {
            return Err(DecodeError::UnexpectedEof);
        }
        let start = self.pos + 4;
        let ghost ws = dec_words(self.data@, start as int, (n / 4) as nat);
        let res = match elem {
            Type::Id(_) => ArrayArg::Objects(self.words(start, n / 4)),
            Type::U32 => ArrayArg::Uints(self.words(start, n / 4)),
            Type::I32 => {
                let v = self.words(start, n / 4);
                let mut out: Vec<i32> = Vec::new();
                let mut i: usize = 0;
                while i < v.len()
                    invariant
                        i <= v@.len(),
                        out@.len() == i,
                        forall|j: int| 0 <= j < i ==> out@[j] == v@[j] as i32,
                    decreases v@.len() - i,
                {
                    out.push(#[verifier::truncate] (v[i] as i32));
                    i = i + 1;
                }
                proof {
                    assert(out@ =~= v@.map_values(|w: u32| w as i32));
                }
                ArrayArg::Ints(out)
            },
            Type::Fixed => {
                let v = self.words(start, n / 4);
                let mut out: Vec<Fixed> = Vec::new();
                let mut i: usize = 0;
                while i < v.len()
                    invariant
                        i <= v@.len(),
                        out@.len() == i,
                        forall|j: int| 0 <= j < i ==> out@[j].0 == v@[j] as i32,
                    decreases v@.len() - i,
                {
                    out.push(Fixed(#[verifier::truncate] (v[i] as i32)));
                    i = i + 1;
                }
                proof {
                    assert(out@.map_values(|f: Fixed| f.0) =~= v@.map_values(|w: u32| w as i32));
                }
                ArrayArg::Fixeds(out)
            },
            _ => return Err(DecodeError::UnsupportedType),
        };
        self.pos = start + n;
        Ok(res)
    }

    /// Reads one field of type `t` into an owned value.
    pub fn arg(&mut self, t: &Type) -> (r: Result<Arg, DecodeError>)
        ensures
            match r {
                Ok(v) => read_ok(t@, old(self), final(self), v@),
                Err(e) => read_err(t@, old(self)) == Some(e),
            },
    {
        match t {
            Type::Id(_) => match self.object() {
                Ok(v) => Ok(Arg::Object(v)),
                Err(e) => Err(e),
            },
            Type::U32 => match self.uint() {
                Ok(v) => Ok(Arg::Uint(v)),
                Err(e) => Err(e),
            },
            Type::I32 => match self.sint() {
                Ok(v) => Ok(Arg::Int(v)),
                Err(e) => Err(e),
            },
            Type::Fixed => match self.fixed() {
                Ok(v) => Ok(Arg::Fixed(v)),
                Err(e) => Err(e),
            },
            Type::Str => match self.str() {
                Ok(v) => Ok(Arg::Str(v.to_owned())),
                Err(e) => Err(e),
            },
            Type::BStr => match self.bstr() {
                Ok(v) => Ok(Arg::Bytes(vstd::slice::slice_to_vec(v))),
                Err(e) => Err(e),
            },
            Type::Fd => match self.fd() {
                Ok(v) => Ok(Arg::Fd(v)),
                Err(e) => Err(e),
            },
            Type::Array(e) => match self.array(e) {
                Ok(v) => Ok(Arg::Array(v)),
                Err(e) => Err(e),
            },
        }
    }
}

// ---------------------------------------------------------------------------
// Writing fields

proof fn lemma_enc_args_push(args: Seq<ArgV>, a: ArgV)
    ensures
        enc_args(args.push(a)) == enc_args(args) + enc_arg(a),
        args_fds(args.push(a)) == args_fds(args) + arg_fds(a),
    decreases args.len(),
{
    if args.len() == 0 {
        assert(args.push(a).drop_first() =~= Seq::<ArgV>::empty());
        assert(args.push(a)[0] == a);
        assert(enc_args(args.push(a).drop_first()) == Seq::<u8>::empty());
        assert(args_fds(args.push(a).drop_first()) == Seq::<Rc<OwnedFd>>::empty());
        assert(enc_args(args.push(a)) =~= enc_args(args) + enc_arg(a));
        assert(args_fds(args.push(a)) =~= args_fds(args) + arg_fds(a));
    } else {
        assert(args.push(a).drop_first() =~= args.drop_first().push(a));
        lemma_enc_args_push(args.drop_first(), a);
        assert(enc_args(args.push(a)) =~= enc_args(args) + enc_arg(a));
        assert(args_fds(args.push(a)) =~= args_fds(args) + arg_fds(a));
    }
}

/// Writes the fields of one message payload, in order; descriptors are collected
/// beside the bytes.
pub struct MsgFormatter {
    pub buf: Vec<u8>,
    pub fds: Vec<Rc<OwnedFd>>,
}

impl MsgFormatter {
    pub fn new() -> (r: Self)
        ensures
            r.buf@ == Seq::<u8>::empty(),
            r.fds@ == Seq::<Rc<OwnedFd>>::empty(),
    {
        MsgFormatter { buf: Vec::new(), fds: Vec::new() }
    }

    fn put(&mut self, b: &[u8])
        ensures
            final(self).buf@ == old(self).buf@ + b@,
            final(self).fds == old(self).fds,
    {
        let mut i: usize = 0;
        while i < b.len()
            invariant
                i <= b@.len(),
                self.buf@ == old(self).buf@ + b@.take(i as int),
                self.fds == old(self).fds,
            decreases b@.len() - i,
        {
            self.buf.push(b[i]);
            proof {
                assert(b@.take(i + 1) =~= b@.take(i as int).push(b@[i as int]));
            }
            i = i + 1;
        }
        proof {
            assert(b@.take(b@.len() as int) =~= b@);
        }
    }

    fn word(&mut self, w: u32)
        ensures
            final(self).buf@ == old(self).buf@ + le32(w),
            final(self).fds == old(self).fds,
    {
        let b = u32_to_le_bytes(w);
        self.put(b.as_slice());
    }

    /// Writes an object id.
    pub fn object(&mut self, v: u32)
        ensures
            final(self).buf@ == old(self).buf@ + enc_arg(ArgV::Object(v)),
            final(self).fds == old(self).fds,
    {
        self.word(v);
    }

    /// Writes an unsigned 32-bit integer.
    pub fn uint(&mut self, v: u32)
        ensures
            final(self).buf@ == old(self).buf@ + enc_arg(ArgV::Uint(v)),
            final(self).fds == old(self).fds,
    {
        self.word(v);
    }

    /// Writes a signed 32-bit integer.
    pub fn sint(&mut self, v: i32)
        ensures
            final(self).buf@ == old(self).buf@ + enc_arg(ArgV::Int(v)),
            final(self).fds == old(self).fds,
    {
        self.word(#[verifier::truncate] (v as u32));
    }

    /// Writes a fixed-point number.
    pub fn fixed(&mut self, v: Fixed)
        ensures
            final(self).buf@ == old(self).buf@ + enc_arg(ArgV::Fixed(v.0)),
            final(self).fds == old(self).fds,
    {
        self.word(#[verifier::truncate] (v.0 as u32));
    }

    fn blob(&mut self, b: &[u8])
        requires
            b@.len() + 4 < u32::MAX,
        ensures
            final(self).buf@ == old(self).buf@ + enc_blob(b@),
            final(self).fds == old(self).fds,
    {
        let n: u32 = (b.len() + 1) as u32;
        self.word(n);
        self.put(b);
        self.buf.push(0u8);
        let pad: u32 = (4 - n % 4) % 4;
        let mut i: u32 = 0;
        while i < pad
            invariant
                i <= pad,
                pad == pad4(n as int),
                self.buf@ == old(self).buf@ + le32(n) + b@ + seq![0u8] + zeros(i as int),
                self.fds == old(self).fds,
            decreases pad - i,
        {
            self.buf.push(0u8);
            proof {
                assert(zeros(i + 1) =~= zeros(i as int).push(0u8));
            }
            i = i + 1;
        }
    }

    /// Writes a string with its terminating NUL.
    pub fn string(&mut self, v: &str)
        requires
            v.spec_bytes().len() + 4 < u32::MAX,
        ensures
            final(self).buf@ == old(self).buf@ + enc_arg(ArgV::Str(v@)),
            final(self).fds == old(self).fds,
    {
        self.blob(v.as_bytes());
    }

    /// Writes a byte string with a terminating NUL.
    pub fn bstr(&mut self, v: &[u8])
        requires
            v@.len() + 4 < u32::MAX,
        ensures
            final(self).buf@ == old(self).buf@ + enc_arg(ArgV::Bytes(v@)),
            final(self).fds == old(self).fds,
    {
        self.blob(v);
    }

    /// Attaches a file descriptor; it is sent beside the bytes.
    pub fn fd(&mut self, v: Rc<OwnedFd>)
        ensures
            final(self).buf == old(self).buf,
            final(self).fds@ == old(self).fds@ + arg_fds(ArgV::Fd(v)),
    {
        self.fds.push(v);
        proof {
            assert(self.fds@ =~= old(self).fds@ + arg_fds(ArgV::Fd(v)));
        }
    }

    /// Writes an array: its byte length, then each element.
    pub fn array(&mut self, v: &ArrayArg)
        requires
            4 * array_words(v@).len() < u32::MAX,
        ensures
            final(self).buf@ == old(self).buf@ + enc_arg(ArgV::Array(v@)),
            final(self).fds == old(self).fds,
    {
        let ghost ws = array_words(v@);
        let n: usize = match v {
            ArrayArg::Objects(x) => x.len(),
            ArrayArg::Uints(x) => x.len(),
            ArrayArg::Ints(x) => x.len(),
            ArrayArg::Fixeds(x) => x.len(),
        };
        assert(n == ws.len());
        self.word((4 * n) as u32);
        let mut i: usize = 0;
        while i < n
            invariant
                i <= n,
                n == ws.len(),
                ws == array_words(v@),
                self.buf@ == old(self).buf@ + le32((4 * n) as u32) + enc_words(ws.take(i as int)),
                self.fds == old(self).fds,
            decreases n - i,
        {
            let w: u32 = match v {
                ArrayArg::Objects(x) => x[i],
                ArrayArg::Uints(x) => x[i],
                ArrayArg::Ints(x) => #[verifier::truncate] (x[i] as u32),
                ArrayArg::Fixeds(x) => #[verifier::truncate] (x[i].0 as u32),
            };
            assert(w == ws[i as int]);
            self.word(w);
            proof {
                assert(ws.take(i + 1).drop_last() =~= ws.take(i as int));
            }
            i = i + 1;
        }
        proof {
            assert(ws.take(n as int) =~= ws);
        }
    }

    /// Writes one field.
    pub fn arg(&mut self, a: Arg)
        requires
            arg_fits(a@),
        ensures
            final(self).buf@ == old(self).buf@ + enc_arg(a@),
            final(self).fds@ == old(self).fds@ + arg_fds(a@),
    {
        match a {
            Arg::Object(v) => self.object(v),
            Arg::Uint(v) => self.uint(v),
            Arg::Int(v) => self.sint(v),
            Arg::Fixed(v) => self.fixed(v),
            Arg::Str(v) => self.string(v.as_str()),
            Arg::Bytes(v) => self.bstr(v.as_slice()),
            Arg::Fd(v) => self.fd(v),
            Arg::Array(v) => self.array(&v),
        }
        proof {
            if !(a@ is Fd) {
                assert(self.fds@ =~= old(self).fds@ + arg_fds(a@));
            }
        }
    }
}

// ---------------------------------------------------------------------------
// Frames

/// Why a tool client could not reach the compositor, or refused a frame from it.
#[derive(Debug, Clone, Copy, PartialEq, Eq, Structural)]
pub enum ToolClientError {
    /// `XDG_RUNTIME_DIR` is not set.
    XrdNotSet,
    /// `WAYLAND_DISPLAY` is not set.
    WaylandDisplayNotSet,
    /// The socket path does not fit a socket address.
    SocketPathTooLong,
    /// The message length is smaller than 8 bytes.
    MsgLenTooSmall,
    /// The size of the message is not a multiple of 4.
    UnalignedMessage,
    /// A field of the message could not be decoded.
    Parsing(DecodeError),
}

/// The header of a frame: the target object, the total length in bytes, the opcode.
#[derive(Debug, Clone, Copy, PartialEq, Eq, Structural)]
pub struct Header {
    pub object: u32,
    pub len: u32,
    pub opcode: u32,
}

/// The header that the two header words carry: the length in the upper 16 bits of
/// the second word, the opcode in the lower 16.
pub open spec fn header_of(w0: u32, w1: u32) -> Header {
    Header { object: w0, len: w1 / 0x10000, opcode: w1 % 0x10000 }
}

/// A header is accepted when its length covers the header itself and is word-aligned.
pub open spec fn check_header(h: Header) -> Result<Header, ToolClientError> {
    if h.len < 8 {
        Err(ToolClientError::MsgLenTooSmall)
    } else if h.len % 4 != 0 {
        Err(ToolClientError::UnalignedMessage)
    } else {
        Ok(h)
    }
}

/// A whole frame: the object id, the word `(length << 16) | opcode`, and the payload.
pub open spec fn enc_frame(object: u32, opcode: u16, payload: Seq<u8>) -> Seq<u8> {
    le32(object) + le32(((payload.len() + 8) * 0x10000 + opcode) as u32) + payload
}

/// Decoding the frame at the start of `s` with field types `ts`.
pub open spec fn dec_frame(ts: Seq<TypeV>, s: Seq<u8>, fds: Seq<Rc<OwnedFd>>) -> Result<
    (Header, Seq<ArgV>, Seq<Rc<OwnedFd>>),
    ToolClientError,
> {
    if s.len() < 8 {
        Err(ToolClientError::Parsing(DecodeError::UnexpectedEof))
    } else {
        let h = header_of(
            spec_u32_from_le_bytes(s.subrange(0, 4)),
            spec_u32_from_le_bytes(s.subrange(4, 8)),
        );
        match check_header(h) {
            Err(e) => Err(e),
            Ok(h) => if h.len > s.len() {
                Err(ToolClientError::Parsing(DecodeError::UnexpectedEof))
            } else {
                match dec_payload(ts, s.subrange(8, h.len as int), fds) {
                    Err(e) => Err(ToolClientError::Parsing(e)),
                    Ok((args, rest)) => Ok((h, args, rest)),
                }
            },
        }
    }
}

/// Checks the two header words of a frame.
pub fn parse_header(w0: u32, w1: u32) -> (r: Result<Header, ToolClientError>)
    ensures
        r == check_header(header_of(w0, w1)),
{
    let h = Header { object: w0, len: w1 / 0x10000, opcode: w1 % 0x10000 };
    if h.len < 8 {
        Err(ToolClientError::MsgLenTooSmall)
    } else if h.len % 4 != 0 {
        Err(ToolClientError::UnalignedMessage)
    } else {
        Ok(h)
    }
}

/// Encodes a message to `object` with `opcode` and the fields `args`: the frame's
/// bytes, and the descriptors to send with it.
pub fn encode_message(object: u32, opcode: u16, args: Vec<Arg>) -> (r: (Vec<u8>, Vec<Rc<OwnedFd>>))
    requires
        enc_args(args_view(args@)).len() + 8 <= 0xffff,
        forall|i: int| 0 <= i < args@.len() ==> arg_fits(#[trigger] args@[i]@),
    ensures
        r.0@ == enc_frame(object, opcode, enc_args(args_view(args@))),
        r.1@ == args_fds(args_view(args@)),
{
    let ghost all = args_view(args@);
    let mut args = args;
    let mut fmt = MsgFormatter::new();
    let ghost mut i: int = 0;
    while args.len() > 0
        invariant
            0 <= i <= all.len(),
            args_view(args@) == all.skip(i),
            forall|j: int| 0 <= j < args@.len() ==> arg_fits(#[trigger] args@[j]@),
            fmt.buf@ == enc_args(all.take(i)),
            fmt.fds@ == args_fds(all.take(i)),
        decreases args@.len(),
    {
        let ghost prev = args@;
        let a = args.remove(0);
        proof {
            assert(args_view(prev).len() == prev.len());
            assert(args_view(prev)[0] == prev[0]@);
            assert(all.skip(i)[0] == all[i]);
            assert(a@ == all[i]);
            assert(all.take(i + 1) =~= all.take(i).push(all[i]));
            lemma_enc_args_push(all.take(i), all[i]);
        }
        fmt.arg(a);
        proof {
            i = i + 1;
            assert forall|j: int| 0 <= j < args@.len() implies args_view(args@)[j] == all.skip(
                i,
            )[j] by {
                assert(args@[j] == prev[j + 1]);
                assert(args_view(prev)[j + 1] == prev[j + 1]@);
                assert(all.skip(i - 1)[j + 1] == all[i + j]);
            }
            assert(args_view(args@) =~= all.skip(i));
        }
    }
    proof {
        assert(all.take(i) =~= all);
    }
    let len: u32 = (fmt.buf.len() + 8) as u32;
    let mut out: Vec<u8> = Vec::new();
    let mut head = MsgFormatter::new();
    head.word(object);
    head.word(len * 0x10000 + opcode as u32);
    out.append(&mut head.buf);
    out.append(&mut fmt.buf);
    (out, fmt.fds)
}

/// A decoded frame: its header, its fields, and the descriptors it left unclaimed.
pub struct Decoded {
    pub header: Header,
    pub args: Vec<Arg>,
    pub fds: Vec<Rc<OwnedFd>>,
}

pub open spec fn types_view(ts: Seq<Type>) -> Seq<TypeV> {
    ts.map_values(|t: Type| t@)
}

/// `r` with `pre` put in front of the fields it decoded.
pub open spec fn prefixed(
    pre: Seq<ArgV>,
    r: Result<(Seq<ArgV>, int, Seq<Rc<OwnedFd>>), DecodeError>,
) -> Result<(Seq<ArgV>, int, Seq<Rc<OwnedFd>>), DecodeError> {
    match r {
        Ok((a, p, f)) => Ok((pre + a, p, f)),
        Err(e) => Err(e),
    }
}

/// Decodes the fields of types `ts` from the whole of `payload`.
pub fn decode_payload(ts: &Vec<Type>, payload: &[u8], fds: Vec<Rc<OwnedFd>>) -> (r: Result<
    (Vec<Arg>, Vec<Rc<OwnedFd>>),
    DecodeError,
>)
    ensures
        match dec_payload(types_view(ts@), payload@, fds@) {
            Ok((args, rest)) => r matches Ok((a, f)) && args_view(a@) == args && f@ == rest,
            Err(e) => r == Err::<(Vec<Arg>, Vec<Rc<OwnedFd>>), DecodeError>(e),
        },
{
    let ghost tv = types_view(ts@);
    let mut p = MsgParser::new(payload, fds);
    let mut out: Vec<Arg> = Vec::new();
    let mut i: usize = 0;
    proof {
        assert(tv.skip(0) =~= tv);
        assert(args_view(out@) =~= Seq::<ArgV>::empty());
        match dec_args(tv, payload@, 0, fds@) {
            Ok((a, _, _)) => {
                assert(Seq::<ArgV>::empty() + a =~= a);
            },
            Err(_) => {},
        }
    }
    while i < ts.len()
        invariant
            i <= ts@.len(),
            tv == types_view(ts@),
            p.data@ == payload@,
            dec_args(tv, payload@, 0, fds@) == prefixed(
                args_view(out@),
                dec_args(tv.skip(i as int), payload@, p.pos as int, p.fds@),
            ),
        decreases ts@.len() - i,
    {
        proof {
            assert(tv.skip(i as int).drop_first() =~= tv.skip(i + 1));
            assert(tv.skip(i as int)[0] == ts@[i as int]@);
        }
        let ghost before = p;
        match p.arg(&ts[i]) {
            Ok(a) => {
                proof {
                    assert(args_view(out@.push(a)) =~= args_view(out@) + seq![a@]);
                    let x = dec_args(tv.skip(i + 1), payload@, p.pos as int, p.fds@);
                    match x {
                        Ok((rest, _, _)) => {
                            assert(args_view(out@) + (seq![a@] + rest) =~= args_view(out@) + seq![a@] + rest);
                        },
                        Err(_) => {},
                    }
                }
                out.push(a);
            },
            Err(e) => {
                return Err(e);
            },
        }
        i = i + 1;
    }
    proof {
        assert(args_view(out@) + seq![] =~= args_view(out@));
    }
    if !p.at_end() {
        return Err(DecodeError::TrailingBytes);
    }
    Ok((out, p.fds))
}

/// Decodes the frame at the start of `frame`, whose fields are of types `ts`.
pub fn decode_frame(ts: &Vec<Type>, frame: &[u8], fds: Vec<Rc<OwnedFd>>) -> (r: Result<
    Decoded,
    ToolClientError,
>)
    ensures
        match dec_frame(types_view(ts@), frame@, fds@) {
            Ok((h, args, rest)) => r matches Ok(d) && d.header == h && args_view(d.args@) == args
                && d.fds@ == rest,
            Err(e) => r matches Err(x) && x == e,
        },
{
    if frame.len() < 8 {
        return Err(ToolClientError::Parsing(DecodeError::UnexpectedEof));
    }
    let w0 = u32_from_le_bytes(&frame[0..4]);
    let w1 = u32_from_le_bytes(&frame[4..8]);
    let h = match parse_header(w0, w1) {
        Ok(h) => h,
        Err(e) => return Err(e),
    };
    if h.len as usize > frame.len() {
        return Err(ToolClientError::Parsing(DecodeError::UnexpectedEof));
    }
    match decode_payload(ts, &frame[8..h.len as usize], fds) {
        Ok((args, rest)) => Ok(Decoded { header: h, args, fds: rest }),
        Err(e) => Err(ToolClientError::Parsing(e)),
    }
}

/// A frame that `encode_message` produced decodes to the same header fields and
/// field values, with every descriptor claimed, for every record of the message's
/// field types that fits a frame.
pub proof fn lemma_frame_round_trip(object: u32, opcode: u16, args: Seq<ArgV>, ts: Seq<TypeV>)
    requires
        args_conform(args, ts),
        enc_args(args).len() + 8 <= 0xffff,
    ensures
        dec_frame(ts, enc_frame(object, opcode, enc_args(args)), args_fds(args)) == Ok::<
            (Header, Seq<ArgV>, Seq<Rc<OwnedFd>>),
            ToolClientError,
        >(
            (
                Header { object, len: (enc_args(args).len() + 8) as u32, opcode: opcode as u32 },
                args,
                seq![],
            ),
        ),
{
    lemma_auto_spec_u32_to_from_le_bytes();
    let payload = enc_args(args);
    let len = payload.len() + 8;
    let w1 = (len * 0x10000 + opcode) as u32;
    let s = enc_frame(object, opcode, payload);
    assert(spec_u32_to_le_bytes(object).len() == 4);
    assert(spec_u32_to_le_bytes(w1).len() == 4);
    assert(s.subrange(0, 4) =~= le32(object));
    assert(s.subrange(4, 8) =~= le32(w1));
    assert(w1 / 0x10000 == len && w1 % 0x10000 == opcode as int);
    lemma_round_trip(args, ts);
    assert(s.subrange(8, len as int) =~= payload);
    assert(len % 4 == 0) by {
        lemma_enc_args_aligned(args);
    }
}

proof fn lemma_enc_arg_aligned(a: ArgV)
    requires
        arg_fits(a),
    ensures
        enc_arg(a).len() % 4 == 0,
{
    lemma_auto_spec_u32_to_from_le_bytes();
    match a {
        ArgV::Object(x) => assert(spec_u32_to_le_bytes(x).len() == 4),
        ArgV::Uint(x) => assert(spec_u32_to_le_bytes(x).len() == 4),
        ArgV::Int(x) => assert(spec_u32_to_le_bytes(x as u32).len() == 4),
        ArgV::Fixed(x) => assert(spec_u32_to_le_bytes(x as u32).len() == 4),
        ArgV::Str(cs) => {
            let b = encode_utf8(cs);
            assert(spec_u32_to_le_bytes((b.len() + 1) as u32).len() == 4);
        },
        ArgV::Bytes(b) => {
            assert(spec_u32_to_le_bytes((b.len() + 1) as u32).len() == 4);
        },
        ArgV::Fd(_) => {},
        ArgV::Array(arr) => {
            let ws = array_words(arr);
            lemma_enc_words_len(ws);
            assert(spec_u32_to_le_bytes((4 * ws.len()) as u32).len() == 4);
        },
    }
}

proof fn lemma_enc_args_aligned(args: Seq<ArgV>)
    requires
        forall|i: int| 0 <= i < args.len() ==> arg_fits(#[trigger] args[i]),
    ensures
        enc_args(args).len() % 4 == 0,
    decreases args.len(),
{
    if args.len() > 0 {
        lemma_enc_arg_aligned(args[0]);
        assert forall|i: int| 0 <= i < args.drop_first().len() implies arg_fits(
            #[trigger] args.drop_first()[i],
        ) by {
            assert(args.drop_first()[i] == args[i + 1]);
        }
        lemma_enc_args_aligned(args.drop_first());
    }
}

} // verus!
