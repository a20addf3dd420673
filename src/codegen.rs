use vstd::prelude::*;
use vstd::string::StringSliceAdditionalSpecFns;
use crate::names::{camel, to_camel, to_upper, upper_all};
use crate::parser::{parse_messages, schema_result, SchemaError};
use crate::schema::{
    field_view, fields_view, has_reference_type, is_reference_type, lined_message_view, Field, FieldV, Lined,
    Message, MessageV, Type, TypeV,
};

verus! {

// The fragments of generated source text.
pub const T_ID: &'static str = "Id";
pub const T_U32: &'static str = "u32";
pub const T_I32: &'static str = "i32";
pub const T_STR_IN: &'static str = "&'a str";
pub const T_STR_OUT: &'static str = "String";
pub const T_BSTR_IN: &'static str = "&'a BStr";
pub const T_BSTR_OUT: &'static str = "BString";
pub const T_FIXED: &'static str = "Fixed";
pub const T_FD: &'static str = "Rc<OwnedFd>";
pub const T_ARRAY_IN: &'static str = "ArrayView<'a, ";
pub const T_ARRAY_OUT: &'static str = "Vec<";
pub const T_CLOSE: &'static str = ">";
pub const F_PUB: &'static str = "        pub ";
pub const F_COLON: &'static str = ": ";
pub const F_END: &'static str = ",\n";
pub const S_STRUCT: &'static str = "    pub struct ";
pub const S_SUFFIX_IN: &'static str = "In";
pub const S_SUFFIX_OUT: &'static str = "Out";
pub const S_LIFETIME: &'static str = "<'a>";
pub const S_OPEN: &'static str = " {\n";
pub const S_SELF: &'static str = "        pub self_id: ";
pub const S_SELF_END: &'static str = "Id,\n";
pub const S_CLOSE: &'static str = "    }\n";
pub const S_IMPL: &'static str = "    impl";
pub const S_DEBUG_FOR: &'static str = " std::fmt::Debug for ";
pub const S_FMT_FN: &'static str =
    "        fn fmt(&self, fmt: &mut std::fmt::Formatter<'_>) -> std::fmt::Result {\n";
pub const S_RENDER: &'static str = "            write!(fmt, \"";
pub const S_PAREN: &'static str = "(";
pub const S_SEP: &'static str = ", ";
pub const S_DEBUG: &'static str = "{:?}";
pub const S_DISPLAY: &'static str = "{}";
pub const S_RENDER_END: &'static str = ")\"";
pub const S_SELF_ARG: &'static str = ", self.";
pub const S_CALL_END: &'static str = ")\n";
pub const S_FN_CLOSE: &'static str = "        }\n";
pub const M_NL: &'static str = "\n";
pub const M_CONST: &'static str = "    pub const ";
pub const M_CONST_TY: &'static str = ": u32 = ";
pub const M_SEMI: &'static str = ";\n";
pub const M_IMPL_PARSER: &'static str = "    impl<'a> RequestParser<'a> for ";
pub const M_PARSE_FN: &'static str =
    "        fn parse(parser: &mut MsgParser<'_, 'a>) -> Result<Self, MsgParserError> {\n";
pub const M_OK_SELF: &'static str = "            Ok(Self {\n";
pub const M_SELF_ID: &'static str = "                self_id: ";
pub const M_NONE: &'static str = "Id::NONE,\n";
pub const M_FIELD: &'static str = "                ";
pub const M_PARSER: &'static str = "parser.";
pub const M_CALL: &'static str = "()?,\n";
pub const M_OK_CLOSE: &'static str = "            })\n";
pub const M_IMPL_FORMAT: &'static str = "    impl EventFormatter for ";
pub const M_FORMAT_FN: &'static str =
    "        fn format(self: Box<Self>, fmt: &mut MsgFormatter<'_>) {\n";
pub const M_HEADER: &'static str = "            fmt.header(self.self_id, ";
pub const M_HEADER_END: &'static str = ");\n";
pub const M_ID_FN: &'static str =
    "        fn id(&self) -> ObjectId {\n            self.self_id.into()\n        }\n";
pub const M_IFACE_FN: &'static str =
    "        fn interface(&self) -> crate::object::Interface {\n            crate::object::Interface::";
pub const M_IFACE_END: &'static str = "\n        }\n    }\n";
pub const P_OBJECT: &'static str = "object";
pub const P_UINT: &'static str = "uint";
pub const P_INT: &'static str = "int";
pub const P_STR: &'static str = "str";
pub const P_BSTR: &'static str = "bstr";
pub const P_STRING: &'static str = "string";
pub const P_FIXED: &'static str = "fixed";
pub const P_FD: &'static str = "fd";
pub const P_ARRAY: &'static str = "array_view";
pub const E_INDENT: &'static str = "            ";
pub const E_NEST: &'static str = "        ";
pub const E_FMT: &'static str = "fmt.";
pub const E_OPEN: &'static str = "(";
pub const E_REF: &'static str = "&";
pub const E_CLOSE: &'static str = ");\n";
pub const E_SELF: &'static str = "self.";
pub const E_ARRAY: &'static str = "fmt.array(|fmt| {\n";
pub const E_FOR: &'static str = "    for el in ";
pub const E_ITER: &'static str = ".iter() {\n";
pub const E_ELEM: &'static str = "*el";
pub const E_FOR_CLOSE: &'static str = "    }\n";
pub const E_ARRAY_CLOSE: &'static str = "});\n";
pub const I_ID: &'static str = "id!(";
pub const I_ID_END: &'static str = "Id);\n";
pub const I_MOD: &'static str = "pub mod ";
pub const I_MOD_OPEN: &'static str = " {\n    pub use super::*;\n";
pub const I_MOD_CLOSE: &'static str = "}\n";
pub const H_PRELUDE: &'static str = "use std::rc::Rc;\nuse uapi::OwnedFd;\nuse bstr::{BStr, BString};\nuse crate::fixed::Fixed;\nuse crate::client::{EventFormatter, RequestParser};\nuse crate::object::ObjectId;\nuse crate::utils::buffd::{ArrayView, MsgFormatter, MsgParser, MsgParserError};\n";

/// Which record a type is written for: the one record of a message without
/// reference-kind fields, or the borrowing or owning record of one with them.
#[derive(Copy, Clone, Debug, PartialEq, Eq, Structural)]
pub enum TypeRole {
    Unified,
    In,
    Out,
}

pub open spec fn lit(s: &str) -> Seq<u8> {
    s.spec_bytes()
}

/// The decimal digits of `n`.
pub open spec fn decimal(n: u32) -> Seq<u8>
    decreases n,
{
    if n < 10 {
        seq![(48 + n) as u8]
    } else {
        decimal(n / 10).push((48 + n % 10) as u8)
    }
}

/// The generated type of a field of type `t` in a record of role `role`.
pub open spec fn type_text(t: TypeV, role: TypeRole) -> Seq<u8>
    decreases t,
{
    match t {
        TypeV::Id(id) => id + lit(T_ID),
        TypeV::U32 => lit(T_U32),
        TypeV::I32 => lit(T_I32),
        TypeV::Str => if role == TypeRole::In {
            lit(T_STR_IN)
        } else {
            lit(T_STR_OUT)
        },
        TypeV::BStr => if role == TypeRole::In {
            lit(T_BSTR_IN)
        } else {
            lit(T_BSTR_OUT)
        },
        TypeV::Fixed => lit(T_FIXED),
        TypeV::Fd => lit(T_FD),
        TypeV::Array(e) => if role == TypeRole::In {
            lit(T_ARRAY_IN) + type_text(*e, role) + lit(T_CLOSE)
        } else {
            lit(T_ARRAY_OUT) + type_text(*e, role) + lit(T_CLOSE)
        },
    }
}

pub open spec fn field_text(f: FieldV, role: TypeRole) -> Seq<u8> {
    lit(F_PUB) + f.name + lit(F_COLON) + type_text(f.ty, role) + lit(F_END)
}

pub open spec fn fields_text(fs: Seq<FieldV>, role: TypeRole) -> Seq<u8>
    decreases fs.len(),
{
    if fs.len() == 0 {
        seq![]
    } else {
        fields_text(fs.drop_last(), role) + field_text(fs.last(), role)
    }
}

/// Whether a field renders with debug formatting rather than plain display.
pub open spec fn renders_debug(t: TypeV) -> bool {
    match t {
        TypeV::Str | TypeV::Fd | TypeV::Array(_) => true,
        _ => false,
    }
}

pub open spec fn render_item(f: FieldV) -> Seq<u8> {
    f.name + lit(F_COLON) + if renders_debug(f.ty) {
        lit(S_DEBUG)
    } else {
        lit(S_DISPLAY)
    }
}

/// The placeholders of the rendering: `name: {}` per field, comma-separated.
pub open spec fn render_items(fs: Seq<FieldV>) -> Seq<u8>
    decreases fs.len(),
{
    if fs.len() == 0 {
        seq![]
    } else {
        render_items(fs.drop_last()) + (if fs.len() > 1 {
            lit(S_SEP)
        } else {
            seq![]
        }) + render_item(fs.last())
    }
}

pub open spec fn render_args(fs: Seq<FieldV>) -> Seq<u8>
    decreases fs.len(),
{
    if fs.len() == 0 {
        seq![]
    } else {
        render_args(fs.drop_last()) + lit(S_SELF_ARG) + fs.last().name
    }
}

pub open spec fn suffix(role: TypeRole) -> Seq<u8> {
    match role {
        TypeRole::Unified => seq![],
        TypeRole::In => lit(S_SUFFIX_IN),
        TypeRole::Out => lit(S_SUFFIX_OUT),
    }
}

pub open spec fn lifetime(role: TypeRole) -> Seq<u8> {
    if role == TypeRole::In {
        lit(S_LIFETIME)
    } else {
        seq![]
    }
}

/// A record type of message `m` of interface `obj`, with its debug rendering.
#[verifier::opaque]
pub open spec fn record_text(obj: Seq<u8>, m: MessageV, role: TypeRole) -> Seq<u8> {
    lit(S_STRUCT) + m.camel_name + suffix(role) + lifetime(role) + lit(S_OPEN) + lit(S_SELF) + obj
        + lit(S_SELF_END) + fields_text(m.fields, role) + lit(S_CLOSE) + lit(S_IMPL) + lifetime(
        role,
    ) + lit(S_DEBUG_FOR) + m.camel_name + suffix(role) + lifetime(role) + lit(S_OPEN) + lit(
        S_FMT_FN,
    ) + lit(S_RENDER) + m.name + lit(S_PAREN) + render_items(m.fields) + lit(S_RENDER_END)
        + render_args(m.fields) + lit(S_CALL_END) + lit(S_FN_CLOSE) + lit(S_CLOSE)
}

/// The read primitive of a field type.
pub open spec fn read_prim(t: TypeV) -> Seq<u8> {
    match t {
        TypeV::Id(_) => lit(P_OBJECT),
        TypeV::U32 => lit(P_UINT),
        TypeV::I32 => lit(P_INT),
        TypeV::Str => lit(P_STR),
        TypeV::BStr => lit(P_BSTR),
        TypeV::Fixed => lit(P_FIXED),
        TypeV::Fd => lit(P_FD),
        TypeV::Array(_) => lit(P_ARRAY),
    }
}

/// The write primitive of a non-array field type.
pub open spec fn write_prim(t: TypeV) -> Seq<u8> {
    match t {
        TypeV::Id(_) => lit(P_OBJECT),
        TypeV::U32 => lit(P_UINT),
        TypeV::I32 => lit(P_INT),
        TypeV::Str | TypeV::BStr => lit(P_STRING),
        TypeV::Fixed => lit(P_FIXED),
        _ => lit(P_FD),
    }
}

pub open spec fn decode_text(fs: Seq<FieldV>) -> Seq<u8>
    decreases fs.len(),
{
    if fs.len() == 0 {
        seq![]
    } else {
        decode_text(fs.drop_last()) + lit(M_FIELD) + fs.last().name + lit(F_COLON) + lit(M_PARSER)
            + read_prim(fs.last().ty) + lit(M_CALL)
    }
}

pub open spec fn ref_mark(t: TypeV) -> Seq<u8> {
    if t is Str || t is BStr {
        lit(E_REF)
    } else {
        seq![]
    }
}

/// The statements that write a value of type `t` found at `access`, indented by `prefix`.
pub open spec fn encode_expr(prefix: Seq<u8>, t: TypeV, access: Seq<u8>) -> Seq<u8>
    decreases t,
{
    match t {
        TypeV::Array(e) => lit(E_INDENT) + prefix + lit(E_ARRAY) + lit(E_INDENT) + prefix + lit(
            E_FOR,
        ) + access + lit(E_ITER) + encode_expr(lit(E_NEST) + prefix, *e, lit(E_ELEM)) + lit(
            E_INDENT,
        ) + prefix + lit(E_FOR_CLOSE) + lit(E_INDENT) + prefix + lit(E_ARRAY_CLOSE),
        _ => lit(E_INDENT) + prefix + lit(E_FMT) + write_prim(t) + lit(E_OPEN) + ref_mark(t) + access
            + lit(E_CLOSE),
    }
}

pub open spec fn encode_text(fs: Seq<FieldV>) -> Seq<u8>
    decreases fs.len(),
{
    if fs.len() == 0 {
        seq![]
    } else {
        encode_text(fs.drop_last()) + encode_expr(seq![], fs.last().ty, lit(E_SELF) + fs.last().name)
    }
}

/// The record types of message `m`: a borrowing and an owning one when a field is
/// of a reference kind, else one unified record.
pub open spec fn records_text(obj: Seq<u8>, m: MessageV) -> Seq<u8> {
    if has_reference_type(m.fields) {
        record_text(obj, m, TypeRole::In) + record_text(obj, m, TypeRole::Out)
    } else {
        record_text(obj, m, TypeRole::Unified)
    }
}

pub open spec fn in_suffix(r: bool) -> Seq<u8> {
    if r {
        lit(S_SUFFIX_IN) + lit(S_LIFETIME)
    } else {
        seq![]
    }
}

pub open spec fn out_suffix(r: bool) -> Seq<u8> {
    if r {
        lit(S_SUFFIX_OUT)
    } else {
        seq![]
    }
}

/// Everything generated for message `m` of interface `obj`: the opcode constant, the
/// record types, the decoder and the encoder.
#[verifier::opaque]
pub open spec fn message_text(obj: Seq<u8>, m: MessageV) -> Seq<u8> {
    lit(M_NL) + lit(M_CONST) + upper_all(m.name) + lit(M_CONST_TY) + decimal(m.id) + lit(M_SEMI)
        + records_text(obj, m) + lit(M_IMPL_PARSER) + m.camel_name + in_suffix(
        has_reference_type(m.fields),
    ) + lit(S_OPEN) + lit(M_PARSE_FN) + lit(M_OK_SELF) + lit(M_SELF_ID) + obj + lit(M_NONE)
        + decode_text(m.fields) + lit(M_OK_CLOSE) + lit(S_FN_CLOSE) + lit(S_CLOSE) + lit(
        M_IMPL_FORMAT,
    ) + m.camel_name + out_suffix(has_reference_type(m.fields)) + lit(S_OPEN) + lit(M_FORMAT_FN)
        + lit(M_HEADER) + upper_all(m.name) + lit(M_HEADER_END) + encode_text(m.fields) + lit(
        S_FN_CLOSE,
    ) + lit(M_ID_FN) + lit(M_IFACE_FN) + obj + lit(M_IFACE_END)
}

pub open spec fn messages_text(obj: Seq<u8>, ms: Seq<(u32, MessageV)>) -> Seq<u8>
    decreases ms.len(),
{
    if ms.len() == 0 {
        seq![]
    } else {
        messages_text(obj, ms.drop_last()) + message_text(obj, ms.last().1)
    }
}

/// The bytes of a file name before its first dot.
pub open spec fn stem(s: Seq<u8>) -> Seq<u8>
    decreases s.len(),
{
    if s.len() == 0 || s[0] == 46 {
        seq![]
    } else {
        seq![s[0]] + stem(s.drop_first())
    }
}

/// The namespace generated for the interface of schema file `file_name` with messages `ms`.
pub open spec fn interface_text(file_name: Seq<u8>, ms: Seq<(u32, MessageV)>) -> Seq<u8> {
    let obj = stem(file_name);
    let camel_obj = camel(obj);
    lit(M_NL) + lit(I_ID) + camel_obj + lit(I_ID_END) + module_text(obj, camel_obj, ms)
}

/// The module that holds the messages of an interface; none when it has no messages.
pub open spec fn module_text(obj: Seq<u8>, camel_obj: Seq<u8>, ms: Seq<(u32, MessageV)>) -> Seq<u8> {
    if ms.len() == 0 {
        seq![]
    } else {
        lit(M_NL) + lit(I_MOD) + obj + lit(I_MOD_OPEN) + messages_text(camel_obj, ms) + lit(
            I_MOD_CLOSE,
        )
    }
}

// ---------------------------------------------------------------------------
// Writing

fn put(out: &mut Vec<u8>, b: &[u8])
    ensures
        final(out)@ == old(out)@ + b@,
{
    let mut i: usize = 0;
    while i < b.len()
        invariant
            i <= b@.len(),
            out@ == old(out)@ + b@.take(i as int),
        decreases b@.len() - i,
    {
        out.push(b[i]);
        proof {
            assert(b@.take(i + 1) =~= b@.take(i as int).push(b@[i as int]));
        }
        i = i + 1;
    }
    proof {
        assert(b@.take(b@.len() as int) =~= b@);
    }
}

fn emit(out: &mut Vec<u8>, s: &str)
    ensures
        final(out)@ == old(out)@ + lit(s),
{
    put(out, s.as_bytes());
}

/// Writes `n` in decimal.
pub fn write_decimal(out: &mut Vec<u8>, n: u32)
    ensures
        final(out)@ == old(out)@ + decimal(n),
    decreases n,
{
    if n >= 10 {
        write_decimal(out, n / 10);
    }
    out.push((48 + n % 10) as u8);
    proof {
        if n >= 10 {
            assert(decimal(n) =~= decimal(n / 10).push((48 + n % 10) as u8));
        }
    }
}

/// Writes the generated type of a field of type `ty` for a record of role `role`.
pub fn write_type(out: &mut Vec<u8>, ty: &Type, role: TypeRole)
    ensures
        final(out)@ == old(out)@ + type_text(ty@, role),
    decreases ty,
{
    match ty {
        Type::Id(id) => {
            put(out, id.as_slice());
            emit(out, T_ID);
        },
        Type::U32 => emit(out, T_U32),
        Type::I32 => emit(out, T_I32),
        Type::Str => if role == TypeRole::In {
            emit(out, T_STR_IN)
        } else {
            emit(out, T_STR_OUT)
        },
        Type::BStr => if role == TypeRole::In {
            emit(out, T_BSTR_IN)
        } else {
            emit(out, T_BSTR_OUT)
        },
        Type::Fixed => emit(out, T_FIXED),
        Type::Fd => emit(out, T_FD),
        Type::Array(e) => {
            if role == TypeRole::In {
                emit(out, T_ARRAY_IN);
            } else {
                emit(out, T_ARRAY_OUT);
            }
            write_type(out, e, role);
            emit(out, T_CLOSE);
        },
    }
    proof {
        assert(final(out)@ =~= old(out)@ + type_text(ty@, role));
    }
}

proof fn lemma_assoc(a: Seq<u8>, b: Seq<u8>, c: Seq<u8>)
    ensures
        a + b + c == a + (b + c),
{
    assert(a + b + c =~= a + (b + c));
}

fn emit_next(out: &mut Vec<u8>, s: &str, Ghost(base): Ghost<Seq<u8>>, Ghost(acc): Ghost<Seq<u8>>)
    requires
        old(out)@ == base + acc,
    ensures
        final(out)@ == base + (acc + lit(s)),
{
    emit(out, s);
    proof {
        lemma_assoc(base, acc, lit(s));
    }
}

fn put_next(out: &mut Vec<u8>, b: &[u8], Ghost(base): Ghost<Seq<u8>>, Ghost(acc): Ghost<Seq<u8>>)
    requires
        old(out)@ == base + acc,
    ensures
        final(out)@ == base + (acc + b@),
{
    put(out, b);
    proof {
        lemma_assoc(base, acc, b@);
    }
}

proof fn lemma_take_step<T>(s: Seq<T>, i: int)
    requires
        0 <= i < s.len(),
    ensures
        s.take(i + 1).drop_last() == s.take(i),
        s.take(i + 1).last() == s[i],
        s.take(i + 1).len() == i + 1,
{
    assert(s.take(i + 1).drop_last() =~= s.take(i));
}

/// Writes one field declaration of a record of role `role`.
pub fn write_field(out: &mut Vec<u8>, field: &Lined<Field>, role: TypeRole)
    ensures
        final(out)@ == old(out)@ + field_text(field_view(*field), role),
{
    let ghost base = out@;
    emit(out, F_PUB);
    let ghost mut acc = lit(F_PUB);
    put_next(out, field.val.name.as_slice(), Ghost(base), Ghost(acc));
    proof { acc = acc + field.val.name@; }
    emit_next(out, F_COLON, Ghost(base), Ghost(acc));
    proof { acc = acc + lit(F_COLON); }
    write_type(out, &field.val.ty.val, role);
    proof { lemma_assoc(base, acc, type_text(field.val.ty.val@, role)); acc = acc + type_text(field.val.ty.val@, role); }
    emit_next(out, F_END, Ghost(base), Ghost(acc));
    proof { acc = acc + lit(F_END); }
    proof { assert(acc == field_text(field_view(*field), role)); }
}

/// Writes the field declarations of a record.
fn write_fields(out: &mut Vec<u8>, fields: &Vec<Lined<Field>>, role: TypeRole)
    ensures
        final(out)@ == old(out)@ + fields_text(fields_view(fields@), role),
{
    let ghost fv = fields_view(fields@);
    let ghost base = out@;
    let mut i: usize = 0;
    while i < fields.len()
        invariant
            i <= fields@.len(),
            fv == fields_view(fields@),
            out@ == base + fields_text(fv.take(i as int), role),
        decreases fields@.len() - i,
    {
        proof {
            lemma_take_step(fv, i as int);
        }
        let ghost before = out@;
        write_field(out, &fields[i], role);
        proof {
            assert(out@ =~= base + fields_text(fv.take(i + 1), role));
        }
        i = i + 1;
    }
    proof {
        assert(fv.take(i as int) =~= fv);
    }
}

fn renders_debug_type(t: &Type) -> (r: bool)
    ensures
        r == renders_debug(t@),
{
    match t {
        Type::Str | Type::Fd | Type::Array(_) => true,
        _ => false,
    }
}

/// Writes the placeholders of a record's rendering.
fn write_render_items(out: &mut Vec<u8>, fields: &Vec<Lined<Field>>)
    ensures
        final(out)@ == old(out)@ + render_items(fields_view(fields@)),
{
    let ghost fv = fields_view(fields@);
    let ghost base = out@;
    let mut i: usize = 0;
    while i < fields.len()
        invariant
            i <= fields@.len(),
            fv == fields_view(fields@),
            out@ == base + render_items(fv.take(i as int)),
        decreases fields@.len() - i,
    {
        proof {
            lemma_take_step(fv, i as int);
        }
        let ghost before = out@;
        if i > 0 {
            emit(out, S_SEP);
        }
        let field = &fields[i];
        put(out, field.val.name.as_slice());
        emit(out, F_COLON);
        if renders_debug_type(&field.val.ty.val) {
            emit(out, S_DEBUG);
        } else {
            emit(out, S_DISPLAY);
        }
        proof {
            assert(out@ =~= base + render_items(fv.take(i + 1)));
        }
        i = i + 1;
    }
    proof {
        assert(fv.take(i as int) =~= fv);
    }
}

/// Writes the arguments of a record's rendering.
fn write_render_args(out: &mut Vec<u8>, fields: &Vec<Lined<Field>>)
    ensures
        final(out)@ == old(out)@ + render_args(fields_view(fields@)),
{
    let ghost fv = fields_view(fields@);
    let ghost base = out@;
    let mut i: usize = 0;
    while i < fields.len()
        invariant
            i <= fields@.len(),
            fv == fields_view(fields@),
            out@ == base + render_args(fv.take(i as int)),
        decreases fields@.len() - i,
    {
        proof {
            lemma_take_step(fv, i as int);
        }
        let ghost before = out@;
        emit(out, S_SELF_ARG);
        put(out, fields[i].val.name.as_slice());
        proof {
            assert(out@ =~= base + render_args(fv.take(i + 1)));
        }
        i = i + 1;
    }
    proof {
        assert(fv.take(i as int) =~= fv);
    }
}

/// Writes one record type of `message` for role `role`, with its debug rendering.
pub fn write_message_type(out: &mut Vec<u8>, obj: &[u8], message: &Message, role: TypeRole)
    ensures
        final(out)@ == old(out)@ + record_text(obj@, message@, role),
{
    let suffix_text: &str = match role {
        TypeRole::Unified => "",
        TypeRole::In => S_SUFFIX_IN,
        TypeRole::Out => S_SUFFIX_OUT,
    };
    let lifetime_text: &str = if role == TypeRole::In {
        S_LIFETIME
    } else {
        ""
    };
    proof {
        reveal_strlit("");
        assert(lit(suffix_text) == suffix(role));
        assert(lit(lifetime_text) == lifetime(role));
    }
    let ghost base = out@;
    emit(out, S_STRUCT);
    let ghost mut acc = lit(S_STRUCT);
    put_next(out, message.camel_name.as_slice(), Ghost(base), Ghost(acc));
    proof { acc = acc + message@.camel_name; }
    emit_next(out, suffix_text, Ghost(base), Ghost(acc));
    proof { acc = acc + suffix(role); }
    emit_next(out, lifetime_text, Ghost(base), Ghost(acc));
    proof { acc = acc + lifetime(role); }
    emit_next(out, S_OPEN, Ghost(base), Ghost(acc));
    proof { acc = acc + lit(S_OPEN); }
    emit_next(out, S_SELF, Ghost(base), Ghost(acc));
    proof { acc = acc + lit(S_SELF); }
    put_next(out, obj, Ghost(base), Ghost(acc));
    proof { acc = acc + obj@; }
    emit_next(out, S_SELF_END, Ghost(base), Ghost(acc));
    proof { acc = acc + lit(S_SELF_END); }
    write_fields(out, &message.fields, role);
    proof { lemma_assoc(base, acc, fields_text(message@.fields, role)); acc = acc + fields_text(message@.fields, role); }
    emit_next(out, S_CLOSE, Ghost(base), Ghost(acc));
    proof { acc = acc + lit(S_CLOSE); }
    emit_next(out, S_IMPL, Ghost(base), Ghost(acc));
    proof { acc = acc + lit(S_IMPL); }
    emit_next(out, lifetime_text, Ghost(base), Ghost(acc));
    proof { acc = acc + lifetime(role); }
    emit_next(out, S_DEBUG_FOR, Ghost(base), Ghost(acc));
    proof { acc = acc + lit(S_DEBUG_FOR); }
    put_next(out, message.camel_name.as_slice(), Ghost(base), Ghost(acc));
    proof { acc = acc + message@.camel_name; }
    emit_next(out, suffix_text, Ghost(base), Ghost(acc));
    proof { acc = acc + suffix(role); }
    emit_next(out, lifetime_text, Ghost(base), Ghost(acc));
    proof { acc = acc + lifetime(role); }
    emit_next(out, S_OPEN, Ghost(base), Ghost(acc));
    proof { acc = acc + lit(S_OPEN); }
    emit_next(out, S_FMT_FN, Ghost(base), Ghost(acc));
    proof { acc = acc + lit(S_FMT_FN); }
    emit_next(out, S_RENDER, Ghost(base), Ghost(acc));
    proof { acc = acc + lit(S_RENDER); }
    put_next(out, message.name.as_slice(), Ghost(base), Ghost(acc));
    proof { acc = acc + message@.name; }
    emit_next(out, S_PAREN, Ghost(base), Ghost(acc));
    proof { acc = acc + lit(S_PAREN); }
    write_render_items(out, &message.fields);
    proof { lemma_assoc(base, acc, render_items(message@.fields)); acc = acc + render_items(message@.fields); }
    emit_next(out, S_RENDER_END, Ghost(base), Ghost(acc));
    proof { acc = acc + lit(S_RENDER_END); }
    write_render_args(out, &message.fields);
    proof { lemma_assoc(base, acc, render_args(message@.fields)); acc = acc + render_args(message@.fields); }
    emit_next(out, S_CALL_END, Ghost(base), Ghost(acc));
    proof { acc = acc + lit(S_CALL_END); }
    emit_next(out, S_FN_CLOSE, Ghost(base), Ghost(acc));
    proof { acc = acc + lit(S_FN_CLOSE); }
    emit_next(out, S_CLOSE, Ghost(base), Ghost(acc));
    proof { acc = acc + lit(S_CLOSE); }
    proof { reveal(record_text); assert(acc == record_text(obj@, message@, role)); }
}

fn read_prim_text(t: &Type) -> (r: &'static str)
    ensures
        lit(r) == read_prim(t@),
{
    match t {
        Type::Id(_) => P_OBJECT,
        Type::U32 => P_UINT,
        Type::I32 => P_INT,
        Type::Str => P_STR,
        Type::BStr => P_BSTR,
        Type::Fixed => P_FIXED,
        Type::Fd => P_FD,
        Type::Array(_) => P_ARRAY,
    }
}

fn write_prim_text(t: &Type) -> (r: &'static str)
    ensures
        !(t@ is Array) ==> lit(r) == write_prim(t@),
{
    match t {
        Type::Id(_) => P_OBJECT,
        Type::U32 => P_UINT,
        Type::I32 => P_INT,
        Type::Str | Type::BStr => P_STRING,
        Type::Fixed => P_FIXED,
        _ => P_FD,
    }
}

/// Writes the field initialisers of a decoder.
fn write_decode_fields(out: &mut Vec<u8>, fields: &Vec<Lined<Field>>)
    ensures
        final(out)@ == old(out)@ + decode_text(fields_view(fields@)),
{
    let ghost fv = fields_view(fields@);
    let ghost base = out@;
    let mut i: usize = 0;
    while i < fields.len()
        invariant
            i <= fields@.len(),
            fv == fields_view(fields@),
            out@ == base + decode_text(fv.take(i as int)),
        decreases fields@.len() - i,
    {
        proof {
            lemma_take_step(fv, i as int);
        }
        let ghost before = out@;
        let field = &fields[i];
        emit(out, M_FIELD);
        put(out, field.val.name.as_slice());
        emit(out, F_COLON);
        emit(out, M_PARSER);
        emit(out, read_prim_text(&field.val.ty.val));
        emit(out, M_CALL);
        proof {
            assert(out@ =~= base + decode_text(fv.take(i + 1)));
        }
        i = i + 1;
    }
    proof {
        assert(fv.take(i as int) =~= fv);
    }
}

/// Writes the statements that encode a value of type `ty` found at `access`.
pub fn write_encode_expr(out: &mut Vec<u8>, prefix: &[u8], ty: &Type, access: &[u8])
    ensures
        final(out)@ == old(out)@ + encode_expr(prefix@, ty@, access@),
    decreases ty,
{
    match ty {
        Type::Array(e) => {
            let mut nested: Vec<u8> = Vec::new();
            put(&mut nested, E_NEST.as_bytes());
            put(&mut nested, prefix);
            proof {
                assert(nested@ =~= lit(E_NEST) + prefix@);
            }
            let ghost base = out@;
            emit(out, E_INDENT);
            let ghost mut acc = lit(E_INDENT);
            put_next(out, prefix, Ghost(base), Ghost(acc));
            proof { acc = acc + prefix@; }
            emit_next(out, E_ARRAY, Ghost(base), Ghost(acc));
            proof { acc = acc + lit(E_ARRAY); }
            emit_next(out, E_INDENT, Ghost(base), Ghost(acc));
            proof { acc = acc + lit(E_INDENT); }
            put_next(out, prefix, Ghost(base), Ghost(acc));
            proof { acc = acc + prefix@; }
            emit_next(out, E_FOR, Ghost(base), Ghost(acc));
            proof { acc = acc + lit(E_FOR); }
            put_next(out, access, Ghost(base), Ghost(acc));
            proof { acc = acc + access@; }
            emit_next(out, E_ITER, Ghost(base), Ghost(acc));
            proof { acc = acc + lit(E_ITER); }
            write_encode_expr(out, nested.as_slice(), e, E_ELEM.as_bytes());
            proof { lemma_assoc(base, acc, encode_expr(lit(E_NEST) + prefix@, (**e)@, lit(E_ELEM))); acc = acc + encode_expr(lit(E_NEST) + prefix@, (**e)@, lit(E_ELEM)); }
            emit_next(out, E_INDENT, Ghost(base), Ghost(acc));
            proof { acc = acc + lit(E_INDENT); }
            put_next(out, prefix, Ghost(base), Ghost(acc));
            proof { acc = acc + prefix@; }
            emit_next(out, E_FOR_CLOSE, Ghost(base), Ghost(acc));
            proof { acc = acc + lit(E_FOR_CLOSE); }
            emit_next(out, E_INDENT, Ghost(base), Ghost(acc));
            proof { acc = acc + lit(E_INDENT); }
            put_next(out, prefix, Ghost(base), Ghost(acc));
            proof { acc = acc + prefix@; }
            emit_next(out, E_ARRAY_CLOSE, Ghost(base), Ghost(acc));
            proof { acc = acc + lit(E_ARRAY_CLOSE); }
            proof { assert(acc == encode_expr(prefix@, ty@, access@)); }
        },
        _ => {
            let ref_text: &str = match ty {
                Type::Str | Type::BStr => E_REF,
                _ => "",
            };
            proof {
                reveal_strlit("");
                assert(lit(ref_text) == ref_mark(ty@));
            }
            let ghost base = out@;
            emit(out, E_INDENT);
            let ghost mut acc = lit(E_INDENT);
            put_next(out, prefix, Ghost(base), Ghost(acc));
            proof { acc = acc + prefix@; }
            emit_next(out, E_FMT, Ghost(base), Ghost(acc));
            proof { acc = acc + lit(E_FMT); }
            emit_next(out, write_prim_text(ty), Ghost(base), Ghost(acc));
            proof { acc = acc + write_prim(ty@); }
            emit_next(out, E_OPEN, Ghost(base), Ghost(acc));
            proof { acc = acc + lit(E_OPEN); }
            emit_next(out, ref_text, Ghost(base), Ghost(acc));
            proof { acc = acc + ref_mark(ty@); }
            put_next(out, access, Ghost(base), Ghost(acc));
            proof { acc = acc + access@; }
            emit_next(out, E_CLOSE, Ghost(base), Ghost(acc));
            proof { acc = acc + lit(E_CLOSE); }
            proof { assert(acc == encode_expr(prefix@, ty@, access@)); }
        },
    }
}

/// Writes the statements that encode the fields of a record.
fn write_encode_fields(out: &mut Vec<u8>, fields: &Vec<Lined<Field>>)
    ensures
        final(out)@ == old(out)@ + encode_text(fields_view(fields@)),
{
    let ghost fv = fields_view(fields@);
    let ghost base = out@;
    let mut i: usize = 0;
    while i < fields.len()
        invariant
            i <= fields@.len(),
            fv == fields_view(fields@),
            out@ == base + encode_text(fv.take(i as int)),
        decreases fields@.len() - i,
    {
        proof {
            lemma_take_step(fv, i as int);
        }
        let ghost before = out@;
        let field = &fields[i];
        let mut access: Vec<u8> = Vec::new();
        put(&mut access, E_SELF.as_bytes());
        put(&mut access, field.val.name.as_slice());
        let empty: [u8; 0] = [];
        proof {
            assert(empty@ =~= Seq::<u8>::empty());
            assert(access@ =~= lit(E_SELF) + field.val.name@);
        }
        write_encode_expr(out, empty.as_slice(), &field.val.ty.val, access.as_slice());
        proof {
            assert(out@ =~= base + encode_text(fv.take(i + 1)));
        }
        i = i + 1;
    }
    proof {
        assert(fv.take(i as int) =~= fv);
    }
}

fn has_reference(fields: &Vec<Lined<Field>>) -> (r: bool)
    ensures
        r == has_reference_type(fields_view(fields@)),
{
    let ghost fv = fields_view(fields@);
    let mut i: usize = 0;
    while i < fields.len()
        invariant
            i <= fields@.len(),
            fv == fields_view(fields@),
            forall|j: int| 0 <= j < i ==> !is_reference_type(#[trigger] fv[j].ty),
        decreases fields@.len() - i,
    {
        if fields[i].val.ty.val.is_reference() {
            proof {
                assert(fv[i as int].ty == fields@[i as int].val.ty.val@);
                assert(is_reference_type(fv[i as int].ty));
            }
            return true;
        }
        i = i + 1;
    }
    false
}

fn write_records(out: &mut Vec<u8>, obj: &[u8], message: &Message, has_reference_type: bool)
    requires
        has_reference_type == crate::schema::has_reference_type(message@.fields),
    ensures
        final(out)@ == old(out)@ + records_text(obj@, message@),
{
    if has_reference_type {
        write_message_type(out, obj, message, TypeRole::In);
        write_message_type(out, obj, message, TypeRole::Out);
        proof {
            lemma_assoc(old(out)@, record_text(obj@, message@, TypeRole::In), record_text(obj@, message@, TypeRole::Out));
        }
    } else {
        write_message_type(out, obj, message, TypeRole::Unified);
    }
}

fn write_in_suffix(out: &mut Vec<u8>, r: bool)
    ensures
        final(out)@ == old(out)@ + in_suffix(r),
{
    if r {
        emit(out, S_SUFFIX_IN);
        emit(out, S_LIFETIME);
        proof {
            lemma_assoc(old(out)@, lit(S_SUFFIX_IN), lit(S_LIFETIME));
        }
    } else {
        proof {
            assert(out@ =~= old(out)@ + in_suffix(r));
        }
    }
}

fn write_out_suffix(out: &mut Vec<u8>, r: bool)
    ensures
        final(out)@ == old(out)@ + out_suffix(r),
{
    if r {
        emit(out, S_SUFFIX_OUT);
    } else {
        proof {
            assert(out@ =~= old(out)@ + out_suffix(r));
        }
    }
}

/// Writes everything generated for `message` of interface `obj`.
pub fn write_message(out: &mut Vec<u8>, obj: &[u8], message: &Message)
    ensures
        final(out)@ == old(out)@ + message_text(obj@, message@),
{
    let has_ref = has_reference(&message.fields);
    let uppercase = to_upper(message.name.as_slice());
    let ghost base = out@;
    emit(out, M_NL);
    let ghost mut acc = lit(M_NL);
    emit_next(out, M_CONST, Ghost(base), Ghost(acc));
    proof { acc = acc + lit(M_CONST); }
    put_next(out, uppercase.as_slice(), Ghost(base), Ghost(acc));
    proof { acc = acc + upper_all(message@.name); }
    emit_next(out, M_CONST_TY, Ghost(base), Ghost(acc));
    proof { acc = acc + lit(M_CONST_TY); }
    write_decimal(out, message.id.val);
    proof { lemma_assoc(base, acc, decimal(message@.id)); acc = acc + decimal(message@.id); }
    emit_next(out, M_SEMI, Ghost(base), Ghost(acc));
    proof { acc = acc + lit(M_SEMI); }
    write_records(out, obj, message, has_ref);
    proof { lemma_assoc(base, acc, records_text(obj@, message@)); acc = acc + records_text(obj@, message@); }
    emit_next(out, M_IMPL_PARSER, Ghost(base), Ghost(acc));
    proof { acc = acc + lit(M_IMPL_PARSER); }
    put_next(out, message.camel_name.as_slice(), Ghost(base), Ghost(acc));
    proof { acc = acc + message@.camel_name; }
    write_in_suffix(out, has_ref);
    proof { lemma_assoc(base, acc, in_suffix(has_reference_type(message@.fields))); acc = acc + in_suffix(has_reference_type(message@.fields)); }
    emit_next(out, S_OPEN, Ghost(base), Ghost(acc));
    proof { acc = acc + lit(S_OPEN); }
    emit_next(out, M_PARSE_FN, Ghost(base), Ghost(acc));
    proof { acc = acc + lit(M_PARSE_FN); }
    emit_next(out, M_OK_SELF, Ghost(base), Ghost(acc));
    proof { acc = acc + lit(M_OK_SELF); }
    emit_next(out, M_SELF_ID, Ghost(base), Ghost(acc));
    proof { acc = acc + lit(M_SELF_ID); }
    put_next(out, obj, Ghost(base), Ghost(acc));
    proof { acc = acc + obj@; }
    emit_next(out, M_NONE, Ghost(base), Ghost(acc));
    proof { acc = acc + lit(M_NONE); }
    write_decode_fields(out, &message.fields);
    proof { lemma_assoc(base, acc, decode_text(message@.fields)); acc = acc + decode_text(message@.fields); }
    emit_next(out, M_OK_CLOSE, Ghost(base), Ghost(acc));
    proof { acc = acc + lit(M_OK_CLOSE); }
    emit_next(out, S_FN_CLOSE, Ghost(base), Ghost(acc));
    proof { acc = acc + lit(S_FN_CLOSE); }
    emit_next(out, S_CLOSE, Ghost(base), Ghost(acc));
    proof { acc = acc + lit(S_CLOSE); }
    emit_next(out, M_IMPL_FORMAT, Ghost(base), Ghost(acc));
    proof { acc = acc + lit(M_IMPL_FORMAT); }
    put_next(out, message.camel_name.as_slice(), Ghost(base), Ghost(acc));
    proof { acc = acc + message@.camel_name; }
    write_out_suffix(out, has_ref);
    proof { lemma_assoc(base, acc, out_suffix(has_reference_type(message@.fields))); acc = acc + out_suffix(has_reference_type(message@.fields)); }
    emit_next(out, S_OPEN, Ghost(base), Ghost(acc));
    proof { acc = acc + lit(S_OPEN); }
    emit_next(out, M_FORMAT_FN, Ghost(base), Ghost(acc));
    proof { acc = acc + lit(M_FORMAT_FN); }
    emit_next(out, M_HEADER, Ghost(base), Ghost(acc));
    proof { acc = acc + lit(M_HEADER); }
    put_next(out, uppercase.as_slice(), Ghost(base), Ghost(acc));
    proof { acc = acc + upper_all(message@.name); }
    emit_next(out, M_HEADER_END, Ghost(base), Ghost(acc));
    proof { acc = acc + lit(M_HEADER_END); }
    write_encode_fields(out, &message.fields);
    proof { lemma_assoc(base, acc, encode_text(message@.fields)); acc = acc + encode_text(message@.fields); }
    emit_next(out, S_FN_CLOSE, Ghost(base), Ghost(acc));
    proof { acc = acc + lit(S_FN_CLOSE); }
    emit_next(out, M_ID_FN, Ghost(base), Ghost(acc));
    proof { acc = acc + lit(M_ID_FN); }
    emit_next(out, M_IFACE_FN, Ghost(base), Ghost(acc));
    proof { acc = acc + lit(M_IFACE_FN); }
    put_next(out, obj, Ghost(base), Ghost(acc));
    proof { acc = acc + obj@; }
    emit_next(out, M_IFACE_END, Ghost(base), Ghost(acc));
    proof { acc = acc + lit(M_IFACE_END); }
    proof { reveal(message_text); assert(acc == message_text(obj@, message@)); }
}

fn write_messages(out: &mut Vec<u8>, obj: &[u8], messages: &Vec<Lined<Message>>)
    ensures
        final(out)@ == old(out)@ + messages_text(
            obj@,
            messages@.map_values(|m: Lined<Message>| lined_message_view(m)),
        ),
{
    let ghost ms = messages@.map_values(|m: Lined<Message>| lined_message_view(m));
    let ghost base = out@;
    let mut i: usize = 0;
    while i < messages.len()
        invariant
            i <= messages@.len(),
            ms == messages@.map_values(|m: Lined<Message>| lined_message_view(m)),
            out@ == base + messages_text(obj@, ms.take(i as int)),
        decreases messages@.len() - i,
    {
        proof {
            lemma_take_step(ms, i as int);
        }
        write_message(out, obj, &messages[i].val);
        proof {
            lemma_assoc(base, messages_text(obj@, ms.take(i as int)), message_text(obj@, ms[i as int].1));
        }
        i = i + 1;
    }
    proof {
        assert(ms.take(i as int) =~= ms);
    }
}

fn write_module(out: &mut Vec<u8>, obj_name: &[u8], camel_obj_name: &[u8], messages: &Vec<Lined<Message>>)
    ensures
        final(out)@ == old(out)@ + module_text(
            obj_name@,
            camel_obj_name@,
            messages@.map_values(|m: Lined<Message>| lined_message_view(m)),
        ),
{
    if messages.len() == 0 {
        proof {
            assert(out@ =~= old(out)@ + module_text(
                obj_name@,
                camel_obj_name@,
                messages@.map_values(|m: Lined<Message>| lined_message_view(m)),
            ));
        }
        return;
    }
    let ghost base = out@;
    emit(out, M_NL);
    let ghost mut acc = lit(M_NL);
    emit_next(out, I_MOD, Ghost(base), Ghost(acc));
    proof { acc = acc + lit(I_MOD); }
    put_next(out, obj_name, Ghost(base), Ghost(acc));
    proof { acc = acc + obj_name@; }
    emit_next(out, I_MOD_OPEN, Ghost(base), Ghost(acc));
    proof { acc = acc + lit(I_MOD_OPEN); }
    write_messages(out, camel_obj_name, messages);
    proof { lemma_assoc(base, acc, messages_text(camel_obj_name@, messages@.map_values(|m: Lined<Message>| lined_message_view(m)))); acc = acc + messages_text(camel_obj_name@, messages@.map_values(|m: Lined<Message>| lined_message_view(m))); }
    emit_next(out, I_MOD_CLOSE, Ghost(base), Ghost(acc));
    proof { acc = acc + lit(I_MOD_CLOSE); }
    proof { assert(acc == module_text(obj_name@, camel_obj_name@, messages@.map_values(|m: Lined<Message>| lined_message_view(m)))); }
}

fn stem_of(s: &[u8]) -> (r: &[u8])
    ensures
        r@ == stem(s@),
{
    let mut i: usize = 0;
    proof {
        assert(s@.skip(0) =~= s@);
        assert(s@.take(0) =~= Seq::<u8>::empty());
        assert(s@.take(0) + stem(s@.skip(0)) =~= stem(s@));
    }
    while i < s.len() && s[i] != 46
        invariant
            i <= s@.len(),
            s@.take(i as int) + stem(s@.skip(i as int)) == stem(s@),
        decreases s@.len() - i,
    {
        proof {
            assert(s@.skip(i as int)[0] == s@[i as int]);
            assert(s@.skip(i as int).drop_first() =~= s@.skip(i + 1));
            assert(s@.take(i + 1) + stem(s@.skip(i + 1)) =~= s@.take(i as int) + stem(
                s@.skip(i as int),
            ));
        }
        i = i + 1;
    }
    proof {
        if i < s@.len() {
            assert(s@.skip(i as int)[0] == s@[i as int]);
        }
        assert(s@.take(i as int) + Seq::<u8>::empty() =~= s@.take(i as int));
        assert(s@.subrange(0, i as int) =~= s@.take(i as int));
    }
    &s[0..i]
}

/// What compiling schema file `file_name` with contents `s` gives: the generated
/// namespace, a lexical error or a grammar error.
pub open spec fn interface_result(file_name: Seq<u8>, s: Seq<u8>, r: Result<Vec<u8>, SchemaError>) -> bool {
    match crate::token::lex_all(s) {
        Err(e) => r matches Err(SchemaError::Lex(x)) && x == e,
        Ok(ts) => match crate::parser::p_entries(ts, 0) {
            Ok(ms) => r matches Ok(t) && t@ == interface_text(file_name, ms),
            Err(e) => r matches Err(SchemaError::Parse(x)) && x@ == e,
        },
    }
}

fn write_interface_text(
    out: &mut Vec<u8>,
    file_name: &[u8],
    obj_name: &[u8],
    camel_obj_name: &Vec<u8>,
    messages: &Vec<Lined<Message>>,
)
    requires
        obj_name@ == stem(file_name@),
        camel_obj_name@ == camel(obj_name@),
    ensures
        final(out)@ == old(out)@ + interface_text(
            file_name@,
            messages@.map_values(|m: Lined<Message>| lined_message_view(m)),
        ),
{
    let ghost base = out@;
    emit(out, M_NL);
    let ghost mut acc = lit(M_NL);
    emit_next(out, I_ID, Ghost(base), Ghost(acc));
    proof { acc = acc + lit(I_ID); }
    put_next(out, camel_obj_name.as_slice(), Ghost(base), Ghost(acc));
    proof { acc = acc + camel_obj_name@; }
    emit_next(out, I_ID_END, Ghost(base), Ghost(acc));
    proof { acc = acc + lit(I_ID_END); }
    write_module(out, obj_name, camel_obj_name.as_slice(), &messages);
    proof { lemma_assoc(base, acc, module_text(obj_name@, camel_obj_name@, messages@.map_values(|m: Lined<Message>| lined_message_view(m)))); acc = acc + module_text(obj_name@, camel_obj_name@, messages@.map_values(|m: Lined<Message>| lined_message_view(m))); }
    proof { assert(acc == interface_text(file_name@, messages@.map_values(|m: Lined<Message>| lined_message_view(m)))); }
}

/// Compiles one schema file: its interface name comes from the file name up to the
/// first dot, camel-cased.
pub fn write_interface(file_name: &[u8], contents: &[u8]) -> (r: Result<Vec<u8>, SchemaError>)
    ensures
        interface_result(file_name@, contents@, r),
{
    let obj_name = stem_of(file_name);
    let camel_obj_name = to_camel(obj_name);
    let messages = match parse_messages(contents) {
        Ok(m) => m,
        Err(e) => return Err(e),
    };
    let mut text: Vec<u8> = Vec::new();
    write_interface_text(&mut text, file_name, obj_name, &camel_obj_name, &messages);
    proof {
        assert(text@ =~= interface_text(
            file_name@,
            messages@.map_values(|m: Lined<Message>| lined_message_view(m)),
        ));
    }
    Ok(text)
}

/// Writes the imports that open the generated file.
pub fn write_prelude(out: &mut Vec<u8>)
    ensures
        final(out)@ == old(out)@ + lit(H_PRELUDE),
{
    emit(out, H_PRELUDE);
}

/// The name of the record type of message `m` for role `role`.
pub open spec fn record_name(m: MessageV, role: TypeRole) -> Seq<u8> {
    m.camel_name + suffix(role)
}

/// A message whose fields are all scalar gets one unified record, named after the
/// message; a message with a string, byte-string or array field gets a borrowing and
/// an owning record, under distinct names.
pub proof fn lemma_reference_kind_split(obj: Seq<u8>, m: MessageV)
    ensures
        !has_reference_type(m.fields) ==> records_text(obj, m) == record_text(
            obj,
            m,
            TypeRole::Unified,
        ) && record_name(m, TypeRole::Unified) == m.camel_name,
        has_reference_type(m.fields) ==> records_text(obj, m) == record_text(obj, m, TypeRole::In)
            + record_text(obj, m, TypeRole::Out) && record_name(m, TypeRole::In) != record_name(
            m,
            TypeRole::Out,
        ),
{
    assert(m.camel_name + Seq::<u8>::empty() =~= m.camel_name);
    reveal_strlit("In");
    reveal_strlit("Out");
    vstd::string::is_ascii_spec_bytes(S_SUFFIX_IN);
    vstd::string::is_ascii_spec_bytes(S_SUFFIX_OUT);
    assert(lit(S_SUFFIX_IN).len() == 2);
    assert(lit(S_SUFFIX_OUT).len() == 3);
    assert(record_name(m, TypeRole::In).len() != record_name(m, TypeRole::Out).len());
}

} // verus!
