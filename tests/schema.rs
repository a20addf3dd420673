use wirecore::codegen::{write_interface, write_message, write_prelude};
use wirecore::names::{to_camel, to_upper};
use wirecore::parser::{
    parse_messages, Context, Expected, Found, ParseErrorKind, Production, SchemaError,
};
use wirecore::schema::Type;
use wirecore::token::{tokenize, LexError, Symbol, Token, TokenKind, TreeDelim};

fn text(b: &[u8]) -> String {
    String::from_utf8(b.to_vec()).unwrap()
}

fn parse_ok(s: &str) -> Vec<wirecore::schema::Lined<wirecore::schema::Message>> {
    match parse_messages(s.as_bytes()) {
        Ok(m) => m,
        Err(e) => panic!("unexpected error {:?}", e),
    }
}

fn parse_kind(s: &str) -> ParseErrorKind {
    match parse_messages(s.as_bytes()) {
        Err(SchemaError::Parse(e)) => e.kind,
        other => panic!("expected a grammar error, got {:?}", other),
    }
}

fn field_type(s: &str) -> Result<Type, SchemaError> {
    let schema = format!("msg m = 0 {{ f: {} }}", s);
    match parse_messages(schema.as_bytes()) {
        Ok(mut ms) => {
            let mut m = ms.remove(0);
            Ok(m.val.fields.remove(0).val.ty.val)
        }
        Err(e) => Err(e),
    }
}

fn depth(ts: &[Token]) -> usize {
    ts.iter()
        .map(|t| match &t.kind {
            TokenKind::Tree { body, .. } => 1 + depth(body),
            _ => 0,
        })
        .max()
        .unwrap_or(0)
}

fn brackets(ts: &[Token], out: &mut String) {
    for t in ts {
        if let TokenKind::Tree { delim, body } = &t.kind {
            out.push(delim.opening() as char);
            brackets(body, out);
            out.push(delim.closing() as char);
        }
    }
}

#[test]
fn tokenize_kinds_and_lines() {
    let ts = tokenize(b"msg a_1 = 42 # comment\n{ x: u32, }").unwrap();
    assert_eq!(ts.len(), 5);
    assert!(matches!(&ts[0].kind, TokenKind::Ident(n) if n.as_slice() == b"msg"));
    assert!(matches!(&ts[1].kind, TokenKind::Ident(n) if n.as_slice() == b"a_1"));
    assert!(matches!(ts[2].kind, TokenKind::Symbol(Symbol::Equals)));
    assert!(matches!(ts[3].kind, TokenKind::Num(42)));
    assert_eq!(ts[3].line, 1);
    assert_eq!(ts[4].line, 2);
    match &ts[4].kind {
        TokenKind::Tree { delim, body } => {
            assert_eq!(*delim, TreeDelim::Brace);
            assert_eq!(body.len(), 4);
            assert!(matches!(body[1].kind, TokenKind::Symbol(Symbol::Colon)));
            assert!(matches!(body[3].kind, TokenKind::Symbol(Symbol::Comma)));
        }
        _ => panic!("expected a tree"),
    }
}

#[test]
fn tokenizer_balance_recovers_nesting() {
    let ts = tokenize(b"a ( { b ( ) } ) { ( ( c ) ) }").unwrap();
    assert_eq!(depth(&ts), 3);
    let mut s = String::new();
    brackets(&ts, &mut s);
    assert_eq!(s, "({()}){(())}");
}

#[test]
fn tokenizer_unbalanced_inputs_fail() {
    assert_eq!(tokenize(b"(").unwrap_err(), LexError::UnexpectedEof { line: 1 });
    assert_eq!(tokenize(b"{\n(").unwrap_err(), LexError::UnexpectedEof { line: 2 });
    assert_eq!(tokenize(b")").unwrap_err(), LexError::UnexpectedClose { byte: b')', line: 1 });
    assert_eq!(tokenize(b"(}").unwrap_err(), LexError::UnexpectedClose { byte: b'}', line: 1 });
    assert_eq!(tokenize(b"{\n\n)}").unwrap_err(), LexError::UnexpectedClose { byte: b')', line: 3 });
}

#[test]
fn tokenizer_rejects_other_bytes() {
    assert_eq!(tokenize(b"Msg").unwrap_err(), LexError::UnexpectedByte { byte: b'M', line: 1 });
    assert_eq!(tokenize(b"\n_a").unwrap_err(), LexError::UnexpectedByte { byte: b'_', line: 2 });
    assert_eq!(tokenize(b"a\tb").unwrap_err(), LexError::UnexpectedByte { byte: b'\t', line: 1 });
}

#[test]
fn number_literals_wrap_around() {
    let ms = parse_ok("msg a = 4294967297 {}");
    assert_eq!(ms[0].val.id.val, 1);
    let ms = parse_ok("msg a = 4294967295 {}");
    assert_eq!(ms[0].val.id.val, u32::MAX);
}

#[test]
fn parse_message_with_fields() {
    let ms = parse_ok("# pointer\nmsg set_cursor = 3 {\n  serial: u32,\n  surface: id(wl_surface),\n  x: i32\n}\nmsg release = 4 { }");
    assert_eq!(ms.len(), 2);
    let m = &ms[0];
    assert_eq!(ms[0].line, 2);
    assert_eq!(m.val.name, b"set_cursor".to_vec());
    assert_eq!(m.val.camel_name, b"SetCursor".to_vec());
    assert_eq!(m.val.id.val, 3);
    assert_eq!(m.val.fields.len(), 3);
    assert_eq!(m.val.fields[1].val.name, b"surface".to_vec());
    assert_eq!(m.val.fields[1].line, 4);
    assert!(matches!(&m.val.fields[1].val.ty.val, Type::Id(n) if n.as_slice() == b"WlSurface"));
    assert!(matches!(m.val.fields[2].val.ty.val, Type::I32));
    assert_eq!(ms[1].val.camel_name, b"Release".to_vec());
    assert_eq!(ms[1].val.fields.len(), 0);
}

#[test]
fn array_element_restriction() {
    for bad in ["array(str)", "array(bstr)", "array(fd)", "array(array(u32))"] {
        match field_type(bad) {
            Err(SchemaError::Parse(e)) => {
                assert!(matches!(e.kind, ParseErrorKind::NonNumericArrayElement), "{}", bad);
                assert_eq!(e.context[0].production, Production::ArrayElement);
            }
            other => panic!("{} was accepted: {:?}", bad, other),
        }
    }
    for good in ["array(u32)", "array(i32)", "array(fixed)", "array(id(foo))"] {
        match field_type(good) {
            Ok(Type::Array(_)) => {}
            other => panic!("{} was refused: {:?}", good, other),
        }
    }
}

#[test]
fn scalar_types_resolve() {
    assert!(matches!(field_type("u32"), Ok(Type::U32)));
    assert!(matches!(field_type("i32"), Ok(Type::I32)));
    assert!(matches!(field_type("str"), Ok(Type::Str)));
    assert!(matches!(field_type("bstr"), Ok(Type::BStr)));
    assert!(matches!(field_type("fixed"), Ok(Type::Fixed)));
    assert!(matches!(field_type("fd"), Ok(Type::Fd)));
}

#[test]
fn errors_are_framed_innermost_first() {
    match parse_messages(b"msg a = 1 {\n  x: array(str)\n}") {
        Err(SchemaError::Parse(e)) => {
            assert!(matches!(e.kind, ParseErrorKind::NonNumericArrayElement));
            assert_eq!(
                e.context,
                vec![
                    Context { production: Production::ArrayElement, line: 2 },
                    Context { production: Production::Field, line: 2 },
                    Context { production: Production::Message, line: 1 },
                ]
            );
        }
        other => panic!("unexpected {:?}", other),
    }
}

#[test]
fn grammar_errors() {
    assert!(matches!(parse_kind("struct a"), ParseErrorKind::UnexpectedEntry { line: 1, ref name } if name.as_slice() == b"struct"));
    assert!(matches!(parse_kind("msg"), ParseErrorKind::UnexpectedEof));
    assert!(matches!(parse_kind("7"), ParseErrorKind::Expected { line: 1, expected: Expected::Identifier, found: Found::Number }));
    assert!(matches!(parse_kind("msg a : 1 {}"), ParseErrorKind::Expected { expected: Expected::Symbol(Symbol::Equals), found: Found::Symbol(Symbol::Colon), .. }));
    assert!(matches!(parse_kind("msg a = b {}"), ParseErrorKind::Expected { expected: Expected::Number, found: Found::Identifier, .. }));
    assert!(matches!(parse_kind("msg a = 1 x"), ParseErrorKind::Expected { expected: Expected::Tree, found: Found::Identifier, .. }));
    assert!(matches!(parse_kind("msg a = 1 ()"), ParseErrorKind::WrongDelim { expected: TreeDelim::Brace, found: TreeDelim::Paren, .. }));
    assert!(matches!(parse_kind("msg a = 1 { x: float }"), ParseErrorKind::UnknownType { ref name } if name.as_slice() == b"float"));
    assert!(matches!(parse_kind("msg a = 1 { x: id(foo bar) }"), ParseErrorKind::TrailingTokens { line: 1 }));
    assert!(matches!(parse_kind("msg a = 1 { x: array(u32 u32) }"), ParseErrorKind::TrailingTokens { line: 1 }));
    assert!(matches!(parse_kind("msg a = 1 { x: u32 y: u32 }"), ParseErrorKind::Expected { expected: Expected::Symbol(Symbol::Comma), .. }));
}

#[test]
fn lexical_errors_pass_through() {
    assert!(matches!(parse_messages(b"msg a = 1 {"), Err(SchemaError::Lex(LexError::UnexpectedEof { line: 1 }))));
}

#[test]
fn name_canonicalization() {
    assert_eq!(to_camel(b"wl_data_source"), b"WlDataSource".to_vec());
    assert_eq!(to_camel(b"button"), b"Button".to_vec());
    assert_eq!(to_camel(b"_leading"), b"Leading".to_vec());
    assert_eq!(to_camel(b"doubled__underscore"), b"DoubledUnderscore".to_vec());
    assert_eq!(to_camel(b"trailing_"), b"Trailing".to_vec());
    assert_eq!(to_camel(b"x11_v2"), b"X11V2".to_vec());
    assert_eq!(to_camel(b""), Vec::<u8>::new());
    assert_eq!(to_upper(b"set_cursor"), b"SET_CURSOR".to_vec());
}

#[test]
fn scalar_only_message_has_one_record() {
    let ms = parse_ok("msg ping = 0 { serial: u32, t: fixed, f: fd }");
    let mut out = Vec::new();
    write_message(&mut out, b"WlPointer", &ms[0].val);
    let t = text(&out);
    assert!(t.contains("    pub struct Ping {\n"));
    assert!(!t.contains("PingIn"));
    assert!(!t.contains("PingOut"));
    assert!(t.contains("impl<'a> RequestParser<'a> for Ping {"));
    assert!(t.contains("impl EventFormatter for Ping {"));
}

#[test]
fn reference_fields_split_records() {
    for ty in ["str", "bstr", "array(u32)"] {
        let schema = format!("msg offer = 0 {{ v: {} }}", ty);
        let ms = parse_ok(&schema);
        let mut out = Vec::new();
        write_message(&mut out, b"WlDataSource", &ms[0].val);
        let t = text(&out);
        assert!(t.contains("    pub struct OfferIn<'a> {\n"), "{}", ty);
        assert!(t.contains("    pub struct OfferOut {\n"), "{}", ty);
        assert!(t.contains("impl<'a> RequestParser<'a> for OfferIn<'a> {"), "{}", ty);
        assert!(t.contains("impl EventFormatter for OfferOut {"), "{}", ty);
    }
}

#[test]
fn end_to_end_ping_generation() {
    let out = write_interface(b"wl_pointer.txt", b"msg ping = 0 { serial: u32 }").unwrap();
    let t = text(&out);
    let expected = "\nid!(WlPointerId);\n\npub mod wl_pointer {\n    pub use super::*;\n\n    pub const PING: u32 = 0;\n    pub struct Ping {\n        pub self_id: WlPointerId,\n        pub serial: u32,\n    }\n    impl std::fmt::Debug for Ping {\n        fn fmt(&self, fmt: &mut std::fmt::Formatter<'_>) -> std::fmt::Result {\n            write!(fmt, \"ping(serial: {})\", self.serial)\n        }\n    }\n    impl<'a> RequestParser<'a> for Ping {\n        fn parse(parser: &mut MsgParser<'_, 'a>) -> Result<Self, MsgParserError> {\n            Ok(Self {\n                self_id: WlPointerId::NONE,\n                serial: parser.uint()?,\n            })\n        }\n    }\n    impl EventFormatter for Ping {\n        fn format(self: Box<Self>, fmt: &mut MsgFormatter<'_>) {\n            fmt.header(self.self_id, PING);\n            fmt.uint(self.serial);\n        }\n        fn id(&self) -> ObjectId {\n            self.self_id.into()\n        }\n        fn interface(&self) -> crate::object::Interface {\n            crate::object::Interface::WlPointer\n        }\n    }\n}\n";
    assert_eq!(t, expected);
}

#[test]
fn generated_field_forms() {
    let ms = parse_ok("msg send = 12 { mime_type: str, fd: fd, data: bstr, ids: array(id(wl_output)), v: i32 }");
    let mut out = Vec::new();
    write_message(&mut out, b"Src", &ms[0].val);
    let t = text(&out);
    assert!(t.contains("    pub const SEND: u32 = 12;\n"));
    assert!(t.contains("        pub mime_type: &'a str,\n"));
    assert!(t.contains("        pub mime_type: String,\n"));
    assert!(t.contains("        pub data: &'a BStr,\n"));
    assert!(t.contains("        pub data: BString,\n"));
    assert!(t.contains("        pub fd: Rc<OwnedFd>,\n"));
    assert!(t.contains("        pub ids: ArrayView<'a, WlOutputId>,\n"));
    assert!(t.contains("        pub ids: Vec<WlOutputId>,\n"));
    assert!(t.contains("write!(fmt, \"send(mime_type: {:?}, fd: {:?}, data: {}, ids: {:?}, v: {})\", self.mime_type, self.fd, self.data, self.ids, self.v)\n"));
    assert!(t.contains("                ids: parser.array_view()?,\n"));
    assert!(t.contains("                data: parser.bstr()?,\n"));
    assert!(t.contains("            fmt.string(&self.mime_type);\n"));
    assert!(t.contains("            fmt.fd(self.fd);\n"));
    assert!(t.contains("            fmt.array(|fmt| {\n                for el in self.ids.iter() {\n                    fmt.object(*el);\n                }\n            });\n"));
    assert!(t.contains("            fmt.int(self.v);\n"));
}

#[test]
fn interface_without_messages_has_no_module() {
    let out = write_interface(b"wl_callback", b"# nothing here\n").unwrap();
    assert_eq!(text(&out), "\nid!(WlCallbackId);\n");
}

#[test]
fn interface_errors_pass_through() {
    assert!(matches!(write_interface(b"a.txt", b"msg a = 1 { x: }"), Err(SchemaError::Parse(_))));
    assert!(matches!(write_interface(b"a.txt", b"msg A"), Err(SchemaError::Lex(_))));
}

#[test]
fn prelude_is_written_once() {
    let mut out = b"x".to_vec();
    write_prelude(&mut out);
    let t = text(&out);
    assert!(t.starts_with("xuse std::rc::Rc;\n"));
    assert_eq!(t.matches("use ").count(), 7);
}
