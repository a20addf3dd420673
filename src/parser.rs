use vstd::prelude::*;
use crate::names::{camel, to_camel};
use crate::schema::{
    field_view, is_array_elem, lined_message_view, Field, FieldV, Lined, Message, MessageV, Type,
    TypeV,
};
use crate::token::{
    lex_all, token_view, tokens_view, tokenize, LexError, Symbol, Token, TokenKind, TokenKindV,
    TokenV, TreeDelim,
};

verus! {

/// The kind of token that a production asked for.
#[derive(Copy, Clone, Debug, PartialEq, Eq, Structural)]
pub enum Expected {
    Identifier,
    Number,
    Symbol(Symbol),
    Tree,
}

/// The kind of token that was found instead.
#[derive(Copy, Clone, Debug, PartialEq, Eq, Structural)]
pub enum Found {
    Identifier,
    Number,
    Tree(TreeDelim),
    Symbol(Symbol),
}

/// A production that frames an error with the line it started in.
#[derive(Copy, Clone, Debug, PartialEq, Eq, Structural)]
pub enum Production {
    Message,
    Field,
    ArrayElement,
    Identifier,
}

#[derive(Copy, Clone, Debug, PartialEq, Eq, Structural)]
pub struct Context {
    pub production: Production,
    pub line: u32,
}

/// The innermost cause of a grammar error.
#[derive(Debug)]
pub enum ParseErrorKind {
    UnexpectedEof,
    UnexpectedEntry { line: u32, name: Vec<u8> },
    Expected { line: u32, expected: Expected, found: Found },
    WrongDelim { line: u32, expected: TreeDelim, found: TreeDelim },
    TrailingTokens { line: u32 },
    NonNumericArrayElement,
    UnknownType { name: Vec<u8> },
}

pub enum ParseErrorKindV {
    UnexpectedEof,
    UnexpectedEntry { line: u32, name: Seq<u8> },
    Expected { line: u32, expected: Expected, found: Found },
    WrongDelim { line: u32, expected: TreeDelim, found: TreeDelim },
    TrailingTokens { line: u32 },
    NonNumericArrayElement,
    UnknownType { name: Seq<u8> },
}

/// A grammar error: its cause, then the productions that enclose it, innermost first.
#[derive(Debug)]
pub struct ParseError {
    pub kind: ParseErrorKind,
    pub context: Vec<Context>,
}

pub struct ParseErrorV {
    pub kind: ParseErrorKindV,
    pub context: Seq<Context>,
}

impl View for ParseErrorKind {
    type V = ParseErrorKindV;

    open spec fn view(&self) -> ParseErrorKindV {
        match self {
            ParseErrorKind::UnexpectedEof => ParseErrorKindV::UnexpectedEof,
            ParseErrorKind::UnexpectedEntry { line, name } => ParseErrorKindV::UnexpectedEntry {
                line: *line,
                name: name@,
            },
            ParseErrorKind::Expected { line, expected, found } => ParseErrorKindV::Expected {
                line: *line,
                expected: *expected,
                found: *found,
            },
            ParseErrorKind::WrongDelim { line, expected, found } => ParseErrorKindV::WrongDelim {
                line: *line,
                expected: *expected,
                found: *found,
            },
            ParseErrorKind::TrailingTokens { line } => ParseErrorKindV::TrailingTokens {
                line: *line,
            },
            ParseErrorKind::NonNumericArrayElement => ParseErrorKindV::NonNumericArrayElement,
            ParseErrorKind::UnknownType { name } => ParseErrorKindV::UnknownType { name: name@ },
        }
    }
}

impl View for ParseError {
    type V = ParseErrorV;

    open spec fn view(&self) -> ParseErrorV {
        ParseErrorV { kind: self.kind@, context: self.context@ }
    }
}

/// Why a schema file could not be compiled.
#[derive(Debug)]
pub enum SchemaError {
    Lex(LexError),
    Parse(ParseError),
}

// ---------------------------------------------------------------------------
// The grammar

pub open spec fn found_of(t: TokenV) -> Found {
    match t.kind {
        TokenKindV::Ident(_) => Found::Identifier,
        TokenKindV::Num(_) => Found::Number,
        TokenKindV::Tree(d, _) => Found::Tree(d),
        TokenKindV::Symbol(s) => Found::Symbol(s),
    }
}

pub open spec fn fail(k: ParseErrorKindV) -> ParseErrorV {
    ParseErrorV { kind: k, context: seq![] }
}

/// `r` with its error, if any, framed by production `p` starting in `line`.
pub open spec fn framed<T>(r: Result<T, ParseErrorV>, p: Production, line: u32) -> Result<
    T,
    ParseErrorV,
> {
    match r {
        Ok(v) => Ok(v),
        Err(e) => Err(
            ParseErrorV { kind: e.kind, context: e.context.push(Context { production: p, line }) },
        ),
    }
}

pub open spec fn p_ident(ts: Seq<TokenV>, pos: int) -> Result<(u32, Seq<u8>), ParseErrorV> {
    if pos < 0 || pos >= ts.len() {
        Err(fail(ParseErrorKindV::UnexpectedEof))
    } else {
        match ts[pos].kind {
            TokenKindV::Ident(n) => Ok((ts[pos].line, n)),
            _ => Err(
                fail(
                    ParseErrorKindV::Expected {
                        line: ts[pos].line,
                        expected: Expected::Identifier,
                        found: found_of(ts[pos]),
                    },
                ),
            ),
        }
    }
}

pub open spec fn p_number(ts: Seq<TokenV>, pos: int) -> Result<(u32, u32), ParseErrorV> {
    if pos < 0 || pos >= ts.len() {
        Err(fail(ParseErrorKindV::UnexpectedEof))
    } else {
        match ts[pos].kind {
            TokenKindV::Num(n) => Ok((ts[pos].line, n)),
            _ => Err(
                fail(
                    ParseErrorKindV::Expected {
                        line: ts[pos].line,
                        expected: Expected::Number,
                        found: found_of(ts[pos]),
                    },
                ),
            ),
        }
    }
}

pub open spec fn p_symbol(ts: Seq<TokenV>, pos: int, sym: Symbol) -> Result<(), ParseErrorV> {
    if pos < 0 || pos >= ts.len() {
        Err(fail(ParseErrorKindV::UnexpectedEof))
    } else if ts[pos].kind == TokenKindV::Symbol(sym) {
        Ok(())
    } else {
        Err(
            fail(
                ParseErrorKindV::Expected {
                    line: ts[pos].line,
                    expected: Expected::Symbol(sym),
                    found: found_of(ts[pos]),
                },
            ),
        )
    }
}

/// The error for a missing tree at `pos`.
pub open spec fn not_tree_err(ts: Seq<TokenV>, pos: int) -> ParseErrorV {
    if pos < 0 || pos >= ts.len() {
        fail(ParseErrorKindV::UnexpectedEof)
    } else {
        fail(
            ParseErrorKindV::Expected {
                line: ts[pos].line,
                expected: Expected::Tree,
                found: found_of(ts[pos]),
            },
        )
    }
}

pub open spec fn p_tree(ts: Seq<TokenV>, pos: int, d: TreeDelim) -> Result<
    (u32, Seq<TokenV>),
    ParseErrorV,
> {
    if 0 <= pos < ts.len() && ts[pos].kind is Tree {
        let found = ts[pos].kind->Tree_0;
        if found == d {
            Ok((ts[pos].line, ts[pos].kind->Tree_1))
        } else {
            Err(fail(ParseErrorKindV::WrongDelim { line: ts[pos].line, expected: d, found }))
        }
    } else {
        Err(not_tree_err(ts, pos))
    }
}

pub open spec fn scalar_type(name: Seq<u8>) -> Option<TypeV> {
    if name == seq![117u8, 51, 50] {
        Some(TypeV::U32)
    } else if name == seq![105u8, 51, 50] {
        Some(TypeV::I32)
    } else if name == seq![115u8, 116, 114] {
        Some(TypeV::Str)
    } else if name == seq![98u8, 115, 116, 114] {
        Some(TypeV::BStr)
    } else if name == seq![102u8, 105, 120, 101, 100] {
        Some(TypeV::Fixed)
    } else if name == seq![102u8, 100] {
        Some(TypeV::Fd)
    } else {
        None
    }
}

pub open spec fn kw_array() -> Seq<u8> {
    seq![97u8, 114, 114, 97, 121]
}

pub open spec fn kw_id() -> Seq<u8> {
    seq![105u8, 100]
}

pub open spec fn kw_msg() -> Seq<u8> {
    seq![109u8, 115, 103]
}

/// The element type inside the parentheses of `array(...)`.
pub open spec fn array_elem(body: Seq<TokenV>, inner: Result<(TypeV, u32, int), ParseErrorV>) -> Result<
    TypeV,
    ParseErrorV,
> {
    match inner {
        Err(e) => Err(e),
        Ok((et, _, q)) => if q < body.len() {
            Err(fail(ParseErrorKindV::TrailingTokens { line: body[q].line }))
        } else if !is_array_elem(et) {
            Err(fail(ParseErrorKindV::NonNumericArrayElement))
        } else {
            Ok(et)
        },
    }
}

/// The interface name inside the parentheses of `id(...)`.
pub open spec fn id_target(body: Seq<TokenV>) -> Result<Seq<u8>, ParseErrorV> {
    match p_ident(body, 0) {
        Err(e) => Err(e),
        Ok((_, n)) => if 1 < body.len() {
            Err(fail(ParseErrorKindV::TrailingTokens { line: body[1].line }))
        } else {
            Ok(n)
        },
    }
}

/// A type at `pos`: the type, the line of its keyword, and the position after it.
pub open spec fn p_type(ts: Seq<TokenV>, pos: int) -> Result<(TypeV, u32, int), ParseErrorV>
    decreases ts,
{
    match p_ident(ts, pos) {
        Err(e) => Err(e),
        Ok((line, name)) => if scalar_type(name) is Some {
            Ok((scalar_type(name)->0, line, pos + 1))
        } else if name == kw_array() {
            match p_tree(ts, pos + 1, TreeDelim::Paren) {
                Err(e) => Err(e),
                Ok((tline, body)) => {
                    let inner = if 0 <= pos + 1 < ts.len() && ts[pos + 1].kind is Tree {
                        array_elem(body, p_type(ts[pos + 1].kind->Tree_1, 0))
                    } else {
                        Err(fail(ParseErrorKindV::UnexpectedEof))
                    };
                    match framed(inner, Production::ArrayElement, tline) {
                        Err(e) => Err(e),
                        Ok(et) => Ok((TypeV::Array(Box::new(et)), line, pos + 2)),
                    }
                },
            }
        } else if name == kw_id() {
            match p_tree(ts, pos + 1, TreeDelim::Paren) {
                Err(e) => Err(e),
                Ok((_, body)) => match framed(id_target(body), Production::Identifier, line) {
                    Err(e) => Err(e),
                    Ok(n) => Ok((TypeV::Id(camel(n)), line, pos + 2)),
                },
            }
        } else {
            Err(fail(ParseErrorKindV::UnknownType { name }))
        },
    }
}

/// The rest of a field after its name: `: <type> [,]`.
pub open spec fn p_field_rest(ts: Seq<TokenV>, pos: int, name: Seq<u8>, line: u32) -> Result<
    (FieldV, int),
    ParseErrorV,
> {
    match p_symbol(ts, pos + 1, Symbol::Colon) {
        Err(e) => Err(e),
        Ok(_) => match p_type(ts, pos + 2) {
            Err(e) => Err(e),
            Ok((ty, ty_line, p)) => {
                let f = FieldV { name, ty, ty_line, line };
                if p < ts.len() {
                    match p_symbol(ts, p, Symbol::Comma) {
                        Err(e) => Err(e),
                        Ok(_) => Ok((f, p + 1)),
                    }
                } else {
                    Ok((f, p))
                }
            },
        },
    }
}

/// A field at `pos` and the position after it (and after its comma, if any).
pub open spec fn p_field(ts: Seq<TokenV>, pos: int) -> Result<(FieldV, int), ParseErrorV> {
    match p_ident(ts, pos) {
        Err(e) => Err(e),
        Ok((line, name)) => framed(p_field_rest(ts, pos, name, line), Production::Field, line),
    }
}

/// The fields from `pos` to the end of the field tree.
pub open spec fn p_fields(ts: Seq<TokenV>, pos: int) -> Result<Seq<FieldV>, ParseErrorV>
    decreases ts.len() - pos,
{
    if pos < 0 || pos >= ts.len() {
        Ok(seq![])
    } else {
        match p_field(ts, pos) {
            Err(e) => Err(e),
            Ok((f, p)) => if p > pos {
                match p_fields(ts, p) {
                    Err(e) => Err(e),
                    Ok(fs) => Ok(seq![f] + fs),
                }
            } else {
                Err(fail(ParseErrorKindV::UnexpectedEof))
            },
        }
    }
}

/// The rest of a message after its name: `= <number> { <field>* }`.
pub open spec fn p_message_rest(ts: Seq<TokenV>, pos: int, name: Seq<u8>, line: u32) -> Result<
    ((u32, MessageV), int),
    ParseErrorV,
> {
    match p_symbol(ts, pos + 1, Symbol::Equals) {
        Err(e) => Err(e),
        Ok(_) => match p_number(ts, pos + 2) {
            Err(e) => Err(e),
            Ok((id_line, id)) => match p_tree(ts, pos + 3, TreeDelim::Brace) {
                Err(e) => Err(e),
                Ok((_, body)) => match p_fields(body, 0) {
                    Err(e) => Err(e),
                    Ok(fields) => Ok(
                        (
                            (line, MessageV { name, camel_name: camel(name), id, id_line, fields }),
                            pos + 4,
                        ),
                    ),
                },
            },
        },
    }
}

/// A message after its `msg` keyword: `<name> = <number> { <field>* }`.
pub open spec fn p_message(ts: Seq<TokenV>, pos: int) -> Result<((u32, MessageV), int), ParseErrorV> {
    match p_ident(ts, pos) {
        Err(e) => Err(e),
        Ok((line, name)) => framed(
            p_message_rest(ts, pos, name, line),
            Production::Message,
            line,
        ),
    }
}

/// The messages from `pos` to the end of the token stream.
pub open spec fn p_entries(ts: Seq<TokenV>, pos: int) -> Result<Seq<(u32, MessageV)>, ParseErrorV>
    decreases ts.len() - pos,
{
    if pos < 0 || pos >= ts.len() {
        Ok(seq![])
    } else {
        match p_ident(ts, pos) {
            Err(e) => Err(e),
            Ok((line, name)) => if name == kw_msg() {
                match p_message(ts, pos + 1) {
                    Err(e) => Err(e),
                    Ok((m, p)) => if p > pos {
                        match p_entries(ts, p) {
                            Err(e) => Err(e),
                            Ok(ms) => Ok(seq![m] + ms),
                        }
                    } else {
                        Err(fail(ParseErrorKindV::UnexpectedEof))
                    },
                }
            } else {
                Err(fail(ParseErrorKindV::UnexpectedEntry { line, name }))
            },
        }
    }
}

// ---------------------------------------------------------------------------
// The parser

pub proof fn lemma_tree_body(t: &Token)
    requires
        t.kind is Tree,
    ensures
        match &t.kind {
            TokenKind::Tree { delim, body } => token_view(t).kind == TokenKindV::Tree(
                *delim,
                tokens_view(body@),
            ),
            _ => true,
        },
{
    match &t.kind {
        TokenKind::Tree { delim, body } => {
            assert(token_view(t).kind->Tree_1 =~= tokens_view(body@));
        },
        _ => {},
    }
}

fn error(kind: ParseErrorKind) -> (r: ParseError)
    ensures
        r@ == fail(kind@),
{
    ParseError { kind, context: Vec::new() }
}

/// Frames the error of `r`, if any, with production `p` starting in `line`.
fn framed_by<T>(r: Result<T, ParseError>, p: Production, line: u32) -> (out: Result<T, ParseError>)
    ensures
        match r {
            Ok(v) => out matches Ok(w) && w == v,
            Err(e) => out matches Err(x) && x@ == framed(Err::<(), ParseErrorV>(e@), p, line)->Err_0,
        },
{
    match r {
        Ok(v) => Ok(v),
        Err(e) => {
            let mut e = e;
            e.context.push(Context { production: p, line });
            Err(e)
        },
    }
}

fn found(t: &Token) -> (r: Found)
    ensures
        r == found_of(t@),
{
    match &t.kind {
        TokenKind::Ident(_) => Found::Identifier,
        TokenKind::Num(_) => Found::Number,
        TokenKind::Tree { delim, .. } => Found::Tree(*delim),
        TokenKind::Symbol(s) => Found::Symbol(*s),
    }
}

fn word_is(n: &[u8], w: &[u8]) -> (r: bool)
    ensures
        r == (n@ == w@),
{
    if n.len() != w.len() {
        return false;
    }
    let mut i: usize = 0;
    while i < n.len()
        invariant
            i <= n@.len(),
            n@.len() == w@.len(),
            forall|j: int| 0 <= j < i ==> n@[j] == w@[j],
        decreases n@.len() - i,
    {
        if n[i] != w[i] {
            return false;
        }
        i = i + 1;
    }
    proof {
        assert(n@ =~= w@);
    }
    true
}

fn scalar_keyword(n: &[u8]) -> (r: Option<Type>)
    ensures
        match scalar_type(n@) {
            Some(t) => r matches Some(x) && x@ == t,
            None => r is None,
        },
{
    let u32_kw: [u8; 3] = [117u8, 51, 50];
    let i32_kw: [u8; 3] = [105u8, 51, 50];
    let str_kw: [u8; 3] = [115u8, 116, 114];
    let bstr_kw: [u8; 4] = [98u8, 115, 116, 114];
    let fixed_kw: [u8; 5] = [102u8, 105, 120, 101, 100];
    let fd_kw: [u8; 2] = [102u8, 100];
    proof {
        assert(u32_kw@ =~= seq![117u8, 51, 50]);
        assert(i32_kw@ =~= seq![105u8, 51, 50]);
        assert(str_kw@ =~= seq![115u8, 116, 114]);
        assert(bstr_kw@ =~= seq![98u8, 115, 116, 114]);
        assert(fixed_kw@ =~= seq![102u8, 105, 120, 101, 100]);
        assert(fd_kw@ =~= seq![102u8, 100]);
    }
    if word_is(n, u32_kw.as_slice()) {
        Some(Type::U32)
    } else if word_is(n, i32_kw.as_slice()) {
        Some(Type::I32)
    } else if word_is(n, str_kw.as_slice()) {
        Some(Type::Str)
    } else if word_is(n, bstr_kw.as_slice()) {
        Some(Type::BStr)
    } else if word_is(n, fixed_kw.as_slice()) {
        Some(Type::Fixed)
    } else if word_is(n, fd_kw.as_slice()) {
        Some(Type::Fd)
    } else {
        None
    }
}

/// A cursor over a token sequence.
pub struct Parser<'a> {
    pub pos: usize,
    pub tokens: &'a [Token],
}

impl<'a> Parser<'a> {
    pub open spec fn toks(&self) -> Seq<TokenV> {
        tokens_view(self.tokens@)
    }

    pub fn eof(&self) -> (r: bool)
        ensures
            r == (self.pos >= self.tokens@.len()),
    {
        self.pos >= self.tokens.len()
    }

    /// Fails unless a token is left.
    pub fn not_eof(&self) -> (r: Result<(), ParseError>)
        ensures
            r is Ok <==> self.pos < self.tokens@.len(),
            r matches Err(e) ==> e@ == fail(ParseErrorKindV::UnexpectedEof),
    {
        if self.eof() {
            return Err(error(ParseErrorKind::UnexpectedEof));
        }
        Ok(())
    }

    /// Fails if a token is left.
    pub fn yes_eof(&self) -> (r: Result<(), ParseError>)
        ensures
            r is Ok <==> self.pos >= self.tokens@.len(),
            r matches Err(e) ==> e@ == fail(
                ParseErrorKindV::TrailingTokens { line: self.toks()[self.pos as int].line },
            ),
    {
        if !self.eof() {
            return Err(error(ParseErrorKind::TrailingTokens { line: self.tokens[self.pos].line }));
        }
        Ok(())
    }

    pub fn expect_ident(&mut self) -> (r: Result<(u32, &'a [u8]), ParseError>)
        ensures
            final(self).tokens == old(self).tokens,
            match p_ident(old(self).toks(), old(self).pos as int) {
                Ok((l, n)) => r matches Ok((l2, v)) && l2 == l && v@ == n && final(self).pos
                    == old(self).pos + 1,
                Err(e) => r matches Err(x) && x@ == e,
            },
    {
        if self.eof() {
            return Err(error(ParseErrorKind::UnexpectedEof));
        }
        let tokens: &'a [Token] = self.tokens;
        let token = &tokens[self.pos];
        self.pos = self.pos + 1;
        match &token.kind {
            TokenKind::Ident(id) => Ok((token.line, id.as_slice())),
            _ => Err(
                error(
                    ParseErrorKind::Expected {
                        line: token.line,
                        expected: Expected::Identifier,
                        found: found(token),
                    },
                ),
            ),
        }
    }

    pub fn expect_number(&mut self) -> (r: Result<(u32, u32), ParseError>)
        ensures
            final(self).tokens == old(self).tokens,
            match p_number(old(self).toks(), old(self).pos as int) {
                Ok((l, n)) => r matches Ok((l2, v)) && l2 == l && v == n && final(self).pos
                    == old(self).pos + 1,
                Err(e) => r matches Err(x) && x@ == e,
            },
    {
        if self.eof() {
            return Err(error(ParseErrorKind::UnexpectedEof));
        }
        let tokens: &'a [Token] = self.tokens;
        let token = &tokens[self.pos];
        self.pos = self.pos + 1;
        match &token.kind {
            TokenKind::Num(n) => Ok((token.line, *n)),
            _ => Err(
                error(
                    ParseErrorKind::Expected {
                        line: token.line,
                        expected: Expected::Number,
                        found: found(token),
                    },
                ),
            ),
        }
    }

    pub fn expect_symbol(&mut self, symbol: Symbol) -> (r: Result<(), ParseError>)
        ensures
            final(self).tokens == old(self).tokens,
            match p_symbol(old(self).toks(), old(self).pos as int, symbol) {
                Ok(_) => r is Ok && final(self).pos == old(self).pos + 1,
                Err(e) => r matches Err(x) && x@ == e,
            },
    {
        if self.eof() {
            return Err(error(ParseErrorKind::UnexpectedEof));
        }
        let tokens: &'a [Token] = self.tokens;
        let token = &tokens[self.pos];
        self.pos = self.pos + 1;
        match &token.kind {
            TokenKind::Symbol(s) => {
                if *s == symbol {
                    return Ok(());
                }
            },
            _ => {},
        }
        Err(
            error(
                ParseErrorKind::Expected {
                    line: token.line,
                    expected: Expected::Symbol(symbol),
                    found: found(token),
                },
            ),
        )
    }

    pub fn expect_tree_(&mut self) -> (r: Result<(u32, TreeDelim, &'a [Token]), ParseError>)
        ensures
            final(self).tokens == old(self).tokens,
            ({
                let ts = old(self).toks();
                let pos = old(self).pos as int;
                if 0 <= pos < ts.len() && ts[pos].kind is Tree {
                    r matches Ok((l, d, body)) && final(self).pos == pos + 1 && l == ts[pos].line
                        && ts[pos].kind == TokenKindV::Tree(d, tokens_view(body@))
                } else {
                    r matches Err(x) && x@ == not_tree_err(ts, pos)
                }
            }),
    {
        if self.eof() {
            return Err(error(ParseErrorKind::UnexpectedEof));
        }
        let tokens: &'a [Token] = self.tokens;
        let token = &tokens[self.pos];
        self.pos = self.pos + 1;
        proof {
            assert(old(self).toks()[old(self).pos as int] == token_view(token));
        }
        match &token.kind {
            TokenKind::Tree { delim, body } => {
                proof {
                    lemma_tree_body(token);
                }
                Ok((token.line, *delim, body.as_slice()))
            },
            _ => Err(
                error(
                    ParseErrorKind::Expected {
                        line: token.line,
                        expected: Expected::Tree,
                        found: found(token),
                    },
                ),
            ),
        }
    }

    pub fn expect_tree(&mut self, exp_delim: TreeDelim) -> (r: Result<(u32, &'a [Token]), ParseError>)
        ensures
            final(self).tokens == old(self).tokens,
            match p_tree(old(self).toks(), old(self).pos as int, exp_delim) {
                Ok((l, body)) => r matches Ok((l2, v)) && l2 == l && tokens_view(v@) == body
                    && final(self).pos == old(self).pos + 1,
                Err(e) => r matches Err(x) && x@ == e,
            },
    {
        let (line, delim, tokens) = match self.expect_tree_() {
            Ok(t) => t,
            Err(e) => return Err(e),
        };
        if delim == exp_delim {
            Ok((line, tokens))
        } else {
            Err(error(ParseErrorKind::WrongDelim { line, expected: exp_delim, found: delim }))
        }
    }

    /// A type: a scalar keyword, `array(<type>)` or `id(<name>)`.
    pub fn parse_type(&mut self) -> (r: Result<Lined<Type>, ParseError>)
        ensures
            final(self).tokens == old(self).tokens,
            match p_type(old(self).toks(), old(self).pos as int) {
                Ok((t, l, p)) => r matches Ok(lt) && lt.val@ == t && lt.line == l && final(self).pos
                    == p && old(self).pos < p <= old(self).tokens@.len(),
                Err(e) => r matches Err(x) && x@ == e,
            },
        decreases old(self).toks(),
    {
        let ghost ts = self.toks();
        let ghost pos = self.pos as int;
        match self.not_eof() {
            Err(e) => return Err(e),
            Ok(_) => {},
        }
        let (line, ty) = match self.expect_ident() {
            Ok(x) => x,
            Err(e) => return Err(e),
        };
        let array_kw: [u8; 5] = [97u8, 114, 114, 97, 121];
        let id_kw: [u8; 2] = [105u8, 100];
        proof {
            assert(array_kw@ =~= kw_array());
            assert(id_kw@ =~= kw_id());
        }
        let t = match scalar_keyword(ty) {
            Some(t) => t,
            None => {
                if word_is(ty, array_kw.as_slice()) {
                    let (tline, body) = match self.expect_tree(TreeDelim::Paren) {
                        Ok(x) => x,
                        Err(e) => return Err(e),
                    };
                    let mut parser = Parser { pos: 0, tokens: body };
                    proof {
                        assert(decreases_to!(ts => ts[pos + 1]));
                        assert(decreases_to!(ts[pos + 1] => ts[pos + 1].kind));
                        assert(decreases_to!(ts[pos + 1].kind => ts[pos + 1].kind->Tree_1));
                    }
                    let inner: Result<Type, ParseError> = match parser.parse_type() {
                        Err(e) => Err(e),
                        Ok(et) => match parser.yes_eof() {
                            Err(e) => Err(e),
                            Ok(_) => {
                                if is_numeric(&et.val) {
                                    Ok(et.val)
                                } else {
                                    Err(error(ParseErrorKind::NonNumericArrayElement))
                                }
                            },
                        },
                    };
                    match framed_by(inner, Production::ArrayElement, tline) {
                        Err(e) => return Err(e),
                        Ok(et) => Type::Array(Box::new(et)),
                    }
                } else if word_is(ty, id_kw.as_slice()) {
                    let (_, body) = match self.expect_tree(TreeDelim::Paren) {
                        Ok(x) => x,
                        Err(e) => return Err(e),
                    };
                    let mut parser = Parser { pos: 0, tokens: body };
                    let inner: Result<&[u8], ParseError> = match parser.expect_ident() {
                        Err(e) => Err(e),
                        Ok((_, n)) => match parser.yes_eof() {
                            Err(e) => Err(e),
                            Ok(_) => Ok(n),
                        },
                    };
                    match framed_by(inner, Production::Identifier, line) {
                        Err(e) => return Err(e),
                        Ok(n) => Type::Id(to_camel(n)),
                    }
                } else {
                    return Err(error(ParseErrorKind::UnknownType { name: vstd::slice::slice_to_vec(ty) }));
                }
            },
        };
        Ok(Lined { line, val: t })
    }

    fn parse_field_rest(&mut self, name: &[u8], line: u32) -> (r: Result<Lined<Field>, ParseError>)
        requires
            old(self).pos >= 1,
        ensures
            final(self).tokens == old(self).tokens,
            match p_field_rest(old(self).toks(), old(self).pos - 1, name@, line) {
                Ok((f, p)) => r matches Ok(lf) && field_view(lf) == f && final(self).pos == p
                    && old(self).pos < p <= old(self).tokens@.len(),
                Err(e) => r matches Err(x) && x@ == e,
            },
    {
        match self.expect_symbol(Symbol::Colon) {
            Err(e) => return Err(e),
            Ok(_) => {},
        }
        let ty = match self.parse_type() {
            Ok(t) => t,
            Err(e) => return Err(e),
        };
        if !self.eof() {
            match self.expect_symbol(Symbol::Comma) {
                Err(e) => return Err(e),
                Ok(_) => {},
            }
        }
        Ok(Lined { line, val: Field { name: vstd::slice::slice_to_vec(name), ty } })
    }

    /// A field: `<name> : <type> [,]`.
    pub fn parse_field(&mut self) -> (r: Result<Lined<Field>, ParseError>)
        ensures
            final(self).tokens == old(self).tokens,
            match p_field(old(self).toks(), old(self).pos as int) {
                Ok((f, p)) => r matches Ok(lf) && field_view(lf) == f && final(self).pos == p
                    && old(self).pos < p <= old(self).tokens@.len(),
                Err(e) => r matches Err(x) && x@ == e,
            },
    {
        let (line, name) = match self.expect_ident() {
            Ok(x) => x,
            Err(e) => return Err(e),
        };
        let res = self.parse_field_rest(name, line);
        framed_by(res, Production::Field, line)
    }

    fn parse_message_rest(&mut self, name: &[u8], line: u32) -> (r: Result<Lined<Message>, ParseError>)
        requires
            old(self).pos >= 1,
        ensures
            final(self).tokens == old(self).tokens,
            match p_message_rest(old(self).toks(), old(self).pos - 1, name@, line) {
                Ok((m, p)) => r matches Ok(lm) && lined_message_view(lm) == m && final(self).pos
                    == p && old(self).pos < p <= old(self).tokens@.len(),
                Err(e) => r matches Err(x) && x@ == e,
            },
    {
        match self.expect_symbol(Symbol::Equals) {
            Err(e) => return Err(e),
            Ok(_) => {},
        }
        let (num_line, val) = match self.expect_number() {
            Ok(x) => x,
            Err(e) => return Err(e),
        };
        let (_, body) = match self.expect_tree(TreeDelim::Brace) {
            Ok(x) => x,
            Err(e) => return Err(e),
        };
        let ghost bv = tokens_view(body@);
        let mut parser = Parser { pos: 0, tokens: body };
        let mut fields: Vec<Lined<Field>> = Vec::new();
        proof {
            match p_fields(bv, 0) {
                Ok(fs) => {
                    assert(Seq::<FieldV>::empty() + fs =~= fs);
                },
                Err(_) => {},
            }
            assert(fields@.map_values(|f: Lined<Field>| field_view(f)) =~= Seq::<FieldV>::empty());
        }
        while !parser.eof()
            invariant
                self.tokens == old(self).tokens,
                self.pos == old(self).pos + 3,
                p_message_rest(old(self).toks(), old(self).pos - 1, name@, line) == match p_fields(
                    bv,
                    0,
                ) {
                    Ok(fs) => Ok(
                        (
                            (
                                line,
                                MessageV {
                                    name: name@,
                                    camel_name: camel(name@),
                                    id: val,
                                    id_line: num_line,
                                    fields: fs,
                                },
                            ),
                            old(self).pos + 3,
                        ),
                    ),
                    Err(e) => Err(e),
                },
                old(self).pos + 3 <= old(self).tokens@.len(),
                parser.tokens == body,
                bv == tokens_view(body@),
                parser.pos <= body@.len(),
                p_fields(bv, 0) == match p_fields(bv, parser.pos as int) {
                    Ok(fs) => Ok(fields@.map_values(|f: Lined<Field>| field_view(f)) + fs),
                    Err(e) => Err(e),
                },
            decreases body@.len() - parser.pos,
        {
            let ghost before = fields@.map_values(|f: Lined<Field>| field_view(f));
            let f = match parser.parse_field() {
                Ok(f) => f,
                Err(e) => return Err(e),
            };
            proof {
                match p_fields(bv, parser.pos as int) {
                    Ok(fs) => {
                        assert(before + (seq![field_view(f)] + fs) =~= before.push(field_view(f)) + fs);
                    },
                    Err(_) => {},
                }
            }
            fields.push(f);
            proof {
                assert(fields@.map_values(|f: Lined<Field>| field_view(f)) =~= before.push(
                    field_view(f),
                ));
            }
        }
        proof {
            assert(fields@.map_values(|f: Lined<Field>| field_view(f)) + Seq::<FieldV>::empty()
                =~= fields@.map_values(|f: Lined<Field>| field_view(f)));
        }
        Ok(
            Lined {
                line,
                val: Message {
                    name: vstd::slice::slice_to_vec(name),
                    camel_name: to_camel(name),
                    id: Lined { line: num_line, val },
                    fields,
                },
            },
        )
    }

    /// A message after its `msg` keyword.
    pub fn parse_message(&mut self) -> (r: Result<Lined<Message>, ParseError>)
        ensures
            final(self).tokens == old(self).tokens,
            match p_message(old(self).toks(), old(self).pos as int) {
                Ok((m, p)) => r matches Ok(lm) && lined_message_view(lm) == m && final(self).pos
                    == p && old(self).pos < p <= old(self).tokens@.len(),
                Err(e) => r matches Err(x) && x@ == e,
            },
    {
        let (line, name) = match self.expect_ident() {
            Ok(x) => x,
            Err(e) => return Err(e),
        };
        let res = self.parse_message_rest(name, line);
        framed_by(res, Production::Message, line)
    }

    /// Every entry up to the end of the tokens; each must be a message.
    pub fn parse(&mut self) -> (r: Result<Vec<Lined<Message>>, ParseError>)
        requires
            old(self).pos <= old(self).tokens@.len(),
        ensures
            match p_entries(old(self).toks(), old(self).pos as int) {
                Ok(ms) => r matches Ok(v) && v@.map_values(|m: Lined<Message>| lined_message_view(m))
                    == ms,
                Err(e) => r matches Err(x) && x@ == e,
            },
    {
        let ghost ts = self.toks();
        let ghost start = self.pos as int;
        let mut res: Vec<Lined<Message>> = Vec::new();
        let msg_kw: [u8; 3] = [109u8, 115, 103];
        proof {
            assert(msg_kw@ =~= kw_msg());
            match p_entries(ts, start) {
                Ok(ms) => {
                    assert(Seq::<(u32, MessageV)>::empty() + ms =~= ms);
                },
                Err(_) => {},
            }
            assert(res@.map_values(|m: Lined<Message>| lined_message_view(m)) =~= Seq::<
                (u32, MessageV),
            >::empty());
        }
        while !self.eof()
            invariant
                ts == self.toks(),
                ts == old(self).toks(),
                start == old(self).pos as int,
                self.pos <= self.tokens@.len(),
                msg_kw@ == kw_msg(),
                p_entries(ts, start) == match p_entries(ts, self.pos as int) {
                    Ok(ms) => Ok(res@.map_values(|m: Lined<Message>| lined_message_view(m)) + ms),
                    Err(e) => Err(e),
                },
            decreases self.tokens@.len() - self.pos,
        {
            let ghost before = res@.map_values(|m: Lined<Message>| lined_message_view(m));
            let ghost p0 = self.pos as int;
            let (line, ty) = match self.expect_ident() {
                Ok(x) => x,
                Err(e) => return Err(e),
            };
            if !word_is(ty, msg_kw.as_slice()) {
                return Err(
                    error(
                        ParseErrorKind::UnexpectedEntry {
                            line,
                            name: vstd::slice::slice_to_vec(ty),
                        },
                    ),
                );
            }
            let m = match self.parse_message() {
                Ok(m) => m,
                Err(e) => return Err(e),
            };
            proof {
                assert(p_entries(ts, p0) == match p_entries(ts, self.pos as int) {
                    Ok(ms) => Ok(seq![lined_message_view(m)] + ms),
                    Err(e) => Err(e),
                });
                match p_entries(ts, self.pos as int) {
                    Ok(ms) => {
                        assert(before + (seq![lined_message_view(m)] + ms) =~= before.push(
                            lined_message_view(m),
                        ) + ms);
                    },
                    Err(_) => {},
                }
            }
            res.push(m);
            proof {
                assert(res@.map_values(|m: Lined<Message>| lined_message_view(m)) =~= before.push(
                    lined_message_view(m),
                ));
            }
        }
        proof {
            assert(res@.map_values(|m: Lined<Message>| lined_message_view(m)) + Seq::<
                (u32, MessageV),
            >::empty() =~= res@.map_values(|m: Lined<Message>| lined_message_view(m)));
        }
        Ok(res)
    }
}

fn is_numeric(t: &Type) -> (r: bool)
    ensures
        r == is_array_elem(t@),
{
    match t {
        Type::Id(_) | Type::U32 | Type::I32 | Type::Fixed => true,
        _ => false,
    }
}

/// What compiling a schema file gives: its messages, a lexical error or a grammar error.
pub open spec fn schema_result(s: Seq<u8>, r: Result<Vec<Lined<Message>>, SchemaError>) -> bool {
    match lex_all(s) {
        Err(e) => r matches Err(SchemaError::Lex(x)) && x == e,
        Ok(ts) => match p_entries(ts, 0) {
            Ok(ms) => r matches Ok(v) && v@.map_values(|m: Lined<Message>| lined_message_view(m))
                == ms,
            Err(e) => r matches Err(SchemaError::Parse(x)) && x@ == e,
        },
    }
}

/// Tokenizes and parses a schema file into its messages, in declaration order.
pub fn parse_messages(s: &[u8]) -> (r: Result<Vec<Lined<Message>>, SchemaError>)
    ensures
        schema_result(s@, r),
{
    let tokens = match tokenize(s) {
        Ok(t) => t,
        Err(e) => return Err(SchemaError::Lex(e)),
    };
    let mut parser = Parser { pos: 0, tokens: tokens.as_slice() };
    match parser.parse() {
        Ok(ms) => Ok(ms),
        Err(e) => Err(SchemaError::Parse(e)),
    }
}

/// The array restriction: `array(<t>)`, where `<t>` is one complete type, parses
/// exactly when `<t>` is numeric (an object id, `u32`, `i32` or `fixed`), and then
/// as an array of `<t>`; a string, byte string, descriptor or array inside fails.
pub proof fn lemma_array_restriction(line: u32, tree_line: u32, inner: Seq<TokenV>)
    requires
        p_type(inner, 0) matches Ok((_, _, q)) && q == inner.len(),
    ensures
        ({
            let ts = seq![
                TokenV { line, kind: TokenKindV::Ident(kw_array()) },
                TokenV { line: tree_line, kind: TokenKindV::Tree(TreeDelim::Paren, inner) },
            ];
            let et = p_type(inner, 0)->Ok_0.0;
            &&& p_type(ts, 0) is Ok <==> is_array_elem(et)
            &&& is_array_elem(et) ==> p_type(ts, 0) == Ok::<(TypeV, u32, int), ParseErrorV>(
                (TypeV::Array(Box::new(et)), line, 2),
            )
        }),
{
    let ts = seq![
        TokenV { line, kind: TokenKindV::Ident(kw_array()) },
        TokenV { line: tree_line, kind: TokenKindV::Tree(TreeDelim::Paren, inner) },
    ];
    assert(kw_array() != seq![117u8, 51, 50]);
    assert(kw_array() != seq![105u8, 51, 50]);
    assert(kw_array() != seq![115u8, 116, 114]);
    assert(kw_array() != seq![98u8, 115, 116, 114]);
    assert(kw_array()[0] != seq![102u8, 105, 120, 101, 100][0]);
    assert(kw_array() != seq![102u8, 105, 120, 101, 100]);
    assert(kw_array() != seq![102u8, 100]);
    assert(scalar_type(kw_array()) is None);
    assert(ts[1].kind->Tree_1 == inner);
}

} // verus!
