use vstd::prelude::*;

verus! {

/// The two kinds of bracket that open a nested token tree.
#[derive(Copy, Clone, Debug, PartialEq, Eq, Structural)]
pub enum TreeDelim {
    Paren,
    Brace,
}

/// The punctuation symbols of the schema language.
#[derive(Copy, Clone, Debug, PartialEq, Eq, Structural)]
pub enum Symbol {
    Comma,
    Colon,
    Equals,
}

#[derive(Debug)]
pub struct Token {
    pub line: u32,
    pub kind: TokenKind,
}

#[derive(Debug)]
pub enum TokenKind {
    Ident(Vec<u8>),
    Num(u32),
    Tree { delim: TreeDelim, body: Vec<Token> },
    Symbol(Symbol),
}

pub struct TokenV {
    pub line: u32,
    pub kind: TokenKindV,
}

pub enum TokenKindV {
    Ident(Seq<u8>),
    Num(u32),
    Tree(TreeDelim, Seq<TokenV>),
    Symbol(Symbol),
}

/// The mathematical form of a token, its tree bodies included.
pub open spec fn token_view(t: &Token) -> TokenV
    decreases t,
{
    TokenV {
        line: t.line,
        kind: match &t.kind {
            TokenKind::Ident(b) => TokenKindV::Ident(b@),
            TokenKind::Num(n) => TokenKindV::Num(*n),
            TokenKind::Tree { delim, body } => TokenKindV::Tree(
                *delim,
                Seq::new(
                    body@.len(),
                    |i: int|
                        if 0 <= i < body@.len() {
                            token_view(&body@[i])
                        } else {
                            TokenV { line: 0, kind: TokenKindV::Num(0) }
                        },
                ),
            ),
            TokenKind::Symbol(s) => TokenKindV::Symbol(*s),
        },
    }
}

impl View for Token {
    type V = TokenV;

    open spec fn view(&self) -> TokenV {
        token_view(self)
    }
}

pub open spec fn tokens_view(ts: Seq<Token>) -> Seq<TokenV> {
    ts.map_values(|t: Token| t@)
}

impl TreeDelim {
    /// The byte that opens a tree of this kind.
    pub fn opening(self) -> (r: u8)
        ensures
            r == opening_of(self),
    {
        match self {
            TreeDelim::Paren => 40u8,
            TreeDelim::Brace => 123u8,
        }
    }

    /// The byte that closes a tree of this kind.
    pub fn closing(self) -> (r: u8)
        ensures
            r == closing_of(self),
    {
        match self {
            TreeDelim::Paren => 41u8,
            TreeDelim::Brace => 125u8,
        }
    }
}

pub open spec fn opening_of(d: TreeDelim) -> u8 {
    match d {
        TreeDelim::Paren => 40u8,
        TreeDelim::Brace => 123u8,
    }
}

pub open spec fn closing_of(d: TreeDelim) -> u8 {
    match d {
        TreeDelim::Paren => 41u8,
        TreeDelim::Brace => 125u8,
    }
}

impl Symbol {
    /// The symbol as it is quoted in diagnostics.
    pub fn name(self) -> (r: &'static str)
        ensures
            r@ == symbol_name(self),
    {
        match self {
            Symbol::Comma => "','",
            Symbol::Colon => "':'",
            Symbol::Equals => "'='",
        }
    }
}

pub open spec fn symbol_name(s: Symbol) -> Seq<char> {
    match s {
        Symbol::Comma => "','"@,
        Symbol::Colon => "':'"@,
        Symbol::Equals => "'='"@,
    }
}

/// Why a schema could not be tokenized; each error carries the line it occurred in.
#[derive(Debug, Clone, Copy, PartialEq, Eq, Structural)]
pub enum LexError {
    /// The input ended while a tree was still open.
    UnexpectedEof { line: u32 },
    /// A closing bracket that does not close the innermost open tree.
    UnexpectedClose { byte: u8, line: u32 },
    /// A byte that starts no token.
    UnexpectedByte { byte: u8, line: u32 },
}

// ---------------------------------------------------------------------------
// The lexical grammar

pub open spec fn is_lower(b: u8) -> bool {
    97 <= b <= 122
}

pub open spec fn is_digit(b: u8) -> bool {
    48 <= b <= 57
}

/// Whether `b` may continue an identifier: `[a-z0-9_]`.
pub open spec fn is_ident_cont(b: u8) -> bool {
    is_lower(b) || is_digit(b) || b == 95
}

/// The next line number; the count stops at the largest `u32`.
pub open spec fn next_line(l: u32) -> u32 {
    if l < u32::MAX {
        (l + 1) as u32
    } else {
        l
    }
}

/// Skipping spaces, newlines and `#` comments from `pos`: the position of the next
/// token, or the end, and the line there. `in_comment` holds inside a comment.
pub open spec fn skip_ws(s: Seq<u8>, pos: int, line: u32, in_comment: bool) -> (int, u32)
    decreases s.len() - pos,
{
    if pos < 0 || pos >= s.len() {
        (pos, line)
    } else if s[pos] == 10 {
        skip_ws(s, pos + 1, next_line(line), false)
    } else if in_comment {
        skip_ws(s, pos + 1, line, true)
    } else if s[pos] == 32 {
        skip_ws(s, pos + 1, line, false)
    } else if s[pos] == 35 {
        skip_ws(s, pos + 1, line, true)
    } else {
        (pos, line)
    }
}

/// The end of the run of identifier bytes from `pos`.
pub open spec fn ident_end(s: Seq<u8>, pos: int) -> int
    decreases s.len() - pos,
{
    if 0 <= pos < s.len() && is_ident_cont(s[pos]) {
        ident_end(s, pos + 1)
    } else {
        pos
    }
}

/// The end of the run of decimal digits from `pos`.
pub open spec fn digits_end(s: Seq<u8>, pos: int) -> int
    decreases s.len() - pos,
{
    if 0 <= pos < s.len() && is_digit(s[pos]) {
        digits_end(s, pos + 1)
    } else {
        pos
    }
}

/// The value of the digits in `s[start..end]`, accumulated modulo 2^32.
pub open spec fn num_value(s: Seq<u8>, start: int, end: int) -> u32
    decreases end - start,
{
    if end <= start {
        0
    } else {
        ((num_value(s, start, end - 1) * 10 + (s[end - 1] - 48)) % 0x1_0000_0000) as u32
    }
}

pub open spec fn symbol_of(b: u8) -> Option<Symbol> {
    if b == 44 {
        Some(Symbol::Comma)
    } else if b == 58 {
        Some(Symbol::Colon)
    } else if b == 61 {
        Some(Symbol::Equals)
    } else {
        None
    }
}

pub open spec fn delim_of_opening(b: u8) -> Option<TreeDelim> {
    if b == 40 {
        Some(TreeDelim::Paren)
    } else if b == 123 {
        Some(TreeDelim::Brace)
    } else {
        None
    }
}

pub proof fn lemma_skip_ws(s: Seq<u8>, pos: int, line: u32, in_comment: bool)
    requires
        0 <= pos <= s.len(),
    ensures
        pos <= skip_ws(s, pos, line, in_comment).0 <= s.len(),
        skip_ws(s, pos, line, in_comment).0 < s.len() ==> {
            let b = s[skip_ws(s, pos, line, in_comment).0];
            b != 10 && b != 32 && b != 35
        },
    decreases s.len() - pos,
{
    if pos < s.len() {
        if s[pos] == 10 || in_comment || s[pos] == 32 || s[pos] == 35 {
            lemma_skip_ws(s, pos + 1, if s[pos] == 10 { next_line(line) } else { line }, s[pos] != 10 && (in_comment || s[pos] == 35));
        }
    }
}

pub proof fn lemma_ident_end(s: Seq<u8>, pos: int)
    requires
        0 <= pos <= s.len(),
    ensures
        pos <= ident_end(s, pos) <= s.len(),
    decreases s.len() - pos,
{
    if pos < s.len() && is_ident_cont(s[pos]) {
        lemma_ident_end(s, pos + 1);
    }
}

pub proof fn lemma_digits_end(s: Seq<u8>, pos: int)
    requires
        0 <= pos <= s.len(),
    ensures
        pos <= digits_end(s, pos) <= s.len(),
    decreases s.len() - pos,
{
    if pos < s.len() && is_digit(s[pos]) {
        lemma_digits_end(s, pos + 1);
    }
}

/// `r` with token `t` put in front.
pub open spec fn cons_tok(t: TokenV, r: Result<(Seq<TokenV>, int, u32), LexError>) -> Result<
    (Seq<TokenV>, int, u32),
    LexError,
> {
    match r {
        Ok((ts, e, l)) => Ok((seq![t] + ts, e, l)),
        Err(x) => Err(x),
    }
}

/// Tokenizing `s` from `pos` at line `line` inside a tree opened by `delim` (none at
/// the top level): the tokens up to the matching closer (or the end), the position
/// after it and the line there.
pub open spec fn lex(s: Seq<u8>, pos: int, line: u32, delim: Option<TreeDelim>) -> Result<
    (Seq<TokenV>, int, u32),
    LexError,
>
    decreases s.len() - pos,
{
    if pos < 0 || pos > s.len() {
        Err(LexError::UnexpectedEof { line })
    } else {
        proof {
            lemma_skip_ws(s, pos, line, false);
        }
        let (p, l) = skip_ws(s, pos, line, false);
        if p >= s.len() {
            if delim is Some {
                Err(LexError::UnexpectedEof { line: l })
            } else {
                Ok((seq![], p, l))
            }
        } else {
            let b = s[p];
            if is_lower(b) {
                proof {
                    lemma_ident_end(s, p + 1);
                }
                let e = ident_end(s, p + 1);
                cons_tok(
                    TokenV { line: l, kind: TokenKindV::Ident(s.subrange(p, e)) },
                    lex(s, e, l, delim),
                )
            } else if is_digit(b) {
                proof {
                    lemma_digits_end(s, p + 1);
                }
                let e = digits_end(s, p + 1);
                cons_tok(
                    TokenV { line: l, kind: TokenKindV::Num(num_value(s, p, e)) },
                    lex(s, e, l, delim),
                )
            } else if symbol_of(b) is Some {
                cons_tok(
                    TokenV { line: l, kind: TokenKindV::Symbol(symbol_of(b)->0) },
                    lex(s, p + 1, l, delim),
                )
            } else if delim_of_opening(b) is Some {
                let d = delim_of_opening(b)->0;
                match lex(s, p + 1, l, Some(d)) {
                    Err(x) => Err(x),
                    Ok((body, e, l2)) => if p < e <= s.len() {
                        cons_tok(
                            TokenV { line: l, kind: TokenKindV::Tree(d, body) },
                            lex(s, e, l2, delim),
                        )
                    } else {
                        Err(LexError::UnexpectedEof { line: l2 })
                    },
                }
            } else if b == 41 || b == 125 {
                if delim is Some && closing_of(delim->0) == b {
                    Ok((seq![], p + 1, l))
                } else {
                    Err(LexError::UnexpectedClose { byte: b, line: l })
                }
            } else {
                Err(LexError::UnexpectedByte { byte: b, line: l })
            }
        }
    }
}

/// Tokenizing a whole schema, from line 1.
pub open spec fn lex_all(s: Seq<u8>) -> Result<Seq<TokenV>, LexError> {
    match lex(s, 0, 1, None) {
        Ok((ts, _, _)) => Ok(ts),
        Err(e) => Err(e),
    }
}

// ---------------------------------------------------------------------------
// The tokenizer

/// A position in the schema bytes.
#[derive(Copy, Clone)]
pub struct Cursor<'a> {
    pub pos: usize,
    pub s: &'a [u8],
}

impl Cursor<'_> {
    /// Whether no byte is left.
    pub fn eof(&self) -> (r: bool)
        ensures
            r == (self.pos >= self.s@.len()),
    {
        self.pos >= self.s.len()
    }
}

/// `r` with `pre` put in front of the tokens it holds.
pub open spec fn prefixed_toks(pre: Seq<TokenV>, r: Result<(Seq<TokenV>, int, u32), LexError>) -> Result<
    (Seq<TokenV>, int, u32),
    LexError,
> {
    match r {
        Ok((ts, e, l)) => Ok((pre + ts, e, l)),
        Err(x) => Err(x),
    }
}

proof fn lemma_prefix_cons(pre: Seq<TokenV>, t: TokenV, r: Result<(Seq<TokenV>, int, u32), LexError>)
    ensures
        prefixed_toks(pre, cons_tok(t, r)) == prefixed_toks(pre.push(t), r),
{
    match r {
        Ok((ts, e, l)) => {
            assert(pre + (seq![t] + ts) =~= pre.push(t) + ts);
        },
        Err(_) => {},
    }
}

fn skip_blank(c: Cursor, line: u32) -> (r: (usize, u32))
    requires
        c.pos <= c.s@.len(),
    ensures
        r.0 as int == skip_ws(c.s@, c.pos as int, line, false).0,
        r.1 == skip_ws(c.s@, c.pos as int, line, false).1,
{
    let mut c = c;
    let mut line = line;
    let mut in_comment = false;
    let ghost target = skip_ws(c.s@, c.pos as int, line, false);
    while !c.eof()
        invariant
            c.pos <= c.s@.len(),
            skip_ws(c.s@, c.pos as int, line, in_comment) == target,
        ensures
            c.pos as int == target.0,
            line == target.1,
        decreases c.s@.len() - c.pos,
    {
        let b = c.s[c.pos];
        if b == 10 {
            line = if line < u32::MAX { line + 1 } else { line };
            in_comment = false;
        } else if in_comment || b == 32 || b == 35 {
            in_comment = in_comment || b == 35;
        } else {
            break;
        }
        c.pos = c.pos + 1;
    }
    (c.pos, line)
}

fn ident_run(s: &[u8], pos: usize) -> (r: usize)
    requires
        pos <= s@.len(),
    ensures
        r as int == ident_end(s@, pos as int),
{
    let mut p = pos;
    while p < s.len() && (97 <= s[p] && s[p] <= 122 || 48 <= s[p] && s[p] <= 57 || s[p] == 95)
        invariant
            pos <= p <= s@.len(),
            ident_end(s@, p as int) == ident_end(s@, pos as int),
        decreases s@.len() - p,
    {
        p = p + 1;
    }
    p
}

/// The number whose digits start at `pos`, and the end of the digits.
fn number_run(s: &[u8], pos: usize) -> (r: (u32, usize))
    requires
        pos < s@.len(),
        is_digit(s@[pos as int]),
    ensures
        r.1 as int == digits_end(s@, pos + 1),
        r.0 == num_value(s@, pos as int, r.1 as int),
{
    let mut p = pos;
    let mut num: u32 = 0;
    while p < s.len() && 48 <= s[p] && s[p] <= 57
        invariant
            pos <= p <= s@.len(),
            p == pos ==> digits_end(s@, p + 1) == digits_end(s@, pos + 1),
            p > pos ==> digits_end(s@, p as int) == digits_end(s@, pos + 1),
            num == num_value(s@, pos as int, p as int),
        decreases s@.len() - p,
    {
        num = ((num as u64 * 10 + (s[p] - 48) as u64) % 0x1_0000_0000) as u32;
        p = p + 1;
    }
    (num, p)
}

/// Tokenizes `s` from `pos` inside a tree opened by `delim`, or at the top level.
fn lex_from(s: &[u8], pos: usize, line: u32, delim: Option<TreeDelim>) -> (r: Result<
    (Vec<Token>, usize, u32),
    LexError,
>)
    requires
        pos <= s@.len(),
    ensures
        match lex(s@, pos as int, line, delim) {
            Ok((ts, e, l)) => r matches Ok((v, e2, l2)) && tokens_view(v@) == ts && e2 == e && l2
                == l,
            Err(x) => r == Err::<(Vec<Token>, usize, u32), LexError>(x),
        },
        r matches Ok((_, e, _)) ==> pos <= e <= s@.len() && (delim is Some ==> pos < e),
    decreases s@.len() - pos,
{
    let mut out: Vec<Token> = Vec::new();
    let mut p = pos;
    let mut l = line;
    proof {
        match lex(s@, pos as int, line, delim) {
            Ok((ts, _, _)) => {
                assert(Seq::<TokenV>::empty() + ts =~= ts);
            },
            Err(_) => {},
        }
        assert(tokens_view(out@) =~= Seq::<TokenV>::empty());
    }
    loop
        invariant
            pos <= p <= s@.len(),
            lex(s@, pos as int, line, delim) == prefixed_toks(
                tokens_view(out@),
                lex(s@, p as int, l, delim),
            ),
        decreases s@.len() - p,
    {
        let ghost p0 = p as int;
        let ghost l0 = l;
        let (q, l2) = skip_blank(Cursor { pos: p, s }, l);
        proof {
            lemma_skip_ws(s@, p as int, l, false);
        }
        if q >= s.len() {
            if delim.is_some() {
                return Err(LexError::UnexpectedEof { line: l2 });
            }
            proof {
                assert(tokens_view(out@) + Seq::<TokenV>::empty() =~= tokens_view(out@));
            }
            return Ok((out, q, l2));
        }
        let b = s[q];
        let ghost pre = tokens_view(out@);
        let tok: Token;
        if 97 <= b && b <= 122 {
            let e = ident_run(s, q + 1);
            proof {
                lemma_ident_end(s@, q + 1);
            }
            tok = Token { line: l2, kind: TokenKind::Ident(vstd::slice::slice_to_vec(&s[q..e])) };
            p = e;
        } else if 48 <= b && b <= 57 {
            let (num, e) = number_run(s, q);
            proof {
                lemma_digits_end(s@, q + 1);
            }
            tok = Token { line: l2, kind: TokenKind::Num(num) };
            p = e;
        } else if b == 44 || b == 58 || b == 61 {
            let sym = if b == 44 {
                Symbol::Comma
            } else if b == 58 {
                Symbol::Colon
            } else {
                Symbol::Equals
            };
            tok = Token { line: l2, kind: TokenKind::Symbol(sym) };
            p = q + 1;
        } else if b == 40 || b == 123 {
            let d = if b == 40 {
                TreeDelim::Paren
            } else {
                TreeDelim::Brace
            };
            match lex_from(s, q + 1, l2, Some(d)) {
                Err(x) => {
                    return Err(x);
                },
                Ok((body, e, l3)) => {
                    let ghost bv = body@;
                    tok = Token { line: l2, kind: TokenKind::Tree { delim: d, body } };
                    p = e;
                    l = l3;
                    assert(tok@.kind->Tree_1.len() == bv.len());
                    assert forall|i: int| 0 <= i < bv.len() implies tok@.kind->Tree_1[i]
                        == tokens_view(bv)[i] by {
                        assert(tokens_view(bv)[i] == bv[i]@);
                    }
                    assert(tok@.kind->Tree_1 =~= tokens_view(bv));
                    assert(tok@ == TokenV { line: l2, kind: TokenKindV::Tree(d, tokens_view(bv)) });
                },
            }
        } else if b == 41 || b == 125 {
            match delim {
                Some(d) => {
                    if d.closing() == b {
                        proof {
                            assert(tokens_view(out@) + Seq::<TokenV>::empty() =~= tokens_view(out@));
                        }
                        return Ok((out, q + 1, l2));
                    }
                },
                None => {},
            }
            return Err(LexError::UnexpectedClose { byte: b, line: l2 });
        } else {
            return Err(LexError::UnexpectedByte { byte: b, line: l2 });
        }
        if !(b == 40 || b == 123) {
            l = l2;
        }
        proof {
            assert(lex(s@, p0, l0, delim) == cons_tok(tok@, lex(s@, p as int, l, delim)));
            lemma_prefix_cons(pre, tok@, lex(s@, p as int, l, delim));
            assert(tokens_view(out@.push(tok)) =~= pre.push(tok@));
        }
        out.push(tok);
    }
}

/// Tokenizes a whole schema, counting lines from 1.
pub fn tokenize(s: &[u8]) -> (r: Result<Vec<Token>, LexError>)
    ensures
        match lex_all(s@) {
            Ok(ts) => r matches Ok(v) && tokens_view(v@) == ts,
            Err(x) => r == Err::<Vec<Token>, LexError>(x),
        },
{
    match lex_from(s, 0, 1, None) {
        Ok((v, _, _)) => Ok(v),
        Err(x) => Err(x),
    }
}

// ---------------------------------------------------------------------------
// Bracket structure

pub open spec fn is_open_bracket(b: u8) -> bool {
    b == 40 || b == 123
}

pub open spec fn is_close_bracket(b: u8) -> bool {
    b == 41 || b == 125
}

pub open spec fn closer_of(b: u8) -> u8 {
    if b == 40 {
        41
    } else {
        125
    }
}

/// The bracket bytes of `s` from `pos`, leaving out those in comments.
pub open spec fn input_brackets(s: Seq<u8>, pos: int, in_comment: bool) -> Seq<u8>
    decreases s.len() - pos,
{
    if pos < 0 || pos >= s.len() {
        seq![]
    } else if in_comment {
        input_brackets(s, pos + 1, s[pos] != 10)
    } else if s[pos] == 35 {
        input_brackets(s, pos + 1, true)
    } else if is_open_bracket(s[pos]) || is_close_bracket(s[pos]) {
        seq![s[pos]] + input_brackets(s, pos + 1, false)
    } else {
        input_brackets(s, pos + 1, false)
    }
}

/// The bracket structure of a token sequence, trees written out with their brackets.
pub open spec fn tree_brackets(ts: Seq<TokenV>) -> Seq<u8>
    decreases ts,
{
    if ts.len() == 0 {
        seq![]
    } else {
        token_brackets(ts[0]) + tree_brackets(ts.drop_first())
    }
}

pub open spec fn token_brackets(t: TokenV) -> Seq<u8>
    decreases t,
{
    match t.kind {
        TokenKindV::Tree(d, body) => seq![opening_of(d)] + tree_brackets(body) + seq![closing_of(d)],
        _ => seq![],
    }
}

/// Whether the brackets `b` close in the right order, given the closers `stack` still
/// expected (innermost last).
pub open spec fn balanced_with(b: Seq<u8>, stack: Seq<u8>) -> bool
    decreases b.len(),
{
    if b.len() == 0 {
        stack.len() == 0
    } else if is_open_bracket(b[0]) {
        balanced_with(b.drop_first(), stack.push(closer_of(b[0])))
    } else if is_close_bracket(b[0]) {
        stack.len() > 0 && stack.last() == b[0] && balanced_with(b.drop_first(), stack.drop_last())
    } else {
        balanced_with(b.drop_first(), stack)
    }
}

/// Whether every bracket of `b` is closed by its partner, innermost first.
pub open spec fn balanced(b: Seq<u8>) -> bool {
    balanced_with(b, seq![])
}

pub open spec fn closer_bytes(delim: Option<TreeDelim>) -> Seq<u8> {
    match delim {
        Some(d) => seq![closing_of(d)],
        None => seq![],
    }
}

proof fn lemma_skip_keeps_brackets(s: Seq<u8>, pos: int, line: u32, c: bool)
    requires
        0 <= pos <= s.len(),
    ensures
        input_brackets(s, pos, c) == input_brackets(s, skip_ws(s, pos, line, c).0, false),
    decreases s.len() - pos,
{
    if pos < s.len() {
        if s[pos] == 10 {
            lemma_skip_keeps_brackets(s, pos + 1, next_line(line), false);
        } else if c {
            lemma_skip_keeps_brackets(s, pos + 1, line, true);
        } else if s[pos] == 32 {
            lemma_skip_keeps_brackets(s, pos + 1, line, false);
        } else if s[pos] == 35 {
            lemma_skip_keeps_brackets(s, pos + 1, line, true);
        }
    }
}

proof fn lemma_ident_keeps_brackets(s: Seq<u8>, pos: int)
    requires
        0 <= pos <= s.len(),
    ensures
        input_brackets(s, pos, false) == input_brackets(s, ident_end(s, pos), false),
    decreases s.len() - pos,
{
    if pos < s.len() && is_ident_cont(s[pos]) {
        lemma_ident_keeps_brackets(s, pos + 1);
    }
}

proof fn lemma_digits_keep_brackets(s: Seq<u8>, pos: int)
    requires
        0 <= pos <= s.len(),
    ensures
        input_brackets(s, pos, false) == input_brackets(s, digits_end(s, pos), false),
    decreases s.len() - pos,
{
    if pos < s.len() && is_digit(s[pos]) {
        lemma_digits_keep_brackets(s, pos + 1);
    }
}

proof fn lemma_tree_brackets_cons(t: TokenV, rest: Seq<TokenV>)
    ensures
        tree_brackets(seq![t] + rest) == token_brackets(t) + tree_brackets(rest),
{
    assert((seq![t] + rest).drop_first() =~= rest);
    assert((seq![t] + rest)[0] == t);
}

proof fn lemma_lex_brackets(s: Seq<u8>, pos: int, line: u32, delim: Option<TreeDelim>)
    requires
        lex(s, pos, line, delim) is Ok,
    ensures
        ({
            let (ts, e, _) = lex(s, pos, line, delim)->Ok_0;
            input_brackets(s, pos, false) == tree_brackets(ts) + closer_bytes(delim)
                + input_brackets(s, e, false)
        }),
    decreases s.len() - pos,
{
    lemma_skip_ws(s, pos, line, false);
    lemma_skip_keeps_brackets(s, pos, line, false);
    let (p, l) = skip_ws(s, pos, line, false);
    if p < s.len() {
        let b = s[p];
        if is_lower(b) {
            lemma_ident_end(s, p + 1);
            lemma_ident_keeps_brackets(s, p + 1);
            let e = ident_end(s, p + 1);
            lemma_lex_brackets(s, e, l, delim);
            let (rest, _, _) = lex(s, e, l, delim)->Ok_0;
            lemma_tree_brackets_cons(TokenV { line: l, kind: TokenKindV::Ident(s.subrange(p, e)) }, rest);
        } else if is_digit(b) {
            lemma_digits_end(s, p + 1);
            lemma_digits_keep_brackets(s, p + 1);
            let e = digits_end(s, p + 1);
            lemma_lex_brackets(s, e, l, delim);
            let (rest, _, _) = lex(s, e, l, delim)->Ok_0;
            lemma_tree_brackets_cons(TokenV { line: l, kind: TokenKindV::Num(num_value(s, p, e)) }, rest);
        } else if symbol_of(b) is Some {
            lemma_lex_brackets(s, p + 1, l, delim);
            let (rest, _, _) = lex(s, p + 1, l, delim)->Ok_0;
            lemma_tree_brackets_cons(TokenV { line: l, kind: TokenKindV::Symbol(symbol_of(b)->0) }, rest);
        } else if delim_of_opening(b) is Some {
            let d = delim_of_opening(b)->0;
            lemma_lex_brackets(s, p + 1, l, Some(d));
            let (body, e, l2) = lex(s, p + 1, l, Some(d))->Ok_0;
            lemma_lex_brackets(s, e, l2, delim);
            let (rest, _, _) = lex(s, e, l2, delim)->Ok_0;
            let t = TokenV { line: l, kind: TokenKindV::Tree(d, body) };
            lemma_tree_brackets_cons(t, rest);
            assert(input_brackets(s, p, false) == seq![b] + input_brackets(s, p + 1, false));
            assert(opening_of(d) == b);
            assert(input_brackets(s, pos, false) =~= tree_brackets(seq![t] + rest) + closer_bytes(
                delim,
            ) + input_brackets(s, lex(s, pos, line, delim)->Ok_0.1, false));
        } else {
            assert(input_brackets(s, p, false) == seq![b] + input_brackets(s, p + 1, false));
            assert(input_brackets(s, pos, false) =~= tree_brackets(Seq::<TokenV>::empty())
                + closer_bytes(delim) + input_brackets(s, p + 1, false));
        }
    } else {
        assert(input_brackets(s, pos, false) =~= tree_brackets(Seq::<TokenV>::empty())
            + closer_bytes(delim) + input_brackets(s, p, false));
    }
}

proof fn lemma_tree_brackets_balanced(ts: Seq<TokenV>, rest: Seq<u8>, stack: Seq<u8>)
    ensures
        balanced_with(tree_brackets(ts) + rest, stack) == balanced_with(rest, stack),
    decreases ts,
{
    if ts.len() > 0 {
        lemma_token_brackets_balanced(ts[0], tree_brackets(ts.drop_first()) + rest, stack);
        lemma_tree_brackets_balanced(ts.drop_first(), rest, stack);
        assert(tree_brackets(ts) + rest =~= token_brackets(ts[0]) + (tree_brackets(ts.drop_first())
            + rest));
    } else {
        assert(tree_brackets(ts) + rest =~= rest);
    }
}

proof fn lemma_token_brackets_balanced(t: TokenV, rest: Seq<u8>, stack: Seq<u8>)
    ensures
        balanced_with(token_brackets(t) + rest, stack) == balanced_with(rest, stack),
    decreases t,
{
    match t.kind {
        TokenKindV::Tree(d, body) => {
            let o = opening_of(d);
            let c = closing_of(d);
            let whole = token_brackets(t) + rest;
            assert(whole =~= seq![o] + (tree_brackets(body) + (seq![c] + rest)));
            assert(whole[0] == o);
            assert(whole.drop_first() =~= tree_brackets(body) + (seq![c] + rest));
            assert(closer_of(o) == c);
            lemma_tree_brackets_balanced(body, seq![c] + rest, stack.push(c));
            assert((seq![c] + rest)[0] == c);
            assert((seq![c] + rest).drop_first() =~= rest);
            assert(stack.push(c).drop_last() =~= stack);
        },
        _ => {
            assert(token_brackets(t) + rest =~= rest);
        },
    }
}

/// Tokenizing recovers the bracket structure of the input: when a schema tokenizes,
/// its trees, written out with their brackets, are exactly the brackets of the input
/// outside comments, in the same order and nesting; and those brackets are balanced.
/// So an input whose brackets are not balanced fails to tokenize.
pub proof fn lemma_tokenizer_balance(s: Seq<u8>)
    ensures
        lex_all(s) matches Ok(ts) ==> tree_brackets(ts) == input_brackets(s, 0, false),
        lex_all(s) is Ok ==> balanced(input_brackets(s, 0, false)),
        !balanced(input_brackets(s, 0, false)) ==> lex_all(s) is Err,
{
    if lex(s, 0, 1, None) is Ok {
        lemma_lex_brackets(s, 0, 1, None);
        let (ts, e, _) = lex(s, 0, 1, None)->Ok_0;
        lemma_lex_ends_at_end(s, 0, 1);
        assert(input_brackets(s, e, false) == Seq::<u8>::empty());
        assert(tree_brackets(ts) + closer_bytes(None) + input_brackets(s, e, false) =~= tree_brackets(ts));
        lemma_tree_brackets_balanced(ts, seq![], seq![]);
        assert(tree_brackets(ts) + Seq::<u8>::empty() =~= tree_brackets(ts));
    }
}

proof fn lemma_lex_ends_at_end(s: Seq<u8>, pos: int, line: u32)
    requires
        lex(s, pos, line, None) is Ok,
    ensures
        lex(s, pos, line, None)->Ok_0.1 >= s.len(),
    decreases s.len() - pos,
{
    lemma_skip_ws(s, pos, line, false);
    let (p, l) = skip_ws(s, pos, line, false);
    if p < s.len() {
        let b = s[p];
        if is_lower(b) {
            lemma_ident_end(s, p + 1);
            lemma_lex_ends_at_end(s, ident_end(s, p + 1), l);
        } else if is_digit(b) {
            lemma_digits_end(s, p + 1);
            lemma_lex_ends_at_end(s, digits_end(s, p + 1), l);
        } else if symbol_of(b) is Some {
            lemma_lex_ends_at_end(s, p + 1, l);
        } else if delim_of_opening(b) is Some {
            let d = delim_of_opening(b)->0;
            let (_, e, l2) = lex(s, p + 1, l, Some(d))->Ok_0;
            lemma_lex_ends_at_end(s, e, l2);
        }
    }
}

} // verus!
