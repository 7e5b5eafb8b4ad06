use crate::message::{log_view, Diagnostic, DiagView, Message, MessageView, Severity};
use crate::message::Context;
use vstd::prelude::*;
use vstd::slice::{slice_subrange, slice_to_vec};
use vstd::utf8::encode_utf8;

verus! {

/// A half-open range `[lo, hi)` of byte offsets into the source text.
#[derive(Clone, Copy, Debug, PartialEq, Eq, Structural)]
pub struct Span {
    pub lo: usize,
    pub hi: usize,
}

/// The span that covers both `a` and `b`.
pub open spec fn merge(a: Span, b: Span) -> Span {
    Span { lo: if a.lo <= b.lo { a.lo } else { b.lo }, hi: if a.hi >= b.hi { a.hi } else { b.hi } }
}

/// Combines two spans into the smallest span covering both.
pub fn join(a: Span, b: Span) -> (r: Span)
    ensures
        r == merge(a, b),
{
    Span { lo: if a.lo <= b.lo { a.lo } else { b.lo }, hi: if a.hi >= b.hi { a.hi } else { b.hi } }
}

/// The lexical categories of the language.
#[derive(Debug, PartialEq, Eq)]
pub enum Token {
    Whitespace,
    Comment,
    Unknown(String),
    KwdFunction,
    KwdConstant,
    KwdMutable,
    KwdReturn,
    KwdIf,
    KwdElse,
    KwdWhile,
    KwdBreak,
    KwdContinue,
    True,
    False,
    OperOr,
    OperAnd,
    OperXor,
    OperNot,
    Identifier(String),
    Integer(i64),
    LParen,
    RParen,
    LBrace,
    RBrace,
    LBracket,
    RBracket,
    Colon,
    Comma,
    Arrow,
    Semicolon,
    Dot,
    OperPlus,
    OperMinus,
    OperMult,
    OperDiv,
    OperMod,
    OperAssign,
    OperLessThan,
    OperLessOrEqual,
    OperGreaterThan,
    OperGreaterOrEqual,
    OperEqual,
    OperNotEqual,
    OperPlusAssign,
    OperMinusAssign,
    OperMultAssign,
    OperDivAssign,
    OperModAssign,
}

/// What the longest match at a position is.
pub enum Scan {
    /// Whitespace or a comment.
    Skip,
    /// A character that starts no token.
    Unknown,
    Ident,
    Number,
    /// A keyword, operator or punctuation.
    Fixed(Token),
}

pub open spec fn is_space(c: u8) -> bool {
    c == (' ' as u8) || c == ('\t' as u8) || c == ('\r' as u8) || c == ('\n' as u8)
}

pub open spec fn is_digit(c: u8) -> bool {
    ('0' as u8) <= c <= ('9' as u8)
}

pub open spec fn is_ident_start(c: u8) -> bool {
    (('a' as u8) <= c <= ('z' as u8)) || (('A' as u8) <= c <= ('Z' as u8)) || c == ('_' as u8)
}

pub open spec fn is_ident_char(c: u8) -> bool {
    is_ident_start(c) || is_digit(c)
}

/// The bytes that continue a run: of an identifier (0), of a literal (1), of a line
/// comment (2).
pub open spec fn in_run(kind: int, c: u8) -> bool {
    if kind == 0 {
        is_ident_char(c)
    } else if kind == 1 {
        is_digit(c) || c == ('_' as u8)
    } else {
        c != ('\n' as u8)
    }
}

/// The end of the run of bytes of the given kind from `j` on.
pub open spec fn run_end(s: Seq<u8>, j: int, kind: int) -> int
    decreases s.len() - j,
{
    if 0 <= j < s.len() && in_run(kind, s[j]) {
        run_end(s, j + 1, kind)
    } else {
        j
    }
}

/// The position just after the first `*/` at or after `j`.
pub open spec fn block_close(s: Seq<u8>, j: int) -> Option<int>
    decreases s.len() - j,
{
    if j < 0 || j + 1 >= s.len() {
        None
    } else if s[j] == ('*' as u8) && s[j + 1] == ('/' as u8) {
        Some(j + 2)
    } else {
        block_close(s, j + 1)
    }
}

/// The number of bytes in the UTF-8 encoding of the character that starts with `c`.
pub open spec fn char_width(c: u8) -> int {
    if c < 0x80 {
        1
    } else if c >= 0xf0 {
        4
    } else if c >= 0xe0 {
        3
    } else if c >= 0xc0 {
        2
    } else {
        1
    }
}

pub open spec fn keyword(w: Seq<u8>) -> Option<Token> {
    if w.len() == 4 && w[0] == ('f' as u8) && w[1] == ('u' as u8) && w[2] == ('n' as u8) && w[3] == ('k' as u8) {
        Some(Token::KwdFunction)
    } else if w.len() == 3 && w[0] == ('s' as u8) && w[1] == ('e' as u8) && w[2] == ('t' as u8) {
        Some(Token::KwdConstant)
    } else if w.len() == 3 && w[0] == ('l' as u8) && w[1] == ('e' as u8) && w[2] == ('t' as u8) {
        Some(Token::KwdMutable)
    } else if w.len() == 3 && w[0] == ('r' as u8) && w[1] == ('e' as u8) && w[2] == ('t' as u8) {
        Some(Token::KwdReturn)
    } else if w.len() == 2 && w[0] == ('i' as u8) && w[1] == ('f' as u8) {
        Some(Token::KwdIf)
    } else if w.len() == 4 && w[0] == ('e' as u8) && w[1] == ('l' as u8) && w[2] == ('s' as u8) && w[3] == ('e' as u8) {
        Some(Token::KwdElse)
    } else if w.len() == 5 && w[0] == ('w' as u8) && w[1] == ('h' as u8) && w[2] == ('i' as u8) && w[3] == ('l' as u8) && w[4] == ('e' as u8) {
        Some(Token::KwdWhile)
    } else if w.len() == 5 && w[0] == ('b' as u8) && w[1] == ('r' as u8) && w[2] == ('e' as u8) && w[3] == ('a' as u8) && w[4] == ('k' as u8) {
        Some(Token::KwdBreak)
    } else if w.len() == 8 && w[0] == ('c' as u8) && w[1] == ('o' as u8) && w[2] == ('n' as u8) && w[3] == ('t' as u8) && w[4] == ('i' as u8) && w[5] == ('n' as u8) && w[6] == ('u' as u8) && w[7] == ('e' as u8) {
        Some(Token::KwdContinue)
    } else if w.len() == 4 && w[0] == ('t' as u8) && w[1] == ('r' as u8) && w[2] == ('u' as u8) && w[3] == ('e' as u8) {
        Some(Token::True)
    } else if w.len() == 5 && w[0] == ('f' as u8) && w[1] == ('a' as u8) && w[2] == ('l' as u8) && w[3] == ('s' as u8) && w[4] == ('e' as u8) {
        Some(Token::False)
    } else if w.len() == 2 && w[0] == ('o' as u8) && w[1] == ('r' as u8) {
        Some(Token::OperOr)
    } else if w.len() == 3 && w[0] == ('a' as u8) && w[1] == ('n' as u8) && w[2] == ('d' as u8) {
        Some(Token::OperAnd)
    } else if w.len() == 3 && w[0] == ('x' as u8) && w[1] == ('o' as u8) && w[2] == ('r' as u8) {
        Some(Token::OperXor)
    } else if w.len() == 3 && w[0] == ('n' as u8) && w[1] == ('o' as u8) && w[2] == ('t' as u8) {
        Some(Token::OperNot)
    } else {
        None
    }
}

/// The operator or punctuation token at `i`, longest first, and its length.
pub open spec fn symbol(s: Seq<u8>, i: int) -> Option<(Token, int)> {
    let c = s[i];
    let d = if i + 1 < s.len() { s[i + 1] as int } else { -1 };
    if c == ('-' as u8) && d == ('>' as u8) as int {
        Some((Token::Arrow, 2))
    } else if c == ('<' as u8) && d == ('=' as u8) as int {
        Some((Token::OperLessOrEqual, 2))
    } else if c == ('>' as u8) && d == ('=' as u8) as int {
        Some((Token::OperGreaterOrEqual, 2))
    } else if c == ('=' as u8) && d == ('=' as u8) as int {
        Some((Token::OperEqual, 2))
    } else if c == ('!' as u8) && d == ('=' as u8) as int {
        Some((Token::OperNotEqual, 2))
    } else if c == ('+' as u8) && d == ('=' as u8) as int {
        Some((Token::OperPlusAssign, 2))
    } else if c == ('-' as u8) && d == ('=' as u8) as int {
        Some((Token::OperMinusAssign, 2))
    } else if c == ('*' as u8) && d == ('=' as u8) as int {
        Some((Token::OperMultAssign, 2))
    } else if c == ('/' as u8) && d == ('=' as u8) as int {
        Some((Token::OperDivAssign, 2))
    } else if c == ('%' as u8) && d == ('=' as u8) as int {
        Some((Token::OperModAssign, 2))
    } else if c == ('(' as u8) {
        Some((Token::LParen, 1))
    } else if c == (')' as u8) {
        Some((Token::RParen, 1))
    } else if c == ('{' as u8) {
        Some((Token::LBrace, 1))
    } else if c == ('}' as u8) {
        Some((Token::RBrace, 1))
    } else if c == ('[' as u8) {
        Some((Token::LBracket, 1))
    } else if c == (']' as u8) {
        Some((Token::RBracket, 1))
    } else if c == (':' as u8) {
        Some((Token::Colon, 1))
    } else if c == (',' as u8) {
        Some((Token::Comma, 1))
    } else if c == (';' as u8) {
        Some((Token::Semicolon, 1))
    } else if c == ('.' as u8) {
        Some((Token::Dot, 1))
    } else if c == ('+' as u8) {
        Some((Token::OperPlus, 1))
    } else if c == ('-' as u8) {
        Some((Token::OperMinus, 1))
    } else if c == ('*' as u8) {
        Some((Token::OperMult, 1))
    } else if c == ('/' as u8) {
        Some((Token::OperDiv, 1))
    } else if c == ('%' as u8) {
        Some((Token::OperMod, 1))
    } else if c == ('=' as u8) {
        Some((Token::OperAssign, 1))
    } else if c == ('<' as u8) {
        Some((Token::OperLessThan, 1))
    } else if c == ('>' as u8) {
        Some((Token::OperGreaterThan, 1))
    } else {
        None
    }
}


/// The longest match at `i` (ties go to keywords) and the position after it.
pub open spec fn scan(s: Seq<u8>, i: int) -> (Scan, int) {
    let c = s[i];
    if is_space(c) {
        (Scan::Skip, i + 1)
    } else if c == ('/' as u8) && i + 1 < s.len() && s[i + 1] == ('*' as u8) && block_close(s, i + 2) is Some {
        (Scan::Skip, block_close(s, i + 2)->Some_0)
    } else if c == ('/' as u8) && i + 1 < s.len() && s[i + 1] == ('/' as u8) {
        (Scan::Skip, run_end(s, i + 2, 2))
    } else if is_ident_start(c) {
        let j = run_end(s, i + 1, 0);
        match keyword(s.subrange(i, j)) {
            Some(t) => (Scan::Fixed(t), j),
            None => (Scan::Ident, j),
        }
    } else if is_digit(c) {
        (Scan::Number, run_end(s, i + 1, 1))
    } else {
        match symbol(s, i) {
            Some((t, n)) => (Scan::Fixed(t), i + n),
            None => (
                Scan::Unknown,
                if i + char_width(c) <= s.len() {
                    i + char_width(c)
                } else {
                    s.len() as int
                },
            ),
        }
    }
}

/// The value of a run of digits and underscores, underscores ignored.
pub open spec fn digits_value(w: Seq<u8>) -> int
    decreases w.len(),
{
    if w.len() == 0 {
        0
    } else if w.last() == ('_' as u8) {
        digits_value(w.drop_last())
    } else {
        digits_value(w.drop_last()) * 10 + (w.last() - ('0' as u8))
    }
}

/// The literal's value, held at the largest `i64` when it is larger.
pub open spec fn literal_value(w: Seq<u8>) -> i64 {
    if digits_value(w) > i64::MAX {
        i64::MAX
    } else {
        digits_value(w) as i64
    }
}

pub open spec fn ascii_text(b: Seq<u8>) -> Seq<char> {
    b.map_values(|x: u8| x as char)
}

/// Whether `t` is the token that the match `k` over `s[i..j]` yields.
pub open spec fn token_is(t: Token, s: Seq<u8>, i: int, j: int, k: Scan) -> bool {
    match k {
        Scan::Fixed(f) => t == f,
        Scan::Ident => t is Identifier && t->Identifier_0@ == ascii_text(s.subrange(i, j)),
        Scan::Number => t == Token::Integer(literal_value(s.subrange(i, j))),
        _ => false,
    }
}

/// From `i` on: the next token (start, end and match) and the spans of the unknown
/// characters before it.
pub open spec fn advance(s: Seq<u8>, i: int) -> (Option<(int, int, Scan)>, Seq<Span>)
    decreases s.len() - i,
{
    if i < 0 || i >= s.len() {
        (None, Seq::empty())
    } else {
        let (k, j) = scan(s, i);
        if j <= i || j > s.len() {
            (None, Seq::empty())
        } else {
            match k {
                Scan::Skip => advance(s, j),
                Scan::Unknown => {
                    let (r, e) = advance(s, j);
                    (r, seq![Span { lo: i as usize, hi: j as usize }] + e)
                },
                _ => (Some((i, j, k)), Seq::empty()),
            }
        }
    }
}

/// The errors reported for unknown characters.
pub open spec fn unknown_errors(spans: Seq<Span>) -> Seq<DiagView> {
    spans.map_values(
        |sp: Span| DiagView { severity: Severity::Error, message: MessageView::UnexpectedCharacter, span: Some(sp) },
    )
}

/// All tokens from `i` on, and the spans of the unknown characters among them.
pub open spec fn all_tokens(s: Seq<u8>, i: int) -> (Seq<(int, int, Scan)>, Seq<Span>)
    decreases s.len() - i,
{
    match advance(s, i) {
        (None, e) => (Seq::empty(), e),
        (Some((a, b, k)), e) => if i < b <= s.len() {
            let (ts, e2) = all_tokens(s, b);
            (seq![(a, b, k)] + ts, e + e2)
        } else {
            (Seq::empty(), e)
        },
    }
}

pub proof fn lemma_run_end(s: Seq<u8>, j: int, kind: int)
    requires
        0 <= j <= s.len(),
    ensures
        j <= run_end(s, j, kind) <= s.len(),
        forall|k: int| j <= k < run_end(s, j, kind) ==> in_run(kind, #[trigger] s[k]),
    decreases s.len() - j,
{
    if j < s.len() && in_run(kind, s[j]) {
        lemma_run_end(s, j + 1, kind);
    }
}

pub proof fn lemma_block_close(s: Seq<u8>, j: int)
    requires
        0 <= j,
    ensures
        block_close(s, j) matches Some(k) ==> j + 2 <= k <= s.len(),
    decreases s.len() - j,
{
    if j + 1 < s.len() && !(s[j] == ('*' as u8) && s[j + 1] == ('/' as u8)) {
        lemma_block_close(s, j + 1);
    }
}

pub proof fn lemma_scan(s: Seq<u8>, i: int)
    requires
        0 <= i < s.len(),
    ensures
        i < scan(s, i).1 <= s.len(),
        scan(s, i).0 is Ident ==> forall|k: int| i <= k < scan(s, i).1 ==> is_ident_char(#[trigger] s[k]),
        scan(s, i).0 is Number ==> forall|k: int|
            i + 1 <= k < scan(s, i).1 ==> is_digit(#[trigger] s[k]) || s[k] == ('_' as u8),
{
    lemma_block_close(s, i + 2);
    lemma_run_end(s, i + 1, 0);
    lemma_run_end(s, i + 1, 1);
    if i + 2 <= s.len() {
        lemma_run_end(s, i + 2, 2);
    }
}

/// Relies on `String::from_utf8_lossy`: bytes below 0x80 are valid UTF-8 and decode
/// one for one into the characters with those codes.
#[verifier::external_body]
fn ascii_string(b: &[u8]) -> (r: String)
    requires
        forall|k: int| 0 <= k < b@.len() ==> b@[k] < 0x80,
    ensures
        r@ == ascii_text(b@),
{
    String::from_utf8_lossy(b).into_owned()
}

fn keyword_exec(b: &Vec<u8>, i: usize, j: usize) -> (r: Option<Token>)
    requires
        i <= j <= b@.len(),
    ensures
        r == keyword(b@.subrange(i as int, j as int)),
{
    let ghost w = b@.subrange(i as int, j as int);
    let n = j - i;
    if n == 4 && b[i] == ('f' as u8) && b[i + 1] == ('u' as u8) && b[i + 2] == ('n' as u8) && b[i + 3] == ('k' as u8) {
        Some(Token::KwdFunction)
    } else if n == 3 && b[i] == ('s' as u8) && b[i + 1] == ('e' as u8) && b[i + 2] == ('t' as u8) {
        Some(Token::KwdConstant)
    } else if n == 3 && b[i] == ('l' as u8) && b[i + 1] == ('e' as u8) && b[i + 2] == ('t' as u8) {
        Some(Token::KwdMutable)
    } else if n == 3 && b[i] == ('r' as u8) && b[i + 1] == ('e' as u8) && b[i + 2] == ('t' as u8) {
        Some(Token::KwdReturn)
    } else if n == 2 && b[i] == ('i' as u8) && b[i + 1] == ('f' as u8) {
        Some(Token::KwdIf)
    } else if n == 4 && b[i] == ('e' as u8) && b[i + 1] == ('l' as u8) && b[i + 2] == ('s' as u8) && b[i + 3] == ('e' as u8) {
        Some(Token::KwdElse)
    } else if n == 5 && b[i] == ('w' as u8) && b[i + 1] == ('h' as u8) && b[i + 2] == ('i' as u8) && b[i + 3] == ('l' as u8) && b[i + 4] == ('e' as u8) {
        Some(Token::KwdWhile)
    } else if n == 5 && b[i] == ('b' as u8) && b[i + 1] == ('r' as u8) && b[i + 2] == ('e' as u8) && b[i + 3] == ('a' as u8) && b[i + 4] == ('k' as u8) {
        Some(Token::KwdBreak)
    } else if n == 8 && b[i] == ('c' as u8) && b[i + 1] == ('o' as u8) && b[i + 2] == ('n' as u8) && b[i + 3] == ('t' as u8) && b[i + 4] == ('i' as u8) && b[i + 5] == ('n' as u8) && b[i + 6] == ('u' as u8) && b[i + 7] == ('e' as u8) {
        Some(Token::KwdContinue)
    } else if n == 4 && b[i] == ('t' as u8) && b[i + 1] == ('r' as u8) && b[i + 2] == ('u' as u8) && b[i + 3] == ('e' as u8) {
        Some(Token::True)
    } else if n == 5 && b[i] == ('f' as u8) && b[i + 1] == ('a' as u8) && b[i + 2] == ('l' as u8) && b[i + 3] == ('s' as u8) && b[i + 4] == ('e' as u8) {
        Some(Token::False)
    } else if n == 2 && b[i] == ('o' as u8) && b[i + 1] == ('r' as u8) {
        Some(Token::OperOr)
    } else if n == 3 && b[i] == ('a' as u8) && b[i + 1] == ('n' as u8) && b[i + 2] == ('d' as u8) {
        Some(Token::OperAnd)
    } else if n == 3 && b[i] == ('x' as u8) && b[i + 1] == ('o' as u8) && b[i + 2] == ('r' as u8) {
        Some(Token::OperXor)
    } else if n == 3 && b[i] == ('n' as u8) && b[i + 1] == ('o' as u8) && b[i + 2] == ('t' as u8) {
        Some(Token::OperNot)
    } else {
        None
    }
}

fn symbol_exec(b: &Vec<u8>, i: usize) -> (r: Option<(Token, usize)>)
    requires
        i < b@.len(),
    ensures
        match (r, symbol(b@, i as int)) {
            (Some((t, n)), Some((st, sn))) => t == st && n == sn,
            (None, None) => true,
            _ => false,
        },
{
    let c = b[i];
    let d: i32 = if b.len() - i > 1 { b[i + 1] as i32 } else { -1 };
    if c == ('-' as u8) && d == ('>' as u8) as i32 {
        Some((Token::Arrow, 2))
    } else if c == ('<' as u8) && d == ('=' as u8) as i32 {
        Some((Token::OperLessOrEqual, 2))
    } else if c == ('>' as u8) && d == ('=' as u8) as i32 {
        Some((Token::OperGreaterOrEqual, 2))
    } else if c == ('=' as u8) && d == ('=' as u8) as i32 {
        Some((Token::OperEqual, 2))
    } else if c == ('!' as u8) && d == ('=' as u8) as i32 {
        Some((Token::OperNotEqual, 2))
    } else if c == ('+' as u8) && d == ('=' as u8) as i32 {
        Some((Token::OperPlusAssign, 2))
    } else if c == ('-' as u8) && d == ('=' as u8) as i32 {
        Some((Token::OperMinusAssign, 2))
    } else if c == ('*' as u8) && d == ('=' as u8) as i32 {
        Some((Token::OperMultAssign, 2))
    } else if c == ('/' as u8) && d == ('=' as u8) as i32 {
        Some((Token::OperDivAssign, 2))
    } else if c == ('%' as u8) && d == ('=' as u8) as i32 {
        Some((Token::OperModAssign, 2))
    } else if c == ('(' as u8) {
        Some((Token::LParen, 1))
    } else if c == (')' as u8) {
        Some((Token::RParen, 1))
    } else if c == ('{' as u8) {
        Some((Token::LBrace, 1))
    } else if c == ('}' as u8) {
        Some((Token::RBrace, 1))
    } else if c == ('[' as u8) {
        Some((Token::LBracket, 1))
    } else if c == (']' as u8) {
        Some((Token::RBracket, 1))
    } else if c == (':' as u8) {
        Some((Token::Colon, 1))
    } else if c == (',' as u8) {
        Some((Token::Comma, 1))
    } else if c == (';' as u8) {
        Some((Token::Semicolon, 1))
    } else if c == ('.' as u8) {
        Some((Token::Dot, 1))
    } else if c == ('+' as u8) {
        Some((Token::OperPlus, 1))
    } else if c == ('-' as u8) {
        Some((Token::OperMinus, 1))
    } else if c == ('*' as u8) {
        Some((Token::OperMult, 1))
    } else if c == ('/' as u8) {
        Some((Token::OperDiv, 1))
    } else if c == ('%' as u8) {
        Some((Token::OperMod, 1))
    } else if c == ('=' as u8) {
        Some((Token::OperAssign, 1))
    } else if c == ('<' as u8) {
        Some((Token::OperLessThan, 1))
    } else if c == ('>' as u8) {
        Some((Token::OperGreaterThan, 1))
    } else {
        None
    }
}

/// Turns source text into tokens, one at a time.
pub struct Lexer {
    bytes: Vec<u8>,
    pos: usize,
}

impl Lexer {
    /// The UTF-8 bytes of the source.
    pub closed spec fn text(&self) -> Seq<u8> {
        self.bytes@
    }

    /// Where the next token is looked for.
    pub closed spec fn position(&self) -> int {
        self.pos as int
    }

    pub fn new(context: &Context) -> (r: Lexer)
        ensures
            r.text() == encode_utf8(context.source@),
            r.position() == 0,
    {
        let bytes = slice_to_vec(context.source.as_str().as_bytes());
        Lexer { bytes, pos: 0 }
    }

    /// The end of the run of bytes of the given kind from `j` on.
    fn run(&self, j: usize, kind: u8) -> (r: usize)
        requires
            j <= self.bytes@.len(),
        ensures
            r == run_end(self.bytes@, j as int, kind as int),
    {
        let mut k = j;
        while k < self.bytes.len()
            invariant
                j <= k <= self.bytes@.len(),
                run_end(self.bytes@, j as int, kind as int) == run_end(self.bytes@, k as int, kind as int),
            decreases self.bytes.len() - k,
        {
            let c = self.bytes[k];
            let more = if kind == 0 {
                (('a' as u8) <= c && c <= ('z' as u8)) || (('A' as u8) <= c && c <= ('Z' as u8)) || c
                    == ('_' as u8) || (('0' as u8) <= c && c <= ('9' as u8))
            } else if kind == 1 {
                (('0' as u8) <= c && c <= ('9' as u8)) || c == ('_' as u8)
            } else {
                c != ('\n' as u8)
            };
            assert(more == in_run(kind as int, c));
            if !more {
                return k;
            }
            k = k + 1;
        }
        k
    }

    /// The position after the first `*/` at or after `j`.
    fn close_of(&self, j: usize) -> (r: Option<usize>)
        ensures
            match (r, block_close(self.bytes@, j as int)) {
                (Some(a), Some(b)) => a == b,
                (None, None) => true,
                _ => false,
            },
    {
        let mut k = j;
        while k < self.bytes.len() && self.bytes.len() - k >= 2
            invariant
                j <= k,
                block_close(self.bytes@, j as int) == block_close(self.bytes@, k as int),
            decreases self.bytes.len() - k,
        {
            if self.bytes[k] == ('*' as u8) && self.bytes[k + 1] == ('/' as u8) {
                return Some(k + 2);
            }
            k = k + 1;
        }
        None
    }

    /// The longest match at `i` and the position after it.
    fn scan_at(&self, i: usize) -> (r: (Scan, usize))
        requires
            i < self.bytes@.len(),
        ensures
            r.0 == scan(self.bytes@, i as int).0,
            r.1 == scan(self.bytes@, i as int).1,
    {
        let s = &self.bytes;
        let c = s[i];
        let next = if s.len() - i > 1 {
            s[i + 1]
        } else {
            0
        };
        if c == (' ' as u8) || c == ('\t' as u8) || c == ('\r' as u8) || c == ('\n' as u8) {
            return (Scan::Skip, i + 1);
        }
        if c == ('/' as u8) && s.len() - i > 1 && next == ('*' as u8) {
            match self.close_of(i + 2) {
                Some(k) => {
                    return (Scan::Skip, k);
                },
                None => {},
            }
        }
        if c == ('/' as u8) && s.len() - i > 1 && next == ('/' as u8) {
            return (Scan::Skip, self.run(i + 2, 2));
        }
        if (('a' as u8) <= c && c <= ('z' as u8)) || (('A' as u8) <= c && c <= ('Z' as u8)) || c == ('_' as u8) {
            let j = self.run(i + 1, 0);
            proof {
                lemma_run_end(s@, i + 1, 0);
            }
            return match keyword_exec(s, i, j) {
                Some(t) => (Scan::Fixed(t), j),
                None => (Scan::Ident, j),
            };
        }
        if ('0' as u8) <= c && c <= ('9' as u8) {
            return (Scan::Number, self.run(i + 1, 1));
        }
        match symbol_exec(s, i) {
            Some((t, n)) => (Scan::Fixed(t), i + n),
            None => {
                let w: usize = if c < 0x80 {
                    1
                } else if c >= 0xf0 {
                    4
                } else if c >= 0xe0 {
                    3
                } else if c >= 0xc0 {
                    2
                } else {
                    1
                };
                (Scan::Unknown, if w <= s.len() - i {
                    i + w
                } else {
                    s.len()
                })
            },
        }
    }

    /// The value of the literal `bytes[i..j]`, held at the largest `i64`.
    fn literal(&self, i: usize, j: usize) -> (r: i64)
        requires
            i <= j <= self.bytes@.len(),
            forall|k: int| i <= k < j ==> in_run(1, #[trigger] self.bytes@[k]),
        ensures
            r == literal_value(self.bytes@.subrange(i as int, j as int)),
    {
        let ghost s = self.bytes@;
        let mut v: i64 = 0;
        let mut k = i;
        proof {
            assert(s.subrange(i as int, i as int) =~= Seq::<u8>::empty());
        }
        while k < j
            invariant
                i <= k <= j <= s.len(),
                s == self.bytes@,
                v == literal_value(s.subrange(i as int, k as int)),
                digits_value(s.subrange(i as int, k as int)) >= 0,
                forall|q: int| i <= q < j ==> in_run(1, #[trigger] s[q]),
            decreases j - k,
        {
            let c = self.bytes[k];
            let ghost w = s.subrange(i as int, k + 1);
            assert(w.drop_last() =~= s.subrange(i as int, k as int));
            assert(w.last() == c);
            assert(in_run(1, s[k as int]));
            assert(digits_value(w) == if c == ('_' as u8) {
                digits_value(w.drop_last())
            } else {
                digits_value(w.drop_last()) * 10 + (c - ('0' as u8))
            });
            if c != ('_' as u8) {
                let d: i128 = (c as i128) - (('0' as u8) as i128);
                let nv: i128 = (v as i128) * 10 + d;
                if nv > (i64::MAX as i128) || v == i64::MAX {
                    v = i64::MAX;
                } else {
                    v = nv as i64;
                }
            }
            k = k + 1;
        }
        v
    }

    /// The next token from the current position, reporting and skipping the unknown
    /// characters before it; `None` at the end of the text.
    pub fn next(&mut self, log: &mut Vec<Diagnostic>) -> (r: Option<(Token, Span)>)
        requires
            old(self).position() <= old(self).text().len(),
        ensures
            final(self).text() == old(self).text(),
            final(self).position() <= final(self).text().len(),
            ({
                let (nx, errs) = advance(old(self).text(), old(self).position());
                &&& log_view(final(log)@) == log_view(old(log)@) + unknown_errors(errs)
                &&& match (r, nx) {
                    (None, None) => true,
                    (Some((t, sp)), Some((i, j, k))) => sp.lo == i && sp.hi == j
                        && token_is(t, old(self).text(), i, j, k) && final(self).position() == j,
                    _ => false,
                }
            }),
    {
        let ghost s = self.bytes@;
        let ghost p0 = self.pos as int;
        let ghost mut errs: Seq<Span> = Seq::empty();
        proof {
            assert(log_view(log@) =~= log_view(old(log)@) + unknown_errors(errs));
            assert(advance(s, p0).1 =~= errs + advance(s, p0).1);
        }
        while self.pos < self.bytes.len()
            invariant
                self.bytes@ == s,
                s == old(self).bytes@,
                p0 == old(self).pos,
                self.pos <= s.len(),
                advance(s, p0).0 == advance(s, self.pos as int).0,
                advance(s, p0).1 == errs + advance(s, self.pos as int).1,
                log_view(log@) == log_view(old(log)@) + unknown_errors(errs),
            decreases s.len() - self.pos,
        {
            let i = self.pos;
            proof {
                lemma_scan(s, i as int);
            }
            let (k, j) = self.scan_at(i);
            match k {
                Scan::Skip => {
                    self.pos = j;
                },
                Scan::Unknown => {
                    self.pos = j;
                    let sp = Span { lo: i, hi: j };
                    let ghost before = log@;
                    crate::message::error(log, Message::UnexpectedCharacter, Some(sp));
                    proof {
                        assert(advance(s, i as int).1 =~= seq![sp] + advance(s, j as int).1);
                        assert(errs + advance(s, i as int).1 =~= errs.push(sp) + advance(s, j as int).1);
                        errs = errs.push(sp);
                        assert(unknown_errors(errs) =~= unknown_errors(errs.drop_last()).push(
                            DiagView { severity: Severity::Error, message: MessageView::UnexpectedCharacter, span: Some(sp) },
                        ));
                        assert(log_view(log@) =~= log_view(old(log)@) + unknown_errors(errs));
                    }
                },
                Scan::Ident => {
                    proof {
                        assert forall|q: int| 0 <= q < s.subrange(i as int, j as int).len() implies s.subrange(
                            i as int,
                            j as int,
                        )[q] < 0x80 by {
                            assert(in_run(0, s[i + q]));
                        }
                        assert(advance(s, i as int).1 =~= Seq::<Span>::empty());
                        assert(errs + advance(s, i as int).1 =~= errs);
                    }
                    let whole = self.bytes.as_slice();
                    assert(whole@ == s);
                    let part = slice_subrange(whole, i, j);
                    let name = ascii_string(part);
                    assert(token_is(Token::Identifier(name), s, i as int, j as int, Scan::Ident));
                    self.pos = j;
                    return Some((Token::Identifier(name), Span { lo: i, hi: j }));
                },
                Scan::Number => {
                    proof {
                        assert(advance(s, i as int).1 =~= Seq::<Span>::empty());
                        assert(errs + advance(s, i as int).1 =~= errs);
                    }
                    assert(forall|q: int| i <= q < j ==> in_run(1, #[trigger] s[q]));
                    let v = self.literal(i, j);
                    assert(token_is(Token::Integer(v), s, i as int, j as int, Scan::Number));
                    self.pos = j;
                    return Some((Token::Integer(v), Span { lo: i, hi: j }));
                },
                Scan::Fixed(t) => {
                    proof {
                        assert(advance(s, i as int).1 =~= Seq::<Span>::empty());
                        assert(errs + advance(s, i as int).1 =~= errs);
                    }
                    self.pos = j;
                    return Some((t, Span { lo: i, hi: j }));
                },
            }
        }
        proof {
            assert(advance(s, self.pos as int).1 =~= Seq::<Span>::empty());
            assert(errs + Seq::<Span>::empty() =~= errs);
        }
        None
    }

    /// All remaining tokens, reporting the unknown characters among them.
    pub fn tokens(&mut self, log: &mut Vec<Diagnostic>) -> (r: Vec<(Token, Span)>)
        requires
            old(self).position() <= old(self).text().len(),
        ensures
            final(self).text() == old(self).text(),
            ({
                let (ts, errs) = all_tokens(old(self).text(), old(self).position());
                &&& log_view(final(log)@) == log_view(old(log)@) + unknown_errors(errs)
                &&& r@.len() == ts.len()
                &&& forall|k: int|
                    0 <= k < ts.len() ==> (#[trigger] r@[k]).1.lo == ts[k].0 && r@[k].1.hi == ts[k].1
                        && token_is(r@[k].0, old(self).text(), ts[k].0, ts[k].1, ts[k].2)
            }),
    {
        let ghost s = self.text();
        let ghost p0 = self.position();
        let ghost mut errs: Seq<Span> = Seq::empty();
        let ghost mut done: Seq<(int, int, Scan)> = Seq::empty();
        let mut out: Vec<(Token, Span)> = Vec::new();
        proof {
            assert(log_view(log@) =~= log_view(old(log)@) + unknown_errors(errs));
            assert(all_tokens(s, p0).0 =~= done + all_tokens(s, p0).0);
            assert(all_tokens(s, p0).1 =~= errs + all_tokens(s, p0).1);
        }
        loop
            invariant
                self.text() == s,
                s == old(self).text(),
                p0 == old(self).position(),
                self.position() <= s.len(),
                all_tokens(s, p0).0 == done + all_tokens(s, self.position()).0,
                all_tokens(s, p0).1 == errs + all_tokens(s, self.position()).1,
                log_view(log@) == log_view(old(log)@) + unknown_errors(errs),
                out@.len() == done.len(),
                forall|k: int|
                    0 <= k < done.len() ==> (#[trigger] out@[k]).1.lo == done[k].0 && out@[k].1.hi
                        == done[k].1 && token_is(out@[k].0, s, done[k].0, done[k].1, done[k].2),
            decreases s.len() - self.position(),
        {
            let ghost pos = self.position();
            let ghost before = log@;
            proof {
                lemma_advance(s, pos);
            }
            match self.next(log) {
                None => {
                    proof {
                        let e1 = advance(s, pos).1;
                        assert(all_tokens(s, pos).0 =~= Seq::<(int, int, Scan)>::empty());
                        assert(done + Seq::<(int, int, Scan)>::empty() =~= done);
                        assert(unknown_errors(errs + e1) =~= unknown_errors(errs) + unknown_errors(e1));
                        assert(log_view(log@) =~= log_view(old(log)@) + unknown_errors(errs + e1));
                    }
                    return out;
                },
                Some(t) => {
                    proof {
                        let (nx, e1) = advance(s, pos);
                        let (i, j, k) = nx->Some_0;
                        assert(all_tokens(s, pos).0 =~= seq![(i, j, k)] + all_tokens(s, j).0);
                        assert(done + all_tokens(s, pos).0 =~= done.push((i, j, k)) + all_tokens(s, j).0);
                        assert(errs + all_tokens(s, pos).1 =~= (errs + e1) + all_tokens(s, j).1);
                        assert(unknown_errors(errs + e1) =~= unknown_errors(errs) + unknown_errors(e1));
                        assert(log_view(log@) =~= log_view(old(log)@) + unknown_errors(errs + e1));
                        done = done.push((i, j, k));
                        errs = errs + e1;
                    }
                    out.push(t);
                },
            }
        }
    }
}

pub proof fn lemma_advance(s: Seq<u8>, i: int)
    requires
        0 <= i <= s.len(),
    ensures
        advance(s, i).0 matches Some((a, b, _)) ==> i <= a < b <= s.len(),
    decreases s.len() - i,
{
    if i < s.len() {
        let (k, j) = scan(s, i);
        if i < j <= s.len() {
            lemma_advance(s, j);
        }
    }
}

} // verus!
