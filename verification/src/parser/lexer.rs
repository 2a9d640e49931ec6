//! The lexical rules: which token the bytes at a position begin.
//!
//! At each position the rule that matches the longest prefix wins; a keyword
//! wins over an identifier of the same length. Keywords ignore ASCII case.
//! Whitespace and comments are matched like tokens and then skipped.

use vstd::prelude::*;
use vstd::string::StringSliceAdditionalSpecFns;
use vstd::utf8::{
    encode_utf8, is_char_boundary, is_char_boundary_iff_not_is_continuation_byte, is_continuation_byte,
    length_of_first_scalar, pop_first_scalar, valid_utf8,
};

use super::grammar::is_keyword;
use super::token::{kind_name, TokenKind};

verus! {

/// Byte classes that runs of bytes are made of.
#[derive(Clone, Copy, PartialEq, Eq, Structural)]
pub enum ByteClass {
    /// `[ \t\r\n\f]`
    Space,
    /// `[_$a-zA-Z0-9]`
    IdentTail,
    /// `[0-9]`
    Digit,
    /// `[^\n\f]`
    NotLineEnd,
}

pub open spec fn is_digit(c: u8) -> bool {
    ('0' as u8) <= c <= ('9' as u8)
}

/// `[_a-zA-Z]`
pub open spec fn is_ident_start(c: u8) -> bool {
    (('a' as u8) <= c <= ('z' as u8)) || (('A' as u8) <= c <= ('Z' as u8)) || c == ('_' as u8)
}

pub open spec fn in_class(cls: ByteClass, c: u8) -> bool {
    match cls {
        ByteClass::Space => c == (' ' as u8) || c == ('\t' as u8) || c == ('\r' as u8) || c == ('\n' as u8) || c == 0x0Cu8,
        ByteClass::IdentTail => is_ident_start(c) || c == ('$' as u8) || is_digit(c),
        ByteClass::Digit => is_digit(c),
        ByteClass::NotLineEnd => c != ('\n' as u8) && c != 0x0Cu8,
    }
}

/// The byte at `i` exists and is `c`.
pub open spec fn byte_is(b: Seq<u8>, i: int, c: u8) -> bool {
    0 <= i < b.len() && b[i] == c
}

/// The number of bytes of class `cls` from `i` on.
pub open spec fn run(b: Seq<u8>, i: int, cls: ByteClass) -> nat
    decreases b.len() - i,
{
    if 0 <= i < b.len() && in_class(cls, b[i]) {
        1 + run(b, i + 1, cls)
    } else {
        0
    }
}

/// The end of `([^*] | \*[^/])* \*/` read from `j`, if the bytes match it.
pub open spec fn block_comment_end(b: Seq<u8>, j: int) -> Option<int>
    decreases b.len() - j,
{
    if j < 0 || j >= b.len() {
        None
    } else if b[j] != ('*' as u8) {
        block_comment_end(b, j + 1)
    } else if j + 1 >= b.len() {
        None
    } else if b[j + 1] == ('/' as u8) {
        Some(j + 2)
    } else {
        block_comment_end(b, j + 2)
    }
}

/// The end of the text of a backtick-quoted string whose body starts at `j`: up to the next backtick.
pub open spec fn backtick_end(b: Seq<u8>, j: int) -> Option<int>
    decreases b.len() - j,
{
    if j < 0 || j >= b.len() {
        None
    } else if b[j] == ('`' as u8) {
        Some(j + 1)
    } else {
        backtick_end(b, j + 1)
    }
}

/// The end of the longest `([^q\\] | \\. | qq)* q` read from `j`, where `q` is the quote.
pub open spec fn quoted_end(b: Seq<u8>, j: int, q: u8) -> Option<int>
    decreases b.len() - j,
{
    if j < 0 || j >= b.len() {
        None
    } else if b[j] == q {
        if byte_is(b, j + 1, q) {
            match quoted_end(b, j + 2, q) {
                Some(e) => Some(e),
                None => Some(j + 1),
            }
        } else {
            Some(j + 1)
        }
    } else if b[j] == ('\\' as u8) {
        if j + 1 < b.len() && b[j + 1] != ('\n' as u8) {
            quoted_end(b, j + 2, q)
        } else {
            None
        }
    } else {
        quoted_end(b, j + 1, q)
    }
}

/// The length of the longest exponent `[eE][+-]?[0-9]+` at `j`, or 0.
pub open spec fn exponent_len(b: Seq<u8>, j: int) -> nat {
    if byte_is(b, j, ('e' as u8)) || byte_is(b, j, ('E' as u8)) {
        let s = if byte_is(b, j + 1, ('+' as u8)) || byte_is(b, j + 1, ('-' as u8)) { j + 2 } else { j + 1 };
        let d = run(b, s, ByteClass::Digit);
        if d > 0 {
            (s + d - j) as nat
        } else {
            0
        }
    } else {
        0
    }
}

/// The length of the longest float literal at `i`, or 0:
/// `[0-9]+[eE][+-]?[0-9]+`, `[0-9]*\.[0-9]+([eE][+-]?[0-9]+)?` or `[0-9]+\.[0-9]*([eE][+-]?[0-9]+)?`.
pub open spec fn float_len(b: Seq<u8>, i: int) -> nat {
    let a = run(b, i, ByteClass::Digit);
    if byte_is(b, i + a, ('.' as u8)) {
        let f = run(b, i + a + 1, ByteClass::Digit);
        if a > 0 || f > 0 {
            (a + 1 + f + exponent_len(b, i + a + 1 + f)) as nat
        } else {
            0
        }
    } else if a > 0 && exponent_len(b, i + a) > 0 {
        (a + exponent_len(b, i + a)) as nat
    } else {
        0
    }
}

/// ASCII upper case of a byte.
pub open spec fn upper(c: u8) -> u8 {
    if ('a' as u8) <= c <= ('z' as u8) {
        (c - 32) as u8
    } else {
        c
    }
}

pub open spec fn upper_seq(w: Seq<u8>) -> Seq<u8> {
    w.map_values(|c: u8| upper(c))
}

/// The number of keywords.
pub open spec fn keyword_count() -> int {
    39
}

/// The keywords in the order they are tried: their text and their kind.
pub open spec fn keyword_entry(k: int) -> (Seq<char>, TokenKind) {
    if k == 0 { ("AND"@, TokenKind::AND) }
    else if k == 1 { ("AS"@, TokenKind::AS) }
    else if k == 2 { ("ASC"@, TokenKind::ASC) }
    else if k == 3 { ("BY"@, TokenKind::BY) }
    else if k == 4 { ("CROSS"@, TokenKind::CROSS) }
    else if k == 5 { ("DESC"@, TokenKind::DESC) }
    else if k == 6 { ("DISTINCT"@, TokenKind::DISTINCT) }
    else if k == 7 { ("EXCEPT"@, TokenKind::EXCEPT) }
    else if k == 8 { ("EXCLUDE"@, TokenKind::EXCLUDE) }
    else if k == 9 { ("EXISTS"@, TokenKind::EXISTS) }
    else if k == 10 { ("FROM"@, TokenKind::FROM) }
    else if k == 11 { ("FULL"@, TokenKind::FULL) }
    else if k == 12 { ("GROUP"@, TokenKind::GROUP) }
    else if k == 13 { ("HAVING"@, TokenKind::HAVING) }
    else if k == 14 { ("IN"@, TokenKind::IN) }
    else if k == 15 { ("INNER"@, TokenKind::INNER) }
    else if k == 16 { ("INTO"@, TokenKind::INTO) }
    else if k == 17 { ("IS"@, TokenKind::IS) }
    else if k == 18 { ("JOIN"@, TokenKind::JOIN) }
    else if k == 19 { ("LEFT"@, TokenKind::LEFT) }
    else if k == 20 { ("LIKE"@, TokenKind::LIKE) }
    else if k == 21 { ("LIMIT"@, TokenKind::LIMIT) }
    else if k == 22 { ("NOT"@, TokenKind::NOT) }
    else if k == 23 { ("NULL"@, TokenKind::NULL) }
    else if k == 24 { ("OFFSET"@, TokenKind::OFFSET) }
    else if k == 25 { ("ON"@, TokenKind::ON) }
    else if k == 26 { ("OR"@, TokenKind::OR) }
    else if k == 27 { ("ORDER"@, TokenKind::ORDER) }
    else if k == 28 { ("OUTER"@, TokenKind::OUTER) }
    else if k == 29 { ("OVER"@, TokenKind::OVER) }
    else if k == 30 { ("PARTITION"@, TokenKind::PARTITION) }
    else if k == 31 { ("RECURSIVE"@, TokenKind::RECURSIVE) }
    else if k == 32 { ("RIGHT"@, TokenKind::RIGHT) }
    else if k == 33 { ("SELECT"@, TokenKind::SELECT) }
    else if k == 34 { ("WHERE"@, TokenKind::WHERE) }
    else if k == 35 { ("WINDOW"@, TokenKind::WINDOW) }
    else if k == 36 { ("WITH"@, TokenKind::WITH) }
    else if k == 37 { ("FIRST"@, TokenKind::FIRST) }
    else { ("LAST"@, TokenKind::LAST) }
}


/// The kind of a word: the first keyword that equals it up to ASCII case, from keyword `k` on; else `Ident`.
pub open spec fn keyword_lookup(w: Seq<u8>, k: int) -> TokenKind
    decreases keyword_count() - k,
{
    if k < 0 || k >= keyword_count() {
        TokenKind::Ident
    } else if upper_seq(w) == encode_utf8(keyword_entry(k).0) {
        keyword_entry(k).1
    } else {
        keyword_lookup(w, k + 1)
    }
}

pub open spec fn word_kind(w: Seq<u8>) -> TokenKind {
    keyword_lookup(w, 0)
}

/// Kinds that are matched and then skipped.
pub open spec fn is_skipped(k: TokenKind) -> bool {
    k == TokenKind::Whitespace || k == TokenKind::Comment || k == TokenKind::CommentBlock
}

/// The token that the bytes at `i` begin, with its length in bytes; `None` when no rule matches.
pub open spec fn token_at(b: Seq<u8>, i: int) -> Option<(TokenKind, nat)> {
    if !(0 <= i < b.len()) {
        None
    } else {
        let c = b[i];
        if in_class(ByteClass::Space, c) {
            Some((TokenKind::Whitespace, run(b, i, ByteClass::Space)))
        } else if is_ident_start(c) {
            let n = 1 + run(b, i + 1, ByteClass::IdentTail);
            Some((word_kind(b.subrange(i, i + n)), n as nat))
        } else if is_digit(c) || c == ('.' as u8) {
            let f = float_len(b, i);
            if f > 0 {
                Some((TokenKind::LiteralFloat, f))
            } else if is_digit(c) {
                Some((TokenKind::LiteralInteger, run(b, i, ByteClass::Digit)))
            } else {
                Some((TokenKind::Dot, 1))
            }
        } else if c == ('`' as u8) {
            match backtick_end(b, i + 1) {
                Some(e) => Some((TokenKind::QuotedString, (e - i) as nat)),
                None => None,
            }
        } else if c == ('"' as u8) || c == ('\'' as u8) {
            match quoted_end(b, i + 1, c) {
                Some(e) => Some((TokenKind::QuotedString, (e - i) as nat)),
                None => None,
            }
        } else if c == ('-' as u8) {
            if byte_is(b, i + 1, ('-' as u8)) {
                Some((TokenKind::Comment, 2 + run(b, i + 2, ByteClass::NotLineEnd)))
            } else {
                Some((TokenKind::Minus, 1))
            }
        } else if c == ('/' as u8) {
            if byte_is(b, i + 1, ('/' as u8)) {
                Some((TokenKind::IntDiv, 2))
            } else if byte_is(b, i + 1, ('*' as u8)) && i + 2 < b.len() && b[i + 2] != ('+' as u8) {
                match block_comment_end(b, i + 3) {
                    Some(e) => Some((TokenKind::CommentBlock, (e - i) as nat)),
                    None => Some((TokenKind::Divide, 1)),
                }
            } else {
                Some((TokenKind::Divide, 1))
            }
        } else if c == ('<' as u8) {
            if byte_is(b, i + 1, ('>' as u8)) {
                Some((TokenKind::NotEq, 2))
            } else if byte_is(b, i + 1, ('=' as u8)) {
                Some((TokenKind::LtEq, 2))
            } else {
                Some((TokenKind::Lt, 1))
            }
        } else if c == ('>' as u8) {
            if byte_is(b, i + 1, ('=' as u8)) {
                Some((TokenKind::GtEq, 2))
            } else {
                Some((TokenKind::Gt, 1))
            }
        } else if c == ('!' as u8) {
            if byte_is(b, i + 1, ('=' as u8)) {
                Some((TokenKind::NotEq, 2))
            } else {
                None
            }
        } else if c == ('|' as u8) {
            if byte_is(b, i + 1, ('|' as u8)) {
                Some((TokenKind::StringConcat, 2))
            } else {
                None
            }
        } else if c == ('=' as u8) {
            Some((TokenKind::Eq, 1))
        } else if c == ('+' as u8) {
            Some((TokenKind::Plus, 1))
        } else if c == ('*' as u8) {
            Some((TokenKind::Multiply, 1))
        } else if c == ('%' as u8) {
            Some((TokenKind::Modulo, 1))
        } else if c == ('(' as u8) {
            Some((TokenKind::LParen, 1))
        } else if c == (')' as u8) {
            Some((TokenKind::RParen, 1))
        } else if c == (',' as u8) {
            Some((TokenKind::Comma, 1))
        } else if c == (';' as u8) {
            Some((TokenKind::SemiColon, 1))
        } else {
            None
        }
    }
}

/// What the lexer finds from `i` on once skipped tokens are passed over.
pub enum Scan {
    /// No token is left.
    End,
    /// A token of this kind covers the bytes from `.1` to `.2`.
    Token(TokenKind, int, int),
    /// No rule matches at this position.
    Error(int),
}

pub open spec fn scan(b: Seq<u8>, i: int) -> Scan
    decreases b.len() - i,
{
    if i < 0 || i >= b.len() {
        Scan::End
    } else {
        match token_at(b, i) {
            None => Scan::Error(i),
            Some((k, n)) => if n == 0 || i + n > b.len() {
                Scan::Error(i)
            } else if is_skipped(k) {
                scan(b, i + n)
            } else {
                Scan::Token(k, i, i + n)
            },
        }
    }
}

/// The tokens from `i` on: their kinds and byte ranges; `None` when a position matches no rule.
pub open spec fn lex(b: Seq<u8>, i: int) -> Option<Seq<(TokenKind, int, int)>>
    decreases b.len() - i,
{
    match scan(b, i) {
        Scan::End => Some(seq![]),
        Scan::Error(_) => None,
        Scan::Token(k, s, e) => if i < e <= b.len() {
            match lex(b, e) {
                Some(rest) => Some(seq![(k, s, e)] + rest),
                None => None,
            }
        } else {
            None
        },
    }
}


/// A run of bytes ends within the bytes.
pub proof fn lemma_run_bound(b: Seq<u8>, i: int, cls: ByteClass)
    requires
        0 <= i <= b.len(),
    ensures
        i + run(b, i, cls) <= b.len(),
    decreases b.len() - i,
{
    if i < b.len() && in_class(cls, b[i]) {
        lemma_run_bound(b, i + 1, cls);
    }
}

fn in_class_exec(cls: ByteClass, c: u8) -> (r: bool)
    ensures
        r == in_class(cls, c),
{
    match cls {
        ByteClass::Space => c == (' ' as u8) || c == ('\t' as u8) || c == ('\r' as u8) || c == ('\n' as u8)
            || c == 0x0Cu8,
        ByteClass::IdentTail => (('a' as u8) <= c && c <= ('z' as u8)) || (('A' as u8) <= c && c <= ('Z' as u8))
            || c == ('_' as u8) || c == ('$' as u8) || (('0' as u8) <= c && c <= ('9' as u8)),
        ByteClass::Digit => ('0' as u8) <= c && c <= ('9' as u8),
        ByteClass::NotLineEnd => c != ('\n' as u8) && c != 0x0Cu8,
    }
}

/// The number of bytes of class `cls` from `i` on.
pub fn run_len(b: &[u8], i: usize, cls: ByteClass) -> (n: usize)
    requires
        i <= b.len(),
    ensures
        n == run(b@, i as int, cls),
        i + n <= b.len(),
{
    let mut j = i;
    while j < b.len() && in_class_exec(cls, b[j])
        invariant
            i <= j <= b.len(),
            run(b@, i as int, cls) == (j - i) + run(b@, j as int, cls),
        decreases b.len() - j,
    {
        j = j + 1;
    }
    j - i
}

/// The end of a block comment whose body starts at `j`.
fn block_comment_end_exec(b: &[u8], j: usize) -> (r: Option<usize>)
    requires
        j <= b.len(),
    ensures
        match r {
            Some(e) => block_comment_end(b@, j as int) == Some(e as int) && j < e <= b.len(),
            None => block_comment_end(b@, j as int) is None,
        },
{
    let mut k = j;
    while k < b.len()
        invariant
            j <= k <= b.len(),
            block_comment_end(b@, j as int) == block_comment_end(b@, k as int),
        decreases b.len() - k,
    {
        if b[k] != ('*' as u8) {
            k = k + 1;
        } else if k + 1 >= b.len() {
            return None;
        } else if b[k + 1] == ('/' as u8) {
            return Some(k + 2);
        } else {
            k = k + 2;
        }
    }
    None
}

/// The end of a backtick-quoted string whose body starts at `j`.
fn backtick_end_exec(b: &[u8], j: usize) -> (r: Option<usize>)
    requires
        j <= b.len(),
    ensures
        match r {
            Some(e) => backtick_end(b@, j as int) == Some(e as int) && j < e <= b.len(),
            None => backtick_end(b@, j as int) is None,
        },
{
    let mut k = j;
    while k < b.len()
        invariant
            j <= k <= b.len(),
            backtick_end(b@, j as int) == backtick_end(b@, k as int),
        decreases b.len() - k,
    {
        if b[k] == ('`' as u8) {
            return Some(k + 1);
        }
        k = k + 1;
    }
    None
}

/// The end of the longest quoted string whose body starts at `j`, with quote `q`.
fn quoted_end_exec(b: &[u8], j: usize, q: u8) -> (r: Option<usize>)
    requires
        j <= b.len(),
    ensures
        match r {
            Some(e) => quoted_end(b@, j as int, q) == Some(e as int) && j < e <= b.len(),
            None => quoted_end(b@, j as int, q) is None,
        },
{
    let mut k = j;
    let mut fallback: Option<usize> = None;
    while k < b.len()
        invariant
            j <= k <= b.len(),
            fallback matches Some(e) ==> j < e <= b.len(),
            quoted_end(b@, j as int, q) == (match quoted_end(b@, k as int, q) {
                Some(e) => Some(e),
                None => match fallback {
                    Some(e) => Some(e as int),
                    None => None,
                },
            }),
        decreases b.len() - k,
    {
        if b[k] == q {
            if k + 1 < b.len() && b[k + 1] == q {
                fallback = Some(k + 1);
                k = k + 2;
            } else {
                return Some(k + 1);
            }
        } else if b[k] == ('\\' as u8) {
            if k + 1 < b.len() && b[k + 1] != ('\n' as u8) {
                k = k + 2;
            } else {
                return fallback;
            }
        } else {
            k = k + 1;
        }
    }
    fallback
}

fn byte_is_exec(b: &[u8], i: usize, c: u8) -> (r: bool)
    ensures
        r == byte_is(b@, i as int, c),
{
    i < b.len() && b[i] == c
}

/// The length of the exponent at `j`, or 0.
fn exponent_len_exec(b: &[u8], j: usize) -> (n: usize)
    requires
        j <= b.len(),
    ensures
        n == exponent_len(b@, j as int),
        j + n <= b.len(),
{
    if byte_is_exec(b, j, 'e' as u8) || byte_is_exec(b, j, 'E' as u8) {
        let s = if byte_is_exec(b, j + 1, '+' as u8) || byte_is_exec(b, j + 1, '-' as u8) {
            j + 2
        } else {
            j + 1
        };
        let d = run_len(b, s, ByteClass::Digit);
        if d > 0 {
            s + d - j
        } else {
            0
        }
    } else {
        0
    }
}

/// The length of the longest float literal at `i`, or 0.
fn float_len_exec(b: &[u8], i: usize) -> (n: usize)
    requires
        i <= b.len(),
    ensures
        n == float_len(b@, i as int),
        i + n <= b.len(),
{
    let a = run_len(b, i, ByteClass::Digit);
    if byte_is_exec(b, i + a, '.' as u8) {
        let f = run_len(b, i + a + 1, ByteClass::Digit);
        if a > 0 || f > 0 {
            let x = exponent_len_exec(b, i + a + 1 + f);
            a + 1 + f + x
        } else {
            0
        }
    } else {
        let x = exponent_len_exec(b, i + a);
        if a > 0 && x > 0 {
            a + x
        } else {
            0
        }
    }
}

/// The keyword `k`: its text and its kind.
fn keyword_entry_exec(k: usize) -> (r: (&'static str, TokenKind))
    requires
        k < keyword_count(),
    ensures
        r.0@ == keyword_entry(k as int).0,
        r.1 == keyword_entry(k as int).1,
{
    if k == 0 { ("AND", TokenKind::AND) }
    else if k == 1 { ("AS", TokenKind::AS) }
    else if k == 2 { ("ASC", TokenKind::ASC) }
    else if k == 3 { ("BY", TokenKind::BY) }
    else if k == 4 { ("CROSS", TokenKind::CROSS) }
    else if k == 5 { ("DESC", TokenKind::DESC) }
    else if k == 6 { ("DISTINCT", TokenKind::DISTINCT) }
    else if k == 7 { ("EXCEPT", TokenKind::EXCEPT) }
    else if k == 8 { ("EXCLUDE", TokenKind::EXCLUDE) }
    else if k == 9 { ("EXISTS", TokenKind::EXISTS) }
    else if k == 10 { ("FROM", TokenKind::FROM) }
    else if k == 11 { ("FULL", TokenKind::FULL) }
    else if k == 12 { ("GROUP", TokenKind::GROUP) }
    else if k == 13 { ("HAVING", TokenKind::HAVING) }
    else if k == 14 { ("IN", TokenKind::IN) }
    else if k == 15 { ("INNER", TokenKind::INNER) }
    else if k == 16 { ("INTO", TokenKind::INTO) }
    else if k == 17 { ("IS", TokenKind::IS) }
    else if k == 18 { ("JOIN", TokenKind::JOIN) }
    else if k == 19 { ("LEFT", TokenKind::LEFT) }
    else if k == 20 { ("LIKE", TokenKind::LIKE) }
    else if k == 21 { ("LIMIT", TokenKind::LIMIT) }
    else if k == 22 { ("NOT", TokenKind::NOT) }
    else if k == 23 { ("NULL", TokenKind::NULL) }
    else if k == 24 { ("OFFSET", TokenKind::OFFSET) }
    else if k == 25 { ("ON", TokenKind::ON) }
    else if k == 26 { ("OR", TokenKind::OR) }
    else if k == 27 { ("ORDER", TokenKind::ORDER) }
    else if k == 28 { ("OUTER", TokenKind::OUTER) }
    else if k == 29 { ("OVER", TokenKind::OVER) }
    else if k == 30 { ("PARTITION", TokenKind::PARTITION) }
    else if k == 31 { ("RECURSIVE", TokenKind::RECURSIVE) }
    else if k == 32 { ("RIGHT", TokenKind::RIGHT) }
    else if k == 33 { ("SELECT", TokenKind::SELECT) }
    else if k == 34 { ("WHERE", TokenKind::WHERE) }
    else if k == 35 { ("WINDOW", TokenKind::WINDOW) }
    else if k == 36 { ("WITH", TokenKind::WITH) }
    else if k == 37 { ("FIRST", TokenKind::FIRST) }
    else { ("LAST", TokenKind::LAST) }
}

fn upper_exec(c: u8) -> (r: u8)
    ensures
        r == upper(c),
{
    if ('a' as u8) <= c && c <= ('z' as u8) {
        c - 32
    } else {
        c
    }
}

/// Whether the `n` bytes at `i` equal `kw` up to ASCII case.
fn upper_eq(b: &[u8], i: usize, n: usize, kw: &str) -> (r: bool)
    requires
        i + n <= b.len(),
    ensures
        r == (upper_seq(b@.subrange(i as int, i + n)) == encode_utf8(kw@)),
{
    let kb = kw.as_bytes();
    let ghost w = b@.subrange(i as int, i + n);
    if kb.len() != n {
        assert(upper_seq(w).len() != encode_utf8(kw@).len());
        return false;
    }
    let mut t: usize = 0;
    while t < n
        invariant
            i + n <= b.len(),
            kb@ == encode_utf8(kw@),
            kb@.len() == n,
            w == b@.subrange(i as int, i + n),
            0 <= t <= n,
            forall|u: int| 0 <= u < t ==> upper(w[u]) == kb@[u],
        decreases n - t,
    {
        if upper_exec(b[i + t]) != kb[t] {
            assert(upper_seq(w)[t as int] != kb@[t as int]);
            return false;
        }
        t = t + 1;
    }
    assert(upper_seq(w) =~= kb@);
    true
}

/// The kind of the `n`-byte word at `i`: a keyword, or `Ident`.
fn word_kind_exec(b: &[u8], i: usize, n: usize) -> (k: TokenKind)
    requires
        i + n <= b.len(),
    ensures
        k == word_kind(b@.subrange(i as int, i + n)),
{
    let ghost w = b@.subrange(i as int, i + n);
    let mut k: usize = 0;
    while k < 39
        invariant
            i + n <= b.len(),
            w == b@.subrange(i as int, i + n),
            0 <= k <= keyword_count(),
            word_kind(w) == keyword_lookup(w, k as int),
        decreases 39 - k,
    {
        let (kw, kind) = keyword_entry_exec(k);
        if upper_eq(b, i, n, kw) {
            return kind;
        }
        k = k + 1;
    }
    TokenKind::Ident
}

/// The token that the bytes at `i` begin, with its length.
pub fn token_at_exec(b: &[u8], i: usize) -> (r: Option<(TokenKind, usize)>)
    requires
        i < b.len(),
    ensures
        match r {
            Some((k, n)) => token_at(b@, i as int) == Some((k, n as nat)) && 0 < n && i + n <= b.len(),
            None => token_at(b@, i as int) is None,
        },
{
    let c = b[i];
    if in_class_exec(ByteClass::Space, c) {
        let n = run_len(b, i, ByteClass::Space);
        Some((TokenKind::Whitespace, n))
    } else if (('a' as u8) <= c && c <= ('z' as u8)) || (('A' as u8) <= c && c <= ('Z' as u8)) || c == ('_' as u8) {
        let n = 1 + run_len(b, i + 1, ByteClass::IdentTail);
        Some((word_kind_exec(b, i, n), n))
    } else if (('0' as u8) <= c && c <= ('9' as u8)) || c == ('.' as u8) {
        let f = float_len_exec(b, i);
        if f > 0 {
            Some((TokenKind::LiteralFloat, f))
        } else if ('0' as u8) <= c && c <= ('9' as u8) {
            Some((TokenKind::LiteralInteger, run_len(b, i, ByteClass::Digit)))
        } else {
            Some((TokenKind::Dot, 1))
        }
    } else if c == ('`' as u8) {
        match backtick_end_exec(b, i + 1) {
            Some(e) => Some((TokenKind::QuotedString, e - i)),
            None => None,
        }
    } else if c == ('"' as u8) || c == ('\'' as u8) {
        match quoted_end_exec(b, i + 1, c) {
            Some(e) => Some((TokenKind::QuotedString, e - i)),
            None => None,
        }
    } else if c == ('-' as u8) {
        if byte_is_exec(b, i + 1, '-' as u8) {
            Some((TokenKind::Comment, 2 + run_len(b, i + 2, ByteClass::NotLineEnd)))
        } else {
            Some((TokenKind::Minus, 1))
        }
    } else if c == ('/' as u8) {
        if byte_is_exec(b, i + 1, '/' as u8) {
            Some((TokenKind::IntDiv, 2))
        } else if byte_is_exec(b, i + 1, '*' as u8) && i + 2 < b.len() && b[i + 2] != ('+' as u8) {
            match block_comment_end_exec(b, i + 3) {
                Some(e) => Some((TokenKind::CommentBlock, e - i)),
                None => Some((TokenKind::Divide, 1)),
            }
        } else {
            Some((TokenKind::Divide, 1))
        }
    } else if c == ('<' as u8) {
        if byte_is_exec(b, i + 1, '>' as u8) {
            Some((TokenKind::NotEq, 2))
        } else if byte_is_exec(b, i + 1, '=' as u8) {
            Some((TokenKind::LtEq, 2))
        } else {
            Some((TokenKind::Lt, 1))
        }
    } else if c == ('>' as u8) {
        if byte_is_exec(b, i + 1, '=' as u8) {
            Some((TokenKind::GtEq, 2))
        } else {
            Some((TokenKind::Gt, 1))
        }
    } else if c == ('!' as u8) {
        if byte_is_exec(b, i + 1, '=' as u8) {
            Some((TokenKind::NotEq, 2))
        } else {
            None
        }
    } else if c == ('|' as u8) {
        if byte_is_exec(b, i + 1, '|' as u8) {
            Some((TokenKind::StringConcat, 2))
        } else {
            None
        }
    } else if c == ('=' as u8) {
        Some((TokenKind::Eq, 1))
    } else if c == ('+' as u8) {
        Some((TokenKind::Plus, 1))
    } else if c == ('*' as u8) {
        Some((TokenKind::Multiply, 1))
    } else if c == ('%' as u8) {
        Some((TokenKind::Modulo, 1))
    } else if c == ('(' as u8) {
        Some((TokenKind::LParen, 1))
    } else if c == (')' as u8) {
        Some((TokenKind::RParen, 1))
    } else if c == (',' as u8) {
        Some((TokenKind::Comma, 1))
    } else if c == (';' as u8) {
        Some((TokenKind::SemiColon, 1))
    } else {
        None
    }
}


// ---- Where tokens end ----

/// Every byte of a run is in the run's class, and the byte after it is not.
pub proof fn lemma_run_in_class(b: Seq<u8>, i: int, cls: ByteClass)
    requires
        0 <= i <= b.len(),
    ensures
        forall|j: int| i <= j < i + run(b, i, cls) ==> in_class(cls, #[trigger] b[j]),
        i + run(b, i, cls) < b.len() ==> !in_class(cls, b[i + run(b, i, cls)]),
        i + run(b, i, cls) <= b.len(),
    decreases b.len() - i,
{
    if i < b.len() && in_class(cls, b[i]) {
        lemma_run_in_class(b, i + 1, cls);
    }
}

proof fn lemma_block_comment_end(b: Seq<u8>, j: int)
    requires
        0 <= j,
    ensures
        block_comment_end(b, j) matches Some(e) ==> j + 2 <= e <= b.len() && b[e - 1] == ('/' as u8),
    decreases b.len() - j,
{
    if 0 <= j < b.len() {
        if b[j] != ('*' as u8) {
            lemma_block_comment_end(b, j + 1);
        } else if j + 1 < b.len() && b[j + 1] != ('/' as u8) {
            lemma_block_comment_end(b, j + 2);
        }
    }
}

proof fn lemma_backtick_end(b: Seq<u8>, j: int)
    requires
        0 <= j,
    ensures
        backtick_end(b, j) matches Some(e) ==> j < e <= b.len() && b[e - 1] == ('`' as u8),
    decreases b.len() - j,
{
    if 0 <= j < b.len() && b[j] != ('`' as u8) {
        lemma_backtick_end(b, j + 1);
    }
}

proof fn lemma_quoted_end(b: Seq<u8>, j: int, q: u8)
    requires
        0 <= j,
    ensures
        quoted_end(b, j, q) matches Some(e) ==> j < e <= b.len() && b[e - 1] == q,
    decreases b.len() - j,
{
    if 0 <= j < b.len() {
        if b[j] == q {
            if byte_is(b, j + 1, q) {
                lemma_quoted_end(b, j + 2, q);
            }
        } else if b[j] == ('\\' as u8) {
            if j + 1 < b.len() && b[j + 1] != ('\n' as u8) {
                lemma_quoted_end(b, j + 2, q);
            }
        } else {
            lemma_quoted_end(b, j + 1, q);
        }
    }
}

proof fn lemma_exponent_len(b: Seq<u8>, j: int)
    requires
        0 <= j <= b.len(),
    ensures
        exponent_len(b, j) > 0 ==> j + exponent_len(b, j) <= b.len() && is_digit(
            b[j + exponent_len(b, j) - 1],
        ),
{
    if byte_is(b, j, 'e' as u8) || byte_is(b, j, 'E' as u8) {
        let s = if byte_is(b, j + 1, '+' as u8) || byte_is(b, j + 1, '-' as u8) { j + 2 } else { j + 1 };
        lemma_run_in_class(b, s, ByteClass::Digit);
    }
}

proof fn lemma_float_len(b: Seq<u8>, i: int)
    requires
        0 <= i <= b.len(),
    ensures
        float_len(b, i) > 0 ==> i + float_len(b, i) <= b.len() && b[i + float_len(b, i) - 1] < 128,
{
    let a = run(b, i, ByteClass::Digit);
    lemma_run_in_class(b, i, ByteClass::Digit);
    if byte_is(b, i + a, '.' as u8) {
        let f = run(b, i + a + 1, ByteClass::Digit);
        lemma_run_in_class(b, i + a + 1, ByteClass::Digit);
        lemma_exponent_len(b, i + a + 1 + f);
    } else {
        lemma_exponent_len(b, i + a);
    }
}

/// The position after an ASCII byte of a valid UTF-8 sequence is a character boundary.
pub proof fn lemma_boundary_after_ascii(b: Seq<u8>, k: int)
    requires
        valid_utf8(b),
        0 <= k < b.len(),
        b[k] < 128,
    ensures
        is_char_boundary(b, k + 1),
    decreases b.len(),
{
    is_char_boundary_iff_not_is_continuation_byte(b, k);
    let l = length_of_first_scalar(b);
    let rest = pop_first_scalar(b);
    assert(valid_utf8(rest));
    if k == 0 {
        assert(l == 1);
        assert(is_char_boundary(rest, 0));
    } else {
        assert(is_char_boundary(b, k));
        assert(is_char_boundary(rest, k - l));
        assert(k - l >= 0);
        assert(rest[k - l] == b[k]);
        lemma_boundary_after_ascii(rest, k - l);
    }
}

/// A token has at least one byte, lies within the bytes, and ends at a character boundary.
pub proof fn lemma_token_end_boundary(b: Seq<u8>, i: int)
    requires
        valid_utf8(b),
        0 <= i < b.len(),
    ensures
        token_at(b, i) matches Some((k, n)) ==> 0 < n && i + n <= b.len() && is_char_boundary(b, i + n),
{
    broadcast use vstd::utf8::is_char_boundary_start_end_of_seq;

    let c = b[i];
    lemma_run_in_class(b, i, ByteClass::Space);
    lemma_run_in_class(b, i + 1, ByteClass::IdentTail);
    lemma_run_in_class(b, i, ByteClass::Digit);
    lemma_float_len(b, i);
    lemma_backtick_end(b, i + 1);
    lemma_quoted_end(b, i + 1, c);
    lemma_block_comment_end(b, i + 3);
    if c == ('-' as u8) && byte_is(b, i + 1, '-' as u8) {
        lemma_run_in_class(b, i + 2, ByteClass::NotLineEnd);
        let n = 2 + run(b, i + 2, ByteClass::NotLineEnd);
        if i + n < b.len() {
            is_char_boundary_iff_not_is_continuation_byte(b, i + n);
        }
    } else {
        match token_at(b, i) {
            Some((k, n)) => {
                assert(0 < n && i + n <= b.len());
                assert(b[i + n - 1] < 128);
                lemma_boundary_after_ascii(b, i + n - 1);
            },
            None => {},
        }
    }
}


/// What `scan` finds lies after `i`, within the bytes, at character boundaries.
pub proof fn lemma_scan(b: Seq<u8>, i: int)
    requires
        valid_utf8(b),
        0 <= i <= b.len(),
        is_char_boundary(b, i),
    ensures
        match scan(b, i) {
            Scan::Token(k, s, e) => {
                &&& i <= s < e <= b.len()
                &&& is_char_boundary(b, s)
                &&& is_char_boundary(b, e)
                &&& !is_skipped(k)
                &&& token_at(b, s) == Some((k, (e - s) as nat))
            },
            Scan::Error(j) => i <= j < b.len() && token_at(b, j) is None,
            Scan::End => true,
        },
    decreases b.len() - i,
{
    if i < b.len() {
        lemma_token_end_boundary(b, i);
        match token_at(b, i) {
            Some((k, n)) => {
                if is_skipped(k) {
                    lemma_scan(b, i + n);
                }
            },
            None => {},
        }
    }
}

/// A word is never an integer literal nor a quoted string.
proof fn lemma_keyword_lookup_not_integer(w: Seq<u8>, k: int)
    ensures
        keyword_lookup(w, k) != TokenKind::LiteralInteger,
        keyword_lookup(w, k) != TokenKind::QuotedString,
    decreases keyword_count() - k,
{
    if 0 <= k < keyword_count() {
        lemma_keyword_lookup_not_integer(w, k + 1);
    }
}

/// The bytes of an integer literal are digits.
pub proof fn lemma_integer_digits(b: Seq<u8>, s: int)
    requires
        0 <= s < b.len(),
        token_at(b, s) matches Some((k, n)) && k == TokenKind::LiteralInteger,
    ensures
        forall|j: int| s <= j < s + token_at(b, s).unwrap().1 ==> is_digit(#[trigger] b[j]),
{
    lemma_run_in_class(b, s, ByteClass::Digit);
    let n = 1 + run(b, s + 1, ByteClass::IdentTail);
    lemma_keyword_lookup_not_integer(b.subrange(s, s + n), 0);
}


/// A quoted string starts and ends with the same quote and holds at least both quotes.
pub proof fn lemma_quoted_bytes(b: Seq<u8>, s: int)
    requires
        0 <= s < b.len(),
        token_at(b, s) matches Some((k, n)) && k == TokenKind::QuotedString,
    ensures
        ({
            let n = token_at(b, s).unwrap().1;
            &&& n >= 2
            &&& s + n <= b.len()
            &&& b[s] == ('`' as u8) || b[s] == ('"' as u8) || b[s] == ('\'' as u8)
            &&& b[s + n - 1] == b[s]
        }),
{
    let n = 1 + run(b, s + 1, ByteClass::IdentTail);
    lemma_run_bound(b, s + 1, ByteClass::IdentTail);
    lemma_keyword_lookup_not_integer(b.subrange(s, s + n), 0);
    lemma_backtick_end(b, s + 1);
    lemma_quoted_end(b, s + 1, b[s]);
    lemma_float_len(b, s);
    lemma_run_in_class(b, s, ByteClass::Space);
}

/// Every token that `lex` finds lies after `i`, within the bytes, at character
/// boundaries, and is what `token_at` gives at its start.
pub proof fn lemma_lex(b: Seq<u8>, i: int)
    requires
        valid_utf8(b),
        0 <= i <= b.len(),
        is_char_boundary(b, i),
        lex(b, i) is Some,
    ensures
        forall|k: int| 0 <= k < lex(b, i).unwrap().len() ==> {
            let (kind, s, e) = #[trigger] lex(b, i).unwrap()[k];
            &&& i <= s < e <= b.len()
            &&& is_char_boundary(b, s)
            &&& is_char_boundary(b, e)
            &&& token_at(b, s) == Some((kind, (e - s) as nat))
        },
    decreases b.len() - i,
{
    lemma_scan(b, i);
    match scan(b, i) {
        Scan::Token(kind, s, e) => {
            lemma_lex(b, e);
            let l = lex(b, i).unwrap();
            let rest = lex(b, e).unwrap();
            assert(l == seq![(kind, s, e)] + rest);
            assert forall|k: int| 0 <= k < l.len() implies {
                let (kind2, s2, e2) = #[trigger] l[k];
                &&& i <= s2 < e2 <= b.len()
                &&& is_char_boundary(b, s2)
                &&& is_char_boundary(b, e2)
                &&& token_at(b, s2) == Some((kind2, (e2 - s2) as nat))
            } by {
                if k > 0 {
                    assert(l[k] == rest[k - 1]);
                }
            }
        },
        _ => {},
    }
}

} // verus!

verus! {

/// Upper-casing keeps every class of bytes that the rules test.
proof fn lemma_upper_byte(c: u8)
    ensures
        forall|cls: ByteClass| #[trigger] in_class(cls, upper(c)) == in_class(cls, c),
        is_ident_start(upper(c)) == is_ident_start(c),
        is_digit(upper(c)) == is_digit(c),
        (upper(c) == ('E' as u8)) == (c == ('e' as u8) || c == ('E' as u8)),
        upper(c) != ('e' as u8),
        upper(upper(c)) == upper(c),
{
}

proof fn lemma_upper_index(b: Seq<u8>, j: int)
    requires
        0 <= j < b.len(),
    ensures
        upper_seq(b).len() == b.len(),
        upper_seq(b)[j] == upper(b[j]),
{
}

proof fn lemma_run_upper(b: Seq<u8>, i: int, cls: ByteClass)
    ensures
        run(upper_seq(b), i, cls) == run(b, i, cls),
    decreases b.len() - i,
{
    let u = upper_seq(b);
    assert(u.len() == b.len());
    if 0 <= i < b.len() {
        lemma_upper_index(b, i);
        lemma_upper_byte(b[i]);
        lemma_run_upper(b, i + 1, cls);
    }
}

proof fn lemma_block_comment_end_upper(b: Seq<u8>, j: int)
    ensures
        block_comment_end(upper_seq(b), j) == block_comment_end(b, j),
    decreases b.len() - j,
{
    let u = upper_seq(b);
    assert(u.len() == b.len());
    if 0 <= j < b.len() {
        lemma_upper_index(b, j);
        lemma_upper_byte(b[j]);
        if j + 1 < b.len() {
            lemma_upper_index(b, j + 1);
            lemma_upper_byte(b[j + 1]);
        }
        lemma_block_comment_end_upper(b, j + 1);
        if j + 2 <= b.len() {
            lemma_block_comment_end_upper(b, j + 2);
        }
    }
}

proof fn lemma_backtick_end_upper(b: Seq<u8>, j: int)
    ensures
        backtick_end(upper_seq(b), j) == backtick_end(b, j),
    decreases b.len() - j,
{
    let u = upper_seq(b);
    assert(u.len() == b.len());
    if 0 <= j < b.len() {
        lemma_upper_index(b, j);
        lemma_upper_byte(b[j]);
        lemma_backtick_end_upper(b, j + 1);
    }
}

proof fn lemma_quoted_end_upper(b: Seq<u8>, j: int, q: u8)
    requires
        !(('a' as u8) <= q <= ('z' as u8)),
        !(('A' as u8) <= q <= ('Z' as u8)),
    ensures
        quoted_end(upper_seq(b), j, q) == quoted_end(b, j, q),
    decreases b.len() - j,
{
    let u = upper_seq(b);
    assert(u.len() == b.len());
    if 0 <= j < b.len() {
        lemma_upper_index(b, j);
        lemma_upper_byte(b[j]);
        if j + 1 < b.len() {
            lemma_upper_index(b, j + 1);
            lemma_upper_byte(b[j + 1]);
        }
        lemma_quoted_end_upper(b, j + 1, q);
        if j + 2 <= b.len() {
            lemma_quoted_end_upper(b, j + 2, q);
        }
    }
}

proof fn lemma_byte_is_upper(b: Seq<u8>, j: int, x: u8)
    requires
        !(('a' as u8) <= x <= ('z' as u8)),
        !(('A' as u8) <= x <= ('Z' as u8)),
    ensures
        byte_is(upper_seq(b), j, x) == byte_is(b, j, x),
{
    if 0 <= j < b.len() {
        lemma_upper_index(b, j);
        lemma_upper_byte(b[j]);
    }
}

proof fn lemma_exponent_len_upper(b: Seq<u8>, j: int)
    ensures
        exponent_len(upper_seq(b), j) == exponent_len(b, j),
{
    let u = upper_seq(b);
    if 0 <= j < b.len() {
        lemma_upper_index(b, j);
        lemma_upper_byte(b[j]);
    }
    lemma_byte_is_upper(b, j + 1, '+' as u8);
    lemma_byte_is_upper(b, j + 1, '-' as u8);
    lemma_run_upper(b, j + 1, ByteClass::Digit);
    lemma_run_upper(b, j + 2, ByteClass::Digit);
    assert((byte_is(u, j, ('e' as u8)) || byte_is(u, j, ('E' as u8))) == (byte_is(b, j, ('e' as u8)) || byte_is(
        b,
        j,
        ('E' as u8),
    )));
}

proof fn lemma_float_len_upper(b: Seq<u8>, i: int)
    ensures
        float_len(upper_seq(b), i) == float_len(b, i),
{
    let a = run(b, i, ByteClass::Digit);
    lemma_run_upper(b, i, ByteClass::Digit);
    lemma_byte_is_upper(b, i + a, '.' as u8);
    let f = run(b, i + a + 1, ByteClass::Digit);
    lemma_run_upper(b, i + a + 1, ByteClass::Digit);
    lemma_exponent_len_upper(b, i + a + 1 + f);
    lemma_exponent_len_upper(b, i + a);
}

/// Two words with the same upper case have the same kind.
proof fn lemma_keyword_lookup_case(w1: Seq<u8>, w2: Seq<u8>, k: int)
    requires
        upper_seq(w1) == upper_seq(w2),
    ensures
        keyword_lookup(w1, k) == keyword_lookup(w2, k),
    decreases keyword_count() - k,
{
    if 0 <= k < keyword_count() {
        lemma_keyword_lookup_case(w1, w2, k + 1);
    }
}

proof fn lemma_token_at_upper(b: Seq<u8>, i: int)
    ensures
        token_at(upper_seq(b), i) == token_at(b, i),
{
    let u = upper_seq(b);
    assert(u.len() == b.len());
    if 0 <= i < b.len() {
        let c = b[i];
        lemma_upper_index(b, i);
        lemma_upper_byte(c);
        lemma_run_upper(b, i, ByteClass::Space);
        lemma_run_upper(b, i + 1, ByteClass::IdentTail);
        lemma_run_upper(b, i, ByteClass::Digit);
        lemma_run_upper(b, i + 2, ByteClass::NotLineEnd);
        lemma_float_len_upper(b, i);
        lemma_backtick_end_upper(b, i + 1);
        if !(('a' as u8) <= c <= ('z' as u8)) && !(('A' as u8) <= c <= ('Z' as u8)) {
            lemma_quoted_end_upper(b, i + 1, c);
        }
        lemma_block_comment_end_upper(b, i + 3);
        lemma_byte_is_upper(b, i + 1, '-' as u8);
        lemma_byte_is_upper(b, i + 1, '/' as u8);
        lemma_byte_is_upper(b, i + 1, '*' as u8);
        lemma_byte_is_upper(b, i + 1, '>' as u8);
        lemma_byte_is_upper(b, i + 1, '=' as u8);
        lemma_byte_is_upper(b, i + 1, '|' as u8);
        if i + 2 < b.len() {
            lemma_upper_index(b, i + 2);
            lemma_upper_byte(b[i + 2]);
        }
        if is_ident_start(c) {
            let n = 1 + run(b, i + 1, ByteClass::IdentTail);
            lemma_run_bound(b, i + 1, ByteClass::IdentTail);
            let w = b.subrange(i, i + n);
            assert(u.subrange(i, i + n) =~= upper_seq(w));
            assert(upper_seq(upper_seq(w)) =~= upper_seq(w)) by {
                assert forall|j: int| 0 <= j < w.len() implies upper_seq(upper_seq(w))[j] == upper_seq(w)[j] by {
                    lemma_upper_byte(w[j]);
                }
            }
            lemma_keyword_lookup_case(u.subrange(i, i + n), w, 0);
        }
    }
}

proof fn lemma_scan_upper(b: Seq<u8>, i: int)
    ensures
        scan(upper_seq(b), i) == scan(b, i),
    decreases b.len() - i,
{
    let u = upper_seq(b);
    assert(u.len() == b.len());
    if 0 <= i < b.len() {
        lemma_token_at_upper(b, i);
        match token_at(b, i) {
            Some((k, n)) => {
                if n > 0 && i + n <= b.len() {
                    lemma_scan_upper(b, i + n);
                }
            },
            None => {},
        }
    }
}

/// Keywords ignore ASCII case: upper-casing the text changes neither the kinds nor
/// the byte ranges of the tokens that the lexer finds, nor whether it fails.
pub proof fn law_lex_ignores_ascii_case(b: Seq<u8>, i: int)
    ensures
        lex(upper_seq(b), i) == lex(b, i),
    decreases b.len() - i,
{
    let u = upper_seq(b);
    assert(u.len() == b.len());
    lemma_scan_upper(b, i);
    match scan(b, i) {
        Scan::Token(k, s, e) => {
            if i < e <= b.len() {
                law_lex_ignores_ascii_case(b, e);
            }
        },
        _ => {},
    }
}

proof fn lemma_scan_order(b: Seq<u8>, i: int)
    ensures
        scan(b, i) matches Scan::Token(k, s, e) ==> 0 <= i <= s < e <= b.len(),
    decreases b.len() - i,
{
    if 0 <= i < b.len() {
        match token_at(b, i) {
            Some((k, n)) => {
                if n > 0 && i + n <= b.len() {
                    lemma_scan_order(b, i + n);
                }
            },
            None => {},
        }
    }
}

/// The tokens come in the order of the text and do not overlap: each covers at
/// least one byte, and each ends where or before the next one starts.
pub proof fn law_lex_in_order(b: Seq<u8>, i: int)
    requires
        lex(b, i) is Some,
    ensures
        forall|k: int|
            0 <= k < lex(b, i).unwrap().len() ==> i <= (#[trigger] lex(b, i).unwrap()[k]).1 < lex(b, i).unwrap()[k].2
                <= b.len(),
        forall|k1: int, k2: int|
            0 <= k1 < k2 < lex(b, i).unwrap().len() ==> (#[trigger] lex(b, i).unwrap()[k1]).2 <= (
            #[trigger] lex(b, i).unwrap()[k2]).1,
    decreases b.len() - i,
{
    lemma_scan_order(b, i);
    match scan(b, i) {
        Scan::Token(kind, s, e) => {
            law_lex_in_order(b, e);
            let l = lex(b, i).unwrap();
            let rest = lex(b, e).unwrap();
            assert(l == seq![(kind, s, e)] + rest);
            assert forall|k: int| 0 <= k < l.len() implies i <= (#[trigger] l[k]).1 < l[k].2 <= b.len() by {
                if k > 0 {
                    assert(l[k] == rest[k - 1]);
                }
            }
            assert forall|k1: int, k2: int| 0 <= k1 < k2 < l.len() implies (#[trigger] l[k1]).2 <= (
            #[trigger] l[k2]).1 by {
                assert(l[k2] == rest[k2 - 1]);
                if k1 > 0 {
                    assert(l[k1] == rest[k1 - 1]);
                }
            }
        },
        _ => {},
    }
}

/// Operators and punctuation are lexed by their spelling: at a position whose
/// bytes spell an operator, the token found there is that operator, and it is
/// one or two bytes long as its spelling is.
pub proof fn law_operator_spelling(b: Seq<u8>, i: int)
    requires
        0 <= i < b.len(),
    ensures
        b[i] == ('>' as u8) && byte_is(b, i + 1, '=' as u8) ==> token_at(b, i) == Some((TokenKind::GtEq, 2nat)),
        b[i] == ('>' as u8) && !byte_is(b, i + 1, '=' as u8) ==> token_at(b, i) == Some((TokenKind::Gt, 1nat)),
        b[i] == ('<' as u8) && byte_is(b, i + 1, '=' as u8) ==> token_at(b, i) == Some((TokenKind::LtEq, 2nat)),
        b[i] == ('<' as u8) && byte_is(b, i + 1, '>' as u8) ==> token_at(b, i) == Some((TokenKind::NotEq, 2nat)),
        b[i] == ('<' as u8) && !byte_is(b, i + 1, '=' as u8) && !byte_is(b, i + 1, '>' as u8) ==> token_at(b, i)
            == Some((TokenKind::Lt, 1nat)),
        b[i] == ('!' as u8) && byte_is(b, i + 1, '=' as u8) ==> token_at(b, i) == Some((TokenKind::NotEq, 2nat)),
        b[i] == ('=' as u8) ==> token_at(b, i) == Some((TokenKind::Eq, 1nat)),
        b[i] == ('+' as u8) ==> token_at(b, i) == Some((TokenKind::Plus, 1nat)),
        b[i] == ('-' as u8) && !byte_is(b, i + 1, '-' as u8) ==> token_at(b, i) == Some((TokenKind::Minus, 1nat)),
        b[i] == ('*' as u8) ==> token_at(b, i) == Some((TokenKind::Multiply, 1nat)),
        b[i] == ('/' as u8) && byte_is(b, i + 1, '/' as u8) ==> token_at(b, i) == Some((TokenKind::IntDiv, 2nat)),
        b[i] == ('%' as u8) ==> token_at(b, i) == Some((TokenKind::Modulo, 1nat)),
        b[i] == ('|' as u8) && byte_is(b, i + 1, '|' as u8) ==> token_at(b, i) == Some((TokenKind::StringConcat, 2nat)),
        b[i] == ('(' as u8) ==> token_at(b, i) == Some((TokenKind::LParen, 1nat)),
        b[i] == (')' as u8) ==> token_at(b, i) == Some((TokenKind::RParen, 1nat)),
        b[i] == (',' as u8) ==> token_at(b, i) == Some((TokenKind::Comma, 1nat)),
        b[i] == (';' as u8) ==> token_at(b, i) == Some((TokenKind::SemiColon, 1nat)),
{
}

/// A word is never a comparison operator.
proof fn lemma_keyword_lookup_not_comparison(w: Seq<u8>, k: int)
    ensures
        keyword_lookup(w, k) != TokenKind::GtEq,
        keyword_lookup(w, k) != TokenKind::LtEq,
        keyword_lookup(w, k) != TokenKind::Gt,
        keyword_lookup(w, k) != TokenKind::Lt,
        keyword_lookup(w, k) != TokenKind::NotEq,
        keyword_lookup(w, k) != TokenKind::Eq,
    decreases keyword_count() - k,
{
    if 0 <= k < keyword_count() {
        lemma_keyword_lookup_not_comparison(w, k + 1);
    }
}

/// A token that `scan` finds is the one that `token_at` finds where it starts.
proof fn lemma_scan_token_at(b: Seq<u8>, i: int)
    ensures
        scan(b, i) matches Scan::Token(k, s, e) ==> 0 <= i <= s < e <= b.len() && token_at(b, s) == Some(
            (k, (e - s) as nat),
        ),
    decreases b.len() - i,
{
    if 0 <= i < b.len() {
        match token_at(b, i) {
            Some((k, n)) => {
                if n > 0 && i + n <= b.len() {
                    lemma_scan_token_at(b, i + n);
                }
            },
            None => {},
        }
    }
}

/// Every token that `lex` finds is the one that `token_at` finds where it starts.
pub proof fn lemma_lex_token_at(b: Seq<u8>, i: int)
    requires
        lex(b, i) is Some,
    ensures
        forall|k: int|
            0 <= k < lex(b, i).unwrap().len() ==> {
                let t = #[trigger] lex(b, i).unwrap()[k];
                &&& 0 <= t.1 < t.2 <= b.len()
                &&& token_at(b, t.1) == Some((t.0, (t.2 - t.1) as nat))
            },
    decreases b.len() - i,
{
    lemma_scan_token_at(b, i);
    match scan(b, i) {
        Scan::Token(kind, s, e) => {
            lemma_lex_token_at(b, e);
            let l = lex(b, i).unwrap();
            let rest = lex(b, e).unwrap();
            assert(l == seq![(kind, s, e)] + rest);
            assert forall|k: int| 0 <= k < l.len() implies {
                let t = #[trigger] l[k];
                &&& 0 <= t.1 < t.2 <= b.len()
                &&& token_at(b, t.1) == Some((t.0, (t.2 - t.1) as nat))
            } by {
                if k > 0 {
                    assert(l[k] == rest[k - 1]);
                }
            }
        },
        _ => {},
    }
}

/// The bytes that a token covers.
pub open spec fn token_text(b: Seq<u8>, t: (TokenKind, int, int)) -> Seq<u8> {
    b.subrange(t.1, t.2)
}

/// What a comparison token is spelled as: a token has kind `GtEq`, `LtEq`, `Gt`,
/// `Lt` or `Eq` exactly when its bytes are `>=`, `<=`, `>`, `<` or `=`, and kind
/// `NotEq` exactly when they are `<>` or `!=`.
pub open spec fn comparison_spelled(b: Seq<u8>, t: (TokenKind, int, int)) -> bool {
    let x = token_text(b, t);
    &&& (t.0 == TokenKind::GtEq <==> x == seq!['>' as u8, '=' as u8])
    &&& (t.0 == TokenKind::LtEq <==> x == seq!['<' as u8, '=' as u8])
    &&& (t.0 == TokenKind::Gt <==> x == seq!['>' as u8])
    &&& (t.0 == TokenKind::Lt <==> x == seq!['<' as u8])
    &&& (t.0 == TokenKind::Eq <==> x == seq!['=' as u8])
    &&& (t.0 == TokenKind::NotEq <==> (x == seq!['<' as u8, '>' as u8] || x == seq!['!' as u8, '=' as u8]))
}

/// One token, spelled as its comparison kind says.
proof fn lemma_comparison_spelled(b: Seq<u8>, t: (TokenKind, int, int))
    requires
        0 <= t.1 < t.2 <= b.len(),
        token_at(b, t.1) == Some((t.0, (t.2 - t.1) as nat)),
    ensures
        comparison_spelled(b, t),
{
    let (kind, s, e) = t;
    let x = token_text(b, t);
    law_operator_spelling(b, s);
    let n = 1 + run(b, s + 1, ByteClass::IdentTail);
    lemma_keyword_lookup_not_comparison(b.subrange(s, s + n), 0);
    assert(x.len() == e - s);
    assert(x.len() >= 1 ==> x[0] == b[s]);
    assert(x.len() >= 2 ==> x[1] == b[s + 1]);
    if x == seq!['>' as u8, '=' as u8] || x == seq!['<' as u8, '=' as u8] || x == seq!['<' as u8, '>' as u8] || x
        == seq!['!' as u8, '=' as u8] || x == seq!['>' as u8] || x == seq!['<' as u8] || x == seq!['=' as u8] {
        assert(x[0] == b[s]);
    }
    if kind == TokenKind::GtEq || kind == TokenKind::LtEq || kind == TokenKind::NotEq {
        assert(x =~= seq![b[s], b[s + 1]]);
    }
    if kind == TokenKind::Gt || kind == TokenKind::Lt || kind == TokenKind::Eq {
        assert(x =~= seq![b[s]]);
    }
}

/// Comparison tokens are spelled as their operators: of the tokens that the lexer
/// finds, one has kind `GtEq` exactly when its bytes are `>=`, `LtEq` exactly when
/// they are `<=`, and likewise for `>`, `<`, `=`, and `<>` or `!=` for `NotEq`.
pub proof fn law_comparison_tokens_spelled(b: Seq<u8>, i: int)
    requires
        lex(b, i) is Some,
    ensures
        forall|k: int|
            0 <= k < lex(b, i).unwrap().len() ==> comparison_spelled(b, #[trigger] lex(b, i).unwrap()[k]),
{
    lemma_lex_token_at(b, i);
    let l = lex(b, i).unwrap();
    assert forall|k: int| 0 <= k < l.len() implies comparison_spelled(b, #[trigger] l[k]) by {
        lemma_comparison_spelled(b, l[k]);
    }
}

/// The keywords are spelled as their kinds are named: the text of each entry of
/// the keyword table is the name of its kind, that kind is a keyword, and no other
/// entry has it.
pub proof fn law_keyword_table(k: int)
    requires
        0 <= k < keyword_count(),
    ensures
        keyword_entry(k).0 == kind_name(keyword_entry(k).1),
        is_keyword(keyword_entry(k).1),
        forall|j: int| 0 <= j < keyword_count() && j != k ==> (#[trigger] keyword_entry(j)).1 != keyword_entry(k).1,
{
}

/// Every keyword kind has an entry in the keyword table, so that its text is read as it.
pub proof fn law_every_keyword_listed(kind: TokenKind)
    requires
        is_keyword(kind),
    ensures
        exists|k: int| 0 <= k < keyword_count() && (#[trigger] keyword_entry(k)).1 == kind,
{
    match kind {
        TokenKind::AND => assert(keyword_entry(0).1 == kind),
        TokenKind::AS => assert(keyword_entry(1).1 == kind),
        TokenKind::ASC => assert(keyword_entry(2).1 == kind),
        TokenKind::BY => assert(keyword_entry(3).1 == kind),
        TokenKind::CROSS => assert(keyword_entry(4).1 == kind),
        TokenKind::DESC => assert(keyword_entry(5).1 == kind),
        TokenKind::DISTINCT => assert(keyword_entry(6).1 == kind),
        TokenKind::EXCEPT => assert(keyword_entry(7).1 == kind),
        TokenKind::EXCLUDE => assert(keyword_entry(8).1 == kind),
        TokenKind::EXISTS => assert(keyword_entry(9).1 == kind),
        TokenKind::FROM => assert(keyword_entry(10).1 == kind),
        TokenKind::FULL => assert(keyword_entry(11).1 == kind),
        TokenKind::GROUP => assert(keyword_entry(12).1 == kind),
        TokenKind::HAVING => assert(keyword_entry(13).1 == kind),
        TokenKind::IN => assert(keyword_entry(14).1 == kind),
        TokenKind::INNER => assert(keyword_entry(15).1 == kind),
        TokenKind::INTO => assert(keyword_entry(16).1 == kind),
        TokenKind::IS => assert(keyword_entry(17).1 == kind),
        TokenKind::JOIN => assert(keyword_entry(18).1 == kind),
        TokenKind::LEFT => assert(keyword_entry(19).1 == kind),
        TokenKind::LIKE => assert(keyword_entry(20).1 == kind),
        TokenKind::LIMIT => assert(keyword_entry(21).1 == kind),
        TokenKind::NOT => assert(keyword_entry(22).1 == kind),
        TokenKind::NULL => assert(keyword_entry(23).1 == kind),
        TokenKind::OFFSET => assert(keyword_entry(24).1 == kind),
        TokenKind::ON => assert(keyword_entry(25).1 == kind),
        TokenKind::OR => assert(keyword_entry(26).1 == kind),
        TokenKind::ORDER => assert(keyword_entry(27).1 == kind),
        TokenKind::OUTER => assert(keyword_entry(28).1 == kind),
        TokenKind::OVER => assert(keyword_entry(29).1 == kind),
        TokenKind::PARTITION => assert(keyword_entry(30).1 == kind),
        TokenKind::RECURSIVE => assert(keyword_entry(31).1 == kind),
        TokenKind::RIGHT => assert(keyword_entry(32).1 == kind),
        TokenKind::SELECT => assert(keyword_entry(33).1 == kind),
        TokenKind::WHERE => assert(keyword_entry(34).1 == kind),
        TokenKind::WINDOW => assert(keyword_entry(35).1 == kind),
        TokenKind::WITH => assert(keyword_entry(36).1 == kind),
        TokenKind::FIRST => assert(keyword_entry(37).1 == kind),
        TokenKind::LAST => assert(keyword_entry(38).1 == kind),
        _ => {},
    }
}

} // verus!
