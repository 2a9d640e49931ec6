//! Tokens of SQL text and the byte ranges they cover.

use core::ops::Range;
use vstd::prelude::*;
use vstd::string::StringSliceAdditionalSpecFns;
use vstd::utf8::*;

use super::lexer::{is_skipped, lemma_boundary_after_ascii, lemma_scan, lemma_token_end_boundary, scan, token_at, token_at_exec, Scan};

verus! {

broadcast use vstd::string::group_string_axioms;

/// The kinds of tokens, in the order of the lexical rules.
#[allow(non_camel_case_types)]
#[derive(Clone, Copy, Debug, PartialEq, Eq, Hash, Structural)]
pub enum TokenKind {
    // Skipped
    Whitespace,
    Comment,
    CommentBlock,
    Ident,
    QuotedString,
    LiteralInteger,
    LiteralFloat,
    Eq,
    NotEq,
    Lt,
    Gt,
    LtEq,
    GtEq,
    Plus,
    Minus,
    Multiply,
    Divide,
    IntDiv,
    Modulo,
    StringConcat,
    LParen,
    RParen,
    Comma,
    Dot,
    SemiColon,
    // Keywords
    AND,
    AS,
    ASC,
    BY,
    CROSS,
    DESC,
    DISTINCT,
    EXCEPT,
    EXCLUDE,
    EXISTS,
    FROM,
    FULL,
    GROUP,
    HAVING,
    IN,
    INNER,
    INTO,
    IS,
    JOIN,
    LEFT,
    LIKE,
    LIMIT,
    NOT,
    NULL,
    OFFSET,
    ON,
    OR,
    ORDER,
    OUTER,
    OVER,
    PARTITION,
    RECURSIVE,
    RIGHT,
    SELECT,
    WHERE,
    WINDOW,
    WITH,
    FIRST,
    LAST,
}

#[derive(Debug, PartialEq, Eq)]
pub struct Token<'a> {
    // Source sql
    pub source: &'a str,
    pub kind: TokenKind,
    // Left closed, right open, in bytes of the source
    pub span: Range<usize>,
}

/// The span of a token lies within its source and starts and ends at character boundaries.
pub open spec fn span_ok(t: Token) -> bool {
    let b = t.source.spec_bytes();
    &&& t.span.start <= t.span.end <= b.len()
    &&& is_char_boundary(b, t.span.start as int)
    &&& is_char_boundary(b, t.span.end as int)
}

/// The text of a token: the characters that its span covers.
pub open spec fn text_of(t: Token) -> Seq<char> {
    decode_utf8(t.source.spec_bytes().subrange(t.span.start as int, t.span.end as int))
}

/// The text between the first and the last byte of a token: a quoted string
/// without its quotes.
pub open spec fn unquoted_text_of(t: Token) -> Seq<char> {
    decode_utf8(t.source.spec_bytes().subrange(t.span.start + 1, t.span.end - 1))
}

/// A boundary of a valid byte sequence stays a boundary in every prefix that contains it.
proof fn lemma_boundary_in_prefix(b: Seq<u8>, i: int, j: int)
    requires
        valid_utf8(b),
        0 <= i <= j <= b.len(),
        is_char_boundary(b, i),
        is_char_boundary(b, j),
    ensures
        valid_utf8(b.subrange(0, j)),
        is_char_boundary(b.subrange(0, j), i),
{
    broadcast use valid_utf8_split, is_char_boundary_start_end_of_seq;

    let p = b.subrange(0, j);
    assert(valid_utf8(p));
    if i == j {
        assert(p.len() == j);
    } else {
        is_char_boundary_iff_not_is_continuation_byte(b, i);
        is_char_boundary_iff_not_is_continuation_byte(p, i);
    }
}

impl<'a> Clone for Token<'a> {
    fn clone(&self) -> (r: Self)
        ensures
            r == *self,
    {
        Token { source: self.source, kind: self.kind, span: self.span.start..self.span.end }
    }
}

impl<'a> Token<'a> {
    pub fn text(&self) -> (r: &'a str)
        requires
            span_ok(*self),
        ensures
            r@ == text_of(*self),
            r.spec_bytes() == self.source.spec_bytes().subrange(
                self.span.start as int,
                self.span.end as int,
            ),
    {
        let ghost b = self.source.spec_bytes();
        proof {
            encode_utf8_valid_utf8(self.source@);
            lemma_boundary_in_prefix(b, self.span.start as int, self.span.end as int);
        }
        let (head, _) = self.source.split_at(self.span.end);
        let (_, t) = head.split_at(self.span.start);
        proof {
            assert(t.spec_bytes() =~= b.subrange(self.span.start as int, self.span.end as int));
            encode_utf8_decode_utf8(t@);
        }
        t
    }

    /// The text of a token whose first and last bytes are ASCII quotes, without them.
    pub fn unquoted_text(&self) -> (r: &'a str)
        requires
            span_ok(*self),
            self.span.start + 2 <= self.span.end,
            self.source.spec_bytes()[self.span.start as int] < 128,
            self.source.spec_bytes()[self.span.end - 1] < 128,
        ensures
            r@ == unquoted_text_of(*self),
    {
        let ghost b = self.source.spec_bytes();
        let s = self.span.start + 1;
        let e = self.span.end - 1;
        proof {
            encode_utf8_valid_utf8(self.source@);
            lemma_boundary_after_ascii(b, self.span.start as int);
            is_char_boundary_iff_not_is_continuation_byte(b, e as int);
            lemma_boundary_in_prefix(b, s as int, e as int);
        }
        let (head, _) = self.source.split_at(e);
        let (_, t) = head.split_at(s);
        proof {
            assert(t.spec_bytes() =~= b.subrange(s as int, e as int));
            encode_utf8_decode_utf8(t@);
        }
        t
    }
}


/// Reads the tokens of a source text one at a time.
pub struct Tokenizer<'a> {
    source: &'a str,
    pos: usize,
}

impl<'a> Tokenizer<'a> {
    #[verifier::type_invariant]
    spec fn inv(&self) -> bool {
        &&& self.pos <= self.source.spec_bytes().len()
        &&& is_char_boundary(self.source.spec_bytes(), self.pos as int)
    }

    /// The text being read.
    pub closed spec fn source(&self) -> &'a str {
        self.source
    }

    /// The byte position from which reading goes on.
    pub closed spec fn pos(&self) -> int {
        self.pos as int
    }

    pub fn new(source: &'a str) -> (t: Self)
        ensures
            t.source() == source,
            t.pos() == 0,
    {
        proof {
            encode_utf8_valid_utf8(source@);
        }
        Tokenizer { source, pos: 0 }
    }

    /// Whether the text from the current position on, past whitespace and comments,
    /// starts with bytes that no lexical rule matches.
    pub fn at_error(&self) -> (b: bool)
        ensures
            b == (scan(self.source().spec_bytes(), self.pos()) is Error),
    {
        proof {
            use_type_invariant(self);
            encode_utf8_valid_utf8(self.source@);
        }
        let bytes = self.source.as_bytes();
        let mut p = self.pos;
        loop
            invariant
                bytes@ == self.source.spec_bytes(),
                valid_utf8(bytes@),
                self.pos <= p <= bytes@.len(),
                is_char_boundary(bytes@, p as int),
                scan(bytes@, self.pos as int) == scan(bytes@, p as int),
            decreases bytes@.len() - p,
        {
            if p >= bytes.len() {
                return false;
            }
            proof {
                lemma_token_end_boundary(bytes@, p as int);
            }
            match token_at_exec(bytes, p) {
                Some((k, n)) => {
                    if k == TokenKind::Whitespace || k == TokenKind::Comment || k == TokenKind::CommentBlock {
                        p = p + n;
                    } else {
                        return false;
                    }
                },
                None => {
                    return true;
                },
            }
        }
    }

    /// The next token, passing over whitespace and comments; `None` at the end.
    pub fn next_token(&mut self) -> (r: Option<Token<'a>>)
        requires
            !(scan(old(self).source().spec_bytes(), old(self).pos()) is Error),
        ensures
            final(self).source() == old(self).source(),
            match scan(old(self).source().spec_bytes(), old(self).pos()) {
                Scan::End => r is None && final(self).pos() == old(self).pos(),
                Scan::Token(k, s, e) => {
                    &&& r == Some(Token { source: old(self).source(), kind: k, span: Range { start: s as usize, end: e as usize } })
                    &&& final(self).pos() == e
                    &&& old(self).pos() <= s < e <= old(self).source().spec_bytes().len()
                    &&& span_ok(r.unwrap())
                },
                Scan::Error(_) => false,
            },
    {
        proof {
            use_type_invariant(&*self);
            encode_utf8_valid_utf8(self.source@);
            lemma_scan(self.source.spec_bytes(), self.pos as int);
        }
        let bytes = self.source.as_bytes();
        let mut p = self.pos;
        loop
            invariant
                bytes@ == self.source.spec_bytes(),
                valid_utf8(bytes@),
                self.source == old(self).source,
                self.pos == old(self).pos,
                old(self).pos <= p <= bytes@.len(),
                is_char_boundary(bytes@, p as int),
                scan(bytes@, old(self).pos as int) == scan(bytes@, p as int),
                !(scan(bytes@, p as int) is Error),
            decreases bytes@.len() - p,
        {
            if p >= bytes.len() {
                return None;
            }
            proof {
                lemma_token_end_boundary(bytes@, p as int);
            }
            match token_at_exec(bytes, p) {
                Some((k, n)) => {
                    if k == TokenKind::Whitespace || k == TokenKind::Comment || k == TokenKind::CommentBlock {
                        p = p + n;
                    } else {
                        self.pos = p + n;
                        let t = Token { source: self.source, kind: k, span: p..p + n };
                        return Some(t);
                    }
                },
                None => {
                    return None;
                },
            }
        }
    }
}

} // verus!

verus! {

/// The name of a token kind, as it is written in the enum.
pub open spec fn kind_name(k: TokenKind) -> Seq<char> {
    match k {
        TokenKind::Whitespace => "Whitespace"@,
        TokenKind::Comment => "Comment"@,
        TokenKind::CommentBlock => "CommentBlock"@,
        TokenKind::Ident => "Ident"@,
        TokenKind::QuotedString => "QuotedString"@,
        TokenKind::LiteralInteger => "LiteralInteger"@,
        TokenKind::LiteralFloat => "LiteralFloat"@,
        TokenKind::Eq => "Eq"@,
        TokenKind::NotEq => "NotEq"@,
        TokenKind::Lt => "Lt"@,
        TokenKind::Gt => "Gt"@,
        TokenKind::LtEq => "LtEq"@,
        TokenKind::GtEq => "GtEq"@,
        TokenKind::Plus => "Plus"@,
        TokenKind::Minus => "Minus"@,
        TokenKind::Multiply => "Multiply"@,
        TokenKind::Divide => "Divide"@,
        TokenKind::IntDiv => "IntDiv"@,
        TokenKind::Modulo => "Modulo"@,
        TokenKind::StringConcat => "StringConcat"@,
        TokenKind::LParen => "LParen"@,
        TokenKind::RParen => "RParen"@,
        TokenKind::Comma => "Comma"@,
        TokenKind::Dot => "Dot"@,
        TokenKind::SemiColon => "SemiColon"@,
        TokenKind::AND => "AND"@,
        TokenKind::AS => "AS"@,
        TokenKind::ASC => "ASC"@,
        TokenKind::BY => "BY"@,
        TokenKind::CROSS => "CROSS"@,
        TokenKind::DESC => "DESC"@,
        TokenKind::DISTINCT => "DISTINCT"@,
        TokenKind::EXCEPT => "EXCEPT"@,
        TokenKind::EXCLUDE => "EXCLUDE"@,
        TokenKind::EXISTS => "EXISTS"@,
        TokenKind::FROM => "FROM"@,
        TokenKind::FULL => "FULL"@,
        TokenKind::GROUP => "GROUP"@,
        TokenKind::HAVING => "HAVING"@,
        TokenKind::IN => "IN"@,
        TokenKind::INNER => "INNER"@,
        TokenKind::INTO => "INTO"@,
        TokenKind::IS => "IS"@,
        TokenKind::JOIN => "JOIN"@,
        TokenKind::LEFT => "LEFT"@,
        TokenKind::LIKE => "LIKE"@,
        TokenKind::LIMIT => "LIMIT"@,
        TokenKind::NOT => "NOT"@,
        TokenKind::NULL => "NULL"@,
        TokenKind::OFFSET => "OFFSET"@,
        TokenKind::ON => "ON"@,
        TokenKind::OR => "OR"@,
        TokenKind::ORDER => "ORDER"@,
        TokenKind::OUTER => "OUTER"@,
        TokenKind::OVER => "OVER"@,
        TokenKind::PARTITION => "PARTITION"@,
        TokenKind::RECURSIVE => "RECURSIVE"@,
        TokenKind::RIGHT => "RIGHT"@,
        TokenKind::SELECT => "SELECT"@,
        TokenKind::WHERE => "WHERE"@,
        TokenKind::WINDOW => "WINDOW"@,
        TokenKind::WITH => "WITH"@,
        TokenKind::FIRST => "FIRST"@,
        TokenKind::LAST => "LAST"@,
    }
}

impl TokenKind {
    /// Whether the kind is a keyword.
    pub fn is_keyword(&self) -> (r: bool)
        ensures
            r == super::grammar::is_keyword(*self),
    {
        match self {
            TokenKind::AND | TokenKind::AS | TokenKind::ASC | TokenKind::BY | TokenKind::CROSS | TokenKind::DESC
            | TokenKind::DISTINCT | TokenKind::EXCEPT | TokenKind::EXCLUDE | TokenKind::EXISTS | TokenKind::FROM
            | TokenKind::FULL | TokenKind::GROUP | TokenKind::HAVING | TokenKind::IN | TokenKind::INNER
            | TokenKind::INTO | TokenKind::IS | TokenKind::JOIN | TokenKind::LEFT | TokenKind::LIKE
            | TokenKind::LIMIT | TokenKind::NOT | TokenKind::NULL | TokenKind::OFFSET | TokenKind::ON
            | TokenKind::OR | TokenKind::ORDER | TokenKind::OUTER | TokenKind::OVER | TokenKind::PARTITION
            | TokenKind::RECURSIVE | TokenKind::RIGHT | TokenKind::SELECT | TokenKind::WHERE | TokenKind::WINDOW
            | TokenKind::WITH | TokenKind::FIRST | TokenKind::LAST => true,
            _ => false,
        }
    }

    /// The name of the kind, as it is written in the enum.
    pub fn name(&self) -> (r: &'static str)
        ensures
            r@ == kind_name(*self),
    {
        match self {
            TokenKind::Whitespace => "Whitespace",
            TokenKind::Comment => "Comment",
            TokenKind::CommentBlock => "CommentBlock",
            TokenKind::Ident => "Ident",
            TokenKind::QuotedString => "QuotedString",
            TokenKind::LiteralInteger => "LiteralInteger",
            TokenKind::LiteralFloat => "LiteralFloat",
            TokenKind::Eq => "Eq",
            TokenKind::NotEq => "NotEq",
            TokenKind::Lt => "Lt",
            TokenKind::Gt => "Gt",
            TokenKind::LtEq => "LtEq",
            TokenKind::GtEq => "GtEq",
            TokenKind::Plus => "Plus",
            TokenKind::Minus => "Minus",
            TokenKind::Multiply => "Multiply",
            TokenKind::Divide => "Divide",
            TokenKind::IntDiv => "IntDiv",
            TokenKind::Modulo => "Modulo",
            TokenKind::StringConcat => "StringConcat",
            TokenKind::LParen => "LParen",
            TokenKind::RParen => "RParen",
            TokenKind::Comma => "Comma",
            TokenKind::Dot => "Dot",
            TokenKind::SemiColon => "SemiColon",
            TokenKind::AND => "AND",
            TokenKind::AS => "AS",
            TokenKind::ASC => "ASC",
            TokenKind::BY => "BY",
            TokenKind::CROSS => "CROSS",
            TokenKind::DESC => "DESC",
            TokenKind::DISTINCT => "DISTINCT",
            TokenKind::EXCEPT => "EXCEPT",
            TokenKind::EXCLUDE => "EXCLUDE",
            TokenKind::EXISTS => "EXISTS",
            TokenKind::FROM => "FROM",
            TokenKind::FULL => "FULL",
            TokenKind::GROUP => "GROUP",
            TokenKind::HAVING => "HAVING",
            TokenKind::IN => "IN",
            TokenKind::INNER => "INNER",
            TokenKind::INTO => "INTO",
            TokenKind::IS => "IS",
            TokenKind::JOIN => "JOIN",
            TokenKind::LEFT => "LEFT",
            TokenKind::LIKE => "LIKE",
            TokenKind::LIMIT => "LIMIT",
            TokenKind::NOT => "NOT",
            TokenKind::NULL => "NULL",
            TokenKind::OFFSET => "OFFSET",
            TokenKind::ON => "ON",
            TokenKind::OR => "OR",
            TokenKind::ORDER => "ORDER",
            TokenKind::OUTER => "OUTER",
            TokenKind::OVER => "OVER",
            TokenKind::PARTITION => "PARTITION",
            TokenKind::RECURSIVE => "RECURSIVE",
            TokenKind::RIGHT => "RIGHT",
            TokenKind::SELECT => "SELECT",
            TokenKind::WHERE => "WHERE",
            TokenKind::WINDOW => "WINDOW",
            TokenKind::WITH => "WITH",
            TokenKind::FIRST => "FIRST",
            TokenKind::LAST => "LAST",
        }
    }
}

} // verus!
