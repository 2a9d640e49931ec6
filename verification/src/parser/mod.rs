//! Tokenizing and parsing of SQL queries.

pub mod common;
pub mod error;
pub mod expr;
pub mod grammar;
pub mod lexer;
pub mod reads;
pub mod set_expr;
pub mod statement;
pub mod table_ref;
pub mod token;

use vstd::prelude::*;

use core::ops::Range;
use vstd::string::StringSliceAdditionalSpecFns;

use self::error::PError;
use self::lexer::{
    comparison_spelled, law_comparison_tokens_spelled, law_lex_ignores_ascii_case, law_lex_in_order, lex, scan, upper_seq,
    Scan,
};
use self::token::{span_ok, Token, TokenKind, Tokenizer};

verus! {

/// The tokens that a parser reads.
pub type Input<'a> = &'a [token::Token<'a>];

/// What a parser gives back: the tokens it did not read and what it built, or an error.
pub type IResult<'a, Output> = Result<(Input<'a>, Output), PError>;


/// The kind and byte range of a token.
pub open spec fn token_triple(t: Token) -> (TokenKind, int, int) {
    (t.kind, t.span.start as int, t.span.end as int)
}

/// The tokens of a source text: those that `lex` finds, with the text as their source.
pub open spec fn sql_tokens<'a>(sql: &'a str) -> Seq<Token<'a>> {
    let l = lex(sql.spec_bytes(), 0).unwrap();
    Seq::new(
        l.len(),
        |k: int| Token { source: sql, kind: l[k].0, span: Range { start: l[k].1 as usize, end: l[k].2 as usize } },
    )
}

/// Whether every part of a source text outside whitespace and comments starts a token.
pub fn lexes(sql: &str) -> (b: bool)
    ensures
        b == (lex(sql.spec_bytes(), 0) is Some),
{
    let ghost b = sql.spec_bytes();
    let mut t = Tokenizer::new(sql);
    loop
        invariant
            t.source() == sql,
            0 <= t.pos() <= b.len(),
            b == sql.spec_bytes(),
            (lex(b, 0) is Some) == (lex(b, t.pos()) is Some),
        decreases b.len() - t.pos(),
    {
        if t.at_error() {
            return false;
        }
        let ghost old_pos = t.pos();
        match t.next_token() {
            None => {
                return true;
            },
            Some(tok) => {
                proof {
                    match scan(b, old_pos) {
                        Scan::Token(k, s, e) => {
                            assert(t.pos() == e);
                        },
                        _ => {},
                    }
                }
            },
        }
    }
}

/// Splits a source text into tokens, passing over whitespace and comments.
pub fn tokenize_sql<'a>(sql: &'a str) -> (v: Vec<Token<'a>>)
    requires
        lex(sql.spec_bytes(), 0) is Some,
    ensures
        v@ == sql_tokens(sql),
        forall|k: int| 0 <= k < v@.len() ==> span_ok(#[trigger] v@[k]),
{
    let ghost b = sql.spec_bytes();
    let n = sql.as_bytes().len();
    assert(b.len() == n);
    let mut t = Tokenizer::new(sql);
    let mut v: Vec<Token<'a>> = Vec::new();
    loop
        invariant
            t.source() == sql,
            0 <= t.pos() <= b.len(),
            b == sql.spec_bytes(),
            b.len() <= usize::MAX,
            lex(b, t.pos()) is Some,
            lex(b, 0) == Some(v@.map_values(|x: Token| token_triple(x)) + lex(b, t.pos()).unwrap()),
            forall|k: int| 0 <= k < v@.len() ==> (#[trigger] v@[k]).source == sql && span_ok(v@[k]),
        decreases b.len() - t.pos(),
    {
        let ghost old_v = v@;
        let ghost old_pos = t.pos();
        match t.next_token() {
            None => {
                let ghost l = lex(b, 0).unwrap();
                assert(v@.map_values(|x: Token| token_triple(x)) =~= l);
                assert(v@ =~= sql_tokens(sql)) by {
                    assert forall|k: int| 0 <= k < v@.len() implies v@[k] == sql_tokens(sql)[k] by {
                        assert(token_triple(v@[k]) == l[k]);
                    }
                }
                return v;
            },
            Some(tok) => {
                v.push(tok);
                proof {
                    let (k, s, e) = token_triple(tok);
                    match scan(b, old_pos) {
                        Scan::Token(k2, s2, e2) => {
                            assert(k2 == k && s2 == s && e2 == e);
                        },
                        _ => {},
                    }
                    assert(scan(b, old_pos) == Scan::Token(k, s, e));
                    assert(lex(b, old_pos) == Some(seq![(k, s, e)] + lex(b, e).unwrap()));
                    assert(v@.map_values(|x: Token| token_triple(x)) =~= old_v.map_values(|x: Token| token_triple(x)).push((k, s, e)));
                    assert(v@.map_values(|x: Token| token_triple(x)) + lex(b, t.pos()).unwrap() =~= old_v.map_values(|x: Token| token_triple(x)) + (seq![(k, s, e)] + lex(b, e).unwrap()));
                }
            },
        }
    }
}

/// The tokens of a text come in its order and do not overlap.
pub proof fn law_tokens_in_source_order(sql: &str)
    requires
        lex(sql.spec_bytes(), 0) is Some,
        sql.spec_bytes().len() <= usize::MAX,
    ensures
        forall|k: int|
            0 <= k < sql_tokens(sql).len() ==> (#[trigger] sql_tokens(sql)[k]).span.start < sql_tokens(sql)[k].span.end
                <= sql.spec_bytes().len(),
        forall|k1: int, k2: int|
            0 <= k1 < k2 < sql_tokens(sql).len() ==> (#[trigger] sql_tokens(sql)[k1]).span.end <= (
            #[trigger] sql_tokens(sql)[k2]).span.start,
{
    let b = sql.spec_bytes();
    law_lex_in_order(b, 0);
    let l = lex(b, 0).unwrap();
    let t = sql_tokens(sql);
    assert forall|k: int| 0 <= k < t.len() implies (#[trigger] t[k]).span.start < t[k].span.end <= b.len() by {
        assert(0 <= l[k].1 < l[k].2 <= b.len());
    }
    assert forall|k1: int, k2: int| 0 <= k1 < k2 < t.len() implies (#[trigger] t[k1]).span.end <= (
    #[trigger] t[k2]).span.start by {
        assert(l[k1].2 <= l[k2].1);
        assert(0 <= l[k1].1 < l[k1].2);
        assert(0 <= l[k2].1 < l[k2].2);
    }
}

/// Keywords ignore ASCII case: a text and its upper-case form have tokens of the
/// same kinds at the same byte ranges.
pub proof fn law_tokens_ignore_ascii_case(sql: &str, upper_sql: &str)
    requires
        upper_sql.spec_bytes() == upper_seq(sql.spec_bytes()),
    ensures
        lex(upper_sql.spec_bytes(), 0) == lex(sql.spec_bytes(), 0),
        sql_tokens(upper_sql).len() == sql_tokens(sql).len(),
        forall|k: int|
            0 <= k < sql_tokens(sql).len() ==> (#[trigger] sql_tokens(upper_sql)[k]).kind == sql_tokens(sql)[k].kind
                && sql_tokens(upper_sql)[k].span == sql_tokens(sql)[k].span,
{
    law_lex_ignores_ascii_case(sql.spec_bytes(), 0);
}

/// Comparison operators are tokenized by their spelling: a token of a text has
/// kind `GtEq` exactly when the bytes it covers are `>=`, `LtEq` exactly when they
/// are `<=`, and likewise for `>`, `<`, `=`, and `<>` or `!=` for `NotEq`.
pub proof fn law_comparison_tokens_of_text(sql: &str)
    requires
        lex(sql.spec_bytes(), 0) is Some,
        sql.spec_bytes().len() <= usize::MAX,
    ensures
        forall|k: int|
            0 <= k < sql_tokens(sql).len() ==> comparison_spelled(
                sql.spec_bytes(),
                token_triple(#[trigger] sql_tokens(sql)[k]),
            ),
{
    let b = sql.spec_bytes();
    law_comparison_tokens_spelled(b, 0);
    law_lex_in_order(b, 0);
    let l = lex(b, 0).unwrap();
    let t = sql_tokens(sql);
    assert forall|k: int| 0 <= k < t.len() implies comparison_spelled(b, token_triple(#[trigger] t[k])) by {
        assert(0 <= l[k].1 < l[k].2 <= b.len());
        assert(token_triple(t[k]) == l[k]);
        assert(comparison_spelled(b, l[k]));
    }
}

} // verus!
