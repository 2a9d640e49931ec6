//! An SQL query parser: a tokenizer, a Pratt parser for expressions and
//! joins, recursive descent for the rest of a query, and a printer.

pub mod ast;
pub mod parser;

use vstd::prelude::*;
use vstd::string::StringSliceAdditionalSpecFns;
use vstd::utf8::encode_utf8_valid_utf8;

use crate::ast::statement::SelectStatement;
use crate::parser::common::{literals_fit, token_wf, tokens_wf};
use crate::parser::reads::big_select_stmt;
use crate::parser::error::PError;
use crate::parser::grammar::{is_keyword, lexeme, lexemes, select_stmt_error, decimal_value, is_decimal_numeral, spec_select_stmt, token_bytes};
use crate::parser::lexer::{law_lex_ignores_ascii_case, law_lex_in_order, lemma_integer_digits, lemma_lex, lemma_quoted_bytes, lex, upper_seq};
use crate::parser::statement::select_stmt;
use crate::parser::token::TokenKind;
use crate::parser::common::all_literals_fit;
use crate::parser::{lexes, sql_tokens, tokenize_sql};

verus! {

broadcast use vstd::string::group_string_axioms;

/// Every integer literal of a source text that lexes has a value that fits in `usize`.
pub open spec fn integer_literals_fit(sql: &str) -> bool {
    literals_fit(sql_tokens(sql))
}

/// Reading the query in `sql` reaches an integer literal too large for `usize`.
pub open spec fn reads_oversize_literal(sql: &str) -> bool {
    big_select_stmt(lexemes(sql_tokens(sql)), 0)
}

/// The tokens of a text that lexes are valid parser input.
proof fn lemma_sql_tokens_wf(sql: &str)
    requires
        lex(sql.spec_bytes(), 0) is Some,
        sql.spec_bytes().len() <= usize::MAX,
    ensures
        tokens_wf(sql_tokens(sql)),
{
    let b = sql.spec_bytes();
    encode_utf8_valid_utf8(sql@);
    lemma_lex(b, 0);
    let l = lex(b, 0).unwrap();
    let toks = sql_tokens(sql);
    assert forall|k: int| 0 <= k < toks.len() implies token_wf(#[trigger] toks[k]) by {
        let t = toks[k];
        let (kind, s, e) = l[k];
        assert(token_bytes(t) == b.subrange(s, e));
        if t.kind == TokenKind::LiteralInteger {
            lemma_integer_digits(b, s);
            assert(is_decimal_numeral(token_bytes(t)));
        }
        if t.kind == TokenKind::QuotedString {
            lemma_quoted_bytes(b, s);
            let tb = token_bytes(t);
            assert(tb[0] == b[s]);
            assert(tb[tb.len() - 1] == b[e - 1]);
        }
    }
}

/// Parses a query: the tokens of `sql`, read from the first by the query rule.
/// Tokens after the query are ignored.
pub fn parse_query(sql: &str) -> (r: Result<SelectStatement, PError>)
    requires
        lex(sql.spec_bytes(), 0) is Some,
        integer_literals_fit(sql) || !reads_oversize_literal(sql),
    ensures
        match spec_select_stmt(lexemes(sql_tokens(sql)), 0) {
            Some((_, s)) => r matches Ok(stmt) && stmt@ == s,
            None => r matches Err(e) && e@ == select_stmt_error(lexemes(sql_tokens(sql)), 0),
        },
{
    let n = sql.as_bytes().len();
    proof {
        lemma_sql_tokens_wf(sql);
    }
    let tokens = tokenize_sql(sql);
    match select_stmt(tokens.as_slice()) {
        Ok((_, stmt)) => Ok(stmt),
        Err(e) => Err(e),
    }
}

/// Parses a query after checking what `parse_query` needs: that the text splits
/// into tokens and that every integer literal in it fits in `usize`. `None` when
/// either check fails; otherwise what `parse_query` gives.
pub fn try_parse_query(sql: &str) -> (r: Option<Result<SelectStatement, PError>>)
    ensures
        r is Some <==> (lex(sql.spec_bytes(), 0) is Some && integer_literals_fit(sql)),
        r matches Some(res) ==> match spec_select_stmt(lexemes(sql_tokens(sql)), 0) {
            Some((_, s)) => res matches Ok(stmt) && stmt@ == s,
            None => res matches Err(e) && e@ == select_stmt_error(lexemes(sql_tokens(sql)), 0),
        },
{
    if !lexes(sql) {
        return None;
    }
    let n = sql.as_bytes().len();
    proof {
        lemma_sql_tokens_wf(sql);
    }
    let tokens = tokenize_sql(sql);
    if !all_literals_fit(tokens.as_slice()) {
        return None;
    }
    Some(parse_query(sql))
}

/// The byte at `j` of `sql` lies within a keyword token.
pub open spec fn in_keyword(sql: &str, j: int) -> bool {
    let l = lex(sql.spec_bytes(), 0).unwrap();
    exists|k: int| 0 <= k < l.len() && is_keyword((#[trigger] l[k]).0) && l[k].1 <= j < l[k].2
}

/// Outside keywords, two such texts have the same bytes: a token that is not a
/// keyword covers the same bytes in both.
proof fn lemma_bytes_outside_keywords(a: &str, b: &str, k: int)
    requires
        lex(a.spec_bytes(), 0) is Some,
        a.spec_bytes().len() == b.spec_bytes().len(),
        forall|j: int| 0 <= j < a.spec_bytes().len() && a.spec_bytes()[j] != b.spec_bytes()[j] ==> in_keyword(a, j),
        0 <= k < lex(a.spec_bytes(), 0).unwrap().len(),
        !is_keyword(lex(a.spec_bytes(), 0).unwrap()[k].0),
    ensures
        ({
            let (_, s, e) = lex(a.spec_bytes(), 0).unwrap()[k];
            a.spec_bytes().subrange(s, e) == b.spec_bytes().subrange(s, e)
        }),
{
    let x = a.spec_bytes();
    let y = b.spec_bytes();
    law_lex_in_order(x, 0);
    let l = lex(x, 0).unwrap();
    let (kind, s, e) = l[k];
    assert(0 <= s < e <= x.len());
    assert forall|j: int| s <= j < e implies x[j] == y[j] by {
        if x[j] != y[j] {
            assert(in_keyword(a, j));
            let k2 = choose|k2: int| 0 <= k2 < l.len() && is_keyword((#[trigger] l[k2]).0) && l[k2].1 <= j < l[k2].2;
            if k2 < k {
                assert(l[k2].2 <= l[k].1);
            } else if k < k2 {
                assert(l[k].2 <= l[k2].1);
            }
        }
    }
    assert(x.subrange(s, e) =~= y.subrange(s, e));
}

/// Keywords ignore ASCII case: two texts that differ only in the case of letters
/// within keywords read as the same query, or fail with the same error.
#[verifier::rlimit(100)]
pub proof fn law_keyword_case_does_not_matter(a: &str, b: &str)
    requires
        lex(a.spec_bytes(), 0) is Some,
        a.spec_bytes().len() <= usize::MAX,
        upper_seq(a.spec_bytes()) == upper_seq(b.spec_bytes()),
        forall|j: int| 0 <= j < a.spec_bytes().len() && a.spec_bytes()[j] != b.spec_bytes()[j] ==> in_keyword(a, j),
    ensures
        lex(b.spec_bytes(), 0) == lex(a.spec_bytes(), 0),
        lexemes(sql_tokens(a)) == lexemes(sql_tokens(b)),
        spec_select_stmt(lexemes(sql_tokens(a)), 0) == spec_select_stmt(lexemes(sql_tokens(b)), 0),
        select_stmt_error(lexemes(sql_tokens(a)), 0) == select_stmt_error(lexemes(sql_tokens(b)), 0),
        reads_oversize_literal(a) == reads_oversize_literal(b),
{
    let x = a.spec_bytes();
    let y = b.spec_bytes();
    law_lex_ignores_ascii_case(x, 0);
    law_lex_ignores_ascii_case(y, 0);
    assert(x.len() == upper_seq(x).len());
    assert(y.len() == upper_seq(y).len());
    law_lex_in_order(x, 0);
    encode_utf8_valid_utf8(a@);
    lemma_lex(x, 0);
    let l = lex(x, 0).unwrap();
    let ta = sql_tokens(a);
    let tb = sql_tokens(b);
    assert(ta.len() == l.len() && tb.len() == l.len());
    assert forall|k: int| 0 <= k < ta.len() implies #[trigger] lexemes(ta)[k] == lexemes(tb)[k] by {
        let (kind, s, e) = l[k];
        assert(0 <= s < e <= x.len());
        assert(ta[k].kind == kind && tb[k].kind == kind);
        assert(ta[k].span.start == s && ta[k].span.end == e);
        assert(tb[k].span.start == s && tb[k].span.end == e);
        if !is_keyword(kind) {
            lemma_bytes_outside_keywords(a, b, k);
            assert(token_bytes(ta[k]) == token_bytes(tb[k]));
            if kind == TokenKind::QuotedString {
                lemma_quoted_bytes(x, s);
                assert(x.subrange(s + 1, e - 1) =~= x.subrange(s, e).subrange(1, e - s - 1));
                assert(y.subrange(s + 1, e - 1) =~= y.subrange(s, e).subrange(1, e - s - 1));
            }
        }
        assert(lexemes(ta)[k] == lexeme(ta[k]));
        assert(lexemes(tb)[k] == lexeme(tb[k]));
    }
    assert(lexemes(ta) =~= lexemes(tb));
}

} // verus!
