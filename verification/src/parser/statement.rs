//! Query statements: WITH, the query body, ORDER BY, LIMIT and OFFSET.

use vstd::prelude::*;

use super::common::{advances, finish, kind_is, parse_ident, parse_idents1, result_matches, text_is, literals_fit, tokens_wf, view_res, MIN_PRECEDENCE};
use super::error::PError;
use super::expr::{parse_expr, parse_pratt};
use super::reads::{big_cte, big_ctes1, big_ctes_tail, big_limit_offset_clause, big_order_by_clause, big_order_by_expr, big_order_by_list1, big_order_by_tail, big_select_stmt, big_with_clause, lemma_big_select_stmt};
use super::grammar::{
    lexemes,
    spec_cte, spec_cte_alias, spec_ctes1, spec_ctes_tail, spec_limit_offset_clause, spec_order_by_clause,
    spec_order_by_expr, spec_order_by_list1, spec_order_by_tail, spec_select_stmt, spec_with_clause, pratt_error, select_stmt_error,
};
use super::set_expr::{parse_select_set_expr, select_set_expr_error_at};
use super::token::{Token, TokenKind};
use super::{IResult, Input};
use crate::ast::expr::{view_opt_expr, Expr};
use crate::ast::statement::{
    lemma_view_ctes_push, lemma_view_order_by_exprs_push, view_ctes, view_order_by_exprs, Cte, OrderByExpr,
    SelectStatement, TableAlias, With,
};
use crate::ast::view_idents;

verus! {

/// `[WITH ...] select_set_expr [ORDER BY ...] [LIMIT ... | OFFSET ...]`
#[verifier::rlimit(100)]
pub fn parse_select_stmt(toks: &[Token], p: usize) -> (r: Option<(usize, SelectStatement)>)
    requires
        tokens_wf(toks@),
        literals_fit(toks@) || !big_select_stmt(lexemes(toks@), p as int),
        p <= toks.len(),
    ensures
        view_res(r) == spec_select_stmt(lexemes(toks@), p as int),
        advances(r, p as int, toks@.len() as int),
    decreases toks.len() - p, 3int,
{
    proof {
        lemma_big_select_stmt(lexemes(toks@), p as int);
    }
    let (p1, with) = match parse_with_clause(toks, p) {
        Some((q, w)) => (q, Some(w)),
        None => (p, None),
    };
    let (p2, body) = match parse_select_set_expr(toks, p1) {
        Some(x) => x,
        None => return None,
    };
    let (p3, order_by) = match parse_order_by_clause(toks, p2) {
        Some(x) => x,
        None => {
            let v: Vec<OrderByExpr> = Vec::new();
            assert(view_order_by_exprs(v@) =~= seq![]);
            (p2, v)
        },
    };
    let (p4, limit, offset) = match parse_limit_offset_clause(toks, p3) {
        Some(x) => x,
        None => (p3, None, None),
    };
    Some((p4, SelectStatement { with, body, order_by, limit, offset }))
}

/// `WITH [RECURSIVE] cte, ...`
fn parse_with_clause(toks: &[Token], p: usize) -> (r: Option<(usize, With)>)
    requires
        tokens_wf(toks@),
        literals_fit(toks@) || !big_with_clause(lexemes(toks@), p as int),
        p <= toks.len(),
    ensures
        view_res(r) == spec_with_clause(lexemes(toks@), p as int),
        advances(r, p as int, toks@.len() as int),
    decreases toks.len() - p, 1int,
{
    if !kind_is(toks, p, TokenKind::WITH) {
        return None;
    }
    let recursive = kind_is(toks, p + 1, TokenKind::RECURSIVE);
    let p1 = if recursive { p + 2 } else { p + 1 };
    match parse_ctes1(toks, p1) {
        Some((q, l)) => Some((q, With { recursive, cte_tables: l })),
        None => None,
    }
}

/// `name ( column, ... )` or `name`.
fn parse_cte_alias(toks: &[Token], p: usize) -> (r: Option<(usize, TableAlias)>)
    requires
        tokens_wf(toks@),
    ensures
        view_res(r) == spec_cte_alias(lexemes(toks@), p as int),
        advances(r, p as int, toks@.len() as int),
{
    let (p1, name) = match parse_ident(toks, p) {
        Some(x) => x,
        None => return None,
    };
    if kind_is(toks, p1, TokenKind::LParen) {
        match parse_idents1(toks, p1 + 1) {
            Some((q, columns)) => if kind_is(toks, q, TokenKind::RParen) {
                return Some((q + 1, TableAlias { name, columns }));
            },
            None => {},
        }
    }
    let columns: Vec<crate::ast::Ident> = Vec::new();
    assert(view_idents(columns@) =~= seq![]);
    Some((p1, TableAlias { name, columns }))
}

/// `alias AS ( select_stmt )`
fn parse_cte(toks: &[Token], p: usize) -> (r: Option<(usize, Cte)>)
    requires
        tokens_wf(toks@),
        literals_fit(toks@) || !big_cte(lexemes(toks@), p as int),
        p <= toks.len(),
    ensures
        view_res(r) == spec_cte(lexemes(toks@), p as int),
        advances(r, p as int, toks@.len() as int),
    decreases toks.len() - p, 0int,
{
    let (p1, alias) = match parse_cte_alias(toks, p) {
        Some(x) => x,
        None => return None,
    };
    if !(kind_is(toks, p1, TokenKind::AS) && kind_is(toks, p1 + 1, TokenKind::LParen)) {
        return None;
    }
    match parse_select_stmt(toks, p1 + 2) {
        Some((q, s)) => if kind_is(toks, q, TokenKind::RParen) {
            Some((q + 1, Cte { alias, query: Box::new(s) }))
        } else {
            None
        },
        None => None,
    }
}

/// One or more common table expressions separated by `,`.
#[verifier::rlimit(50)]
fn parse_ctes1(toks: &[Token], p: usize) -> (r: Option<(usize, Vec<Cte>)>)
    requires
        tokens_wf(toks@),
        literals_fit(toks@) || !big_ctes1(lexemes(toks@), p as int),
        p <= toks.len(),
    ensures
        match r {
            Some((q, v)) => spec_ctes1(lexemes(toks@), p as int) == Some((q as int, view_ctes(v@))) && p < q <= toks.len(),
            None => spec_ctes1(lexemes(toks@), p as int) is None,
        },
    decreases toks.len() - p, 1int,
{
    let (mut q, first) = match parse_cte(toks, p) {
        Some(x) => x,
        None => return None,
    };
    let mut v: Vec<Cte> = Vec::new();
    proof {
        lemma_view_ctes_push(v@, first);
    }
    v.push(first);
    assert(view_ctes(v@) =~= seq![first@]);
    loop
        invariant
            tokens_wf(toks@),
            literals_fit(toks@) || !big_ctes_tail(lexemes(toks@), q as int),
            p < q <= toks.len(),
            spec_ctes1(lexemes(toks@), p as int) == Some(
                (spec_ctes_tail(lexemes(toks@), q as int).0, view_ctes(v@) + spec_ctes_tail(lexemes(toks@), q as int).1),
            ),
        decreases toks.len() - q,
    {
        let sep = text_is(toks, q, ",");
        if !sep {
            assert(view_ctes(v@) + seq![] =~= view_ctes(v@));
            return Some((q, v));
        }
        match parse_cte(toks, q + 1) {
            Some((r, x)) => {
                proof {
                    lemma_view_ctes_push(v@, x);
                    let (e, rest) = spec_ctes_tail(lexemes(toks@), r as int);
                    assert(view_ctes(v@) + (seq![x@] + rest) =~= view_ctes(v@).push(x@) + rest);
                }
                v.push(x);
                q = r;
            },
            None => {
                assert(view_ctes(v@) + seq![] =~= view_ctes(v@));
                return Some((q, v));
            },
        }
    }
}

/// `ORDER BY order_by_expr, ...`
fn parse_order_by_clause(toks: &[Token], p: usize) -> (r: Option<(usize, Vec<OrderByExpr>)>)
    requires
        tokens_wf(toks@),
        literals_fit(toks@) || !big_order_by_clause(lexemes(toks@), p as int),
        p <= toks.len(),
    ensures
        match r {
            Some((q, v)) => spec_order_by_clause(lexemes(toks@), p as int) == Some((q as int, view_order_by_exprs(v@)))
                && p < q <= toks.len(),
            None => spec_order_by_clause(lexemes(toks@), p as int) is None,
        },
    decreases toks.len() - p, 0int,
{
    if kind_is(toks, p, TokenKind::ORDER) && kind_is(toks, p + 1, TokenKind::BY) {
        parse_order_by_list1(toks, p + 2)
    } else {
        None
    }
}

/// `expr [ASC | DESC]`
fn parse_order_by_expr(toks: &[Token], p: usize) -> (r: Option<(usize, OrderByExpr)>)
    requires
        tokens_wf(toks@),
        literals_fit(toks@) || !big_order_by_expr(lexemes(toks@), p as int),
        p <= toks.len(),
    ensures
        view_res(r) == spec_order_by_expr(lexemes(toks@), p as int),
        advances(r, p as int, toks@.len() as int),
    decreases toks.len() - p, 7int,
{
    let (q, e) = match parse_expr(toks, p) {
        Some(x) => x,
        None => return None,
    };
    if kind_is(toks, q, TokenKind::ASC) {
        Some((q + 1, OrderByExpr { expr: e, asc: Some(true) }))
    } else if kind_is(toks, q, TokenKind::DESC) {
        Some((q + 1, OrderByExpr { expr: e, asc: Some(false) }))
    } else {
        Some((q, OrderByExpr { expr: e, asc: None }))
    }
}

/// One or more ordering expressions separated by `,`.
#[verifier::rlimit(50)]
pub fn parse_order_by_list1(toks: &[Token], p: usize) -> (r: Option<(usize, Vec<OrderByExpr>)>)
    requires
        tokens_wf(toks@),
        literals_fit(toks@) || !big_order_by_list1(lexemes(toks@), p as int),
        p <= toks.len(),
    ensures
        match r {
            Some((q, v)) => spec_order_by_list1(lexemes(toks@), p as int) == Some((q as int, view_order_by_exprs(v@)))
                && p < q <= toks.len(),
            None => spec_order_by_list1(lexemes(toks@), p as int) is None,
        },
    decreases toks.len() - p, 8int,
{
    let (mut q, first) = match parse_order_by_expr(toks, p) {
        Some(x) => x,
        None => return None,
    };
    let mut v: Vec<OrderByExpr> = Vec::new();
    proof {
        lemma_view_order_by_exprs_push(v@, first);
    }
    v.push(first);
    assert(view_order_by_exprs(v@) =~= seq![first@]);
    loop
        invariant
            tokens_wf(toks@),
            literals_fit(toks@) || !big_order_by_tail(lexemes(toks@), q as int),
            p < q <= toks.len(),
            spec_order_by_list1(lexemes(toks@), p as int) == Some(
                (
                    spec_order_by_tail(lexemes(toks@), q as int).0,
                    view_order_by_exprs(v@) + spec_order_by_tail(lexemes(toks@), q as int).1,
                ),
            ),
        decreases toks.len() - q,
    {
        let sep = text_is(toks, q, ",");
        if !sep {
            assert(view_order_by_exprs(v@) + seq![] =~= view_order_by_exprs(v@));
            return Some((q, v));
        }
        match parse_order_by_expr(toks, q + 1) {
            Some((r, x)) => {
                proof {
                    lemma_view_order_by_exprs_push(v@, x);
                    let (e, rest) = spec_order_by_tail(lexemes(toks@), r as int);
                    assert(view_order_by_exprs(v@) + (seq![x@] + rest) =~= view_order_by_exprs(v@).push(x@)
                        + rest);
                }
                v.push(x);
                q = r;
            },
            None => {
                assert(view_order_by_exprs(v@) + seq![] =~= view_order_by_exprs(v@));
                return Some((q, v));
            },
        }
    }
}

/// `LIMIT e OFFSET e`, `LIMIT e, e`, `LIMIT e` or `OFFSET e`.
fn parse_limit_offset_clause(toks: &[Token], p: usize) -> (r: Option<(usize, Option<Expr>, Option<Expr>)>)
    requires
        tokens_wf(toks@),
        literals_fit(toks@) || !big_limit_offset_clause(lexemes(toks@), p as int),
        p <= toks.len(),
    ensures
        match r {
            Some((q, l, o)) => spec_limit_offset_clause(lexemes(toks@), p as int) == Some(
                (q as int, view_opt_expr(l), view_opt_expr(o)),
            ) && p < q <= toks.len(),
            None => spec_limit_offset_clause(lexemes(toks@), p as int) is None,
        },
    decreases toks.len() - p, 0int,
{
    if kind_is(toks, p, TokenKind::LIMIT) {
        let (q, l) = match parse_expr(toks, p + 1) {
            Some(x) => x,
            None => return None,
        };
        if kind_is(toks, q, TokenKind::OFFSET) || kind_is(toks, q, TokenKind::Comma) {
            match parse_expr(toks, q + 1) {
                Some((r, o)) => Some((r, Some(l), Some(o))),
                None => Some((q, Some(l), None)),
            }
        } else {
            Some((q, Some(l), None))
        }
    } else if kind_is(toks, p, TokenKind::OFFSET) {
        match parse_expr(toks, p + 1) {
            Some((q, o)) => Some((q, None, Some(o))),
            None => None,
        }
    } else {
        None
    }
}

/// A query at the start of `i`.
#[verifier::rlimit(100)]
pub fn select_stmt<'a>(i: Input<'a>) -> (r: IResult<'a, SelectStatement>)
    requires
        tokens_wf(i@),
        literals_fit(i@) || !big_select_stmt(lexemes(i@), 0),
    ensures
        result_matches(i, r, spec_select_stmt(lexemes(i@), 0)),
        r matches Err(e) ==> e@ == select_stmt_error(lexemes(i@), 0),
{
    let res = parse_select_stmt(i, 0);
    if res.is_some() {
        return finish(i, res, "");
    }
    proof {
        lemma_big_select_stmt(lexemes(i@), 0);
    }
    let p1 = match parse_with_clause(i, 0) {
        Some((q, _)) => q,
        None => 0,
    };
    // The query failed, so its body fails where it starts; the branch that finds
    // otherwise cannot be taken.
    if parse_select_set_expr(i, p1).is_some() {
        return Err(PError(String::new()));
    }
    Err(PError(select_set_expr_error_at(i, p1)))
}

/// An ordering expression at the start of `i`.
pub fn order_by_expr<'a>(i: Input<'a>) -> (r: IResult<'a, OrderByExpr>)
    requires
        tokens_wf(i@),
        literals_fit(i@) || !big_order_by_expr(lexemes(i@), 0),
    ensures
        result_matches(i, r, spec_order_by_expr(lexemes(i@), 0)),
        r matches Err(e) ==> e@ == pratt_error(lexemes(i@), 0, 0),
{
    let res = parse_order_by_expr(i, 0);
    if res.is_some() {
        return finish(i, res, "");
    }
    // The order item failed, so its expression fails; the `Ok` branch cannot be taken.
    match parse_pratt(i, 0, MIN_PRECEDENCE) {
        Err(m) => Err(PError(m)),
        Ok(_) => Err(PError(String::new())),
    }
}

} // verus!
