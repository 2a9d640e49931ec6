//! The SELECT body of a query with its clauses.

use vstd::prelude::*;

use super::common::{advances, finish, kind_is, parse_ident, parse_idents1, result_matches, text_is, literals_fit, tokens_wf, view_res, MIN_PRECEDENCE};
use super::error::PError;
use super::expr::{parse_expr, parse_exprs1, parse_pratt, parse_window_spec};
use super::reads::{big_keyword_expr, big_named_window_def, big_named_window_defs1, big_named_window_defs_tail, big_select_item, big_select_items1, big_select_items_tail, big_select_set_expr};
use super::grammar::{
    lexemes,
    spec_keyword_expr, spec_named_window_def, spec_named_window_defs1, spec_named_window_defs_tail,
    spec_paren_idents, spec_select_item, spec_select_items1, spec_select_items_tail, spec_select_set_expr,
    spec_wildcard_options, pratt_error, select_set_expr_error,
};
use super::table_ref::parse_table_ref;
use super::token::{Token, TokenKind};
use super::{IResult, Input};
use crate::ast::expr::{view_exprs, view_opt_expr, Expr};
use crate::ast::set_expr::{
    lemma_view_named_window_defs_push, lemma_view_select_items_push, view_named_window_defs, view_select_items,
    NamedWindowDef, SelectItem, SetExpr, WildcardOptions,
};
use crate::ast::{view_idents, Ident};

verus! {

/// `SELECT [DISTINCT] item, ... [FROM table_ref] [WHERE e] [GROUP BY e, ...] [HAVING e] [WINDOW def, ...]`
#[verifier::rlimit(100)]
pub fn parse_select_set_expr(toks: &[Token], p: usize) -> (r: Option<(usize, SetExpr)>)
    requires
        tokens_wf(toks@),
        literals_fit(toks@) || !big_select_set_expr(lexemes(toks@), p as int),
        p <= toks.len(),
    ensures
        view_res(r) == spec_select_set_expr(lexemes(toks@), p as int),
        advances(r, p as int, toks@.len() as int),
    decreases toks.len() - p, 0int,
{
    if !kind_is(toks, p, TokenKind::SELECT) {
        return None;
    }
    let distinct = kind_is(toks, p + 1, TokenKind::DISTINCT);
    let p1 = if distinct { p + 2 } else { p + 1 };
    let (p2, projection) = match parse_select_items1(toks, p1) {
        Some(x) => x,
        None => return None,
    };
    let (p3, from) = if kind_is(toks, p2, TokenKind::FROM) {
        match parse_table_ref(toks, p2 + 1) {
            Some((q, t)) => (q, Some(t)),
            None => (p2, None),
        }
    } else {
        (p2, None)
    };
    let (p4, selection) = parse_keyword_expr(toks, p3, TokenKind::WHERE);
    let (p5, group_by) = if kind_is(toks, p4, TokenKind::GROUP) && kind_is(toks, p4 + 1, TokenKind::BY) {
        match parse_exprs1(toks, p4 + 2) {
            Some(x) => x,
            None => (p4, Vec::new()),
        }
    } else {
        (p4, Vec::new())
    };
    let (p6, having) = parse_keyword_expr(toks, p5, TokenKind::HAVING);
    let (p7, named_windows) = if kind_is(toks, p6, TokenKind::WINDOW) {
        match parse_named_window_defs1(toks, p6 + 1) {
            Some(x) => x,
            None => (p6, Vec::new()),
        }
    } else {
        (p6, Vec::new())
    };
    assert(view_exprs(Seq::<Expr>::empty()) =~= seq![]);
    assert(view_named_window_defs(Seq::empty()) =~= seq![]);
    Some((p7, SetExpr::Select { distinct, projection, from, selection, group_by, having, named_windows }))
}

/// An optional `keyword expr` clause.
fn parse_keyword_expr(toks: &[Token], p: usize, k: TokenKind) -> (r: (usize, Option<Expr>))
    requires
        tokens_wf(toks@),
        literals_fit(toks@) || !big_keyword_expr(lexemes(toks@), p as int, k),
        p <= toks.len(),
    ensures
        spec_keyword_expr(lexemes(toks@), p as int, k) == (r.0 as int, view_opt_expr(r.1)),
        p <= r.0 <= toks.len(),
    decreases toks.len() - p, 0int,
{
    if kind_is(toks, p, k) {
        match parse_expr(toks, p + 1) {
            Some((q, e)) => (q, Some(e)),
            None => (p, None),
        }
    } else {
        (p, None)
    }
}

/// An optional `keyword ( ident, ... )`.
fn parse_paren_idents(toks: &[Token], p: usize, k: TokenKind) -> (r: (usize, Vec<Ident>))
    requires
        tokens_wf(toks@),
        p <= toks.len(),
    ensures
        spec_paren_idents(lexemes(toks@), p as int, k) == (r.0 as int, view_idents(r.1@)),
        p <= r.0 <= toks.len(),
{
    if kind_is(toks, p, k) && kind_is(toks, p + 1, TokenKind::LParen) {
        match parse_idents1(toks, p + 2) {
            Some((q, l)) => if kind_is(toks, q, TokenKind::RParen) {
                return (q + 1, l);
            },
            None => {},
        }
    }
    let v: Vec<Ident> = Vec::new();
    assert(view_idents(v@) =~= seq![]);
    (p, v)
}

/// `[EXCLUDE ( ident, ... )] [EXCEPT ( ident, ... )]`
fn parse_wildcard_options(toks: &[Token], p: usize) -> (r: (usize, WildcardOptions))
    requires
        tokens_wf(toks@),
        p <= toks.len(),
    ensures
        spec_wildcard_options(lexemes(toks@), p as int) == (r.0 as int, r.1@),
        p <= r.0 <= toks.len(),
{
    let (p1, exclude) = parse_paren_idents(toks, p, TokenKind::EXCLUDE);
    let (p2, except) = parse_paren_idents(toks, p1, TokenKind::EXCEPT);
    (p2, WildcardOptions { exclude, except })
}

/// `* options`, `expr AS alias` or `expr`.
fn parse_select_item(toks: &[Token], p: usize) -> (r: Option<(usize, SelectItem)>)
    requires
        tokens_wf(toks@),
        literals_fit(toks@) || !big_select_item(lexemes(toks@), p as int),
        p <= toks.len(),
    ensures
        view_res(r) == spec_select_item(lexemes(toks@), p as int),
        advances(r, p as int, toks@.len() as int),
    decreases toks.len() - p, 7int,
{
    if text_is(toks, p, "*") {
        let (q, o) = parse_wildcard_options(toks, p + 1);
        return Some((q, SelectItem::Wildcard(o)));
    }
    let (q, e) = match parse_expr(toks, p) {
        Some(x) => x,
        None => return None,
    };
    if kind_is(toks, q, TokenKind::AS) {
        match parse_ident(toks, q + 1) {
            Some((r, alias)) => Some((r, SelectItem::ExprWithAlias { expr: e, alias })),
            None => Some((q, SelectItem::UnnamedExpr(e))),
        }
    } else {
        Some((q, SelectItem::UnnamedExpr(e)))
    }
}

/// One or more select items separated by `,`.
fn parse_select_items1(toks: &[Token], p: usize) -> (r: Option<(usize, Vec<SelectItem>)>)
    requires
        tokens_wf(toks@),
        literals_fit(toks@) || !big_select_items1(lexemes(toks@), p as int),
        p <= toks.len(),
    ensures
        match r {
            Some((q, v)) => spec_select_items1(lexemes(toks@), p as int) == Some((q as int, view_select_items(v@)))
                && p < q <= toks.len(),
            None => spec_select_items1(lexemes(toks@), p as int) is None,
        },
    decreases toks.len() - p, 8int,
{
    let (mut q, first) = match parse_select_item(toks, p) {
        Some(x) => x,
        None => return None,
    };
    let mut v: Vec<SelectItem> = Vec::new();
    proof {
        lemma_view_select_items_push(v@, first);
    }
    v.push(first);
    assert(view_select_items(v@) =~= seq![first@]);
    loop
        invariant
            tokens_wf(toks@),
            literals_fit(toks@) || !big_select_items_tail(lexemes(toks@), q as int),
            p < q <= toks.len(),
            spec_select_items1(lexemes(toks@), p as int) == Some(
                (
                    spec_select_items_tail(lexemes(toks@), q as int).0,
                    view_select_items(v@) + spec_select_items_tail(lexemes(toks@), q as int).1,
                ),
            ),
        decreases toks.len() - q,
    {
        let sep = text_is(toks, q, ",");
        if !sep {
            assert(view_select_items(v@) + seq![] =~= view_select_items(v@));
            return Some((q, v));
        }
        match parse_select_item(toks, q + 1) {
            Some((r, x)) => {
                proof {
                    lemma_view_select_items_push(v@, x);
                    let (e, rest) = spec_select_items_tail(lexemes(toks@), r as int);
                    assert(view_select_items(v@) + (seq![x@] + rest) =~= view_select_items(v@).push(x@)
                        + rest);
                }
                v.push(x);
                q = r;
            },
            None => {
                assert(view_select_items(v@) + seq![] =~= view_select_items(v@));
                return Some((q, v));
            },
        }
    }
}

/// `name AS ( window_spec )`
fn parse_named_window_def(toks: &[Token], p: usize) -> (r: Option<(usize, NamedWindowDef)>)
    requires
        tokens_wf(toks@),
        literals_fit(toks@) || !big_named_window_def(lexemes(toks@), p as int),
        p <= toks.len(),
    ensures
        view_res(r) == spec_named_window_def(lexemes(toks@), p as int),
        advances(r, p as int, toks@.len() as int),
    decreases toks.len() - p, 0int,
{
    let (p1, name) = match parse_ident(toks, p) {
        Some(x) => x,
        None => return None,
    };
    if !(kind_is(toks, p1, TokenKind::AS) && kind_is(toks, p1 + 1, TokenKind::LParen)) {
        return None;
    }
    let (q, spec) = parse_window_spec(toks, p1 + 2);
    if kind_is(toks, q, TokenKind::RParen) {
        Some((q + 1, NamedWindowDef { name, spec }))
    } else {
        None
    }
}

/// One or more named window definitions separated by `,`.
fn parse_named_window_defs1(toks: &[Token], p: usize) -> (r: Option<(usize, Vec<NamedWindowDef>)>)
    requires
        tokens_wf(toks@),
        literals_fit(toks@) || !big_named_window_defs1(lexemes(toks@), p as int),
        p <= toks.len(),
    ensures
        match r {
            Some((q, v)) => spec_named_window_defs1(lexemes(toks@), p as int) == Some(
                (q as int, view_named_window_defs(v@)),
            ) && p < q <= toks.len(),
            None => spec_named_window_defs1(lexemes(toks@), p as int) is None,
        },
    decreases toks.len() - p, 1int,
{
    let (mut q, first) = match parse_named_window_def(toks, p) {
        Some(x) => x,
        None => return None,
    };
    let mut v: Vec<NamedWindowDef> = Vec::new();
    proof {
        lemma_view_named_window_defs_push(v@, first);
    }
    v.push(first);
    assert(view_named_window_defs(v@) =~= seq![first@]);
    loop
        invariant
            tokens_wf(toks@),
            literals_fit(toks@) || !big_named_window_defs_tail(lexemes(toks@), q as int),
            p < q <= toks.len(),
            spec_named_window_defs1(lexemes(toks@), p as int) == Some(
                (
                    spec_named_window_defs_tail(lexemes(toks@), q as int).0,
                    view_named_window_defs(v@) + spec_named_window_defs_tail(lexemes(toks@), q as int).1,
                ),
            ),
        decreases toks.len() - q,
    {
        let sep = text_is(toks, q, ",");
        if !sep {
            assert(view_named_window_defs(v@) + seq![] =~= view_named_window_defs(v@));
            return Some((q, v));
        }
        match parse_named_window_def(toks, q + 1) {
            Some((r, x)) => {
                proof {
                    lemma_view_named_window_defs_push(v@, x);
                    let (e, rest) = spec_named_window_defs_tail(lexemes(toks@), r as int);
                    assert(view_named_window_defs(v@) + (seq![x@] + rest) =~= view_named_window_defs(v@).push(
                        x@,
                    ) + rest);
                }
                v.push(x);
                q = r;
            },
            None => {
                assert(view_named_window_defs(v@) + seq![] =~= view_named_window_defs(v@));
                return Some((q, v));
            },
        }
    }
}

/// The error text of a SELECT body that fails at `p`.
pub fn select_set_expr_error_at(toks: &[Token], p: usize) -> (m: String)
    requires
        tokens_wf(toks@),
        literals_fit(toks@) || !big_select_set_expr(lexemes(toks@), p as int),
        p <= toks.len(),
        spec_select_set_expr(lexemes(toks@), p as int) is None,
    ensures
        m@ == select_set_expr_error(lexemes(toks@), p as int),
{
    if !kind_is(toks, p, TokenKind::SELECT) {
        let mut m = String::from_str("token kind ");
        m.append(TokenKind::SELECT.name());
        m.append(" does not match");
        return m;
    }
    let p1 = if kind_is(toks, p + 1, TokenKind::DISTINCT) {
        p + 2
    } else {
        p + 1
    };
    // The body failed, so its first item fails too; the item's error is that of
    // its expression. The branches that find otherwise cannot be taken.
    if parse_select_items1(toks, p1).is_some() {
        return String::new();
    }
    if parse_select_item(toks, p1).is_some() {
        return String::new();
    }
    match parse_pratt(toks, p1, MIN_PRECEDENCE) {
        Err(m) => m,
        Ok(_) => String::new(),
    }
}

/// The SELECT body of a query at the start of `i`.
pub fn select_set_expr<'a>(i: Input<'a>) -> (r: IResult<'a, SetExpr>)
    requires
        tokens_wf(i@),
        literals_fit(i@) || !big_select_set_expr(lexemes(i@), 0),
    ensures
        result_matches(i, r, spec_select_set_expr(lexemes(i@), 0)),
        r matches Err(e) ==> e@ == select_set_expr_error(lexemes(i@), 0),
{
    let res = parse_select_set_expr(i, 0);
    if res.is_none() {
        return Err(PError(select_set_expr_error_at(i, 0)));
    }
    finish(i, res, "")
}

/// A select item at the start of `i`.
pub fn select_item<'a>(i: Input<'a>) -> (r: IResult<'a, SelectItem>)
    requires
        tokens_wf(i@),
        literals_fit(i@) || !big_select_item(lexemes(i@), 0),
    ensures
        result_matches(i, r, spec_select_item(lexemes(i@), 0)),
        r matches Err(e) ==> e@ == pratt_error(lexemes(i@), 0, 0),
{
    let res = parse_select_item(i, 0);
    if res.is_some() {
        return finish(i, res, "");
    }
    // The item failed, so its expression fails; the `Ok` branch cannot be taken.
    match parse_pratt(i, 0, MIN_PRECEDENCE) {
        Err(m) => Err(PError(m)),
        Ok(_) => Err(PError(String::new())),
    }
}

} // verus!
