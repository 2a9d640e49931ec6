//! Table references: a Pratt parser over tables, subqueries and joins.

use vstd::prelude::*;

use super::common::{advances, finish, kind_is, parse_ident, result_matches, step_matches, literals_fit, tokens_wf, view_res, MIN_PRECEDENCE};
use super::expr::parse_expr;
use super::reads::{big_join_condition, big_table_infix, big_table_pratt, big_table_pratt_loop, big_table_prefix, big_table_ref};
use super::grammar::{
    lexemes,
    spec_base_table, spec_join_condition, spec_join_operator, spec_table_alias, spec_table_infix, spec_table_name,
    spec_table_pratt, spec_table_pratt_loop, spec_table_pratt_operator, spec_table_precedence, spec_table_prefix,
    spec_table_ref, table_infix_error, table_prefix_error, table_pratt_error, table_pratt_loop_error, AffixKind,
    TablePrattOp,
};
use super::error::PError;
use super::statement::parse_select_stmt;
use super::token::{Token, TokenKind};
use super::{IResult, Input};
use crate::ast::table_ref::{JoinCondition, JoinOp, TableName, TableRef};
use crate::ast::Ident;

verus! {

/// The binding power of a table operator, or why it has none.
pub fn precedence(op: TablePrattOp, affix: AffixKind) -> (r: Result<u32, String>)
    ensures
        match spec_table_precedence(op, affix) {
            Some(bp) => r == Ok::<u32, String>(bp),
            None => r matches Err(m) && m@ == (match affix {
                AffixKind::Prefix => "pratt operator can't be treated as prefix"@,
                AffixKind::Infix => "pratt operator can't be treated as infix"@,
            }),
        },
{
    match affix {
        AffixKind::Prefix => match op {
            TablePrattOp::LParen => Ok(0),
            _ => Err(String::from_str("pratt operator can't be treated as prefix")),
        },
        AffixKind::Infix => match op {
            TablePrattOp::RParen => Ok(0),
            TablePrattOp::JoinOp(_) => Ok(1),
            _ => Err(String::from_str("pratt operator can't be treated as infix")),
        },
    }
}

/// The join keywords at `p`.
fn parse_join_operator(toks: &[Token], p: usize) -> (r: Option<(usize, JoinOp)>)
    ensures
        r matches Some((q, op)) ==> spec_join_operator(lexemes(toks@), p as int) == Some((q as int, op)) && p < q
            <= toks@.len(),
        r is None ==> spec_join_operator(lexemes(toks@), p as int) is None,
{
    if kind_is(toks, p, TokenKind::JOIN) {
        Some((p + 1, JoinOp::Inner))
    } else if kind_is(toks, p, TokenKind::INNER) && kind_is(toks, p + 1, TokenKind::JOIN) {
        Some((p + 2, JoinOp::Inner))
    } else if kind_is(toks, p, TokenKind::LEFT) && kind_is(toks, p + 1, TokenKind::JOIN) {
        Some((p + 2, JoinOp::LeftOuter))
    } else if kind_is(toks, p, TokenKind::LEFT) && kind_is(toks, p + 1, TokenKind::OUTER) && kind_is(
        toks,
        p + 2,
        TokenKind::JOIN,
    ) {
        Some((p + 3, JoinOp::LeftOuter))
    } else if kind_is(toks, p, TokenKind::RIGHT) && kind_is(toks, p + 1, TokenKind::JOIN) {
        Some((p + 2, JoinOp::RightOuter))
    } else if kind_is(toks, p, TokenKind::RIGHT) && kind_is(toks, p + 1, TokenKind::OUTER) && kind_is(
        toks,
        p + 2,
        TokenKind::JOIN,
    ) {
        Some((p + 3, JoinOp::LeftOuter))
    } else if kind_is(toks, p, TokenKind::FULL) && kind_is(toks, p + 1, TokenKind::JOIN) {
        Some((p + 2, JoinOp::FullOuter))
    } else if kind_is(toks, p, TokenKind::FULL) && kind_is(toks, p + 1, TokenKind::OUTER) && kind_is(
        toks,
        p + 2,
        TokenKind::JOIN,
    ) {
        Some((p + 3, JoinOp::FullOuter))
    } else if kind_is(toks, p, TokenKind::CROSS) && kind_is(toks, p + 1, TokenKind::JOIN) {
        Some((p + 2, JoinOp::CrossJoin))
    } else {
        None
    }
}

/// The table operator at `p`.
fn parse_table_pratt_operator(toks: &[Token], p: usize) -> (r: Option<(usize, TablePrattOp)>)
    ensures
        match r {
            Some((q, op)) => spec_table_pratt_operator(lexemes(toks@), p as int) == Some((q as int, op)),
            None => spec_table_pratt_operator(lexemes(toks@), p as int) is None,
        },
        r matches Some((q, _)) ==> p < q <= toks@.len(),
        spec_table_pratt_operator(lexemes(toks@), p as int) matches Some((q, _)) ==> p < q <= toks@.len(),
{
    if kind_is(toks, p, TokenKind::LParen) {
        Some((p + 1, TablePrattOp::LParen))
    } else if kind_is(toks, p, TokenKind::RParen) {
        Some((p + 1, TablePrattOp::RParen))
    } else {
        match parse_join_operator(toks, p) {
            Some((q, op)) => Some((q, TablePrattOp::JoinOp(op))),
            None => None,
        }
    }
}

/// `database . table` or `table`.
fn parse_table_name(toks: &[Token], p: usize) -> (r: Option<(usize, TableName)>)
    requires
        tokens_wf(toks@),
    ensures
        view_res(r) == spec_table_name(lexemes(toks@), p as int),
        advances(r, p as int, toks@.len() as int),
{
    let (p1, a) = match parse_ident(toks, p) {
        Some(x) => x,
        None => return None,
    };
    if kind_is(toks, p1, TokenKind::Dot) {
        match parse_ident(toks, p1 + 1) {
            Some((p2, b)) => return Some((p2, TableName { database: Some(a), table: b })),
            None => {},
        }
    }
    Some((p1, TableName { database: None, table: a }))
}

/// `AS alias` or `alias`.
fn parse_table_alias(toks: &[Token], p: usize) -> (r: Option<(usize, Ident)>)
    requires
        tokens_wf(toks@),
    ensures
        view_res(r) == spec_table_alias(lexemes(toks@), p as int),
        advances(r, p as int, toks@.len() as int),
{
    if kind_is(toks, p, TokenKind::AS) {
        match parse_ident(toks, p + 1) {
            Some(r) => return Some(r),
            None => {},
        }
    }
    parse_ident(toks, p)
}

/// `table_name [alias]`
fn parse_base_table(toks: &[Token], p: usize) -> (r: Option<(usize, TableRef)>)
    requires
        tokens_wf(toks@),
    ensures
        view_res(r) == spec_base_table(lexemes(toks@), p as int),
        advances(r, p as int, toks@.len() as int),
{
    let (p1, name) = match parse_table_name(toks, p) {
        Some(x) => x,
        None => return None,
    };
    match parse_table_alias(toks, p1) {
        Some((q, alias)) => Some((q, TableRef::BaseTable { name, alias: Some(alias) })),
        None => Some((p1, TableRef::BaseTable { name, alias: None })),
    }
}

pub fn parse_table_ref(toks: &[Token], p: usize) -> (r: Option<(usize, TableRef)>)
    requires
        tokens_wf(toks@),
        literals_fit(toks@) || !big_table_ref(lexemes(toks@), p as int),
        p <= toks.len(),
    ensures
        view_res(r) == spec_table_ref(lexemes(toks@), p as int),
        advances(r, p as int, toks@.len() as int),
    decreases toks.len() - p, 6int,
{
    match parse_table_pratt(toks, p, MIN_PRECEDENCE) {
        Ok(x) => Some(x),
        Err(_) => None,
    }
}

/// Pratt parsing: a prefix table reference, then joins binding more strongly than `lbp`.
fn parse_table_pratt(toks: &[Token], p: usize, lbp: u32) -> (r: Result<(usize, TableRef), String>)
    requires
        tokens_wf(toks@),
        literals_fit(toks@) || !big_table_pratt(lexemes(toks@), p as int, lbp),
        p <= toks.len(),
    ensures
        step_matches(r, spec_table_pratt(lexemes(toks@), p as int, lbp), table_pratt_error(lexemes(toks@), p as int, lbp), p as int, toks@.len() as int),
    decreases toks.len() - p, 5int,
{
    let (mut q, mut left) = match parse_table_prefix(toks, p) {
        Ok(x) => x,
        Err(m) => return Err(m),
    };
    loop
        invariant
            tokens_wf(toks@),
            literals_fit(toks@) || !big_table_pratt_loop(lexemes(toks@), q as int, left@, lbp),
            p < q <= toks.len(),
            spec_table_pratt(lexemes(toks@), p as int, lbp) == spec_table_pratt_loop(lexemes(toks@), q as int, left@, lbp),
            table_pratt_error(lexemes(toks@), p as int, lbp) == table_pratt_loop_error(lexemes(toks@), q as int, left@, lbp),
        decreases toks.len() - q,
    {
        let op = match parse_table_pratt_operator(toks, q) {
            Some((_, op)) => op,
            None => return Ok((q, left)),
        };
        let bp = match precedence(op, AffixKind::Infix) {
            Ok(bp) => bp,
            Err(_) => return Ok((q, left)),
        };
        if lbp >= bp {
            return Ok((q, left));
        }
        match parse_table_infix(toks, q, left) {
            Ok((r, t)) => {
                q = r;
                left = t;
            },
            Err(m) => return Err(m),
        }
    }
}

/// The join at `q` with `left` as its left side.
fn parse_table_infix(toks: &[Token], q: usize, left: TableRef) -> (r: Result<(usize, TableRef), String>)
    requires
        tokens_wf(toks@),
        literals_fit(toks@) || !big_table_infix(lexemes(toks@), q as int),
        q <= toks.len(),
    ensures
        step_matches(r, spec_table_infix(lexemes(toks@), q as int, left@), table_infix_error(lexemes(toks@), q as int), q as int, toks@.len() as int),
    decreases toks.len() - q, 2int,
{
    let (q1, op) = match parse_table_pratt_operator(toks, q) {
        Some((q1, TablePrattOp::JoinOp(op))) => (q1, op),
        Some(_) => return Err(String::from_str("The pratt operator can't be treated as infix")),
        None => return Err(String::from_str("No infix operator found")),
    };
    let (r, right) = match parse_table_pratt(toks, q1, 1) {
        Ok(x) => x,
        Err(m) => return Err(m),
    };
    match parse_join_condition(toks, r) {
        Some((s, condition)) => Ok((s, TableRef::Join { op, condition, left: Box::new(left), right: Box::new(right) })),
        None => Err(String::from_str("failed to parse join condition")),
    }
}

/// `ON expr`
fn parse_join_condition(toks: &[Token], p: usize) -> (r: Option<(usize, JoinCondition)>)
    requires
        tokens_wf(toks@),
        literals_fit(toks@) || !big_join_condition(lexemes(toks@), p as int),
        p <= toks.len(),
    ensures
        view_res(r) == spec_join_condition(lexemes(toks@), p as int),
        advances(r, p as int, toks@.len() as int),
    decreases toks.len() - p, 0int,
{
    if !kind_is(toks, p, TokenKind::ON) {
        return None;
    }
    match parse_expr(toks, p + 1) {
        Some((q, e)) => Some((q, JoinCondition::On(Box::new(e)))),
        None => None,
    }
}

/// The table reference that the prefix token at `p` starts.
fn parse_table_prefix(toks: &[Token], p: usize) -> (r: Result<(usize, TableRef), String>)
    requires
        tokens_wf(toks@),
        literals_fit(toks@) || !big_table_prefix(lexemes(toks@), p as int),
        p <= toks.len(),
    ensures
        step_matches(r, spec_table_prefix(lexemes(toks@), p as int), table_prefix_error(lexemes(toks@), p as int), p as int, toks@.len() as int),
    decreases toks.len() - p, 4int,
{
    if p >= toks.len() {
        return Err(String::from_str("No token found"));
    }
    match toks[p].kind {
        TokenKind::LParen => {
            let (q, t) = match parse_table_pratt(toks, p + 1, MIN_PRECEDENCE) {
                Ok(x) => x,
                Err(m) => return Err(m),
            };
            if !kind_is(toks, q, TokenKind::RParen) {
                return Err(String::from_str("Expect ')' token"));
            }
            match parse_table_alias(toks, q + 1) {
                Some((r, alias)) => match t {
                    TableRef::BaseTable { name, .. } => Ok((r, TableRef::BaseTable { name, alias: Some(alias) })),
                    TableRef::Subquery { subquery, .. } => Ok((r, TableRef::Subquery { subquery, alias: Some(alias) })),
                    TableRef::Join { .. } => Err(String::from_str("Joined table should not have an alias")),
                },
                None => Ok((q + 1, t)),
            }
        },
        TokenKind::SELECT => match parse_select_stmt(toks, p) {
            Some((q, s)) => Ok((q, TableRef::Subquery { subquery: Box::new(s), alias: None })),
            None => Err(String::from_str("can not find prefix subquery")),
        },
        TokenKind::Ident => match parse_base_table(toks, p) {
            Some(x) => Ok(x),
            None => Err(String::from_str("can not find prefix base table")),
        },
        _ => Err(String::from_str("First token can't be treated as prefix")),
    }
}

/// A table reference at the start of `i`.
#[verifier::rlimit(100)]
pub fn table_ref<'a>(i: Input<'a>) -> (r: IResult<'a, TableRef>)
    requires
        tokens_wf(i@),
        literals_fit(i@) || !big_table_ref(lexemes(i@), 0),
    ensures
        result_matches(i, r, spec_table_ref(lexemes(i@), 0)),
        r matches Err(e) ==> e@ == table_pratt_error(lexemes(i@), 0, 0),
{
    match parse_table_pratt(i, 0, MIN_PRECEDENCE) {
        Ok((q, t)) => {
            let (_, rest) = i.split_at(q);
            assert(rest@ =~= i@.subrange(i@.len() - rest@.len(), i@.len() as int));
            Ok((rest, t))
        },
        Err(m) => Err(PError(m)),
    }
}

} // verus!
