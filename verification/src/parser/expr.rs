//! Expressions: a Pratt parser over prefix expressions and infix operators.

use vstd::prelude::*;

use super::common::{advances, finish, kind_is, parse_decimal, parse_ident, result_matches, step_matches, text_is, token_wf, literal_fits, literals_fit, tokens_wf, view_res, MIN_PRECEDENCE};
use super::reads::{big_exists_expr, big_expr, big_exprs0, big_exprs1, big_exprs_tail, big_function_arg, big_function_args0, big_function_args_tail, big_function_expr, big_in_rest, big_infix, big_pratt, big_pratt_loop, big_prefix, big_select_stmt, big_window, big_window_spec, lemma_big_exists_expr, lemma_big_in_rest};
use super::grammar::{
    lexemes,
    binary_rest, spec_column_ref, spec_exists_expr, spec_expr, spec_exprs0, spec_exprs1, spec_exprs_tail,
    spec_function_arg, spec_function_args0, spec_function_args_tail, spec_function_expr, spec_in_rest,
    spec_infix, spec_prefix, spec_pratt, spec_pratt_loop, spec_pratt_operator, spec_precedence, spec_window,
    spec_window_spec, unary_rest, AffixKind, PrattOp, infix_error, pratt_error, pratt_loop_error, prefix_error, function_expr_error,
};
use super::error::PError;
use super::statement::{parse_order_by_list1, parse_select_stmt};
use super::token::{text_of, Token, TokenKind};
use super::{IResult, Input};
use crate::ast::expr::{
    lemma_view_exprs_push, lemma_view_function_args_push, view_exprs, view_function_args, BinaryOp, Expr,
    FunctionArg, Literal, UnaryOp, Window, WindowSpec,
};
use crate::ast::statement::view_order_by_exprs;

verus! {

/// The name of an operator, as written in its declaration.
pub open spec fn op_name(op: PrattOp) -> Seq<char> {
    match op {
        PrattOp::Plus => "Plus"@,
        PrattOp::Minus => "Minus"@,
        PrattOp::Multiply => "Multiply"@,
        PrattOp::Divide => "Divide"@,
        PrattOp::Gt => "Gt"@,
        PrattOp::Lt => "Lt"@,
        PrattOp::GtEq => "GtEq"@,
        PrattOp::LtEq => "LtEq"@,
        PrattOp::Eq => "Eq"@,
        PrattOp::NotEq => "NotEq"@,
        PrattOp::And => "And"@,
        PrattOp::Or => "Or"@,
        PrattOp::In => "In"@,
    }
}

fn op_name_str(op: PrattOp) -> (s: &'static str)
    ensures
        s@ == op_name(op),
{
    match op {
        PrattOp::Plus => "Plus",
        PrattOp::Minus => "Minus",
        PrattOp::Multiply => "Multiply",
        PrattOp::Divide => "Divide",
        PrattOp::Gt => "Gt",
        PrattOp::Lt => "Lt",
        PrattOp::GtEq => "GtEq",
        PrattOp::LtEq => "LtEq",
        PrattOp::Eq => "Eq",
        PrattOp::NotEq => "NotEq",
        PrattOp::And => "And",
        PrattOp::Or => "Or",
        PrattOp::In => "In",
    }
}

/// The binding power of an operator, or why it has none.
pub fn precedence(op: PrattOp, affix: AffixKind) -> (r: Result<u32, String>)
    ensures
        match spec_precedence(op, affix) {
            Some(bp) => r == Ok::<u32, String>(bp),
            None => r matches Err(m) && m@ == "pratt op "@ + op_name(op) + " can't be treated as prefix"@,
        },
{
    match affix {
        AffixKind::Prefix => match op {
            PrattOp::Plus | PrattOp::Minus => Ok(300),
            _ => {
                let mut m = String::from_str("pratt op ");
                m.append(op_name_str(op));
                m.append(" can't be treated as prefix");
                Err(m)
            },
        },
        AffixKind::Infix => match op {
            PrattOp::In => Ok(7),
            PrattOp::Or => Ok(8),
            PrattOp::And => Ok(9),
            PrattOp::Gt | PrattOp::Lt | PrattOp::GtEq | PrattOp::LtEq | PrattOp::Eq
            | PrattOp::NotEq => Ok(10),
            PrattOp::Plus | PrattOp::Minus => Ok(11),
            PrattOp::Multiply | PrattOp::Divide => Ok(12),
        },
    }
}

/// The operator that the tokens at `p` begin with.
pub fn pratt_operator(toks: &[Token], p: usize) -> (r: Option<PrattOp>)
    ensures
        r == spec_pratt_operator(lexemes(toks@), p as int),
{
    if p >= toks.len() {
        return None;
    }
    match toks[p].kind {
        TokenKind::Plus => Some(PrattOp::Plus),
        TokenKind::Minus => Some(PrattOp::Minus),
        TokenKind::Multiply => Some(PrattOp::Multiply),
        TokenKind::Gt => Some(PrattOp::Gt),
        TokenKind::Lt => Some(PrattOp::Lt),
        TokenKind::GtEq => Some(PrattOp::GtEq),
        TokenKind::LtEq => Some(PrattOp::LtEq),
        TokenKind::Eq => Some(PrattOp::Eq),
        TokenKind::NotEq => Some(PrattOp::NotEq),
        TokenKind::AND => Some(PrattOp::And),
        TokenKind::OR => Some(PrattOp::Or),
        TokenKind::IN => Some(PrattOp::In),
        TokenKind::NOT => if kind_is(toks, p + 1, TokenKind::IN) {
            Some(PrattOp::In)
        } else {
            None
        },
        _ => None,
    }
}

pub fn parse_expr(toks: &[Token], p: usize) -> (r: Option<(usize, Expr)>)
    requires
        tokens_wf(toks@),
        literals_fit(toks@) || !big_expr(lexemes(toks@), p as int),
        p <= toks.len(),
    ensures
        view_res(r) == spec_expr(lexemes(toks@), p as int),
        advances(r, p as int, toks@.len() as int),
    decreases toks.len() - p, 6int,
{
    match parse_pratt(toks, p, MIN_PRECEDENCE) {
        Ok(x) => Some(x),
        Err(_) => None,
    }
}

/// Pratt parsing: a prefix expression, then infix operators binding more strongly than `lbp`.
pub fn parse_pratt(toks: &[Token], p: usize, lbp: u32) -> (r: Result<(usize, Expr), String>)
    requires
        tokens_wf(toks@),
        literals_fit(toks@) || !big_pratt(lexemes(toks@), p as int, lbp),
        p <= toks.len(),
    ensures
        step_matches(r, spec_pratt(lexemes(toks@), p as int, lbp), pratt_error(lexemes(toks@), p as int, lbp), p as int, toks@.len() as int),
    decreases toks.len() - p, 5int,
{
    let (mut q, mut left) = match parse_prefix(toks, p) {
        Ok(x) => x,
        Err(m) => return Err(m),
    };
    loop
        invariant
            tokens_wf(toks@),
            literals_fit(toks@) || !big_pratt_loop(lexemes(toks@), q as int, left@, lbp),
            p < q <= toks.len(),
            spec_pratt(lexemes(toks@), p as int, lbp) == spec_pratt_loop(lexemes(toks@), q as int, left@, lbp),
            pratt_error(lexemes(toks@), p as int, lbp) == pratt_loop_error(lexemes(toks@), q as int, left@, lbp),
        decreases toks.len() - q,
    {
        let op = match pratt_operator(toks, q) {
            Some(op) => op,
            None => return Ok((q, left)),
        };
        let bp = match precedence(op, AffixKind::Infix) {
            Ok(bp) => bp,
            Err(_) => return Ok((q, left)),
        };
        if lbp >= bp {
            return Ok((q, left));
        }
        match parse_infix(toks, q, left) {
            Ok((r, e)) => {
                q = r;
                left = e;
            },
            Err(m) => return Err(m),
        }
    }
}

fn parse_binary_rest(toks: &[Token], q: usize, left: Expr, op: BinaryOp, bp: u32) -> (r: Result<(usize, Expr), String>)
    requires
        tokens_wf(toks@),
        literals_fit(toks@) || !big_pratt(lexemes(toks@), q + 1, bp),
        q < toks.len(),
    ensures
        step_matches(r, binary_rest(lexemes(toks@), q as int, left@, op, bp), pratt_error(lexemes(toks@), q + 1, bp), q as int, toks@.len() as int),
    decreases toks.len() - q, 1int,
{
    match parse_pratt(toks, q + 1, bp) {
        Ok((r, right)) => Ok((r, Expr::BinaryOp { left: Box::new(left), op, right: Box::new(right) })),
        Err(m) => Err(m),
    }
}

/// The infix or postfix operator at `q` applied to `left`.
fn parse_infix(toks: &[Token], q: usize, left: Expr) -> (r: Result<(usize, Expr), String>)
    requires
        tokens_wf(toks@),
        literals_fit(toks@) || !big_infix(lexemes(toks@), q as int),
        q <= toks.len(),
    ensures
        step_matches(r, spec_infix(lexemes(toks@), q as int, left@), infix_error(lexemes(toks@), q as int), q as int, toks@.len() as int),
    decreases toks.len() - q, 2int,
{
    if q >= toks.len() {
        return Err(String::from_str("No token found"));
    }
    match toks[q].kind {
        TokenKind::Plus => parse_binary_rest(toks, q, left, BinaryOp::Add, 11),
        TokenKind::Minus => parse_binary_rest(toks, q, left, BinaryOp::Sub, 11),
        TokenKind::Multiply => parse_binary_rest(toks, q, left, BinaryOp::Mul, 12),
        TokenKind::Divide => parse_binary_rest(toks, q, left, BinaryOp::Div, 12),
        TokenKind::Gt => parse_binary_rest(toks, q, left, BinaryOp::Gt, 10),
        TokenKind::Lt => parse_binary_rest(toks, q, left, BinaryOp::Lt, 10),
        TokenKind::GtEq => parse_binary_rest(toks, q, left, BinaryOp::GtEq, 10),
        TokenKind::LtEq => parse_binary_rest(toks, q, left, BinaryOp::LtEq, 10),
        TokenKind::Eq => parse_binary_rest(toks, q, left, BinaryOp::Eq, 10),
        TokenKind::NotEq => parse_binary_rest(toks, q, left, BinaryOp::NotEq, 10),
        TokenKind::AND => parse_binary_rest(toks, q, left, BinaryOp::And, 9),
        TokenKind::OR => parse_binary_rest(toks, q, left, BinaryOp::Or, 8),
        TokenKind::IN => match parse_in_rest(toks, q + 1, left, false) {
            Some(x) => Ok(x),
            None => Err(String::from_str("Failed to parse InSubquery or InList")),
        },
        TokenKind::NOT => if kind_is(toks, q + 1, TokenKind::IN) {
            match parse_in_rest(toks, q + 2, left, true) {
                Some(x) => Ok(x),
                None => Err(String::from_str("Failed to parse InSubquery or InList")),
            }
        } else if q + 1 < toks.len() {
            let mut m = String::from_str("Not support pratt operator: not ");
            m.append(toks[q + 1].kind.name());
            Err(m)
        } else {
            Err(String::from_str("No token found"))
        },
        _ => Err(String::from_str("The token can't be treated as infix")),
    }
}

/// `( select_stmt )` or `( expr, ... )` after `[NOT] IN`.
#[verifier::rlimit(100)]
fn parse_in_rest(toks: &[Token], p: usize, left: Expr, not: bool) -> (r: Option<(usize, Expr)>)
    requires
        tokens_wf(toks@),
        literals_fit(toks@) || !big_in_rest(lexemes(toks@), p as int),
        p <= toks.len(),
    ensures
        view_res(r) == spec_in_rest(lexemes(toks@), p as int, left@, not),
        advances(r, p as int, toks@.len() as int),
    decreases toks.len() - p, 0int,
{
    if !kind_is(toks, p, TokenKind::LParen) {
        return None;
    }
    proof {
        if !big_in_rest(lexemes(toks@), p as int) {
            lemma_big_in_rest(lexemes(toks@), p as int);
        }
    }
    match parse_select_stmt(toks, p + 1) {
        Some((q, s)) => {
            if kind_is(toks, q, TokenKind::RParen) {
                return Some((q + 1, Expr::InSubquery { not, expr: Box::new(left), subquery: Box::new(s) }));
            }
        },
        None => {},
    }
    match parse_exprs0(toks, p + 1) {
        Some((q, l)) => if kind_is(toks, q, TokenKind::RParen) {
            Some((q + 1, Expr::InList { not, expr: Box::new(left), list: l }))
        } else {
            None
        },
        None => None,
    }
}

fn parse_unary_rest(toks: &[Token], p: usize, op: UnaryOp) -> (r: Result<(usize, Expr), String>)
    requires
        tokens_wf(toks@),
        literals_fit(toks@) || !big_pratt(lexemes(toks@), p + 1, 300),
        p < toks.len(),
    ensures
        step_matches(r, unary_rest(lexemes(toks@), p as int, op), pratt_error(lexemes(toks@), p + 1, 300), p as int, toks@.len() as int),
    decreases toks.len() - p, 0int,
{
    let pop = match op {
        UnaryOp::Plus => PrattOp::Plus,
        UnaryOp::Minus => PrattOp::Minus,
    };
    let bp = match precedence(pop, AffixKind::Prefix) {
        Ok(bp) => bp,
        Err(m) => return Err(m),
    };
    match parse_pratt(toks, p + 1, bp) {
        Ok((q, e)) => Ok((q, Expr::UnaryOp { op, expr: Box::new(e) })),
        Err(m) => Err(m),
    }
}

/// The expression that the prefix token at `p` starts.
#[verifier::rlimit(50)]
fn parse_prefix(toks: &[Token], p: usize) -> (r: Result<(usize, Expr), String>)
    requires
        tokens_wf(toks@),
        literals_fit(toks@) || !big_prefix(lexemes(toks@), p as int),
        p <= toks.len(),
    ensures
        step_matches(r, spec_prefix(lexemes(toks@), p as int), prefix_error(lexemes(toks@), p as int), p as int, toks@.len() as int),
    decreases toks.len() - p, 4int,
{
    if p >= toks.len() {
        return Err(String::from_str("No token found"));
    }
    match toks[p].kind {
        TokenKind::LParen => match parse_pratt(toks, p + 1, MIN_PRECEDENCE) {
            Ok((q, e)) => if kind_is(toks, q, TokenKind::RParen) {
                Ok((q + 1, e))
            } else {
                Err(String::from_str("Expect ')' token"))
            },
            Err(m) => Err(m),
        },
        TokenKind::LiteralInteger => {
            assert(token_wf(toks@[p as int]));
            assert(literal_fits(toks@[p as int]));
            let n = parse_decimal(toks[p].text().as_bytes());
            Ok((p + 1, Expr::Literal(Literal::UnsignedInteger(n))))
        },
        TokenKind::Ident => match parse_function_expr(toks, p) {
            Some(r) => Ok(r),
            None => match parse_column_ref(toks, p) {
                Some(r) => Ok(r),
                None => Err(String::from_str("can not find prefix expr")),
            },
        },
        TokenKind::NOT | TokenKind::EXISTS => match parse_exists_expr(toks, p) {
            Some(r) => Ok(r),
            None => Err(String::from_str("can not find prefix expr")),
        },
        TokenKind::Plus => parse_unary_rest(toks, p, UnaryOp::Plus),
        TokenKind::Minus => parse_unary_rest(toks, p, UnaryOp::Minus),
        TokenKind::SELECT => match parse_select_stmt(toks, p) {
            Some((q, s)) => Ok((q, Expr::Subquery(Box::new(s)))),
            None => Err(String::from_str("can not parse select statement")),
        },
        _ => Err(String::from_str("First token can't be treated as prefix")),
    }
}

/// `ident . ident . ident`, `ident . ident` or `ident`.
pub fn parse_column_ref(toks: &[Token], p: usize) -> (r: Option<(usize, Expr)>)
    requires
        tokens_wf(toks@),
    ensures
        view_res(r) == spec_column_ref(lexemes(toks@), p as int),
        advances(r, p as int, toks@.len() as int),
{
    let (p1, a) = match parse_ident(toks, p) {
        Some(x) => x,
        None => return None,
    };
    if !kind_is(toks, p1, TokenKind::Dot) {
        return Some((p1, Expr::ColumnRef { database: None, table: None, column: a }));
    }
    let (p2, b) = match parse_ident(toks, p1 + 1) {
        Some(x) => x,
        None => return Some((p1, Expr::ColumnRef { database: None, table: None, column: a })),
    };
    if !kind_is(toks, p2, TokenKind::Dot) {
        return Some((p2, Expr::ColumnRef { database: None, table: Some(a), column: b }));
    }
    match parse_ident(toks, p2 + 1) {
        Some((p3, c)) => Some((p3, Expr::ColumnRef { database: Some(a), table: Some(b), column: c })),
        None => Some((p2, Expr::ColumnRef { database: None, table: Some(a), column: b })),
    }
}

/// `name ( [DISTINCT] arg, ... ) [window]`
pub fn parse_function_expr(toks: &[Token], p: usize) -> (r: Option<(usize, Expr)>)
    requires
        tokens_wf(toks@),
        literals_fit(toks@) || !big_function_expr(lexemes(toks@), p as int),
        p <= toks.len(),
    ensures
        view_res(r) == spec_function_expr(lexemes(toks@), p as int),
        advances(r, p as int, toks@.len() as int),
    decreases toks.len() - p, 1int,
{
    let (p1, name) = match parse_ident(toks, p) {
        Some(x) => x,
        None => return None,
    };
    if !kind_is(toks, p1, TokenKind::LParen) {
        return None;
    }
    let distinct = kind_is(toks, p1 + 1, TokenKind::DISTINCT);
    let p2 = if distinct { p1 + 2 } else { p1 + 1 };
    let (p3, args) = match parse_function_args0(toks, p2) {
        Some(x) => x,
        None => return None,
    };
    if !kind_is(toks, p3, TokenKind::RParen) {
        return None;
    }
    match parse_window(toks, p3 + 1) {
        Some((p4, w)) => Some((p4, Expr::Function { name, distinct, args, over: Some(w) })),
        None => Some((p3 + 1, Expr::Function { name, distinct, args, over: None })),
    }
}

/// `*` or an expression.
fn parse_function_arg(toks: &[Token], p: usize) -> (r: Option<(usize, FunctionArg)>)
    requires
        tokens_wf(toks@),
        literals_fit(toks@) || !big_function_arg(lexemes(toks@), p as int),
        p <= toks.len(),
    ensures
        view_res(r) == spec_function_arg(lexemes(toks@), p as int),
        advances(r, p as int, toks@.len() as int),
    decreases toks.len() - p, 7int,
{
    if kind_is(toks, p, TokenKind::Multiply) {
        return Some((p + 1, FunctionArg::Wildcard));
    }
    match parse_expr(toks, p) {
        Some((q, e)) => Some((q, FunctionArg::Expr(e))),
        None => None,
    }
}

/// Zero or more function arguments separated by `,`.
fn parse_function_args0(toks: &[Token], p: usize) -> (r: Option<(usize, Vec<FunctionArg>)>)
    requires
        tokens_wf(toks@),
        literals_fit(toks@) || !big_function_args0(lexemes(toks@), p as int),
        p <= toks.len(),
    ensures
        match r {
            Some((q, v)) => spec_function_args0(lexemes(toks@), p as int) == Some((q as int, view_function_args(v@)))
                && p <= q <= toks.len(),
            None => spec_function_args0(lexemes(toks@), p as int) is None,
        },
    decreases toks.len() - p, 8int,
{
    let mut v: Vec<FunctionArg> = Vec::new();
    let (mut q, first) = match parse_function_arg(toks, p) {
        Some(x) => x,
        None => {
            assert(view_function_args(v@) =~= seq![]);
            return Some((p, v));
        },
    };
    proof {
        lemma_view_function_args_push(v@, first);
    }
    v.push(first);
    assert(view_function_args(v@) =~= seq![first@]);
    loop
        invariant
            tokens_wf(toks@),
            literals_fit(toks@) || !big_function_args_tail(lexemes(toks@), q as int),
            p < q <= toks.len(),
            spec_function_args0(lexemes(toks@), p as int) == Some(
                (
                    spec_function_args_tail(lexemes(toks@), q as int).0,
                    view_function_args(v@) + spec_function_args_tail(lexemes(toks@), q as int).1,
                ),
            ),
        decreases toks.len() - q,
    {
        let sep = text_is(toks, q, ",");
        if !sep {
            assert(view_function_args(v@) + seq![] =~= view_function_args(v@));
            return Some((q, v));
        }
        match parse_function_arg(toks, q + 1) {
            Some((r, x)) => {
                proof {
                    lemma_view_function_args_push(v@, x);
                    let (e, rest) = spec_function_args_tail(lexemes(toks@), r as int);
                    assert(view_function_args(v@) + (seq![x@] + rest) =~= view_function_args(v@).push(x@) + rest);
                }
                v.push(x);
                q = r;
            },
            None => {
                assert(view_function_args(v@) + seq![] =~= view_function_args(v@));
                return Some((q, v));
            },
        }
    }
}

/// `[NOT] EXISTS ( select_stmt )`
#[verifier::rlimit(100)]
fn parse_exists_expr(toks: &[Token], p: usize) -> (r: Option<(usize, Expr)>)
    requires
        tokens_wf(toks@),
        literals_fit(toks@) || !big_exists_expr(lexemes(toks@), p as int),
        p <= toks.len(),
    ensures
        view_res(r) == spec_exists_expr(lexemes(toks@), p as int),
        advances(r, p as int, toks@.len() as int),
    decreases toks.len() - p, 0int,
{
    let not = kind_is(toks, p, TokenKind::NOT);
    let p1 = if not { p + 1 } else { p };
    if !(kind_is(toks, p1, TokenKind::EXISTS) && kind_is(toks, p1 + 1, TokenKind::LParen)) {
        return None;
    }
    proof {
        if !big_exists_expr(lexemes(toks@), p as int) {
            lemma_big_exists_expr(lexemes(toks@), p as int, p1 as int);
        }
    }
    match parse_select_stmt(toks, p1 + 2) {
        Some((q, s)) => if kind_is(toks, q, TokenKind::RParen) {
            Some((q + 1, Expr::Exists { not, subquery: Box::new(s) }))
        } else {
            None
        },
        None => None,
    }
}

/// `OVER name` or `OVER ( window_spec )`
fn parse_window(toks: &[Token], p: usize) -> (r: Option<(usize, Window)>)
    requires
        tokens_wf(toks@),
        literals_fit(toks@) || !big_window(lexemes(toks@), p as int),
        p <= toks.len(),
    ensures
        view_res(r) == spec_window(lexemes(toks@), p as int),
        advances(r, p as int, toks@.len() as int),
    decreases toks.len() - p, 0int,
{
    if !kind_is(toks, p, TokenKind::OVER) {
        return None;
    }
    match parse_ident(toks, p + 1) {
        Some((q, name)) => return Some((q, Window::WindowRef(name))),
        None => {},
    }
    if !kind_is(toks, p + 1, TokenKind::LParen) {
        return None;
    }
    let (q, s) = parse_window_spec(toks, p + 2);
    if kind_is(toks, q, TokenKind::RParen) {
        Some((q + 1, Window::WindowSpec(s)))
    } else {
        None
    }
}

/// `[PARTITION BY expr, ...] [ORDER BY order_by_expr, ...]`
pub fn parse_window_spec(toks: &[Token], p: usize) -> (r: (usize, WindowSpec))
    requires
        tokens_wf(toks@),
        literals_fit(toks@) || !big_window_spec(lexemes(toks@), p as int),
        p <= toks.len(),
    ensures
        spec_window_spec(lexemes(toks@), p as int) == (r.0 as int, r.1@),
        p <= r.0 <= toks.len(),
    decreases toks.len() - p, 0int,
{
    let (p1, partition_by) = if kind_is(toks, p, TokenKind::PARTITION) && kind_is(toks, p + 1, TokenKind::BY) {
        match parse_exprs1(toks, p + 2) {
            Some(x) => x,
            None => (p, Vec::new()),
        }
    } else {
        (p, Vec::new())
    };
    let (p2, order_by) = if kind_is(toks, p1, TokenKind::ORDER) && kind_is(toks, p1 + 1, TokenKind::BY) {
        match parse_order_by_list1(toks, p1 + 2) {
            Some(x) => x,
            None => (p1, Vec::new()),
        }
    } else {
        (p1, Vec::new())
    };
    assert(view_exprs(Seq::<Expr>::empty()) =~= seq![]);
    assert(view_order_by_exprs(Seq::empty()) =~= seq![]);
    (p2, WindowSpec { partition_by, order_by })
}

/// One or more expressions separated by `,`.
pub fn parse_exprs1(toks: &[Token], p: usize) -> (r: Option<(usize, Vec<Expr>)>)
    requires
        tokens_wf(toks@),
        literals_fit(toks@) || !big_exprs1(lexemes(toks@), p as int),
        p <= toks.len(),
    ensures
        match r {
            Some((q, v)) => spec_exprs1(lexemes(toks@), p as int) == Some((q as int, view_exprs(v@))) && p < q
                <= toks.len(),
            None => spec_exprs1(lexemes(toks@), p as int) is None,
        },
    decreases toks.len() - p, 7int,
{
    let (mut q, first) = match parse_expr(toks, p) {
        Some(x) => x,
        None => return None,
    };
    let mut v: Vec<Expr> = Vec::new();
    proof {
        lemma_view_exprs_push(v@, first);
    }
    v.push(first);
    assert(view_exprs(v@) =~= seq![first@]);
    loop
        invariant
            tokens_wf(toks@),
            literals_fit(toks@) || !big_exprs_tail(lexemes(toks@), q as int),
            p < q <= toks.len(),
            spec_exprs1(lexemes(toks@), p as int) == Some(
                (spec_exprs_tail(lexemes(toks@), q as int).0, view_exprs(v@) + spec_exprs_tail(lexemes(toks@), q as int).1),
            ),
        decreases toks.len() - q,
    {
        let sep = text_is(toks, q, ",");
        if !sep {
            assert(view_exprs(v@) + seq![] =~= view_exprs(v@));
            return Some((q, v));
        }
        match parse_expr(toks, q + 1) {
            Some((r, x)) => {
                proof {
                    lemma_view_exprs_push(v@, x);
                    let (e, rest) = spec_exprs_tail(lexemes(toks@), r as int);
                    assert(view_exprs(v@) + (seq![x@] + rest) =~= view_exprs(v@).push(x@) + rest);
                }
                v.push(x);
                q = r;
            },
            None => {
                assert(view_exprs(v@) + seq![] =~= view_exprs(v@));
                return Some((q, v));
            },
        }
    }
}

/// Zero or more expressions separated by `,`.
pub fn parse_exprs0(toks: &[Token], p: usize) -> (r: Option<(usize, Vec<Expr>)>)
    requires
        tokens_wf(toks@),
        literals_fit(toks@) || !big_exprs0(lexemes(toks@), p as int),
        p <= toks.len(),
    ensures
        match r {
            Some((q, v)) => spec_exprs0(lexemes(toks@), p as int) == Some((q as int, view_exprs(v@))) && p <= q
                <= toks.len(),
            None => spec_exprs0(lexemes(toks@), p as int) is None,
        },
    decreases toks.len() - p, 8int,
{
    match parse_exprs1(toks, p) {
        Some(r) => Some(r),
        None => {
            let v: Vec<Expr> = Vec::new();
            assert(view_exprs(v@) =~= seq![]);
            Some((p, v))
        },
    }
}

/// An expression at the start of `i`.
pub fn expr<'a>(i: Input<'a>) -> (r: IResult<'a, Expr>)
    requires
        tokens_wf(i@),
        literals_fit(i@) || !big_expr(lexemes(i@), 0),
    ensures
        result_matches(i, r, spec_expr(lexemes(i@), 0)),
        r matches Err(e) ==> e@ == pratt_error(lexemes(i@), 0, 0),
{
    match parse_pratt(i, 0, MIN_PRECEDENCE) {
        Ok((q, e)) => {
            let (_, rest) = i.split_at(q);
            assert(rest@ =~= i@.subrange(i@.len() - rest@.len(), i@.len() as int));
            Ok((rest, e))
        },
        Err(m) => Err(PError(m)),
    }
}

/// A column reference at the start of `i`.
pub fn column_ref_expr<'a>(i: Input<'a>) -> (r: IResult<'a, Expr>)
    requires
        tokens_wf(i@),
    ensures
        result_matches(i, r, spec_column_ref(lexemes(i@), 0)),
        r matches Err(e) ==> e@ == "ident should not be a keyword"@,
{
    let res = parse_column_ref(i, 0);
    finish(i, res, "ident should not be a keyword")
}

/// A function call at the start of `i`.
pub fn function_expr<'a>(i: Input<'a>) -> (r: IResult<'a, Expr>)
    requires
        tokens_wf(i@),
        literals_fit(i@) || !big_function_expr(lexemes(i@), 0),
    ensures
        result_matches(i, r, spec_function_expr(lexemes(i@), 0)),
        r matches Err(e) ==> e@ == function_expr_error(lexemes(i@), 0),
{
    let res = parse_function_expr(i, 0);
    if res.is_some() {
        return finish(i, res, "");
    }
    let m = match parse_ident(i, 0) {
        None => String::from_str("ident should not be a keyword"),
        Some((p1, _)) => {
            let k = if kind_is(i, p1, TokenKind::LParen) {
                TokenKind::RParen
            } else {
                TokenKind::LParen
            };
            let mut m = String::from_str("token kind ");
            m.append(k.name());
            m.append(" does not match");
            m
        },
    };
    Err(PError(m))
}

/// A window specification at the start of `i`; it may read nothing.
pub fn window_spec<'a>(i: Input<'a>) -> (r: IResult<'a, WindowSpec>)
    requires
        tokens_wf(i@),
        literals_fit(i@) || !big_window_spec(lexemes(i@), 0),
    ensures
        result_matches(i, r, Some(spec_window_spec(lexemes(i@), 0))),
{
    let (q, w) = parse_window_spec(i, 0);
    finish(i, Some((q, w)), "parse error")
}

} // verus!
