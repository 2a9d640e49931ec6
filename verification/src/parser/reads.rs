//! Which parses read an integer literal too large for `usize`.
//!
//! Each `big_*` function follows the control flow of the grammar rule of the same
//! name and says whether that rule, read from `p`, reaches the prefix step at an
//! integer literal whose value does not fit in `usize`. Reading such a literal is
//! the one step the parsers cannot take; tokens that the parse never reads may
//! hold literals of any size.

use vstd::prelude::*;

use super::grammar::{
    adv, infix_bp, kind_at, spec_cte, spec_cte_alias, spec_exprs1, spec_expr, spec_function_arg,
    spec_function_args0, spec_ident, spec_infix, spec_keyword_expr, spec_named_window_def, spec_order_by_clause,
    spec_order_by_expr, spec_pratt_operator, spec_prefix, spec_select_item, spec_select_items1, spec_select_set_expr,
    spec_select_stmt, spec_table_infix, spec_table_pratt, spec_table_pratt_operator, spec_table_precedence,
    spec_table_prefix, spec_table_ref, text_at, with_end, AffixKind, Lexeme, TablePrattOp,
};
use crate::ast::expr::SpecExpr;
use crate::ast::table_ref::SpecTableRef;
use super::token::TokenKind;

verus! {

/// An integer literal whose value does not fit in `usize`.
pub open spec fn oversize(t: Lexeme) -> bool {
    t.kind == TokenKind::LiteralInteger && t.value > usize::MAX
}

pub open spec fn big_expr(toks: Seq<Lexeme>, p: int) -> bool
    decreases toks.len() - p, 6int,
{
    0 <= p <= toks.len() && big_pratt(toks, p, 0)
}

pub open spec fn big_pratt(toks: Seq<Lexeme>, p: int, lbp: u32) -> bool
    decreases toks.len() - p, 5int,
{
    0 <= p <= toks.len() && (big_prefix(toks, p) || match spec_prefix(toks, p) {
        Some((q, left)) => p < q <= toks.len() && big_pratt_loop(toks, q, left, lbp),
        None => false,
    })
}

pub open spec fn big_pratt_loop(toks: Seq<Lexeme>, q: int, left: SpecExpr, lbp: u32) -> bool
    decreases toks.len() - q, 3int,
{
    0 <= q <= toks.len() && match spec_pratt_operator(toks, q) {
        None => false,
        Some(op) => lbp < infix_bp(op) && (big_infix(toks, q) || match spec_infix(toks, q, left) {
            Some((r, e)) => q < r <= toks.len() && big_pratt_loop(toks, r, e, lbp),
            None => false,
        }),
    }
}

pub open spec fn big_infix(toks: Seq<Lexeme>, q: int) -> bool
    decreases toks.len() - q, 2int,
{
    0 <= q < toks.len() && match toks[q].kind {
        TokenKind::Plus | TokenKind::Minus => big_pratt(toks, q + 1, 11),
        TokenKind::Multiply | TokenKind::Divide => big_pratt(toks, q + 1, 12),
        TokenKind::Gt | TokenKind::Lt | TokenKind::GtEq | TokenKind::LtEq | TokenKind::Eq
        | TokenKind::NotEq => big_pratt(toks, q + 1, 10),
        TokenKind::AND => big_pratt(toks, q + 1, 9),
        TokenKind::OR => big_pratt(toks, q + 1, 8),
        TokenKind::IN => big_in_rest(toks, q + 1),
        TokenKind::NOT => kind_at(toks, q + 1, TokenKind::IN) && big_in_rest(toks, q + 2),
        _ => false,
    }
}

pub closed spec fn big_in_rest(toks: Seq<Lexeme>, p: int) -> bool
    decreases toks.len() - p, 0int,
{
    0 <= p && kind_at(toks, p, TokenKind::LParen) && (big_select_stmt(toks, p + 1) || (!(match spec_select_stmt(
        toks,
        p + 1,
    ) {
        Some((q, _)) => kind_at(toks, q, TokenKind::RParen),
        None => false,
    }) && big_exprs0(toks, p + 1)))
}

pub open spec fn big_prefix(toks: Seq<Lexeme>, p: int) -> bool
    decreases toks.len() - p, 4int,
{
    0 <= p < toks.len() && match toks[p].kind {
        TokenKind::LParen => big_pratt(toks, p + 1, 0),
        TokenKind::LiteralInteger => oversize(toks[p]),
        TokenKind::Ident => big_function_expr(toks, p),
        TokenKind::NOT | TokenKind::EXISTS => big_exists_expr(toks, p),
        TokenKind::Plus | TokenKind::Minus => big_pratt(toks, p + 1, 300),
        TokenKind::SELECT => big_select_stmt(toks, p),
        _ => false,
    }
}

pub open spec fn big_function_expr(toks: Seq<Lexeme>, p: int) -> bool
    decreases toks.len() - p, 1int,
{
    match spec_ident(toks, p) {
        Some((p1, _)) => 0 <= p && kind_at(toks, p1, TokenKind::LParen) && {
            let p2 = if kind_at(toks, p1 + 1, TokenKind::DISTINCT) { p1 + 2 } else { p1 + 1 };
            big_function_args0(toks, p2) || match spec_function_args0(toks, p2) {
                Some((p3, _)) => adv(toks, p2, p3) && kind_at(toks, p3, TokenKind::RParen) && big_window(toks, p3 + 1),
                None => false,
            }
        },
        None => false,
    }
}

pub open spec fn big_function_arg(toks: Seq<Lexeme>, p: int) -> bool
    decreases toks.len() - p, 7int,
{
    !kind_at(toks, p, TokenKind::Multiply) && 0 <= p <= toks.len() && big_expr(toks, p)
}

pub open spec fn big_function_args_tail(toks: Seq<Lexeme>, p: int) -> bool
    decreases toks.len() - p, 0int,
{
    0 <= p && text_at(toks, p, ","@) && (big_function_arg(toks, p + 1) || match spec_function_arg(toks, p + 1) {
        Some((q, _)) => p + 1 < q <= toks.len() && big_function_args_tail(toks, q),
        None => false,
    })
}

pub open spec fn big_function_args0(toks: Seq<Lexeme>, p: int) -> bool
    decreases toks.len() - p, 8int,
{
    0 <= p <= toks.len() && (big_function_arg(toks, p) || match spec_function_arg(toks, p) {
        Some((q, _)) => p < q <= toks.len() && big_function_args_tail(toks, q),
        None => false,
    })
}

pub closed spec fn big_exists_expr(toks: Seq<Lexeme>, p: int) -> bool
    decreases toks.len() - p, 0int,
{
    0 <= p <= toks.len() && {
        let p1 = if kind_at(toks, p, TokenKind::NOT) { p + 1 } else { p };
        kind_at(toks, p1, TokenKind::EXISTS) && kind_at(toks, p1 + 1, TokenKind::LParen) && big_select_stmt(
            toks,
            p1 + 2,
        )
    }
}

pub open spec fn big_window(toks: Seq<Lexeme>, p: int) -> bool
    decreases toks.len() - p, 0int,
{
    0 <= p && kind_at(toks, p, TokenKind::OVER) && spec_ident(toks, p + 1) is None && kind_at(
        toks,
        p + 1,
        TokenKind::LParen,
    ) && big_window_spec(toks, p + 2)
}

/// Where the ORDER BY part of a window specification starts.
pub open spec fn window_partition_end(toks: Seq<Lexeme>, p: int) -> int {
    if kind_at(toks, p, TokenKind::PARTITION) && kind_at(toks, p + 1, TokenKind::BY) {
        match spec_exprs1(toks, p + 2) {
            Some((q, _)) => if adv(toks, p + 2, q) {
                q
            } else {
                p
            },
            None => p,
        }
    } else {
        p
    }
}

pub open spec fn big_window_spec(toks: Seq<Lexeme>, p: int) -> bool
    decreases toks.len() - p, 0int,
{
    0 <= p <= toks.len() && ((kind_at(toks, p, TokenKind::PARTITION) && kind_at(toks, p + 1, TokenKind::BY)
        && big_exprs1(toks, p + 2)) || {
        let p1 = window_partition_end(toks, p);
        p <= p1 && kind_at(toks, p1, TokenKind::ORDER) && kind_at(toks, p1 + 1, TokenKind::BY) && big_order_by_list1(
            toks,
            p1 + 2,
        )
    })
}

pub open spec fn big_exprs_tail(toks: Seq<Lexeme>, p: int) -> bool
    decreases toks.len() - p, 0int,
{
    0 <= p && text_at(toks, p, ","@) && (big_expr(toks, p + 1) || match spec_expr(toks, p + 1) {
        Some((q, _)) => p + 1 < q <= toks.len() && big_exprs_tail(toks, q),
        None => false,
    })
}

pub open spec fn big_exprs1(toks: Seq<Lexeme>, p: int) -> bool
    decreases toks.len() - p, 7int,
{
    0 <= p <= toks.len() && (big_expr(toks, p) || match spec_expr(toks, p) {
        Some((q, _)) => p < q <= toks.len() && big_exprs_tail(toks, q),
        None => false,
    })
}

pub open spec fn big_exprs0(toks: Seq<Lexeme>, p: int) -> bool
    decreases toks.len() - p, 8int,
{
    0 <= p <= toks.len() && big_exprs1(toks, p)
}

pub open spec fn big_order_by_expr(toks: Seq<Lexeme>, p: int) -> bool
    decreases toks.len() - p, 7int,
{
    0 <= p <= toks.len() && big_expr(toks, p)
}

pub open spec fn big_order_by_tail(toks: Seq<Lexeme>, p: int) -> bool
    decreases toks.len() - p, 0int,
{
    0 <= p && text_at(toks, p, ","@) && (big_order_by_expr(toks, p + 1) || match spec_order_by_expr(toks, p + 1) {
        Some((q, _)) => p + 1 < q <= toks.len() && big_order_by_tail(toks, q),
        None => false,
    })
}

pub open spec fn big_order_by_list1(toks: Seq<Lexeme>, p: int) -> bool
    decreases toks.len() - p, 8int,
{
    0 <= p <= toks.len() && (big_order_by_expr(toks, p) || match spec_order_by_expr(toks, p) {
        Some((q, _)) => p < q <= toks.len() && big_order_by_tail(toks, q),
        None => false,
    })
}

/// Where the ORDER BY part of a query starts, after its body ending at `p2`.
pub open spec fn order_by_end(toks: Seq<Lexeme>, p2: int) -> int {
    match spec_order_by_clause(toks, p2) {
        Some((q, _)) => if adv(toks, p2, q) {
            q
        } else {
            p2
        },
        None => p2,
    }
}

pub closed spec fn big_select_stmt(toks: Seq<Lexeme>, p: int) -> bool
    decreases toks.len() - p, 3int,
{
    0 <= p <= toks.len() && (big_with_clause(toks, p) || {
        let p1 = with_end(toks, p);
        p <= p1 && (big_select_set_expr(toks, p1) || match spec_select_set_expr(toks, p1) {
            Some((p2, _)) => adv(toks, p1, p2) && (big_order_by_clause(toks, p2) || {
                let p3 = order_by_end(toks, p2);
                p2 <= p3 && big_limit_offset_clause(toks, p3)
            }),
            None => false,
        })
    })
}

pub open spec fn big_with_clause(toks: Seq<Lexeme>, p: int) -> bool
    decreases toks.len() - p, 1int,
{
    0 <= p && kind_at(toks, p, TokenKind::WITH) && {
        let p1 = if kind_at(toks, p + 1, TokenKind::RECURSIVE) { p + 2 } else { p + 1 };
        big_ctes1(toks, p1)
    }
}

pub open spec fn big_cte(toks: Seq<Lexeme>, p: int) -> bool
    decreases toks.len() - p, 0int,
{
    match spec_cte_alias(toks, p) {
        Some((p1, _)) => 0 <= p < p1 && kind_at(toks, p1, TokenKind::AS) && kind_at(toks, p1 + 1, TokenKind::LParen)
            && big_select_stmt(toks, p1 + 2),
        None => false,
    }
}

pub open spec fn big_ctes_tail(toks: Seq<Lexeme>, p: int) -> bool
    decreases toks.len() - p, 0int,
{
    0 <= p && text_at(toks, p, ","@) && (big_cte(toks, p + 1) || match spec_cte(toks, p + 1) {
        Some((q, _)) => p + 1 < q <= toks.len() && big_ctes_tail(toks, q),
        None => false,
    })
}

pub open spec fn big_ctes1(toks: Seq<Lexeme>, p: int) -> bool
    decreases toks.len() - p, 1int,
{
    0 <= p <= toks.len() && (big_cte(toks, p) || match spec_cte(toks, p) {
        Some((q, _)) => p < q <= toks.len() && big_ctes_tail(toks, q),
        None => false,
    })
}

pub open spec fn big_order_by_clause(toks: Seq<Lexeme>, p: int) -> bool
    decreases toks.len() - p, 0int,
{
    0 <= p && kind_at(toks, p, TokenKind::ORDER) && kind_at(toks, p + 1, TokenKind::BY) && big_order_by_list1(
        toks,
        p + 2,
    )
}

pub open spec fn big_limit_offset_clause(toks: Seq<Lexeme>, p: int) -> bool
    decreases toks.len() - p, 0int,
{
    if 0 <= p && kind_at(toks, p, TokenKind::LIMIT) {
        big_expr(toks, p + 1) || match spec_expr(toks, p + 1) {
            Some((q, _)) => adv(toks, p + 1, q) && (kind_at(toks, q, TokenKind::OFFSET) || kind_at(
                toks,
                q,
                TokenKind::Comma,
            )) && big_expr(toks, q + 1),
            None => false,
        }
    } else if 0 <= p && kind_at(toks, p, TokenKind::OFFSET) {
        big_expr(toks, p + 1)
    } else {
        false
    }
}

pub open spec fn big_keyword_expr(toks: Seq<Lexeme>, p: int, k: TokenKind) -> bool
    decreases toks.len() - p, 0int,
{
    0 <= p && kind_at(toks, p, k) && big_expr(toks, p + 1)
}

/// Where the SELECT body goes on after its FROM clause, from `p2` on.
pub open spec fn from_end(toks: Seq<Lexeme>, p2: int) -> int {
    if kind_at(toks, p2, TokenKind::FROM) {
        match spec_table_ref(toks, p2 + 1) {
            Some((q, _)) => if adv(toks, p2 + 1, q) {
                q
            } else {
                p2
            },
            None => p2,
        }
    } else {
        p2
    }
}

/// Where an optional `keyword expr` clause at `p` ends.
pub open spec fn keyword_expr_end(toks: Seq<Lexeme>, p: int, k: TokenKind) -> int {
    let (w, _) = spec_keyword_expr(toks, p, k);
    if adv(toks, p, w) {
        w
    } else {
        p
    }
}

/// Where an optional GROUP BY clause at `p` ends.
pub open spec fn group_by_end(toks: Seq<Lexeme>, p: int) -> int {
    if kind_at(toks, p, TokenKind::GROUP) && kind_at(toks, p + 1, TokenKind::BY) {
        match spec_exprs1(toks, p + 2) {
            Some((q, _)) => if adv(toks, p + 2, q) {
                q
            } else {
                p
            },
            None => p,
        }
    } else {
        p
    }
}

/// The clauses of a SELECT body after its items, which end at `p2`.
pub open spec fn big_select_clauses(toks: Seq<Lexeme>, p2: int) -> bool
    decreases toks.len() - p2, 1int,
{
    0 <= p2 <= toks.len() && ((kind_at(toks, p2, TokenKind::FROM) && big_table_ref(toks, p2 + 1)) || {
        let p3 = from_end(toks, p2);
        p2 <= p3 && (big_keyword_expr(toks, p3, TokenKind::WHERE) || {
            let p4 = keyword_expr_end(toks, p3, TokenKind::WHERE);
            p3 <= p4 && ((kind_at(toks, p4, TokenKind::GROUP) && kind_at(toks, p4 + 1, TokenKind::BY) && big_exprs1(
                toks,
                p4 + 2,
            )) || {
                let p5 = group_by_end(toks, p4);
                p4 <= p5 && (big_keyword_expr(toks, p5, TokenKind::HAVING) || {
                    let p6 = keyword_expr_end(toks, p5, TokenKind::HAVING);
                    p5 <= p6 && kind_at(toks, p6, TokenKind::WINDOW) && big_named_window_defs1(toks, p6 + 1)
                })
            })
        })
    })
}

pub open spec fn big_select_set_expr(toks: Seq<Lexeme>, p: int) -> bool
    decreases toks.len() - p, 0int,
{
    0 <= p && kind_at(toks, p, TokenKind::SELECT) && {
        let p1 = if kind_at(toks, p + 1, TokenKind::DISTINCT) { p + 2 } else { p + 1 };
        big_select_items1(toks, p1) || match spec_select_items1(toks, p1) {
            Some((p2, _)) => adv(toks, p1, p2) && big_select_clauses(toks, p2),
            None => false,
        }
    }
}

pub open spec fn big_select_item(toks: Seq<Lexeme>, p: int) -> bool
    decreases toks.len() - p, 7int,
{
    !(0 <= p && text_at(toks, p, "*"@)) && 0 <= p <= toks.len() && big_expr(toks, p)
}

pub open spec fn big_select_items_tail(toks: Seq<Lexeme>, p: int) -> bool
    decreases toks.len() - p, 0int,
{
    0 <= p && text_at(toks, p, ","@) && (big_select_item(toks, p + 1) || match spec_select_item(toks, p + 1) {
        Some((q, _)) => p + 1 < q <= toks.len() && big_select_items_tail(toks, q),
        None => false,
    })
}

pub open spec fn big_select_items1(toks: Seq<Lexeme>, p: int) -> bool
    decreases toks.len() - p, 8int,
{
    0 <= p <= toks.len() && (big_select_item(toks, p) || match spec_select_item(toks, p) {
        Some((q, _)) => p < q <= toks.len() && big_select_items_tail(toks, q),
        None => false,
    })
}

pub open spec fn big_named_window_def(toks: Seq<Lexeme>, p: int) -> bool
    decreases toks.len() - p, 0int,
{
    match spec_ident(toks, p) {
        Some((p1, _)) => 0 <= p && kind_at(toks, p1, TokenKind::AS) && kind_at(toks, p1 + 1, TokenKind::LParen)
            && big_window_spec(toks, p1 + 2),
        None => false,
    }
}

pub open spec fn big_named_window_defs_tail(toks: Seq<Lexeme>, p: int) -> bool
    decreases toks.len() - p, 0int,
{
    0 <= p && text_at(toks, p, ","@) && (big_named_window_def(toks, p + 1) || match spec_named_window_def(
        toks,
        p + 1,
    ) {
        Some((q, _)) => p + 1 < q <= toks.len() && big_named_window_defs_tail(toks, q),
        None => false,
    })
}

pub open spec fn big_named_window_defs1(toks: Seq<Lexeme>, p: int) -> bool
    decreases toks.len() - p, 1int,
{
    0 <= p <= toks.len() && (big_named_window_def(toks, p) || match spec_named_window_def(toks, p) {
        Some((q, _)) => p < q <= toks.len() && big_named_window_defs_tail(toks, q),
        None => false,
    })
}

pub open spec fn big_table_ref(toks: Seq<Lexeme>, p: int) -> bool
    decreases toks.len() - p, 6int,
{
    0 <= p <= toks.len() && big_table_pratt(toks, p, 0)
}

pub open spec fn big_table_pratt(toks: Seq<Lexeme>, p: int, lbp: u32) -> bool
    decreases toks.len() - p, 5int,
{
    0 <= p <= toks.len() && (big_table_prefix(toks, p) || match spec_table_prefix(toks, p) {
        Some((q, left)) => p < q <= toks.len() && big_table_pratt_loop(toks, q, left, lbp),
        None => false,
    })
}

pub open spec fn big_table_pratt_loop(toks: Seq<Lexeme>, q: int, left: SpecTableRef, lbp: u32) -> bool
    decreases toks.len() - q, 3int,
{
    0 <= q <= toks.len() && match spec_table_pratt_operator(toks, q) {
        None => false,
        Some((_, op)) => match spec_table_precedence(op, AffixKind::Infix) {
            None => false,
            Some(bp) => lbp < bp && (big_table_infix(toks, q) || match spec_table_infix(toks, q, left) {
                Some((r, t)) => q < r <= toks.len() && big_table_pratt_loop(toks, r, t, lbp),
                None => false,
            }),
        },
    }
}

pub open spec fn big_table_infix(toks: Seq<Lexeme>, q: int) -> bool
    decreases toks.len() - q, 2int,
{
    match spec_table_pratt_operator(toks, q) {
        Some((q1, TablePrattOp::JoinOp(_))) => 0 <= q < q1 <= toks.len() && (big_table_pratt(toks, q1, 1)
            || match spec_table_pratt(toks, q1, 1) {
            Some((r, _)) => adv(toks, q1, r) && big_join_condition(toks, r),
            None => false,
        }),
        _ => false,
    }
}

pub open spec fn big_join_condition(toks: Seq<Lexeme>, p: int) -> bool
    decreases toks.len() - p, 0int,
{
    0 <= p && kind_at(toks, p, TokenKind::ON) && big_expr(toks, p + 1)
}

pub open spec fn big_table_prefix(toks: Seq<Lexeme>, p: int) -> bool
    decreases toks.len() - p, 4int,
{
    0 <= p < toks.len() && match toks[p].kind {
        TokenKind::LParen => big_table_pratt(toks, p + 1, 0),
        TokenKind::SELECT => big_select_stmt(toks, p),
        _ => false,
    }
}

/// What a parse of `( select_stmt )` or `( expr, ... )` at `p` reads when it reads
/// no oversize literal.
pub proof fn lemma_big_in_rest(toks: Seq<Lexeme>, p: int)
    requires
        !big_in_rest(toks, p),
        0 <= p,
        kind_at(toks, p, TokenKind::LParen),
    ensures
        !big_select_stmt(toks, p + 1),
        (match spec_select_stmt(toks, p + 1) {
            Some((q, _)) => kind_at(toks, q, TokenKind::RParen),
            None => false,
        }) || !big_exprs0(toks, p + 1),
{
}

/// What a parse of `[NOT] EXISTS ( select_stmt )` at `p` reads when it reads no
/// oversize literal.
pub proof fn lemma_big_exists_expr(toks: Seq<Lexeme>, p: int, p1: int)
    requires
        !big_exists_expr(toks, p),
        0 <= p <= toks.len(),
        p1 == if kind_at(toks, p, TokenKind::NOT) { p + 1 } else { p },
        kind_at(toks, p1, TokenKind::EXISTS),
        kind_at(toks, p1 + 1, TokenKind::LParen),
    ensures
        !big_select_stmt(toks, p1 + 2),
{
}

/// What a query at `p` reads, step by step.
pub proof fn lemma_big_select_stmt(toks: Seq<Lexeme>, p: int)
    ensures
        big_select_stmt(toks, p) == (0 <= p <= toks.len() && (big_with_clause(toks, p) || {
            let p1 = with_end(toks, p);
            p <= p1 && (big_select_set_expr(toks, p1) || match spec_select_set_expr(toks, p1) {
                Some((p2, _)) => adv(toks, p1, p2) && (big_order_by_clause(toks, p2) || {
                    let p3 = order_by_end(toks, p2);
                    p2 <= p3 && big_limit_offset_clause(toks, p3)
                }),
                None => false,
            })
        })),
{
}

} // verus!
