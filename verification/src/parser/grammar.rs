//! The grammar of queries, as spec functions over a token sequence.
//!
//! Each function reads the tokens from position `p` on and gives `None` when the
//! rule does not match there, or the position after what it read and the tree it
//! built. The functions follow the rules as written: alternatives are tried in
//! order, optional parts fall back to reading nothing, and lists separated by `,`
//! stop before a `,` that is not followed by an item.

use vstd::prelude::*;
use vstd::string::StringSliceAdditionalSpecFns;

use super::lexer::{keyword_count, keyword_entry, law_operator_spelling, token_at};
use super::token::{kind_name, text_of, unquoted_text_of, Token, TokenKind};
use crate::ast::display::{
    decimal_text, digit_text, join, print_binary_op, print_expr, print_join_op, print_qualifier, print_table_name,
    print_unary_op,
};
use crate::ast::expr::{BinaryOp, SpecExpr, SpecFunctionArg, SpecLiteral, SpecWindow, SpecWindowSpec, UnaryOp};
use crate::ast::set_expr::{SpecNamedWindowDef, SpecSelectItem, SpecSetExpr, SpecWildcardOptions};
use crate::ast::statement::{SpecCte, SpecOrderByExpr, SpecSelectStatement, SpecTableAlias, SpecWith};
use crate::ast::table_ref::{JoinOp, SpecJoinCondition, SpecTableName, SpecTableRef};

verus! {

/// The token at `p` exists and has kind `k`.
pub open spec fn kind_at(toks: Seq<Lexeme>, p: int, k: TokenKind) -> bool {
    0 <= p < toks.len() && toks[p].kind == k
}

/// The token at `p` exists, is not a keyword, and its text is `t`.
pub open spec fn text_at(toks: Seq<Lexeme>, p: int, t: Seq<char>) -> bool {
    0 <= p < toks.len() && !is_keyword(toks[p].kind) && toks[p].text == t
}

/// `q` is a position at or after `p` within the tokens.
pub open spec fn adv(toks: Seq<Lexeme>, p: int, q: int) -> bool {
    p <= q <= toks.len()
}

/// The bytes that a token covers.
pub open spec fn token_bytes(t: Token) -> Seq<u8> {
    t.source.spec_bytes().subrange(t.span.start as int, t.span.end as int)
}

/// Whether a kind is a keyword.
pub open spec fn is_keyword(k: TokenKind) -> bool {
    match k {
        TokenKind::AND | TokenKind::AS | TokenKind::ASC | TokenKind::BY | TokenKind::CROSS | TokenKind::DESC
        | TokenKind::DISTINCT | TokenKind::EXCEPT | TokenKind::EXCLUDE | TokenKind::EXISTS | TokenKind::FROM
        | TokenKind::FULL | TokenKind::GROUP | TokenKind::HAVING | TokenKind::IN | TokenKind::INNER
        | TokenKind::INTO | TokenKind::IS | TokenKind::JOIN | TokenKind::LEFT | TokenKind::LIKE | TokenKind::LIMIT
        | TokenKind::NOT | TokenKind::NULL | TokenKind::OFFSET | TokenKind::ON | TokenKind::OR | TokenKind::ORDER
        | TokenKind::OUTER | TokenKind::OVER | TokenKind::PARTITION | TokenKind::RECURSIVE | TokenKind::RIGHT
        | TokenKind::SELECT | TokenKind::WHERE | TokenKind::WINDOW | TokenKind::WITH | TokenKind::FIRST
        | TokenKind::LAST => true,
        _ => false,
    }
}

/// What the grammar reads of a token: its kind; its text, unless it is a keyword,
/// whose spelling does not matter; the text between the quotes of a quoted string;
/// and the value of an integer literal.
pub struct Lexeme {
    pub kind: TokenKind,
    pub text: Seq<char>,
    pub inner: Seq<char>,
    pub value: nat,
}

pub open spec fn lexeme(t: Token) -> Lexeme {
    Lexeme {
        kind: t.kind,
        text: if is_keyword(t.kind) { seq![] } else { text_of(t) },
        inner: if t.kind == TokenKind::QuotedString { unquoted_text_of(t) } else { seq![] },
        value: if t.kind == TokenKind::LiteralInteger { decimal_value(token_bytes(t)) } else { 0 },
    }
}

/// The lexemes of a sequence of tokens.
pub open spec fn lexemes(s: Seq<Token>) -> Seq<Lexeme> {
    s.map_values(|t: Token| lexeme(t))
}

/// The value of a string of decimal digits.
pub open spec fn decimal_value(s: Seq<u8>) -> nat
    decreases s.len(),
{
    if s.len() == 0 {
        0
    } else {
        decimal_value(s.drop_last()) * 10 + ((s.last() as nat) - 48) as nat
    }
}

/// A non-empty string of ASCII digits.
pub open spec fn is_decimal_numeral(s: Seq<u8>) -> bool {
    s.len() > 0 && forall|i: int| 0 <= i < s.len() ==> 48 <= #[trigger] s[i] <= 57
}

/// Operators of the expression Pratt parser.
#[derive(Debug, Copy, Clone, PartialEq, Eq, Structural)]
pub enum PrattOp {
    // + -
    Plus,
    Minus,
    // * /
    Multiply,
    Divide,
    // > < >= <= = != <>
    Gt,
    Lt,
    GtEq,
    LtEq,
    Eq,
    NotEq,
    // and or
    And,
    Or,
    // (not) in
    In,
}

/// Whether an operator stands before its operand or between two.
pub enum AffixKind {
    Prefix,
    Infix,
}

/// The binding power of an operator.
pub open spec fn spec_precedence(op: PrattOp, affix: AffixKind) -> Option<u32> {
    match affix {
        AffixKind::Prefix => match op {
            PrattOp::Plus | PrattOp::Minus => Some(300),
            _ => None,
        },
        AffixKind::Infix => match op {
            PrattOp::In => Some(7),
            PrattOp::Or => Some(8),
            PrattOp::And => Some(9),
            PrattOp::Gt | PrattOp::Lt | PrattOp::GtEq | PrattOp::LtEq | PrattOp::Eq
            | PrattOp::NotEq => Some(10),
            PrattOp::Plus | PrattOp::Minus => Some(11),
            PrattOp::Multiply | PrattOp::Divide => Some(12),
        },
    }
}

/// The infix binding power of an operator.
pub open spec fn infix_bp(op: PrattOp) -> u32 {
    spec_precedence(op, AffixKind::Infix).unwrap()
}

/// The operator that the tokens at `p` begin with (`/` is not one).
pub open spec fn spec_pratt_operator(toks: Seq<Lexeme>, p: int) -> Option<PrattOp> {
    if !(0 <= p < toks.len()) {
        None
    } else {
        match toks[p].kind {
            TokenKind::Plus => Some(PrattOp::Plus),
            TokenKind::Minus => Some(PrattOp::Minus),
            TokenKind::Multiply => Some(PrattOp::Multiply),
            TokenKind::Gt => Some(PrattOp::Gt),
            TokenKind::Lt => Some(PrattOp::Lt),
            TokenKind::GtEq => Some(PrattOp::GtEq),
            TokenKind::LtEq => Some(PrattOp::LtEq),
            TokenKind::Eq => Some(PrattOp::Eq),
            TokenKind::NotEq => Some(PrattOp::NotEq),
            TokenKind::AND => Some(PrattOp::And),
            TokenKind::OR => Some(PrattOp::Or),
            TokenKind::IN => Some(PrattOp::In),
            TokenKind::NOT => if kind_at(toks, p + 1, TokenKind::IN) {
                Some(PrattOp::In)
            } else {
                None
            },
            _ => None,
        }
    }
}

/// An identifier: a word, read as its text, or a quoted string, read as the
/// text between its quotes.
pub open spec fn spec_ident(toks: Seq<Lexeme>, p: int) -> Option<(int, Seq<char>)> {
    if kind_at(toks, p, TokenKind::Ident) {
        Some((p + 1, toks[p].text))
    } else if kind_at(toks, p, TokenKind::QuotedString) {
        Some((p + 1, toks[p].inner))
    } else {
        None
    }
}

/// A byte that opens and closes a quoted string.
pub open spec fn is_quote(c: u8) -> bool {
    c == ('`' as u8) || c == ('"' as u8) || c == ('\'' as u8)
}

/// At least two bytes, the first a quote and the last the same quote.
pub open spec fn is_quoted_form(s: Seq<u8>) -> bool {
    s.len() >= 2 && is_quote(s[0]) && s[s.len() - 1] == s[0]
}

/// `ident (, ident)*`
pub open spec fn spec_idents_tail(toks: Seq<Lexeme>, p: int) -> (int, Seq<Seq<char>>)
    decreases toks.len() - p,
{
    if 0 <= p && text_at(toks, p, ","@) {
        match spec_ident(toks, p + 1) {
            Some((q, x)) => {
                let (r, rest) = spec_idents_tail(toks, q);
                (r, seq![x] + rest)
            },
            None => (p, seq![]),
        }
    } else {
        (p, seq![])
    }
}

pub open spec fn spec_idents1(toks: Seq<Lexeme>, p: int) -> Option<(int, Seq<Seq<char>>)> {
    match spec_ident(toks, p) {
        Some((q, x)) => {
            let (r, rest) = spec_idents_tail(toks, q);
            Some((r, seq![x] + rest))
        },
        None => None,
    }
}

/// `ident . ident . ident`, `ident . ident` or `ident`.
pub open spec fn spec_column_ref(toks: Seq<Lexeme>, p: int) -> Option<(int, SpecExpr)> {
    match spec_ident(toks, p) {
        None => None,
        Some((p1, a)) => if kind_at(toks, p1, TokenKind::Dot) {
            match spec_ident(toks, p1 + 1) {
                Some((p2, b)) => if kind_at(toks, p2, TokenKind::Dot) {
                    match spec_ident(toks, p2 + 1) {
                        Some((p3, c)) => Some(
                            (p3, SpecExpr::ColumnRef { database: Some(a), table: Some(b), column: c }),
                        ),
                        None => Some((p2, SpecExpr::ColumnRef { database: None, table: Some(a), column: b })),
                    }
                } else {
                    Some((p2, SpecExpr::ColumnRef { database: None, table: Some(a), column: b }))
                },
                None => Some((p1, SpecExpr::ColumnRef { database: None, table: None, column: a })),
            }
        } else {
            Some((p1, SpecExpr::ColumnRef { database: None, table: None, column: a }))
        },
    }
}

/// An expression: Pratt parsing from the lowest binding power.
pub open spec fn spec_expr(toks: Seq<Lexeme>, p: int) -> Option<(int, SpecExpr)>
    decreases toks.len() - p, 6int,
{
    if 0 <= p <= toks.len() {
        spec_pratt(toks, p, 0)
    } else {
        None
    }
}

/// A prefix expression, then infix operators that bind more strongly than `lbp`.
pub open spec fn spec_pratt(toks: Seq<Lexeme>, p: int, lbp: u32) -> Option<(int, SpecExpr)>
    decreases toks.len() - p, 5int,
{
    if 0 <= p <= toks.len() {
        match spec_prefix(toks, p) {
            Some((q, left)) => if p < q <= toks.len() {
                spec_pratt_loop(toks, q, left, lbp)
            } else {
                None
            },
            None => None,
        }
    } else {
        None
    }
}

/// Extends `left` with infix operators as long as they bind more strongly than `lbp`.
pub open spec fn spec_pratt_loop(toks: Seq<Lexeme>, q: int, left: SpecExpr, lbp: u32) -> Option<(int, SpecExpr)>
    decreases toks.len() - q, 3int,
{
    if 0 <= q <= toks.len() {
        match spec_pratt_operator(toks, q) {
            None => Some((q, left)),
            Some(op) => if lbp >= infix_bp(op) {
                Some((q, left))
            } else {
                match spec_infix(toks, q, left) {
                    Some((r, e)) => if q < r <= toks.len() {
                        spec_pratt_loop(toks, r, e, lbp)
                    } else {
                        None
                    },
                    None => None,
                }
            },
        }
    } else {
        None
    }
}

/// A binary expression with `left` and the operand after the operator at `q`.
pub open spec fn binary_rest(toks: Seq<Lexeme>, q: int, left: SpecExpr, op: BinaryOp, bp: u32) -> Option<(int, SpecExpr)>
    decreases toks.len() - q, 1int,
{
    if 0 <= q < toks.len() {
        match spec_pratt(toks, q + 1, bp) {
            Some((r, right)) => Some((r, SpecExpr::BinaryOp { left: Box::new(left), op, right: Box::new(right) })),
            None => None,
        }
    } else {
        None
    }
}

/// The infix or postfix operator at `q` applied to `left`.
pub open spec fn spec_infix(toks: Seq<Lexeme>, q: int, left: SpecExpr) -> Option<(int, SpecExpr)>
    decreases toks.len() - q, 2int,
{
    if 0 <= q < toks.len() {
        match toks[q].kind {
            TokenKind::Plus => binary_rest(toks, q, left, BinaryOp::Add, 11),
            TokenKind::Minus => binary_rest(toks, q, left, BinaryOp::Sub, 11),
            TokenKind::Multiply => binary_rest(toks, q, left, BinaryOp::Mul, 12),
            TokenKind::Divide => binary_rest(toks, q, left, BinaryOp::Div, 12),
            TokenKind::Gt => binary_rest(toks, q, left, BinaryOp::Gt, 10),
            TokenKind::Lt => binary_rest(toks, q, left, BinaryOp::Lt, 10),
            TokenKind::GtEq => binary_rest(toks, q, left, BinaryOp::GtEq, 10),
            TokenKind::LtEq => binary_rest(toks, q, left, BinaryOp::LtEq, 10),
            TokenKind::Eq => binary_rest(toks, q, left, BinaryOp::Eq, 10),
            TokenKind::NotEq => binary_rest(toks, q, left, BinaryOp::NotEq, 10),
            TokenKind::AND => binary_rest(toks, q, left, BinaryOp::And, 9),
            TokenKind::OR => binary_rest(toks, q, left, BinaryOp::Or, 8),
            TokenKind::IN => spec_in_rest(toks, q + 1, left, false),
            TokenKind::NOT => if kind_at(toks, q + 1, TokenKind::IN) {
                spec_in_rest(toks, q + 2, left, true)
            } else {
                None
            },
            _ => None,
        }
    } else {
        None
    }
}

/// `( select_stmt )` or `( expr, ... )` after `[NOT] IN`.
pub open spec fn spec_in_rest(toks: Seq<Lexeme>, p: int, left: SpecExpr, not: bool) -> Option<(int, SpecExpr)>
    decreases toks.len() - p, 0int,
{
    if 0 <= p && kind_at(toks, p, TokenKind::LParen) {
        match spec_select_stmt(toks, p + 1) {
            Some((q, s)) if kind_at(toks, q, TokenKind::RParen) => Some(
                (q + 1, SpecExpr::InSubquery { not, expr: Box::new(left), subquery: Box::new(s) }),
            ),
            _ => match spec_exprs0(toks, p + 1) {
                Some((q, l)) if adv(toks, p + 1, q) && kind_at(toks, q, TokenKind::RParen) => Some(
                    (q + 1, SpecExpr::InList { not, expr: Box::new(left), list: l }),
                ),
                _ => None,
            },
        }
    } else {
        None
    }
}

/// The expression that a unary `+` or `-` at `p` applies to.
pub open spec fn unary_rest(toks: Seq<Lexeme>, p: int, op: UnaryOp) -> Option<(int, SpecExpr)>
    decreases toks.len() - p, 0int,
{
    if 0 <= p < toks.len() {
        match spec_pratt(toks, p + 1, 300) {
            Some((q, e)) => Some((q, SpecExpr::UnaryOp { op, expr: Box::new(e) })),
            None => None,
        }
    } else {
        None
    }
}

/// The expression that a prefix token at `p` starts.
pub open spec fn spec_prefix(toks: Seq<Lexeme>, p: int) -> Option<(int, SpecExpr)>
    decreases toks.len() - p, 4int,
{
    if 0 <= p < toks.len() {
        match toks[p].kind {
            TokenKind::LParen => match spec_pratt(toks, p + 1, 0) {
                Some((q, e)) => if adv(toks, p + 1, q) && kind_at(toks, q, TokenKind::RParen) {
                    Some((q + 1, e))
                } else {
                    None
                },
                None => None,
            },
            TokenKind::LiteralInteger => Some(
                (p + 1, SpecExpr::Literal(SpecLiteral::UnsignedInteger(toks[p].value as usize))),
            ),
            TokenKind::Ident => match spec_function_expr(toks, p) {
                Some(r) => Some(r),
                None => spec_column_ref(toks, p),
            },
            TokenKind::NOT | TokenKind::EXISTS => spec_exists_expr(toks, p),
            TokenKind::Plus => unary_rest(toks, p, UnaryOp::Plus),
            TokenKind::Minus => unary_rest(toks, p, UnaryOp::Minus),
            TokenKind::SELECT => match spec_select_stmt(toks, p) {
                Some((q, s)) => Some((q, SpecExpr::Subquery(Box::new(s)))),
                None => None,
            },
            _ => None,
        }
    } else {
        None
    }
}

/// `name ( [DISTINCT] arg, ... ) [window]`
pub open spec fn spec_function_expr(toks: Seq<Lexeme>, p: int) -> Option<(int, SpecExpr)>
    decreases toks.len() - p, 1int,
{
    match spec_ident(toks, p) {
        Some((p1, name)) => if 0 <= p && kind_at(toks, p1, TokenKind::LParen) {
            let distinct = kind_at(toks, p1 + 1, TokenKind::DISTINCT);
            let p2 = if distinct { p1 + 2 } else { p1 + 1 };
            match spec_function_args0(toks, p2) {
                Some((p3, args)) => if adv(toks, p2, p3) && kind_at(toks, p3, TokenKind::RParen) {
                    match spec_window(toks, p3 + 1) {
                        Some((p4, w)) => if adv(toks, p3 + 1, p4) {
                            Some((p4, SpecExpr::Function { name, distinct, args, over: Some(w) }))
                        } else {
                            None
                        },
                        None => Some((p3 + 1, SpecExpr::Function { name, distinct, args, over: None })),
                    }
                } else {
                    None
                },
                None => None,
            }
        } else {
            None
        },
        None => None,
    }
}

/// `*` or an expression.
pub open spec fn spec_function_arg(toks: Seq<Lexeme>, p: int) -> Option<(int, SpecFunctionArg)>
    decreases toks.len() - p, 7int,
{
    if kind_at(toks, p, TokenKind::Multiply) {
        Some((p + 1, SpecFunctionArg::Wildcard))
    } else if 0 <= p <= toks.len() {
        match spec_expr(toks, p) {
            Some((q, e)) => Some((q, SpecFunctionArg::Expr(e))),
            None => None,
        }
    } else {
        None
    }
}

pub open spec fn spec_function_args_tail(toks: Seq<Lexeme>, p: int) -> (int, Seq<SpecFunctionArg>)
    decreases toks.len() - p, 0int,
{
    if 0 <= p && text_at(toks, p, ","@) {
        match spec_function_arg(toks, p + 1) {
            Some((q, x)) => if p + 1 < q <= toks.len() {
                let (r, rest) = spec_function_args_tail(toks, q);
                (r, seq![x] + rest)
            } else {
                (p, seq![])
            },
            None => (p, seq![]),
        }
    } else {
        (p, seq![])
    }
}

/// Zero or more function arguments separated by `,`.
pub open spec fn spec_function_args0(toks: Seq<Lexeme>, p: int) -> Option<(int, Seq<SpecFunctionArg>)>
    decreases toks.len() - p, 8int,
{
    if 0 <= p <= toks.len() {
        match spec_function_arg(toks, p) {
            Some((q, x)) => if p < q <= toks.len() {
                let (r, rest) = spec_function_args_tail(toks, q);
                Some((r, seq![x] + rest))
            } else {
                None
            },
            None => Some((p, seq![])),
        }
    } else {
        None
    }
}

/// `[NOT] EXISTS ( select_stmt )`
pub open spec fn spec_exists_expr(toks: Seq<Lexeme>, p: int) -> Option<(int, SpecExpr)>
    decreases toks.len() - p, 0int,
{
    if 0 <= p <= toks.len() {
        let not = kind_at(toks, p, TokenKind::NOT);
        let p1 = if not { p + 1 } else { p };
        if kind_at(toks, p1, TokenKind::EXISTS) && kind_at(toks, p1 + 1, TokenKind::LParen) {
            match spec_select_stmt(toks, p1 + 2) {
                Some((q, s)) => if kind_at(toks, q, TokenKind::RParen) {
                    Some((q + 1, SpecExpr::Exists { not, subquery: Box::new(s) }))
                } else {
                    None
                },
                None => None,
            }
        } else {
            None
        }
    } else {
        None
    }
}

/// `OVER name` or `OVER ( window_spec )`
pub open spec fn spec_window(toks: Seq<Lexeme>, p: int) -> Option<(int, SpecWindow)>
    decreases toks.len() - p, 0int,
{
    if 0 <= p && kind_at(toks, p, TokenKind::OVER) {
        match spec_ident(toks, p + 1) {
            Some((q, name)) => Some((q, SpecWindow::WindowRef(name))),
            None => if kind_at(toks, p + 1, TokenKind::LParen) {
                let (q, s) = spec_window_spec(toks, p + 2);
                if adv(toks, p + 2, q) && kind_at(toks, q, TokenKind::RParen) {
                    Some((q + 1, SpecWindow::WindowSpec(s)))
                } else {
                    None
                }
            } else {
                None
            },
        }
    } else {
        None
    }
}

/// `[PARTITION BY expr, ...] [ORDER BY order_by_expr, ...]`; reads nothing when neither is there.
pub open spec fn spec_window_spec(toks: Seq<Lexeme>, p: int) -> (int, SpecWindowSpec)
    decreases toks.len() - p, 0int,
{
    if 0 <= p <= toks.len() {
        let (p1, partition_by) = if kind_at(toks, p, TokenKind::PARTITION) && kind_at(toks, p + 1, TokenKind::BY) {
            match spec_exprs1(toks, p + 2) {
                Some((q, l)) => if adv(toks, p + 2, q) {
                    (q, l)
                } else {
                    (p, seq![])
                },
                None => (p, seq![]),
            }
        } else {
            (p, seq![])
        };
        let (p2, order_by) = if kind_at(toks, p1, TokenKind::ORDER) && kind_at(toks, p1 + 1, TokenKind::BY) {
            match spec_order_by_list1(toks, p1 + 2) {
                Some((q, l)) => if adv(toks, p1 + 2, q) {
                    (q, l)
                } else {
                    (p1, seq![])
                },
                None => (p1, seq![]),
            }
        } else {
            (p1, seq![])
        };
        (p2, SpecWindowSpec { partition_by, order_by })
    } else {
        (p, SpecWindowSpec { partition_by: seq![], order_by: seq![] })
    }
}

pub open spec fn spec_exprs_tail(toks: Seq<Lexeme>, p: int) -> (int, Seq<SpecExpr>)
    decreases toks.len() - p, 0int,
{
    if 0 <= p && text_at(toks, p, ","@) {
        match spec_expr(toks, p + 1) {
            Some((q, x)) => if p + 1 < q <= toks.len() {
                let (r, rest) = spec_exprs_tail(toks, q);
                (r, seq![x] + rest)
            } else {
                (p, seq![])
            },
            None => (p, seq![]),
        }
    } else {
        (p, seq![])
    }
}

/// One or more expressions separated by `,`.
pub open spec fn spec_exprs1(toks: Seq<Lexeme>, p: int) -> Option<(int, Seq<SpecExpr>)>
    decreases toks.len() - p, 7int,
{
    if 0 <= p <= toks.len() {
        match spec_expr(toks, p) {
            Some((q, x)) => if p < q <= toks.len() {
                let (r, rest) = spec_exprs_tail(toks, q);
                Some((r, seq![x] + rest))
            } else {
                None
            },
            None => None,
        }
    } else {
        None
    }
}

/// Zero or more expressions separated by `,`.
pub open spec fn spec_exprs0(toks: Seq<Lexeme>, p: int) -> Option<(int, Seq<SpecExpr>)>
    decreases toks.len() - p, 8int,
{
    if 0 <= p <= toks.len() {
        match spec_exprs1(toks, p) {
            Some(r) => Some(r),
            None => Some((p, seq![])),
        }
    } else {
        None
    }
}

/// `expr [ASC | DESC]`
pub open spec fn spec_order_by_expr(toks: Seq<Lexeme>, p: int) -> Option<(int, SpecOrderByExpr)>
    decreases toks.len() - p, 7int,
{
    if 0 <= p <= toks.len() {
        match spec_expr(toks, p) {
            Some((q, e)) => if kind_at(toks, q, TokenKind::ASC) {
                Some((q + 1, SpecOrderByExpr { expr: e, asc: Some(true) }))
            } else if kind_at(toks, q, TokenKind::DESC) {
                Some((q + 1, SpecOrderByExpr { expr: e, asc: Some(false) }))
            } else {
                Some((q, SpecOrderByExpr { expr: e, asc: None }))
            },
            None => None,
        }
    } else {
        None
    }
}

pub open spec fn spec_order_by_tail(toks: Seq<Lexeme>, p: int) -> (int, Seq<SpecOrderByExpr>)
    decreases toks.len() - p, 0int,
{
    if 0 <= p && text_at(toks, p, ","@) {
        match spec_order_by_expr(toks, p + 1) {
            Some((q, x)) => if p + 1 < q <= toks.len() {
                let (r, rest) = spec_order_by_tail(toks, q);
                (r, seq![x] + rest)
            } else {
                (p, seq![])
            },
            None => (p, seq![]),
        }
    } else {
        (p, seq![])
    }
}

/// One or more ordering expressions separated by `,`.
pub open spec fn spec_order_by_list1(toks: Seq<Lexeme>, p: int) -> Option<(int, Seq<SpecOrderByExpr>)>
    decreases toks.len() - p, 8int,
{
    if 0 <= p <= toks.len() {
        match spec_order_by_expr(toks, p) {
            Some((q, x)) => if p < q <= toks.len() {
                let (r, rest) = spec_order_by_tail(toks, q);
                Some((r, seq![x] + rest))
            } else {
                None
            },
            None => None,
        }
    } else {
        None
    }
}

/// `[WITH ...] select_set_expr [ORDER BY ...] [LIMIT ... | OFFSET ...]`
pub open spec fn spec_select_stmt(toks: Seq<Lexeme>, p: int) -> Option<(int, SpecSelectStatement)>
    decreases toks.len() - p, 3int,
{
    if 0 <= p <= toks.len() {
        let (p1, with) = match spec_with_clause(toks, p) {
            Some((q, w)) => if adv(toks, p, q) {
                (q, Some(w))
            } else {
                (p, None)
            },
            None => (p, None),
        };
        match spec_select_set_expr(toks, p1) {
            Some((p2, body)) => if adv(toks, p1, p2) {
                let (p3, order_by) = match spec_order_by_clause(toks, p2) {
                    Some((q, l)) => if adv(toks, p2, q) {
                        (q, l)
                    } else {
                        (p2, seq![])
                    },
                    None => (p2, seq![]),
                };
                let (p4, limit, offset) = match spec_limit_offset_clause(toks, p3) {
                    Some((q, l, o)) => if adv(toks, p3, q) {
                        (q, l, o)
                    } else {
                        (p3, None, None)
                    },
                    None => (p3, None, None),
                };
                Some((p4, SpecSelectStatement { with, body, order_by, limit, offset }))
            } else {
                None
            },
            None => None,
        }
    } else {
        None
    }
}

/// `WITH [RECURSIVE] cte, ...`
pub open spec fn spec_with_clause(toks: Seq<Lexeme>, p: int) -> Option<(int, SpecWith)>
    decreases toks.len() - p, 1int,
{
    if 0 <= p && kind_at(toks, p, TokenKind::WITH) {
        let recursive = kind_at(toks, p + 1, TokenKind::RECURSIVE);
        let p1 = if recursive { p + 2 } else { p + 1 };
        match spec_ctes1(toks, p1) {
            Some((q, l)) => Some((q, SpecWith { recursive, cte_tables: l })),
            None => None,
        }
    } else {
        None
    }
}

/// `name ( column, ... )` or `name`, naming a common table expression.
pub open spec fn spec_cte_alias(toks: Seq<Lexeme>, p: int) -> Option<(int, SpecTableAlias)> {
    match spec_ident(toks, p) {
        Some((p1, name)) => if kind_at(toks, p1, TokenKind::LParen) {
            match spec_idents1(toks, p1 + 1) {
                Some((q, columns)) => if kind_at(toks, q, TokenKind::RParen) {
                    Some((q + 1, SpecTableAlias { name, columns }))
                } else {
                    Some((p1, SpecTableAlias { name, columns: seq![] }))
                },
                None => Some((p1, SpecTableAlias { name, columns: seq![] })),
            }
        } else {
            Some((p1, SpecTableAlias { name, columns: seq![] }))
        },
        None => None,
    }
}

/// `alias AS ( select_stmt )`
pub open spec fn spec_cte(toks: Seq<Lexeme>, p: int) -> Option<(int, SpecCte)>
    decreases toks.len() - p, 0int,
{
    match spec_cte_alias(toks, p) {
        Some((p1, alias)) => if 0 <= p < p1 && kind_at(toks, p1, TokenKind::AS) && kind_at(
            toks,
            p1 + 1,
            TokenKind::LParen,
        ) {
            match spec_select_stmt(toks, p1 + 2) {
                Some((q, s)) => if kind_at(toks, q, TokenKind::RParen) {
                    Some((q + 1, SpecCte { alias, query: Box::new(s) }))
                } else {
                    None
                },
                None => None,
            }
        } else {
            None
        },
        None => None,
    }
}

pub open spec fn spec_ctes_tail(toks: Seq<Lexeme>, p: int) -> (int, Seq<SpecCte>)
    decreases toks.len() - p, 0int,
{
    if 0 <= p && text_at(toks, p, ","@) {
        match spec_cte(toks, p + 1) {
            Some((q, x)) => if p + 1 < q <= toks.len() {
                let (r, rest) = spec_ctes_tail(toks, q);
                (r, seq![x] + rest)
            } else {
                (p, seq![])
            },
            None => (p, seq![]),
        }
    } else {
        (p, seq![])
    }
}

pub open spec fn spec_ctes1(toks: Seq<Lexeme>, p: int) -> Option<(int, Seq<SpecCte>)>
    decreases toks.len() - p, 1int,
{
    if 0 <= p <= toks.len() {
        match spec_cte(toks, p) {
            Some((q, x)) => if p < q <= toks.len() {
                let (r, rest) = spec_ctes_tail(toks, q);
                Some((r, seq![x] + rest))
            } else {
                None
            },
            None => None,
        }
    } else {
        None
    }
}

/// `ORDER BY order_by_expr, ...`
pub open spec fn spec_order_by_clause(toks: Seq<Lexeme>, p: int) -> Option<(int, Seq<SpecOrderByExpr>)>
    decreases toks.len() - p, 0int,
{
    if 0 <= p && kind_at(toks, p, TokenKind::ORDER) && kind_at(toks, p + 1, TokenKind::BY) {
        spec_order_by_list1(toks, p + 2)
    } else {
        None
    }
}

/// `LIMIT e OFFSET e`, `LIMIT e, e`, `LIMIT e` or `OFFSET e`.
pub open spec fn spec_limit_offset_clause(toks: Seq<Lexeme>, p: int) -> Option<(int, Option<SpecExpr>, Option<SpecExpr>)>
    decreases toks.len() - p, 0int,
{
    if 0 <= p && kind_at(toks, p, TokenKind::LIMIT) {
        match spec_expr(toks, p + 1) {
            Some((q, l)) => if adv(toks, p + 1, q) && (kind_at(toks, q, TokenKind::OFFSET) || kind_at(toks, q, TokenKind::Comma)) {
                match spec_expr(toks, q + 1) {
                    Some((r, o)) => Some((r, Some(l), Some(o))),
                    None => Some((q, Some(l), None)),
                }
            } else {
                Some((q, Some(l), None))
            },
            None => None,
        }
    } else if 0 <= p && kind_at(toks, p, TokenKind::OFFSET) {
        match spec_expr(toks, p + 1) {
            Some((q, o)) => Some((q, None, Some(o))),
            None => None,
        }
    } else {
        None
    }
}

/// `SELECT [DISTINCT] item, ... [FROM table_ref] [WHERE e] [GROUP BY e, ...] [HAVING e] [WINDOW def, ...]`
pub open spec fn spec_select_set_expr(toks: Seq<Lexeme>, p: int) -> Option<(int, SpecSetExpr)>
    decreases toks.len() - p, 0int,
{
    if 0 <= p && kind_at(toks, p, TokenKind::SELECT) {
        let distinct = kind_at(toks, p + 1, TokenKind::DISTINCT);
        let p1 = if distinct { p + 2 } else { p + 1 };
        match spec_select_items1(toks, p1) {
            Some((p2, projection)) => if adv(toks, p1, p2) {
                let (p3, from) = if kind_at(toks, p2, TokenKind::FROM) {
                    match spec_table_ref(toks, p2 + 1) {
                        Some((q, t)) => if adv(toks, p2 + 1, q) {
                            (q, Some(t))
                        } else {
                            (p2, None)
                        },
                        None => (p2, None),
                    }
                } else {
                    (p2, None)
                };
                let (w, selection) = spec_keyword_expr(toks, p3, TokenKind::WHERE);
                let p4 = if adv(toks, p3, w) { w } else { p3 };
                let (p5, group_by) = if kind_at(toks, p4, TokenKind::GROUP) && kind_at(toks, p4 + 1, TokenKind::BY) {
                    match spec_exprs1(toks, p4 + 2) {
                        Some((q, l)) => if adv(toks, p4 + 2, q) {
                            (q, l)
                        } else {
                            (p4, seq![])
                        },
                        None => (p4, seq![]),
                    }
                } else {
                    (p4, seq![])
                };
                let (h, having) = spec_keyword_expr(toks, p5, TokenKind::HAVING);
                let p6 = if adv(toks, p5, h) { h } else { p5 };
                let (p7, named_windows) = if kind_at(toks, p6, TokenKind::WINDOW) {
                    match spec_named_window_defs1(toks, p6 + 1) {
                        Some((q, l)) => if adv(toks, p6 + 1, q) {
                            (q, l)
                        } else {
                            (p6, seq![])
                        },
                        None => (p6, seq![]),
                    }
                } else {
                    (p6, seq![])
                };
                Some((p7, SpecSetExpr::Select { distinct, projection, from, selection, group_by, having, named_windows }))
            } else {
                None
            },
            None => None,
        }
    } else {
        None
    }
}

/// An optional `keyword expr` clause; reads nothing when it is not there.
pub open spec fn spec_keyword_expr(toks: Seq<Lexeme>, p: int, k: TokenKind) -> (int, Option<SpecExpr>)
    decreases toks.len() - p, 0int,
{
    if 0 <= p && kind_at(toks, p, k) {
        match spec_expr(toks, p + 1) {
            Some((q, e)) => if adv(toks, p + 1, q) {
                (q, Some(e))
            } else {
                (p, None)
            },
            None => (p, None),
        }
    } else {
        (p, None)
    }
}

/// `[EXCLUDE ( ident, ... )] [EXCEPT ( ident, ... )]` after `*`.
pub open spec fn spec_wildcard_options(toks: Seq<Lexeme>, p: int) -> (int, SpecWildcardOptions) {
    let (p1, exclude) = spec_paren_idents(toks, p, TokenKind::EXCLUDE);
    let (p2, except) = spec_paren_idents(toks, p1, TokenKind::EXCEPT);
    (p2, SpecWildcardOptions { exclude, except })
}

/// An optional `keyword ( ident, ... )`; reads nothing when it is not there.
pub open spec fn spec_paren_idents(toks: Seq<Lexeme>, p: int, k: TokenKind) -> (int, Seq<Seq<char>>) {
    if kind_at(toks, p, k) && kind_at(toks, p + 1, TokenKind::LParen) {
        match spec_idents1(toks, p + 2) {
            Some((q, l)) => if kind_at(toks, q, TokenKind::RParen) {
                (q + 1, l)
            } else {
                (p, seq![])
            },
            None => (p, seq![]),
        }
    } else {
        (p, seq![])
    }
}

/// `* options`, `expr AS alias` or `expr`.
pub open spec fn spec_select_item(toks: Seq<Lexeme>, p: int) -> Option<(int, SpecSelectItem)>
    decreases toks.len() - p, 7int,
{
    if 0 <= p && text_at(toks, p, "*"@) {
        let (q, o) = spec_wildcard_options(toks, p + 1);
        Some((q, SpecSelectItem::Wildcard(o)))
    } else if 0 <= p <= toks.len() {
        match spec_expr(toks, p) {
            Some((q, e)) => if kind_at(toks, q, TokenKind::AS) {
                match spec_ident(toks, q + 1) {
                    Some((r, alias)) => Some((r, SpecSelectItem::ExprWithAlias { expr: e, alias })),
                    None => Some((q, SpecSelectItem::UnnamedExpr(e))),
                }
            } else {
                Some((q, SpecSelectItem::UnnamedExpr(e)))
            },
            None => None,
        }
    } else {
        None
    }
}

pub open spec fn spec_select_items_tail(toks: Seq<Lexeme>, p: int) -> (int, Seq<SpecSelectItem>)
    decreases toks.len() - p, 0int,
{
    if 0 <= p && text_at(toks, p, ","@) {
        match spec_select_item(toks, p + 1) {
            Some((q, x)) => if p + 1 < q <= toks.len() {
                let (r, rest) = spec_select_items_tail(toks, q);
                (r, seq![x] + rest)
            } else {
                (p, seq![])
            },
            None => (p, seq![]),
        }
    } else {
        (p, seq![])
    }
}

/// One or more select items separated by `,`.
pub open spec fn spec_select_items1(toks: Seq<Lexeme>, p: int) -> Option<(int, Seq<SpecSelectItem>)>
    decreases toks.len() - p, 8int,
{
    if 0 <= p <= toks.len() {
        match spec_select_item(toks, p) {
            Some((q, x)) => if p < q <= toks.len() {
                let (r, rest) = spec_select_items_tail(toks, q);
                Some((r, seq![x] + rest))
            } else {
                None
            },
            None => None,
        }
    } else {
        None
    }
}

/// `name AS ( window_spec )`
pub open spec fn spec_named_window_def(toks: Seq<Lexeme>, p: int) -> Option<(int, SpecNamedWindowDef)>
    decreases toks.len() - p, 0int,
{
    match spec_ident(toks, p) {
        Some((p1, name)) => if 0 <= p && kind_at(toks, p1, TokenKind::AS) && kind_at(toks, p1 + 1, TokenKind::LParen) {
            let (q, spec) = spec_window_spec(toks, p1 + 2);
            if adv(toks, p1 + 2, q) && kind_at(toks, q, TokenKind::RParen) {
                Some((q + 1, SpecNamedWindowDef { name, spec }))
            } else {
                None
            }
        } else {
            None
        },
        None => None,
    }
}

pub open spec fn spec_named_window_defs_tail(toks: Seq<Lexeme>, p: int) -> (int, Seq<SpecNamedWindowDef>)
    decreases toks.len() - p, 0int,
{
    if 0 <= p && text_at(toks, p, ","@) {
        match spec_named_window_def(toks, p + 1) {
            Some((q, x)) => if p + 1 < q <= toks.len() {
                let (r, rest) = spec_named_window_defs_tail(toks, q);
                (r, seq![x] + rest)
            } else {
                (p, seq![])
            },
            None => (p, seq![]),
        }
    } else {
        (p, seq![])
    }
}

pub open spec fn spec_named_window_defs1(toks: Seq<Lexeme>, p: int) -> Option<(int, Seq<SpecNamedWindowDef>)>
    decreases toks.len() - p, 1int,
{
    if 0 <= p <= toks.len() {
        match spec_named_window_def(toks, p) {
            Some((q, x)) => if p < q <= toks.len() {
                let (r, rest) = spec_named_window_defs_tail(toks, q);
                Some((r, seq![x] + rest))
            } else {
                None
            },
            None => None,
        }
    } else {
        None
    }
}

// ---- table references ----

/// Operators of the table reference Pratt parser.
pub enum TablePrattOp {
    JoinOp(JoinOp),
    LParen,
    RParen,
}

/// The binding power of a table operator; `None` where the operator has none.
pub open spec fn spec_table_precedence(op: TablePrattOp, affix: AffixKind) -> Option<u32> {
    match affix {
        AffixKind::Prefix => match op {
            TablePrattOp::LParen => Some(0),
            _ => None,
        },
        AffixKind::Infix => match op {
            TablePrattOp::RParen => Some(0),
            TablePrattOp::JoinOp(_) => Some(1),
            _ => None,
        },
    }
}

/// The join keywords at `p`, with the position after them.
pub open spec fn spec_join_operator(toks: Seq<Lexeme>, p: int) -> Option<(int, JoinOp)> {
    if kind_at(toks, p, TokenKind::JOIN) {
        Some((p + 1, JoinOp::Inner))
    } else if kind_at(toks, p, TokenKind::INNER) && kind_at(toks, p + 1, TokenKind::JOIN) {
        Some((p + 2, JoinOp::Inner))
    } else if kind_at(toks, p, TokenKind::LEFT) && kind_at(toks, p + 1, TokenKind::JOIN) {
        Some((p + 2, JoinOp::LeftOuter))
    } else if kind_at(toks, p, TokenKind::LEFT) && kind_at(toks, p + 1, TokenKind::OUTER)
        && kind_at(toks, p + 2, TokenKind::JOIN) {
        Some((p + 3, JoinOp::LeftOuter))
    } else if kind_at(toks, p, TokenKind::RIGHT) && kind_at(toks, p + 1, TokenKind::JOIN) {
        Some((p + 2, JoinOp::RightOuter))
    } else if kind_at(toks, p, TokenKind::RIGHT) && kind_at(toks, p + 1, TokenKind::OUTER)
        && kind_at(toks, p + 2, TokenKind::JOIN) {
        Some((p + 3, JoinOp::LeftOuter))
    } else if kind_at(toks, p, TokenKind::FULL) && kind_at(toks, p + 1, TokenKind::JOIN) {
        Some((p + 2, JoinOp::FullOuter))
    } else if kind_at(toks, p, TokenKind::FULL) && kind_at(toks, p + 1, TokenKind::OUTER)
        && kind_at(toks, p + 2, TokenKind::JOIN) {
        Some((p + 3, JoinOp::FullOuter))
    } else if kind_at(toks, p, TokenKind::CROSS) && kind_at(toks, p + 1, TokenKind::JOIN) {
        Some((p + 2, JoinOp::CrossJoin))
    } else {
        None
    }
}

/// The table operator at `p`, with the position after it.
pub open spec fn spec_table_pratt_operator(toks: Seq<Lexeme>, p: int) -> Option<(int, TablePrattOp)> {
    if kind_at(toks, p, TokenKind::LParen) {
        Some((p + 1, TablePrattOp::LParen))
    } else if kind_at(toks, p, TokenKind::RParen) {
        Some((p + 1, TablePrattOp::RParen))
    } else {
        match spec_join_operator(toks, p) {
            Some((q, op)) => Some((q, TablePrattOp::JoinOp(op))),
            None => None,
        }
    }
}

/// `database . table` or `table`.
pub open spec fn spec_table_name(toks: Seq<Lexeme>, p: int) -> Option<(int, SpecTableName)> {
    match spec_ident(toks, p) {
        Some((p1, a)) => if kind_at(toks, p1, TokenKind::Dot) {
            match spec_ident(toks, p1 + 1) {
                Some((p2, b)) => Some((p2, SpecTableName { database: Some(a), table: b })),
                None => Some((p1, SpecTableName { database: None, table: a })),
            }
        } else {
            Some((p1, SpecTableName { database: None, table: a }))
        },
        None => None,
    }
}

/// `AS alias` or `alias`.
pub open spec fn spec_table_alias(toks: Seq<Lexeme>, p: int) -> Option<(int, Seq<char>)> {
    if kind_at(toks, p, TokenKind::AS) {
        match spec_ident(toks, p + 1) {
            Some(r) => Some(r),
            None => spec_ident(toks, p),
        }
    } else {
        spec_ident(toks, p)
    }
}

/// `table_name [alias]`
pub open spec fn spec_base_table(toks: Seq<Lexeme>, p: int) -> Option<(int, SpecTableRef)> {
    match spec_table_name(toks, p) {
        Some((p1, name)) => match spec_table_alias(toks, p1) {
            Some((q, alias)) => Some((q, SpecTableRef::BaseTable { name, alias: Some(alias) })),
            None => Some((p1, SpecTableRef::BaseTable { name, alias: None })),
        },
        None => None,
    }
}

/// A table reference: Pratt parsing from the lowest binding power.
pub open spec fn spec_table_ref(toks: Seq<Lexeme>, p: int) -> Option<(int, SpecTableRef)>
    decreases toks.len() - p, 6int,
{
    if 0 <= p <= toks.len() {
        spec_table_pratt(toks, p, 0)
    } else {
        None
    }
}

pub open spec fn spec_table_pratt(toks: Seq<Lexeme>, p: int, lbp: u32) -> Option<(int, SpecTableRef)>
    decreases toks.len() - p, 5int,
{
    if 0 <= p <= toks.len() {
        match spec_table_prefix(toks, p) {
            Some((q, left)) => if p < q <= toks.len() {
                spec_table_pratt_loop(toks, q, left, lbp)
            } else {
                None
            },
            None => None,
        }
    } else {
        None
    }
}

pub open spec fn spec_table_pratt_loop(toks: Seq<Lexeme>, q: int, left: SpecTableRef, lbp: u32) -> Option<(int, SpecTableRef)>
    decreases toks.len() - q, 3int,
{
    if 0 <= q <= toks.len() {
        match spec_table_pratt_operator(toks, q) {
            None => Some((q, left)),
            Some((_, op)) => match spec_table_precedence(op, AffixKind::Infix) {
                None => Some((q, left)),
                Some(bp) => if lbp >= bp {
                    Some((q, left))
                } else {
                    match spec_table_infix(toks, q, left) {
                        Some((r, t)) => if q < r <= toks.len() {
                            spec_table_pratt_loop(toks, r, t, lbp)
                        } else {
                            None
                        },
                        None => None,
                    }
                },
            },
        }
    } else {
        None
    }
}

/// The join at `q` with `left` as its left side.
pub open spec fn spec_table_infix(toks: Seq<Lexeme>, q: int, left: SpecTableRef) -> Option<(int, SpecTableRef)>
    decreases toks.len() - q, 2int,
{
    match spec_table_pratt_operator(toks, q) {
        Some((q1, TablePrattOp::JoinOp(op))) => if 0 <= q < q1 <= toks.len() {
            match spec_table_pratt(toks, q1, 1) {
                Some((r, right)) => if adv(toks, q1, r) {
                    match spec_join_condition(toks, r) {
                        Some((s, condition)) => Some(
                            (s, SpecTableRef::Join { op, condition, left: Box::new(left), right: Box::new(right) }),
                        ),
                        None => None,
                    }
                } else {
                    None
                },
                None => None,
            }
        } else {
            None
        },
        _ => None,
    }
}

/// `ON expr`
pub open spec fn spec_join_condition(toks: Seq<Lexeme>, p: int) -> Option<(int, SpecJoinCondition)>
    decreases toks.len() - p, 0int,
{
    if 0 <= p && kind_at(toks, p, TokenKind::ON) {
        match spec_expr(toks, p + 1) {
            Some((q, e)) => Some((q, SpecJoinCondition::On(Box::new(e)))),
            None => None,
        }
    } else {
        None
    }
}

/// The table reference that a prefix token at `p` starts.
pub open spec fn spec_table_prefix(toks: Seq<Lexeme>, p: int) -> Option<(int, SpecTableRef)>
    decreases toks.len() - p, 4int,
{
    if 0 <= p < toks.len() {
        match toks[p].kind {
            TokenKind::LParen => match spec_table_pratt(toks, p + 1, 0) {
                Some((q, t)) => if adv(toks, p + 1, q) && kind_at(toks, q, TokenKind::RParen) {
                    match spec_table_alias(toks, q + 1) {
                        Some((r, alias)) => match t {
                            SpecTableRef::BaseTable { name, .. } => Some(
                                (r, SpecTableRef::BaseTable { name, alias: Some(alias) }),
                            ),
                            SpecTableRef::Subquery { subquery, .. } => Some(
                                (r, SpecTableRef::Subquery { subquery, alias: Some(alias) }),
                            ),
                            SpecTableRef::Join { .. } => None,
                        },
                        None => Some((q + 1, t)),
                    }
                } else {
                    None
                },
                None => None,
            },
            TokenKind::SELECT => match spec_select_stmt(toks, p) {
                Some((q, s)) => Some((q, SpecTableRef::Subquery { subquery: Box::new(s), alias: None })),
                None => None,
            },
            TokenKind::Ident => spec_base_table(toks, p),
            _ => None,
        }
    } else {
        None
    }
}

} // verus!

verus! {

/// The error text of a failed Pratt parse at `p`: the first step that failed gives it.
pub open spec fn pratt_error(toks: Seq<Lexeme>, p: int, lbp: u32) -> Seq<char>
    decreases toks.len() - p, 5int,
{
    if 0 <= p <= toks.len() {
        match spec_prefix(toks, p) {
            None => prefix_error(toks, p),
            Some((q, left)) => if p < q <= toks.len() {
                pratt_loop_error(toks, q, left, lbp)
            } else {
                seq![]
            },
        }
    } else {
        seq![]
    }
}

/// The error text of a failed extension of `left` by infix operators from `q` on.
pub open spec fn pratt_loop_error(toks: Seq<Lexeme>, q: int, left: SpecExpr, lbp: u32) -> Seq<char>
    decreases toks.len() - q, 3int,
{
    if 0 <= q <= toks.len() {
        match spec_pratt_operator(toks, q) {
            None => seq![],
            Some(op) => if lbp >= infix_bp(op) {
                seq![]
            } else {
                match spec_infix(toks, q, left) {
                    None => infix_error(toks, q),
                    Some((r, e)) => if q < r <= toks.len() {
                        pratt_loop_error(toks, r, e, lbp)
                    } else {
                        seq![]
                    },
                }
            },
        }
    } else {
        seq![]
    }
}

/// The error text of a failed infix step at `q`.
pub open spec fn infix_error(toks: Seq<Lexeme>, q: int) -> Seq<char>
    decreases toks.len() - q, 2int,
{
    if 0 <= q < toks.len() {
        match toks[q].kind {
            TokenKind::Plus | TokenKind::Minus => pratt_error(toks, q + 1, 11),
            TokenKind::Multiply | TokenKind::Divide => pratt_error(toks, q + 1, 12),
            TokenKind::Gt | TokenKind::Lt | TokenKind::GtEq | TokenKind::LtEq | TokenKind::Eq
            | TokenKind::NotEq => pratt_error(toks, q + 1, 10),
            TokenKind::AND => pratt_error(toks, q + 1, 9),
            TokenKind::OR => pratt_error(toks, q + 1, 8),
            TokenKind::IN => "Failed to parse InSubquery or InList"@,
            TokenKind::NOT => if kind_at(toks, q + 1, TokenKind::IN) {
                "Failed to parse InSubquery or InList"@
            } else if q + 1 < toks.len() {
                "Not support pratt operator: not "@ + kind_name(toks[q + 1].kind)
            } else {
                "No token found"@
            },
            _ => "The token can't be treated as infix"@,
        }
    } else {
        "No token found"@
    }
}

/// The error text of a failed prefix step at `p`.
pub open spec fn prefix_error(toks: Seq<Lexeme>, p: int) -> Seq<char>
    decreases toks.len() - p, 4int,
{
    if 0 <= p < toks.len() {
        match toks[p].kind {
            TokenKind::LParen => match spec_pratt(toks, p + 1, 0) {
                None => pratt_error(toks, p + 1, 0),
                Some(_) => "Expect ')' token"@,
            },
            TokenKind::LiteralInteger => seq![],
            TokenKind::Ident | TokenKind::NOT | TokenKind::EXISTS => "can not find prefix expr"@,
            TokenKind::Plus | TokenKind::Minus => pratt_error(toks, p + 1, 300),
            TokenKind::SELECT => "can not parse select statement"@,
            _ => "First token can't be treated as prefix"@,
        }
    } else {
        "No token found"@
    }
}

/// The error text of a failed Pratt parse of a table reference at `p`.
pub open spec fn table_pratt_error(toks: Seq<Lexeme>, p: int, lbp: u32) -> Seq<char>
    decreases toks.len() - p, 5int,
{
    if 0 <= p <= toks.len() {
        match spec_table_prefix(toks, p) {
            None => table_prefix_error(toks, p),
            Some((q, left)) => if p < q <= toks.len() {
                table_pratt_loop_error(toks, q, left, lbp)
            } else {
                seq![]
            },
        }
    } else {
        seq![]
    }
}

/// The error text of a failed extension of `left` by joins from `q` on.
pub open spec fn table_pratt_loop_error(toks: Seq<Lexeme>, q: int, left: SpecTableRef, lbp: u32) -> Seq<char>
    decreases toks.len() - q, 3int,
{
    if 0 <= q <= toks.len() {
        match spec_table_pratt_operator(toks, q) {
            None => seq![],
            Some((_, op)) => match spec_table_precedence(op, AffixKind::Infix) {
                None => seq![],
                Some(bp) => if lbp >= bp {
                    seq![]
                } else {
                    match spec_table_infix(toks, q, left) {
                        None => table_infix_error(toks, q),
                        Some((r, t)) => if q < r <= toks.len() {
                            table_pratt_loop_error(toks, r, t, lbp)
                        } else {
                            seq![]
                        },
                    }
                },
            },
        }
    } else {
        seq![]
    }
}

/// The error text of a failed join at `q`.
pub open spec fn table_infix_error(toks: Seq<Lexeme>, q: int) -> Seq<char>
    decreases toks.len() - q, 2int,
{
    match spec_table_pratt_operator(toks, q) {
        Some((q1, TablePrattOp::JoinOp(op))) => if 0 <= q < q1 <= toks.len() {
            match spec_table_pratt(toks, q1, 1) {
                None => table_pratt_error(toks, q1, 1),
                Some(_) => "failed to parse join condition"@,
            }
        } else {
            seq![]
        },
        Some(_) => "The pratt operator can't be treated as infix"@,
        None => "No infix operator found"@,
    }
}

/// The error text of a failed prefix step of a table reference at `p`.
pub open spec fn table_prefix_error(toks: Seq<Lexeme>, p: int) -> Seq<char>
    decreases toks.len() - p, 4int,
{
    if 0 <= p < toks.len() {
        match toks[p].kind {
            TokenKind::LParen => match spec_table_pratt(toks, p + 1, 0) {
                None => table_pratt_error(toks, p + 1, 0),
                Some((q, t)) => if adv(toks, p + 1, q) && kind_at(toks, q, TokenKind::RParen) {
                    "Joined table should not have an alias"@
                } else {
                    "Expect ')' token"@
                },
            },
            TokenKind::SELECT => "can not find prefix subquery"@,
            TokenKind::Ident => "can not find prefix base table"@,
            _ => "First token can't be treated as prefix"@,
        }
    } else {
        "No token found"@
    }
}

/// Where the body of a query starts: after its WITH clause, if it has one.
pub open spec fn with_end(toks: Seq<Lexeme>, p: int) -> int {
    match spec_with_clause(toks, p) {
        Some((q, _)) => if adv(toks, p, q) {
            q
        } else {
            p
        },
        None => p,
    }
}

/// The error text of a failed SELECT body at `p`: the missing `SELECT`, or the
/// error of the first select item, which is that of its expression.
pub open spec fn select_set_expr_error(toks: Seq<Lexeme>, p: int) -> Seq<char> {
    if kind_at(toks, p, TokenKind::SELECT) {
        let p1 = if kind_at(toks, p + 1, TokenKind::DISTINCT) { p + 2 } else { p + 1 };
        pratt_error(toks, p1, 0)
    } else {
        "token kind "@ + kind_name(TokenKind::SELECT) + " does not match"@
    }
}

/// The error text of a failed query at `p`: that of its body.
pub open spec fn select_stmt_error(toks: Seq<Lexeme>, p: int) -> Seq<char> {
    select_set_expr_error(toks, with_end(toks, p))
}

/// The error text of a failed function call at `p`: the first of its name and its
/// brackets that is missing.
pub open spec fn function_expr_error(toks: Seq<Lexeme>, p: int) -> Seq<char> {
    match spec_ident(toks, p) {
        None => "ident should not be a keyword"@,
        Some((p1, _)) => if kind_at(toks, p1, TokenKind::LParen) {
            "token kind "@ + kind_name(TokenKind::RParen) + " does not match"@
        } else {
            "token kind "@ + kind_name(TokenKind::LParen) + " does not match"@
        },
    }
}

/// The integer literal that a token stands for.
pub open spec fn literal_operand(t: Lexeme) -> SpecExpr {
    SpecExpr::Literal(SpecLiteral::UnsignedInteger(t.value as usize))
}

/// The binary operator that a token of this kind stands for between two operands,
/// with its binding power.
pub open spec fn binary_operator(k: TokenKind) -> Option<(BinaryOp, u32)> {
    match k {
        TokenKind::Plus => Some((BinaryOp::Add, 11)),
        TokenKind::Minus => Some((BinaryOp::Sub, 11)),
        TokenKind::Multiply => Some((BinaryOp::Mul, 12)),
        TokenKind::Gt => Some((BinaryOp::Gt, 10)),
        TokenKind::Lt => Some((BinaryOp::Lt, 10)),
        TokenKind::GtEq => Some((BinaryOp::GtEq, 10)),
        TokenKind::LtEq => Some((BinaryOp::LtEq, 10)),
        TokenKind::Eq => Some((BinaryOp::Eq, 10)),
        TokenKind::NotEq => Some((BinaryOp::NotEq, 10)),
        TokenKind::AND => Some((BinaryOp::And, 9)),
        TokenKind::OR => Some((BinaryOp::Or, 8)),
        _ => None,
    }
}

pub open spec fn binary(left: SpecExpr, op: BinaryOp, right: SpecExpr) -> SpecExpr {
    SpecExpr::BinaryOp { left: Box::new(left), op, right: Box::new(right) }
}

/// An operand followed by the end of the tokens is the operand alone.
proof fn lemma_operand_at_end(toks: Seq<Lexeme>, p: int, lbp: u32)
    requires
        p == toks.len() - 1,
        p >= 0,
        toks[p].kind == TokenKind::LiteralInteger,
    ensures
        spec_pratt(toks, p, lbp) == Some((p + 1, literal_operand(toks[p]))),
{
    assert(spec_prefix(toks, p) == Some((p + 1, literal_operand(toks[p]))));
    assert(spec_pratt_operator(toks, p + 1) is None);
    assert(spec_pratt_loop(toks, p + 1, literal_operand(toks[p]), lbp) == Some((p + 1, literal_operand(toks[p]))));
}

/// Operator `o` between `left` and the last operand, at the end of the tokens.
proof fn lemma_last_operation(toks: Seq<Lexeme>, q: int, left: SpecExpr, lbp: u32)
    requires
        q == toks.len() - 2,
        q >= 0,
        binary_operator(toks[q].kind) matches Some((op, bp)) && lbp < bp,
        toks[q + 1].kind == TokenKind::LiteralInteger,
    ensures
        spec_pratt_loop(toks, q, left, lbp) == Some(
            (q + 2, binary(left, binary_operator(toks[q].kind).unwrap().0, literal_operand(toks[q + 1]))),
        ),
{
    let (op, bp) = binary_operator(toks[q].kind).unwrap();
    lemma_operand_at_end(toks, q + 1, bp);
    let e = binary(left, op, literal_operand(toks[q + 1]));
    assert(spec_pratt_operator(toks, q) is Some && infix_bp(spec_pratt_operator(toks, q).unwrap()) == bp);
    assert(binary_rest(toks, q, left, op, bp) == Some((q + 2, e)));
    assert(spec_infix(toks, q, left) == Some((q + 2, e)));
    assert(spec_pratt_operator(toks, q + 2) is None);
    assert(spec_pratt_loop(toks, q + 2, e, lbp) == Some((q + 2, e)));
}

/// How two binary operators group three operands: the first operator takes the
/// middle operand when it binds at least as strongly as the second (so operators
/// of equal binding power group to the left); otherwise the second one does.
/// (`/` is left out: it is not an operator of the expression loop.)
pub proof fn law_binary_grouping(toks: Seq<Lexeme>)
    requires
        toks.len() == 5,
        toks[0].kind == TokenKind::LiteralInteger,
        toks[2].kind == TokenKind::LiteralInteger,
        toks[4].kind == TokenKind::LiteralInteger,
        binary_operator(toks[1].kind) is Some,
        binary_operator(toks[3].kind) is Some,
    ensures
        ({
            let (op1, bp1) = binary_operator(toks[1].kind).unwrap();
            let (op2, bp2) = binary_operator(toks[3].kind).unwrap();
            let x = literal_operand(toks[0]);
            let y = literal_operand(toks[2]);
            let z = literal_operand(toks[4]);
            spec_expr(toks, 0) == Some(
                (
                    5int,
                    if bp1 >= bp2 {
                        binary(binary(x, op1, y), op2, z)
                    } else {
                        binary(x, op1, binary(y, op2, z))
                    },
                ),
            )
        }),
{
    let (op1, bp1) = binary_operator(toks[1].kind).unwrap();
    let (op2, bp2) = binary_operator(toks[3].kind).unwrap();
    let x = literal_operand(toks[0]);
    let y = literal_operand(toks[2]);
    assert(spec_prefix(toks, 0) == Some((1int, x)));
    assert(spec_prefix(toks, 2) == Some((3int, y)));
    assert(spec_pratt_operator(toks, 1) is Some && infix_bp(spec_pratt_operator(toks, 1).unwrap()) == bp1);
    assert(spec_pratt_operator(toks, 3) is Some && infix_bp(spec_pratt_operator(toks, 3).unwrap()) == bp2);
    if bp1 >= bp2 {
        assert(spec_pratt_loop(toks, 3, y, bp1) == Some((3int, y)));
        assert(spec_pratt(toks, 2, bp1) == Some((3int, y)));
        let xy = binary(x, op1, y);
        assert(binary_rest(toks, 1, x, op1, bp1) == Some((3int, xy)));
        assert(spec_infix(toks, 1, x) == Some((3int, xy)));
        lemma_last_operation(toks, 3, xy, 0);
        assert(spec_pratt_loop(toks, 1, x, 0) == spec_pratt_loop(toks, 3, xy, 0));
    } else {
        lemma_last_operation(toks, 3, y, bp1);
        let yz = binary(y, op2, literal_operand(toks[4]));
        assert(spec_pratt(toks, 2, bp1) == Some((5int, yz)));
        let e = binary(x, op1, yz);
        assert(binary_rest(toks, 1, x, op1, bp1) == Some((5int, e)));
        assert(spec_infix(toks, 1, x) == Some((5int, e)));
        assert(spec_pratt_operator(toks, 5) is None);
        assert(spec_pratt_loop(toks, 5, e, 0) == Some((5int, e)));
        assert(spec_pratt_loop(toks, 1, x, 0) == Some((5int, e)));
    }
    assert(spec_pratt(toks, 0, 0) == spec_pratt_loop(toks, 1, x, 0));
}

/// The base table that an identifier token names, without database or alias.
pub open spec fn plain_table(t: Lexeme) -> SpecTableRef {
    SpecTableRef::BaseTable { name: SpecTableName { database: None, table: t.text }, alias: None }
}

pub open spec fn inner_join(left: SpecTableRef, right: SpecTableRef, on: SpecExpr) -> SpecTableRef {
    SpecTableRef::Join {
        op: JoinOp::Inner,
        condition: SpecJoinCondition::On(Box::new(on)),
        left: Box::new(left),
        right: Box::new(right),
    }
}

/// `name` at `p`, then `JOIN` or the end, is that table.
proof fn lemma_plain_table(toks: Seq<Lexeme>, p: int, lbp: u32)
    requires
        0 <= p < toks.len(),
        toks[p].kind == TokenKind::Ident,
        p + 1 < toks.len() ==> toks[p + 1].kind == TokenKind::ON,
    ensures
        spec_table_prefix(toks, p) == Some((p + 1, plain_table(toks[p]))),
        lbp >= 1 ==> spec_table_pratt(toks, p, lbp) == Some((p + 1, plain_table(toks[p]))),
{
    assert(spec_table_name(toks, p) == Some((p + 1, SpecTableName { database: None, table: toks[p].text })));
    assert(spec_table_alias(toks, p + 1) is None);
    assert(spec_base_table(toks, p) == Some((p + 1, plain_table(toks[p]))));
    assert(spec_table_pratt_operator(toks, p + 1) is None);
}

/// `ON literal` at `p`, then `JOIN` or the end.
proof fn lemma_literal_condition(toks: Seq<Lexeme>, p: int)
    requires
        0 <= p,
        p + 1 < toks.len(),
        toks[p].kind == TokenKind::ON,
        toks[p + 1].kind == TokenKind::LiteralInteger,
        p + 2 < toks.len() ==> toks[p + 2].kind == TokenKind::JOIN,
    ensures
        spec_join_condition(toks, p) == Some((p + 2, SpecJoinCondition::On(Box::new(literal_operand(toks[p + 1]))))),
{
    let x = literal_operand(toks[p + 1]);
    assert(spec_prefix(toks, p + 1) == Some((p + 2, x)));
    assert(spec_pratt_operator(toks, p + 2) is None);
    assert(spec_pratt_loop(toks, p + 2, x, 0) == Some((p + 2, x)));
    assert(spec_expr(toks, p + 1) == Some((p + 2, x)));
}

/// Joins group to the left: `a JOIN b ON x JOIN c ON y` joins `a` with `b` first,
/// then the result with `c`.
pub proof fn law_joins_group_left(toks: Seq<Lexeme>)
    requires
        toks.len() == 9,
        toks[0].kind == TokenKind::Ident,
        toks[1].kind == TokenKind::JOIN,
        toks[2].kind == TokenKind::Ident,
        toks[3].kind == TokenKind::ON,
        toks[4].kind == TokenKind::LiteralInteger,
        toks[5].kind == TokenKind::JOIN,
        toks[6].kind == TokenKind::Ident,
        toks[7].kind == TokenKind::ON,
        toks[8].kind == TokenKind::LiteralInteger,
    ensures
        spec_table_ref(toks, 0) == Some(
            (
                9int,
                inner_join(
                    inner_join(plain_table(toks[0]), plain_table(toks[2]), literal_operand(toks[4])),
                    plain_table(toks[6]),
                    literal_operand(toks[8]),
                ),
            ),
        ),
{
    let a = plain_table(toks[0]);
    let b = plain_table(toks[2]);
    let c = plain_table(toks[6]);
    let x = literal_operand(toks[4]);
    let y = literal_operand(toks[8]);
    assert(spec_table_name(toks, 0) == Some((1int, SpecTableName { database: None, table: toks[0].text })));
    assert(spec_table_alias(toks, 1) is None);
    assert(spec_table_prefix(toks, 0) == Some((1int, a)));
    lemma_plain_table(toks, 2, 1);
    lemma_plain_table(toks, 6, 1);
    lemma_literal_condition(toks, 3);
    lemma_literal_condition(toks, 7);
    assert(spec_join_operator(toks, 1) == Some((2int, JoinOp::Inner)));
    assert(spec_join_operator(toks, 5) == Some((6int, JoinOp::Inner)));
    let ab = inner_join(a, b, x);
    assert(spec_table_infix(toks, 1, a) == Some((5int, ab)));
    let abc = inner_join(ab, c, y);
    assert(spec_table_infix(toks, 5, ab) == Some((9int, abc)));
    assert(spec_table_pratt_operator(toks, 9) is None);
    assert(spec_table_pratt_loop(toks, 9, abc, 0) == Some((9int, abc)));
    assert(spec_table_pratt_loop(toks, 5, ab, 0) == Some((9int, abc)));
    assert(spec_table_pratt_loop(toks, 1, a, 0) == Some((9int, abc)));
    assert(spec_table_pratt(toks, 0, 0) == Some((9int, abc)));
}

/// A unary `-` or `+` binds more strongly than every binary operator: `-x op y`
/// applies `op` to `-x` and `y`.
pub proof fn law_unary_binds_tightest(toks: Seq<Lexeme>)
    requires
        toks.len() == 4,
        toks[0].kind == TokenKind::Minus || toks[0].kind == TokenKind::Plus,
        toks[1].kind == TokenKind::LiteralInteger,
        binary_operator(toks[2].kind) is Some,
        toks[3].kind == TokenKind::LiteralInteger,
    ensures
        ({
            let u = if toks[0].kind == TokenKind::Minus { UnaryOp::Minus } else { UnaryOp::Plus };
            let x = SpecExpr::UnaryOp { op: u, expr: Box::new(literal_operand(toks[1])) };
            spec_expr(toks, 0) == Some(
                (4int, binary(x, binary_operator(toks[2].kind).unwrap().0, literal_operand(toks[3]))),
            )
        }),
{
    let u = if toks[0].kind == TokenKind::Minus { UnaryOp::Minus } else { UnaryOp::Plus };
    let lit = literal_operand(toks[1]);
    let x = SpecExpr::UnaryOp { op: u, expr: Box::new(lit) };
    let (op, bp) = binary_operator(toks[2].kind).unwrap();
    assert(spec_prefix(toks, 1) == Some((2int, lit)));
    assert(spec_pratt_operator(toks, 2) is Some && infix_bp(spec_pratt_operator(toks, 2).unwrap()) == bp);
    assert(spec_pratt_loop(toks, 2, lit, 300) == Some((2int, lit)));
    assert(spec_pratt(toks, 1, 300) == Some((2int, lit)));
    assert(unary_rest(toks, 0, u) == Some((2int, x)));
    assert(spec_prefix(toks, 0) == Some((2int, x)));
    lemma_last_operation(toks, 2, x, 0);
    assert(spec_pratt(toks, 0, 0) == spec_pratt_loop(toks, 2, x, 0));
}

/// Brackets override binding power: `(x op1 y) op2 z` applies `op2` to the
/// bracketed expression and `z`, whatever the two operators.
pub proof fn law_brackets_group(toks: Seq<Lexeme>)
    requires
        toks.len() == 7,
        toks[0].kind == TokenKind::LParen,
        toks[1].kind == TokenKind::LiteralInteger,
        binary_operator(toks[2].kind) is Some,
        toks[3].kind == TokenKind::LiteralInteger,
        toks[4].kind == TokenKind::RParen,
        binary_operator(toks[5].kind) is Some,
        toks[6].kind == TokenKind::LiteralInteger,
    ensures
        spec_expr(toks, 0) == Some(
            (
                7int,
                binary(
                    binary(literal_operand(toks[1]), binary_operator(toks[2].kind).unwrap().0, literal_operand(toks[3])),
                    binary_operator(toks[5].kind).unwrap().0,
                    literal_operand(toks[6]),
                ),
            ),
        ),
{
    let (op1, bp1) = binary_operator(toks[2].kind).unwrap();
    let x = literal_operand(toks[1]);
    let y = literal_operand(toks[3]);
    let xy = binary(x, op1, y);
    assert(spec_prefix(toks, 1) == Some((2int, x)));
    assert(spec_prefix(toks, 3) == Some((4int, y)));
    assert(spec_pratt_operator(toks, 2) is Some && infix_bp(spec_pratt_operator(toks, 2).unwrap()) == bp1);
    assert(spec_pratt_operator(toks, 4) is None);
    assert(spec_pratt_loop(toks, 4, y, bp1) == Some((4int, y)));
    assert(spec_pratt(toks, 3, bp1) == Some((4int, y)));
    assert(binary_rest(toks, 2, x, op1, bp1) == Some((4int, xy)));
    assert(spec_infix(toks, 2, x) == Some((4int, xy)));
    assert(spec_pratt_loop(toks, 4, xy, 0) == Some((4int, xy)));
    assert(spec_pratt_loop(toks, 2, x, 0) == Some((4int, xy)));
    assert(spec_pratt(toks, 1, 0) == Some((4int, xy)));
    assert(spec_prefix(toks, 0) == Some((5int, xy)));
    lemma_last_operation(toks, 5, xy, 0);
    assert(spec_pratt(toks, 0, 0) == spec_pratt_loop(toks, 5, xy, 0));
}

/// The operator loop stops only before an operator that binds at most as strongly
/// as `lbp`, or where no operator follows.
pub proof fn lemma_pratt_loop_stops(toks: Seq<Lexeme>, q: int, left: SpecExpr, lbp: u32)
    ensures
        spec_pratt_loop(toks, q, left, lbp) matches Some((r, _)) ==> (spec_pratt_operator(toks, r) matches Some(
            op,
        ) ==> infix_bp(op) <= lbp),
    decreases toks.len() - q,
{
    if 0 <= q <= toks.len() {
        match spec_pratt_operator(toks, q) {
            Some(op) => if lbp < infix_bp(op) {
                match spec_infix(toks, q, left) {
                    Some((r, e)) => if q < r <= toks.len() {
                        lemma_pratt_loop_stops(toks, r, e, lbp);
                    },
                    None => {},
                }
            },
            None => {},
        }
    }
}

/// An expression parsed with binding power `lbp` takes every following operator
/// that binds more strongly than `lbp` and stops before the first one that binds
/// at most as strongly (or where no operator follows).
pub proof fn law_pratt_stops_at_looser_operator(toks: Seq<Lexeme>, p: int, lbp: u32)
    ensures
        spec_pratt(toks, p, lbp) matches Some((q, _)) ==> (spec_pratt_operator(toks, q) matches Some(op)
            ==> infix_bp(op) <= lbp),
{
    if 0 <= p <= toks.len() {
        match spec_prefix(toks, p) {
            Some((q, left)) => if p < q <= toks.len() {
                lemma_pratt_loop_stops(toks, q, left, lbp);
            },
            None => {},
        }
    }
}

/// The right operand of a binary operator at `q` is the expression after it parsed
/// with the operator's binding power: it takes every following operator that binds
/// more strongly and none that binds as loosely.
pub proof fn law_infix_right_operand(toks: Seq<Lexeme>, q: int, left: SpecExpr)
    requires
        0 <= q < toks.len(),
        binary_operator(toks[q].kind) is Some,
    ensures
        ({
            let (op, bp) = binary_operator(toks[q].kind).unwrap();
            &&& spec_infix(toks, q, left) == match spec_pratt(toks, q + 1, bp) {
                Some((r, right)) => Some((r, binary(left, op, right))),
                None => None,
            }
            &&& spec_infix(toks, q, left) matches Some((r, _)) ==> (spec_pratt_operator(toks, r) matches Some(
                next,
            ) ==> infix_bp(next) <= bp)
        }),
{
    let (op, bp) = binary_operator(toks[q].kind).unwrap();
    law_pratt_stops_at_looser_operator(toks, q + 1, bp);
}

/// The test and the negation of an `IN` expression: the expression it tests and
/// whether it is negated; `None` for other expressions.
pub open spec fn membership(e: SpecExpr) -> Option<(SpecExpr, bool)> {
    match e {
        SpecExpr::InList { not, expr, .. } => Some((*expr, not)),
        SpecExpr::InSubquery { not, expr, .. } => Some((*expr, not)),
        _ => None,
    }
}

/// The same `IN` expression with its negation flipped; other expressions unchanged.
pub open spec fn negated(e: SpecExpr) -> SpecExpr {
    match e {
        SpecExpr::InList { not, expr, list } => SpecExpr::InList { not: !not, expr, list },
        SpecExpr::InSubquery { not, expr, subquery } => SpecExpr::InSubquery { not: !not, expr, subquery },
        _ => e,
    }
}

/// What follows `IN` or `NOT IN` is read the same way for both: the two readings
/// end at the same token and build the same test of `left`, negated exactly in
/// the reading asked for with `not`.
pub proof fn law_in_rest_negation(toks: Seq<Lexeme>, p: int, left: SpecExpr, not: bool)
    ensures
        spec_in_rest(toks, p, left, not) matches Some((_, e)) ==> membership(e) == Some((left, not)),
        spec_in_rest(toks, p, left, !not) == match spec_in_rest(toks, p, left, not) {
            Some((r, e)) => Some((r, negated(e))),
            None => None,
        },
{
}

/// `NOT IN` negates and `IN` does not: the expression that an `IN` or `NOT IN`
/// operator at `q` builds tests `left`, and it is negated exactly when the
/// operator is `NOT IN`, for a list as for a subquery.
pub proof fn law_not_in_negates(toks: Seq<Lexeme>, q: int, left: SpecExpr)
    requires
        kind_at(toks, q, TokenKind::IN) || kind_at(toks, q, TokenKind::NOT),
    ensures
        spec_infix(toks, q, left) matches Some((_, e)) ==> membership(e) == Some(
            (left, kind_at(toks, q, TokenKind::NOT)),
        ),
{
    law_in_rest_negation(toks, q + 1, left, false);
    law_in_rest_negation(toks, q + 2, left, true);
}

/// `OFFSET e` alone sets the offset and never the limit, and `LIMIT e` sets the
/// limit: the first expression of the clause is the offset after `OFFSET` and the
/// limit after `LIMIT`; an offset after a limit is the expression that follows
/// `OFFSET` or the comma. The clause is read whenever that first expression is.
pub proof fn law_limit_and_offset(toks: Seq<Lexeme>, p: int)
    requires
        0 <= p,
    ensures
        kind_at(toks, p, TokenKind::OFFSET) ==> (spec_limit_offset_clause(toks, p) is Some <==> spec_expr(
            toks,
            p + 1,
        ) is Some),
        kind_at(toks, p, TokenKind::OFFSET) ==> (spec_limit_offset_clause(toks, p) matches Some((q, l, o)) ==> l
            is None && o is Some && spec_expr(toks, p + 1) == Some((q, o.unwrap()))),
        kind_at(toks, p, TokenKind::LIMIT) ==> (spec_limit_offset_clause(toks, p) is Some <==> spec_expr(
            toks,
            p + 1,
        ) is Some),
        kind_at(toks, p, TokenKind::LIMIT) ==> (spec_limit_offset_clause(toks, p) matches Some((r, l, o)) ==> {
            &&& spec_expr(toks, p + 1) matches Some((q, e))
            &&& l == Some(e)
            &&& o is None ==> r == q
            &&& o is Some ==> (kind_at(toks, q, TokenKind::OFFSET) || kind_at(toks, q, TokenKind::Comma))
                && spec_expr(toks, q + 1) == Some((r, o.unwrap()))
        }),
{
}

/// `ASC` and `DESC` set the direction of an `ORDER BY` item and nothing else does:
/// the item is the expression at `p`, ascending when `ASC` follows it, descending
/// when `DESC` follows it, and without a direction otherwise.
pub proof fn law_order_direction(toks: Seq<Lexeme>, p: int)
    ensures
        spec_order_by_expr(toks, p) matches Some((r, o)) ==> {
            &&& spec_expr(toks, p) matches Some((q, e))
            &&& o.expr == e
            &&& (o.asc == Some(true) <==> kind_at(toks, q, TokenKind::ASC))
            &&& (o.asc == Some(false) <==> kind_at(toks, q, TokenKind::DESC))
            &&& (o.asc is None <==> r == q)
        },
{
}

/// `NOT EXISTS` negates and `EXISTS` does not: an `EXISTS` test read at `p` is
/// negated exactly when it starts with `NOT`.
pub proof fn law_not_exists_negates(toks: Seq<Lexeme>, p: int)
    ensures
        spec_exists_expr(toks, p) matches Some((_, e)) ==> (e matches SpecExpr::Exists { not, .. } && not == kind_at(
            toks,
            p,
            TokenKind::NOT,
        )),
{
}

/// A leading `-` negates and a leading `+` keeps the sign: the expression that a
/// sign at `p` starts applies that sign, and no other.
pub proof fn law_sign_prefix(toks: Seq<Lexeme>, p: int)
    requires
        kind_at(toks, p, TokenKind::Minus) || kind_at(toks, p, TokenKind::Plus),
    ensures
        spec_prefix(toks, p) matches Some((_, e)) ==> (e matches SpecExpr::UnaryOp { op, .. } && (op
            == UnaryOp::Minus <==> kind_at(toks, p, TokenKind::Minus))),
{
}

/// The bytes of a text whose characters are ASCII.
pub open spec fn ascii_bytes(t: Seq<char>) -> Seq<u8> {
    t.map_values(|c: char| c as u8)
}

/// The bytes of each printed operator.
proof fn lemma_printed_operator_bytes(op: BinaryOp)
    ensures
        op == BinaryOp::Add ==> ascii_bytes(print_binary_op(op)) == seq!['+' as u8],
        op == BinaryOp::Sub ==> ascii_bytes(print_binary_op(op)) == seq!['-' as u8],
        op == BinaryOp::Mul ==> ascii_bytes(print_binary_op(op)) == seq!['*' as u8],
        op == BinaryOp::Div ==> ascii_bytes(print_binary_op(op)) == seq!['/' as u8],
        op == BinaryOp::Gt ==> ascii_bytes(print_binary_op(op)) == seq!['>' as u8],
        op == BinaryOp::Lt ==> ascii_bytes(print_binary_op(op)) == seq!['<' as u8],
        op == BinaryOp::GtEq ==> ascii_bytes(print_binary_op(op)) == seq!['>' as u8, '=' as u8],
        op == BinaryOp::LtEq ==> ascii_bytes(print_binary_op(op)) == seq!['<' as u8, '=' as u8],
        op == BinaryOp::Eq ==> ascii_bytes(print_binary_op(op)) == seq!['=' as u8],
        op == BinaryOp::NotEq ==> ascii_bytes(print_binary_op(op)) == seq!['!' as u8, '=' as u8],
        op == BinaryOp::And ==> ascii_bytes(print_binary_op(op)) == seq!['A' as u8, 'N' as u8, 'D' as u8],
        op == BinaryOp::Or ==> ascii_bytes(print_binary_op(op)) == seq!['O' as u8, 'R' as u8],
{
    reveal_strlit("+");
    reveal_strlit("-");
    reveal_strlit("*");
    reveal_strlit("/");
    reveal_strlit(">");
    reveal_strlit("<");
    reveal_strlit(">=");
    reveal_strlit("<=");
    reveal_strlit("=");
    reveal_strlit("!=");
    reveal_strlit("AND");
    reveal_strlit("OR");
    reveal_strlit("%");
    assert(ascii_bytes(print_binary_op(op)) =~= match op {
        BinaryOp::Add => seq!['+' as u8],
        BinaryOp::Sub => seq!['-' as u8],
        BinaryOp::Mul => seq!['*' as u8],
        BinaryOp::Div => seq!['/' as u8],
        BinaryOp::Mod => seq!['%' as u8],
        BinaryOp::Gt => seq!['>' as u8],
        BinaryOp::Lt => seq!['<' as u8],
        BinaryOp::GtEq => seq!['>' as u8, '=' as u8],
        BinaryOp::LtEq => seq!['<' as u8, '=' as u8],
        BinaryOp::Eq => seq!['=' as u8],
        BinaryOp::NotEq => seq!['!' as u8, '=' as u8],
        BinaryOp::And => seq!['A' as u8, 'N' as u8, 'D' as u8],
        BinaryOp::Or => seq!['O' as u8, 'R' as u8],
    });
}

/// A binary operator is printed as it is written: when the operator at `q` builds
/// a binary expression, lexing the printed operator gives back one token, of the
/// kind that was read at `q`; `AND` and `OR` are printed as the keyword that the
/// lexer reads as that kind.
pub proof fn law_binary_operator_printed_as_read(toks: Seq<Lexeme>, q: int, left: SpecExpr)
    ensures
        spec_infix(toks, q, left) matches Some((_, SpecExpr::BinaryOp { op, .. })) ==> {
            let t = ascii_bytes(print_binary_op(op));
            &&& op != BinaryOp::And && op != BinaryOp::Or ==> token_at(t, 0) == Some((toks[q].kind, t.len()))
            &&& op == BinaryOp::And || op == BinaryOp::Or ==> exists|k: int|
                0 <= k < keyword_count() && #[trigger] keyword_entry(k) == (print_binary_op(op), toks[q].kind)
        },
{
    match spec_infix(toks, q, left) {
        Some((_, SpecExpr::BinaryOp { op, .. })) => {
            let t = ascii_bytes(print_binary_op(op));
            lemma_printed_operator_bytes(op);
            law_operator_spelling(t, 0);
            if op == BinaryOp::And {
                assert(keyword_entry(0) == (print_binary_op(op), toks[q].kind));
            }
            if op == BinaryOp::Or {
                assert(keyword_entry(26) == (print_binary_op(op), toks[q].kind));
            }
        },
        _ => {},
    }
}

/// A sign is printed as it is written: lexing the printed sign of the expression
/// that a sign at `p` starts gives back one token, of the kind read at `p`.
pub proof fn law_sign_printed_as_read(toks: Seq<Lexeme>, p: int)
    requires
        kind_at(toks, p, TokenKind::Minus) || kind_at(toks, p, TokenKind::Plus),
    ensures
        spec_prefix(toks, p) matches Some((_, SpecExpr::UnaryOp { op, .. })) ==> {
            let t = ascii_bytes(print_unary_op(op));
            token_at(t, 0) == Some((toks[p].kind, t.len()))
        },
{
    match spec_prefix(toks, p) {
        Some((_, SpecExpr::UnaryOp { op, .. })) => {
            reveal_strlit("+");
            reveal_strlit("-");
            let t = ascii_bytes(print_unary_op(op));
            assert(t =~= match op {
                UnaryOp::Plus => seq!['+' as u8],
                UnaryOp::Minus => seq!['-' as u8],
            });
            law_operator_spelling(t, 0);
        },
        _ => {},
    }
}

/// `DISTINCT` in a call is read: a call read at `p` is its name, and it is marked
/// `DISTINCT` exactly when `DISTINCT` follows its opening bracket.
pub proof fn law_call_distinct_read(toks: Seq<Lexeme>, p: int)
    ensures
        spec_function_expr(toks, p) matches Some((_, e)) ==> {
            &&& spec_ident(toks, p) matches Some((p1, name))
            &&& e matches SpecExpr::Function { name: n, distinct, .. }
            &&& n == name
            &&& distinct == kind_at(toks, p1 + 1, TokenKind::DISTINCT)
        },
{
}

/// `SELECT DISTINCT` is read: a `SELECT` read at `p` is marked `DISTINCT` exactly
/// when `DISTINCT` follows `SELECT`.
pub proof fn law_select_distinct_read(toks: Seq<Lexeme>, p: int)
    ensures
        spec_select_set_expr(toks, p) matches Some((_, SpecSetExpr::Select { distinct, .. })) ==> distinct == kind_at(
            toks,
            p + 1,
            TokenKind::DISTINCT,
        ),
{
}

/// `WITH RECURSIVE` is read: a `WITH` clause read at `p` is recursive exactly when
/// `RECURSIVE` follows `WITH`.
pub proof fn law_with_recursive_read(toks: Seq<Lexeme>, p: int)
    ensures
        spec_with_clause(toks, p) matches Some((_, w)) ==> w.recursive == kind_at(toks, p + 1, TokenKind::RECURSIVE),
{
}

/// The bytes of a digit's text are the one ASCII digit of its value.
proof fn lemma_digit_bytes(d: nat)
    requires
        d < 10,
    ensures
        ascii_bytes(digit_text(d)) == seq![(48 + d) as u8],
{
    reveal_strlit("0");
    reveal_strlit("1");
    reveal_strlit("2");
    reveal_strlit("3");
    reveal_strlit("4");
    reveal_strlit("5");
    reveal_strlit("6");
    reveal_strlit("7");
    reveal_strlit("8");
    reveal_strlit("9");
    assert(ascii_bytes(digit_text(d)) =~= seq![(48 + d) as u8]);
}

/// An unsigned integer is printed as it is read: the printed numeral is a string
/// of decimal digits, and its value is the integer.
pub proof fn law_integer_printed_as_read(n: nat)
    ensures
        is_decimal_numeral(ascii_bytes(decimal_text(n))),
        decimal_value(ascii_bytes(decimal_text(n))) == n,
    decreases n,
{
    if n < 10 {
        lemma_digit_bytes(n);
        let t = ascii_bytes(decimal_text(n));
        assert(t.drop_last() =~= seq![]);
        assert(decimal_value(t.drop_last()) == 0);
        assert(t.last() == (48 + n) as u8);
        assert(decimal_value(t) == decimal_value(t.drop_last()) * 10 + ((t.last() as nat) - 48) as nat);
    } else {
        law_integer_printed_as_read(n / 10);
        lemma_digit_bytes(n % 10);
        let a = ascii_bytes(decimal_text(n / 10));
        let d = ascii_bytes(digit_text(n % 10));
        let t = ascii_bytes(decimal_text(n));
        assert(t =~= a + d);
        assert(t.drop_last() =~= a);
        assert(t.last() == (48 + n % 10) as u8);
        assert(decimal_value(t) == decimal_value(a) * 10 + ((t.last() as nat) - 48) as nat);
        assert((n / 10) * 10 + n % 10 == n);
        assert(forall|i: int| 0 <= i < t.len() ==> 48 <= #[trigger] t[i] <= 57) by {
            assert forall|i: int| 0 <= i < t.len() implies 48 <= #[trigger] t[i] <= 57 by {
                if i < a.len() {
                    assert(t[i] == a[i]);
                } else {
                    assert(t[i] == d[i - a.len()]);
                }
            }
        }
    }
}

/// The keywords that a join operator is printed as, in order.
pub open spec fn join_keywords(op: JoinOp) -> Seq<TokenKind> {
    match op {
        JoinOp::Inner => seq![TokenKind::INNER, TokenKind::JOIN],
        JoinOp::LeftOuter => seq![TokenKind::LEFT, TokenKind::OUTER, TokenKind::JOIN],
        JoinOp::RightOuter => seq![TokenKind::RIGHT, TokenKind::OUTER, TokenKind::JOIN],
        JoinOp::FullOuter => seq![TokenKind::FULL, TokenKind::OUTER, TokenKind::JOIN],
        JoinOp::CrossJoin => seq![TokenKind::CROSS, TokenKind::JOIN],
    }
}

/// A join operator is printed as its keywords, separated by spaces, and those
/// keywords are read back as the same operator, all of them; `RIGHT OUTER JOIN`
/// is the exception and is read as a left outer join.
pub proof fn law_join_printed_as_read(toks: Seq<Lexeme>, p: int, op: JoinOp)
    requires
        0 <= p,
        p + join_keywords(op).len() <= toks.len(),
        forall|i: int| 0 <= i < join_keywords(op).len() ==> toks[p + i].kind == #[trigger] join_keywords(op)[i],
    ensures
        print_join_op(op) == join(join_keywords(op).map_values(|k: TokenKind| kind_name(k)), " "@),
        op != JoinOp::RightOuter ==> spec_join_operator(toks, p) == Some((p + join_keywords(op).len(), op)),
        op == JoinOp::RightOuter ==> spec_join_operator(toks, p) == Some((p + 3, JoinOp::LeftOuter)),
{
    let ks = join_keywords(op);
    let names = ks.map_values(|k: TokenKind| kind_name(k));
    assert(toks[p].kind == ks[0]);
    assert(toks[p + 1].kind == ks[1]);
    if ks.len() == 3 {
        assert(toks[p + 2].kind == ks[2]);
    }
    reveal_strlit(" ");
    reveal_strlit("INNER");
    reveal_strlit("LEFT");
    reveal_strlit("RIGHT");
    reveal_strlit("FULL");
    reveal_strlit("CROSS");
    reveal_strlit("OUTER");
    reveal_strlit("JOIN");
    reveal_strlit("INNER JOIN");
    reveal_strlit("LEFT OUTER JOIN");
    reveal_strlit("RIGHT OUTER JOIN");
    reveal_strlit("FULL OUTER JOIN");
    reveal_strlit("CROSS JOIN");
    assert(names.drop_last().drop_last().len() == ks.len() - 2);
    if ks.len() == 2 {
        assert(names.drop_last().drop_last() =~= seq![]);
        assert(names.drop_last() =~= seq![names[0]]);
        assert(join(names.drop_last(), " "@) == names[0]);
        assert(names.last() == names[1]);
        assert(join(names, " "@) =~= names[0] + " "@ + names[1]);
        assert(print_join_op(op) =~= names[0] + " "@ + names[1]);
    } else {
        assert(names.drop_last().drop_last() =~= seq![names[0]]);
        assert(join(names.drop_last().drop_last(), " "@) == names[0]);
        assert(names.drop_last().last() == names[1]);
        assert(names.drop_last().len() == 2);
        assert(join(names.drop_last(), " "@) =~= names[0] + " "@ + names[1]);
        assert(names.last() == names[2]);
        assert(join(names, " "@) =~= names[0] + " "@ + names[1] + " "@ + names[2]);
        assert(print_join_op(op) =~= names[0] + " "@ + names[1] + " "@ + names[2]);
    }
}

/// `EXCLUDE` and `EXCEPT` fill their own lists after `*`: the names excluded are
/// read only after `EXCLUDE`, which comes first, and the names excepted only
/// after `EXCEPT`.
pub proof fn law_wildcard_options_read(toks: Seq<Lexeme>, p: int)
    ensures
        ({
            let (q, o) = spec_wildcard_options(toks, p);
            let (p1, _) = spec_paren_idents(toks, p, TokenKind::EXCLUDE);
            &&& o.exclude.len() > 0 ==> kind_at(toks, p, TokenKind::EXCLUDE) && p1 > p
            &&& o.exclude.len() == 0 ==> p1 == p
            &&& o.except.len() > 0 ==> kind_at(toks, p1, TokenKind::EXCEPT) && q > p1
            &&& o.except.len() == 0 ==> q == p1
        }),
{
    let (p1, ex) = spec_paren_idents(toks, p, TokenKind::EXCLUDE);
    lemma_idents1_nonempty(toks, p + 2);
    lemma_idents1_nonempty(toks, p1 + 2);
}

/// The rest of a list of identifiers ends where or after it starts.
proof fn lemma_idents_tail_advances(toks: Seq<Lexeme>, p: int)
    ensures
        spec_idents_tail(toks, p).0 >= p,
    decreases toks.len() - p,
{
    if 0 <= p && text_at(toks, p, ","@) {
        if let Some((q, x)) = spec_ident(toks, p + 1) {
            lemma_idents_tail_advances(toks, q);
        }
    }
}

/// A list of identifiers that is read holds at least one.
proof fn lemma_idents1_nonempty(toks: Seq<Lexeme>, p: int)
    ensures
        spec_idents1(toks, p) matches Some((q, l)) ==> l.len() > 0 && q > p,
{
    if let Some((q, x)) = spec_ident(toks, p) {
        lemma_idents_tail_advances(toks, q);
    }
}

/// The binding power of the binary operator that a token kind reads as.
pub open spec fn strength(k: TokenKind) -> u32 {
    binary_operator(k).unwrap().1
}

/// How strongly the operators bind, from the loosest: `IN` and `NOT IN`, then
/// `OR`, then `AND`, then the comparisons, all alike, then `+` and `-`, then `*`;
/// a sign before an operand binds more strongly than any of them. The loop that
/// reads operators uses these same strengths.
pub proof fn law_binding_strength(toks: Seq<Lexeme>, q: int)
    ensures
        infix_bp(PrattOp::In) < strength(TokenKind::OR),
        strength(TokenKind::OR) < strength(TokenKind::AND),
        strength(TokenKind::AND) < strength(TokenKind::Eq),
        strength(TokenKind::Eq) == strength(TokenKind::NotEq),
        strength(TokenKind::Eq) == strength(TokenKind::Lt),
        strength(TokenKind::Eq) == strength(TokenKind::Gt),
        strength(TokenKind::Eq) == strength(TokenKind::LtEq),
        strength(TokenKind::Eq) == strength(TokenKind::GtEq),
        strength(TokenKind::Eq) < strength(TokenKind::Plus),
        strength(TokenKind::Plus) == strength(TokenKind::Minus),
        strength(TokenKind::Plus) < strength(TokenKind::Multiply),
        spec_precedence(PrattOp::Minus, AffixKind::Prefix) == spec_precedence(PrattOp::Plus, AffixKind::Prefix),
        spec_precedence(PrattOp::Minus, AffixKind::Prefix).unwrap() > strength(TokenKind::Multiply),
        0 <= q < toks.len() && binary_operator(toks[q].kind) is Some ==> (spec_pratt_operator(toks, q) matches Some(
            op,
        ) && infix_bp(op) == strength(toks[q].kind)),
{
}

/// The names that a qualified name is made of, outermost first.
pub open spec fn name_parts(qualifiers: Seq<Option<Seq<char>>>, last: Seq<char>) -> Seq<Seq<char>>
    decreases qualifiers.len(),
{
    if qualifiers.len() == 0 {
        seq![last]
    } else {
        match qualifiers[0] {
            Some(n) => seq![n] + name_parts(qualifiers.drop_first(), last),
            None => name_parts(qualifiers.drop_first(), last),
        }
    }
}

/// The tokens from `p` to `q` are the identifiers `parts`, in order, with a `.`
/// between each two.
pub open spec fn dotted_at(toks: Seq<Lexeme>, p: int, q: int, parts: Seq<Seq<char>>) -> bool {
    &&& parts.len() >= 1
    &&& q == p + 2 * parts.len() - 1
    &&& forall|i: int| 0 <= i < parts.len() ==> spec_ident(toks, p + 2 * i) == Some((p + 2 * i + 1, #[trigger] parts[i]))
    &&& forall|i: int| 0 <= i < parts.len() - 1 ==> #[trigger] kind_at(toks, p + 2 * i + 1, TokenKind::Dot)
}

/// The parts of a column reference are read in order: the database, the table and
/// the column that a reference read at `p` names are, of those it has, the
/// identifiers at `p`, `p + 2` and `p + 4`, separated by dots.
pub proof fn law_column_ref_parts(toks: Seq<Lexeme>, p: int)
    ensures
        spec_column_ref(toks, p) matches Some((q, SpecExpr::ColumnRef { database, table, column })) ==> dotted_at(
            toks,
            p,
            q,
            name_parts(seq![database, table], column),
        ),
{
    match spec_column_ref(toks, p) {
        Some((q, SpecExpr::ColumnRef { database, table, column })) => {
            let parts = name_parts(seq![database, table], column);
            assert(seq![database, table].drop_first() =~= seq![table]);
            assert(seq![table].drop_first() =~= Seq::<Option<Seq<char>>>::empty());
            let last = name_parts(Seq::<Option<Seq<char>>>::empty(), column);
            assert(last == seq![column]);
            let mid = name_parts(seq![table], column);
            assert(mid == match table {
                Some(t) => seq![t] + last,
                None => last,
            });
            assert(parts == match database {
                Some(d) => seq![d] + mid,
                None => mid,
            });
            if database is Some {
                assert(parts =~= seq![database.unwrap(), table.unwrap(), column]);
            } else if table is Some {
                assert(parts =~= seq![table.unwrap(), column]);
            } else {
                assert(parts =~= seq![column]);
            }
            assert forall|i: int| 0 <= i < parts.len() implies spec_ident(toks, p + 2 * i) == Some(
                (p + 2 * i + 1, #[trigger] parts[i]),
            ) by {}
            assert forall|i: int| 0 <= i < parts.len() - 1 implies #[trigger] kind_at(toks, p + 2 * i + 1, TokenKind::Dot) by {}
        },
        _ => {},
    }
}

/// The parts of a table name are read in order: the database and the table that a
/// name read at `p` has are, of those it has, the identifiers at `p` and `p + 2`,
/// separated by a dot.
pub proof fn law_table_name_parts(toks: Seq<Lexeme>, p: int)
    ensures
        spec_table_name(toks, p) matches Some((q, n)) ==> dotted_at(toks, p, q, name_parts(seq![n.database], n.table)),
{
    match spec_table_name(toks, p) {
        Some((q, n)) => {
            let parts = name_parts(seq![n.database], n.table);
            assert(seq![n.database].drop_first() =~= Seq::<Option<Seq<char>>>::empty());
            let last = name_parts(Seq::<Option<Seq<char>>>::empty(), n.table);
            assert(last == seq![n.table]);
            assert(parts == match n.database {
                Some(d) => seq![d] + last,
                None => last,
            });
            if n.database is Some {
                assert(parts =~= seq![n.database.unwrap(), n.table]);
            } else {
                assert(parts =~= seq![n.table]);
            }
            assert forall|i: int| 0 <= i < parts.len() implies spec_ident(toks, p + 2 * i) == Some(
                (p + 2 * i + 1, #[trigger] parts[i]),
            ) by {}
            assert forall|i: int| 0 <= i < parts.len() - 1 implies #[trigger] kind_at(toks, p + 2 * i + 1, TokenKind::Dot) by {}
        },
        None => {},
    }
}

/// A qualified name is printed as its parts, outermost first, with a `.` between
/// each two: the order in which they are read.
pub proof fn law_qualified_names_printed(database: Option<Seq<char>>, table: Option<Seq<char>>, column: Seq<char>)
    ensures
        table is None ==> print_table_name(SpecTableName { database, table: column }) == join(
            name_parts(seq![database], column),
            "."@,
        ),
        database is Some ==> table is Some ==> print_expr(SpecExpr::ColumnRef { database, table, column }) == join(
            name_parts(seq![database, table], column),
            "."@,
        ),
        database is None ==> print_expr(SpecExpr::ColumnRef { database, table, column }) == join(
            name_parts(seq![table], column),
            "."@,
        ),
{
    let last = name_parts(Seq::<Option<Seq<char>>>::empty(), column);
    assert(last == seq![column]);
    assert(seq![database, table].drop_first() =~= seq![table]);
    assert(seq![table].drop_first() =~= Seq::<Option<Seq<char>>>::empty());
    assert(seq![database].drop_first() =~= Seq::<Option<Seq<char>>>::empty());
    let mid = name_parts(seq![table], column);
    assert(mid == match table {
        Some(t) => seq![t] + last,
        None => last,
    });
    assert(name_parts(seq![database], column) == match database {
        Some(d) => seq![d] + last,
        None => last,
    });
    assert(name_parts(seq![database, table], column) == match database {
        Some(d) => seq![d] + mid,
        None => mid,
    });
    let one = seq![column];
    assert(one.len() == 1);
    assert(join(one, "."@) == column);
    assert(print_expr(SpecExpr::ColumnRef { database, table, column }) == print_qualifier(database)
        + print_qualifier(table) + column);
    match table {
        Some(t) => {
            let two = seq![t, column];
            assert(two.drop_last() =~= seq![t]);
            assert(join(two.drop_last(), "."@) == t);
            assert(join(two, "."@) == t + "."@ + column);
            match database {
                Some(d) => {
                    let three = seq![d, t, column];
                    assert(three.drop_last() =~= seq![d, t]);
                    assert(seq![d, t].drop_last() =~= seq![d]);
                    assert(join(seq![d], "."@) == d);
                    assert(seq![d, t].last() == t);
                    assert(join(seq![d, t], "."@) == d + "."@ + t);
                    assert(join(three, "."@) == d + "."@ + t + "."@ + column);
                    assert(name_parts(seq![database, table], column) =~= three);
                    assert(print_expr(SpecExpr::ColumnRef { database, table, column }) =~= d + "."@ + t + "."@
                        + column);
                },
                None => {
                    assert(mid =~= two);
                    assert(print_expr(SpecExpr::ColumnRef { database, table, column }) =~= t + "."@ + column);
                },
            }
        },
        None => {
            assert(mid =~= one);
            match database {
                Some(d) => {
                    let two = seq![d, column];
                    assert(two.drop_last() =~= seq![d]);
                    assert(join(two.drop_last(), "."@) == d);
                    assert(name_parts(seq![database], column) =~= two);
                    assert(print_table_name(SpecTableName { database, table: column }) =~= d + "."@ + column);
                },
                None => {
                    assert(print_expr(SpecExpr::ColumnRef { database, table, column }) =~= column);
                    assert(print_table_name(SpecTableName { database, table: column }) =~= column);
                },
            }
        },
    }
}

/// `PARTITION BY` and `ORDER BY` fill their own lists in a window: the partition
/// list is read only after `PARTITION BY`, which comes first, the order list only
/// after `ORDER BY`, and a window with neither reads nothing.
pub proof fn law_window_spec_read(toks: Seq<Lexeme>, p: int)
    requires
        0 <= p <= toks.len(),
    ensures
        ({
            let (q, w) = spec_window_spec(toks, p);
            &&& w.partition_by.len() > 0 ==> kind_at(toks, p, TokenKind::PARTITION) && kind_at(toks, p + 1, TokenKind::BY)
            &&& w.partition_by.len() == 0 && w.order_by.len() > 0 ==> kind_at(toks, p, TokenKind::ORDER) && kind_at(
                toks,
                p + 1,
                TokenKind::BY,
            )
            &&& w.partition_by.len() == 0 && w.order_by.len() == 0 ==> q == p
        }),
{
}

} // verus!
