//! Expressions.

use vstd::prelude::*;

use super::statement::{view_order_by_exprs, view_select_statement, OrderByExpr, SelectStatement, SpecOrderByExpr, SpecSelectStatement};
use super::{view_opt_ident, Ident};

verus! {

#[derive(Debug)]
pub enum Expr {
    ColumnRef { database: Option<Ident>, table: Option<Ident>, column: Ident },
    Literal(Literal),
    UnaryOp { op: UnaryOp, expr: Box<Expr> },
    BinaryOp { left: Box<Expr>, op: BinaryOp, right: Box<Expr> },
    Function { name: Ident, distinct: bool, args: Vec<FunctionArg>, over: Option<Window> },
    Exists { not: bool, subquery: Box<SelectStatement> },
    InSubquery { not: bool, expr: Box<Expr>, subquery: Box<SelectStatement> },
    InList { not: bool, expr: Box<Expr>, list: Vec<Expr> },
    Subquery(Box<SelectStatement>),
}

/// Binary operators
#[derive(Debug, Copy, Clone, PartialEq, Eq, Structural)]
pub enum BinaryOp {
    // + - * / %
    Add,
    Sub,
    Mul,
    Div,
    Mod,
    // > < >= <= = !=
    Gt,
    Lt,
    GtEq,
    LtEq,
    Eq,
    NotEq,
    // and or
    And,
    Or,
}

/// Literal values
#[derive(Debug)]
pub enum Literal {
    String(String),
    UnsignedInteger(usize),
}

/// Unary operators
#[derive(Debug, Clone, Copy, PartialEq, Eq, Structural)]
pub enum UnaryOp {
    Plus,
    Minus,
}

#[derive(Debug)]
pub enum FunctionArg {
    Wildcard,
    Expr(Expr),
}

#[derive(Debug)]
pub enum Window {
    WindowRef(Ident),
    WindowSpec(WindowSpec),
}

#[derive(Debug)]
pub struct WindowSpec {
    pub partition_by: Vec<Expr>,
    pub order_by: Vec<OrderByExpr>,
}

/// The model of an expression: identifiers are their texts, lists are sequences.
pub enum SpecExpr {
    ColumnRef { database: Option<Seq<char>>, table: Option<Seq<char>>, column: Seq<char> },
    Literal(SpecLiteral),
    UnaryOp { op: UnaryOp, expr: Box<SpecExpr> },
    BinaryOp { left: Box<SpecExpr>, op: BinaryOp, right: Box<SpecExpr> },
    Function {
        name: Seq<char>,
        distinct: bool,
        args: Seq<SpecFunctionArg>,
        over: Option<SpecWindow>,
    },
    Exists { not: bool, subquery: Box<SpecSelectStatement> },
    InSubquery { not: bool, expr: Box<SpecExpr>, subquery: Box<SpecSelectStatement> },
    InList { not: bool, expr: Box<SpecExpr>, list: Seq<SpecExpr> },
    Subquery(Box<SpecSelectStatement>),
}

pub enum SpecLiteral {
    String(Seq<char>),
    UnsignedInteger(usize),
}

pub enum SpecFunctionArg {
    Wildcard,
    Expr(SpecExpr),
}

pub enum SpecWindow {
    WindowRef(Seq<char>),
    WindowSpec(SpecWindowSpec),
}

pub struct SpecWindowSpec {
    pub partition_by: Seq<SpecExpr>,
    pub order_by: Seq<SpecOrderByExpr>,
}

pub open spec fn view_literal(l: Literal) -> SpecLiteral {
    match l {
        Literal::String(s) => SpecLiteral::String(s@),
        Literal::UnsignedInteger(n) => SpecLiteral::UnsignedInteger(n),
    }
}

pub open spec fn view_expr(e: Expr) -> SpecExpr
    decreases e,
{
    match e {
        Expr::ColumnRef { database, table, column } => SpecExpr::ColumnRef {
            database: view_opt_ident(database),
            table: view_opt_ident(table),
            column: column@,
        },
        Expr::Literal(l) => SpecExpr::Literal(view_literal(l)),
        Expr::UnaryOp { op, expr } => SpecExpr::UnaryOp { op, expr: Box::new(view_expr(*expr)) },
        Expr::BinaryOp { left, op, right } => SpecExpr::BinaryOp {
            left: Box::new(view_expr(*left)),
            op,
            right: Box::new(view_expr(*right)),
        },
        Expr::Function { name, distinct, args, over } => SpecExpr::Function {
            name: name@,
            distinct,
            args: view_function_args(args@),
            over: match over {
                Some(w) => Some(view_window(w)),
                None => None,
            },
        },
        Expr::Exists { not, subquery } => SpecExpr::Exists {
            not,
            subquery: Box::new(view_select_statement(*subquery)),
        },
        Expr::InSubquery { not, expr, subquery } => SpecExpr::InSubquery {
            not,
            expr: Box::new(view_expr(*expr)),
            subquery: Box::new(view_select_statement(*subquery)),
        },
        Expr::InList { not, expr, list } => SpecExpr::InList {
            not,
            expr: Box::new(view_expr(*expr)),
            list: view_exprs(list@),
        },
        Expr::Subquery(s) => SpecExpr::Subquery(Box::new(view_select_statement(*s))),
    }
}

pub open spec fn view_exprs(s: Seq<Expr>) -> Seq<SpecExpr>
    decreases s,
{
    if s.len() == 0 {
        Seq::empty()
    } else {
        view_exprs(s.drop_last()).push(view_expr(s.last()))
    }
}

pub open spec fn view_opt_expr(o: Option<Expr>) -> Option<SpecExpr> {
    match o {
        Some(e) => Some(view_expr(e)),
        None => None,
    }
}

pub open spec fn view_function_arg(a: FunctionArg) -> SpecFunctionArg
    decreases a,
{
    match a {
        FunctionArg::Wildcard => SpecFunctionArg::Wildcard,
        FunctionArg::Expr(e) => SpecFunctionArg::Expr(view_expr(e)),
    }
}

pub open spec fn view_function_args(s: Seq<FunctionArg>) -> Seq<SpecFunctionArg>
    decreases s,
{
    if s.len() == 0 {
        Seq::empty()
    } else {
        view_function_args(s.drop_last()).push(view_function_arg(s.last()))
    }
}

pub open spec fn view_window_spec(w: WindowSpec) -> SpecWindowSpec
    decreases w,
{
    SpecWindowSpec {
        partition_by: view_exprs(w.partition_by@),
        order_by: view_order_by_exprs(w.order_by@),
    }
}

pub open spec fn view_window(w: Window) -> SpecWindow
    decreases w,
{
    match w {
        Window::WindowRef(i) => SpecWindow::WindowRef(i@),
        Window::WindowSpec(s) => SpecWindow::WindowSpec(view_window_spec(s)),
    }
}

impl View for Expr {
    type V = SpecExpr;

    open spec fn view(&self) -> SpecExpr {
        view_expr(*self)
    }
}

impl View for Literal {
    type V = SpecLiteral;

    open spec fn view(&self) -> SpecLiteral {
        view_literal(*self)
    }
}

impl View for FunctionArg {
    type V = SpecFunctionArg;

    open spec fn view(&self) -> SpecFunctionArg {
        view_function_arg(*self)
    }
}

impl View for Window {
    type V = SpecWindow;

    open spec fn view(&self) -> SpecWindow {
        view_window(*self)
    }
}

impl View for WindowSpec {
    type V = SpecWindowSpec;

    open spec fn view(&self) -> SpecWindowSpec {
        view_window_spec(*self)
    }
}

pub proof fn lemma_view_exprs_push(s: Seq<Expr>, x: Expr)
    ensures
        view_exprs(s.push(x)) == view_exprs(s).push(view_expr(x)),
{
    assert(s.push(x).drop_last() =~= s);
}

pub proof fn lemma_view_function_args_push(s: Seq<FunctionArg>, x: FunctionArg)
    ensures
        view_function_args(s.push(x)) == view_function_args(s).push(view_function_arg(x)),
{
    assert(s.push(x).drop_last() =~= s);
}

pub proof fn lemma_view_exprs_index(s: Seq<Expr>)
    ensures
        view_exprs(s).len() == s.len(),
        forall|i: int| 0 <= i < s.len() ==> #[trigger] view_exprs(s)[i] == view_expr(s[i]),
    decreases s.len(),
{
    if s.len() > 0 {
        lemma_view_exprs_index(s.drop_last());
        assert forall|i: int| 0 <= i < s.len() implies #[trigger] view_exprs(s)[i] == view_expr(s[i]) by {
            if i < s.len() - 1 {
                assert(s.drop_last()[i] == s[i]);
            }
        }
    }
}
pub proof fn lemma_view_function_args_index(s: Seq<FunctionArg>)
    ensures
        view_function_args(s).len() == s.len(),
        forall|i: int| 0 <= i < s.len() ==> #[trigger] view_function_args(s)[i] == view_function_arg(s[i]),
    decreases s.len(),
{
    if s.len() > 0 {
        lemma_view_function_args_index(s.drop_last());
        assert forall|i: int| 0 <= i < s.len() implies #[trigger] view_function_args(s)[i] == view_function_arg(s[i]) by {
            if i < s.len() - 1 {
                assert(s.drop_last()[i] == s[i]);
            }
        }
    }
}

} // verus!
