//! Query statements.

use vstd::prelude::*;

use super::expr::{view_expr, Expr, SpecExpr};
use super::set_expr::{view_set_expr, SetExpr, SpecSetExpr};
use super::{view_idents, Ident};

verus! {

#[derive(Debug)]
pub struct SelectStatement {
    pub with: Option<With>,
    pub body: SetExpr,
    pub order_by: Vec<OrderByExpr>,
    pub limit: Option<Expr>,
    pub offset: Option<Expr>,
}

#[derive(Debug)]
pub struct OrderByExpr {
    pub expr: Expr,
    pub asc: Option<bool>,
}

#[derive(Debug)]
pub struct With {
    pub recursive: bool,
    pub cte_tables: Vec<Cte>,
}

#[derive(Debug)]
pub struct Cte {
    pub alias: TableAlias,
    pub query: Box<SelectStatement>,
}

#[derive(Debug)]
pub struct TableAlias {
    pub name: Ident,
    pub columns: Vec<Ident>,
}

pub struct SpecSelectStatement {
    pub with: Option<SpecWith>,
    pub body: SpecSetExpr,
    pub order_by: Seq<SpecOrderByExpr>,
    pub limit: Option<SpecExpr>,
    pub offset: Option<SpecExpr>,
}

pub struct SpecOrderByExpr {
    pub expr: SpecExpr,
    pub asc: Option<bool>,
}

pub struct SpecWith {
    pub recursive: bool,
    pub cte_tables: Seq<SpecCte>,
}

pub struct SpecCte {
    pub alias: SpecTableAlias,
    pub query: Box<SpecSelectStatement>,
}

pub struct SpecTableAlias {
    pub name: Seq<char>,
    pub columns: Seq<Seq<char>>,
}

pub open spec fn view_select_statement(s: SelectStatement) -> SpecSelectStatement
    decreases s,
{
    SpecSelectStatement {
        with: match s.with {
            Some(w) => Some(view_with(w)),
            None => None,
        },
        body: view_set_expr(s.body),
        order_by: view_order_by_exprs(s.order_by@),
        limit: match s.limit {
            Some(e) => Some(view_expr(e)),
            None => None,
        },
        offset: match s.offset {
            Some(e) => Some(view_expr(e)),
            None => None,
        },
    }
}

pub open spec fn view_order_by_expr(o: OrderByExpr) -> SpecOrderByExpr
    decreases o,
{
    SpecOrderByExpr { expr: view_expr(o.expr), asc: o.asc }
}

pub open spec fn view_order_by_exprs(s: Seq<OrderByExpr>) -> Seq<SpecOrderByExpr>
    decreases s,
{
    if s.len() == 0 {
        Seq::empty()
    } else {
        view_order_by_exprs(s.drop_last()).push(view_order_by_expr(s.last()))
    }
}

pub open spec fn view_table_alias(a: TableAlias) -> SpecTableAlias {
    SpecTableAlias { name: a.name@, columns: view_idents(a.columns@) }
}

pub open spec fn view_cte(c: Cte) -> SpecCte
    decreases c,
{
    SpecCte { alias: view_table_alias(c.alias), query: Box::new(view_select_statement(*c.query)) }
}

pub open spec fn view_ctes(s: Seq<Cte>) -> Seq<SpecCte>
    decreases s,
{
    if s.len() == 0 {
        Seq::empty()
    } else {
        view_ctes(s.drop_last()).push(view_cte(s.last()))
    }
}

pub open spec fn view_with(w: With) -> SpecWith
    decreases w,
{
    SpecWith { recursive: w.recursive, cte_tables: view_ctes(w.cte_tables@) }
}

impl View for SelectStatement {
    type V = SpecSelectStatement;

    open spec fn view(&self) -> SpecSelectStatement {
        view_select_statement(*self)
    }
}

impl View for OrderByExpr {
    type V = SpecOrderByExpr;

    open spec fn view(&self) -> SpecOrderByExpr {
        view_order_by_expr(*self)
    }
}

impl View for With {
    type V = SpecWith;

    open spec fn view(&self) -> SpecWith {
        view_with(*self)
    }
}

impl View for Cte {
    type V = SpecCte;

    open spec fn view(&self) -> SpecCte {
        view_cte(*self)
    }
}

impl View for TableAlias {
    type V = SpecTableAlias;

    open spec fn view(&self) -> SpecTableAlias {
        view_table_alias(*self)
    }
}

pub proof fn lemma_view_order_by_exprs_push(s: Seq<OrderByExpr>, x: OrderByExpr)
    ensures
        view_order_by_exprs(s.push(x)) == view_order_by_exprs(s).push(view_order_by_expr(x)),
{
    assert(s.push(x).drop_last() =~= s);
}

pub proof fn lemma_view_ctes_push(s: Seq<Cte>, x: Cte)
    ensures
        view_ctes(s.push(x)) == view_ctes(s).push(view_cte(x)),
{
    assert(s.push(x).drop_last() =~= s);
}

pub proof fn lemma_view_order_by_exprs_index(s: Seq<OrderByExpr>)
    ensures
        view_order_by_exprs(s).len() == s.len(),
        forall|i: int| 0 <= i < s.len() ==> #[trigger] view_order_by_exprs(s)[i] == view_order_by_expr(s[i]),
    decreases s.len(),
{
    if s.len() > 0 {
        lemma_view_order_by_exprs_index(s.drop_last());
        assert forall|i: int| 0 <= i < s.len() implies #[trigger] view_order_by_exprs(s)[i] == view_order_by_expr(s[i]) by {
            if i < s.len() - 1 {
                assert(s.drop_last()[i] == s[i]);
            }
        }
    }
}
pub proof fn lemma_view_ctes_index(s: Seq<Cte>)
    ensures
        view_ctes(s).len() == s.len(),
        forall|i: int| 0 <= i < s.len() ==> #[trigger] view_ctes(s)[i] == view_cte(s[i]),
    decreases s.len(),
{
    if s.len() > 0 {
        lemma_view_ctes_index(s.drop_last());
        assert forall|i: int| 0 <= i < s.len() implies #[trigger] view_ctes(s)[i] == view_cte(s[i]) by {
            if i < s.len() - 1 {
                assert(s.drop_last()[i] == s[i]);
            }
        }
    }
}

} // verus!
