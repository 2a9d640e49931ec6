//! Table references in FROM clauses.

use vstd::prelude::*;

use super::expr::{view_expr, Expr, SpecExpr};
use super::statement::{view_select_statement, SelectStatement, SpecSelectStatement};
use super::{view_opt_ident, Ident};

verus! {

#[derive(Debug)]
pub enum TableRef {
    BaseTable { name: TableName, alias: Option<Ident> },
    Subquery { subquery: Box<SelectStatement>, alias: Option<Ident> },
    Join { op: JoinOp, condition: JoinCondition, left: Box<TableRef>, right: Box<TableRef> },
}

#[derive(Debug)]
pub struct TableName {
    pub database: Option<Ident>,
    pub table: Ident,
}

#[derive(Debug, Copy, Clone, PartialEq, Eq, Structural)]
pub enum JoinOp {
    Inner,
    LeftOuter,
    RightOuter,
    FullOuter,
    CrossJoin,
}

#[derive(Debug)]
pub enum JoinCondition {
    On(Box<Expr>),
    NoCondition,
}

pub enum SpecTableRef {
    BaseTable { name: SpecTableName, alias: Option<Seq<char>> },
    Subquery { subquery: Box<SpecSelectStatement>, alias: Option<Seq<char>> },
    Join {
        op: JoinOp,
        condition: SpecJoinCondition,
        left: Box<SpecTableRef>,
        right: Box<SpecTableRef>,
    },
}

pub struct SpecTableName {
    pub database: Option<Seq<char>>,
    pub table: Seq<char>,
}

pub enum SpecJoinCondition {
    On(Box<SpecExpr>),
    NoCondition,
}

pub open spec fn view_table_name(n: TableName) -> SpecTableName {
    SpecTableName { database: view_opt_ident(n.database), table: n.table@ }
}

pub open spec fn view_join_condition(c: JoinCondition) -> SpecJoinCondition
    decreases c,
{
    match c {
        JoinCondition::On(e) => SpecJoinCondition::On(Box::new(view_expr(*e))),
        JoinCondition::NoCondition => SpecJoinCondition::NoCondition,
    }
}

pub open spec fn view_table_ref(t: TableRef) -> SpecTableRef
    decreases t,
{
    match t {
        TableRef::BaseTable { name, alias } => SpecTableRef::BaseTable {
            name: view_table_name(name),
            alias: view_opt_ident(alias),
        },
        TableRef::Subquery { subquery, alias } => SpecTableRef::Subquery {
            subquery: Box::new(view_select_statement(*subquery)),
            alias: view_opt_ident(alias),
        },
        TableRef::Join { op, condition, left, right } => SpecTableRef::Join {
            op,
            condition: view_join_condition(condition),
            left: Box::new(view_table_ref(*left)),
            right: Box::new(view_table_ref(*right)),
        },
    }
}

impl View for TableRef {
    type V = SpecTableRef;

    open spec fn view(&self) -> SpecTableRef {
        view_table_ref(*self)
    }
}

impl View for TableName {
    type V = SpecTableName;

    open spec fn view(&self) -> SpecTableName {
        view_table_name(*self)
    }
}

impl View for JoinCondition {
    type V = SpecJoinCondition;

    open spec fn view(&self) -> SpecJoinCondition {
        view_join_condition(*self)
    }
}

} // verus!
