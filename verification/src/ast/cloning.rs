//! Copies of trees: every copy has the same model as its original.

use vstd::prelude::*;

use super::expr::{
    lemma_view_exprs_push, lemma_view_function_args_push, view_exprs, view_function_args, Expr, FunctionArg,
    Literal, Window, WindowSpec,
};
use super::set_expr::{
    lemma_view_named_window_defs_push, lemma_view_select_items_push, view_named_window_defs, view_select_items,
    NamedWindowDef, SelectItem, SetExpr, WildcardOptions,
};
use super::statement::{
    lemma_view_ctes_push, lemma_view_order_by_exprs_push, view_ctes, view_order_by_exprs, Cte, OrderByExpr,
    SelectStatement, TableAlias, With,
};
use super::table_ref::{JoinCondition, TableName, TableRef};
use super::{lemma_view_idents_push, view_idents, Ident};

verus! {

impl Clone for Ident {
    fn clone(&self) -> (r: Self)
        ensures
            r == *self,
    {
        Ident { value: self.value.clone() }
    }
}

fn clone_opt_ident(o: &Option<Ident>) -> (r: Option<Ident>)
    ensures
        r == *o,
{
    match o {
        Some(i) => Some(i.clone()),
        None => None,
    }
}

fn clone_idents(v: &Vec<Ident>) -> (r: Vec<Ident>)
    ensures
        view_idents(r@) == view_idents(v@),
{
    let mut r: Vec<Ident> = Vec::new();
    let mut i: usize = 0;
    assert(v@.take(0) =~= Seq::<Ident>::empty());
    assert(r@ =~= Seq::<Ident>::empty());
    while i < v.len()
        invariant
            0 <= i <= v@.len(),
            view_idents(r@) == view_idents(v@.take(i as int)),
        decreases v@.len() - i,
    {
        let x = v[i].clone();
        proof {
            lemma_view_idents_push(r@, x);
            assert(v@.take(i + 1) =~= v@.take(i as int).push(v@[i as int]));
            lemma_view_idents_push(v@.take(i as int), v@[i as int]);
        }
        r.push(x);
        i = i + 1;
    }
    assert(v@.take(v@.len() as int) =~= v@);
    r
}

impl Clone for Literal {
    fn clone(&self) -> (r: Self)
        ensures
            r@ == self@,
    {
        match self {
            Literal::String(s) => Literal::String(s.clone()),
            Literal::UnsignedInteger(n) => Literal::UnsignedInteger(*n),
        }
    }
}

impl Clone for Expr {
    fn clone(&self) -> (r: Self)
        ensures
            r@ == self@,
        decreases self,
    {
        match self {
            Expr::ColumnRef { database, table, column } => Expr::ColumnRef {
                database: clone_opt_ident(database),
                table: clone_opt_ident(table),
                column: column.clone(),
            },
            Expr::Literal(l) => Expr::Literal(l.clone()),
            Expr::UnaryOp { op, expr } => Expr::UnaryOp { op: *op, expr: Box::new((**expr).clone()) },
            Expr::BinaryOp { left, op, right } => Expr::BinaryOp {
                left: Box::new((**left).clone()),
                op: *op,
                right: Box::new((**right).clone()),
            },
            Expr::Function { name, distinct, args, over } => {
                assert(decreases_to!(*self => args@));
                let over2 = match over {
                    Some(w) => Some(w.clone()),
                    None => None,
                };
                Expr::Function { name: name.clone(), distinct: *distinct, args: clone_function_args(args), over: over2 }
            },
            Expr::Exists { not, subquery } => Expr::Exists { not: *not, subquery: Box::new((**subquery).clone()) },
            Expr::InSubquery { not, expr, subquery } => Expr::InSubquery {
                not: *not,
                expr: Box::new((**expr).clone()),
                subquery: Box::new((**subquery).clone()),
            },
            Expr::InList { not, expr, list } => {
                assert(decreases_to!(*self => list@));
                Expr::InList { not: *not, expr: Box::new((**expr).clone()), list: clone_exprs(list) }
            },
            Expr::Subquery(s) => Expr::Subquery(Box::new((**s).clone())),
        }
    }
}

fn clone_opt_expr(o: &Option<Expr>) -> (r: Option<Expr>)
    ensures
        match (r, *o) {
            (Some(a), Some(b)) => a@ == b@,
            (None, None) => true,
            _ => false,
        },
    decreases o,
{
    match o {
        Some(e) => Some(e.clone()),
        None => None,
    }
}

fn clone_exprs(v: &Vec<Expr>) -> (r: Vec<Expr>)
    ensures
        view_exprs(r@) == view_exprs(v@),
    decreases v@,
{
    let mut r: Vec<Expr> = Vec::new();
    let mut i: usize = 0;
    assert(v@.take(0) =~= Seq::<Expr>::empty());
    assert(r@ =~= Seq::<Expr>::empty());
    while i < v.len()
        invariant
            0 <= i <= v@.len(),
            view_exprs(r@) == view_exprs(v@.take(i as int)),
        decreases v@.len() - i,
    {
        proof {
            assert(decreases_to!(v@ => v@[i as int]));
        }
        let x = v[i].clone();
        proof {
            lemma_view_exprs_push(r@, x);
            assert(v@.take(i + 1) =~= v@.take(i as int).push(v@[i as int]));
            lemma_view_exprs_push(v@.take(i as int), v@[i as int]);
        }
        r.push(x);
        i = i + 1;
    }
    assert(v@.take(v@.len() as int) =~= v@);
    r
}

impl Clone for FunctionArg {
    fn clone(&self) -> (r: Self)
        ensures
            r@ == self@,
        decreases self,
    {
        match self {
            FunctionArg::Wildcard => FunctionArg::Wildcard,
            FunctionArg::Expr(e) => FunctionArg::Expr(e.clone()),
        }
    }
}

fn clone_function_args(v: &Vec<FunctionArg>) -> (r: Vec<FunctionArg>)
    ensures
        view_function_args(r@) == view_function_args(v@),
    decreases v@,
{
    let mut r: Vec<FunctionArg> = Vec::new();
    let mut i: usize = 0;
    assert(v@.take(0) =~= Seq::<FunctionArg>::empty());
    assert(r@ =~= Seq::<FunctionArg>::empty());
    while i < v.len()
        invariant
            0 <= i <= v@.len(),
            view_function_args(r@) == view_function_args(v@.take(i as int)),
        decreases v@.len() - i,
    {
        proof {
            assert(decreases_to!(v@ => v@[i as int]));
        }
        let x = v[i].clone();
        proof {
            lemma_view_function_args_push(r@, x);
            assert(v@.take(i + 1) =~= v@.take(i as int).push(v@[i as int]));
            lemma_view_function_args_push(v@.take(i as int), v@[i as int]);
        }
        r.push(x);
        i = i + 1;
    }
    assert(v@.take(v@.len() as int) =~= v@);
    r
}

impl Clone for Window {
    fn clone(&self) -> (r: Self)
        ensures
            r@ == self@,
        decreases self,
    {
        match self {
            Window::WindowRef(name) => Window::WindowRef(name.clone()),
            Window::WindowSpec(spec) => Window::WindowSpec(spec.clone()),
        }
    }
}

impl Clone for WindowSpec {
    fn clone(&self) -> (r: Self)
        ensures
            r@ == self@,
        decreases self,
    {
        assert(decreases_to!(*self => self.partition_by@));
        assert(decreases_to!(*self => self.order_by@));
        WindowSpec { partition_by: clone_exprs(&self.partition_by), order_by: clone_order_by_exprs(&self.order_by) }
    }
}

impl Clone for OrderByExpr {
    fn clone(&self) -> (r: Self)
        ensures
            r@ == self@,
        decreases self,
    {
        OrderByExpr { expr: self.expr.clone(), asc: self.asc }
    }
}

fn clone_order_by_exprs(v: &Vec<OrderByExpr>) -> (r: Vec<OrderByExpr>)
    ensures
        view_order_by_exprs(r@) == view_order_by_exprs(v@),
    decreases v@,
{
    let mut r: Vec<OrderByExpr> = Vec::new();
    let mut i: usize = 0;
    assert(v@.take(0) =~= Seq::<OrderByExpr>::empty());
    assert(r@ =~= Seq::<OrderByExpr>::empty());
    while i < v.len()
        invariant
            0 <= i <= v@.len(),
            view_order_by_exprs(r@) == view_order_by_exprs(v@.take(i as int)),
        decreases v@.len() - i,
    {
        proof {
            assert(decreases_to!(v@ => v@[i as int]));
        }
        let x = v[i].clone();
        proof {
            lemma_view_order_by_exprs_push(r@, x);
            assert(v@.take(i + 1) =~= v@.take(i as int).push(v@[i as int]));
            lemma_view_order_by_exprs_push(v@.take(i as int), v@[i as int]);
        }
        r.push(x);
        i = i + 1;
    }
    assert(v@.take(v@.len() as int) =~= v@);
    r
}

impl Clone for SelectStatement {
    fn clone(&self) -> (r: Self)
        ensures
            r@ == self@,
        decreases self,
    {
        assert(decreases_to!(*self => self.order_by@));
        let with = match &self.with {
            Some(w) => Some(w.clone()),
            None => None,
        };
        SelectStatement {
            with,
            body: self.body.clone(),
            order_by: clone_order_by_exprs(&self.order_by),
            limit: clone_opt_expr(&self.limit),
            offset: clone_opt_expr(&self.offset),
        }
    }
}

impl Clone for With {
    fn clone(&self) -> (r: Self)
        ensures
            r@ == self@,
        decreases self,
    {
        assert(decreases_to!(*self => self.cte_tables@));
        With { recursive: self.recursive, cte_tables: clone_ctes(&self.cte_tables) }
    }
}

impl Clone for Cte {
    fn clone(&self) -> (r: Self)
        ensures
            r@ == self@,
        decreases self,
    {
        Cte { alias: self.alias.clone(), query: Box::new((*self.query).clone()) }
    }
}

fn clone_ctes(v: &Vec<Cte>) -> (r: Vec<Cte>)
    ensures
        view_ctes(r@) == view_ctes(v@),
    decreases v@,
{
    let mut r: Vec<Cte> = Vec::new();
    let mut i: usize = 0;
    assert(v@.take(0) =~= Seq::<Cte>::empty());
    assert(r@ =~= Seq::<Cte>::empty());
    while i < v.len()
        invariant
            0 <= i <= v@.len(),
            view_ctes(r@) == view_ctes(v@.take(i as int)),
        decreases v@.len() - i,
    {
        proof {
            assert(decreases_to!(v@ => v@[i as int]));
        }
        let x = v[i].clone();
        proof {
            lemma_view_ctes_push(r@, x);
            assert(v@.take(i + 1) =~= v@.take(i as int).push(v@[i as int]));
            lemma_view_ctes_push(v@.take(i as int), v@[i as int]);
        }
        r.push(x);
        i = i + 1;
    }
    assert(v@.take(v@.len() as int) =~= v@);
    r
}

impl Clone for TableAlias {
    fn clone(&self) -> (r: Self)
        ensures
            r@ == self@,
    {
        TableAlias { name: self.name.clone(), columns: clone_idents(&self.columns) }
    }
}

impl Clone for SetExpr {
    fn clone(&self) -> (r: Self)
        ensures
            r@ == self@,
        decreases self,
    {
        match self {
            SetExpr::Select { distinct, projection, from, selection, group_by, having, named_windows } => {
                assert(decreases_to!(*self => projection@));
                assert(decreases_to!(*self => group_by@));
                assert(decreases_to!(*self => named_windows@));
                let from2 = match from {
                    Some(t) => Some(t.clone()),
                    None => None,
                };
                SetExpr::Select {
                    distinct: *distinct,
                    projection: clone_select_items(projection),
                    from: from2,
                    selection: clone_opt_expr(selection),
                    group_by: clone_exprs(group_by),
                    having: clone_opt_expr(having),
                    named_windows: clone_named_window_defs(named_windows),
                }
            },
        }
    }
}

impl Clone for SelectItem {
    fn clone(&self) -> (r: Self)
        ensures
            r@ == self@,
        decreases self,
    {
        match self {
            SelectItem::UnnamedExpr(e) => SelectItem::UnnamedExpr(e.clone()),
            SelectItem::ExprWithAlias { expr, alias } => SelectItem::ExprWithAlias {
                expr: expr.clone(),
                alias: alias.clone(),
            },
            SelectItem::Wildcard(o) => SelectItem::Wildcard(o.clone()),
        }
    }
}

fn clone_select_items(v: &Vec<SelectItem>) -> (r: Vec<SelectItem>)
    ensures
        view_select_items(r@) == view_select_items(v@),
    decreases v@,
{
    let mut r: Vec<SelectItem> = Vec::new();
    let mut i: usize = 0;
    assert(v@.take(0) =~= Seq::<SelectItem>::empty());
    assert(r@ =~= Seq::<SelectItem>::empty());
    while i < v.len()
        invariant
            0 <= i <= v@.len(),
            view_select_items(r@) == view_select_items(v@.take(i as int)),
        decreases v@.len() - i,
    {
        proof {
            assert(decreases_to!(v@ => v@[i as int]));
        }
        let x = v[i].clone();
        proof {
            lemma_view_select_items_push(r@, x);
            assert(v@.take(i + 1) =~= v@.take(i as int).push(v@[i as int]));
            lemma_view_select_items_push(v@.take(i as int), v@[i as int]);
        }
        r.push(x);
        i = i + 1;
    }
    assert(v@.take(v@.len() as int) =~= v@);
    r
}

impl Clone for WildcardOptions {
    fn clone(&self) -> (r: Self)
        ensures
            r@ == self@,
    {
        WildcardOptions { exclude: clone_idents(&self.exclude), except: clone_idents(&self.except) }
    }
}

impl Clone for NamedWindowDef {
    fn clone(&self) -> (r: Self)
        ensures
            r@ == self@,
        decreases self,
    {
        NamedWindowDef { name: self.name.clone(), spec: self.spec.clone() }
    }
}

fn clone_named_window_defs(v: &Vec<NamedWindowDef>) -> (r: Vec<NamedWindowDef>)
    ensures
        view_named_window_defs(r@) == view_named_window_defs(v@),
    decreases v@,
{
    let mut r: Vec<NamedWindowDef> = Vec::new();
    let mut i: usize = 0;
    assert(v@.take(0) =~= Seq::<NamedWindowDef>::empty());
    assert(r@ =~= Seq::<NamedWindowDef>::empty());
    while i < v.len()
        invariant
            0 <= i <= v@.len(),
            view_named_window_defs(r@) == view_named_window_defs(v@.take(i as int)),
        decreases v@.len() - i,
    {
        proof {
            assert(decreases_to!(v@ => v@[i as int]));
        }
        let x = v[i].clone();
        proof {
            lemma_view_named_window_defs_push(r@, x);
            assert(v@.take(i + 1) =~= v@.take(i as int).push(v@[i as int]));
            lemma_view_named_window_defs_push(v@.take(i as int), v@[i as int]);
        }
        r.push(x);
        i = i + 1;
    }
    assert(v@.take(v@.len() as int) =~= v@);
    r
}

impl Clone for TableRef {
    fn clone(&self) -> (r: Self)
        ensures
            r@ == self@,
        decreases self,
    {
        match self {
            TableRef::BaseTable { name, alias } => TableRef::BaseTable {
                name: name.clone(),
                alias: clone_opt_ident(alias),
            },
            TableRef::Subquery { subquery, alias } => TableRef::Subquery {
                subquery: Box::new((**subquery).clone()),
                alias: clone_opt_ident(alias),
            },
            TableRef::Join { op, condition, left, right } => TableRef::Join {
                op: *op,
                condition: condition.clone(),
                left: Box::new((**left).clone()),
                right: Box::new((**right).clone()),
            },
        }
    }
}

impl Clone for TableName {
    fn clone(&self) -> (r: Self)
        ensures
            r@ == self@,
    {
        TableName { database: clone_opt_ident(&self.database), table: self.table.clone() }
    }
}

impl Clone for JoinCondition {
    fn clone(&self) -> (r: Self)
        ensures
            r@ == self@,
        decreases self,
    {
        match self {
            JoinCondition::On(e) => JoinCondition::On(Box::new((**e).clone())),
            JoinCondition::NoCondition => JoinCondition::NoCondition,
        }
    }
}

} // verus!
