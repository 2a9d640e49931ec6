//! The body of a query: a SELECT with its clauses.

use vstd::prelude::*;

use super::expr::{view_exprs, view_window_spec, Expr, SpecExpr, SpecWindowSpec, WindowSpec, view_expr};
use super::table_ref::{view_table_ref, SpecTableRef, TableRef};
use super::{view_idents, Ident};

verus! {

#[derive(Debug)]
pub enum SetExpr {
    Select {
        distinct: bool,
        projection: Vec<SelectItem>,
        from: Option<TableRef>,
        selection: Option<Expr>,
        group_by: Vec<Expr>,
        having: Option<Expr>,
        named_windows: Vec<NamedWindowDef>,
    },
}

#[derive(Debug)]
pub enum SelectItem {
    UnnamedExpr(Expr),
    ExprWithAlias { expr: Expr, alias: Ident },
    Wildcard(WildcardOptions),
}

/// The columns left out of a `*` projection.
#[derive(Debug)]
pub struct WildcardOptions {
    pub exclude: Vec<Ident>,
    pub except: Vec<Ident>,
}

#[derive(Debug)]
pub struct NamedWindowDef {
    pub name: Ident,
    pub spec: WindowSpec,
}

pub enum SpecSetExpr {
    Select {
        distinct: bool,
        projection: Seq<SpecSelectItem>,
        from: Option<SpecTableRef>,
        selection: Option<SpecExpr>,
        group_by: Seq<SpecExpr>,
        having: Option<SpecExpr>,
        named_windows: Seq<SpecNamedWindowDef>,
    },
}

pub enum SpecSelectItem {
    UnnamedExpr(SpecExpr),
    ExprWithAlias { expr: SpecExpr, alias: Seq<char> },
    Wildcard(SpecWildcardOptions),
}

pub struct SpecWildcardOptions {
    pub exclude: Seq<Seq<char>>,
    pub except: Seq<Seq<char>>,
}

pub struct SpecNamedWindowDef {
    pub name: Seq<char>,
    pub spec: SpecWindowSpec,
}

pub open spec fn view_set_expr(s: SetExpr) -> SpecSetExpr
    decreases s,
{
    match s {
        SetExpr::Select {
            distinct,
            projection,
            from,
            selection,
            group_by,
            having,
            named_windows,
        } => SpecSetExpr::Select {
            distinct,
            projection: view_select_items(projection@),
            from: match from {
                Some(t) => Some(view_table_ref(t)),
                None => None,
            },
            selection: match selection {
                Some(e) => Some(view_expr(e)),
                None => None,
            },
            group_by: view_exprs(group_by@),
            having: match having {
                Some(e) => Some(view_expr(e)),
                None => None,
            },
            named_windows: view_named_window_defs(named_windows@),
        },
    }
}

pub open spec fn view_wildcard_options(o: WildcardOptions) -> SpecWildcardOptions {
    SpecWildcardOptions { exclude: view_idents(o.exclude@), except: view_idents(o.except@) }
}

pub open spec fn view_select_item(i: SelectItem) -> SpecSelectItem
    decreases i,
{
    match i {
        SelectItem::UnnamedExpr(e) => SpecSelectItem::UnnamedExpr(view_expr(e)),
        SelectItem::ExprWithAlias { expr, alias } => SpecSelectItem::ExprWithAlias {
            expr: view_expr(expr),
            alias: alias@,
        },
        SelectItem::Wildcard(o) => SpecSelectItem::Wildcard(view_wildcard_options(o)),
    }
}

pub open spec fn view_select_items(s: Seq<SelectItem>) -> Seq<SpecSelectItem>
    decreases s,
{
    if s.len() == 0 {
        Seq::empty()
    } else {
        view_select_items(s.drop_last()).push(view_select_item(s.last()))
    }
}

pub open spec fn view_named_window_def(d: NamedWindowDef) -> SpecNamedWindowDef
    decreases d,
{
    SpecNamedWindowDef { name: d.name@, spec: view_window_spec(d.spec) }
}

pub open spec fn view_named_window_defs(s: Seq<NamedWindowDef>) -> Seq<SpecNamedWindowDef>
    decreases s,
{
    if s.len() == 0 {
        Seq::empty()
    } else {
        view_named_window_defs(s.drop_last()).push(view_named_window_def(s.last()))
    }
}

impl View for SetExpr {
    type V = SpecSetExpr;

    open spec fn view(&self) -> SpecSetExpr {
        view_set_expr(*self)
    }
}

impl View for SelectItem {
    type V = SpecSelectItem;

    open spec fn view(&self) -> SpecSelectItem {
        view_select_item(*self)
    }
}

impl View for WildcardOptions {
    type V = SpecWildcardOptions;

    open spec fn view(&self) -> SpecWildcardOptions {
        view_wildcard_options(*self)
    }
}

impl View for NamedWindowDef {
    type V = SpecNamedWindowDef;

    open spec fn view(&self) -> SpecNamedWindowDef {
        view_named_window_def(*self)
    }
}

pub proof fn lemma_view_select_items_push(s: Seq<SelectItem>, x: SelectItem)
    ensures
        view_select_items(s.push(x)) == view_select_items(s).push(view_select_item(x)),
{
    assert(s.push(x).drop_last() =~= s);
}

pub proof fn lemma_view_named_window_defs_push(s: Seq<NamedWindowDef>, x: NamedWindowDef)
    ensures
        view_named_window_defs(s.push(x)) == view_named_window_defs(s).push(view_named_window_def(x)),
{
    assert(s.push(x).drop_last() =~= s);
}

pub proof fn lemma_view_select_items_index(s: Seq<SelectItem>)
    ensures
        view_select_items(s).len() == s.len(),
        forall|i: int| 0 <= i < s.len() ==> #[trigger] view_select_items(s)[i] == view_select_item(s[i]),
    decreases s.len(),
{
    if s.len() > 0 {
        lemma_view_select_items_index(s.drop_last());
        assert forall|i: int| 0 <= i < s.len() implies #[trigger] view_select_items(s)[i] == view_select_item(s[i]) by {
            if i < s.len() - 1 {
                assert(s.drop_last()[i] == s[i]);
            }
        }
    }
}
pub proof fn lemma_view_named_window_defs_index(s: Seq<NamedWindowDef>)
    ensures
        view_named_window_defs(s).len() == s.len(),
        forall|i: int| 0 <= i < s.len() ==> #[trigger] view_named_window_defs(s)[i] == view_named_window_def(s[i]),
    decreases s.len(),
{
    if s.len() > 0 {
        lemma_view_named_window_defs_index(s.drop_last());
        assert forall|i: int| 0 <= i < s.len() implies #[trigger] view_named_window_defs(s)[i] == view_named_window_def(s[i]) by {
            if i < s.len() - 1 {
                assert(s.drop_last()[i] == s[i]);
            }
        }
    }
}

} // verus!
