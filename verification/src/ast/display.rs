//! How trees are written back as SQL text.
//!
//! Every `print_*` spec function gives the text of a tree; every `to_string`
//! method builds that text. Binary operations and joins are written inside
//! parentheses, so the text shows how the tree is nested.

use vstd::prelude::*;
use vstd::string::StringExecFns;

use super::expr::{
    BinaryOp, Expr, FunctionArg, Literal, SpecExpr, SpecFunctionArg, SpecLiteral, SpecWindow, SpecWindowSpec,
    UnaryOp, Window, WindowSpec,
};
use super::set_expr::{
    NamedWindowDef, SelectItem, SetExpr, SpecNamedWindowDef, SpecSelectItem, SpecSetExpr, SpecWildcardOptions,
    WildcardOptions,
};
use super::statement::{
    Cte, OrderByExpr, SelectStatement, SpecCte, SpecOrderByExpr, SpecSelectStatement, SpecTableAlias, SpecWith,
    TableAlias, With,
};
use super::table_ref::{JoinCondition, JoinOp, SpecJoinCondition, SpecTableName, SpecTableRef, TableName, TableRef};
use super::expr::{
    lemma_view_exprs_index, lemma_view_function_args_index, view_expr, view_exprs, view_function_arg,
    view_function_args, view_window, view_window_spec,
};
use super::set_expr::{
    lemma_view_named_window_defs_index, lemma_view_select_items_index, view_named_window_def,
    view_named_window_defs, view_select_item, view_select_items, view_set_expr,
};
use super::statement::{
    lemma_view_ctes_index, lemma_view_order_by_exprs_index, view_cte, view_ctes, view_order_by_expr,
    view_order_by_exprs, view_select_statement, view_with,
};
use super::table_ref::view_table_ref;
use super::{
    lemma_view_idents_index, view_idents, view_opt_ident, ColumnConstraint, ColumnConstraintKind, ColumnDef,
    CreateTableStatement, DataType, Ident, Statement,
};

verus! {

/// The parts joined with `sep` between each two.
pub open spec fn join(parts: Seq<Seq<char>>, sep: Seq<char>) -> Seq<char>
    decreases parts.len(),
{
    if parts.len() == 0 {
        seq![]
    } else if parts.len() == 1 {
        parts[0]
    } else {
        join(parts.drop_last(), sep) + sep + parts.last()
    }
}

pub proof fn lemma_join_push(parts: Seq<Seq<char>>, p: Seq<char>, sep: Seq<char>)
    ensures
        join(parts.push(p), sep) == if parts.len() == 0 {
            p
        } else {
            join(parts, sep) + sep + p
        },
{
    assert(parts.push(p).drop_last() =~= parts);
}

/// The decimal digit `d`.
pub open spec fn digit_text(d: nat) -> Seq<char> {
    if d == 0 {
        "0"@
    } else if d == 1 {
        "1"@
    } else if d == 2 {
        "2"@
    } else if d == 3 {
        "3"@
    } else if d == 4 {
        "4"@
    } else if d == 5 {
        "5"@
    } else if d == 6 {
        "6"@
    } else if d == 7 {
        "7"@
    } else if d == 8 {
        "8"@
    } else {
        "9"@
    }
}

/// The decimal numeral of `n`.
pub open spec fn decimal_text(n: nat) -> Seq<char>
    decreases n,
{
    if n < 10 {
        digit_text(n)
    } else {
        decimal_text(n / 10) + digit_text(n % 10)
    }
}

pub open spec fn print_literal(l: SpecLiteral) -> Seq<char> {
    match l {
        SpecLiteral::String(s) => "'"@ + s + "'"@,
        SpecLiteral::UnsignedInteger(n) => decimal_text(n as nat),
    }
}

pub open spec fn print_binary_op(op: BinaryOp) -> Seq<char> {
    match op {
        BinaryOp::Add => "+"@,
        BinaryOp::Sub => "-"@,
        BinaryOp::Mul => "*"@,
        BinaryOp::Div => "/"@,
        BinaryOp::Mod => "%"@,
        BinaryOp::Gt => ">"@,
        BinaryOp::Lt => "<"@,
        BinaryOp::GtEq => ">="@,
        BinaryOp::LtEq => "<="@,
        BinaryOp::Eq => "="@,
        BinaryOp::NotEq => "!="@,
        BinaryOp::And => "AND"@,
        BinaryOp::Or => "OR"@,
    }
}

pub open spec fn print_unary_op(op: UnaryOp) -> Seq<char> {
    match op {
        UnaryOp::Plus => "+"@,
        UnaryOp::Minus => "-"@,
    }
}

pub open spec fn print_join_op(op: JoinOp) -> Seq<char> {
    match op {
        JoinOp::Inner => "INNER JOIN"@,
        JoinOp::LeftOuter => "LEFT OUTER JOIN"@,
        JoinOp::RightOuter => "RIGHT OUTER JOIN"@,
        JoinOp::FullOuter => "FULL OUTER JOIN"@,
        JoinOp::CrossJoin => "CROSS JOIN"@,
    }
}

/// `name.` when there is a name, else nothing.
pub open spec fn print_qualifier(o: Option<Seq<char>>) -> Seq<char> {
    match o {
        Some(n) => n + "."@,
        None => seq![],
    }
}

/// ` AS alias` when there is an alias, else nothing.
pub open spec fn print_alias(o: Option<Seq<char>>) -> Seq<char> {
    match o {
        Some(a) => " AS "@ + a,
        None => seq![],
    }
}

pub open spec fn print_table_name(n: SpecTableName) -> Seq<char> {
    print_qualifier(n.database) + n.table
}

pub open spec fn print_table_alias(a: SpecTableAlias) -> Seq<char> {
    if a.columns.len() == 0 {
        a.name
    } else {
        a.name + " ("@ + join(a.columns, ", "@) + ")"@
    }
}

pub open spec fn print_wildcard_options(o: SpecWildcardOptions) -> Seq<char> {
    "*"@ + (if o.exclude.len() == 0 {
        seq![]
    } else {
        " EXCLUDE ("@ + join(o.exclude, ", "@) + ")"@
    }) + (if o.except.len() == 0 {
        seq![]
    } else {
        " EXCEPT ("@ + join(o.except, ", "@) + ")"@
    })
}

pub open spec fn print_expr(e: SpecExpr) -> Seq<char>
    decreases e,
{
    match e {
        SpecExpr::ColumnRef { database, table, column } => print_qualifier(database) + print_qualifier(table)
            + column,
        SpecExpr::Literal(l) => print_literal(l),
        SpecExpr::UnaryOp { op, expr } => print_unary_op(op) + print_expr(*expr),
        SpecExpr::BinaryOp { left, op, right } => "("@ + print_expr(*left) + " "@ + print_binary_op(op) + " "@
            + print_expr(*right) + ")"@,
        SpecExpr::Function { name, distinct, args, over } => name + "("@ + (if distinct {
            "DISTINCT "@
        } else {
            seq![]
        }) + join(print_function_args(args), ", "@) + ")"@ + match over {
            Some(w) => " OVER "@ + print_window(w),
            None => seq![],
        },
        SpecExpr::Exists { not, subquery } => (if not {
            "NOT EXISTS ("@
        } else {
            "EXISTS ("@
        }) + print_select_statement(*subquery) + ")"@,
        SpecExpr::InSubquery { not, expr, subquery } => print_expr(*expr) + (if not {
            " NOT IN ("@
        } else {
            " IN ("@
        }) + print_select_statement(*subquery) + ")"@,
        SpecExpr::InList { not, expr, list } => print_expr(*expr) + (if not {
            " NOT IN ("@
        } else {
            " IN ("@
        }) + join(print_exprs(list), ", "@) + ")"@,
        SpecExpr::Subquery(s) => "("@ + print_select_statement(*s) + ")"@,
    }
}

pub open spec fn print_exprs(s: Seq<SpecExpr>) -> Seq<Seq<char>>
    decreases s,
{
    if s.len() == 0 {
        seq![]
    } else {
        print_exprs(s.drop_last()).push(print_expr(s.last()))
    }
}

pub open spec fn print_function_arg(a: SpecFunctionArg) -> Seq<char>
    decreases a,
{
    match a {
        SpecFunctionArg::Wildcard => "*"@,
        SpecFunctionArg::Expr(e) => print_expr(e),
    }
}

pub open spec fn print_function_args(s: Seq<SpecFunctionArg>) -> Seq<Seq<char>>
    decreases s,
{
    if s.len() == 0 {
        seq![]
    } else {
        print_function_args(s.drop_last()).push(print_function_arg(s.last()))
    }
}

pub open spec fn print_window(w: SpecWindow) -> Seq<char>
    decreases w,
{
    match w {
        SpecWindow::WindowRef(name) => name,
        SpecWindow::WindowSpec(s) => "("@ + print_window_spec(s) + ")"@,
    }
}

pub open spec fn print_window_spec(w: SpecWindowSpec) -> Seq<char>
    decreases w,
{
    let partition = if w.partition_by.len() == 0 {
        seq![]
    } else {
        "PARTITION BY "@ + join(print_exprs(w.partition_by), ", "@)
    };
    let order = if w.order_by.len() == 0 {
        seq![]
    } else {
        (if w.partition_by.len() == 0 {
            seq![]
        } else {
            " "@
        }) + "ORDER BY "@ + join(print_order_by_exprs(w.order_by), ", "@)
    };
    partition + order
}

pub open spec fn print_order_by_expr(o: SpecOrderByExpr) -> Seq<char>
    decreases o,
{
    print_expr(o.expr) + match o.asc {
        Some(true) => " ASC"@,
        Some(false) => " DESC"@,
        None => seq![],
    }
}

pub open spec fn print_order_by_exprs(s: Seq<SpecOrderByExpr>) -> Seq<Seq<char>>
    decreases s,
{
    if s.len() == 0 {
        seq![]
    } else {
        print_order_by_exprs(s.drop_last()).push(print_order_by_expr(s.last()))
    }
}

pub open spec fn print_select_statement(s: SpecSelectStatement) -> Seq<char>
    decreases s,
{
    (match s.with {
        Some(w) => print_with(w) + " "@,
        None => seq![],
    }) + print_set_expr(s.body) + (if s.order_by.len() == 0 {
        seq![]
    } else {
        " ORDER BY "@ + join(print_order_by_exprs(s.order_by), ", "@)
    }) + (match s.limit {
        Some(e) => " LIMIT "@ + print_expr(e),
        None => seq![],
    }) + match s.offset {
        Some(e) => " OFFSET "@ + print_expr(e),
        None => seq![],
    }
}

pub open spec fn print_with(w: SpecWith) -> Seq<char>
    decreases w,
{
    "WITH "@ + (if w.recursive {
        "RECURSIVE "@
    } else {
        seq![]
    }) + join(print_ctes(w.cte_tables), ", "@)
}

pub open spec fn print_cte(c: SpecCte) -> Seq<char>
    decreases c,
{
    print_table_alias(c.alias) + " AS ("@ + print_select_statement(*c.query) + ")"@
}

pub open spec fn print_ctes(s: Seq<SpecCte>) -> Seq<Seq<char>>
    decreases s,
{
    if s.len() == 0 {
        seq![]
    } else {
        print_ctes(s.drop_last()).push(print_cte(s.last()))
    }
}

pub open spec fn print_set_expr(s: SpecSetExpr) -> Seq<char>
    decreases s,
{
    match s {
        SpecSetExpr::Select { distinct, projection, from, selection, group_by, having, named_windows } => "SELECT "@
            + (if distinct {
            "DISTINCT "@
        } else {
            seq![]
        }) + join(print_select_items(projection), ", "@) + (match from {
            Some(t) => " FROM "@ + print_table_ref(t),
            None => seq![],
        }) + (match selection {
            Some(e) => " WHERE "@ + print_expr(e),
            None => seq![],
        }) + (if group_by.len() == 0 {
            seq![]
        } else {
            " GROUP BY "@ + join(print_exprs(group_by), ", "@)
        }) + (match having {
            Some(e) => " Having "@ + print_expr(e),
            None => seq![],
        }) + if named_windows.len() == 0 {
            seq![]
        } else {
            " WINDOW "@ + join(print_named_window_defs(named_windows), ", "@)
        },
    }
}

pub open spec fn print_select_item(i: SpecSelectItem) -> Seq<char>
    decreases i,
{
    match i {
        SpecSelectItem::UnnamedExpr(e) => print_expr(e),
        SpecSelectItem::ExprWithAlias { expr, alias } => print_expr(expr) + " AS "@ + alias,
        SpecSelectItem::Wildcard(o) => print_wildcard_options(o),
    }
}

pub open spec fn print_select_items(s: Seq<SpecSelectItem>) -> Seq<Seq<char>>
    decreases s,
{
    if s.len() == 0 {
        seq![]
    } else {
        print_select_items(s.drop_last()).push(print_select_item(s.last()))
    }
}

pub open spec fn print_named_window_def(d: SpecNamedWindowDef) -> Seq<char>
    decreases d,
{
    d.name + " AS ("@ + print_window_spec(d.spec) + ")"@
}

pub open spec fn print_named_window_defs(s: Seq<SpecNamedWindowDef>) -> Seq<Seq<char>>
    decreases s,
{
    if s.len() == 0 {
        seq![]
    } else {
        print_named_window_defs(s.drop_last()).push(print_named_window_def(s.last()))
    }
}

pub open spec fn print_table_ref(t: SpecTableRef) -> Seq<char>
    decreases t,
{
    match t {
        SpecTableRef::BaseTable { name, alias } => print_table_name(name) + print_alias(alias),
        SpecTableRef::Subquery { subquery, alias } => "("@ + print_select_statement(*subquery) + ")"@
            + print_alias(alias),
        SpecTableRef::Join { op, condition, left, right } => "("@ + print_table_ref(*left) + " "@
            + print_join_op(op) + " "@ + print_table_ref(*right) + print_join_condition(condition) + ")"@,
    }
}

/// ` ON expr` for an `ON` condition, else nothing.
pub open spec fn print_join_condition(c: SpecJoinCondition) -> Seq<char>
    decreases c,
{
    match c {
        SpecJoinCondition::On(e) => " ON "@ + print_expr(*e),
        SpecJoinCondition::NoCondition => seq![],
    }
}



/// A type name followed by its length in brackets when there is one.
pub open spec fn print_type_with_optional_length(sql_type: Seq<char>, len: Option<usize>) -> Seq<char> {
    sql_type + match len {
        Some(n) => "("@ + decimal_text(n as nat) + ")"@,
        None => seq![],
    }
}

pub open spec fn print_data_type(t: DataType) -> Seq<char> {
    match t {
        DataType::Boolean => "BOOLEAN"@,
        DataType::TinyInt(len) => print_type_with_optional_length("TINYINT"@, len),
        DataType::SmallInt(len) => print_type_with_optional_length("SMALLINT"@, len),
        DataType::Integer(len) => print_type_with_optional_length("INTEGER"@, len),
        DataType::BigInt(len) => print_type_with_optional_length("BIGINT"@, len),
        DataType::Varchar(len) => print_type_with_optional_length("VARCHAR"@, len),
    }
}

pub open spec fn print_column_constraint_kind(k: ColumnConstraintKind) -> Seq<char> {
    match k {
        ColumnConstraintKind::PrimaryKey => "PRIMARY KEY"@,
        ColumnConstraintKind::NotNull => "NOT NULL"@,
    }
}

pub open spec fn print_column_constraint(c: ColumnConstraint) -> Seq<char> {
    match view_opt_ident(c.name) {
        Some(n) => "CONSTRAINT "@ + n + " "@ + print_column_constraint_kind(c.constraint),
        None => print_column_constraint_kind(c.constraint),
    }
}

pub open spec fn print_column_constraints(s: Seq<ColumnConstraint>) -> Seq<Seq<char>>
    decreases s.len(),
{
    if s.len() == 0 {
        seq![]
    } else {
        print_column_constraints(s.drop_last()).push(print_column_constraint(s.last()))
    }
}

pub open spec fn print_column_def(c: ColumnDef) -> Seq<char> {
    c.name@ + " "@ + print_data_type(c.column_type) + if c.constraints@.len() == 0 {
        seq![]
    } else {
        " "@ + join(print_column_constraints(c.constraints@), " "@)
    }
}

pub open spec fn print_column_defs(s: Seq<ColumnDef>) -> Seq<Seq<char>>
    decreases s.len(),
{
    if s.len() == 0 {
        seq![]
    } else {
        print_column_defs(s.drop_last()).push(print_column_def(s.last()))
    }
}

pub open spec fn print_create_table(c: CreateTableStatement) -> Seq<char> {
    "CREATE TABLE "@ + c.name@ + " ("@ + join(print_column_defs(c.columns@), ", "@) + ");"@
}

pub open spec fn print_statement(s: Statement) -> Seq<char> {
    match s {
        Statement::CreateTable(c) => print_create_table(c),
    }
}


fn digit_str(d: usize) -> (r: &'static str)
    requires
        d < 10,
    ensures
        r@ == digit_text(d as nat),
{
    if d == 0 {
        "0"
    } else if d == 1 {
        "1"
    } else if d == 2 {
        "2"
    } else if d == 3 {
        "3"
    } else if d == 4 {
        "4"
    } else if d == 5 {
        "5"
    } else if d == 6 {
        "6"
    } else if d == 7 {
        "7"
    } else if d == 8 {
        "8"
    } else {
        "9"
    }
}

fn decimal_string(n: usize) -> (r: String)
    ensures
        r@ == decimal_text(n as nat),
    decreases n,
{
    if n >= 10 {
        let mut s = decimal_string(n / 10);
        s.append(digit_str(n % 10));
        s
    } else {
        String::from_str(digit_str(n))
    }
}

fn literal_text(l: &Literal) -> (r: String)
    ensures
        r@ == print_literal(l@),
{
    match l {
        Literal::String(v) => {
            let mut s = String::from_str("'");
            s.append(v.as_str());
            s.append("'");
            s
        },
        Literal::UnsignedInteger(n) => decimal_string(*n),
    }
}

fn binary_op_str(op: BinaryOp) -> (r: &'static str)
    ensures
        r@ == print_binary_op(op),
{
    match op {
        BinaryOp::Add => "+",
        BinaryOp::Sub => "-",
        BinaryOp::Mul => "*",
        BinaryOp::Div => "/",
        BinaryOp::Mod => "%",
        BinaryOp::Gt => ">",
        BinaryOp::Lt => "<",
        BinaryOp::GtEq => ">=",
        BinaryOp::LtEq => "<=",
        BinaryOp::Eq => "=",
        BinaryOp::NotEq => "!=",
        BinaryOp::And => "AND",
        BinaryOp::Or => "OR",
    }
}

fn unary_op_str(op: UnaryOp) -> (r: &'static str)
    ensures
        r@ == print_unary_op(op),
{
    match op {
        UnaryOp::Plus => "+",
        UnaryOp::Minus => "-",
    }
}

fn join_op_str(op: JoinOp) -> (r: &'static str)
    ensures
        r@ == print_join_op(op),
{
    match op {
        JoinOp::Inner => "INNER JOIN",
        JoinOp::LeftOuter => "LEFT OUTER JOIN",
        JoinOp::RightOuter => "RIGHT OUTER JOIN",
        JoinOp::FullOuter => "FULL OUTER JOIN",
        JoinOp::CrossJoin => "CROSS JOIN",
    }
}

/// Appends `piece` when `cond` holds; the model appends the piece or nothing.
fn append_if(s: &mut String, cond: bool, piece: &str)
    ensures
        final(s)@ == old(s)@ + (if cond {
            piece@
        } else {
            seq![]
        }),
{
    if cond {
        s.append(piece);
    } else {
        assert(s@ =~= s@ + Seq::<char>::empty());
    }
}

fn qualifier_text(o: &Option<Ident>) -> (r: String)
    ensures
        r@ == print_qualifier(super::view_opt_ident(*o)),
{
    match o {
        Some(n) => {
            let mut s = String::from_str(n.value.as_str());
            s.append(".");
            s
        },
        None => String::new(),
    }
}

fn alias_text(o: &Option<Ident>) -> (r: String)
    ensures
        r@ == print_alias(super::view_opt_ident(*o)),
{
    match o {
        Some(a) => {
            let mut s = String::from_str(" AS ");
            s.append(a.value.as_str());
            s
        },
        None => String::new(),
    }
}

fn idents_text(list: &Vec<Ident>, sep: &str) -> (r: String)
    ensures
        r@ == join(view_idents(list@), sep@),
{
    let ghost vs = view_idents(list@);
    proof {
        lemma_view_idents_index(list@);
    }
    let mut out = String::new();
    let mut i: usize = 0;
    assert(vs.take(0) =~= Seq::<Seq<char>>::empty());
    while i < list.len()
        invariant
            0 <= i <= list@.len(),
            vs == view_idents(list@),
            vs.len() == list@.len(),
            forall|j: int| 0 <= j < list@.len() ==> #[trigger] vs[j] == list@[j]@,
            out@ == join(vs.take(i as int), sep@),
        decreases list@.len() - i,
    {
        proof {
            assert(vs.take(i + 1) =~= vs.take(i as int).push(vs[i as int]));
            lemma_join_push(vs.take(i as int), vs[i as int], sep@);
        }
        if i == 0 {
            out = String::from_str(list[i].value.as_str());
        } else {
            out.append(sep);
            out.append(list[i].value.as_str());
        }
        i = i + 1;
    }
    assert(vs.take(list@.len() as int) =~= vs);
    out
}

fn table_name_text(n: &TableName) -> (r: String)
    ensures
        r@ == print_table_name(n@),
{
    let mut s = qualifier_text(&n.database);
    s.append(n.table.value.as_str());
    s
}

fn table_alias_text(a: &TableAlias) -> (r: String)
    ensures
        r@ == print_table_alias(a@),
{
    proof {
        lemma_view_idents_index(a.columns@);
    }
    let mut s = String::from_str(a.name.value.as_str());
    if a.columns.len() > 0 {
        s.append(" (");
        s.append(idents_text(&a.columns, ", ").as_str());
        s.append(")");
    }
    s
}

fn wildcard_options_text(o: &WildcardOptions) -> (r: String)
    ensures
        r@ == print_wildcard_options(o@),
{
    proof {
        lemma_view_idents_index(o.exclude@);
        lemma_view_idents_index(o.except@);
    }
    let mut s = String::from_str("*");
    let mut x = String::new();
    if o.exclude.len() > 0 {
        x = String::from_str(" EXCLUDE (");
        x.append(idents_text(&o.exclude, ", ").as_str());
        x.append(")");
    }
    s.append(x.as_str());
    let mut y = String::new();
    if o.except.len() > 0 {
        y = String::from_str(" EXCEPT (");
        y.append(idents_text(&o.except, ", ").as_str());
        y.append(")");
    }
    s.append(y.as_str());
    s
}

fn expr_text(e: &Expr) -> (r: String)
    ensures
        r@ == print_expr(e@),
    decreases e,
{
    match e {
        Expr::ColumnRef { database, table, column } => {
            let mut s = qualifier_text(database);
            s.append(qualifier_text(table).as_str());
            s.append(column.value.as_str());
            s
        },
        Expr::Literal(l) => literal_text(l),
        Expr::UnaryOp { op, expr } => {
            let mut s = String::from_str(unary_op_str(*op));
            s.append(expr_text(expr).as_str());
            s
        },
        Expr::BinaryOp { left, op, right } => {
            let mut s = String::from_str("(");
            s.append(expr_text(left).as_str());
            s.append(" ");
            s.append(binary_op_str(*op));
            s.append(" ");
            s.append(expr_text(right).as_str());
            s.append(")");
            s
        },
        Expr::Function { name, distinct, args, over } => {
            assert(decreases_to!(*e => args@));
            let mut s = String::from_str(name.value.as_str());
            s.append("(");
            append_if(&mut s, *distinct, "DISTINCT ");
            s.append(function_args_text(args, ", ").as_str());
            s.append(")");
            let w = match over {
                Some(w) => {
                    let mut t = String::from_str(" OVER ");
                    t.append(window_text(w).as_str());
                    t
                },
                None => String::new(),
            };
            s.append(w.as_str());
            s
        },
        Expr::Exists { not, subquery } => {
            let mut s = if *not {
                String::from_str("NOT EXISTS (")
            } else {
                String::from_str("EXISTS (")
            };
            s.append(select_statement_text(subquery).as_str());
            s.append(")");
            s
        },
        Expr::InSubquery { not, expr, subquery } => {
            let mut s = expr_text(expr);
            if *not {
                s.append(" NOT IN (");
            } else {
                s.append(" IN (");
            }
            s.append(select_statement_text(subquery).as_str());
            s.append(")");
            s
        },
        Expr::InList { not, expr, list } => {
            assert(decreases_to!(*e => list@));
            let mut s = expr_text(expr);
            if *not {
                s.append(" NOT IN (");
            } else {
                s.append(" IN (");
            }
            s.append(exprs_text(list, ", ").as_str());
            s.append(")");
            s
        },
        Expr::Subquery(q) => {
            let mut s = String::from_str("(");
            s.append(select_statement_text(q).as_str());
            s.append(")");
            s
        },
    }
}

fn exprs_text(list: &Vec<Expr>, sep: &str) -> (r: String)
    ensures
        r@ == join(print_exprs(view_exprs(list@)), sep@),
    decreases list@,
{
    let ghost vs = view_exprs(list@);
    proof {
        lemma_view_exprs_index(list@);
    }
    let mut out = String::new();
    let mut i: usize = 0;
    assert(vs.take(0) =~= Seq::<_>::empty());
    while i < list.len()
        invariant
            0 <= i <= list@.len(),
            vs == view_exprs(list@),
            vs.len() == list@.len(),
            forall|j: int| 0 <= j < list@.len() ==> #[trigger] vs[j] == view_expr(list@[j]),
            out@ == join(print_exprs(vs.take(i as int)), sep@),
        decreases list@.len() - i,
    {
        proof {
            assert(decreases_to!(list@ => list@[i as int]));
        }
        let item = expr_text(&list[i]);
        proof {
            assert(vs.take(i + 1).drop_last() =~= vs.take(i as int));
            assert(vs.take(i + 1).last() == vs[i as int]);
            lemma_join_push(print_exprs(vs.take(i as int)), print_expr(vs[i as int]), sep@);
        }
        if i == 0 {
            out = item;
        } else {
            out.append(sep);
            out.append(item.as_str());
        }
        i = i + 1;
    }
    assert(vs.take(list@.len() as int) =~= vs);
    out
}

fn function_arg_text(a: &FunctionArg) -> (r: String)
    ensures
        r@ == print_function_arg(a@),
    decreases a,
{
    match a {
        FunctionArg::Wildcard => String::from_str("*"),
        FunctionArg::Expr(e) => expr_text(e),
    }
}

fn function_args_text(list: &Vec<FunctionArg>, sep: &str) -> (r: String)
    ensures
        r@ == join(print_function_args(view_function_args(list@)), sep@),
    decreases list@,
{
    let ghost vs = view_function_args(list@);
    proof {
        lemma_view_function_args_index(list@);
    }
    let mut out = String::new();
    let mut i: usize = 0;
    assert(vs.take(0) =~= Seq::<_>::empty());
    while i < list.len()
        invariant
            0 <= i <= list@.len(),
            vs == view_function_args(list@),
            vs.len() == list@.len(),
            forall|j: int| 0 <= j < list@.len() ==> #[trigger] vs[j] == view_function_arg(list@[j]),
            out@ == join(print_function_args(vs.take(i as int)), sep@),
        decreases list@.len() - i,
    {
        proof {
            assert(decreases_to!(list@ => list@[i as int]));
        }
        let item = function_arg_text(&list[i]);
        proof {
            assert(vs.take(i + 1).drop_last() =~= vs.take(i as int));
            assert(vs.take(i + 1).last() == vs[i as int]);
            lemma_join_push(print_function_args(vs.take(i as int)), print_function_arg(vs[i as int]), sep@);
        }
        if i == 0 {
            out = item;
        } else {
            out.append(sep);
            out.append(item.as_str());
        }
        i = i + 1;
    }
    assert(vs.take(list@.len() as int) =~= vs);
    out
}

fn window_text(w: &Window) -> (r: String)
    ensures
        r@ == print_window(w@),
    decreases w,
{
    match w {
        Window::WindowRef(name) => String::from_str(name.value.as_str()),
        Window::WindowSpec(spec) => {
            let mut s = String::from_str("(");
            s.append(window_spec_text(spec).as_str());
            s.append(")");
            s
        },
    }
}

fn window_spec_text(w: &WindowSpec) -> (r: String)
    ensures
        r@ == print_window_spec(w@),
    decreases w,
{
    proof {
        lemma_view_exprs_index(w.partition_by@);
        lemma_view_order_by_exprs_index(w.order_by@);
    }
    let mut s = String::new();
    if w.partition_by.len() > 0 {
        assert(decreases_to!(*w => w.partition_by@));
        s = String::from_str("PARTITION BY ");
        s.append(exprs_text(&w.partition_by, ", ").as_str());
    }
    let mut t = String::new();
    if w.order_by.len() > 0 {
        assert(decreases_to!(*w => w.order_by@));
        if w.partition_by.len() > 0 {
            t = String::from_str(" ");
        }
        t.append("ORDER BY ");
        t.append(order_by_exprs_text(&w.order_by, ", ").as_str());
    }
    s.append(t.as_str());
    s
}

fn order_by_expr_text(o: &OrderByExpr) -> (r: String)
    ensures
        r@ == print_order_by_expr(o@),
    decreases o,
{
    let mut s = expr_text(&o.expr);
    let t = match o.asc {
        Some(true) => " ASC",
        Some(false) => " DESC",
        None => "",
    };
    proof {
        reveal_strlit("");
    }
    s.append(t);
    s
}

fn order_by_exprs_text(list: &Vec<OrderByExpr>, sep: &str) -> (r: String)
    ensures
        r@ == join(print_order_by_exprs(view_order_by_exprs(list@)), sep@),
    decreases list@,
{
    let ghost vs = view_order_by_exprs(list@);
    proof {
        lemma_view_order_by_exprs_index(list@);
    }
    let mut out = String::new();
    let mut i: usize = 0;
    assert(vs.take(0) =~= Seq::<_>::empty());
    while i < list.len()
        invariant
            0 <= i <= list@.len(),
            vs == view_order_by_exprs(list@),
            vs.len() == list@.len(),
            forall|j: int| 0 <= j < list@.len() ==> #[trigger] vs[j] == view_order_by_expr(list@[j]),
            out@ == join(print_order_by_exprs(vs.take(i as int)), sep@),
        decreases list@.len() - i,
    {
        proof {
            assert(decreases_to!(list@ => list@[i as int]));
        }
        let item = order_by_expr_text(&list[i]);
        proof {
            assert(vs.take(i + 1).drop_last() =~= vs.take(i as int));
            assert(vs.take(i + 1).last() == vs[i as int]);
            lemma_join_push(print_order_by_exprs(vs.take(i as int)), print_order_by_expr(vs[i as int]), sep@);
        }
        if i == 0 {
            out = item;
        } else {
            out.append(sep);
            out.append(item.as_str());
        }
        i = i + 1;
    }
    assert(vs.take(list@.len() as int) =~= vs);
    out
}

fn select_statement_text(q: &SelectStatement) -> (r: String)
    ensures
        r@ == print_select_statement(q@),
    decreases q,
{
    proof {
        lemma_view_order_by_exprs_index(q.order_by@);
    }
    let mut s = match &q.with {
        Some(w) => {
            let mut t = with_text(w);
            t.append(" ");
            t
        },
        None => String::new(),
    };
    s.append(set_expr_text(&q.body).as_str());
    let mut o = String::new();
    if q.order_by.len() > 0 {
        assert(decreases_to!(*q => q.order_by@));
        o = String::from_str(" ORDER BY ");
        o.append(order_by_exprs_text(&q.order_by, ", ").as_str());
    }
    s.append(o.as_str());
    let l = match &q.limit {
        Some(e) => {
            let mut t = String::from_str(" LIMIT ");
            t.append(expr_text(e).as_str());
            t
        },
        None => String::new(),
    };
    s.append(l.as_str());
    let f = match &q.offset {
        Some(e) => {
            let mut t = String::from_str(" OFFSET ");
            t.append(expr_text(e).as_str());
            t
        },
        None => String::new(),
    };
    s.append(f.as_str());
    s
}

fn with_text(w: &With) -> (r: String)
    ensures
        r@ == print_with(w@),
    decreases w,
{
    assert(decreases_to!(*w => w.cte_tables@));
    let mut s = String::from_str("WITH ");
    append_if(&mut s, w.recursive, "RECURSIVE ");
    s.append(ctes_text(&w.cte_tables, ", ").as_str());
    s
}

fn cte_text(c: &Cte) -> (r: String)
    ensures
        r@ == print_cte(c@),
    decreases c,
{
    let mut s = table_alias_text(&c.alias);
    s.append(" AS (");
    s.append(select_statement_text(&c.query).as_str());
    s.append(")");
    s
}

fn ctes_text(list: &Vec<Cte>, sep: &str) -> (r: String)
    ensures
        r@ == join(print_ctes(view_ctes(list@)), sep@),
    decreases list@,
{
    let ghost vs = view_ctes(list@);
    proof {
        lemma_view_ctes_index(list@);
    }
    let mut out = String::new();
    let mut i: usize = 0;
    assert(vs.take(0) =~= Seq::<_>::empty());
    while i < list.len()
        invariant
            0 <= i <= list@.len(),
            vs == view_ctes(list@),
            vs.len() == list@.len(),
            forall|j: int| 0 <= j < list@.len() ==> #[trigger] vs[j] == view_cte(list@[j]),
            out@ == join(print_ctes(vs.take(i as int)), sep@),
        decreases list@.len() - i,
    {
        proof {
            assert(decreases_to!(list@ => list@[i as int]));
        }
        let item = cte_text(&list[i]);
        proof {
            assert(vs.take(i + 1).drop_last() =~= vs.take(i as int));
            assert(vs.take(i + 1).last() == vs[i as int]);
            lemma_join_push(print_ctes(vs.take(i as int)), print_cte(vs[i as int]), sep@);
        }
        if i == 0 {
            out = item;
        } else {
            out.append(sep);
            out.append(item.as_str());
        }
        i = i + 1;
    }
    assert(vs.take(list@.len() as int) =~= vs);
    out
}

fn set_expr_text(q: &SetExpr) -> (r: String)
    ensures
        r@ == print_set_expr(q@),
    decreases q,
{
    match q {
        SetExpr::Select { distinct, projection, from, selection, group_by, having, named_windows } => {
            proof {
                lemma_view_exprs_index(group_by@);
                lemma_view_named_window_defs_index(named_windows@);
            }
            assert(decreases_to!(*q => projection@));
            assert(decreases_to!(*q => group_by@));
            assert(decreases_to!(*q => named_windows@));
            let mut s = String::from_str("SELECT ");
            append_if(&mut s, *distinct, "DISTINCT ");
            s.append(select_items_text(projection, ", ").as_str());
            let f = match from {
                Some(t) => {
                    let mut x = String::from_str(" FROM ");
                    x.append(table_ref_text(t).as_str());
                    x
                },
                None => String::new(),
            };
            s.append(f.as_str());
            let w = match selection {
                Some(e) => {
                    let mut x = String::from_str(" WHERE ");
                    x.append(expr_text(e).as_str());
                    x
                },
                None => String::new(),
            };
            s.append(w.as_str());
            let mut g = String::new();
            if group_by.len() > 0 {
                g = String::from_str(" GROUP BY ");
                g.append(exprs_text(group_by, ", ").as_str());
            }
            s.append(g.as_str());
            let h = match having {
                Some(e) => {
                    let mut x = String::from_str(" Having ");
                    x.append(expr_text(e).as_str());
                    x
                },
                None => String::new(),
            };
            s.append(h.as_str());
            let mut n = String::new();
            if named_windows.len() > 0 {
                n = String::from_str(" WINDOW ");
                n.append(named_window_defs_text(named_windows, ", ").as_str());
            }
            s.append(n.as_str());
            s
        },
    }
}

fn select_item_text(i: &SelectItem) -> (r: String)
    ensures
        r@ == print_select_item(i@),
    decreases i,
{
    match i {
        SelectItem::UnnamedExpr(e) => expr_text(e),
        SelectItem::ExprWithAlias { expr, alias } => {
            let mut s = expr_text(expr);
            s.append(" AS ");
            s.append(alias.value.as_str());
            s
        },
        SelectItem::Wildcard(o) => wildcard_options_text(o),
    }
}

fn select_items_text(list: &Vec<SelectItem>, sep: &str) -> (r: String)
    ensures
        r@ == join(print_select_items(view_select_items(list@)), sep@),
    decreases list@,
{
    let ghost vs = view_select_items(list@);
    proof {
        lemma_view_select_items_index(list@);
    }
    let mut out = String::new();
    let mut i: usize = 0;
    assert(vs.take(0) =~= Seq::<_>::empty());
    while i < list.len()
        invariant
            0 <= i <= list@.len(),
            vs == view_select_items(list@),
            vs.len() == list@.len(),
            forall|j: int| 0 <= j < list@.len() ==> #[trigger] vs[j] == view_select_item(list@[j]),
            out@ == join(print_select_items(vs.take(i as int)), sep@),
        decreases list@.len() - i,
    {
        proof {
            assert(decreases_to!(list@ => list@[i as int]));
        }
        let item = select_item_text(&list[i]);
        proof {
            assert(vs.take(i + 1).drop_last() =~= vs.take(i as int));
            assert(vs.take(i + 1).last() == vs[i as int]);
            lemma_join_push(print_select_items(vs.take(i as int)), print_select_item(vs[i as int]), sep@);
        }
        if i == 0 {
            out = item;
        } else {
            out.append(sep);
            out.append(item.as_str());
        }
        i = i + 1;
    }
    assert(vs.take(list@.len() as int) =~= vs);
    out
}

fn named_window_def_text(d: &NamedWindowDef) -> (r: String)
    ensures
        r@ == print_named_window_def(d@),
    decreases d,
{
    let mut s = String::from_str(d.name.value.as_str());
    s.append(" AS (");
    s.append(window_spec_text(&d.spec).as_str());
    s.append(")");
    s
}

fn named_window_defs_text(list: &Vec<NamedWindowDef>, sep: &str) -> (r: String)
    ensures
        r@ == join(print_named_window_defs(view_named_window_defs(list@)), sep@),
    decreases list@,
{
    let ghost vs = view_named_window_defs(list@);
    proof {
        lemma_view_named_window_defs_index(list@);
    }
    let mut out = String::new();
    let mut i: usize = 0;
    assert(vs.take(0) =~= Seq::<_>::empty());
    while i < list.len()
        invariant
            0 <= i <= list@.len(),
            vs == view_named_window_defs(list@),
            vs.len() == list@.len(),
            forall|j: int| 0 <= j < list@.len() ==> #[trigger] vs[j] == view_named_window_def(list@[j]),
            out@ == join(print_named_window_defs(vs.take(i as int)), sep@),
        decreases list@.len() - i,
    {
        proof {
            assert(decreases_to!(list@ => list@[i as int]));
        }
        let item = named_window_def_text(&list[i]);
        proof {
            assert(vs.take(i + 1).drop_last() =~= vs.take(i as int));
            assert(vs.take(i + 1).last() == vs[i as int]);
            lemma_join_push(print_named_window_defs(vs.take(i as int)), print_named_window_def(vs[i as int]), sep@);
        }
        if i == 0 {
            out = item;
        } else {
            out.append(sep);
            out.append(item.as_str());
        }
        i = i + 1;
    }
    assert(vs.take(list@.len() as int) =~= vs);
    out
}

fn join_condition_text(c: &JoinCondition) -> (r: String)
    ensures
        r@ == print_join_condition(c@),
    decreases c,
{
    match c {
        JoinCondition::On(e) => {
            let mut x = String::from_str(" ON ");
            x.append(expr_text(e).as_str());
            x
        },
        JoinCondition::NoCondition => String::new(),
    }
}

fn table_ref_text(t: &TableRef) -> (r: String)
    ensures
        r@ == print_table_ref(t@),
    decreases t,
{
    match t {
        TableRef::BaseTable { name, alias } => {
            let mut s = table_name_text(name);
            s.append(alias_text(alias).as_str());
            s
        },
        TableRef::Subquery { subquery, alias } => {
            let mut s = String::from_str("(");
            s.append(select_statement_text(subquery).as_str());
            s.append(")");
            s.append(alias_text(alias).as_str());
            s
        },
        TableRef::Join { op, condition, left, right } => {
            let mut s = String::from_str("(");
            s.append(table_ref_text(left).as_str());
            s.append(" ");
            s.append(join_op_str(*op));
            s.append(" ");
            s.append(table_ref_text(right).as_str());
            s.append(join_condition_text(condition).as_str());
            s.append(")");
            s
        },
    }
}

/// Writes a type name followed by its length in brackets when there is one.
pub fn format_type_with_optional_length(sql_type: &str, len: &Option<usize>) -> (r: String)
    ensures
        r@ == print_type_with_optional_length(sql_type@, *len),
{
    let mut s = String::from_str(sql_type);
    if let Some(n) = len {
        s.append("(");
        s.append(decimal_string(*n).as_str());
        s.append(")");
    }
    s
}

fn column_constraints_text(list: &Vec<ColumnConstraint>, sep: &str) -> (r: String)
    ensures
        r@ == join(print_column_constraints(list@), sep@),
{
    let mut out = String::new();
    let mut i: usize = 0;
    assert(list@.take(0) =~= Seq::<ColumnConstraint>::empty());
    while i < list.len()
        invariant
            0 <= i <= list@.len(),
            out@ == join(print_column_constraints(list@.take(i as int)), sep@),
        decreases list@.len() - i,
    {
        let item = list[i].to_string();
        proof {
            assert(list@.take(i + 1).drop_last() =~= list@.take(i as int));
            lemma_join_push(print_column_constraints(list@.take(i as int)), print_column_constraint(list@[i as int]), sep@);
        }
        if i == 0 {
            out = item;
        } else {
            out.append(sep);
            out.append(item.as_str());
        }
        i = i + 1;
    }
    assert(list@.take(list@.len() as int) =~= list@);
    out
}

fn column_defs_text(list: &Vec<ColumnDef>, sep: &str) -> (r: String)
    ensures
        r@ == join(print_column_defs(list@), sep@),
{
    let mut out = String::new();
    let mut i: usize = 0;
    assert(list@.take(0) =~= Seq::<ColumnDef>::empty());
    while i < list.len()
        invariant
            0 <= i <= list@.len(),
            out@ == join(print_column_defs(list@.take(i as int)), sep@),
        decreases list@.len() - i,
    {
        let item = list[i].to_string();
        proof {
            assert(list@.take(i + 1).drop_last() =~= list@.take(i as int));
            lemma_join_push(print_column_defs(list@.take(i as int)), print_column_def(list@[i as int]), sep@);
        }
        if i == 0 {
            out = item;
        } else {
            out.append(sep);
            out.append(item.as_str());
        }
        i = i + 1;
    }
    assert(list@.take(list@.len() as int) =~= list@);
    out
}

impl DataType {
    /// The SQL name of the type.
    pub fn to_string(&self) -> (r: String)
        ensures
            r@ == print_data_type(*self),
    {
        match self {
            DataType::Boolean => String::from_str("BOOLEAN"),
            DataType::TinyInt(len) => format_type_with_optional_length("TINYINT", len),
            DataType::SmallInt(len) => format_type_with_optional_length("SMALLINT", len),
            DataType::Integer(len) => format_type_with_optional_length("INTEGER", len),
            DataType::BigInt(len) => format_type_with_optional_length("BIGINT", len),
            DataType::Varchar(len) => format_type_with_optional_length("VARCHAR", len),
        }
    }
}

impl ColumnConstraintKind {
    pub fn to_string(&self) -> (r: String)
        ensures
            r@ == print_column_constraint_kind(*self),
    {
        match self {
            ColumnConstraintKind::PrimaryKey => String::from_str("PRIMARY KEY"),
            ColumnConstraintKind::NotNull => String::from_str("NOT NULL"),
        }
    }
}

impl ColumnConstraint {
    pub fn to_string(&self) -> (r: String)
        ensures
            r@ == print_column_constraint(*self),
    {
        match &self.name {
            None => self.constraint.to_string(),
            Some(name) => {
                let mut s = String::from_str("CONSTRAINT ");
                s.append(name.value.as_str());
                s.append(" ");
                s.append(self.constraint.to_string().as_str());
                s
            },
        }
    }
}

impl ColumnDef {
    pub fn to_string(&self) -> (r: String)
        ensures
            r@ == print_column_def(*self),
    {
        let mut s = String::from_str(self.name.value.as_str());
        s.append(" ");
        s.append(self.column_type.to_string().as_str());
        if self.constraints.len() > 0 {
            s.append(" ");
            s.append(column_constraints_text(&self.constraints, " ").as_str());
        }
        s
    }
}

impl CreateTableStatement {
    pub fn to_string(&self) -> (r: String)
        ensures
            r@ == print_create_table(*self),
    {
        let mut s = String::from_str("CREATE TABLE ");
        s.append(self.name.value.as_str());
        s.append(" (");
        s.append(column_defs_text(&self.columns, ", ").as_str());
        s.append(");");
        s
    }
}

impl Statement {
    pub fn to_string(&self) -> (r: String)
        ensures
            r@ == print_statement(*self),
    {
        match self {
            Statement::CreateTable(c) => c.to_string(),
        }
    }
}

impl Ident {
    /// The identifier's text.
    pub fn to_string(&self) -> (r: String)
        ensures
            r@ == self@,
    {
        String::from_str(self.value.as_str())
    }
}

impl Literal {
    pub fn to_string(&self) -> (r: String)
        ensures
            r@ == print_literal(self@),
    {
        literal_text(self)
    }
}

impl BinaryOp {
    pub fn to_string(&self) -> (r: String)
        ensures
            r@ == print_binary_op(*self),
    {
        String::from_str(binary_op_str(*self))
    }
}

impl UnaryOp {
    pub fn to_string(&self) -> (r: String)
        ensures
            r@ == print_unary_op(*self),
    {
        String::from_str(unary_op_str(*self))
    }
}

impl JoinOp {
    pub fn to_string(&self) -> (r: String)
        ensures
            r@ == print_join_op(*self),
    {
        String::from_str(join_op_str(*self))
    }
}

impl Expr {
    pub fn to_string(&self) -> (r: String)
        ensures
            r@ == print_expr(self@),
    {
        expr_text(self)
    }
}

impl FunctionArg {
    pub fn to_string(&self) -> (r: String)
        ensures
            r@ == print_function_arg(self@),
    {
        function_arg_text(self)
    }
}

impl Window {
    pub fn to_string(&self) -> (r: String)
        ensures
            r@ == print_window(self@),
    {
        window_text(self)
    }
}

impl WindowSpec {
    pub fn to_string(&self) -> (r: String)
        ensures
            r@ == print_window_spec(self@),
    {
        window_spec_text(self)
    }
}

impl OrderByExpr {
    pub fn to_string(&self) -> (r: String)
        ensures
            r@ == print_order_by_expr(self@),
    {
        order_by_expr_text(self)
    }
}

impl SelectStatement {
    pub fn to_string(&self) -> (r: String)
        ensures
            r@ == print_select_statement(self@),
    {
        select_statement_text(self)
    }
}

impl With {
    pub fn to_string(&self) -> (r: String)
        ensures
            r@ == print_with(self@),
    {
        with_text(self)
    }
}

impl Cte {
    pub fn to_string(&self) -> (r: String)
        ensures
            r@ == print_cte(self@),
    {
        cte_text(self)
    }
}

impl TableAlias {
    pub fn to_string(&self) -> (r: String)
        ensures
            r@ == print_table_alias(self@),
    {
        table_alias_text(self)
    }
}

impl SetExpr {
    pub fn to_string(&self) -> (r: String)
        ensures
            r@ == print_set_expr(self@),
    {
        set_expr_text(self)
    }
}

impl SelectItem {
    pub fn to_string(&self) -> (r: String)
        ensures
            r@ == print_select_item(self@),
    {
        select_item_text(self)
    }
}

impl NamedWindowDef {
    pub fn to_string(&self) -> (r: String)
        ensures
            r@ == print_named_window_def(self@),
    {
        named_window_def_text(self)
    }
}

impl TableRef {
    pub fn to_string(&self) -> (r: String)
        ensures
            r@ == print_table_ref(self@),
    {
        table_ref_text(self)
    }
}

impl TableName {
    pub fn to_string(&self) -> (r: String)
        ensures
            r@ == print_table_name(self@),
    {
        table_name_text(self)
    }
}

/// `DISTINCT` in a call is printed: the text of a call marked `DISTINCT` is the
/// text of the same call unmarked, with `DISTINCT ` written right after the
/// opening bracket, before the arguments.
pub proof fn law_distinct_call_printed(name: Seq<char>, args: Seq<SpecFunctionArg>, over: Option<SpecWindow>)
    ensures
        ({
            let plain = print_expr(SpecExpr::Function { name, distinct: false, args, over });
            let marked = print_expr(SpecExpr::Function { name, distinct: true, args, over });
            let k = name.len() + 1;
            &&& plain.take(k as int) == name + "("@
            &&& marked == plain.take(k as int) + "DISTINCT "@ + plain.skip(k as int)
        }),
{
    reveal_strlit("(");
    let plain = print_expr(SpecExpr::Function { name, distinct: false, args, over });
    let marked = print_expr(SpecExpr::Function { name, distinct: true, args, over });
    let head = name + "("@;
    let rest = join(print_function_args(args), ", "@) + ")"@ + match over {
        Some(w) => " OVER "@ + print_window(w),
        None => seq![],
    };
    assert(plain =~= head + rest);
    assert(marked =~= head + "DISTINCT "@ + rest);
    lemma_split_at_prefix(head, rest);
}

/// A sequence that starts with `a` splits after `a` into `a` and the rest.
proof fn lemma_split_at_prefix(a: Seq<char>, x: Seq<char>)
    ensures
        (a + x).take(a.len() as int) == a,
        (a + x).skip(a.len() as int) == x,
{
    assert((a + x).take(a.len() as int) =~= a);
    assert((a + x).skip(a.len() as int) =~= x);
}

/// The text of `NOT IN (` is ` NOT` followed by that of ` IN (`.
proof fn lemma_not_in_text()
    ensures
        " NOT IN ("@ == " NOT"@ + " IN ("@,
{
    reveal_strlit(" NOT IN (");
    reveal_strlit(" NOT");
    reveal_strlit(" IN (");
    assert(" NOT IN ("@ =~= " NOT"@ + " IN ("@);
}

/// A negated list test is printed with `NOT`: the text of `e NOT IN (...)` is
/// that of `e IN (...)` with ` NOT` written right after `e`.
pub proof fn law_not_in_list_printed(expr: SpecExpr, list: Seq<SpecExpr>)
    ensures
        ({
            let k = print_expr(expr).len();
            let plain = print_expr(SpecExpr::InList { not: false, expr: Box::new(expr), list });
            let negated = print_expr(SpecExpr::InList { not: true, expr: Box::new(expr), list });
            &&& plain.take(k as int) == print_expr(expr)
            &&& negated == print_expr(expr) + " NOT"@ + plain.skip(k as int)
        }),
{
    let e = print_expr(expr);
    let rest = " IN ("@ + (join(print_exprs(list), ", "@) + ")"@);
    lemma_not_in_text();
    assert(print_expr(SpecExpr::InList { not: false, expr: Box::new(expr), list }) =~= e + rest);
    assert(print_expr(SpecExpr::InList { not: true, expr: Box::new(expr), list }) =~= e + " NOT"@ + rest);
    lemma_split_at_prefix(e, rest);
}

/// A negated subquery test is printed with `NOT`: the text of `e NOT IN (...)` is
/// that of `e IN (...)` with ` NOT` written right after `e`.
pub proof fn law_not_in_subquery_printed(expr: SpecExpr, subquery: SpecSelectStatement)
    ensures
        ({
            let k = print_expr(expr).len();
            let plain = print_expr(SpecExpr::InSubquery { not: false, expr: Box::new(expr), subquery: Box::new(subquery) });
            let negated = print_expr(SpecExpr::InSubquery { not: true, expr: Box::new(expr), subquery: Box::new(subquery) });
            &&& plain.take(k as int) == print_expr(expr)
            &&& negated == print_expr(expr) + " NOT"@ + plain.skip(k as int)
        }),
{
    let e = print_expr(expr);
    let rest = " IN ("@ + (print_select_statement(subquery) + ")"@);
    lemma_not_in_text();
    assert(print_expr(SpecExpr::InSubquery { not: false, expr: Box::new(expr), subquery: Box::new(subquery) }) =~= e
        + rest);
    assert(print_expr(SpecExpr::InSubquery { not: true, expr: Box::new(expr), subquery: Box::new(subquery) }) =~= e
        + " NOT"@ + rest);
    lemma_split_at_prefix(e, rest);
}

/// A negated `EXISTS` is printed with `NOT`: the text of `NOT EXISTS (...)` is
/// `NOT ` followed by that of `EXISTS (...)`.
pub proof fn law_not_exists_printed(subquery: SpecSelectStatement)
    ensures
        print_expr(SpecExpr::Exists { not: true, subquery: Box::new(subquery) }) == "NOT "@ + print_expr(
            SpecExpr::Exists { not: false, subquery: Box::new(subquery) },
        ),
{
    reveal_strlit("NOT EXISTS (");
    reveal_strlit("NOT ");
    reveal_strlit("EXISTS (");
    let rest = print_select_statement(subquery) + ")"@;
    assert("NOT EXISTS ("@ =~= "NOT "@ + "EXISTS ("@);
    assert(print_expr(SpecExpr::Exists { not: true, subquery: Box::new(subquery) }) =~= "NOT EXISTS ("@ + rest);
    assert(print_expr(SpecExpr::Exists { not: false, subquery: Box::new(subquery) }) =~= "EXISTS ("@ + rest);
}

/// The direction of an `ORDER BY` item is printed after its expression: ` ASC`
/// for ascending, ` DESC` for descending, nothing when it has none.
pub proof fn law_order_direction_printed(expr: SpecExpr)
    ensures
        print_order_by_expr(SpecOrderByExpr { expr, asc: None }) == print_expr(expr),
        print_order_by_expr(SpecOrderByExpr { expr, asc: Some(true) }) == print_expr(expr) + " ASC"@,
        print_order_by_expr(SpecOrderByExpr { expr, asc: Some(false) }) == print_expr(expr) + " DESC"@,
{
    assert(print_expr(expr) + seq![] =~= print_expr(expr));
}

/// `SELECT DISTINCT` is printed: the text of a `SELECT` marked `DISTINCT` is the
/// text of the same `SELECT` unmarked, with `DISTINCT ` written right after `SELECT `.
pub proof fn law_select_distinct_printed(
    projection: Seq<SpecSelectItem>,
    from: Option<SpecTableRef>,
    selection: Option<SpecExpr>,
    group_by: Seq<SpecExpr>,
    having: Option<SpecExpr>,
    named_windows: Seq<SpecNamedWindowDef>,
)
    ensures
        ({
            let plain = print_set_expr(
                SpecSetExpr::Select { distinct: false, projection, from, selection, group_by, having, named_windows },
            );
            let marked = print_set_expr(
                SpecSetExpr::Select { distinct: true, projection, from, selection, group_by, having, named_windows },
            );
            &&& plain.take(7) == "SELECT "@
            &&& marked == "SELECT "@ + "DISTINCT "@ + plain.skip(7)
        }),
{
    reveal_strlit("SELECT ");
    let plain = print_set_expr(
        SpecSetExpr::Select { distinct: false, projection, from, selection, group_by, having, named_windows },
    );
    let marked = print_set_expr(
        SpecSetExpr::Select { distinct: true, projection, from, selection, group_by, having, named_windows },
    );
    let a = join(print_select_items(projection), ", "@);
    let f = match from {
        Some(t) => " FROM "@ + print_table_ref(t),
        None => seq![],
    };
    let w = match selection {
        Some(e) => " WHERE "@ + print_expr(e),
        None => seq![],
    };
    let g = if group_by.len() == 0 {
        seq![]
    } else {
        " GROUP BY "@ + join(print_exprs(group_by), ", "@)
    };
    let h = match having {
        Some(e) => " Having "@ + print_expr(e),
        None => seq![],
    };
    let n = if named_windows.len() == 0 {
        seq![]
    } else {
        " WINDOW "@ + join(print_named_window_defs(named_windows), ", "@)
    };
    assert(plain == "SELECT "@ + seq![] + a + f + w + g + h + n);
    assert(marked == "SELECT "@ + "DISTINCT "@ + a + f + w + g + h + n);
    lemma_regroup("SELECT "@, seq![], a, f, w, g, h, n);
    lemma_regroup("SELECT "@, "DISTINCT "@, a, f, w, g, h, n);
    assert("SELECT "@ + seq![] =~= "SELECT "@);
    lemma_split_at_prefix("SELECT "@, a + f + w + g + h + n);
}

/// Concatenation regrouped after its first two parts.
proof fn lemma_regroup(
    p: Seq<char>,
    x: Seq<char>,
    a: Seq<char>,
    f: Seq<char>,
    w: Seq<char>,
    g: Seq<char>,
    h: Seq<char>,
    n: Seq<char>,
)
    ensures
        p + x + a + f + w + g + h + n == (p + x) + (a + f + w + g + h + n),
{
    assert(p + x + a + f + w + g + h + n =~= (p + x) + (a + f + w + g + h + n));
}

/// The limit and the offset of a query are printed at its end, each after its
/// keyword: the limit after ` LIMIT `, then the offset after ` OFFSET `.
pub proof fn law_limit_offset_printed(s: SpecSelectStatement, limit: SpecExpr, offset: SpecExpr)
    ensures
        ({
            let bare = print_select_statement(SpecSelectStatement { limit: None, offset: None, ..s });
            &&& print_select_statement(SpecSelectStatement { limit: Some(limit), offset: None, ..s }) == bare
                + " LIMIT "@ + print_expr(limit)
            &&& print_select_statement(SpecSelectStatement { limit: None, offset: Some(offset), ..s }) == bare
                + " OFFSET "@ + print_expr(offset)
            &&& print_select_statement(SpecSelectStatement { limit: Some(limit), offset: Some(offset), ..s })
                == bare + " LIMIT "@ + print_expr(limit) + " OFFSET "@ + print_expr(offset)
        }),
{
    let bare = print_select_statement(SpecSelectStatement { limit: None, offset: None, ..s });
    let head = (match s.with {
        Some(w) => print_with(w) + " "@,
        None => seq![],
    }) + print_set_expr(s.body) + (if s.order_by.len() == 0 {
        seq![]
    } else {
        " ORDER BY "@ + join(print_order_by_exprs(s.order_by), ", "@)
    });
    assert(bare =~= head);
    assert(print_select_statement(SpecSelectStatement { limit: Some(limit), offset: None, ..s }) =~= head
        + " LIMIT "@ + print_expr(limit));
    assert(print_select_statement(SpecSelectStatement { limit: None, offset: Some(offset), ..s }) =~= head
        + " OFFSET "@ + print_expr(offset));
    assert(print_select_statement(SpecSelectStatement { limit: Some(limit), offset: Some(offset), ..s }) =~= head
        + " LIMIT "@ + print_expr(limit) + " OFFSET "@ + print_expr(offset));
}

/// `WITH RECURSIVE` is printed: the text of a recursive `WITH` clause is that of
/// the same clause not recursive, with `RECURSIVE ` written right after `WITH `.
pub proof fn law_with_recursive_printed(cte_tables: Seq<SpecCte>)
    ensures
        ({
            let plain = print_with(SpecWith { recursive: false, cte_tables });
            let marked = print_with(SpecWith { recursive: true, cte_tables });
            &&& plain.take(5) == "WITH "@
            &&& marked == "WITH "@ + "RECURSIVE "@ + plain.skip(5)
        }),
{
    reveal_strlit("WITH ");
    let rest = join(print_ctes(cte_tables), ", "@);
    assert(print_with(SpecWith { recursive: false, cte_tables }) =~= "WITH "@ + rest);
    assert(print_with(SpecWith { recursive: true, cte_tables }) =~= "WITH "@ + "RECURSIVE "@ + rest);
    lemma_split_at_prefix("WITH "@, rest);
}

} // verus!
