//! Abstract syntax tree of SQL queries, with a mathematical model of every node.

pub mod cloning;
pub mod display;
pub mod expr;
pub mod set_expr;
pub mod statement;
pub mod table_ref;

use vstd::prelude::*;

pub use expr::{BinaryOp, Expr, FunctionArg, Literal, UnaryOp, Window, WindowSpec};
pub use set_expr::{NamedWindowDef, SelectItem, SetExpr, WildcardOptions};
pub use statement::{Cte, OrderByExpr, SelectStatement, TableAlias, With};
pub use table_ref::{JoinCondition, JoinOp, TableName, TableRef};

verus! {

/// An identifier
#[derive(Debug, PartialEq, Eq)]
pub struct Ident {
    /// The value of the identifier without quotes.
    pub value: String,
}

impl View for Ident {
    type V = Seq<char>;

    open spec fn view(&self) -> Seq<char> {
        self.value@
    }
}

impl Ident {
    /// Builds an identifier from its text.
    pub fn new(value: String) -> (r: Ident)
        ensures
            r.value == value,
            r@ == value@,
    {
        Ident { value }
    }
}

/// The texts of a sequence of identifiers.
pub open spec fn view_idents(s: Seq<Ident>) -> Seq<Seq<char>>
    decreases s.len(),
{
    if s.len() == 0 {
        Seq::empty()
    } else {
        view_idents(s.drop_last()).push(s.last()@)
    }
}

pub proof fn lemma_view_idents_index(s: Seq<Ident>)
    ensures
        view_idents(s).len() == s.len(),
        forall|i: int| 0 <= i < s.len() ==> #[trigger] view_idents(s)[i] == s[i]@,
    decreases s.len(),
{
    if s.len() > 0 {
        lemma_view_idents_index(s.drop_last());
        assert forall|i: int| 0 <= i < s.len() implies #[trigger] view_idents(s)[i] == s[i]@ by {
            if i < s.len() - 1 {
                assert(s.drop_last()[i] == s[i]);
            }
        }
    }
}

pub proof fn lemma_view_idents_push(s: Seq<Ident>, x: Ident)
    ensures
        view_idents(s.push(x)) == view_idents(s).push(x@),
{
    assert(s.push(x).drop_last() =~= s);
}

/// The text of an optional identifier.
pub open spec fn view_opt_ident(o: Option<Ident>) -> Option<Seq<char>> {
    match o {
        Some(i) => Some(i@),
        None => None,
    }
}

/// An object name. e.g. database.table.column
pub struct ObjectName(pub Vec<Ident>);

/// A statement of the data definition language.
pub enum Statement {
    CreateTable(CreateTableStatement),
}

/// CREATE TABLE
#[derive(Debug)]
pub struct CreateTableStatement {
    pub name: Ident,
    pub columns: Vec<ColumnDef>,
}

/// Representation of a new column to define in a table
#[derive(Debug)]
pub struct ColumnDef {
    pub name: Ident,
    pub column_type: DataType,
    pub constraints: Vec<ColumnConstraint>,
}

/// SQL data types, with an optional display width or length.
#[derive(Debug, Clone, Copy, PartialEq, Eq, Structural)]
pub enum DataType {
    Boolean,
    TinyInt(Option<usize>),
    SmallInt(Option<usize>),
    Integer(Option<usize>),
    BigInt(Option<usize>),
    Varchar(Option<usize>),
}

/// A named or anonymous constraint on a column.
#[derive(Debug)]
pub struct ColumnConstraint {
    pub name: Option<Ident>,
    pub constraint: ColumnConstraintKind,
}

/// The kinds of column constraints.
#[derive(Debug, Clone, Copy, PartialEq, Eq, Structural)]
pub enum ColumnConstraintKind {
    PrimaryKey,
    NotNull,
}

} // verus!
