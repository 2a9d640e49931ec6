use sqlparser_nom::ast::display::format_type_with_optional_length;
use sqlparser_nom::ast::{
    BinaryOp, ColumnConstraint, ColumnConstraintKind, ColumnDef, CreateTableStatement, DataType, Expr, Ident,
    JoinOp, Literal, Statement, UnaryOp,
};

fn ident(s: &str) -> Ident {
    Ident::new(s.to_string())
}

#[test]
fn type_with_and_without_length() {
    assert_eq!(format_type_with_optional_length("VARCHAR", &Some(255)), "VARCHAR(255)");
    assert_eq!(format_type_with_optional_length("INTEGER", &None), "INTEGER");
    assert_eq!(format_type_with_optional_length("TINYINT", &Some(0)), "TINYINT(0)");
}

#[test]
fn data_types() {
    assert_eq!(DataType::Boolean.to_string(), "BOOLEAN");
    assert_eq!(DataType::TinyInt(Some(3)).to_string(), "TINYINT(3)");
    assert_eq!(DataType::SmallInt(None).to_string(), "SMALLINT");
    assert_eq!(DataType::Integer(Some(11)).to_string(), "INTEGER(11)");
    assert_eq!(DataType::BigInt(Some(20)).to_string(), "BIGINT(20)");
    assert_eq!(DataType::Varchar(Some(1024)).to_string(), "VARCHAR(1024)");
}

#[test]
fn column_constraints() {
    assert_eq!(ColumnConstraintKind::PrimaryKey.to_string(), "PRIMARY KEY");
    assert_eq!(ColumnConstraintKind::NotNull.to_string(), "NOT NULL");
    let named = ColumnConstraint { name: Some(ident("pk")), constraint: ColumnConstraintKind::PrimaryKey };
    assert_eq!(named.to_string(), "CONSTRAINT pk PRIMARY KEY");
    let anonymous = ColumnConstraint { name: None, constraint: ColumnConstraintKind::NotNull };
    assert_eq!(anonymous.to_string(), "NOT NULL");
}

#[test]
fn create_table() {
    let id = ColumnDef {
        name: ident("id"),
        column_type: DataType::Integer(None),
        constraints: vec![
            ColumnConstraint { name: None, constraint: ColumnConstraintKind::PrimaryKey },
            ColumnConstraint { name: Some(ident("nn")), constraint: ColumnConstraintKind::NotNull },
        ],
    };
    assert_eq!(id.to_string(), "id INTEGER PRIMARY KEY CONSTRAINT nn NOT NULL");
    let name = ColumnDef { name: ident("name"), column_type: DataType::Varchar(Some(64)), constraints: vec![] };
    assert_eq!(name.to_string(), "name VARCHAR(64)");
    let stmt = CreateTableStatement { name: ident("users"), columns: vec![id, name] };
    let expected = "CREATE TABLE users (id INTEGER PRIMARY KEY CONSTRAINT nn NOT NULL, name VARCHAR(64));";
    assert_eq!(stmt.to_string(), expected);
    let empty = CreateTableStatement { name: ident("t"), columns: vec![] };
    assert_eq!(empty.to_string(), "CREATE TABLE t ();");
    let statement = Statement::CreateTable(CreateTableStatement { name: ident("t"), columns: vec![] });
    assert_eq!(statement.to_string(), "CREATE TABLE t ();");
}

#[test]
fn operators_and_literals() {
    assert_eq!(BinaryOp::NotEq.to_string(), "!=");
    assert_eq!(BinaryOp::And.to_string(), "AND");
    assert_eq!(BinaryOp::Mod.to_string(), "%");
    assert_eq!(UnaryOp::Minus.to_string(), "-");
    assert_eq!(JoinOp::CrossJoin.to_string(), "CROSS JOIN");
    assert_eq!(Literal::String("abc".to_string()).to_string(), "'abc'");
    assert_eq!(Literal::UnsignedInteger(0).to_string(), "0");
    assert_eq!(Literal::UnsignedInteger(1234567890).to_string(), "1234567890");
    assert_eq!(ident("col").to_string(), "col");
}

#[test]
fn expressions_print_with_brackets() {
    let e = Expr::BinaryOp {
        left: Box::new(Expr::UnaryOp { op: UnaryOp::Minus, expr: Box::new(Expr::Literal(Literal::UnsignedInteger(5))) }),
        op: BinaryOp::Mul,
        right: Box::new(Expr::ColumnRef { database: Some(ident("d")), table: Some(ident("t")), column: ident("c") }),
    };
    assert_eq!(e.to_string(), "(-5 * d.t.c)");
}

#[test]
fn copies_print_the_same() {
    let q = sqlparser_nom::parse_query(
        "with r as (select a from t) select count(distinct a) over w, b as c, * exclude (d) from r join s on r.a = s.a \
         where a in (1, 2) group by b having b > 1 window w as (partition by a order by b desc) order by a limit 3",
    )
    .unwrap();
    let copy = q.clone();
    assert_eq!(copy.to_string(), q.to_string());
    let e = Expr::Literal(Literal::String("x".to_string()));
    assert_eq!(e.clone().to_string(), "'x'");
}
