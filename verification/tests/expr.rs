use sqlparser_nom::ast::{Expr, Ident};
use sqlparser_nom::parser::expr::{column_ref_expr, expr, function_expr};
use sqlparser_nom::parser::tokenize_sql;

#[test]
pub fn test_expr() {
    let tokens = tokenize_sql("1*(2-3)+4/2 + t1.a");
    let result = expr(&tokens).unwrap();
    println!("expr: {}", result.1.to_string());

    let tokens = tokenize_sql("t1.a != 1 or t1.b > 2 and c = 3");
    let result = expr(&tokens).unwrap();
    println!("expr: {}", result.1.to_string());

    let tokens = tokenize_sql("t1.a in (select 1)");
    let result = expr(&tokens).unwrap();
    println!("expr: {}", result.1.to_string());

    let tokens = tokenize_sql("t1.a in (1, 2, 3)");
    let result = expr(&tokens).unwrap();
    println!("expr: {}", result.1.to_string());
}

#[test]
pub fn test_in_subquery() {
    let tokens = tokenize_sql("t1.a in (select 1)");
    let result = expr(&tokens).unwrap();
    assert_eq!(result.0.len(), 0);
    assert_eq!(format!("{}", result.1.to_string()), "t1.a IN (SELECT 1)");
}

#[test]
pub fn test_in_list() {
    let tokens = tokenize_sql("t1.a in (1, 2, 3)");
    let result = expr(&tokens).unwrap();
    assert_eq!(result.0.len(), 0);
    assert_eq!(format!("{}", result.1.to_string()), "t1.a IN (1, 2, 3)");
}

#[test]
pub fn test_column_ref() {
    let tokens = tokenize_sql("t1.b");
    let column_ref = column_ref_expr(&tokens);
    println!("{:?}", column_ref);
    assert!(column_ref.is_ok());
    let column_ref = column_ref.unwrap();
    assert_eq!(column_ref.0, vec![]);
    match column_ref.1 {
        Expr::ColumnRef {
            database,
            table,
            column,
        } => {
            assert_eq!(database, None);
            assert_eq!(
                table,
                Some(Ident {
                    value: "t1".to_string()
                })
            );
            assert_eq!(
                column,
                Ident {
                    value: "b".to_string()
                }
            );
        }
        _ => panic!("should be column ref"),
    }
}

#[test]
pub fn expr_test_column_ref() {
    let tokens = tokenize_sql("t1.b");
    let column_ref = column_ref_expr(&tokens);
    println!("{:?}", column_ref);
    assert!(column_ref.is_ok());
    let column_ref = column_ref.unwrap();
    assert_eq!(column_ref.0, vec![]);
    match column_ref.1 {
        Expr::ColumnRef {
            database,
            table,
            column,
        } => {
            assert_eq!(database, None);
            assert_eq!(
                table,
                Some(Ident {
                    value: "t1".to_string()
                })
            );
            assert_eq!(
                column,
                Ident {
                    value: "b".to_string()
                }
            );
        }
        _ => panic!("should be column ref"),
    }
}

#[test]
pub fn test_function() {
    let tokens = tokenize_sql("count(distinct a) over (partition by a order by b)");
    let result = function_expr(&tokens);
    println!("{:?}", result);
    assert!(result.is_ok());
    let result = result.unwrap();
    assert!(result.0.is_empty());
    assert!(matches!(result.1, Expr::Function { .. }));
    println!("{}", result.1.to_string());
}
