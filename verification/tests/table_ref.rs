use sqlparser_nom::parser::table_ref::table_ref;
use sqlparser_nom::parser::tokenize_sql;

#[test]
pub fn test_table_ref() {
    let tokens = tokenize_sql("\
        (select * from t1) as t join t2 on t.a = t2.a left join (t3 right join t4 on t3.c = t4.c) on t2.b = t3.b\
        ");
    let result = table_ref(&tokens);
    println!("{:?}", result);
    assert!(result.is_ok());
    assert_eq!(
        format!("{}", result.unwrap().1.to_string()),
        "(((SELECT * FROM t1) AS t INNER JOIN t2 ON (t.a = t2.a)) LEFT OUTER JOIN (t3 RIGHT OUTER JOIN t4 ON (t3.c = t4.c)) ON (t2.b = t3.b))"
    );
}
