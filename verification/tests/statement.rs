use sqlparser_nom::parser::statement::select_stmt;
use sqlparser_nom::parser::tokenize_sql;

#[test]
pub fn test_select_stmt() {
    let tokens = tokenize_sql(
        "\
            select a, count(*) \
from (select * from t1) as t2 \
join t3 on t2.a = t3.a \
left join t4 on t3.b = t4.b \
where a > ((1 + 2) * 3) and b < c \
group by a, c \
having count(*) > 5\
order by a, b desc \
limit 1, 2",
    );
    let result = select_stmt(&tokens);
    println!("result: {:?}", result);
    assert!(result.is_ok());
    let result = result.unwrap();
    assert_eq!(result.0, vec![]);
    println!("select_stmt: {:#?}", result.1);
}

#[test]
pub fn test_named_windows() {
    let tokens = tokenize_sql(
        "\
            select count(*) over w from t window w as (partition by a order by b)",
    );
    let result = select_stmt(&tokens);
    println!("result: {:?}", result);
    assert!(result.is_ok());
    let result = result.unwrap();
    assert_eq!(result.0, vec![]);
    println!("select_stmt: {:?}", result.1);
}
