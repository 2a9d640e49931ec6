use sqlparser_nom::parser::common::{comma_separated_list0, comma_separated_list1, ident};
use sqlparser_nom::parser::set_expr::{select_item, select_set_expr};
use sqlparser_nom::parser::tokenize_sql;

#[test]
pub fn test_select_item_list() {
    let tokens = tokenize_sql("*, t1.a, c as d, count(e)");
    let result = comma_separated_list1(&tokens, select_item);
    println!("result: {:?}", result);
    assert!(result.is_ok());
    assert_eq!(
        format!(
            "{}",
            result
                .unwrap()
                .1
                .iter()
                .map(|o| o.to_string())
                .collect::<Vec<_>>()
                .join(", ")
        ),
        "*, t1.a, c AS d, count(e)"
    );
}

#[test]
pub fn test_select_set_expr() {
    let tokens = tokenize_sql("select *, t1.a, c as d from t1");
    let items = select_set_expr(&tokens);
    assert!(items.is_ok());
    assert_eq!(
        format!("{}", items.unwrap().1.to_string()),
        "SELECT *, t1.a, c AS d FROM t1"
    );
}

#[test]
fn comma_lists_of_identifiers() {
    let tokens = tokenize_sql("a, b, c d");
    let (rest, v) = comma_separated_list1(&tokens, ident).unwrap();
    assert_eq!(v.iter().map(|i| i.value.clone()).collect::<Vec<_>>(), vec!["a", "b", "c"]);
    assert_eq!(rest.len(), 1);

    let tokens = tokenize_sql("a, b, select");
    let (rest, v) = comma_separated_list1(&tokens, ident).unwrap();
    assert_eq!(v.len(), 2);
    assert_eq!(rest.len(), 2);
    assert_eq!(rest[0].text(), ",");

    let tokens = tokenize_sql("select, a");
    let err = comma_separated_list1(&tokens, ident).unwrap_err();
    assert_eq!(err.0, "ident should not be a keyword");

    let (rest, v) = comma_separated_list0(&tokens, ident).unwrap();
    assert!(v.is_empty());
    assert_eq!(rest.len(), 3);

    let tokens = tokenize_sql("x,y");
    let (rest, v) = comma_separated_list0(&tokens, ident).unwrap();
    assert_eq!(v.len(), 2);
    assert!(rest.is_empty());
}
