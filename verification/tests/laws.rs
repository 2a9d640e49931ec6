use sqlparser_nom::parse_query;
use sqlparser_nom::parser::expr::expr;
use sqlparser_nom::parser::table_ref::table_ref;
use sqlparser_nom::parser::token::{Token, TokenKind, Tokenizer};
use sqlparser_nom::parser::tokenize_sql;

fn kinds_and_spans(tokens: &[Token]) -> Vec<(TokenKind, usize, usize)> {
    tokens.iter().map(|t| (t.kind, t.span.start, t.span.end)).collect()
}

#[test]
fn upper_case_text_has_the_same_tokens() {
    let sql = "select a, t1.b from t1 left outer join t2 on t1.x = t2.y where a in (1, 2) order by b desc limit 3";
    let upper = sql.to_ascii_uppercase();
    let lower_tokens = tokenize_sql(sql);
    let upper_tokens = tokenize_sql(&upper);
    assert_eq!(kinds_and_spans(&lower_tokens), kinds_and_spans(&upper_tokens));
    assert_eq!(lower_tokens[0].kind, TokenKind::SELECT);
    assert_eq!(upper_tokens[1].kind, TokenKind::Ident);
}

#[test]
fn mixed_case_keywords_are_keywords() {
    let tokens = tokenize_sql("SeLeCt x FrOm y");
    assert_eq!(tokens[0].kind, TokenKind::SELECT);
    assert_eq!(tokens[2].kind, TokenKind::FROM);
    assert_eq!(tokens[3].text(), "y");
}

#[test]
fn tokens_come_in_source_order() {
    let sql = "select  a , /* note */ b -- tail\n from t";
    let tokens = tokenize_sql(sql);
    assert_eq!(tokens.len(), 6);
    for t in &tokens {
        assert!(t.span.start < t.span.end);
        assert!(t.span.end <= sql.len());
    }
    for w in tokens.windows(2) {
        assert!(w[0].span.end <= w[1].span.start);
    }
    let texts: Vec<&str> = tokens.iter().map(|t| t.text()).collect();
    assert_eq!(texts, vec!["select", "a", ",", "b", "from", "t"]);
}

#[test]
fn tokenizer_ends_with_none() {
    let mut tokenizer = Tokenizer::new("a  ");
    assert!(tokenizer.next_token().is_some());
    assert!(tokenizer.next_token().is_none());
    assert!(tokenizer.next_token().is_none());
}

#[test]
fn stronger_operator_takes_middle_operand() {
    let tokens = tokenize_sql("1 + 2 * 3");
    let (rest, e) = expr(&tokens).unwrap();
    assert!(rest.is_empty());
    assert_eq!(e.to_string(), "(1 + (2 * 3))");

    let tokens = tokenize_sql("1 or 2 and 3");
    let (rest, e) = expr(&tokens).unwrap();
    assert!(rest.is_empty());
    assert_eq!(e.to_string(), "(1 OR (2 AND 3))");
}

#[test]
fn equal_binding_groups_left() {
    let tokens = tokenize_sql("1 - 2 - 3");
    let (rest, e) = expr(&tokens).unwrap();
    assert!(rest.is_empty());
    assert_eq!(e.to_string(), "((1 - 2) - 3)");

    let tokens = tokenize_sql("1 * 2 + 3");
    let (_, e) = expr(&tokens).unwrap();
    assert_eq!(e.to_string(), "((1 * 2) + 3)");

    let tokens = tokenize_sql("1 = 2 != 3");
    let (_, e) = expr(&tokens).unwrap();
    assert_eq!(e.to_string(), "((1 = 2) != 3)");
}

#[test]
fn joins_group_left() {
    let tokens = tokenize_sql("a join b on 1 join c on 2");
    let (rest, t) = table_ref(&tokens).unwrap();
    assert!(rest.is_empty());
    assert_eq!(t.to_string(), "((a INNER JOIN b ON 1) INNER JOIN c ON 2)");
}

#[test]
fn unary_binds_tightest() {
    let tokens = tokenize_sql("-1 * 2");
    let (rest, e) = expr(&tokens).unwrap();
    assert!(rest.is_empty());
    assert_eq!(e.to_string(), "(-1 * 2)");

    let tokens = tokenize_sql("+3 or 4");
    let (_, e) = expr(&tokens).unwrap();
    assert_eq!(e.to_string(), "(+3 OR 4)");
}

#[test]
fn brackets_override_binding() {
    let tokens = tokenize_sql("(1 + 2) * 3");
    let (rest, e) = expr(&tokens).unwrap();
    assert!(rest.is_empty());
    assert_eq!(e.to_string(), "((1 + 2) * 3)");

    let tokens = tokenize_sql("(1 or 2) and 3");
    let (_, e) = expr(&tokens).unwrap();
    assert_eq!(e.to_string(), "((1 OR 2) AND 3)");
}

#[test]
fn keyword_case_gives_the_same_query() {
    let q = parse_query("select a from t where a > 10").unwrap();
    let q2 = parse_query("SeLeCt a FrOm t WhErE a > 10").unwrap();
    assert_eq!(q.to_string(), "SELECT a FROM t WHERE (a > 10)");
    assert_eq!(q2.to_string(), q.to_string());
    let e = parse_query("select from t").unwrap_err();
    let e2 = parse_query("SELECT FROM t").unwrap_err();
    assert_eq!(e.0, e2.0);
}
