use sqlparser_nom::ast::{JoinOp, TableRef};
use sqlparser_nom::parse_query;
use sqlparser_nom::parser::common::{ident, match_text, match_token, AffixKind};
use sqlparser_nom::parser::error::PError;
use sqlparser_nom::parser::expr::{expr, precedence};
use sqlparser_nom::parser::grammar::{PrattOp, TablePrattOp};
use sqlparser_nom::parser::statement::select_stmt;
use sqlparser_nom::parser::table_ref::{precedence as table_precedence, table_ref};
use sqlparser_nom::parser::token::TokenKind;
use sqlparser_nom::parser::tokenize_sql;

#[test]
fn ident_rejects_keywords() {
    let tokens = tokenize_sql("select");
    let r = ident(&tokens);
    assert_eq!(r.unwrap_err().0, "ident should not be a keyword");
    let tokens = tokenize_sql("abc def");
    let (rest, id) = ident(&tokens).unwrap();
    assert_eq!(id.value, "abc");
    assert_eq!(rest.len(), 1);
}

#[test]
fn match_token_and_text() {
    let tokens = tokenize_sql("( x");
    let (rest, t) = match_token(&tokens, TokenKind::LParen).unwrap();
    assert_eq!(t.kind, TokenKind::LParen);
    assert_eq!(rest.len(), 1);
    assert_eq!(match_token(&tokens, TokenKind::RParen).unwrap_err().0, "token kind RParen does not match");
    let (rest, t) = match_text(&tokens, "(").unwrap();
    assert_eq!(t.span, 0..1);
    assert_eq!(rest.len(), 1);
    assert_eq!(match_text(&tokens, ",").unwrap_err().0, "text , does not match");
    let empty = tokenize_sql("");
    assert!(match_token(&empty, TokenKind::LParen).is_err());
}

#[test]
fn perror_from_message() {
    let r: Result<(&[sqlparser_nom::parser::token::Token], u8), PError> = PError::from("boom");
    assert_eq!(r.unwrap_err().0, "boom");
}

#[test]
fn query_errors() {
    let r = parse_query("select from");
    assert_eq!(r.unwrap_err().0, "First token can't be treated as prefix");
    let r = parse_query("");
    assert_eq!(r.unwrap_err().0, "token kind SELECT does not match");
    let tokens = tokenize_sql("from t");
    assert_eq!(select_stmt(&tokens).unwrap_err().0, "token kind SELECT does not match");
    let r = parse_query("select (1 + 2 from t");
    assert_eq!(r.unwrap_err().0, "Expect ')' token");
    let r = parse_query("with x as (select 1) select");
    assert_eq!(r.unwrap_err().0, "No token found");
}

#[test]
fn precedences() {
    assert_eq!(precedence(PrattOp::Plus, AffixKind::Prefix), Ok(300));
    assert_eq!(precedence(PrattOp::Multiply, AffixKind::Infix), Ok(12));
    assert_eq!(precedence(PrattOp::In, AffixKind::Infix), Ok(7));
    assert_eq!(precedence(PrattOp::Or, AffixKind::Infix), Ok(8));
    assert_eq!(
        precedence(PrattOp::And, AffixKind::Prefix),
        Err("pratt op And can't be treated as prefix".to_string())
    );
    assert_eq!(table_precedence(TablePrattOp::LParen, AffixKind::Prefix), Ok(0));
    assert_eq!(table_precedence(TablePrattOp::JoinOp(JoinOp::Inner), AffixKind::Infix), Ok(1));
    assert_eq!(
        table_precedence(TablePrattOp::RParen, AffixKind::Prefix),
        Err("pratt operator can't be treated as prefix".to_string())
    );
    assert_eq!(
        table_precedence(TablePrattOp::LParen, AffixKind::Infix),
        Err("pratt operator can't be treated as infix".to_string())
    );
}

#[test]
fn division_ends_an_expression() {
    let tokens = tokenize_sql("4/2");
    let (rest, e) = expr(&tokens).unwrap();
    assert_eq!(e.to_string(), "4");
    assert_eq!(rest.len(), 2);
    assert_eq!(rest[0].kind, TokenKind::Divide);
}

#[test]
fn right_outer_join_reads_as_left_outer() {
    let tokens = tokenize_sql("a right outer join b on 1");
    let (_, t) = table_ref(&tokens).unwrap();
    match t {
        TableRef::Join { op, .. } => assert_eq!(op, JoinOp::LeftOuter),
        _ => panic!("should be a join"),
    }
    let tokens = tokenize_sql("a right join b on 1");
    let (_, t) = table_ref(&tokens).unwrap();
    match t {
        TableRef::Join { op, .. } => assert_eq!(op, JoinOp::RightOuter),
        _ => panic!("should be a join"),
    }
}

#[test]
fn join_needs_on() {
    let tokens = tokenize_sql("a cross join b");
    assert!(table_ref(&tokens).is_err());
}

#[test]
fn trailing_comma_is_left_unread() {
    let tokens = tokenize_sql("select a, from t");
    let r = select_stmt(&tokens);
    assert!(r.is_ok());
    let (rest, s) = r.unwrap();
    assert_eq!(s.to_string(), "SELECT a");
    assert_eq!(rest[0].kind, TokenKind::Comma);
}

#[test]
fn limit_and_offset() {
    let r = parse_query("select a from t limit 1, 2").unwrap();
    assert_eq!(r.to_string(), "SELECT a FROM t LIMIT 1 OFFSET 2");
    let r = parse_query("select a from t limit 5 offset 7").unwrap();
    assert_eq!(r.to_string(), "SELECT a FROM t LIMIT 5 OFFSET 7");
}

#[test]
fn expression_error_texts() {
    let empty = tokenize_sql("");
    assert_eq!(expr(&empty).unwrap_err().0, "No token found");
    let tokens = tokenize_sql("(1 + 2");
    assert_eq!(expr(&tokens).unwrap_err().0, "Expect ')' token");
    let tokens = tokenize_sql(")");
    assert_eq!(expr(&tokens).unwrap_err().0, "First token can't be treated as prefix");
    let tokens = tokenize_sql("not a");
    assert_eq!(expr(&tokens).unwrap_err().0, "can not find prefix expr");
    let tokens = tokenize_sql("a in b");
    assert_eq!(expr(&tokens).unwrap_err().0, "Failed to parse InSubquery or InList");
    let tokens = tokenize_sql("1 + )");
    assert_eq!(expr(&tokens).unwrap_err().0, "First token can't be treated as prefix");
    let tokens = tokenize_sql("- ,");
    assert_eq!(expr(&tokens).unwrap_err().0, "First token can't be treated as prefix");
    let tokens = tokenize_sql("select");
    assert_eq!(expr(&tokens).unwrap_err().0, "can not parse select statement");
}

#[test]
fn table_error_texts() {
    let tokens = tokenize_sql("(a join b on a.x = b.x) as j");
    assert_eq!(table_ref(&tokens).unwrap_err().0, "Joined table should not have an alias");
    let tokens = tokenize_sql("(t1) as x");
    let (rest, t) = table_ref(&tokens).unwrap();
    assert!(rest.is_empty());
    assert_eq!(t.to_string(), "t1 AS x");
    let tokens = tokenize_sql("(t1");
    assert_eq!(table_ref(&tokens).unwrap_err().0, "Expect ')' token");
    let tokens = tokenize_sql("a join b");
    assert_eq!(table_ref(&tokens).unwrap_err().0, "failed to parse join condition");
    let tokens = tokenize_sql("a join");
    assert_eq!(table_ref(&tokens).unwrap_err().0, "No token found");
    let tokens = tokenize_sql("1");
    assert_eq!(table_ref(&tokens).unwrap_err().0, "First token can't be treated as prefix");
    let tokens = tokenize_sql("select");
    assert_eq!(table_ref(&tokens).unwrap_err().0, "can not find prefix subquery");
}

#[test]
fn quoted_identifiers() {
    let tokens = tokenize_sql("`my col`");
    let (rest, id) = ident(&tokens).unwrap();
    assert!(rest.is_empty());
    assert_eq!(id.value, "my col");
    let r = parse_query("select t.`a b` from t as `x`").unwrap();
    assert_eq!(r.to_string(), "SELECT t.a b FROM t AS x");
    let tokens = tokenize_sql("t.'q'");
    let (_, e) = expr(&tokens).unwrap();
    assert_eq!(e.to_string(), "t.q");
}

#[test]
fn literal_after_the_query_is_not_read() {
    let r = parse_query("select a from t limit 1 2").unwrap();
    assert_eq!(r.to_string(), "SELECT a FROM t LIMIT 1");
}

#[test]
fn unread_large_literals_are_allowed() {
    let r = parse_query("select a from t; 99999999999999999999").unwrap();
    assert_eq!(r.to_string(), "SELECT a FROM t");
    let tokens = tokenize_sql("5 ) 99999999999999999999");
    let (rest, e) = expr(&tokens).unwrap();
    assert_eq!(e.to_string(), "5");
    assert_eq!(rest.len(), 2);
    let tokens = tokenize_sql(") 99999999999999999999");
    assert_eq!(expr(&tokens).unwrap_err().0, "First token can't be treated as prefix");
}

#[test]
fn checked_query_parsing() {
    let r = sqlparser_nom::try_parse_query("select 1 from t").unwrap().unwrap();
    assert_eq!(r.to_string(), "SELECT 1 FROM t");
    assert!(sqlparser_nom::try_parse_query("select ? from t").is_none());
    assert!(sqlparser_nom::try_parse_query("select 99999999999999999999").is_none());
    assert_eq!(sqlparser_nom::try_parse_query("select").unwrap().unwrap_err().0, "No token found");
    assert!(sqlparser_nom::parser::lexes("a, b"));
    assert!(!sqlparser_nom::parser::lexes("a ? b"));
}
