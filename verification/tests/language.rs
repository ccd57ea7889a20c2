//! Lexer, parser, translator and column-collector behavior on concrete
//! queries.

use index_query::ast::AstNode;
use index_query::columns::get_required_columns;
use index_query::parser::{ParseError, Parser};
use index_query::token::{tokenize, Token};
use index_query::translate::{ast_to_query, TranslateError};

fn toks(raw: &[&str]) -> Vec<String> {
    raw.iter().map(|s| s.to_string()).collect()
}

fn parse(raw: &[&str]) -> Result<AstNode, ParseError> {
    let mut parser = Parser::new(tokenize(&toks(raw)));
    parser.parse_expression()
}

fn ident(s: &str) -> AstNode {
    AstNode::Identifier(s.to_string())
}

fn lit(s: &str) -> AstNode {
    AstNode::Literal(s.to_string())
}

fn cmp(l: AstNode, op: &str, r: AstNode) -> AstNode {
    AstNode::Comparison { left: Box::new(l), operator: op.to_string(), right: Box::new(r) }
}

fn logical(op: &str, l: AstNode, r: AstNode) -> AstNode {
    AstNode::LogicalOp { operator: op.to_string(), left: Box::new(l), right: Box::new(r) }
}

#[test]
fn tokenize_classifies_each_kind() {
    let out = tokenize(&toks(&["(", ")", "<=", ",", "\"web1\"", "123", "host"]));
    assert_eq!(out.len(), 7);
    assert!(matches!(&out[0], Token::Parenthesis(p) if p == "("));
    assert!(matches!(&out[1], Token::Parenthesis(p) if p == ")"));
    assert!(matches!(&out[2], Token::Operator(o) if o == "<="));
    assert!(matches!(&out[3], Token::Comma));
    assert!(matches!(&out[4], Token::StringLiteral(s) if s == "web1"));
    assert!(matches!(&out[5], Token::NumberLiteral(n) if n == "123"));
    assert!(matches!(&out[6], Token::Identifier(i) if i == "host"));
}

#[test]
fn tokenize_keywords_case_insensitive_uppercased() {
    let out = tokenize(&toks(&["and", "Or", "iN", "AND"]));
    assert!(matches!(&out[0], Token::Operator(o) if o == "AND"));
    assert!(matches!(&out[1], Token::Operator(o) if o == "OR"));
    assert!(matches!(&out[2], Token::Operator(o) if o == "IN"));
    assert!(matches!(&out[3], Token::Operator(o) if o == "AND"));
}

#[test]
fn tokenize_keeps_every_token() {
    let input = toks(&["a", "=", "1", "nonsense", "##", ""]);
    let out = tokenize(&input);
    assert_eq!(out.len(), input.len());
    // An empty raw token has only digit characters, vacuously.
    assert!(matches!(&out[5], Token::NumberLiteral(n) if n.is_empty()));
    assert!(matches!(&out[4], Token::Identifier(i) if i == "##"));
}

#[test]
fn tokenize_strips_all_surrounding_quotes() {
    let out = tokenize(&toks(&["\"\"abc\"\"", "\""]));
    assert!(matches!(&out[0], Token::StringLiteral(s) if s == "abc"));
    assert!(matches!(&out[1], Token::StringLiteral(s) if s.is_empty()));
}

#[test]
fn parse_simple_comparison() {
    let ast = parse(&["host", "=", "\"web1\""]).unwrap();
    assert_eq!(ast, cmp(ident("host"), "=", lit("'web1'")));
}

#[test]
fn parse_number_right_operand_passes_raw() {
    let ast = parse(&["status", ">", "500"]).unwrap();
    assert_eq!(ast, cmp(ident("status"), ">", lit("500")));
}

#[test]
fn implicit_and_equals_explicit_and() {
    let implicit = parse(&["a", "=", "1", "b", "=", "2"]).unwrap();
    let explicit = parse(&["a", "=", "1", "AND", "b", "=", "2"]).unwrap();
    assert_eq!(implicit, explicit);
    assert_eq!(
        implicit,
        logical("and", cmp(ident("a"), "=", lit("1")), cmp(ident("b"), "=", lit("2")))
    );
}

#[test]
fn and_binds_tighter_than_or() {
    let ast = parse(&["a", "=", "1", "OR", "b", "=", "2", "AND", "c", "=", "3"]).unwrap();
    assert_eq!(
        ast,
        logical(
            "or",
            cmp(ident("a"), "=", lit("1")),
            logical("and", cmp(ident("b"), "=", lit("2")), cmp(ident("c"), "=", lit("3"))),
        )
    );
}

#[test]
fn or_is_left_associative() {
    let ast = parse(&["a", "=", "1", "OR", "b", "=", "2", "OR", "c", "=", "3"]).unwrap();
    assert_eq!(
        ast,
        logical(
            "or",
            logical("or", cmp(ident("a"), "=", lit("1")), cmp(ident("b"), "=", lit("2"))),
            cmp(ident("c"), "=", lit("3")),
        )
    );
}

#[test]
fn parentheses_override_precedence() {
    let ast = parse(&["(", "a", "=", "1", "OR", "b", "=", "2", ")", "AND", "c", "=", "3"]).unwrap();
    assert_eq!(
        ast,
        logical(
            "and",
            logical("or", cmp(ident("a"), "=", lit("1")), cmp(ident("b"), "=", lit("2"))),
            cmp(ident("c"), "=", lit("3")),
        )
    );
}

#[test]
fn parse_in_clause_quotes_strings_and_keeps_numbers() {
    let ast = parse(&["host", "IN", "(", "\"a\"", ",", "7", ")"]).unwrap();
    assert_eq!(
        ast,
        AstNode::InClause {
            identifier: "host".to_string(),
            values: vec!["'a'".to_string(), "7".to_string()],
        }
    );
}

#[test]
fn parse_error_missing_close_paren() {
    let e = parse(&["(", "a", "=", "1"]).unwrap_err();
    assert_eq!(e, ParseError::ExpectedCloseParen);
}

#[test]
fn parse_error_in_without_open_paren() {
    let e = parse(&["x", "IN", "5"]).unwrap_err();
    assert_eq!(e, ParseError::ExpectedOpenAfterIn);
}

#[test]
fn parse_error_in_after_literal() {
    let e = parse(&["5", "IN", "(", "1", ")"]).unwrap_err();
    assert_eq!(e, ParseError::ExpectedIdentifierBeforeIn);
}

#[test]
fn parse_error_unexpected_token_in_in_list() {
    let e = parse(&["x", "IN", "(", "y", ")"]).unwrap_err();
    assert!(matches!(e, ParseError::UnexpectedTokenInInClause(Token::Identifier(i)) if i == "y"));
}

#[test]
fn parse_error_unterminated_in_list() {
    let e = parse(&["x", "IN", "(", "1"]).unwrap_err();
    assert_eq!(e, ParseError::UnexpectedEndInInClause);
}

#[test]
fn parse_error_invalid_identifier() {
    let e = parse(&["foo-bar", "=", "1"]).unwrap_err();
    assert!(matches!(e, ParseError::InvalidIdentifier(s) if s == "foo-bar"));
}

#[test]
fn parse_error_operator_as_operand() {
    let e = parse(&["=", "1"]).unwrap_err();
    assert!(matches!(e, ParseError::UnexpectedToken(Token::Operator(o)) if o == "="));
}

#[test]
fn parse_error_empty_input() {
    let e = parse(&[]).unwrap_err();
    assert_eq!(e, ParseError::UnexpectedEndOfInput);
}

#[test]
fn identifier_with_underscore_and_digits_is_valid() {
    let ast = parse(&["_col9", "!=", "3"]).unwrap();
    assert_eq!(ast, cmp(ident("_col9"), "!=", lit("3")));
}

#[test]
fn translate_equality_renders_double_equals() {
    let ast = cmp(ident("host"), "=", lit("'web1'"));
    assert_eq!(ast_to_query(&ast, "timestamp").unwrap(), "(host == 'web1')");
}

#[test]
fn translate_timestamp_lower_bound() {
    let ast = cmp(ident("earliest"), ">=", lit("100"));
    assert_eq!(ast_to_query(&ast, "ts").unwrap(), "(ts >= 100)");
}

#[test]
fn translate_timestamp_upper_bound_ignores_declared_operator() {
    let ast = cmp(ident("latest"), "=", lit("200"));
    assert_eq!(ast_to_query(&ast, "ts").unwrap(), "(ts <= 200)");
}

#[test]
fn translate_logical_and_in_clause() {
    let in_clause = AstNode::InClause {
        identifier: "host".to_string(),
        values: vec!["'a'".to_string(), "'b'".to_string()],
    };
    let ast = logical("and", cmp(ident("status"), "<", lit("400")), in_clause);
    assert_eq!(
        ast_to_query(&ast, "timestamp").unwrap(),
        "((status < 400) and (host in ['a', 'b']))"
    );
}

#[test]
fn translate_escapes_single_quotes_in_string_literal() {
    let ast = parse(&["msg", "=", "\"it's\""]).unwrap();
    assert_eq!(ast_to_query(&ast, "timestamp").unwrap(), "(msg == 'it\\'s')");
}

#[test]
fn translate_unknown_operator_fails() {
    let ast = cmp(ident("a"), "LIKE", lit("1"));
    let e = ast_to_query(&ast, "timestamp").unwrap_err();
    assert!(matches!(e, TranslateError::UnknownOperator(op) if op == "LIKE"));
}

#[test]
fn translate_invalid_identifier_fails() {
    let ast = cmp(AstNode::Identifier("9bad".to_string()), "=", lit("1"));
    let e = ast_to_query(&ast, "timestamp").unwrap_err();
    assert!(matches!(e, TranslateError::InvalidIdentifier(s) if s == "9bad"));
}

#[test]
fn collector_gathers_left_identifiers_in_order_without_duplicates() {
    let ast = parse(&["a", "=", "1", "b", "=", "2", "OR", "a", "<", "3"]).unwrap();
    let cols = get_required_columns(&Some(ast));
    assert_eq!(cols, vec!["a".to_string(), "b".to_string()]);
}

#[test]
fn collector_rewrites_timestamp_bounds() {
    let ast = cmp(ident("earliest"), ">=", lit("100"));
    let cols = get_required_columns(&Some(ast));
    assert_eq!(cols, vec!["timestamp".to_string()]);
}

#[test]
fn collector_includes_in_clause_identifier() {
    let ast = parse(&["x", "IN", "(", "1", ")", "AND", "y", ">", "2"]).unwrap();
    let cols = get_required_columns(&Some(ast));
    assert_eq!(cols, vec!["x".to_string(), "y".to_string()]);
}

#[test]
fn collector_without_ast_returns_no_columns() {
    let cols = get_required_columns(&None);
    assert!(cols.is_empty());
}

#[test]
fn collector_ignores_literal_left_operands() {
    let ast = cmp(lit("1"), "=", ident("a"));
    let cols = get_required_columns(&Some(ast));
    assert!(cols.is_empty());
}
