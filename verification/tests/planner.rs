//! End-to-end planning: pattern extraction, filter parsing, translation,
//! column collection and the merge decision.

use index_query::ast::AstNode;
use index_query::plan::{build_plan, merge_action, split_index_tokens, MergeAction};

fn toks(raw: &[&str]) -> Vec<String> {
    raw.iter().map(|s| s.to_string()).collect()
}

#[test]
fn full_query_plan() {
    let tokens = toks(&[
        "index", "=", "logs/app", "host", "=", "\"web1\"", "AND", "status", ">", "500",
    ]);
    let plan = build_plan(&tokens);
    assert_eq!(plan.patterns, vec!["logs/app".to_string()]);
    assert_eq!(
        plan.filter_expression.as_deref(),
        Some("((host == 'web1') and (status > 500))")
    );
    assert_eq!(plan.required_columns, vec!["host".to_string(), "status".to_string()]);
    let expected_ast = AstNode::LogicalOp {
        operator: "and".to_string(),
        left: Box::new(AstNode::Comparison {
            left: Box::new(AstNode::Identifier("host".to_string())),
            operator: "=".to_string(),
            right: Box::new(AstNode::Literal("'web1'".to_string())),
        }),
        right: Box::new(AstNode::Comparison {
            left: Box::new(AstNode::Identifier("status".to_string())),
            operator: ">".to_string(),
            right: Box::new(AstNode::Literal("500".to_string())),
        }),
    };
    assert_eq!(plan.ast, Some(expected_ast));
}

#[test]
fn malformed_filter_degrades_to_no_filter() {
    let tokens = toks(&["index", "=", "logs/app", "(", "(", "status", ">", "1"]);
    let plan = build_plan(&tokens);
    assert_eq!(plan.patterns, vec!["logs/app".to_string()]);
    assert!(plan.ast.is_none());
    assert!(plan.filter_expression.is_none());
    assert!(plan.required_columns.is_empty());
}

#[test]
fn multiple_index_patterns_union_in_order() {
    let tokens = toks(&["index", "=", "a", "index", "=", "b,", "x", "=", "1"]);
    let plan = build_plan(&tokens);
    assert_eq!(plan.patterns, vec!["a".to_string(), "b".to_string()]);
    assert_eq!(plan.filter_expression.as_deref(), Some("(x == 1)"));
}

#[test]
fn bare_index_token_stays_in_filter_stream() {
    let (patterns, filters) = split_index_tokens(&toks(&["index", "x", "=", "1"]));
    assert!(patterns.is_empty());
    assert_eq!(filters, toks(&["index", "x", "=", "1"]));
}

#[test]
fn index_triple_at_end_of_stream_is_extracted() {
    let (patterns, filters) = split_index_tokens(&toks(&["x", "=", "1", "index", "=", "logs"]));
    assert_eq!(patterns, vec!["logs".to_string()]);
    assert_eq!(filters, toks(&["x", "=", "1"]));
}

#[test]
fn incomplete_index_clause_passes_pieces_through() {
    let (patterns, filters) = split_index_tokens(&toks(&["index", "="]));
    assert!(patterns.is_empty());
    assert_eq!(filters, toks(&["index", "="]));
}

#[test]
fn pattern_token_is_unwrapped() {
    let (patterns, _) = split_index_tokens(&toks(&["index", "=", "\"logs/app\""]));
    assert_eq!(patterns, vec!["logs/app".to_string()]);
}

#[test]
fn query_without_filter_loads_all_columns() {
    let plan = build_plan(&toks(&["index", "=", "logs"]));
    assert_eq!(plan.patterns, vec!["logs".to_string()]);
    assert!(plan.ast.is_none());
    assert!(plan.filter_expression.is_none());
    assert!(plan.required_columns.is_empty());
}

#[test]
fn timestamp_bounds_in_a_full_plan() {
    let plan = build_plan(&toks(&["index", "=", "logs", "earliest", ">=", "100"]));
    assert_eq!(plan.filter_expression.as_deref(), Some("(timestamp >= 100)"));
    assert_eq!(plan.required_columns, vec!["timestamp".to_string()]);
}

#[test]
fn merge_decision_by_file_count() {
    assert_eq!(merge_action(0), MergeAction::EmptyResult);
    assert_eq!(merge_action(1), MergeAction::SingleFile);
    assert_eq!(merge_action(2), MergeAction::ConcatAll);
    assert_eq!(merge_action(17), MergeAction::ConcatAll);
}

#[test]
fn parenthesized_filter_through_full_plan() {
    let plan = build_plan(&toks(&[
        "index", "=", "logs", "(", "a", "=", "1", "OR", "b", "=", "2", ")", "c", "=", "3",
    ]));
    assert_eq!(
        plan.filter_expression.as_deref(),
        Some("(((a == 1) or (b == 2)) and (c == 3))")
    );
    assert_eq!(
        plan.required_columns,
        vec!["a".to_string(), "b".to_string(), "c".to_string()]
    );
}

#[test]
fn lowercase_keywords_through_full_plan() {
    let plan = build_plan(&toks(&["index", "=", "logs", "a", "=", "1", "or", "b", "in", "(", "2", ")"]));
    assert_eq!(plan.filter_expression.as_deref(), Some("((a == 1) or (b in [2]))"));
}

#[test]
fn query_without_patterns_still_plans_filter() {
    let plan = build_plan(&toks(&["a", "=", "1"]));
    assert!(plan.patterns.is_empty());
    assert_eq!(plan.filter_expression.as_deref(), Some("(a == 1)"));
}
