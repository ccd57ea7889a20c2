//! Pattern cleaning, the traversal defense, glob-pattern expansion and
//! glob-result validation.

use index_query::resolve::{
    accept_result_path, adjusted_glob_pattern, clean_pattern_token, is_unsafe_pattern,
    sanitized_glob_pattern,
};

#[test]
fn clean_pattern_strips_quotes_commas_and_parens() {
    assert_eq!(clean_pattern_token("\"logs/app\""), "logs/app");
    assert_eq!(clean_pattern_token("logs/app,"), "logs/app");
    assert_eq!(clean_pattern_token("(logs/app)"), "logs/app");
    assert_eq!(clean_pattern_token("\"\"x\"\""), "x");
    // Quotes are stripped before commas: a comma outside the quotes shields them.
    assert_eq!(clean_pattern_token("\"x\","), "x\"");
    assert_eq!(clean_pattern_token("plain"), "plain");
}

#[test]
fn traversal_patterns_are_rejected() {
    assert!(is_unsafe_pattern("../../etc"));
    assert!(is_unsafe_pattern("/etc/passwd"));
    assert!(is_unsafe_pattern("a\\b"));
    assert!(is_unsafe_pattern("logs/../secret"));
}

#[test]
fn ordinary_patterns_are_accepted() {
    assert!(!is_unsafe_pattern("logs/app"));
    assert!(!is_unsafe_pattern("a.b"));
    assert!(!is_unsafe_pattern(""));
}

#[test]
fn pattern_ending_in_slash_star_matches_one_level_down() {
    assert_eq!(
        adjusted_glob_pattern("/data/indexes", "logs/app/*", false, false),
        "/data/indexes/logs/app/*/*.parquet"
    );
}

#[test]
fn directory_pattern_searches_recursively() {
    assert_eq!(
        adjusted_glob_pattern("/data/indexes", "logs/app", true, false),
        "/data/indexes/logs/app/**/*.parquet"
    );
    assert_eq!(
        adjusted_glob_pattern("/data/indexes", "logs/app/", false, false),
        "/data/indexes/logs/app/**/*.parquet"
    );
}

#[test]
fn existing_file_pattern_is_used_verbatim() {
    assert_eq!(
        adjusted_glob_pattern("/data/indexes", "logs/app/one.parquet", false, true),
        "/data/indexes/logs/app/one.parquet"
    );
}

#[test]
fn unknown_pattern_searches_recursively() {
    assert_eq!(
        adjusted_glob_pattern("/data/indexes", "logs/app", false, false),
        "/data/indexes/logs/app/**/*.parquet"
    );
}

#[test]
fn result_path_outside_root_is_skipped() {
    assert!(!accept_result_path("/elsewhere/a.parquet", "/data/indexes", true));
    // A shared name prefix without a separator is not nesting.
    assert!(!accept_result_path("/data/indexes2/a.parquet", "/data/indexes", true));
}

#[test]
fn result_path_without_extension_is_skipped() {
    assert!(!accept_result_path("/data/indexes/a.csv", "/data/indexes", true));
    assert!(!accept_result_path("/data/indexes/parquet", "/data/indexes", true));
    // A bare `.parquet` file name has no stem, hence no extension.
    assert!(!accept_result_path("/data/indexes/.parquet", "/data/indexes", true));
}

#[test]
fn non_file_result_is_skipped() {
    assert!(!accept_result_path("/data/indexes/a.parquet", "/data/indexes", false));
}

#[test]
fn nested_data_file_is_accepted() {
    assert!(accept_result_path("/data/indexes/logs/app/a.parquet", "/data/indexes", true));
    assert!(accept_result_path("/data/indexes/b.parquet", "/data/indexes", true));
}

#[test]
fn unsafe_pattern_yields_no_glob_pattern() {
    assert!(sanitized_glob_pattern("/data/indexes", "../../etc", false, false).is_none());
    assert_eq!(
        sanitized_glob_pattern("/data/indexes", "logs", false, false).unwrap(),
        "/data/indexes/logs/**/*.parquet"
    );
}

#[test]
fn root_with_trailing_separator_is_not_doubled() {
    assert_eq!(
        adjusted_glob_pattern("/data/indexes/", "logs", false, false),
        "/data/indexes/logs/**/*.parquet"
    );
}
