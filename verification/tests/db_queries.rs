use doclib::db::{fts_query, kind_of_row, list_query, search_expression, tag_names};
use doclib::model::Kind;

#[test]
fn every_token_becomes_a_quoted_prefix_term() {
    assert_eq!(fts_query("computer program"), "\"computer\"* \"program\"*");
    assert_eq!(fts_query("  rust   -  "), "\"rust\"* \"-\"*");
}

#[test]
fn quotes_inside_a_token_are_doubled() {
    assert_eq!(fts_query("\"rust"), "\"\"\"rust\"*");
    assert_eq!(fts_query("a\"b"), "\"a\"\"b\"*");
}

#[test]
fn fts_metacharacters_stay_inside_quotes() {
    for query in ["rust -", "\"rust", "rust OR", "(rust", "rust*NEAR"] {
        let expr = fts_query(query);
        for term in expr.split(' ') {
            assert!(term.starts_with('"') && term.ends_with("\"*"), "{query:?} gave {expr:?}");
        }
    }
}

#[test]
fn a_blank_search_lists_everything() {
    assert_eq!(search_expression("  "), None);
    assert_eq!(search_expression("knuth"), Some("\"knuth\"*".to_string()));
}

#[test]
fn tag_names_are_trimmed_and_blank_ones_skipped() {
    let tags = vec![" theory ".to_string(), "".to_string(), "types".to_string(), "   ".to_string()];
    assert_eq!(tag_names(&tags), vec!["theory".to_string(), "types".to_string()]);
}

#[test]
fn the_listing_query_filters_only_what_is_given() {
    let (sql, args) = list_query(None, None);
    assert!(sql.ends_with("FROM documents d ORDER BY d.title COLLATE NOCASE"));
    assert!(args.is_empty());

    let (sql, args) = list_query(Some("rust"), Some(Kind::Article));
    assert!(sql.contains(" JOIN document_tags dt ON dt.document_id = d.id"));
    assert!(sql.contains(" WHERE t.name = ? AND d.kind = ?"));
    assert_eq!(args, vec!["rust".to_string(), "article".to_string()]);

    let (sql, args) = list_query(None, Some(Kind::Book));
    assert!(!sql.contains("JOIN"));
    assert!(sql.contains(" WHERE d.kind = ? ORDER BY"));
    assert_eq!(args, vec!["book".to_string()]);
}

#[test]
fn unknown_kinds_read_as_books() {
    assert_eq!(kind_of_row("article"), Kind::Article);
    assert_eq!(kind_of_row("book"), Kind::Book);
    assert_eq!(kind_of_row("pamphlet"), Kind::Book);
}
