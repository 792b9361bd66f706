use studio_project_manager::search::{join_strings, MatchReason, SearchQuery};

#[test]
fn operators_and_text() {
    let q = SearchQuery::parse("bpm:128 plugin:serum");
    assert_eq!(q.bpm.as_deref(), Some("128"));
    assert_eq!(q.plugin.as_deref(), Some("serum"));
    assert_eq!(q.text, "");
    assert_eq!(q.name, None);
}

#[test]
fn every_operator() {
    let q = SearchQuery::parse("path:/a name:b version:11 key:Cmaj bpm:90 ts:4/4 ed:3m plugin:p sample:s tag:t");
    assert_eq!(q.path.as_deref(), Some("/a"));
    assert_eq!(q.name.as_deref(), Some("b"));
    assert_eq!(q.version.as_deref(), Some("11"));
    assert_eq!(q.key.as_deref(), Some("Cmaj"));
    assert_eq!(q.bpm.as_deref(), Some("90"));
    assert_eq!(q.time_signature.as_deref(), Some("4/4"));
    assert_eq!(q.estimated_duration.as_deref(), Some("3m"));
    assert_eq!(q.plugin.as_deref(), Some("p"));
    assert_eq!(q.sample.as_deref(), Some("s"));
    assert_eq!(q.tag.as_deref(), Some("t"));
    assert_eq!(q.text, "");
}

#[test]
fn date_values_may_hold_spaces() {
    let q = SearchQuery::parse("hello dc:2024-01-01 12:30 world dm:2023");
    assert_eq!(q.date_created.as_deref(), Some("2024-01-01 12:30"));
    assert_eq!(q.date_modified.as_deref(), Some("2023"));
    assert_eq!(q.text, "hello world");
}

#[test]
fn unknown_operator_is_text() {
    let q = SearchQuery::parse("foo:bar baz");
    assert_eq!(q.text, "foo:bar baz");
}

#[test]
fn quotes_are_removed() {
    let q = SearchQuery::parse("name:\"demo\" tag:'live'");
    assert_eq!(q.name.as_deref(), Some("demo"));
    assert_eq!(q.tag.as_deref(), Some("live"));
    assert_eq!(SearchQuery::strip_quotes("  \"x y\"  "), "x y");
    assert_eq!(SearchQuery::strip_quotes("'a\""), "'a\"");
    assert_eq!(SearchQuery::strip_quotes("\"\""), "");
}

#[test]
fn later_operator_wins() {
    let q = SearchQuery::parse("bpm:120 bpm:128");
    assert_eq!(q.bpm.as_deref(), Some("128"));
}

#[test]
fn spaces_between_terms() {
    let q = SearchQuery::parse("a   b");
    assert_eq!(q.text, "a b");
    let q = SearchQuery::parse(" a");
    assert_eq!(q.text, " a");
    let q = SearchQuery::parse("");
    assert_eq!(q.text, "");
}

#[test]
fn date_operator_stops_at_other_characters() {
    let q = SearchQuery::parse("dc:abc");
    assert_eq!(q.date_created.as_deref(), Some(""));
    assert_eq!(q.text, "abc");
}

#[test]
fn lone_quote_value_is_refused() {
    assert!(SearchQuery::try_parse("name:\"").is_none());
    assert!(SearchQuery::try_parse("foo:' bar").is_none());
    assert!(SearchQuery::try_parse("name:ok").is_some());
}

#[test]
fn fts5_query() {
    let q = SearchQuery::parse("name:demo dc:2024 hello");
    let (sql, params) = q.build_fts5_query();
    assert!(sql.starts_with("SELECT project_id, rank"));
    assert!(sql.ends_with("ORDER BY rank"));
    assert_eq!(params, vec!["name : \"demo\" AND created_at : \"2024\" * AND \"hello\"".to_string()]);
    let (_, params) = SearchQuery::parse("").build_fts5_query();
    assert_eq!(params, vec![String::new()]);
}

#[test]
fn estimated_duration_is_not_searched() {
    let (_, params) = SearchQuery::parse("ed:5").build_fts5_query();
    assert_eq!(params, vec![String::new()]);
}

#[test]
fn joining() {
    let words = vec!["a".to_string(), "b".to_string(), "c".to_string()];
    assert_eq!(join_strings(&words, ", "), "a, b, c");
    assert_eq!(join_strings(&Vec::new(), ", "), "");
}

#[test]
fn readme_operators() {
    let q = SearchQuery::parse("plugin:serum bpm:128 key:Cmaj missing:true");
    assert_eq!(q.plugin.as_deref(), Some("serum"));
    assert_eq!(q.bpm.as_deref(), Some("128"));
    assert_eq!(q.key.as_deref(), Some("Cmaj"));
    assert_eq!(q.missing.as_deref(), Some("true"));
    assert!(q.missing_plugins_only());
    assert_eq!(q.text, "");
    assert!(!SearchQuery::parse("missing:false").missing_plugins_only());
    assert!(!SearchQuery::parse("plugin:x").missing_plugins_only());
}

#[test]
fn query_without_colon_is_text_only() {
    let q = SearchQuery::parse("deep house  demo");
    assert_eq!(q.text, "deep house demo");
    assert!(q.path.is_none() && q.name.is_none() && q.bpm.is_none() && q.tag.is_none());
    assert!(q.date_created.is_none() && q.date_modified.is_none());
}

#[test]
fn match_reasons_of_a_result() {
    let q = SearchQuery::parse("plugin:Serum bpm:128 dm:2024");
    let reasons = q.match_reasons("Xfer SERUM, Massive");
    assert_eq!(reasons.len(), 3);
    assert!(matches!(&reasons[0], MatchReason::Plugin(p) if p == "serum"));
    assert!(matches!(&reasons[1], MatchReason::Tempo(b) if b == "128"));
    assert!(matches!(&reasons[2], MatchReason::DateModified(d) if d == "2024"));
    let reasons = q.match_reasons("Massive");
    assert_eq!(reasons.len(), 2);
    assert!(matches!(&reasons[0], MatchReason::Tempo(_)));
}

#[test]
fn empty_search_detection() {
    assert!(SearchQuery::is_empty_search(&vec![]));
    assert!(SearchQuery::is_empty_search(&vec![String::new()]));
    assert!(!SearchQuery::is_empty_search(&vec!["x".to_string()]));
    let (_, params) = SearchQuery::parse("ed:1").build_fts5_query();
    assert!(SearchQuery::is_empty_search(&params));
}
