use usestakly::refresh_limits::{repo_limit_exceeded, user_limit_exceeded};
use usestakly::resolution::{canonical_reference, reference_text};
use usestakly::repos::{
    normalize_maturity_bands, normalize_public_signal, normalize_topics, previous_formula_version,
    repo_names, search_limit, search_offset,
    signal_is_visible,
    should_short_circuit_github_ingest, tokenize_query, RepoSort,
};

#[test]
fn repos_tokenize_query_normalizes_and_deduplicates() {
    let tokens = tokenize_query(Some("React UI, react  typescript"));
    assert_eq!(tokens, vec!["react", "ui", "typescript"]);
}

#[test]
fn repos_tokenize_query_drops_short_empty_tokens() {
    let tokens = tokenize_query(Some("a / c++ / rpc"));
    assert_eq!(tokens, vec!["rpc"]);
}

#[test]
fn repos_normalize_topics_deduplicates_and_normalizes() {
    let topics = normalize_topics(&[
        "#React".to_string(),
        "data_grid".to_string(),
        "react".to_string(),
    ]);
    assert_eq!(topics, vec!["react", "data-grid"]);
}

#[test]
fn normalize_tokenize_query_normalizes_and_deduplicates() {
    let tokens = tokenize_query(Some("React UI, react  typescript"));
    assert_eq!(tokens, vec!["react", "ui", "typescript"]);
}

#[test]
fn normalize_tokenize_query_drops_short_empty_tokens() {
    let tokens = tokenize_query(Some("a / c++ / rpc"));
    assert_eq!(tokens, vec!["rpc"]);
}

#[test]
fn normalize_normalize_topics_deduplicates_and_normalizes() {
    let topics = normalize_topics(&[
        "#React".to_string(),
        "data_grid".to_string(),
        "react".to_string(),
    ]);
    assert_eq!(topics, vec!["react", "data-grid"]);
}

#[test]
fn normalize_maturity_bands_keeps_known_values_only() {
    let bands = normalize_maturity_bands(&[
        "Emerging".to_string(),
        "experimental".to_string(),
        "unknown".to_string(),
        "emerging".to_string(),
    ]);
    assert_eq!(bands, vec!["emerging", "experimental"]);
}

#[test]
fn short_circuit_skips_github_when_repo_already_indexed() {
    assert!(should_short_circuit_github_ingest(true));
    assert!(!should_short_circuit_github_ingest(false));
}

#[test]
fn repo_sort_parses_trend_aliases() {
    assert_eq!(RepoSort::parse(Some("trend")), RepoSort::Trend);
    assert_eq!(RepoSort::parse(Some("radar")), RepoSort::Trend);
    assert_eq!(RepoSort::parse(Some("emerging")), RepoSort::Trend);
}

#[test]
fn repo_sort_parses_every_alias_and_defaults_to_score() {
    assert_eq!(RepoSort::parse(Some(" Stars ")), RepoSort::Stars);
    assert_eq!(RepoSort::parse(Some("recent")), RepoSort::Recency);
    assert_eq!(RepoSort::parse(Some("freshness")), RepoSort::Recency);
    assert_eq!(RepoSort::parse(Some("RISK")), RepoSort::Abandonment);
    assert_eq!(RepoSort::parse(Some("whatever")), RepoSort::Score);
    assert_eq!(RepoSort::parse(None), RepoSort::Score);
    assert_eq!(RepoSort::Trend.as_str(), "trend");
    assert_eq!(RepoSort::Score.as_str(), "score");
}

#[test]
fn tokenize_query_handles_missing_and_blank_queries() {
    assert!(tokenize_query(None).is_empty());
    assert!(tokenize_query(Some("   ")).is_empty());
    assert_eq!(tokenize_query(Some("Éclair-JS éclair")), vec!["éclair", "js"]);
}

#[test]
fn public_signal_spelling() {
    assert_eq!(normalize_public_signal("security_issue"), "security-issue");
    assert_eq!(normalize_public_signal("deprecated"), "deprecated");
}

#[test]
fn user_hourly_limit_blocks_at_threshold() {
    assert!(!user_limit_exceeded(9, 10));
    assert!(user_limit_exceeded(10, 10));
}

#[test]
fn repo_cooldown_blocks_when_recent_refresh_exists() {
    assert!(!repo_limit_exceeded(0));
    assert!(repo_limit_exceeded(1));
}

#[test]
fn profile_shows_passive_signals_and_approved_flags_only() {
    let approved = vec!["security-issue".to_string()];
    assert!(signal_is_visible(true, "resolve", &approved));
    assert!(signal_is_visible(false, "security_issue", &approved));
    assert!(!signal_is_visible(false, "broken", &approved));
    assert!(!signal_is_visible(false, "deprecated", &Vec::new()));
}

#[test]
fn search_limits_and_offsets_are_bounded() {
    assert_eq!(search_limit(None), 50);
    assert_eq!(search_limit(Some(0)), 1);
    assert_eq!(search_limit(Some(120)), 120);
    assert_eq!(search_limit(Some(1_000)), 200);
    assert_eq!(search_offset(None), 0);
    assert_eq!(search_offset(Some(-3)), 0);
    assert_eq!(search_offset(Some(40)), 40);
}

#[test]
fn repository_names_default_from_owner_and_name() {
    let names = repo_names(Some("acme".to_string()), None, None);
    assert_eq!(names.full_name, "acme/");
    assert_eq!(names.html_url, "https://github.com/acme/");
    let names = repo_names(Some("acme".to_string()), Some("tool".to_string()), Some("https://x.test".to_string()));
    assert_eq!(names.full_name, "acme/tool");
    assert_eq!(names.html_url, "https://x.test");
    assert_eq!(previous_formula_version(true), Some("v1.1"));
    assert_eq!(previous_formula_version(false), None);
}

#[test]
fn snippet_references() {
    let canonical = canonical_reference("react", "use-debounce", "1.2.0");
    assert_eq!(canonical, "react:use-debounce@1.2.0");
    assert_eq!(reference_text(&canonical), "@react:use-debounce@1.2.0");
}

#[test]
fn no_query_gives_no_tokens() {
    assert!(tokenize_query(None).is_empty());
    assert!(tokenize_query(Some("")).is_empty());
    assert_eq!(tokenize_query(Some("A-b go")), vec!["go".to_string()]);
}
