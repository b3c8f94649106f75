use chrono::{Duration, TimeZone, Utc};
use usestakly::github_client::{
    classify_rate_limit, conditional_request_headers, github_api_failure,
    github_api_failure_with_headers, retry_delay, summarize_releases, GitHubRateLimitKind,
    RateLimitHeaders,
};
use usestakly::github_structural::{
    commit_author_key, commit_time, decode_readme_content, owner_activity_summary, tally_commits,
    CommitSummary, GitHubRepoEvent, README_CLASSIFICATION_MAX_BYTES,
};

fn github_rate_limit_headers(remaining: &str, reset: &str, retry_after: Option<&str>) -> RateLimitHeaders {
    RateLimitHeaders {
        remaining: Some(remaining.to_string()),
        reset: Some(reset.to_string()),
        retry_after: retry_after.map(str::to_string),
    }
}

fn parse_dt(value: &str) -> i64 {
    value.parse::<chrono::DateTime<Utc>>().unwrap().timestamp()
}


#[test]
fn github_github_rate_limit_headers_detect_primary_limit() {
    let headers = github_rate_limit_headers("0", "1778791697", None);
    let limit = classify_rate_limit(403, &headers, "");

    assert!(matches!(limit, Some(GitHubRateLimitKind::Primary { .. })));
}

#[test]
fn github_github_rate_limit_body_detects_secondary_limit() {
    let headers = github_rate_limit_headers("42", "1778791697", None);
    let limit = classify_rate_limit(
        403,
        &headers,
        "You have exceeded a secondary rate limit. Please wait a few minutes.",
    );

    assert!(matches!(limit, Some(GitHubRateLimitKind::Secondary)));
}

#[test]
fn github_github_api_failure_maps_secondary_limit_with_context() {
    let err = github_api_failure(
        "GitHub releases fetch",
        403,
        "You have exceeded a secondary rate limit.",
    );

    assert_eq!(err.status, 403);
    assert!(err.message.contains("GitHub releases fetch"));
    assert!(err.message.contains("secondary rate limit"));
}

#[test]
fn github_github_api_failure_maps_access_denied_with_status_context() {
    let err = github_api_failure(
        "GitHub releases fetch",
        403,
        "Resource not accessible by integration",
    );

    assert_eq!(err.status, 403);
    assert!(err.message.contains("GitHub releases fetch"));
    assert!(err.message.contains("403"));
}

#[test]
fn github_release_summary_selects_newest_published_release() {
    let old = Utc.with_ymd_and_hms(2026, 4, 1, 12, 0, 0).unwrap().timestamp();
    let new = Utc.with_ymd_and_hms(2026, 5, 2, 12, 0, 0).unwrap().timestamp();
    let releases = vec![Some(old), Some(new), None];

    let (count, last_release_at) = summarize_releases(&releases);

    assert_eq!(count, 3);
    assert_eq!(last_release_at, Some(new));
}

#[test]
fn github_release_summary_handles_empty_releases() {
    let (count, last_release_at) = summarize_releases(&[]);

    assert_eq!(count, 0);
    assert_eq!(last_release_at, None);
}

#[test]
fn github_conditional_headers_include_etag_when_present() {
    let value = conditional_request_headers(Some(r#""abc123""#)).expect("etag should build headers");

    assert_eq!(value.as_str(), r#""abc123""#);
}

#[test]
fn github_conditional_headers_skip_blank_etag() {
    assert!(conditional_request_headers(Some("   ")).is_none());
    assert!(conditional_request_headers(None).is_none());
}

#[test]
fn github_backoff_delay_uses_retry_after_before_default_secondary_delay() {
    let headers = github_rate_limit_headers("12", "1778791697", Some("7"));
    let limit = classify_rate_limit(429, &headers, "");

    assert_eq!(retry_delay(&limit), Some(7));
}

#[test]
fn client_github_rate_limit_headers_detect_primary_limit() {
    let headers = github_rate_limit_headers("0", "1778791697", None);
    let limit = classify_rate_limit(403, &headers, "");

    assert!(matches!(limit, Some(GitHubRateLimitKind::Primary { .. })));
}

#[test]
fn client_github_rate_limit_body_detects_secondary_limit() {
    let headers = github_rate_limit_headers("42", "1778791697", None);
    let limit = classify_rate_limit(
        403,
        &headers,
        "You have exceeded a secondary rate limit. Please wait a few minutes.",
    );

    assert!(matches!(limit, Some(GitHubRateLimitKind::Secondary)));
}

#[test]
fn client_github_api_failure_maps_secondary_limit_with_context() {
    let err = github_api_failure(
        "GitHub releases fetch",
        403,
        "You have exceeded a secondary rate limit.",
    );

    assert_eq!(err.status, 403);
    assert!(err.message.contains("GitHub releases fetch"));
    assert!(err.message.contains("secondary rate limit"));
}

#[test]
fn client_github_api_failure_maps_access_denied_with_status_context() {
    let err = github_api_failure(
        "GitHub releases fetch",
        403,
        "Resource not accessible by integration",
    );

    assert_eq!(err.status, 403);
    assert!(err.message.contains("GitHub releases fetch"));
    assert!(err.message.contains("403"));
}

#[test]
fn client_release_summary_selects_newest_published_release() {
    let old = Utc.with_ymd_and_hms(2026, 4, 1, 12, 0, 0).unwrap().timestamp();
    let new = Utc.with_ymd_and_hms(2026, 5, 2, 12, 0, 0).unwrap().timestamp();
    let releases = vec![Some(old), Some(new), None];

    let (count, last_release_at) = summarize_releases(&releases);

    assert_eq!(count, 3);
    assert_eq!(last_release_at, Some(new));
}

#[test]
fn client_release_summary_handles_empty_releases() {
    let (count, last_release_at) = summarize_releases(&[]);

    assert_eq!(count, 0);
    assert_eq!(last_release_at, None);
}

#[test]
fn client_conditional_headers_include_etag_when_present() {
    let value = conditional_request_headers(Some(r#""abc123""#)).expect("etag should build headers");

    assert_eq!(value.as_str(), r#""abc123""#);
}

#[test]
fn client_conditional_headers_skip_blank_etag() {
    assert!(conditional_request_headers(Some("   ")).is_none());
    assert!(conditional_request_headers(None).is_none());
}

#[test]
fn client_backoff_delay_uses_retry_after_before_default_secondary_delay() {
    let headers = github_rate_limit_headers("12", "1778791697", Some("7"));
    let limit = classify_rate_limit(429, &headers, "");

    assert_eq!(retry_delay(&limit), Some(7));
}

#[test]
fn github_decodes_base64_readme_content_for_classification() {
    let decoded = decode_readme_content("IyBLaXQgVUkK", "base64").unwrap();

    assert_eq!(decoded, "# Kit UI\n");
}

#[test]
fn github_limits_readme_text_used_for_classification() {
    let oversized = "a".repeat(README_CLASSIFICATION_MAX_BYTES + 20);
    let decoded = decode_readme_content(&oversized, "plain").unwrap();

    assert_eq!(decoded.len(), README_CLASSIFICATION_MAX_BYTES);
}

#[test]
fn github_tally_counts_distinct_authors_and_30d_window() {
    let now = Utc::now();
    let cutoff_30d = (now - Duration::days(30)).timestamp();
    let commits = vec![
        CommitSummary { author_key: "alice".into(), committed_at: (now - Duration::days(1)).timestamp() },
        CommitSummary { author_key: "alice".into(), committed_at: (now - Duration::days(40)).timestamp() },
        CommitSummary { author_key: "bob".into(), committed_at: (now - Duration::days(15)).timestamp() },
        CommitSummary { author_key: "carol".into(), committed_at: (now - Duration::days(80)).timestamp() },
    ];
    let tally = tally_commits(&commits, cutoff_30d);
    assert_eq!(tally.distinct_contributors_90d, 3);
    assert_eq!(tally.commits_30d, 2);
}

#[test]
fn github_tally_handles_empty_input() {
    let now = Utc::now();
    let cutoff_30d = (now - Duration::days(30)).timestamp();
    let tally = tally_commits(&[], cutoff_30d);
    assert_eq!(tally.distinct_contributors_90d, 0);
    assert_eq!(tally.commits_30d, 0);
}

#[test]
fn github_tally_solo_dev_high_cadence_is_one_contributor() {
    let now = Utc::now();
    let cutoff_30d = (now - Duration::days(30)).timestamp();
    let commits: Vec<CommitSummary> = (0..50)
        .map(|i| CommitSummary {
            author_key: "solo-vibe-coder".into(),
            committed_at: (now - Duration::hours(i)).timestamp(),
        })
        .collect();
    let tally = tally_commits(&commits, cutoff_30d);
    assert_eq!(tally.distinct_contributors_90d, 1);
    assert_eq!(tally.commits_30d, 50);
}

#[test]
fn github_tally_30d_boundary_is_inclusive() {
    let now = Utc::now();
    let cutoff_30d = (now - Duration::days(30)).timestamp();
    let commits = vec![CommitSummary { author_key: "edge".into(), committed_at: cutoff_30d }];
    let tally = tally_commits(&commits, cutoff_30d);
    assert_eq!(tally.commits_30d, 1);
}

#[test]
fn github_owner_activity_ignores_bots_and_counts_same_day_activity() {
    let now = parse_dt("2026-05-16T12:00:00Z");
    let events = vec![
        GitHubRepoEvent {
            event_type: "PushEvent".to_string(),
            actor_login: "dependabot[bot]".to_string(),
            created_at: parse_dt("2026-05-16T11:00:00Z"),
        },
        GitHubRepoEvent {
            event_type: "IssuesEvent".to_string(),
            actor_login: "vitejs".to_string(),
            created_at: parse_dt("2026-05-16T10:00:00Z"),
        },
    ];

    let activity = owner_activity_summary(&events, "vitejs", now);

    assert_eq!(activity.owner_last_activity_at, Some(parse_dt("2026-05-16T10:00:00Z")));
    assert_eq!(activity.owner_inactive_days, Some(0));
}

#[test]
fn github_owner_activity_returns_none_for_empty_events() {
    let activity = owner_activity_summary(&[], "vitejs", parse_dt("2026-05-16T12:00:00Z"));

    assert_eq!(activity.owner_last_activity_at, None);
    assert_eq!(activity.owner_inactive_days, None);
}

#[test]
fn structural_decodes_base64_readme_content_for_classification() {
    let decoded = decode_readme_content("IyBLaXQgVUkK", "base64").unwrap();

    assert_eq!(decoded, "# Kit UI\n");
}

#[test]
fn structural_limits_readme_text_used_for_classification() {
    let oversized = "a".repeat(README_CLASSIFICATION_MAX_BYTES + 20);
    let decoded = decode_readme_content(&oversized, "plain").unwrap();

    assert_eq!(decoded.len(), README_CLASSIFICATION_MAX_BYTES);
}

#[test]
fn structural_tally_counts_distinct_authors_and_30d_window() {
    let now = Utc::now();
    let cutoff_30d = (now - Duration::days(30)).timestamp();
    let commits = vec![
        CommitSummary { author_key: "alice".into(), committed_at: (now - Duration::days(1)).timestamp() },
        CommitSummary { author_key: "alice".into(), committed_at: (now - Duration::days(40)).timestamp() },
        CommitSummary { author_key: "bob".into(), committed_at: (now - Duration::days(15)).timestamp() },
        CommitSummary { author_key: "carol".into(), committed_at: (now - Duration::days(80)).timestamp() },
    ];
    let tally = tally_commits(&commits, cutoff_30d);
    assert_eq!(tally.distinct_contributors_90d, 3);
    assert_eq!(tally.commits_30d, 2);
}

#[test]
fn structural_tally_handles_empty_input() {
    let now = Utc::now();
    let cutoff_30d = (now - Duration::days(30)).timestamp();
    let tally = tally_commits(&[], cutoff_30d);
    assert_eq!(tally.distinct_contributors_90d, 0);
    assert_eq!(tally.commits_30d, 0);
}

#[test]
fn structural_tally_solo_dev_high_cadence_is_one_contributor() {
    let now = Utc::now();
    let cutoff_30d = (now - Duration::days(30)).timestamp();
    let commits: Vec<CommitSummary> = (0..50)
        .map(|i| CommitSummary {
            author_key: "solo-vibe-coder".into(),
            committed_at: (now - Duration::hours(i)).timestamp(),
        })
        .collect();
    let tally = tally_commits(&commits, cutoff_30d);
    assert_eq!(tally.distinct_contributors_90d, 1);
    assert_eq!(tally.commits_30d, 50);
}

#[test]
fn structural_tally_30d_boundary_is_inclusive() {
    let now = Utc::now();
    let cutoff_30d = (now - Duration::days(30)).timestamp();
    let commits = vec![CommitSummary { author_key: "edge".into(), committed_at: cutoff_30d }];
    let tally = tally_commits(&commits, cutoff_30d);
    assert_eq!(tally.commits_30d, 1);
}

#[test]
fn structural_owner_activity_ignores_bots_and_counts_same_day_activity() {
    let now = parse_dt("2026-05-16T12:00:00Z");
    let events = vec![
        GitHubRepoEvent {
            event_type: "PushEvent".to_string(),
            actor_login: "dependabot[bot]".to_string(),
            created_at: parse_dt("2026-05-16T11:00:00Z"),
        },
        GitHubRepoEvent {
            event_type: "IssuesEvent".to_string(),
            actor_login: "vitejs".to_string(),
            created_at: parse_dt("2026-05-16T10:00:00Z"),
        },
    ];

    let activity = owner_activity_summary(&events, "vitejs", now);

    assert_eq!(activity.owner_last_activity_at, Some(parse_dt("2026-05-16T10:00:00Z")));
    assert_eq!(activity.owner_inactive_days, Some(0));
}

#[test]
fn structural_owner_activity_returns_none_for_empty_events() {
    let activity = owner_activity_summary(&[], "vitejs", parse_dt("2026-05-16T12:00:00Z"));

    assert_eq!(activity.owner_last_activity_at, None);
    assert_eq!(activity.owner_inactive_days, None);
}

#[test]
fn rate_limit_messages_name_reset_and_retry() {
    let headers = github_rate_limit_headers("0", "1778791697", Some("30"));
    let err = github_api_failure_with_headers("ctx", 403, &headers, "");
    assert_eq!(err.status, 403);
    assert_eq!(
        err.message,
        "ctx: GitHub API primary rate limit reached; resets at 2026-05-14T20:48:17+00:00; retry after 30 seconds"
    );
    let err = github_api_failure("ctx", 500, "boom");
    assert_eq!((err.status, err.message.as_str()), (500, "ctx: GitHub returned 500 (boom)"));
    let err = github_api_failure("ctx", 429, "slow down");
    assert_eq!(err.message, "ctx: GitHub API primary rate limit reached");
    assert_eq!(classify_rate_limit(404, &headers, "secondary rate limit"), None);
    assert_eq!(classify_rate_limit(403, &github_rate_limit_headers("5", "x", None), "nope"), None);
    assert_eq!(
        classify_rate_limit(403, &github_rate_limit_headers("0", "abc", Some("-1")), ""),
        Some(GitHubRateLimitKind::Primary { reset_at: None, retry_after_secs: None })
    );
    assert_eq!(retry_delay(&Some(GitHubRateLimitKind::Secondary)), Some(2));
    assert_eq!(retry_delay(&None), None);
}

#[test]
fn etag_headers_reject_control_characters() {
    assert_eq!(conditional_request_headers(Some("  W/\"x\"  ")), Some("W/\"x\"".to_string()));
    assert_eq!(conditional_request_headers(Some("a\u{7f}b")), None);
}

#[test]
fn readme_decoding_errors_and_whitespace() {
    assert_eq!(decode_readme_content("IyBL\naXQg\nVUkK", "base64").unwrap(), "# Kit UI\n");
    let err = decode_readme_content("###", "base64").unwrap_err();
    assert_eq!(err.status, 500);
    assert!(err.message.starts_with("README base64 decode failed: "));
    assert_eq!(
        decode_readme_content("x", "gzip").unwrap_err().message,
        "unsupported README encoding: gzip"
    );
}

#[test]
fn commit_identity_falls_back_in_order() {
    assert_eq!(commit_author_key(Some("octo"), Some("a@b"), Some("A"), "abc"), "octo");
    assert_eq!(commit_author_key(Some(""), Some("a@b"), Some("A"), "abc"), "a@b");
    assert_eq!(commit_author_key(None, Some(""), Some("A"), "abc"), "A");
    assert_eq!(commit_author_key(None, None, None, "abc"), "sha:abc");
    assert_eq!(commit_time(Some(5), Some(6), 7), 5);
    assert_eq!(commit_time(None, Some(6), 7), 6);
    assert_eq!(commit_time(None, None, 7), 7);
}

#[test]
fn owner_activity_counts_whole_days() {
    let now = parse_dt("2026-05-16T12:00:00Z");
    let events = vec![GitHubRepoEvent {
        event_type: "WatchEvent".into(),
        actor_login: "VITEJS".into(),
        created_at: parse_dt("2026-05-13T13:00:00Z"),
    }];
    let activity = owner_activity_summary(&events, "vitejs", now);
    assert_eq!(activity.owner_inactive_days, Some(2));
    let others = vec![GitHubRepoEvent {
        event_type: "WatchEvent".into(),
        actor_login: "someone".into(),
        created_at: now,
    }];
    assert_eq!(owner_activity_summary(&others, "vitejs", now).owner_last_activity_at, None);
}
