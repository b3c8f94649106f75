use usestakly::github_quota::{
    assess_ingestion, GitHubQuotaDbSignals, GitHubQuotaHeaderSnapshot, GitHubQuotaHitRecord,
    PublicIngestionStatus, snapshot_from_headers,
};

const NOW: i64 = 1_778_000_000;

fn quiet_db(github_repo_count: i64) -> GitHubQuotaDbSignals {
    GitHubQuotaDbSignals {
        rate_limit_hits_1h: 0,
        last_rate_limit_at: None,
        latest_rate_limit_reset_at: None,
        stale_github_repos: 0,
        github_repo_count,
    }
}

#[test]
fn assess_disabled_without_token() {
    let db = quiet_db(0);
    let (status, reasons) = assess_ingestion(None, &db, None, None, NOW);
    assert_eq!(status, PublicIngestionStatus::Disabled);
    assert!(!reasons.is_empty());
}

#[test]
fn assess_degraded_on_low_remaining_snapshot() {
    let db = quiet_db(10);
    let snapshot = GitHubQuotaHeaderSnapshot {
        observed_at: NOW,
        context: "test".into(),
        remaining: Some(12),
        limit: Some(5000),
        used: Some(4988),
        reset_at: None,
    };
    let (status, reasons) = assess_ingestion(Some("token"), &db, Some(&snapshot), None, NOW);
    assert_eq!(status, PublicIngestionStatus::Degraded);
    assert!(reasons.iter().any(|r| r.contains("low")));
    assert_eq!(reasons, vec!["GitHub API remaining quota is low (12)".to_string()]);
}

#[test]
fn empty_token_counts_as_missing() {
    let (status, reasons) = assess_ingestion(Some(""), &quiet_db(3), None, None, NOW);
    assert_eq!(status, PublicIngestionStatus::Disabled);
    assert_eq!(reasons, vec!["GITHUB_TOKEN is not configured".to_string()]);
    assert_eq!(status.as_str(), "disabled");
}

#[test]
fn healthy_without_any_marker() {
    let (status, reasons) = assess_ingestion(Some("t"), &quiet_db(3), None, None, NOW);
    assert_eq!(status, PublicIngestionStatus::Healthy);
    assert!(reasons.is_empty());
    assert_eq!(status.as_str(), "ok");
}

#[test]
fn every_reason_is_reported_in_order() {
    let mut db = quiet_db(3);
    db.rate_limit_hits_1h = 4;
    let hit = GitHubQuotaHitRecord { observed_at: NOW - 60, kind: "secondary".into() };
    let snapshot = GitHubQuotaHeaderSnapshot {
        observed_at: NOW - 7200,
        context: "x".into(),
        remaining: Some(0),
        limit: None,
        used: None,
        reset_at: None,
    };
    let (status, reasons) = assess_ingestion(Some("t"), &db, Some(&snapshot), Some(&hit), NOW);
    assert_eq!(status, PublicIngestionStatus::Degraded);
    assert_eq!(
        reasons,
        vec![
            "Recent GitHub secondary rate limit".to_string(),
            "4 artifact rate-limit markers in the last hour".to_string(),
            "GitHub API remaining quota is 0".to_string(),
        ]
    );
}

#[test]
fn old_hits_and_old_low_snapshots_no_longer_count() {
    let hit = GitHubQuotaHitRecord { observed_at: NOW - 3600, kind: "primary".into() };
    let snapshot = GitHubQuotaHeaderSnapshot {
        observed_at: NOW - 1800,
        context: "x".into(),
        remaining: Some(50),
        limit: None,
        used: None,
        reset_at: None,
    };
    let (status, _) = assess_ingestion(Some("t"), &quiet_db(1), Some(&snapshot), Some(&hit), NOW);
    assert_eq!(status, PublicIngestionStatus::Healthy);
    let recent = GitHubQuotaHitRecord { observed_at: NOW - 3599, kind: "primary".into() };
    let (status, reasons) = assess_ingestion(Some("t"), &quiet_db(1), None, Some(&recent), NOW);
    assert_eq!(status, PublicIngestionStatus::Degraded);
    assert_eq!(reasons, vec!["Recent GitHub primary rate limit".to_string()]);
}

#[test]
fn snapshot_keeps_only_reset_instants_chrono_can_represent() {
    let at = |reset: &str| {
        snapshot_from_headers("ctx", Some("10"), Some("5000"), Some(reset), None, 7)
            .expect("snapshot")
            .reset_at
    };
    assert_eq!(at("8210266876799"), Some(8210266876799));
    assert_eq!(at("8210266876800"), None);
    assert_eq!(at("-8334601228800"), Some(-8334601228800));
    assert_eq!(at("-8334601228801"), None);
    assert_eq!(at("1778791697"), Some(1778791697));
}
