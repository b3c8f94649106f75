use usestakly::config::AppConfig;
use usestakly::flags::{compute_consensus_flags, normalize_flags, ActiveSignalRow, ConsensusThresholds};
use usestakly::reputation::{ReputationTier, UserReputation};

fn reputation(id: u128, account_age_days: i64) -> UserReputation {
    UserReputation {
        user_id: id,
        tier: ReputationTier::Trusted,
        account_age_days,
        passive_signal_count: 10,
        resolve_count: 3,
        re_resolve_count: 0,
        build_success_count: 0,
        build_failure_count: 0,
        regret_count: 0,
    }
}

// The eligible users, as the service computes them: a score at or above the
// minimum and the activity requirements.
fn eligible(users: &[(UserReputation, f64)], min_reputation: f64) -> Vec<u128> {
    users
        .iter()
        .filter(|(rep, score)| *score >= min_reputation && rep.meets_activity_requirements())
        .map(|(rep, _)| rep.user_id)
        .collect()
}

fn row(artifact: u128, signal: &str, user: u128) -> ActiveSignalRow {
    ActiveSignalRow {
        external_artifact_id: Some(artifact),
        signal: signal.to_string(),
        actor_user_id: Some(user),
    }
}

fn default_thresholds() -> ConsensusThresholds {
    ConsensusThresholds { default_consensus: 2, severe_consensus: 3 }
}

fn flags_for(out: &[(u128, Vec<String>)], artifact: u128) -> Vec<String> {
    out.iter()
        .find(|(a, _)| *a == artifact)
        .map(|(_, flags)| flags.clone())
        .unwrap_or_default()
}

#[test]
fn normalize_flags_converts_security_issue_to_kebab() {
    let out = normalize_flags(vec!["security_issue".into(), "deprecated".into()]);
    assert_eq!(out, vec!["security-issue", "deprecated"]);
}

#[test]
fn user_below_reputation_threshold_is_skipped() {
    let artifact = 7;
    let eligible = eligible(&[(reputation(1, 30), 0.2), (reputation(2, 30), 0.8)], 0.45);
    let rows = vec![row(artifact, "deprecated", 1), row(artifact, "deprecated", 2)];
    let out = compute_consensus_flags(&rows, &eligible, &default_thresholds());
    assert!(flags_for(&out, artifact).is_empty());
}

#[test]
fn deprecated_reaches_consensus_at_two_eligible_users() {
    let artifact = 7;
    let eligible = eligible(&[(reputation(1, 30), 0.8), (reputation(2, 30), 0.8)], 0.45);
    let rows = vec![row(artifact, "deprecated", 1), row(artifact, "deprecated", 2)];
    let out = compute_consensus_flags(&rows, &eligible, &default_thresholds());
    assert_eq!(flags_for(&out, artifact), vec!["deprecated".to_string()]);
}

#[test]
fn security_issue_requires_three_eligible_users() {
    let artifact = 7;
    let mut users = vec![(reputation(1, 30), 0.8), (reputation(2, 30), 0.8)];
    let rows = vec![row(artifact, "security_issue", 1), row(artifact, "security_issue", 2)];
    let out = compute_consensus_flags(&rows, &eligible(&users, 0.45), &default_thresholds());
    assert!(
        flags_for(&out, artifact).is_empty(),
        "2 users on security_issue must not reach consensus"
    );

    users.push((reputation(3, 30), 0.8));
    let rows = vec![
        row(artifact, "security_issue", 1),
        row(artifact, "security_issue", 2),
        row(artifact, "security_issue", 3),
    ];
    let out = compute_consensus_flags(&rows, &eligible(&users, 0.45), &default_thresholds());
    assert_eq!(
        flags_for(&out, artifact),
        vec!["security-issue".to_string()],
        "3 eligible users on security_issue exposes normalized flag"
    );
}

#[test]
fn same_user_reporting_twice_is_deduplicated() {
    let artifact = 7;
    let eligible = eligible(&[(reputation(1, 30), 0.8)], 0.45);
    let rows = vec![row(artifact, "deprecated", 1), row(artifact, "deprecated", 1)];
    let out = compute_consensus_flags(&rows, &eligible, &default_thresholds());
    assert!(flags_for(&out, artifact).is_empty());
}

#[test]
fn fresh_account_even_with_high_score_is_not_eligible() {
    let artifact = 7;
    let eligible = eligible(&[(reputation(1, 2), 0.8), (reputation(2, 30), 0.8)], 0.45);
    let rows = vec![row(artifact, "deprecated", 1), row(artifact, "deprecated", 2)];
    let out = compute_consensus_flags(&rows, &eligible, &default_thresholds());
    assert!(
        flags_for(&out, artifact).is_empty(),
        "fresh account below 7 days must not count toward consensus"
    );
}

#[test]
fn consensus_groups_by_artifact_in_first_report_order() {
    let eligible = vec![1, 2, 3];
    let rows = vec![
        row(20, "broken", 1),
        row(10, "deprecated", 1),
        row(20, "broken", 2),
        row(10, "deprecated", 2),
        row(20, "broken", 3),
        ActiveSignalRow { external_artifact_id: None, signal: "broken".into(), actor_user_id: Some(1) },
        ActiveSignalRow { external_artifact_id: Some(30), signal: "broken".into(), actor_user_id: None },
    ];
    let out = compute_consensus_flags(&rows, &eligible, &default_thresholds());
    assert_eq!(
        out,
        vec![(20, vec!["broken".to_string()]), (10, vec!["deprecated".to_string()])]
    );
}

#[test]
fn thresholds_come_from_the_configuration() {
    assert_eq!(ConsensusThresholds::from_config(None).default_consensus, 2);
    assert_eq!(ConsensusThresholds::from_config(None).severe_consensus, 3);
    let config = AppConfig {
        github_token: None,
        semantic_search_enabled: false,
        scheduler_enabled: false,
        ingest_max_repos_per_cycle: 40,
        corpus_refresh_stale_secs: 3600,
        digest_interval_secs: 1800,
        active_signal_default_consensus: 4,
        active_signal_severe_consensus: 5,
        repo_refresh_user_limit_per_hour: 10,
        repo_refresh_cooldown_secs: 900,
    };
    let t = ConsensusThresholds::from_config(Some(&config));
    assert_eq!((t.default_consensus, t.severe_consensus), (4, 5));
}
