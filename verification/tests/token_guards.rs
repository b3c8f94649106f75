use usestakly::agent_token_events::{
    duplicate_usage_verdict, needs_negative_guards, negative_outcome_reputation_verdict,
    recent_negative_verdict, store_interval, write_quota_verdict,
};
use usestakly::formula::SignalKind;
use usestakly::reputation::{ReputationTier, UserReputation};

fn rep(tier: ReputationTier, resolves: i64) -> UserReputation {
    UserReputation {
        user_id: 1,
        tier,
        account_age_days: 30,
        passive_signal_count: 10,
        resolve_count: resolves,
        re_resolve_count: 0,
        build_success_count: 2,
        build_failure_count: 1,
        regret_count: 0,
    }
}

#[test]
fn write_quota_counts_the_last_hour() {
    assert!(write_quota_verdict(29, 30).is_ok());
    let err = write_quota_verdict(30, 30).unwrap_err();
    assert_eq!(err.status, 429);
    assert_eq!(err.message, "MCP write quota exceeded for this token (30/hour)");
}

#[test]
fn intervals_must_fit_the_store() {
    assert_eq!(store_interval(3_600, "cooldown is too large").unwrap(), 3_600);
    let err = store_interval(1 << 40, "cooldown is too large").unwrap_err();
    assert_eq!(err.status, 400);
    assert_eq!(err.message, "cooldown is too large");
}

#[test]
fn duplicate_and_recent_negative_signals_are_limited() {
    assert!(duplicate_usage_verdict(false, "acme", "tool").is_ok());
    let err = duplicate_usage_verdict(true, "acme", "tool").unwrap_err();
    assert_eq!(err.status, 429);
    assert_eq!(err.message, "duplicate MCP usage signal blocked for acme/tool; retry later");
    let err = recent_negative_verdict(true, "acme", "tool").unwrap_err();
    assert_eq!(err.message, "negative MCP usage signals for acme/tool are limited; retry later");
    assert!(recent_negative_verdict(false, "acme", "tool").is_ok());
}

#[test]
fn only_negative_outcomes_are_guarded() {
    assert!(needs_negative_guards(SignalKind::Regret));
    assert!(needs_negative_guards(SignalKind::BuildFailure));
    assert!(needs_negative_guards(SignalKind::ReResolve));
    assert!(!needs_negative_guards(SignalKind::Resolve));
    assert!(!needs_negative_guards(SignalKind::BuildSuccess));
}

#[test]
fn unproven_users_cannot_send_negative_outcomes() {
    let err = negative_outcome_reputation_verdict(
        &rep(ReputationTier::Unproven, 10),
        false,
        false,
        SignalKind::BuildFailure,
        None,
    )
    .unwrap_err();
    assert_eq!(err.status, 403);
    assert_eq!(
        err.message,
        "negative MCP usage signals require a more established trust profile (current tier: unproven)"
    );
}

#[test]
fn thin_history_restricts_negative_outcomes() {
    let err = negative_outcome_reputation_verdict(
        &rep(ReputationTier::Emerging, 1),
        false,
        false,
        SignalKind::BuildFailure,
        None,
    )
    .unwrap_err();
    assert_eq!(err.status, 403);
    assert!(negative_outcome_reputation_verdict(
        &rep(ReputationTier::Trusted, 10),
        true,
        false,
        SignalKind::BuildFailure,
        None,
    )
    .is_err());
    assert!(negative_outcome_reputation_verdict(
        &rep(ReputationTier::Trusted, 10),
        false,
        false,
        SignalKind::BuildFailure,
        None,
    )
    .is_ok());
}

#[test]
fn regrets_need_notes() {
    let r = rep(ReputationTier::Core, 10);
    let err = negative_outcome_reputation_verdict(&r, false, false, SignalKind::Regret, Some("   too short   "))
        .unwrap_err();
    assert_eq!(err.status, 400);
    assert_eq!(err.message, "negative MCP usage signals need short notes (12+ chars) for review context");
    assert!(negative_outcome_reputation_verdict(
        &r,
        false,
        false,
        SignalKind::ReResolve,
        Some("broke the CI pipeline"),
    )
    .is_ok());
}
