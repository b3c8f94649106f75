use usestakly::dimension_state::{
    build_dimension_states, derive_proof_tier, proof_tier_str, DimensionState, DimensionStateInput,
    DimensionValue, ProofTier, QualityCounts, VitalityInputs,
};
use usestakly::ingestion_status::build_ingestion_status;
use usestakly::reputation::{ReputationTier, UserReputation};
use usestakly::semantic_search::build_search_document;

fn state(key: &str, display: &str) -> DimensionState {
    DimensionState {
        key: key.to_string(),
        value: DimensionValue::Score,
        display_state: display.to_string(),
        source: "usage_signals".to_string(),
        confidence: "high".to_string(),
        as_of: 0,
        summary: String::new(),
    }
}

#[test]
fn proof_tier_community_backed_when_both_measured() {
    let states = vec![state("adoption", "measured"), state("reliability", "measured")];
    assert_eq!(derive_proof_tier(&states), ProofTier::CommunityBacked);
    assert_eq!(proof_tier_str(ProofTier::CommunityBacked), "community_backed");
}

#[test]
fn proof_tier_usage_limited_when_adoption_growing() {
    let states = vec![state("adoption", "growing"), state("reliability", "measured")];
    assert_eq!(derive_proof_tier(&states), ProofTier::UsageLimited);
    assert_eq!(proof_tier_str(ProofTier::UsageLimited), "usage_limited");
}

#[test]
fn proof_tier_usage_limited_on_neutral_reliability() {
    let states = vec![state("adoption", "pending"), state("reliability", "neutral_default")];
    assert_eq!(derive_proof_tier(&states), ProofTier::UsageLimited);
}

#[test]
fn proof_tier_corpus_only_when_adoption_awaits_community() {
    let states = vec![
        state("adoption", "awaiting_community"),
        state("reliability", "neutral_default"),
    ];
    assert_eq!(derive_proof_tier(&states), ProofTier::CorpusOnly);
    assert_eq!(derive_proof_tier(&[]), ProofTier::CorpusOnly);
    assert_eq!(proof_tier_str(ProofTier::CorpusOnly), "corpus_only");
}

#[test]
fn proof_tier_uses_first_state_of_each_key() {
    let states = vec![
        state("adoption", "measured"),
        state("adoption", "awaiting_community"),
        state("reliability", "measured"),
    ];
    assert_eq!(derive_proof_tier(&states), ProofTier::CommunityBacked);
}

fn user_with(tier: ReputationTier) -> UserReputation {
    UserReputation {
        user_id: 7,
        tier,
        account_age_days: 10,
        passive_signal_count: 6,
        resolve_count: 2,
        re_resolve_count: 1,
        build_success_count: 4,
        build_failure_count: 3,
        regret_count: 5,
    }
}

#[test]
fn positive_outcomes_count_resolves_and_successful_builds() {
    let r = user_with(ReputationTier::Trusted);
    assert_eq!(r.positive_outcome_count(), 7);
    assert_eq!(r.usage_signal_count(), 15);
    assert!(r.meets_activity_requirements());
}

#[test]
fn strict_review_for_low_tiers_only() {
    assert!(user_with(ReputationTier::Unproven).requires_strict_active_review());
    assert!(user_with(ReputationTier::Emerging).requires_strict_active_review());
    assert!(!user_with(ReputationTier::Trusted).requires_strict_active_review());
    assert!(!user_with(ReputationTier::Core).requires_strict_active_review());
}

#[test]
fn search_document_joins_present_parts() {
    let topics = vec!["cli".to_string(), "parser".to_string()];
    let doc = build_search_document("acme", "tool", Some("  A tool  "), Some(" Rust "), &topics);
    assert_eq!(doc, "passage: acme/tool | A tool | language: Rust | topics: cli, parser");
}

#[test]
fn search_document_skips_blank_parts() {
    let doc = build_search_document("acme", "tool", Some("   "), None, &[]);
    assert_eq!(doc, "passage: acme/tool");
}

const NOW: i64 = 1_750_000_000;

fn full_vitality() -> VitalityInputs {
    VitalityInputs {
        structural_signals_at: Some(NOW - 60),
        distinct_contributors_90d: Some(64),
        commits_30d: Some(246),
        has_ci: Some(true),
        releases_count: Some(120),
        last_release_at: Some(NOW - 3_600),
    }
}

fn input_with(resolve_count: i32, builds: i32, vitality: VitalityInputs) -> DimensionStateInput {
    DimensionStateInput {
        freshness_positive: true,
        quality: Some(QualityCounts {
            resolve_count,
            build_success_count: builds,
            build_failure_count: 0,
            computed_at: NOW - 10,
        }),
        vitality,
        reliability_min_builds: 5,
        reliability_min_sample_shown: 5,
        now: NOW,
    }
}

#[test]
fn ffmpeg_like_adoption_awaits_community() {
    let states = build_dimension_states(&input_with(0, 0, full_vitality()));
    let adoption = states.iter().find(|s| s.key == "adoption").unwrap();
    assert_eq!(adoption.display_state, "awaiting_community");
    assert_eq!(adoption.value, DimensionValue::Zero);
    assert_eq!(derive_proof_tier(&states), ProofTier::CorpusOnly);
}

#[test]
fn dimension_states_come_in_display_order() {
    let states = build_dimension_states(&input_with(3, 1, full_vitality()));
    let keys: Vec<&str> = states.iter().map(|s| s.key.as_str()).collect();
    assert_eq!(keys, vec!["freshness", "adoption", "reliability", "abandonment", "vitality"]);
    assert_eq!(states[0].as_of, NOW - 60);
    assert_eq!(states[1].display_state, "growing");
    assert_eq!(states[1].confidence, "medium");
    assert_eq!(states[1].summary, "Based on 3 recorded resolve signal(s) from UseStakly usage.");
    assert_eq!(states[2].display_state, "neutral_default");
    assert_eq!(
        states[2].summary,
        "Fewer than 5 build outcomes recorded; reliability uses the neutral default."
    );
    assert_eq!(states[3].source, "formula_derived");
    assert_eq!(states[4].display_state, "measured");
    assert_eq!(derive_proof_tier(&states), ProofTier::UsageLimited);
}

#[test]
fn many_resolves_and_builds_make_a_community_backed_profile() {
    let states = build_dimension_states(&input_with(12, 6, full_vitality()));
    assert_eq!(states[1].display_state, "measured");
    assert_eq!(states[2].display_state, "measured");
    assert_eq!(derive_proof_tier(&states), ProofTier::CommunityBacked);
}

#[test]
fn vitality_lists_missing_structural_fields() {
    let mut vitality = full_vitality();
    vitality.commits_30d = None;
    vitality.has_ci = None;
    let states = build_dimension_states(&input_with(12, 6, vitality));
    assert_eq!(states[4].display_state, "partial");
    assert_eq!(states[4].summary, "Some structural fields are missing (commits, ci).");
}

#[test]
fn uncaptured_profile_has_no_freshness_and_no_vitality() {
    let input = DimensionStateInput {
        freshness_positive: false,
        quality: None,
        vitality: VitalityInputs::default(),
        reliability_min_builds: 5,
        reliability_min_sample_shown: 5,
        now: NOW,
    };
    let states = build_dimension_states(&input);
    assert_eq!(states[0].display_state, "missing_commit");
    assert_eq!(states[0].value, DimensionValue::Absent);
    assert_eq!(states[4].display_state, "not_captured");
    assert_eq!(states[4].value, DimensionValue::StoredVitality);
    assert_eq!(states[4].as_of, NOW);
}

#[test]
fn ingestion_status_reports_partial_and_stale_fields() {
    let mut vitality = full_vitality();
    vitality.has_ci = None;
    let status = build_ingestion_status(Some(NOW - 5), &vitality, 30, NOW);
    assert_eq!(status.partial_fields, vec!["has_ci".to_string()]);
    assert!(status.structural_stale);
    assert!(!status.structural_complete);

    let status = build_ingestion_status(None, &full_vitality(), 3_600, NOW);
    assert!(status.partial_fields.is_empty());
    assert!(!status.structural_stale);
    assert!(status.structural_complete);
}

#[test]
fn ingestion_status_without_structural_signals() {
    let status = build_ingestion_status(None, &VitalityInputs::default(), 3_600, NOW);
    assert_eq!(status.partial_fields, vec!["structural_signals".to_string()]);
    assert!(status.structural_stale);
    assert!(!status.structural_complete);
}

#[test]
fn active_signal_eligibility_requires_min_real_usage() {
    let rep = UserReputation {
        user_id: 42,
        tier: ReputationTier::Trusted,
        account_age_days: 30,
        passive_signal_count: 8,
        resolve_count: 1,
        re_resolve_count: 0,
        build_success_count: 1,
        build_failure_count: 0,
        regret_count: 0,
    };
    let score = 0.9;
    let eligible = score >= 0.45 && rep.meets_activity_requirements();

    assert!(!eligible);
}
