use usestakly::formula::{bucket_for, formula_version_for_add, is_negative_outcome, FormulaMeta, SignalKind};
use usestakly::repo_explain::{
    auto_filter_summary_code, build_recommendation_explanation, ExplainContext, ExplainRepoInput,
    QualityFacts, SearchFilter,
};

// The service compares the quality scores with their thresholds.
fn quality(overall: f64, reliability: f64, abandonment: f64, flags: Vec<String>) -> QualityFacts {
    let freshness = 0.8;
    QualityFacts {
        overall_strong: overall >= 0.75,
        overall_moderate: overall >= 0.55,
        reliability_high: reliability >= 0.7,
        abandonment_low: abandonment <= 0.25,
        freshness_high: freshness >= 0.75,
        flags,
    }
}

fn context(filter: SearchFilter, query: Option<&str>, tokens: &[&str]) -> ExplainContext {
    ExplainContext {
        filter,
        query: query.map(str::to_string),
        query_tokens: tokens.iter().map(|t| t.to_string()).collect(),
        topics_filter: vec![],
    }
}

#[test]
fn auto_filter_adds_gate_code() {
    let lexical_score: Option<f64> = Some(0.7);
    let explanation = build_recommendation_explanation(&ExplainRepoInput {
        topics: vec!["react".to_string()],
        categories: vec![],
        archived: false,
        quality: Some(quality(0.82, 0.8, 0.1, vec![])),
        radar_band: None,
        lexical_strong: lexical_score.is_some_and(|s| s >= 0.5),
        context: context(SearchFilter::Auto, Some("react"), &["react"]),
    });
    assert!(explanation.included_because.contains(&"filter_auto_pass".to_string()));
    assert!(explanation.included_because.contains(&"quality_overall_strong".to_string()));
}

#[test]
fn flags_surface_as_caveats() {
    let explanation = build_recommendation_explanation(&ExplainRepoInput {
        topics: vec![],
        categories: vec![],
        archived: false,
        quality: Some(quality(0.7, 0.7, 0.2, vec!["deprecated".to_string()])),
        radar_band: None,
        lexical_strong: false,
        context: context(SearchFilter::Auto, None, &[]),
    });
    assert!(explanation.caveats.contains(&"flag_deprecated".to_string()));
}

#[test]
fn radar_emerging_code() {
    let explanation = build_recommendation_explanation(&ExplainRepoInput {
        topics: vec![],
        categories: vec![],
        archived: false,
        quality: None,
        radar_band: Some("emerging".to_string()),
        lexical_strong: false,
        context: context(SearchFilter::Explore, None, &[]),
    });
    assert!(explanation.included_because.contains(&"radar_emerging".to_string()));
}

#[test]
fn explanation_lists_each_reason_once_in_order() {
    let mut ctx = context(SearchFilter::Strict, Some("  vite  "), &["vite", "build"]);
    ctx.topics_filter = vec!["bundler".into()];
    let explanation = build_recommendation_explanation(&ExplainRepoInput {
        topics: vec!["Vite-Plugin".into()],
        categories: vec!["BUILD-tool".into()],
        archived: true,
        quality: Some(quality(0.6, 0.9, 0.5, vec!["unmaintained".into(), "abandoned".into(), "broken".into()])),
        radar_band: Some("stale".into()),
        lexical_strong: false,
        context: ctx,
    });
    assert_eq!(
        explanation.included_because,
        vec![
            "filter_strict_pass",
            "quality_overall_moderate",
            "reliability_high",
            "freshness_high",
            "lexical_match",
            "topic_match",
            "category_match",
            "radar_watch_band",
            "topics_filter_applied",
        ]
    );
    assert_eq!(explanation.caveats, vec!["flag_unmaintained", "flag_broken", "archived_repo"]);
    assert_eq!(auto_filter_summary_code(SearchFilter::Auto), Some("auto_hides_low_quality"));
    assert_eq!(auto_filter_summary_code(SearchFilter::Explore), None);
}

#[test]
fn unscored_repos_say_so() {
    let explanation = build_recommendation_explanation(&ExplainRepoInput {
        topics: vec![],
        categories: vec!["testing".into()],
        archived: false,
        quality: None,
        radar_band: Some("unknown".into()),
        lexical_strong: true,
        context: context(SearchFilter::Auto, Some(" "), &["test"]),
    });
    assert_eq!(explanation.included_because, vec!["filter_auto_pass", "category_match"]);
    assert_eq!(explanation.caveats, vec!["no_score_yet"]);
}

#[test]
fn formula_version_and_outcome_buckets() {
    let meta = FormulaMeta { version: "v2.0".into(), created: "2026-01-01".into() };
    assert_eq!(formula_version_for_add(Ok(meta)).unwrap(), "v2.0");
    let err = formula_version_for_add(Err("missing file".into())).unwrap_err();
    assert_eq!((err.status, err.message.as_str()), (500, "loading formula: missing file"));
    assert_eq!(bucket_for("re_resolve"), Some("resolve"));
    assert_eq!(bucket_for("regret"), Some("regret"));
    assert_eq!(bucket_for("other"), None);
    assert!(is_negative_outcome(SignalKind::ReResolve));
    assert!(!is_negative_outcome(SignalKind::BuildSuccess));
}

#[test]
fn outcome_names_are_the_logged_spellings() {
    assert_eq!(SignalKind::Resolve.as_str(), "resolve");
    assert_eq!(SignalKind::ReResolve.as_str(), "re_resolve");
    assert_eq!(SignalKind::BuildSuccess.as_str(), "build_success");
    assert_eq!(SignalKind::BuildFailure.as_str(), "build_failure");
    assert_eq!(SignalKind::Regret.as_str(), "regret");
    assert_eq!(bucket_for(SignalKind::ReResolve.as_str()), Some("resolve"));
}
