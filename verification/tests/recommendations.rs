use usestakly::recommendations::{
    build_candidate_query, build_reason, category_hits, lexical_hits, recommendation_gate,
    recommendation_limit, ecosystem_matches, fallback_candidates_for,
    matched_topics, matches_term, normalize_risk_tolerance, parse_intent, requires_category_match,
    risk_allowed_for_tolerance, IntentConfidence, RepoTerms, UseCaseIntent,
};

fn repo(owner: &str, name: &str, description: &str, topics: &[&str]) -> RepoTerms {
    RepoTerms {
        owner: owner.to_string(),
        name: name.to_string(),
        description: Some(description.to_string()),
        language: Some("TypeScript".to_string()),
        topics: topics.iter().map(|t| t.to_string()).collect(),
        categories: Vec::new(),
    }
}

#[test]
fn detects_typescript_orm_intent() {
    let intent = parse_intent("Je cherche un ORM TypeScript fiable");

    assert_eq!(intent.label, "ORM TypeScript");
    assert_eq!(intent.confidence, IntentConfidence::High);
    assert!(intent.categories.contains(&"orm".to_string()));
    assert!(intent.topics.contains(&"orm".to_string()));
    assert!(intent.topics.contains(&"typescript".to_string()));
    assert!(intent.languages.contains(&"TypeScript".to_string()));
}

#[test]
fn detects_education_video_intent() {
    let intent = parse_intent("outil pour faire des videos de formation");

    assert_eq!(intent.label, "Creation video pedagogique");
    assert!(intent.categories.contains(&"video-creation".to_string()));
    assert!(intent.categories.contains(&"education".to_string()));
    assert!(intent.topics.contains(&"video".to_string()));
    assert!(intent.topics.contains(&"recording".to_string()));
}

#[test]
fn detects_ui_kit_intent_from_short_tool_name() {
    let intent = parse_intent("Kit UI");

    assert_eq!(intent.label, "Kit UI / composants");
    assert_eq!(intent.confidence, IntentConfidence::High);
    assert!(intent.categories.contains(&"ui".to_string()));
    assert!(intent.categories.contains(&"components".to_string()));
    assert!(intent.topics.contains(&"components".to_string()));
}

#[test]
fn detects_testing_intent_from_general_tool_need() {
    let intent = parse_intent("outil de test JavaScript");

    assert_eq!(intent.label, "Testing");
    assert_eq!(intent.confidence, IntentConfidence::High);
    assert!(intent.categories.contains(&"testing".to_string()));
    assert!(intent.topics.contains(&"test".to_string()));
    assert!(intent.topics.contains(&"testing".to_string()));
}

#[test]
fn candidate_query_uses_primary_topic_for_detected_intent() {
    let intent = parse_intent("outil video formation");

    assert_eq!(build_candidate_query("outil video formation", &intent), "video");
}

#[test]
fn candidate_query_skips_short_topics_for_ui_intents() {
    let intent = parse_intent("Kit UI");

    assert_eq!(build_candidate_query("Kit UI", &intent), "components");
}

#[test]
fn term_match_does_not_treat_platform_as_orm() {
    let repo = RepoTerms {
        owner: "supabase".to_string(),
        name: "supabase".to_string(),
        description: Some("The Postgres development platform".to_string()),
        language: Some("TypeScript".to_string()),
        topics: vec!["database".to_string(), "postgresql".to_string()],
        categories: Vec::new(),
    };

    assert!(!matches_term(&repo, "orm"));
    assert!(matches_term(&repo, "database"));
}

#[test]
fn unmatched_query_falls_back_to_long_words_with_low_confidence() {
    let intent = parse_intent("  rust  async runtime ab  ");
    assert_eq!(intent.label, "Recherche OSS");
    assert_eq!(intent.confidence, IntentConfidence::Low);
    assert!(intent.categories.is_empty());
    assert!(intent.languages.is_empty());
    assert_eq!(intent.topics, vec!["rust", "async", "runtime"]);
    assert_eq!(build_candidate_query("  rust  ", &intent), "rust");
}

#[test]
fn typescript_only_query_has_medium_confidence_and_dedups_topics() {
    let intent = parse_intent("node typescript");
    assert_eq!(intent.confidence, IntentConfidence::Medium);
    assert_eq!(intent.topics, vec!["typescript"]);
    assert_eq!(intent.languages, vec!["TypeScript"]);
    assert_eq!(intent.label, "Recherche OSS");
}

#[test]
fn accents_are_folded_before_matching() {
    let intent = parse_intent("Vidéo de FORMATION");
    assert_eq!(intent.label, "Creation video pedagogique");
}

#[test]
fn risk_tolerance_normalizes_and_gates() {
    assert_eq!(normalize_risk_tolerance(" LOW "), "low");
    assert_eq!(normalize_risk_tolerance("High"), "high");
    assert_eq!(normalize_risk_tolerance("whatever"), "medium");
    assert!(risk_allowed_for_tolerance("low", "low"));
    assert!(!risk_allowed_for_tolerance("medium", "low"));
    assert!(risk_allowed_for_tolerance("high", "high"));
    assert!(!risk_allowed_for_tolerance("high", "medium"));
    assert!(risk_allowed_for_tolerance("medium", "unknown"));
}

#[test]
fn category_gates_and_fallbacks_follow_the_intent() {
    let orm = parse_intent("Je cherche un ORM TypeScript fiable");
    assert!(!requires_category_match(&orm));
    assert_eq!(fallback_candidates_for(&orm)[0], "prisma/prisma");
    let testing = parse_intent("outil de test JavaScript");
    assert!(requires_category_match(&testing));
    assert_eq!(fallback_candidates_for(&testing).len(), 5);
    let video = parse_intent("videos");
    assert_eq!(fallback_candidates_for(&video)[0], "remotion-dev/remotion");
    let none = UseCaseIntent {
        label: "x".to_string(),
        confidence: IntentConfidence::Low,
        categories: vec![],
        topics: vec![],
        languages: vec![],
    };
    assert!(fallback_candidates_for(&none).is_empty());
}

#[test]
fn matching_counts_topics_categories_and_language() {
    let intent = parse_intent("Je cherche un ORM TypeScript fiable");
    let mut r = repo("example", "tool", "A TypeScript ORM for database applications", &["orm", "typescript", "database"]);
    assert_eq!(matched_topics(&r, &intent), vec!["orm", "database", "typescript"]);
    r.categories = vec!["ORM".to_string()];
    assert_eq!(category_hits(&r, &intent), 1);
    assert!(ecosystem_matches(&r, &intent));
    r.language = None;
    assert!(!ecosystem_matches(&r, &intent));
}

#[test]
fn clear_testing_intent_rejects_unrelated_javascript_repos() {
    let intent = parse_intent("outil de test JavaScript");
    let mut r = repo(
        "remotion-dev",
        "remotion",
        "Make videos programmatically with React",
        &["javascript", "react", "video"],
    );
    r.categories = vec!["video-tool".to_string()];

    assert!(!recommendation_gate(false, &Vec::new(), &r, &intent));
}

#[test]
fn orm_intent_needs_an_orm_repository() {
    let intent = parse_intent("Je cherche un ORM TypeScript fiable");
    let orm = repo("example", "tool", "A TypeScript ORM for database applications", &["orm", "typescript", "database"]);
    assert!(recommendation_gate(false, &Vec::new(), &orm, &intent));
    assert!(!recommendation_gate(true, &Vec::new(), &orm, &intent));
    assert!(!recommendation_gate(false, &vec!["broken".to_string()], &orm, &intent));
    let platform = repo("supabase", "supabase", "The Postgres development platform", &["database"]);
    assert!(!recommendation_gate(false, &Vec::new(), &platform, &intent));
}

#[test]
fn lexical_hits_count_long_label_words_and_categories() {
    let intent = parse_intent("Je cherche un ORM TypeScript fiable");
    let r = repo("example", "tool", "A TypeScript ORM for database applications", &["orm", "typescript", "database"]);
    let m = lexical_hits(&r, &intent);
    // label "ORM TypeScript" gives "orm", "typescript"; the categories follow.
    assert_eq!(m.tokens, 2 + intent.categories.iter().filter(|c| c.len() >= 3).count());
    assert_eq!(m.hits, m.tokens);
}

#[test]
fn lexical_hits_skip_short_words() {
    let mut intent = parse_intent("Kit UI");
    intent.label = "ui db".to_string();
    intent.categories = vec!["ui".to_string(), "grid".to_string()];
    let r = repo("acme", "grid", "a grid", &[]);
    let m = lexical_hits(&r, &intent);
    assert_eq!(m.tokens, 1);
    assert_eq!(m.hits, 1);
}

#[test]
fn reason_names_matched_topics_or_lexical_match() {
    let topics = vec!["orm".to_string(), "typescript".to_string()];
    assert_eq!(
        build_reason("example/tool", "ORM TypeScript", &topics, "0.820", "0.050"),
        "example/tool est propose pour \"ORM TypeScript\" car il matche orm, typescript, avec un score qualite 0.820 et un risque d'abandon 0.050."
    );
    assert_eq!(
        build_reason("a/b", "Testing", &Vec::new(), "0.500", "0.100"),
        "a/b est propose pour \"Testing\" car il correspond lexicalement au besoin, avec un score qualite 0.500 et un risque d'abandon 0.100."
    );
}

#[test]
fn reports_keep_between_one_and_twenty_recommendations() {
    assert_eq!(recommendation_limit(0), 1);
    assert_eq!(recommendation_limit(-5), 1);
    assert_eq!(recommendation_limit(8), 8);
    assert_eq!(recommendation_limit(80), 20);
}
