use usestakly::recommendations::{parse_intent, IntentConfidence, UseCaseIntent};
use usestakly::use_case_watches::default_watch_label;

#[test]
fn default_label_uses_detected_intent() {
    let intent = UseCaseIntent {
        label: "ORM TypeScript".to_string(),
        confidence: IntentConfidence::High,
        categories: vec![],
        topics: vec![],
        languages: vec![],
    };

    assert_eq!(default_watch_label(&intent), "Veille ORM TypeScript");
}

#[test]
fn default_label_for_generic_search() {
    let intent = parse_intent("zzzz");
    assert_eq!(intent.label, "Recherche OSS");
    assert_eq!(default_watch_label(&intent), "Veille OSS");
}
