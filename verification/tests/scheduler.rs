use usestakly::scheduler::{build_refresh_targets, dedupe_refresh_targets};

#[test]
fn build_refresh_targets_prioritizes_watchlist() {
    let targets = build_refresh_targets(
        vec![
            ("eslint".to_string(), "eslint".to_string()),
            ("vitejs".to_string(), "vite".to_string()),
        ],
        vec![
            ("facebook".to_string(), "react".to_string()),
            ("expressjs".to_string(), "express".to_string()),
        ],
        3,
    );

    assert_eq!(
        targets,
        vec![
            ("eslint".to_string(), "eslint".to_string()),
            ("vitejs".to_string(), "vite".to_string()),
            ("facebook".to_string(), "react".to_string()),
        ]
    );
}

#[test]
fn build_refresh_targets_keeps_all_watched_when_over_cap() {
    let watched: Vec<_> = (0..5)
        .map(|i| (format!("owner{i}"), format!("repo{i}")))
        .collect();
    let targets = build_refresh_targets(watched.clone(), vec![("x".into(), "y".into())], 3);
    assert_eq!(targets, watched);
}

#[test]
fn dedupe_refresh_targets_preserves_first_seen_order() {
    let targets = dedupe_refresh_targets(vec![
        ("facebook".to_string(), "react".to_string()),
        ("vercel".to_string(), "next.js".to_string()),
        ("Facebook".to_string(), "React".to_string()),
    ]);

    assert_eq!(
        targets,
        vec![
            ("facebook".to_string(), "react".to_string()),
            ("vercel".to_string(), "next.js".to_string()),
        ]
    );
}

#[test]
fn stale_corpus_already_watched_is_not_refreshed_twice() {
    let targets = build_refresh_targets(
        vec![("facebook".to_string(), "react".to_string())],
        vec![
            ("FACEBOOK".to_string(), "React".to_string()),
            ("vuejs".to_string(), "core".to_string()),
        ],
        5,
    );
    assert_eq!(
        targets,
        vec![
            ("facebook".to_string(), "react".to_string()),
            ("vuejs".to_string(), "core".to_string()),
        ]
    );
}

#[test]
fn dedupe_is_idempotent_on_concrete_values() {
    let once = dedupe_refresh_targets(vec![
        ("a".to_string(), "b".to_string()),
        ("A".to_string(), "B".to_string()),
        ("c".to_string(), "d".to_string()),
    ]);
    let twice = dedupe_refresh_targets(once.clone());
    assert_eq!(once, twice);
}
