use usestakly::weighting::{raw_counts, weigh_signals, RawCounts, SignalObservation};

fn obs(id: u128, artifact: u128, outcome: &str, actor: Option<u128>, t: i64) -> SignalObservation {
    SignalObservation {
        signal_id: id,
        external_artifact_id: artifact,
        outcome: outcome.to_string(),
        actor_user_id: actor,
        created_at: t,
    }
}

#[test]
fn repeated_reports_from_one_user_count_up() {
    let signals: Vec<SignalObservation> =
        (0..20).map(|i| obs(i, 1, "resolve", Some(7), i as i64)).collect();
    let w = weigh_signals(&signals);
    let n_prev: Vec<u32> = w.iter().map(|x| x.n_prev).collect();
    assert_eq!(n_prev, (0..20).collect::<Vec<u32>>());
    assert!(w.iter().all(|x| x.bucket == Some("resolve")));
    assert_eq!(raw_counts(&signals).resolve, 20);
}

#[test]
fn dedup_is_per_artifact_reporter_and_outcome() {
    let signals = vec![
        obs(1, 1, "resolve", Some(7), 0),
        obs(2, 1, "resolve", Some(8), 1),
        obs(3, 2, "resolve", Some(7), 2),
        obs(4, 1, "re_resolve", Some(7), 3),
        obs(5, 1, "resolve", Some(7), 4),
        obs(6, 1, "resolve", None, 5),
        obs(7, 1, "resolve", Some(0), 6),
    ];
    let n_prev: Vec<u32> = weigh_signals(&signals).iter().map(|x| x.n_prev).collect();
    assert_eq!(n_prev, vec![0, 0, 0, 0, 1, 0, 1]);
}

#[test]
fn re_resolves_count_as_resolves_and_unknown_outcomes_nowhere() {
    let signals = vec![
        obs(1, 1, "re_resolve", Some(7), 0),
        obs(2, 1, "resolve", Some(8), 1),
        obs(3, 1, "build_success", Some(8), 2),
        obs(4, 1, "build_failure", Some(8), 3),
        obs(5, 1, "regret", Some(8), 4),
        obs(6, 1, "shrug", Some(8), 5),
    ];
    let w = weigh_signals(&signals);
    assert_eq!(w[0].bucket, Some("resolve"));
    assert_eq!(w[5].bucket, None);
    assert_eq!(
        raw_counts(&signals),
        RawCounts { resolve: 2, build_success: 1, build_failure: 1, regret: 1 }
    );
}
