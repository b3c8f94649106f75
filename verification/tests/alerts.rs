use usestakly::alerts::{
    alert_repo_name, new_flag_events, watch_alert_email, watch_alert_message, AlertPayload,
    NotificationKind,
};
use usestakly::email_templates::EmailLocale;
use usestakly::use_case_watches::{
    detect_use_case_watch_events, event_target, last_notified_hours_ago, WatchEventDraft, WatchMatch,
};

fn payload(flag: Option<&str>, prev: f64, new: f64) -> AlertPayload {
    AlertPayload {
        flag: flag.map(str::to_string),
        previous_score: format!("{prev:.2}"),
        new_score: format!("{new:.2}"),
    }
}

#[test]
fn notification_channels_watch_alert_message_explains_score_drop() {
    let message = watch_alert_message("facebook/react", NotificationKind::ScoreDrop, &payload(None, 0.84, 0.68));

    assert_eq!(message.title, "facebook/react: score drop");
    assert!(message.content.contains("facebook/react"));
    assert!(message.description.contains("score-drop alert threshold"));
    assert_eq!(message.fields.len(), 2);
}

#[test]
fn message_watch_alert_message_explains_score_drop() {
    let message = watch_alert_message("facebook/react", NotificationKind::ScoreDrop, &payload(None, 0.84, 0.68));

    assert_eq!(message.title, "facebook/react: score drop");
    assert!(message.content.contains("facebook/react"));
    assert!(message.description.contains("score-drop alert threshold"));
    assert_eq!(message.fields.len(), 2);
    assert_eq!(message.fields[0].value, "0.84");
}

#[test]
fn flag_messages_name_the_flag_and_severity() {
    let m = watch_alert_message("o/r", NotificationKind::FlagSevere, &payload(Some("broken"), 0.0, 0.0));
    assert_eq!(m.title, "o/r: broken");
    assert_eq!(m.content, "UseStakly alert: o/r received flag `broken`.");
    assert_eq!(m.color, 15_115_908);
    let m = watch_alert_message("o/r", NotificationKind::UseCaseFlagAdded, &payload(None, 0.0, 0.0));
    assert_eq!(m.content, "UseStakly alert: o/r received flag `new flag` in a watched need.");
    assert_eq!(m.fields[0].name, "Flag");
    let m = watch_alert_message("o/r", NotificationKind::UseCaseBestCandidateChanged, &payload(None, 0.0, 0.0));
    assert!(m.fields.is_empty());
    assert_eq!(m.color, 8_900_331);
}

#[test]
fn alert_email_uses_message_title_and_link() {
    let email = watch_alert_email(
        EmailLocale::En,
        "o/<r>",
        Some("https://github.com/o/r"),
        NotificationKind::FlagAdded,
        &payload(Some("deprecated"), 0.0, 0.0),
    );
    assert_eq!(email.subject, "[UseStakly] o/<r>: deprecated");
    assert!(email.text.contains("Flag: deprecated"));
    assert!(email.html.contains("o/&lt;r&gt;: deprecated"));
    assert!(email.html.contains("Open repository"));
}

#[test]
fn only_new_flags_notify_and_severe_ones_are_marked() {
    let events = new_flag_events(
        &vec!["deprecated".to_string()],
        &vec!["deprecated".to_string(), "broken".to_string(), "unmaintained".to_string(), "security-issue".to_string()],
    );
    assert_eq!(
        events,
        vec![
            (NotificationKind::FlagSevere, "broken".to_string()),
            (NotificationKind::FlagAdded, "unmaintained".to_string()),
            (NotificationKind::FlagSevere, "security-issue".to_string()),
        ]
    );
    assert_eq!(alert_repo_name(Some("o".into()), Some("r".into()), 1), "o/r");
    assert_eq!(alert_repo_name(None, None, 1), "00000000-0000-0000-0000-000000000001");
}

// The scores of a match stay outside the library; a quality check becomes a
// quality drop when the current quality is at least 0.10 below.
#[derive(Debug, PartialEq)]
enum UseCaseWatchEvent {
    NewCandidate { artifact_id: u128 },
    BestCandidateChanged { previous_artifact_id: u128, current_artifact_id: u128 },
    QualityDrop { artifact_id: u128, previous_quality: f64, current_quality: f64 },
    FlagAdded { artifact_id: u128, flag: String },
}

struct Stored {
    artifact_id: u128,
    quality_score: Option<f64>,
    flags: Vec<String>,
}

fn stored(id: u128, _match_score: f64, quality: Option<f64>, flags: Vec<String>) -> Stored {
    Stored { artifact_id: id, quality_score: quality, flags }
}

fn detect(previous: &[Stored], current: &[Stored], hours: Option<i64>) -> Vec<UseCaseWatchEvent> {
    let keys = |v: &[Stored]| -> Vec<WatchMatch> {
        v.iter().map(|s| WatchMatch { artifact_id: s.artifact_id, flags: s.flags.clone() }).collect()
    };
    detect_use_case_watch_events(&keys(previous), &keys(current), hours)
        .into_iter()
        .filter_map(|d| match d {
            WatchEventDraft::NewCandidate { artifact_id } => Some(UseCaseWatchEvent::NewCandidate { artifact_id }),
            WatchEventDraft::BestCandidateChanged { previous_artifact_id, current_artifact_id } => {
                Some(UseCaseWatchEvent::BestCandidateChanged { previous_artifact_id, current_artifact_id })
            }
            WatchEventDraft::QualityCheck { artifact_id, previous_index, current_index } => {
                match (previous[previous_index].quality_score, current[current_index].quality_score) {
                    (Some(p), Some(c)) if c <= p - 0.10 => Some(UseCaseWatchEvent::QualityDrop {
                        artifact_id,
                        previous_quality: p,
                        current_quality: c,
                    }),
                    _ => None,
                }
            }
            WatchEventDraft::FlagAdded { artifact_id, flag } => Some(UseCaseWatchEvent::FlagAdded { artifact_id, flag }),
        })
        .collect()
}

#[test]
fn watch_event_detection_reports_new_candidate_and_best_change() {
    let previous = vec![stored(1, 0.91, Some(0.82), vec![]), stored(2, 0.80, Some(0.76), vec![])];
    let current = vec![stored(3, 0.94, Some(0.88), vec![]), stored(1, 0.91, Some(0.82), vec![])];

    let events = detect(&previous, &current, None);

    assert_eq!(
        events,
        vec![
            UseCaseWatchEvent::BestCandidateChanged { previous_artifact_id: 1, current_artifact_id: 3 },
            UseCaseWatchEvent::NewCandidate { artifact_id: 3 },
        ]
    );
}

#[test]
fn watch_event_detection_reports_quality_drop_and_new_flag() {
    let repo_id = 42;
    let previous = vec![stored(repo_id, 0.90, Some(0.86), vec!["deprecated".to_string()])];
    let current = vec![stored(
        repo_id,
        0.90,
        Some(0.73),
        vec!["deprecated".to_string(), "broken".to_string()],
    )];

    let events = detect(&previous, &current, None);

    assert_eq!(
        events,
        vec![
            UseCaseWatchEvent::QualityDrop { artifact_id: repo_id, previous_quality: 0.86, current_quality: 0.73 },
            UseCaseWatchEvent::FlagAdded { artifact_id: repo_id, flag: "broken".to_string() },
        ]
    );
}

#[test]
fn watch_event_detection_suppresses_events_after_recent_notification() {
    let previous = vec![stored(1, 0.90, Some(0.90), vec![])];
    let current = vec![stored(2, 0.95, Some(0.92), vec![])];

    let events = detect(&previous, &current, Some(23));

    assert!(events.is_empty());
}

#[test]
fn quality_checks_name_positions_in_both_lists() {
    let drafts = detect_use_case_watch_events(
        &[WatchMatch { artifact_id: 5, flags: vec![] }, WatchMatch { artifact_id: 6, flags: vec![] }],
        &[WatchMatch { artifact_id: 6, flags: vec![] }],
        Some(24),
    );
    assert_eq!(
        drafts,
        vec![
            WatchEventDraft::BestCandidateChanged { previous_artifact_id: 5, current_artifact_id: 6 },
            WatchEventDraft::QualityCheck { artifact_id: 6, previous_index: 1, current_index: 0 },
        ]
    );
}

#[test]
fn watch_events_notify_about_their_repository() {
    assert_eq!(
        event_target(&WatchEventDraft::NewCandidate { artifact_id: 3 }),
        (3, NotificationKind::UseCaseNewCandidate)
    );
    assert_eq!(
        event_target(&WatchEventDraft::BestCandidateChanged { previous_artifact_id: 1, current_artifact_id: 2 }),
        (2, NotificationKind::UseCaseBestCandidateChanged)
    );
    assert_eq!(
        event_target(&WatchEventDraft::QualityCheck { artifact_id: 4, previous_index: 0, current_index: 1 }),
        (4, NotificationKind::UseCaseQualityDrop)
    );
    assert_eq!(
        event_target(&WatchEventDraft::FlagAdded { artifact_id: 5, flag: "broken".to_string() }),
        (5, NotificationKind::UseCaseFlagAdded)
    );
}

#[test]
fn hours_since_last_notification_round_down_and_never_go_negative() {
    assert_eq!(last_notified_hours_ago(None, 1_000_000), None);
    assert_eq!(last_notified_hours_ago(Some(1_000_000 - 7_199), 1_000_000), Some(1));
    assert_eq!(last_notified_hours_ago(Some(1_000_000 - 7_200), 1_000_000), Some(2));
    assert_eq!(last_notified_hours_ago(Some(1_000_500), 1_000_000), Some(0));
}
