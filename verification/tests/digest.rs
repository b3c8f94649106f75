use chrono::{TimeZone, Utc};
use usestakly::account::{
    deleted_email_for, deleted_username_for, preferences_from_stored, preset_for_time,
    validate_preferences_update, validate_timezone, UpdateNotificationPreferences,
};
use usestakly::notification_digest::{
    digest_content, digest_email_sections, digest_time_for_preset, is_digest_due_now,
    parse_hhmm_minutes, push_unique, repo_name, DigestNotificationRow,
};

fn ts(y: i32, mo: u32, d: u32, h: u32, mi: u32) -> i64 {
    Utc.with_ymd_and_hms(y, mo, d, h, mi, 0).unwrap().timestamp()
}

#[test]
fn digest_preset_maps_to_local_time() {
    assert_eq!(digest_time_for_preset("morning").unwrap(), "08:00");
    assert_eq!(digest_time_for_preset("noon").unwrap(), "12:00");
    assert_eq!(digest_time_for_preset("evening").unwrap(), "18:00");
    assert_eq!(digest_time_for_preset("night").unwrap(), "21:00");
    assert!(digest_time_for_preset("custom").is_err());
}

#[test]
fn digest_window_matches_user_timezone() {
    let now = ts(2026, 5, 8, 6, 5);

    assert!(is_digest_due_now("08:00", "Europe/Paris", now, 30).unwrap());
    assert!(!is_digest_due_now("12:00", "Europe/Paris", now, 30).unwrap());
}

#[test]
fn validates_real_iana_timezone() {
    assert_eq!(validate_timezone("Europe/Paris").unwrap(), "Europe/Paris");
    assert!(validate_timezone("Paris").is_err());
}

#[test]
fn preset_times_are_compatible_with_digest_due_check() {
    let now = ts(2026, 5, 8, 10, 3);
    let noon = digest_time_for_preset("noon").unwrap();

    assert!(is_digest_due_now(noon, "Europe/Paris", now, 30).unwrap());
}

#[test]
fn builds_tombstone_email() {
    let user_id = uuid::Uuid::parse_str("019735da-1111-7222-8aaa-111111111111").unwrap();
    assert_eq!(
        deleted_email_for(user_id.as_u128()),
        "deleted+019735da-1111-7222-8aaa-111111111111@deleted.usestakly.local"
    );
}

#[test]
fn builds_unique_tombstone_username() {
    let user_id = uuid::Uuid::parse_str("019735da-1111-7222-8aaa-111111111111").unwrap();
    assert_eq!(
        deleted_username_for(user_id.as_u128()),
        "deleted-user-019735da111172228aaa111111111111"
    );
}

#[test]
fn digest_time_parsing_edges() {
    assert_eq!(parse_hhmm_minutes("08:30").unwrap(), 510);
    assert_eq!(parse_hhmm_minutes("+8:05").unwrap(), 485);
    assert_eq!(parse_hhmm_minutes("-0:00").unwrap(), 0);
    assert_eq!(parse_hhmm_minutes("23:59").unwrap(), 1439);
    for bad in ["24:00", "12:60", "1200", "12:", ":30", "12:30:00", " 8:00", "aa:bb", "99999999999999999999:00"] {
        let err = parse_hhmm_minutes(bad).unwrap_err();
        assert_eq!(err.status, 400);
        assert_eq!(err.message, "invalid digest time");
    }
}

#[test]
fn due_check_reports_time_before_zone_errors() {
    let now = ts(2026, 1, 1, 12, 0);
    assert_eq!(is_digest_due_now("25:00", "Nowhere/City", now, 30).unwrap_err().message, "invalid digest time");
    assert_eq!(is_digest_due_now("12:00", "Nowhere/City", now, 30).unwrap_err().message, "invalid timezone");
    assert!(is_digest_due_now("12:00", "UTC", now, 1).unwrap());
    assert!(!is_digest_due_now("12:00", "UTC", now, 0).unwrap());
    assert!(!is_digest_due_now("12:01", "UTC", now, 30).unwrap());
}

#[test]
fn preferences_round_trip_through_presets() {
    for preset in ["morning", "noon", "evening", "night"] {
        let time = digest_time_for_preset(preset).unwrap();
        assert_eq!(preset_for_time(time), preset);
    }
    assert_eq!(preset_for_time("07:00"), "morning");
    let shown = preferences_from_stored("18:00".to_string(), "UTC".to_string());
    assert_eq!(shown.digest_time_preset, "evening");
    let ok = validate_preferences_update(&UpdateNotificationPreferences {
        digest_time_preset: "night".into(),
        timezone: "  America/New_York ".into(),
    })
    .unwrap();
    assert_eq!(ok, ("21:00".to_string(), "America/New_York".to_string()));
    let err = validate_preferences_update(&UpdateNotificationPreferences {
        digest_time_preset: "later".into(),
        timezone: "nowhere".into(),
    })
    .unwrap_err();
    assert_eq!(err.message, "invalid digest time preset");
}

#[test]
fn digest_content_groups_and_deduplicates() {
    let row = |owner: Option<&str>, name: Option<&str>, kind: &str| DigestNotificationRow {
        owner: owner.map(str::to_string),
        name: name.map(str::to_string),
        kind: kind.to_string(),
    };
    let content = digest_content(
        &[
            row(Some("a"), Some("x"), "score_drop"),
            row(Some("a"), Some("x"), "score_drop"),
            row(None, Some("y"), "flag_severe"),
            row(None, None, "flag_added"),
            row(Some("b"), Some("z"), "abandonment_up"),
            row(Some("c"), Some("w"), "something_else"),
        ],
        &[(Some("r".to_string()), Some("s".to_string()))],
    );
    assert_eq!(content.score_drops, vec!["a/x"]);
    assert_eq!(content.new_flags, vec!["y", "unknown repo"]);
    assert_eq!(content.abandonment_up, vec!["b/z"]);
    assert_eq!(content.radar_candidates, vec!["r/s"]);
    assert!(!content.is_empty());
    let sections = digest_email_sections(&content);
    let titles: Vec<&str> = sections.iter().map(|s| s.title.as_str()).collect();
    assert_eq!(titles, vec!["Repos to watch", "Scores down", "New flags", "New radar candidates"]);

    let empty = digest_content(&[], &[]);
    assert!(empty.is_empty());
    assert!(digest_email_sections(&empty).is_empty());
}

#[test]
fn repo_names_and_unique_push() {
    assert_eq!(repo_name(Some("o".into()), Some("n".into())), "o/n");
    assert_eq!(repo_name(Some("o".into()), None), "unknown repo");
    let mut items = vec!["a".to_string()];
    push_unique(&mut items, "a".to_string());
    push_unique(&mut items, "b".to_string());
    assert_eq!(items, vec!["a", "b"]);
}

#[test]
fn digest_check_handles_the_ends_of_chronos_range() {
    // 23:59:59 UTC on the last day chrono represents, and 00:00:00 UTC on the first.
    assert!(is_digest_due_now("23:45", "UTC", 8_210_266_876_799, 30).unwrap());
    assert!(!is_digest_due_now("23:45", "UTC", -8_334_601_228_800, 30).unwrap());
    assert!(is_digest_due_now("00:00", "UTC", -8_334_601_228_800, 30).unwrap());
    assert!(is_digest_due_now("08:00", "Asia/Tokyo", 8_210_266_876_799, 30).is_ok());
}
