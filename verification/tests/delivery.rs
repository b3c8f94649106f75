use usestakly::crypto::encrypt_webhook_url;
use usestakly::delivery::{alert_route, digest_route, test_route, AlertRoute, DigestRoute, TestRoute};
use usestakly::repo_categories::{matched_terms, normalize_text, normalized_haystack, rule_hits};

const SECRET: &str = "test-session-secret-long-enough";

#[test]
fn digest_routes_follow_the_channel() {
    let c = encrypt_webhook_url(SECRET, "https://discord.com/api/webhooks/1/t").unwrap();
    match digest_route("discord_webhook", "masked", Some(SECRET), Some(&c)) {
        DigestRoute::Discord { webhook_url } => assert_eq!(webhook_url, "https://discord.com/api/webhooks/1/t"),
        other => panic!("{other:?}"),
    }
    assert!(matches!(digest_route("email", "a@b.c", None, None), DigestRoute::Email { ref to } if to == "a@b.c"));
    let fail = |r: DigestRoute| match r {
        DigestRoute::Fail { message } => message,
        other => panic!("{other:?}"),
    };
    assert_eq!(fail(digest_route("discord_webhook", "m", None, Some(&c))), "APP_NOTIFICATION_SECRET missing");
    assert_eq!(fail(digest_route("discord_webhook", "m", Some(SECRET), None)), "missing webhook secret");
    assert_eq!(fail(digest_route("discord_webhook", "m", Some(SECRET), Some("%%"))), "failed to decrypt webhook URL: invalid base64");
    assert_eq!(fail(digest_route("sms", "m", Some(SECRET), None)), "unknown notification channel type");
}

#[test]
fn alert_and_test_routes() {
    let c = encrypt_webhook_url(SECRET, "https://discord.com/api/webhooks/2/u").unwrap();
    assert!(matches!(alert_route("discord_webhook".into(), "m", SECRET, None).unwrap(), AlertRoute::Skip));
    assert!(matches!(
        alert_route("discord_webhook".into(), "m", SECRET, Some(&c)).unwrap(),
        AlertRoute::Discord { ref webhook_url } if webhook_url == "https://discord.com/api/webhooks/2/u"
    ));
    assert!(matches!(
        alert_route("discord_webhook".into(), "m", "wrong-secret-but-long", Some(&c)).unwrap(),
        AlertRoute::RecordError { ref message } if message == "failed to decrypt webhook URL: decrypt failed"
    ));
    assert_eq!(alert_route("fax".into(), "m", SECRET, None).unwrap_err().status, 500);
    assert!(matches!(test_route("email".into(), "x@y.z", SECRET, None).unwrap(), TestRoute::Email { ref to } if to == "x@y.z"));
    assert_eq!(test_route("discord_webhook".into(), "m", SECRET, None).unwrap_err().message, "missing webhook secret");
    assert_eq!(
        test_route("discord_webhook".into(), "m", SECRET, Some("AAAA")).unwrap_err().message,
        "failed to decrypt webhook URL"
    );
}

#[test]
fn category_text_and_term_matching() {
    assert_eq!(normalize_text("Data_Grid/Élégant"), "data-grid-Élegant");
    assert_eq!(normalize_text("ça"), "ca");
    let topics = vec!["orm".to_string(), "database".to_string()];
    let hay = normalized_haystack("prisma", "prisma", Some("Next-generation ORM for databases"), Some("TypeScript"), &topics);
    assert_eq!(hay, "prisma prisma next-generation orm for databases typescript orm database");
    assert_eq!(matched_terms(&["orm", "prisma", "gorm"], &hay, &topics), vec!["orm", "prisma"]);
    assert_eq!(matched_terms(&["query-builder", "next-generation"], &hay, &topics), vec!["next-generation"]);
}

#[test]
fn category_rules_need_enough_hits() {
    let topics = vec!["components".to_string(), "react".to_string(), "tailwind".to_string()];
    let hay = normalized_haystack("shadcn-ui", "ui", Some("Beautifully designed components"), Some("TypeScript"), &topics);
    let strong = ["component", "components", "design-system", "shadcn"];
    let medium = ["ui", "react", "tailwind", "css", "frontend"];
    let weak = ["kit", "interface"];
    let hits = rule_hits("ui-kit", &strong, &medium, &weak, &hay, &topics).expect("ui kit");
    assert_eq!(hits.strong, vec!["components", "shadcn"]);
    assert_eq!(hits.medium, vec!["ui", "react", "tailwind"]);
    assert!(rule_hits("ui-kit", &["nothing"], &medium, &weak, &hay, &topics).is_none());
    // One medium and one weak hit weigh exactly the threshold.
    let h = "database schema";
    assert!(rule_hits("orm", &["orm"], &["database"], &["schema"], h, &vec![]).is_some());
    assert!(rule_hits("orm", &["orm"], &["database"], &["nope"], h, &vec![]).is_none());
}
