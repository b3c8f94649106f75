use usestakly::email_templates::{
    escape_attr, escape_html, render_digest_email, render_test_email, render_watch_alert_email,
    EmailField, EmailLocale, EmailSection,
};

#[test]
fn test_channel_email_has_branded_html_and_plain_fallback() {
    let email = render_test_email(EmailLocale::En);

    assert_eq!(email.subject, "UseStakly notification channel connected");
    assert!(email.text.contains("UseStakly can now send critical watch alerts"));
    assert!(email.html.contains("UseStakly"));
    assert!(email.html.contains("#08090b"));
    assert!(email.html.contains("#111216"));
    assert!(email.html.contains("#1d1f25"));
    assert!(email.html.contains("#b6ff3c"));
    assert!(email
        .html
        .contains("https://usestakly.com/usestackly-logo-white-lime.png"));
    assert!(email.html.contains("alt=\"UseStakly\""));
    assert!(email.html.contains("<html lang=\"en\">"));
    assert!(email.html.contains("translate=\"no\""));
    assert!(email.html.contains("class=\"notranslate\""));
    assert!(email.html.contains("public beta"));
}

#[test]
fn test_channel_email_can_render_in_french() {
    let email = render_test_email(EmailLocale::Fr);

    assert_eq!(email.subject, "Canal de notification UseStakly connecté");
    assert!(email.text.contains("alertes de veille critiques"));
    assert!(email.html.contains("<html lang=\"fr\">"));
    assert!(email.html.contains("Canal de notification connecté"));
    assert!(email.html.contains("Beta publique UseStakly"));
}

#[test]
fn watch_alert_email_keeps_repo_link_fields_and_escapes_html() {
    let email = render_watch_alert_email(
        EmailLocale::En,
        "[UseStakly] owner/repo: score drop",
        "owner/<repo>: score drop",
        "UseStakly alert: owner/<repo> quality score dropped.",
        "A watched repository crossed the score-drop alert threshold.",
        Some("https://github.com/owner/repo"),
        &[EmailField {
            name: "New <score>".to_string(),
            value: "0.42 & falling".to_string(),
        }],
    );

    assert!(email.text.contains("Repository: https://github.com/owner/repo"));
    assert!(email.text.contains("New <score>: 0.42 & falling"));
    assert!(email.html.contains("owner/&lt;repo&gt;"));
    assert!(email.html.contains("New &lt;score&gt;"));
    assert!(email.html.contains("0.42 &amp; falling"));
    assert!(email.html.contains("Open repository"));
}

#[test]
fn digest_email_groups_sections_in_text_and_html() {
    let email = render_digest_email(
        EmailLocale::En,
        &[
            EmailSection {
                title: "Repos to watch".to_string(),
                items: vec!["owner/a".to_string(), "owner/b".to_string()],
            },
            EmailSection {
                title: "New flags".to_string(),
                items: vec!["owner/c".to_string()],
            },
        ],
    );

    assert_eq!(email.subject, "UseStakly daily watch digest");
    assert!(email.text.contains("Repos to watch\nowner/a\nowner/b"));
    assert!(email.text.contains("New flags\nowner/c"));
    assert!(email.html.contains("Daily watch digest"));
    assert!(email.html.contains("Repos to watch"));
    assert!(email.html.contains("owner/a\nowner/b"));
}

#[test]
fn digest_skips_empty_sections_and_keeps_five_items() {
    let items: Vec<String> = (1..=7).map(|i| format!("owner/r{i}")).collect();
    let email = render_digest_email(
        EmailLocale::Fr,
        &[
            EmailSection { title: "Empty".to_string(), items: vec![] },
            EmailSection { title: "Many".to_string(), items },
        ],
    );
    assert_eq!(email.subject, "Résumé quotidien de veille UseStakly");
    assert_eq!(
        email.text,
        "Résumé quotidien de veille UseStakly.\n\nMany\nowner/r1\nowner/r2\nowner/r3\nowner/r4\nowner/r5"
    );
    assert!(!email.html.contains("Empty"));
    assert!(!email.html.contains("owner/r6"));
    assert!(email.html.contains("<html lang=\"fr\">"));
}

#[test]
fn watch_alert_text_skips_blank_fields_and_has_no_button_without_link() {
    let email = render_watch_alert_email(
        EmailLocale::Fr,
        "s",
        "t",
        "intro",
        "desc",
        None,
        &[
            EmailField { name: "Empty".to_string(), value: String::new() },
            EmailField { name: "Flag".to_string(), value: "broken".to_string() },
        ],
    );
    assert_eq!(email.text, "intro\n\ndesc\n\nFlag: broken");
    assert!(!email.html.contains("Open repository"));
    assert!(!email.html.contains("Empty"));
    assert!(email.html.contains("Alerte de veille"));
}

#[test]
fn preview_line_is_the_first_line_of_the_text() {
    let email = render_watch_alert_email(EmailLocale::En, "subj", "t", "first\r", "second", None, &[]);
    assert!(email.html.contains("class=\"notranslate\">first</div>"));
    let email = render_watch_alert_email(EmailLocale::En, "subj", "t", "", "", None, &[]);
    assert!(email.html.contains("class=\"notranslate\"></div>"));
}

#[test]
fn escaping_covers_markup_and_quotes() {
    assert_eq!(escape_html("<a href=\"x\">&</a>"), "&lt;a href=&quot;x&quot;&gt;&amp;&lt;/a&gt;");
    assert_eq!(escape_html("it's"), "it's");
    assert_eq!(escape_attr("it's <b>"), "it&#39;s &lt;b&gt;");
}

#[test]
fn locale_from_headers() {
    assert_eq!(EmailLocale::parse_lossy("FR"), EmailLocale::Fr);
    assert_eq!(EmailLocale::parse_lossy("fr-FR"), EmailLocale::En);
    assert_eq!(EmailLocale::parse_lossy("en"), EmailLocale::En);
    assert_eq!(EmailLocale::from_accept_language(None), EmailLocale::En);
    assert_eq!(EmailLocale::from_accept_language(Some("en-US, Fr-CA;q=0.8")), EmailLocale::Fr);
    assert_eq!(EmailLocale::from_accept_language(Some("en-US,en;q=0.9")), EmailLocale::En);
    assert_eq!(EmailLocale::from_accept_language(Some("f r")), EmailLocale::En);
    assert_eq!(EmailLocale::Fr.code(), "fr");
}
