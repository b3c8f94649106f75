use usestakly::crypto::{decrypt_webhook_url, encrypt_webhook_url};
use usestakly::notification_channels::{
    channel_label, discord_webhook_mask, mask_discord_webhook_url, notification_email_verdict,
    plan_upsert, validate_discord_webhook_url, validate_notification_email, ChannelDestination,
    NotificationChannelType, UpsertNotificationChannel,
};

#[test]
fn notification_channels_notification_email_rejects_invalid_address() {
    assert!(validate_notification_email("dev@example.com").is_ok());
    assert!(validate_notification_email("not-an-email").is_err());
    assert!(validate_notification_email("dev@localhost").is_err());
}

#[test]
fn email_notification_email_rejects_invalid_address() {
    assert!(validate_notification_email("dev@example.com").is_ok());
    assert!(validate_notification_email("not-an-email").is_err());
    assert!(validate_notification_email("dev@localhost").is_err());
}

#[test]
fn notification_email_is_trimmed_and_lowercased() {
    assert_eq!(validate_notification_email("  Dev@Example.COM ").unwrap(), "dev@example.com");
    let err = validate_notification_email("x").unwrap_err();
    assert_eq!((err.status, err.message.as_str()), (400, "invalid email address"));
}

#[test]
fn email_verdict_needs_syntax_and_dotted_domain() {
    assert!(notification_email_verdict("a@b.c".into(), true).is_ok());
    assert!(notification_email_verdict("a@b.c".into(), false).is_err());
    assert!(notification_email_verdict("a@bc".into(), true).is_err());
    assert!(notification_email_verdict("a.b@c".into(), true).is_err());
}

#[test]
fn notification_channels_discord_webhook_accepts_only_discord_webhook_urls() {
    assert!(validate_discord_webhook_url(
        "https://discord.com/api/webhooks/123456789012345678/token-value"
    )
    .is_ok());
    assert!(validate_discord_webhook_url(
        "https://discordapp.com/api/webhooks/123456789012345678/token-value"
    )
    .is_ok());
    assert!(validate_discord_webhook_url("https://example.com/webhook").is_err());
}

#[test]
fn discord_discord_webhook_accepts_only_discord_webhook_urls() {
    assert!(validate_discord_webhook_url(
        "https://discord.com/api/webhooks/123456789012345678/token-value"
    )
    .is_ok());
    assert!(validate_discord_webhook_url(
        "https://discordapp.com/api/webhooks/123456789012345678/token-value"
    )
    .is_ok());
    assert!(validate_discord_webhook_url("https://example.com/webhook").is_err());
}

#[test]
fn notification_channels_discord_webhook_url_is_masked_without_leaking_secret() {
    let masked = mask_discord_webhook_url(
        "https://discord.com/api/webhooks/123456789012345678/abcdefghijklmnopqrstuvwxyz",
    );

    assert_eq!(masked, "discord webhook 123456789012345678/...wxyz");
}

#[test]
fn discord_discord_webhook_url_is_masked_without_leaking_secret() {
    let masked = mask_discord_webhook_url(
        "https://discord.com/api/webhooks/123456789012345678/abcdefghijklmnopqrstuvwxyz",
    );

    assert_eq!(masked, "discord webhook 123456789012345678/...wxyz");
}

#[test]
fn webhook_checks_report_each_reason() {
    let msg = |u: &str| validate_discord_webhook_url(u).unwrap_err().message;
    assert_eq!(msg("not a url"), "invalid webhook URL");
    assert_eq!(msg("http://discord.com/api/webhooks/1/t"), "webhook URL must use HTTPS");
    assert_eq!(msg("https://evil.com/api/webhooks/1/t"), "only Discord webhooks are supported");
    assert_eq!(msg("https://discord.com/api/webhooks/1/"), "invalid Discord webhook URL");
    assert_eq!(msg("https://discord.com/api/hooks/1/t"), "invalid Discord webhook URL");
    assert_eq!(
        validate_discord_webhook_url("  https://discord.com/api/webhooks/1/t  ").unwrap(),
        "https://discord.com/api/webhooks/1/t"
    );
}

#[test]
fn masks_short_or_odd_urls() {
    assert_eq!(mask_discord_webhook_url("nope"), "discord webhook ...");
    assert_eq!(mask_discord_webhook_url("https://discord.com/api"), "discord webhook unknown/...");
    assert_eq!(mask_discord_webhook_url("https://discord.com/api/webhooks/9/ab"), "discord webhook 9/...ab");
    assert_eq!(discord_webhook_mask(None), "discord webhook ...");
}

#[test]
fn notification_channels_webhook_url_roundtrips_through_encryption() {
    let secret = "test-session-secret-long-enough";
    let plaintext = "https://discord.com/api/webhooks/123456789012345678/abcdefghijklmnopqrstuvwxyz";

    let encrypted = encrypt_webhook_url(secret, plaintext).expect("encrypt");
    assert_ne!(encrypted, plaintext);
    assert!(!encrypted.contains("abcdefghijklmnopqrstuvwxyz"));

    let decrypted = decrypt_webhook_url(secret, &encrypted).expect("decrypt");
    assert_eq!(decrypted, plaintext);
}

#[test]
fn crypto_webhook_url_roundtrips_through_encryption() {
    let secret = "test-session-secret-long-enough";
    let plaintext = "https://discord.com/api/webhooks/123456789012345678/abcdefghijklmnopqrstuvwxyz";

    let encrypted = encrypt_webhook_url(secret, plaintext).expect("encrypt");
    assert_ne!(encrypted, plaintext);
    assert!(!encrypted.contains("abcdefghijklmnopqrstuvwxyz"));

    let decrypted = decrypt_webhook_url(secret, &encrypted).expect("decrypt");
    assert_eq!(decrypted, plaintext);
}

#[test]
fn decryption_failures_are_reported() {
    assert_eq!(encrypt_webhook_url("short", "x").unwrap_err(), "secret too short");
    assert_eq!(decrypt_webhook_url("test-session-secret-long-enough", "***").unwrap_err(), "invalid base64");
    assert_eq!(decrypt_webhook_url("test-session-secret-long-enough", "AAAA").unwrap_err(), "invalid ciphertext");
    let c = encrypt_webhook_url("test-session-secret-long-enough", "hello").unwrap();
    assert_eq!(decrypt_webhook_url("another-secret-long-enough!", &c).unwrap_err(), "decrypt failed");
    assert_eq!(decrypt_webhook_url("short", &c).unwrap_err(), "secret too short");
    let d = encrypt_webhook_url("test-session-secret-long-enough", "hello").unwrap();
    assert_ne!(c, d, "each encryption draws a fresh nonce");
}

#[test]
fn channel_kinds_and_labels() {
    assert_eq!(NotificationChannelType::Email.as_str(), "email");
    assert_eq!(NotificationChannelType::from_db("discord_webhook".into()).unwrap(), NotificationChannelType::DiscordWebhook);
    assert_eq!(NotificationChannelType::from_db("sms".into()).unwrap_err().status, 500);
    assert_eq!(channel_label(NotificationChannelType::Email, Some("  ")).unwrap(), "Email");
    assert_eq!(channel_label(NotificationChannelType::DiscordWebhook, None).unwrap(), "Discord");
    assert_eq!(channel_label(NotificationChannelType::Email, Some(" Work ")).unwrap(), "Work");
    let long = "é".repeat(41);
    assert_eq!(channel_label(NotificationChannelType::Email, Some(&long)).unwrap_err().message, "label too long (max 80)");
    assert!(channel_label(NotificationChannelType::Email, Some(&"a".repeat(80))).is_ok());
}

fn request(kind: NotificationChannelType) -> UpsertNotificationChannel {
    UpsertNotificationChannel {
        channel_type: kind,
        label: None,
        email: None,
        webhook_url: None,
        enabled: None,
        critical_alerts_enabled: None,
        daily_digest_enabled: None,
        email_locale: None,
    }
}

#[test]
fn upsert_plans_follow_the_channel_kind() {
    let secret = "test-session-secret-long-enough";
    let mut email = request(NotificationChannelType::Email);
    assert_eq!(plan_upsert(secret, &email).unwrap_err().message, "email is required");
    email.email = Some(" Me@Example.org ".into());
    let plan = plan_upsert(secret, &email).unwrap();
    assert!(matches!(plan.destination, ChannelDestination::Email(ref a) if a == "me@example.org"));
    assert_eq!(plan.label, "Email");
    assert!(plan.enabled && plan.critical_alerts_enabled && !plan.daily_digest_enabled);

    let mut hook = request(NotificationChannelType::DiscordWebhook);
    hook.webhook_url = Some("   ".into());
    assert!(matches!(plan_upsert(secret, &hook).unwrap().destination, ChannelDestination::KeepStoredWebhook));
    hook.webhook_url = Some("https://discord.com/api/webhooks/42/secrettoken".into());
    match plan_upsert(secret, &hook).unwrap().destination {
        ChannelDestination::Webhook { masked, ciphertext } => {
            assert_eq!(masked, "discord webhook 42/...oken");
            assert_eq!(
                decrypt_webhook_url(secret, &ciphertext).unwrap(),
                "https://discord.com/api/webhooks/42/secrettoken"
            );
        }
        other => panic!("unexpected destination {other:?}"),
    }
    assert_eq!(plan_upsert("short", &hook).unwrap_err().message, "failed to encrypt webhook URL");
}

#[test]
fn stored_webhook_text_is_padded_base64_of_nonce_and_sealed_url() {
    let secret = "test-session-secret-long-enough";
    let plaintext = "https://discord.com/api/webhooks/1/abc";
    let encrypted = encrypt_webhook_url(secret, plaintext).expect("encrypt");
    // 12 nonce bytes + 38 url bytes + 16 tag bytes = 66 bytes -> 88 base64 characters
    assert_eq!(encrypted.len(), 4 * ((plaintext.len() + 28 + 2) / 3));
    assert_eq!(encrypted.len(), 88);
    assert!(encrypted.len() > plaintext.len());
    assert_ne!(encrypted, plaintext);
}
