//! Where a notification goes: the decisions of the delivery loops, from a
//! channel's stored kind, destination and encrypted webhook to the send to
//! make or the failure to record. The loops themselves send and store.
use vstd::prelude::*;

use crate::crypto::{decrypt_spec, decrypt_webhook_url};
use crate::error::ApiError;
use crate::notification_channels::NotificationChannelType;
use crate::text::{owned, push_str, str_eq};

verus! {

/// What to do with one channel of a due digest.
#[derive(Debug, Clone)]
pub enum DigestRoute {
    /// Post the digest to this Discord webhook.
    Discord { webhook_url: String },
    /// Email the digest to this address.
    Email { to: String },
    /// Record this failure on the delivery and on the channel.
    Fail { message: String },
}

/// How a digest is routed for a channel of the given stored kind.
pub open spec fn digest_route_spec(
    channel_type: Seq<char>,
    destination: Seq<char>,
    secret: Option<Seq<char>>,
    ciphertext: Option<Seq<char>>,
) -> (int, Seq<char>) {
    if channel_type == "discord_webhook"@ {
        match secret {
            None => (2, "APP_NOTIFICATION_SECRET missing"@),
            Some(s) => match ciphertext {
                None => (2, "missing webhook secret"@),
                Some(c) => match decrypt_spec(s, c) {
                    Ok(url) => (0, url),
                    Err(e) => (2, "failed to decrypt webhook URL: "@ + e),
                },
            },
        }
    } else if channel_type == "email"@ {
        (1, destination)
    } else {
        (2, "unknown notification channel type"@)
    }
}

/// The route as a tag (0 Discord, 1 email, 2 failure) and its text.
pub open spec fn digest_route_view(r: DigestRoute) -> (int, Seq<char>) {
    match r {
        DigestRoute::Discord { webhook_url } => (0, webhook_url@),
        DigestRoute::Email { to } => (1, to@),
        DigestRoute::Fail { message } => (2, message@),
    }
}

pub open spec fn opt_view(o: Option<&str>) -> Option<Seq<char>> {
    match o {
        Some(s) => Some(s@),
        None => None,
    }
}

/// Routes a due digest for one channel: a Discord channel needs the
/// notification secret and its encrypted webhook, decrypted; an email
/// channel goes to its address; any other kind fails.
pub fn digest_route(
    channel_type: &str,
    destination: &str,
    secret: Option<&str>,
    ciphertext: Option<&str>,
) -> (r: DigestRoute)
    ensures
        digest_route_view(r) == digest_route_spec(
            channel_type@,
            destination@,
            opt_view(secret),
            opt_view(ciphertext),
        ),
{
    if str_eq(channel_type, "discord_webhook") {
        let s = match secret {
            None => {
                return DigestRoute::Fail { message: owned("APP_NOTIFICATION_SECRET missing") };
            },
            Some(s) => s,
        };
        let c = match ciphertext {
            None => {
                return DigestRoute::Fail { message: owned("missing webhook secret") };
            },
            Some(c) => c,
        };
        match decrypt_webhook_url(s, c) {
            Ok(url) => DigestRoute::Discord { webhook_url: url },
            Err(e) => {
                let mut m = owned("failed to decrypt webhook URL: ");
                push_str(&mut m, e.as_str());
                DigestRoute::Fail { message: m }
            },
        }
    } else if str_eq(channel_type, "email") {
        DigestRoute::Email { to: owned(destination) }
    } else {
        DigestRoute::Fail { message: owned("unknown notification channel type") }
    }
}

/// What to do with one channel of a watch alert.
#[derive(Debug, Clone)]
pub enum AlertRoute {
    /// Email the alert to this address.
    Email { to: String },
    /// Post the alert to this Discord webhook.
    Discord { webhook_url: String },
    /// A Discord channel without a stored webhook: nothing to do.
    Skip,
    /// Record this error on the channel.
    RecordError { message: String },
}

pub open spec fn alert_route_view(r: AlertRoute) -> (int, Seq<char>) {
    match r {
        AlertRoute::Email { to } => (1, to@),
        AlertRoute::Discord { webhook_url } => (0, webhook_url@),
        AlertRoute::Skip => (3, Seq::empty()),
        AlertRoute::RecordError { message } => (2, message@),
    }
}

/// How an alert is routed for a channel: an unknown stored kind is an
/// internal error that stops the delivery; a Discord channel without a
/// webhook is skipped, and one whose webhook does not decrypt records why.
pub open spec fn alert_route_spec(
    channel_type: Seq<char>,
    destination: Seq<char>,
    secret: Seq<char>,
    ciphertext: Option<Seq<char>>,
) -> Result<(int, Seq<char>), Seq<char>> {
    if channel_type == "email"@ {
        Ok((1, destination))
    } else if channel_type == "discord_webhook"@ {
        match ciphertext {
            None => Ok((3, Seq::empty())),
            Some(c) => match decrypt_spec(secret, c) {
                Ok(url) => Ok((0, url)),
                Err(e) => Ok((2, "failed to decrypt webhook URL: "@ + e)),
            },
        }
    } else {
        Err("unknown notification channel type"@)
    }
}

/// Routes a watch alert for one channel.
pub fn alert_route(
    channel_type: String,
    destination: &str,
    secret: &str,
    ciphertext: Option<&str>,
) -> (r: Result<AlertRoute, ApiError>)
    ensures
        match alert_route_spec(channel_type@, destination@, secret@, opt_view(ciphertext)) {
            Ok(v) => r matches Ok(x) && alert_route_view(x) == v,
            Err(m) => r matches Err(e) && e.is_internal(m),
        },
{
    proof {
        reveal_strlit("email");
        reveal_strlit("discord_webhook");
        assert("email"@.len() != "discord_webhook"@.len());
    }
    match NotificationChannelType::from_db(channel_type) {
        Err(e) => Err(e),
        Ok(NotificationChannelType::Email) => Ok(AlertRoute::Email { to: owned(destination) }),
        Ok(NotificationChannelType::DiscordWebhook) => {
            let c = match ciphertext {
                None => {
                    return Ok(AlertRoute::Skip);
                },
                Some(c) => c,
            };
            match decrypt_webhook_url(secret, c) {
                Ok(url) => Ok(AlertRoute::Discord { webhook_url: url }),
                Err(e) => {
                    let mut m = owned("failed to decrypt webhook URL: ");
                    push_str(&mut m, e.as_str());
                    Ok(AlertRoute::RecordError { message: m })
                },
            }
        },
    }
}

/// Where a test message for a channel goes.
#[derive(Debug, Clone)]
pub enum TestRoute {
    Email { to: String },
    Discord { webhook_url: String },
}

/// Routes a channel's test message: an unknown stored kind, a Discord
/// channel without a webhook, and a webhook that does not decrypt are
/// internal errors.
pub fn test_route(
    channel_type: String,
    destination: &str,
    secret: &str,
    ciphertext: Option<&str>,
) -> (r: Result<TestRoute, ApiError>)
    ensures
        channel_type@ == "email"@ ==> (r matches Ok(TestRoute::Email { to }) && to@ == destination@),
        channel_type@ == "discord_webhook"@ ==> match opt_view(ciphertext) {
            None => r matches Err(e) && e.is_internal("missing webhook secret"@),
            Some(c) => match decrypt_spec(secret@, c) {
                Ok(url) => r matches Ok(TestRoute::Discord { webhook_url }) && webhook_url@ == url,
                Err(_) => r matches Err(e) && e.is_internal("failed to decrypt webhook URL"@),
            },
        },
        channel_type@ != "email"@ && channel_type@ != "discord_webhook"@ ==> (r matches Err(e)
            && e.is_internal("unknown notification channel type"@)),
{
    proof {
        reveal_strlit("email");
        reveal_strlit("discord_webhook");
        assert("email"@.len() != "discord_webhook"@.len());
    }
    match NotificationChannelType::from_db(channel_type) {
        Err(e) => Err(e),
        Ok(NotificationChannelType::Email) => Ok(TestRoute::Email { to: owned(destination) }),
        Ok(NotificationChannelType::DiscordWebhook) => {
            let c = match ciphertext {
                None => {
                    return Err(ApiError::internal("missing webhook secret"));
                },
                Some(c) => c,
            };
            match decrypt_webhook_url(secret, c) {
                Ok(url) => Ok(TestRoute::Discord { webhook_url: url }),
                Err(_) => Err(ApiError::internal("failed to decrypt webhook URL")),
            }
        },
    }
}

} // verus!
