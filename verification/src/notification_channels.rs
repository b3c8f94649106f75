//! Notification channels: their kinds, the checks on an email address or a
//! Discord webhook, the label shown, and the masked webhook.
use vstd::prelude::*;

use crate::crypto::{decrypt_spec, encrypt_webhook_url, key_of, utf8_bytes, AES_GCM_P_MAX};
use crate::error::ApiError;
use crate::text::{chars_of, contains_char, lower_chars, lower_seq, owned, push_str, split_chars,
    split_seq, seqs_of, str_eq, string_of, trim_chars, trim_seq, utf8_len, utf8_len_at_least, Sep};

verus! {

/// The kinds of notification channel.
#[derive(Debug, Clone, Copy, PartialEq, Eq)]
pub enum NotificationChannelType {
    Email,
    DiscordWebhook,
}

impl NotificationChannelType {
    pub open spec fn name(self) -> Seq<char> {
        match self {
            NotificationChannelType::Email => "email"@,
            NotificationChannelType::DiscordWebhook => "discord_webhook"@,
        }
    }

    /// The stored name of the kind.
    pub fn as_str(&self) -> (r: &'static str)
        ensures
            r@ == self.name(),
    {
        match self {
            NotificationChannelType::Email => "email",
            NotificationChannelType::DiscordWebhook => "discord_webhook",
        }
    }

    /// The kind with the given stored name; any other name is an internal
    /// error.
    pub fn from_db(value: String) -> (r: Result<NotificationChannelType, ApiError>)
        ensures
            value@ == "email"@ ==> r == Ok::<NotificationChannelType, ApiError>(
                NotificationChannelType::Email,
            ),
            value@ == "discord_webhook"@ ==> r == Ok::<NotificationChannelType, ApiError>(
                NotificationChannelType::DiscordWebhook,
            ),
            value@ != "email"@ && value@ != "discord_webhook"@ ==> (r matches Err(e)
                && e.is_internal("unknown notification channel type"@)),
    {
        proof {
            reveal_strlit("email");
            reveal_strlit("discord_webhook");
            assert("email"@.len() != "discord_webhook"@.len());
        }
        if str_eq(value.as_str(), "email") {
            Ok(NotificationChannelType::Email)
        } else if str_eq(value.as_str(), "discord_webhook") {
            Ok(NotificationChannelType::DiscordWebhook)
        } else {
            Err(ApiError::internal("unknown notification channel type"))
        }
    }
}

/// A request to create or replace a user's channel of some kind.
#[derive(Debug, Clone)]
pub struct UpsertNotificationChannel {
    pub channel_type: NotificationChannelType,
    pub label: Option<String>,
    pub email: Option<String>,
    pub webhook_url: Option<String>,
    pub enabled: Option<bool>,
    pub critical_alerts_enabled: Option<bool>,
    pub daily_digest_enabled: Option<bool>,
    pub email_locale: Option<String>,
}

// ---------------------------------------------------------------------------
// Labels
// ---------------------------------------------------------------------------

pub open spec fn default_label(t: NotificationChannelType) -> Seq<char> {
    match t {
        NotificationChannelType::Email => "Email"@,
        NotificationChannelType::DiscordWebhook => "Discord"@,
    }
}

/// The label of a channel: the given one trimmed when it is not blank, the
/// kind's default otherwise.
pub open spec fn label_spec(t: NotificationChannelType, label: Option<Seq<char>>) -> Seq<char> {
    match label {
        Some(l) => if trim_seq(l).len() > 0 {
            trim_seq(l)
        } else {
            default_label(t)
        },
        None => default_label(t),
    }
}

/// The label to store for a channel; one longer than 80 bytes is a bad
/// request.
pub fn channel_label(
    channel_type: NotificationChannelType,
    label: Option<&str>,
) -> (r: Result<String, ApiError>)
    ensures
        utf8_len(label_spec(channel_type, crate::email_templates::opt_view(label))) <= 80 ==> (r matches Ok(
            s,
        ) && s@ == label_spec(channel_type, crate::email_templates::opt_view(label))),
        utf8_len(label_spec(channel_type, crate::email_templates::opt_view(label))) > 80 ==> (r matches Err(
            e,
        ) && e.is_bad_request("label too long (max 80)"@)),
{
    let default = match channel_type {
        NotificationChannelType::Email => "Email",
        NotificationChannelType::DiscordWebhook => "Discord",
    };
    let chosen: Vec<char> = match label {
        Some(l) => {
            let t = trim_chars(chars_of(l).as_slice());
            if t.len() > 0 {
                t
            } else {
                chars_of(default)
            }
        },
        None => chars_of(default),
    };
    if utf8_len_at_least(chosen.as_slice(), 81) {
        return Err(ApiError::bad_request("label too long (max 80)"));
    }
    Ok(string_of(chosen.as_slice()))
}

// ---------------------------------------------------------------------------
// Email addresses
// ---------------------------------------------------------------------------

/// What validator's `ValidateEmail::validate_email` says of an address (the
/// HTML5 address syntax, with length limits and an IDN fallback).
pub uninterp spec fn email_syntax_ok(address: Seq<char>) -> bool;

/// `ValidateEmail::validate_email` (validator) on a string. An address it
/// accepts is not empty and holds an `@`; the rest of its answer is named.
#[verifier::external_body]
fn email_syntax_valid(address: &str) -> (r: bool)
    ensures
        r == email_syntax_ok(address@),
        r ==> address@.len() > 0 && address@.contains('@'),
{
    validator::ValidateEmail::validate_email(&address)
}

/// The address as stored: trimmed and lower-cased (ASCII).
pub open spec fn normalized_email(value: Seq<char>) -> Seq<char> {
    lower_seq(trim_seq(value))
}

/// The part after the first `@` (up to a second one) contains a dot.
pub open spec fn domain_has_dot(address: Seq<char>) -> bool {
    let parts = split_seq(address, Sep::Char('@'));
    parts.len() > 1 && parts[1].contains('.')
}

/// The verdict on a normalized address, given what the syntax check said of
/// it: accepted when the syntax is valid and the domain holds a dot.
pub fn notification_email_verdict(address: String, syntax_ok: bool) -> (r: Result<String, ApiError>)
    ensures
        syntax_ok && domain_has_dot(address@) ==> (r matches Ok(s) && s@ == address@),
        !(syntax_ok && domain_has_dot(address@)) ==> (r matches Err(e) && e.is_bad_request(
            "invalid email address"@,
        )),
{
    let parts = split_chars(chars_of(address.as_str()).as_slice(), Sep::Char('@'));
    proof {
        assert(seqs_of(parts@) == split_seq(address@, Sep::Char('@')));
        if parts@.len() > 1 {
            assert(seqs_of(parts@)[1] == parts@[1]@);
        }
    }
    let has_dot = parts.len() > 1 && contains_char(parts[1].as_slice(), '.');
    if !syntax_ok || !has_dot {
        return Err(ApiError::bad_request("invalid email address"));
    }
    Ok(address)
}

/// The address to store for an email channel: trimmed and lower-cased, then
/// accepted when validator's syntax check passes on it and its domain holds
/// a dot; a bad request otherwise.
pub fn validate_notification_email(value: &str) -> (r: Result<String, ApiError>)
    ensures
        email_syntax_ok(normalized_email(value@)) && domain_has_dot(normalized_email(value@)) ==> (r matches Ok(s)
            && s@ == normalized_email(value@)),
        !(email_syntax_ok(normalized_email(value@)) && domain_has_dot(normalized_email(value@))) ==> (r matches Err(e)
            && e.is_bad_request("invalid email address"@)),
{
    let trimmed = trim_chars(chars_of(value).as_slice());
    let lowered = lower_chars(trimmed.as_slice());
    let email = string_of(lowered.as_slice());
    let ok = email_syntax_valid(email.as_str());
    notification_email_verdict(email, ok)
}


/// An accepted address is accepted again as it is: storing is idempotent.
pub proof fn lemma_email_normal_form(value: Seq<char>)
    ensures
        normalized_email(normalized_email(value)) == normalized_email(value),
        email_syntax_ok(normalized_email(value)) && domain_has_dot(normalized_email(value))
            ==> email_syntax_ok(normalized_email(normalized_email(value))) && domain_has_dot(
            normalized_email(normalized_email(value)),
        ),
{
    crate::text::lemma_lower_trim_idempotent(value);
}

// ---------------------------------------------------------------------------
// Discord webhooks
// ---------------------------------------------------------------------------

/// What a parsed URL shows: its scheme, its host, and its path segments
/// (none when the path does not start with `/`).
#[derive(Debug, Clone)]
pub struct UrlParts {
    pub scheme: String,
    pub host: Option<String>,
    pub segments: Option<Vec<String>>,
}

pub open spec fn opt_seq_view(o: Option<String>) -> Option<Seq<char>> {
    match o {
        Some(s) => Some(s@),
        None => None,
    }
}

pub open spec fn opt_segments_view(o: Option<Vec<String>>) -> Option<Seq<Seq<char>>> {
    match o {
        Some(v) => Some(v.deep_view()),
        None => None,
    }
}

/// A parsed URL as plain values.
pub open spec fn url_parts_view(p: UrlParts) -> (Seq<char>, Option<Seq<char>>, Option<Seq<Seq<char>>>) {
    (p.scheme@, opt_seq_view(p.host), opt_segments_view(p.segments))
}

/// What `Url::parse` (url, as re-exported by reqwest) makes of a string:
/// nothing when it is not a URL, else the scheme, host and path segments.
pub uninterp spec fn url_parse(s: Seq<char>) -> Option<(Seq<char>, Option<Seq<char>>, Option<Seq<Seq<char>>>)>;

/// `Url::parse` (url), then `scheme`, `host_str` and `path_segments` of the
/// result, copied into plain strings. The parse follows the WHATWG URL
/// standard and is named, not stated.
#[verifier::external_body]
fn parse_url(s: &str) -> (r: Option<UrlParts>)
    ensures
        match r {
            Some(p) => url_parse(s@) == Some(url_parts_view(p)),
            None => url_parse(s@) is None,
        },
{
    let url = reqwest::Url::parse(s).ok()?;
    Some(UrlParts {
        scheme: url.scheme().to_string(),
        host: url.host_str().map(|h| h.to_string()),
        segments: url.path_segments().map(|it| it.map(|x| x.to_string()).collect()),
    })
}

/// The verdict on a webhook URL, given the trimmed text and what parsing it
/// gave.
pub open spec fn webhook_verdict_spec(
    trimmed: Seq<char>,
    parsed: Option<(Seq<char>, Option<Seq<char>>, Option<Seq<Seq<char>>>)>,
) -> Result<Seq<char>, Seq<char>> {
    match parsed {
        None => Err("invalid webhook URL"@),
        Some(p) => {
            let host = match p.1 {
                Some(h) => h,
                None => Seq::empty(),
            };
            let segs = match p.2 {
                Some(v) => v,
                None => Seq::empty(),
            };
            if p.0 != "https"@ {
                Err("webhook URL must use HTTPS"@)
            } else if host != "discord.com"@ && host != "discordapp.com"@ {
                Err("only Discord webhooks are supported"@)
            } else if segs.len() < 4 || segs[0] != "api"@ || segs[1] != "webhooks"@ || segs[2].len()
                == 0 || segs[3].len() == 0 {
                Err("invalid Discord webhook URL"@)
            } else {
                Ok(trimmed)
            }
        },
    }
}

/// The checks on a Discord webhook URL once parsed: HTTPS, a Discord host,
/// and a path `api/webhooks/<id>/<token>` with both non-empty.
pub fn discord_webhook_verdict(trimmed: &str, parsed: Option<UrlParts>) -> (r: Result<String, ApiError>)
    ensures
        match webhook_verdict_spec(
            trimmed@,
            match parsed {
                Some(p) => Some(url_parts_view(p)),
                None => None,
            },
        ) {
            Ok(s) => r matches Ok(x) && x@ == s,
            Err(m) => r matches Err(e) && e.is_bad_request(m),
        },
{
    let p = match parsed {
        None => {
            return Err(ApiError::bad_request("invalid webhook URL"));
        },
        Some(p) => p,
    };
    if !str_eq(p.scheme.as_str(), "https") {
        return Err(ApiError::bad_request("webhook URL must use HTTPS"));
    }
    let host_ok = match &p.host {
        Some(h) => str_eq(h.as_str(), "discord.com") || str_eq(h.as_str(), "discordapp.com"),
        None => {
            proof {
                reveal_strlit("discord.com");
                reveal_strlit("discordapp.com");
                assert("discord.com"@.len() > 0);
                assert("discordapp.com"@.len() > 0);
            }
            false
        },
    };
    if !host_ok {
        return Err(ApiError::bad_request("only Discord webhooks are supported"));
    }
    let segs: Vec<String> = match p.segments {
        Some(v) => v,
        None => Vec::new(),
    };
    assert forall|k: int| 0 <= k < segs@.len() implies segs.deep_view()[k] == segs@[k]@ by {}
    assert(segs.deep_view().len() == segs@.len());
    if segs.len() < 4 || !str_eq(segs[0].as_str(), "api") || !str_eq(segs[1].as_str(), "webhooks")
        || segs[2].as_str().is_empty() || segs[3].as_str().is_empty() {
        return Err(ApiError::bad_request("invalid Discord webhook URL"));
    }
    Ok(owned(trimmed))
}

/// The webhook URL to store: the trimmed text when it is a Discord webhook
/// URL; otherwise a bad request saying which check failed.
pub fn validate_discord_webhook_url(value: &str) -> (r: Result<String, ApiError>)
    ensures
        match webhook_verdict_spec(trim_seq(value@), url_parse(trim_seq(value@))) {
            Ok(s) => r matches Ok(x) && x@ == s,
            Err(m) => r matches Err(e) && e.is_bad_request(m),
        },
{
    let trimmed = crate::text::trim(value);
    let parsed = parse_url(trimmed.as_str());
    discord_webhook_verdict(trimmed.as_str(), parsed)
}

/// The last four characters of `s` (all of it when shorter).
pub open spec fn last_four(s: Seq<char>) -> Seq<char> {
    if s.len() <= 4 {
        s
    } else {
        s.skip(s.len() - 4)
    }
}

/// How a stored webhook is shown: `discord webhook <id>/...<last four
/// characters of the token>`, `unknown` for a missing id, and a fixed text
/// when the URL does not parse.
pub open spec fn webhook_mask_spec(parsed: Option<(Seq<char>, Option<Seq<char>>, Option<Seq<Seq<char>>>)>) -> Seq<char> {
    match parsed {
        None => "discord webhook ..."@,
        Some(p) => {
            let segs = match p.2 {
                Some(v) => v,
                None => Seq::empty(),
            };
            let id = if segs.len() > 2 {
                segs[2]
            } else {
                "unknown"@
            };
            let token = if segs.len() > 3 {
                segs[3]
            } else {
                Seq::empty()
            };
            "discord webhook "@ + id + "/..."@ + last_four(token)
        },
    }
}

/// The masked form of a webhook, given what parsing it gave.
pub fn discord_webhook_mask(parsed: Option<UrlParts>) -> (r: String)
    ensures
        r@ == webhook_mask_spec(
            match parsed {
                Some(p) => Some(url_parts_view(p)),
                None => None,
            },
        ),
{
    let p = match parsed {
        None => {
            return owned("discord webhook ...");
        },
        Some(p) => p,
    };
    let segs: Vec<String> = match p.segments {
        Some(v) => v,
        None => Vec::new(),
    };
    let mut r = owned("discord webhook ");
    if segs.len() > 2 {
        assert(segs.deep_view()[2] == segs@[2]@);
        push_str(&mut r, segs[2].as_str());
    } else {
        push_str(&mut r, "unknown");
    }
    push_str(&mut r, "/...");
    if segs.len() > 3 {
        assert(segs.deep_view()[3] == segs@[3]@);
        let token = chars_of(segs[3].as_str());
        let tail = if token.len() <= 4 {
            token
        } else {
            crate::text::copy_range(token.as_slice(), token.len() - 4, token.len())
        };
        assert(tail@ =~= last_four(segs@[3]@));
        push_str(&mut r, string_of(tail.as_slice()).as_str());
    } else {
        assert(last_four(Seq::<char>::empty()) =~= Seq::<char>::empty());
        assert(r@ =~= r@ + last_four(Seq::<char>::empty()));
    }
    r
}

/// How a stored webhook URL is shown, without its secret token.
pub fn mask_discord_webhook_url(value: &str) -> (r: String)
    ensures
        r@ == webhook_mask_spec(url_parse(value@)),
{
    discord_webhook_mask(parse_url(value))
}


// ---------------------------------------------------------------------------
// Creating or replacing a channel
// ---------------------------------------------------------------------------

/// Where a channel delivers, as decided from a request.
#[derive(Debug, Clone)]
pub enum ChannelDestination {
    /// An email address, trimmed and lower-cased.
    Email(String),
    /// A new Discord webhook: shown masked, stored encrypted.
    Webhook { masked: String, ciphertext: String },
    /// No new webhook in the request: the stored one stays.
    KeepStoredWebhook,
}

/// What to store for a channel request.
#[derive(Debug, Clone)]
pub struct UpsertPlan {
    pub label: String,
    pub destination: ChannelDestination,
    pub enabled: bool,
    pub critical_alerts_enabled: bool,
    pub daily_digest_enabled: bool,
}

/// The webhook URL of a request, when one that is not blank was given.
pub open spec fn given_webhook(url: Option<String>) -> Option<Seq<char>> {
    match url {
        Some(u) => if trim_seq(u@).len() > 0 {
            Some(u@)
        } else {
            None
        },
        None => None,
    }
}

pub open spec fn unwrap_or_bool(o: Option<bool>, d: bool) -> bool {
    match o {
        Some(b) => b,
        None => d,
    }
}

/// Decides what to store for a channel request: the label (checked first),
/// then the destination. An email channel needs a valid address; a Discord
/// channel given a webhook URL needs a valid one, stored encrypted under
/// `secret` and shown masked (with a secret of at least 16 bytes this always
/// succeeds for a URL of at most `AES_GCM_P_MAX` bytes, and the stored text
/// decrypts to the URL); a Discord channel without one keeps the stored
/// webhook. Enabled and critical alerts default to on, the daily digest to
/// off.
pub fn plan_upsert(secret: &str, input: &UpsertNotificationChannel) -> (r: Result<UpsertPlan, ApiError>)
    ensures
        ({
            let label = label_spec(input.channel_type, opt_seq_view(input.label));
            &&& utf8_len(label) > 80 ==> (r matches Err(e) && e.is_bad_request(
                "label too long (max 80)"@,
            ))
            &&& r matches Ok(p) ==> p.label@ == label && p.enabled == unwrap_or_bool(
                input.enabled,
                true,
            ) && p.critical_alerts_enabled == unwrap_or_bool(input.critical_alerts_enabled, true)
                && p.daily_digest_enabled == unwrap_or_bool(input.daily_digest_enabled, false)
            &&& utf8_len(label) <= 80 ==> match input.channel_type {
                NotificationChannelType::Email => match input.email {
                    None => r matches Err(e) && e.is_bad_request("email is required"@),
                    Some(a) => if email_syntax_ok(normalized_email(a@)) && domain_has_dot(
                        normalized_email(a@),
                    ) {
                        r matches Ok(p) && p.destination matches ChannelDestination::Email(x) && x@
                            == normalized_email(a@)
                    } else {
                        r matches Err(e) && e.is_bad_request("invalid email address"@)
                    },
                },
                NotificationChannelType::DiscordWebhook => match given_webhook(input.webhook_url) {
                    None => r matches Ok(p) && p.destination is KeepStoredWebhook,
                    Some(u) => match webhook_verdict_spec(trim_seq(u), url_parse(trim_seq(u))) {
                        Err(m) => r matches Err(e) && e.is_bad_request(m),
                        Ok(url) => {
                            &&& key_of(secret@) is Err ==> (r matches Err(e) && e.is_internal(
                                "failed to encrypt webhook URL"@,
                            ))
                            &&& key_of(secret@) is Ok && utf8_bytes(url).len() <= AES_GCM_P_MAX
                                ==> r is Ok
                            &&& r matches Err(e) ==> e.is_internal("failed to encrypt webhook URL"@)
                                && (key_of(secret@) is Err || utf8_bytes(url).len() > AES_GCM_P_MAX)
                            &&& r matches Ok(p) ==> (p.destination matches ChannelDestination::Webhook {
                                masked,
                                ciphertext,
                            } && masked@ == webhook_mask_spec(url_parse(url)) && decrypt_spec(
                                secret@,
                                ciphertext@,
                            ) == Ok::<Seq<char>, Seq<char>>(url))
                        },
                    },
                },
            }
        }),
{
    let label_ref: Option<&str> = match &input.label {
        Some(l) => Some(l.as_str()),
        None => None,
    };
    let label = match channel_label(input.channel_type, label_ref) {
        Ok(l) => l,
        Err(e) => {
            return Err(e);
        },
    };
    let destination = match input.channel_type {
        NotificationChannelType::Email => {
            let addr = match &input.email {
                Some(a) => a,
                None => {
                    return Err(ApiError::bad_request("email is required"));
                },
            };
            match validate_notification_email(addr.as_str()) {
                Ok(a) => ChannelDestination::Email(a),
                Err(e) => {
                    return Err(e);
                },
            }
        },
        NotificationChannelType::DiscordWebhook => {
            let given: Option<&String> = match &input.webhook_url {
                Some(u) => if trim_chars(chars_of(u.as_str()).as_slice()).len() > 0 {
                    Some(u)
                } else {
                    None
                },
                None => None,
            };
            match given {
                None => ChannelDestination::KeepStoredWebhook,
                Some(u) => {
                    let url = match validate_discord_webhook_url(u.as_str()) {
                        Ok(x) => x,
                        Err(e) => {
                            return Err(e);
                        },
                    };
                    let masked = mask_discord_webhook_url(url.as_str());
                    let ciphertext = match encrypt_webhook_url(secret, url.as_str()) {
                        Ok(c) => c,
                        Err(_) => {
                            return Err(ApiError::internal("failed to encrypt webhook URL"));
                        },
                    };
                    ChannelDestination::Webhook { masked, ciphertext }
                },
            }
        },
    };
    let enabled = match input.enabled {
        Some(b) => b,
        None => true,
    };
    let critical_alerts_enabled = match input.critical_alerts_enabled {
        Some(b) => b,
        None => true,
    };
    let daily_digest_enabled = match input.daily_digest_enabled {
        Some(b) => b,
        None => false,
    };
    Ok(UpsertPlan { label, destination, enabled, critical_alerts_enabled, daily_digest_enabled })
}


/// A masked webhook reveals at most the last four characters of its token:
/// what follows `/...` is a suffix of the token of length four or less.
pub proof fn lemma_mask_hides_token(token: Seq<char>)
    ensures
        last_four(token).len() <= 4,
        last_four(token) == token.skip(token.len() - last_four(token).len()),
{
    if token.len() <= 4 {
        assert(token.skip(0) =~= token);
    }
}

} // verus!
