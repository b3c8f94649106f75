//! Account settings: digest preferences, and the tombstone identity left
//! when an account is deleted.
use vstd::prelude::*;

use crate::error::ApiError;
use crate::notification_digest::{digest_time_for_preset, preset_time, timezone_is_known, tz_known};
use crate::text::{owned, push_str, str_eq, trim, trim_seq};

verus! {

/// What an account deletion removed or changed, table by table.
#[derive(Debug, Clone)]
pub struct DeleteAccountOutcome {
    pub revoked_tokens: u64,
    pub deleted_watchlist_rows: u64,
    pub deleted_notifications: u64,
    pub deleted_channels: u64,
    pub deleted_digest_deliveries: u64,
    pub deleted_use_case_watch_matches: u64,
    pub deleted_use_case_watches: u64,
    pub deleted_use_case_queries: u64,
    pub deleted_repo_refresh_events: u64,
    pub deleted_auth_identities: u64,
    pub anonymized_user: bool,
}

/// A user's digest preferences as shown.
#[derive(Debug, Clone)]
pub struct NotificationPreferences {
    pub digest_time_preset: String,
    pub digest_time_local: String,
    pub timezone: String,
}

/// A requested change of digest preferences.
#[derive(Debug, Clone)]
pub struct UpdateNotificationPreferences {
    pub digest_time_preset: String,
    pub timezone: String,
}

/// The preset of a stored local time; `morning` for a time no preset has.
pub open spec fn preset_of_time(value: Seq<char>) -> Seq<char> {
    if value == "08:00"@ {
        "morning"@
    } else if value == "12:00"@ {
        "noon"@
    } else if value == "18:00"@ {
        "evening"@
    } else if value == "21:00"@ {
        "night"@
    } else {
        "morning"@
    }
}

/// The preset shown for a stored digest time.
pub fn preset_for_time(value: &str) -> (r: String)
    ensures
        r@ == preset_of_time(value@),
{
    if str_eq(value, "08:00") {
        owned("morning")
    } else if str_eq(value, "12:00") {
        owned("noon")
    } else if str_eq(value, "18:00") {
        owned("evening")
    } else if str_eq(value, "21:00") {
        owned("night")
    } else {
        owned("morning")
    }
}

/// The preferences shown for a stored time and zone.
pub fn preferences_from_stored(digest_time_local: String, timezone: String) -> (r:
    NotificationPreferences)
    ensures
        r.digest_time_preset@ == preset_of_time(digest_time_local@),
        r.digest_time_local@ == digest_time_local@,
        r.timezone@ == timezone@,
{
    NotificationPreferences {
        digest_time_preset: preset_for_time(digest_time_local.as_str()),
        digest_time_local,
        timezone,
    }
}

/// The zone name, trimmed, when chrono-tz knows it; a bad request otherwise.
pub fn validate_timezone(value: &str) -> (r: Result<String, ApiError>)
    ensures
        tz_known(trim_seq(value@)) ==> (r matches Ok(s) && s@ == trim_seq(value@)),
        !tz_known(trim_seq(value@)) ==> (r matches Err(e) && e.is_bad_request(
            "invalid timezone"@,
        )),
{
    let timezone = trim(value);
    if !timezone_is_known(timezone.as_str()) {
        return Err(ApiError::bad_request("invalid timezone"));
    }
    Ok(timezone)
}

/// Checks a preferences change and gives the local time and zone to store:
/// the preset's time, then the trimmed zone. An unknown preset, then an
/// unknown zone, is a bad request.
pub fn validate_preferences_update(input: &UpdateNotificationPreferences) -> (r: Result<
    (String, String),
    ApiError,
>)
    ensures
        match preset_time(input.digest_time_preset@) {
            None => r matches Err(e) && e.is_bad_request("invalid digest time preset"@),
            Some(t) => if tz_known(trim_seq(input.timezone@)) {
                r matches Ok(p) && p.0@ == t && p.1@ == trim_seq(input.timezone@)
            } else {
                r matches Err(e) && e.is_bad_request("invalid timezone"@)
            },
        },
{
    let time = match digest_time_for_preset(input.digest_time_preset.as_str()) {
        Ok(t) => owned(t),
        Err(e) => {
            return Err(e);
        },
    };
    let timezone = match validate_timezone(input.timezone.as_str()) {
        Ok(z) => z,
        Err(e) => {
            return Err(e);
        },
    };
    Ok((time, timezone))
}

// ---------------------------------------------------------------------------
// Tombstone identity
// ---------------------------------------------------------------------------

/// The lower-case hexadecimal digit of `d` (`0 <= d < 16`).
pub open spec fn hex_digit(d: int) -> char {
    if d < 10 {
        (('0' as int) + d) as char
    } else {
        (('a' as int) + d - 10) as char
    }
}

/// The `n` lowest hexadecimal digits of `x`, most significant first.
pub open spec fn hex_digits(x: nat, n: nat) -> Seq<char>
    decreases n,
{
    if n == 0 {
        Seq::empty()
    } else {
        hex_digits(x / 16, (n - 1) as nat).push(hex_digit((x % 16) as int))
    }
}

/// A UUID in simple form: its 32 hexadecimal digits.
pub open spec fn uuid_simple(id: u128) -> Seq<char> {
    hex_digits(id as nat, 32)
}

/// A UUID in hyphenated form: 8-4-4-4-12 hexadecimal digits.
pub open spec fn uuid_hyphenated(id: u128) -> Seq<char> {
    let s = uuid_simple(id);
    s.subrange(0, 8) + "-"@ + s.subrange(8, 12) + "-"@ + s.subrange(12, 16) + "-"@ + s.subrange(
        16,
        20,
    ) + "-"@ + s.subrange(20, 32)
}

/// `Uuid::from_u128(id).hyphenated().to_string()` (uuid): the big-endian
/// digits of `id` in lower-case hexadecimal, grouped 8-4-4-4-12.
#[verifier::external_body]
pub(crate) fn uuid_hyphenated_string(id: u128) -> (r: String)
    ensures
        r@ == uuid_hyphenated(id),
{
    uuid::Uuid::from_u128(id).hyphenated().to_string()
}

/// `Uuid::from_u128(id).simple().to_string()` (uuid): the 32 big-endian
/// digits of `id` in lower-case hexadecimal.
#[verifier::external_body]
fn uuid_simple_string(id: u128) -> (r: String)
    ensures
        r@ == uuid_simple(id),
{
    uuid::Uuid::from_u128(id).simple().to_string()
}

/// The address a deleted account keeps: `deleted+<uuid>@deleted.usestakly.local`.
pub fn deleted_email_for(user_id: u128) -> (r: String)
    ensures
        r@ == "deleted+"@ + uuid_hyphenated(user_id) + "@deleted.usestakly.local"@,
{
    let mut r = owned("deleted+");
    let id = uuid_hyphenated_string(user_id);
    push_str(&mut r, id.as_str());
    push_str(&mut r, "@deleted.usestakly.local");
    r
}

/// The user name a deleted account keeps: `deleted-user-<32 hex digits>`.
pub fn deleted_username_for(user_id: u128) -> (r: String)
    ensures
        r@ == "deleted-user-"@ + uuid_simple(user_id),
{
    let mut r = owned("deleted-user-");
    let id = uuid_simple_string(user_id);
    push_str(&mut r, id.as_str());
    r
}


/// A preset's local time reads back as the same preset: choosing a preset
/// and then showing the stored time gives the preset that was chosen.
pub proof fn lemma_preset_round_trip(preset: Seq<char>)
    requires
        preset_time(preset) is Some,
    ensures
        preset_of_time(preset_time(preset)->0) == preset,
{
    reveal_strlit("morning");
    reveal_strlit("noon");
    reveal_strlit("evening");
    reveal_strlit("night");
    reveal_strlit("08:00");
    reveal_strlit("12:00");
    reveal_strlit("18:00");
    reveal_strlit("21:00");
    assert("08:00"@[0] != "12:00"@[0]);
    assert("08:00"@[0] != "18:00"@[0]);
    assert("08:00"@[0] != "21:00"@[0]);
    assert("12:00"@[1] != "18:00"@[1]);
    assert("12:00"@[0] != "21:00"@[0]);
    assert("18:00"@[0] != "21:00"@[0]);
}

} // verus!
