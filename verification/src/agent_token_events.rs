//! The guards on the writes an agent token makes (usage signals and repo
//! watches). Each guard reads a count or a yes/no the store answers and
//! decides whether the write goes ahead; the caller runs the queries in the
//! order the guards are listed here.
use vstd::prelude::*;

use crate::error::ApiError;
use crate::formula::{is_negative_outcome, negative_outcome_spec, SignalKind};
use crate::reputation::{ReputationTier, UserReputation};
use crate::text::{chars_of, int_decimal, owned, push_str, trim_seq, u64_to_string,
    utf8_len, utf8_len_at_least};

verus! {

/// The kind of the events that record a usage signal.
pub const EVENT_LOG_USAGE: &'static str = "mcp_log_usage";

/// The kind of the events that record a repo watch.
pub const EVENT_WATCH_REPO: &'static str = "mcp_watch_repo";

pub open spec fn quota_message(max_per_hour: u32) -> Seq<char> {
    "MCP write quota exceeded for this token ("@ + int_decimal(max_per_hour as int) + "/hour)"@
}

/// A token may make `max_per_hour` writes an hour; `used` is how many it
/// made in the last hour.
pub fn write_quota_verdict(used: i64, max_per_hour: u32) -> (r: Result<(), ApiError>)
    ensures
        r is Ok <==> used < max_per_hour,
        r matches Err(e) ==> e.is_too_many_requests(quota_message(max_per_hour)),
{
    if used >= max_per_hour as i64 {
        let mut m = owned("MCP write quota exceeded for this token (");
        let n = u64_to_string(max_per_hour as u64);
        push_str(&mut m, n.as_str());
        push_str(&mut m, "/hour)");
        return Err(ApiError::too_many_requests_owned(m));
    }
    Ok(())
}

/// A duration the store takes as a 32-bit integer: the duration itself
/// when it fits, else a bad request with the given message.
pub fn store_interval(value: u64, too_large: &str) -> (r: Result<i32, ApiError>)
    ensures
        value <= i32::MAX ==> r == Ok::<i32, ApiError>(value as i32),
        value > i32::MAX ==> (r matches Err(e) && e.is_bad_request(too_large@)),
{
    if value <= 2147483647 {
        Ok(value as i32)
    } else {
        Err(ApiError::bad_request(too_large))
    }
}

pub open spec fn duplicate_message(owner: Seq<char>, name: Seq<char>) -> Seq<char> {
    "duplicate MCP usage signal blocked for "@ + owner + "/"@ + name + "; retry later"@
}

/// A usage signal repeating one the token sent for the same repository and
/// outcome within the cooldown is refused.
pub fn duplicate_usage_verdict(duplicate_recent: bool, owner: &str, name: &str) -> (r: Result<(), ApiError>)
    ensures
        r is Ok <==> !duplicate_recent,
        r matches Err(e) ==> e.is_too_many_requests(duplicate_message(owner@, name@)),
{
    if duplicate_recent {
        let mut m = owned("duplicate MCP usage signal blocked for ");
        push_str(&mut m, owner);
        push_str(&mut m, "/");
        push_str(&mut m, name);
        push_str(&mut m, "; retry later");
        return Err(ApiError::too_many_requests_owned(m));
    }
    Ok(())
}

/// Only negative outcomes go on to the reputation and window guards.
pub fn needs_negative_guards(outcome: SignalKind) -> (r: bool)
    ensures
        r == negative_outcome_spec(outcome),
{
    is_negative_outcome(outcome)
}

pub open spec fn tier_message(tier: ReputationTier) -> Seq<char> {
    "negative MCP usage signals require a more established trust profile (current tier: "@
        + tier.name() + ")"@
}

pub open spec fn history_message() -> Seq<char> {
    "negative MCP usage signals are temporarily restricted until the account builds a healthier usage history"@
}

pub open spec fn notes_message() -> Seq<char> {
    "negative MCP usage signals need short notes (12+ chars) for review context"@
}

/// The byte length of the trimmed notes (zero without notes).
pub open spec fn notes_len(notes: Option<&str>) -> nat {
    match notes {
        Some(n) => utf8_len(trim_seq(n@)),
        None => 0,
    }
}

/// A negative outcome needs a user above the unproven tier (review weight
/// at least 0.55), a healthy history (five usage signals, a successful
/// outcome ratio of at least 0.35 and a regret ratio of at most 0.45; the
/// two ratio comparisons are given), and, for a regret or a re-resolve,
/// notes of at least twelve bytes once trimmed.
pub fn negative_outcome_reputation_verdict(
    rep: &UserReputation,
    low_success_ratio: bool,
    high_regret_ratio: bool,
    outcome: SignalKind,
    notes: Option<&str>,
) -> (r: Result<(), ApiError>)
    requires
        rep.counts_fit(),
    ensures
        r is Ok <==> rep.tier != ReputationTier::Unproven && !(rep.usage_total() < 5
            || low_success_ratio || high_regret_ratio) && !((outcome == SignalKind::Regret
            || outcome == SignalKind::ReResolve) && notes_len(notes) < 12),
        r matches Err(e) ==> if rep.tier == ReputationTier::Unproven {
            e.is_forbidden(tier_message(rep.tier))
        } else if rep.usage_total() < 5 || low_success_ratio || high_regret_ratio {
            e.is_forbidden(history_message())
        } else {
            e.is_bad_request(notes_message())
        },
{
    if matches!(rep.tier, ReputationTier::Unproven) {
        let mut m = owned(
            "negative MCP usage signals require a more established trust profile (current tier: ",
        );
        push_str(&mut m, rep.tier.as_str());
        push_str(&mut m, ")");
        return Err(ApiError::forbidden_owned(m));
    }
    if rep.usage_signal_count() < 5 || low_success_ratio || high_regret_ratio {
        return Err(
            ApiError::forbidden(
                "negative MCP usage signals are temporarily restricted until the account builds a healthier usage history",
            ),
        );
    }
    let long_notes = match notes {
        Some(n) => {
            let t = crate::text::trim_chars(chars_of(n).as_slice());
            utf8_len_at_least(t.as_slice(), 12)
        },
        None => false,
    };
    if matches!(outcome, SignalKind::Regret | SignalKind::ReResolve) && !long_notes {
        return Err(
            ApiError::bad_request(
                "negative MCP usage signals need short notes (12+ chars) for review context",
            ),
        );
    }
    Ok(())
}

pub open spec fn recent_negative_message(owner: Seq<char>, name: Seq<char>) -> Seq<char> {
    "negative MCP usage signals for "@ + owner + "/"@ + name + " are limited; retry later"@
}

/// A user may send one negative outcome per repository within the window.
pub fn recent_negative_verdict(recent_negative: bool, owner: &str, name: &str) -> (r: Result<(), ApiError>)
    ensures
        r is Ok <==> !recent_negative,
        r matches Err(e) ==> e.is_too_many_requests(recent_negative_message(owner@, name@)),
{
    if recent_negative {
        let mut m = owned("negative MCP usage signals for ");
        push_str(&mut m, owner);
        push_str(&mut m, "/");
        push_str(&mut m, name);
        push_str(&mut m, " are limited; retry later");
        return Err(ApiError::too_many_requests_owned(m));
    }
    Ok(())
}

} // verus!
