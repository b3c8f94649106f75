//! Guards on how often a user, and a repository, may be refreshed on demand.
use vstd::prelude::*;

verus! {

pub const STATUS_COMPLETED: &'static str = "completed";
pub const STATUS_THROTTLED: &'static str = "throttled";

/// Limits on on-demand refreshes.
#[derive(Debug, Clone, Copy)]
pub struct RefreshLimitConfig {
    /// Completed refreshes a user may trigger per hour.
    pub user_per_hour: u32,
    /// Seconds a repository stays cooling down after a completed refresh.
    pub repo_cooldown_secs: u64,
}

/// Why a refresh was throttled.
#[derive(Debug, Clone, Copy, PartialEq, Eq)]
pub enum RefreshThrottleReason {
    UserHourlyQuota,
    RepoCooldown,
}

impl RefreshThrottleReason {
    pub open spec fn name(self) -> Seq<char> {
        match self {
            RefreshThrottleReason::UserHourlyQuota => "user_hourly_quota"@,
            RefreshThrottleReason::RepoCooldown => "repo_cooldown"@,
        }
    }

    pub fn as_str(self) -> (r: &'static str)
        ensures
            r@ == self.name(),
    {
        match self {
            RefreshThrottleReason::UserHourlyQuota => "user_hourly_quota",
            RefreshThrottleReason::RepoCooldown => "repo_cooldown",
        }
    }
}

/// The user has used up the hourly quota.
pub fn user_limit_exceeded(used: i64, limit: u32) -> (r: bool)
    ensures
        r == (used >= limit),
{
    used >= limit as i64
}

/// The repository was refreshed within the cooldown.
pub fn repo_limit_exceeded(used: i64) -> (r: bool)
    ensures
        r == (used >= 1),
{
    used >= 1
}

/// Whether a refresh may go ahead.
#[derive(Debug, Clone, Copy, PartialEq, Eq)]
pub enum RefreshLimitsOutcome {
    Allowed,
    Throttled(RefreshThrottleReason),
}

/// The outcome for the given counts of completed refreshes: the user's in the
/// last hour, the repository's within the cooldown. The user quota is checked
/// first.
pub open spec fn refresh_outcome_spec(
    user_used: i64,
    repo_used: i64,
    config: RefreshLimitConfig,
) -> RefreshLimitsOutcome {
    if user_used >= config.user_per_hour {
        RefreshLimitsOutcome::Throttled(RefreshThrottleReason::UserHourlyQuota)
    } else if repo_used >= 1 {
        RefreshLimitsOutcome::Throttled(RefreshThrottleReason::RepoCooldown)
    } else {
        RefreshLimitsOutcome::Allowed
    }
}

pub fn refresh_limits_outcome(
    user_used: i64,
    repo_used: i64,
    config: &RefreshLimitConfig,
) -> (r: RefreshLimitsOutcome)
    ensures
        r == refresh_outcome_spec(user_used, repo_used, *config),
{
    if user_limit_exceeded(user_used, config.user_per_hour) {
        return RefreshLimitsOutcome::Throttled(RefreshThrottleReason::UserHourlyQuota);
    }
    if repo_limit_exceeded(repo_used) {
        return RefreshLimitsOutcome::Throttled(RefreshThrottleReason::RepoCooldown);
    }
    RefreshLimitsOutcome::Allowed
}

/// The cooldown as the `i32` seconds the query binds, saturating at
/// `i32::MAX`.
pub fn cooldown_secs_param(secs: u64) -> (r: i32)
    ensures
        r == if secs <= i32::MAX {
            secs as int
        } else {
            i32::MAX as int
        },
{
    if secs <= i32::MAX as u64 {
        secs as i32
    } else {
        i32::MAX
    }
}

} // verus!
