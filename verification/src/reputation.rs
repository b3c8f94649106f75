//! Reputation tiers and the integer counts a user reputation is built from.
use vstd::prelude::*;

verus! {

/// How far a user has proven themselves.
#[derive(Debug, Clone, Copy, PartialEq, Eq)]
pub enum ReputationTier {
    Unproven,
    Emerging,
    Trusted,
    Core,
}

impl ReputationTier {
    pub open spec fn name(self) -> Seq<char> {
        match self {
            ReputationTier::Unproven => "unproven"@,
            ReputationTier::Emerging => "emerging"@,
            ReputationTier::Trusted => "trusted"@,
            ReputationTier::Core => "core"@,
        }
    }

    pub fn as_str(self) -> (r: &'static str)
        ensures
            r@ == self.name(),
    {
        match self {
            ReputationTier::Unproven => "unproven",
            ReputationTier::Emerging => "emerging",
            ReputationTier::Trusted => "trusted",
            ReputationTier::Core => "core",
        }
    }
}

/// A user's reputation: tier, account age and signal counts.
#[derive(Debug, Clone)]
pub struct UserReputation {
    pub user_id: u128,
    pub tier: ReputationTier,
    pub account_age_days: i64,
    pub passive_signal_count: i64,
    pub resolve_count: i64,
    pub re_resolve_count: i64,
    pub build_success_count: i64,
    pub build_failure_count: i64,
    pub regret_count: i64,
}

impl UserReputation {
    /// The counts are non-negative and their totals fit in an `i64`.
    pub open spec fn counts_fit(self) -> bool {
        &&& self.resolve_count >= 0
        &&& self.re_resolve_count >= 0
        &&& self.build_success_count >= 0
        &&& self.build_failure_count >= 0
        &&& self.regret_count >= 0
        &&& self.resolve_count + self.re_resolve_count + self.build_success_count
            + self.build_failure_count + self.regret_count <= i64::MAX
    }

    pub open spec fn usage_total(self) -> int {
        self.resolve_count + self.re_resolve_count + self.build_success_count
            + self.build_failure_count + self.regret_count
    }

    /// All reported real-usage outcomes.
    pub fn usage_signal_count(&self) -> (r: i64)
        requires
            self.counts_fit(),
        ensures
            r == self.usage_total(),
    {
        self.resolve_count + self.re_resolve_count + self.build_success_count
            + self.build_failure_count + self.regret_count
    }

    /// The positive outcomes: resolves, re-resolves and successful builds.
    pub fn positive_outcome_count(&self) -> (r: i64)
        requires
            self.counts_fit(),
        ensures
            r == self.resolve_count + self.re_resolve_count + self.build_success_count,
    {
        self.resolve_count + self.re_resolve_count + self.build_success_count
    }

    /// Active signals from unproven or emerging users (review weight below
    /// 0.6) go through strict review.
    pub fn requires_strict_active_review(&self) -> (r: bool)
        ensures
            r == (self.tier == ReputationTier::Unproven || self.tier == ReputationTier::Emerging),
    {
        match self.tier {
            ReputationTier::Unproven | ReputationTier::Emerging => true,
            _ => false,
        }
    }

    /// The activity half of active-signal eligibility: at least five passive
    /// signals, an account at least seven days old, at least three real-usage
    /// outcomes. (The other half compares the score with the threshold.)
    pub fn meets_activity_requirements(&self) -> (r: bool)
        requires
            self.counts_fit(),
        ensures
            r == (self.passive_signal_count >= 5 && self.account_age_days >= 7
                && self.usage_total() >= 3),
    {
        self.passive_signal_count >= 5 && self.account_age_days >= 7
            && self.usage_signal_count() >= 3
    }
}

} // verus!
