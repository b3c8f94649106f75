//! The scoring formula's identity, and the signal outcomes it weighs.
use vstd::prelude::*;

use crate::error::ApiError;
use crate::text::{owned, push_str, str_eq};

verus! {

/// The header of a scoring formula file.
#[derive(Debug, Clone)]
pub struct FormulaMeta {
    pub version: String,
    pub created: String,
}

/// The formula version recorded when a repository is added, from the
/// loaded formula header; a formula that failed to load (its error text
/// given) is an internal error.
pub fn formula_version_for_add(loaded: Result<FormulaMeta, String>) -> (r: Result<String, ApiError>)
    ensures
        match loaded {
            Ok(meta) => r matches Ok(v) && v@ == meta.version@,
            Err(e) => r matches Err(err) && err.is_internal("loading formula: "@ + e@),
        },
{
    match loaded {
        Ok(meta) => Ok(meta.version),
        Err(e) => {
            let mut m = owned("loading formula: ");
            push_str(&mut m, e.as_str());
            Err(ApiError::internal_owned(m))
        },
    }
}

/// The kinds of real-usage signal an agent or a user reports.
#[derive(Debug, Clone, Copy, PartialEq, Eq)]
pub enum SignalKind {
    Resolve,
    ReResolve,
    BuildSuccess,
    BuildFailure,
    Regret,
}

impl SignalKind {
    /// The stored name of the outcome.
    pub open spec fn name(self) -> Seq<char> {
        match self {
            SignalKind::Resolve => "resolve"@,
            SignalKind::ReResolve => "re_resolve"@,
            SignalKind::BuildSuccess => "build_success"@,
            SignalKind::BuildFailure => "build_failure"@,
            SignalKind::Regret => "regret"@,
        }
    }

    /// The stored name of the outcome, as the outcome log and its buckets
    /// spell it.
    pub fn as_str(self) -> (r: &'static str)
        ensures
            r@ == self.name(),
    {
        match self {
            SignalKind::Resolve => "resolve",
            SignalKind::ReResolve => "re_resolve",
            SignalKind::BuildSuccess => "build_success",
            SignalKind::BuildFailure => "build_failure",
            SignalKind::Regret => "regret",
        }
    }
}

/// The outcomes that count against a repository: a failed build, a regret,
/// or resolving the same need again.
pub open spec fn negative_outcome_spec(outcome: SignalKind) -> bool {
    outcome == SignalKind::BuildFailure || outcome == SignalKind::Regret || outcome
        == SignalKind::ReResolve
}

/// Whether an outcome counts against a repository.
pub fn is_negative_outcome(outcome: SignalKind) -> (r: bool)
    ensures
        r == negative_outcome_spec(outcome),
{
    match outcome {
        SignalKind::BuildFailure | SignalKind::Regret | SignalKind::ReResolve => true,
        _ => false,
    }
}

/// The bucket an outcome is counted in: re-resolves count as resolves;
/// unknown outcomes count nowhere.
pub open spec fn bucket_spec(outcome: Seq<char>) -> Option<Seq<char>> {
    if outcome == "resolve"@ || outcome == "re_resolve"@ {
        Some("resolve"@)
    } else if outcome == "build_success"@ {
        Some("build_success"@)
    } else if outcome == "build_failure"@ {
        Some("build_failure"@)
    } else if outcome == "regret"@ {
        Some("regret"@)
    } else {
        None
    }
}

/// The bucket of an observed outcome.
pub fn bucket_for(outcome: &str) -> (r: Option<&'static str>)
    ensures
        match r {
            Some(b) => bucket_spec(outcome@) == Some(b@),
            None => bucket_spec(outcome@) is None,
        },
{
    if str_eq(outcome, "resolve") || str_eq(outcome, "re_resolve") {
        Some("resolve")
    } else if str_eq(outcome, "build_success") {
        Some("build_success")
    } else if str_eq(outcome, "build_failure") {
        Some("build_failure")
    } else if str_eq(outcome, "regret") {
        Some("regret")
    } else {
        None
    }
}

} // verus!
