//! How complete and how recent a repository's ingested GitHub data is.
use vstd::prelude::*;

use crate::dimension_state::VitalityInputs;
use crate::text::owned;

verus! {

/// The ingestion status of a repository; times in seconds since the Unix
/// epoch.
#[derive(Debug, Clone)]
pub struct IngestionStatus {
    pub priors_fetched_at: Option<i64>,
    pub structural_signals_at: Option<i64>,
    pub structural_stale: bool,
    pub structural_complete: bool,
    pub partial_fields: Vec<String>,
}

/// Without structural signals, those are what is partial; with them, each
/// of contributors, commits, CI and releases count that was not captured.
pub open spec fn partial_fields_spec(v: VitalityInputs) -> Seq<Seq<char>> {
    if v.structural_signals_at is None {
        seq!["structural_signals"@]
    } else {
        let a: Seq<Seq<char>> = if v.distinct_contributors_90d is None {
            seq!["distinct_contributors_90d"@]
        } else {
            Seq::empty()
        };
        let b = if v.commits_30d is None {
            a.push("commits_30d"@)
        } else {
            a
        };
        let c = if v.has_ci is None {
            b.push("has_ci"@)
        } else {
            b
        };
        if v.releases_count is None {
            c.push("releases_count"@)
        } else {
            c
        }
    }
}

/// Structural signals are stale when never captured or captured more than
/// `stale_secs` seconds before `now`.
pub open spec fn structural_stale_spec(v: VitalityInputs, stale_secs: u64, now: i64) -> bool {
    match v.structural_signals_at {
        None => true,
        Some(at) => now - at > (stale_secs as i64) as int,
    }
}

/// The ingestion status of a repository from when its priors were fetched,
/// its structural signals, the age after which those are stale, and now.
pub fn build_ingestion_status(
    priors_fetched_at: Option<i64>,
    vitality: &VitalityInputs,
    structural_stale_secs: u64,
    now: i64,
) -> (r: IngestionStatus)
    ensures
        r.priors_fetched_at == priors_fetched_at,
        r.structural_signals_at == vitality.structural_signals_at,
        r.partial_fields.deep_view() == partial_fields_spec(*vitality),
        r.structural_stale == structural_stale_spec(*vitality, structural_stale_secs, now),
        r.structural_complete == (vitality.structural_signals_at is Some
            && partial_fields_spec(*vitality).len() == 0),
{
    let structural_signals_at = vitality.structural_signals_at;
    let mut partial_fields: Vec<String> = Vec::new();
    if structural_signals_at.is_none() {
        partial_fields.push(owned("structural_signals"));
    } else {
        if vitality.distinct_contributors_90d.is_none() {
            partial_fields.push(owned("distinct_contributors_90d"));
        }
        if vitality.commits_30d.is_none() {
            partial_fields.push(owned("commits_30d"));
        }
        if vitality.has_ci.is_none() {
            partial_fields.push(owned("has_ci"));
        }
        if vitality.releases_count.is_none() {
            partial_fields.push(owned("releases_count"));
        }
    }
    assert(partial_fields.deep_view() =~= partial_fields_spec(*vitality));
    let limit: i64 = structural_stale_secs as i64;
    let structural_stale = match structural_signals_at {
        None => true,
        Some(at) => (now as i128) - (at as i128) > limit as i128,
    };
    let structural_complete = structural_signals_at.is_some() && partial_fields.len() == 0;
    IngestionStatus {
        priors_fetched_at,
        structural_signals_at,
        structural_stale,
        structural_complete,
        partial_fields,
    }
}

} // verus!
