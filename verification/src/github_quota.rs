//! Whether GitHub ingestion is healthy, from the last rate-limit observations.
//! Times are Unix timestamps in seconds.
use vstd::prelude::*;

use crate::text::{chars_of, i64_to_string, int_decimal, owned, parse_i64, parse_i64_spec, push_str, str_eq};

verus! {

pub const LOW_REMAINING_THRESHOLD: i64 = 100;
/// A primary rate-limit hit counts for an hour.
pub const HIT_WINDOW_SECS: i64 = 3600;
/// A secondary rate-limit hit counts for fifteen minutes.
pub const SECONDARY_HIT_WINDOW_SECS: i64 = 900;
/// A low-remaining snapshot counts for thirty minutes.
pub const LOW_SNAPSHOT_WINDOW_SECS: i64 = 1800;

/// The last rate-limit headers GitHub sent.
#[derive(Debug, Clone)]
pub struct GitHubQuotaHeaderSnapshot {
    pub observed_at: i64,
    pub context: String,
    pub remaining: Option<i64>,
    pub limit: Option<i64>,
    pub used: Option<i64>,
    pub reset_at: Option<i64>,
}

/// The last rate-limit hit: when, and which kind (`primary`, `secondary`).
#[derive(Debug, Clone)]
pub struct GitHubQuotaHitRecord {
    pub observed_at: i64,
    pub kind: String,
}

/// Rate-limit markers stored on the artifacts.
#[derive(Debug, Clone)]
pub struct GitHubQuotaDbSignals {
    pub rate_limit_hits_1h: i64,
    pub last_rate_limit_at: Option<i64>,
    pub latest_rate_limit_reset_at: Option<i64>,
    pub stale_github_repos: i64,
    pub github_repo_count: i64,
}

/// The scheduler settings shown beside the quota.
#[derive(Debug, Clone)]
pub struct GitHubQuotaSchedulerContext {
    pub enabled: bool,
    pub ingest_max_repos_per_cycle: usize,
    pub corpus_refresh_stale_secs: u64,
}

/// The public status of ingestion.
#[derive(Debug, Clone, Copy, PartialEq, Eq)]
pub enum PublicIngestionStatus {
    Healthy,
    Degraded,
    Disabled,
}

impl PublicIngestionStatus {
    pub open spec fn name(self) -> Seq<char> {
        match self {
            PublicIngestionStatus::Healthy => "ok"@,
            PublicIngestionStatus::Degraded => "degraded"@,
            PublicIngestionStatus::Disabled => "disabled"@,
        }
    }

    pub fn as_str(self) -> (r: &'static str)
        ensures
            r@ == self.name(),
    {
        match self {
            PublicIngestionStatus::Healthy => "ok",
            PublicIngestionStatus::Degraded => "degraded",
            PublicIngestionStatus::Disabled => "disabled",
        }
    }
}

pub open spec fn token_missing(token: Option<Seq<char>>) -> bool {
    match token {
        None => true,
        Some(t) => t.len() == 0,
    }
}

/// The reasons ingestion is degraded, in order: a recent secondary hit, a
/// recent primary hit, three or more markers in the last hour, no remaining
/// quota, or a recent low remaining quota.
pub open spec fn degraded_reasons_spec(
    db: GitHubQuotaDbSignals,
    snapshot: Option<GitHubQuotaHeaderSnapshot>,
    hit: Option<GitHubQuotaHitRecord>,
    now: i64,
) -> Seq<Seq<char>> {
    let r1: Seq<Seq<char>> = match hit {
        Some(h) => {
            let a: Seq<Seq<char>> = if h.kind@ == "secondary"@ && h.observed_at > now
                - SECONDARY_HIT_WINDOW_SECS {
                seq!["Recent GitHub secondary rate limit"@]
            } else {
                Seq::empty()
            };
            if h.kind@ == "primary"@ && h.observed_at > now - HIT_WINDOW_SECS {
                a.push("Recent GitHub primary rate limit"@)
            } else {
                a
            }
        },
        None => Seq::empty(),
    };
    let r2 = if db.rate_limit_hits_1h >= 3 {
        r1.push(int_decimal(db.rate_limit_hits_1h as int) + " artifact rate-limit markers in the last hour"@)
    } else {
        r1
    };
    match snapshot {
        Some(s) => match s.remaining {
            Some(remaining) => if remaining <= 0 {
                r2.push("GitHub API remaining quota is 0"@)
            } else if remaining <= LOW_REMAINING_THRESHOLD && s.observed_at > now
                - LOW_SNAPSHOT_WINDOW_SECS {
                r2.push("GitHub API remaining quota is low ("@ + int_decimal(remaining as int) + ")"@)
            } else {
                r2
            },
            None => r2,
        },
        None => r2,
    }
}

pub open spec fn opt_string_view(o: Option<String>) -> Option<Seq<char>> {
    match o {
        Some(s) => Some(s@),
        None => None,
    }
}

/// Disabled (with one reason) without a GitHub token; otherwise degraded
/// when there is a reason, ok when there is none.
pub open spec fn assess_spec(
    github_token: Option<Seq<char>>,
    db: GitHubQuotaDbSignals,
    snapshot: Option<GitHubQuotaHeaderSnapshot>,
    hit: Option<GitHubQuotaHitRecord>,
    now: i64,
) -> (PublicIngestionStatus, Seq<Seq<char>>) {
    if token_missing(github_token) {
        (PublicIngestionStatus::Disabled, seq!["GITHUB_TOKEN is not configured"@])
    } else {
        let reasons = degraded_reasons_spec(db, snapshot, hit, now);
        if reasons.len() == 0 {
            (PublicIngestionStatus::Healthy, reasons)
        } else {
            (PublicIngestionStatus::Degraded, reasons)
        }
    }
}

/// Assesses GitHub ingestion at time `now`.
pub fn assess_ingestion(
    github_token: Option<&str>,
    db: &GitHubQuotaDbSignals,
    snapshot: Option<&GitHubQuotaHeaderSnapshot>,
    hit: Option<&GitHubQuotaHitRecord>,
    now: i64,
) -> (r: (PublicIngestionStatus, Vec<String>))
    ensures
        (r.0, r.1.deep_view()) == assess_spec(
            crate::repos::opt_str_view(github_token),
            *db,
            match snapshot {
                Some(s) => Some(*s),
                None => None,
            },
            match hit {
                Some(h) => Some(*h),
                None => None,
            },
            now,
        ),
{
    let mut reasons: Vec<String> = Vec::new();
    let missing = match github_token {
        None => true,
        Some(t) => t.is_empty(),
    };
    if missing {
        reasons.push(owned("GITHUB_TOKEN is not configured"));
        assert(reasons.deep_view() =~= seq!["GITHUB_TOKEN is not configured"@]);
        return (PublicIngestionStatus::Disabled, reasons);
    }
    assert(reasons.deep_view() =~= Seq::<Seq<char>>::empty());
    let wide_now = now as i128;
    if let Some(h) = hit {
        if str_eq(h.kind.as_str(), "secondary") && (h.observed_at as i128) > wide_now
            - SECONDARY_HIT_WINDOW_SECS as i128 {
            let ghost before = reasons.deep_view();
            reasons.push(owned("Recent GitHub secondary rate limit"));
            assert(reasons.deep_view() =~= before.push("Recent GitHub secondary rate limit"@));
        }
        if str_eq(h.kind.as_str(), "primary") && (h.observed_at as i128) > wide_now
            - HIT_WINDOW_SECS as i128 {
            let ghost before = reasons.deep_view();
            reasons.push(owned("Recent GitHub primary rate limit"));
            assert(reasons.deep_view() =~= before.push("Recent GitHub primary rate limit"@));
        }
    }
    if db.rate_limit_hits_1h >= 3 {
        let mut m = i64_to_string(db.rate_limit_hits_1h);
        push_str(&mut m, " artifact rate-limit markers in the last hour");
        let ghost before = reasons.deep_view();
        let ghost mv = m@;
        reasons.push(m);
        assert(reasons.deep_view() =~= before.push(mv));
    }
    if let Some(s) = snapshot {
        if let Some(remaining) = s.remaining {
            if remaining <= 0 {
                let ghost before = reasons.deep_view();
                reasons.push(owned("GitHub API remaining quota is 0"));
                assert(reasons.deep_view() =~= before.push("GitHub API remaining quota is 0"@));
            } else if remaining <= LOW_REMAINING_THRESHOLD && (s.observed_at as i128) > wide_now
                - LOW_SNAPSHOT_WINDOW_SECS as i128 {
                let mut m = owned("GitHub API remaining quota is low (");
                let n = i64_to_string(remaining);
                push_str(&mut m, n.as_str());
                push_str(&mut m, ")");
                let ghost before = reasons.deep_view();
                let ghost mv = m@;
                reasons.push(m);
                assert(reasons.deep_view() =~= before.push(mv));
            }
        }
    }
    if reasons.len() == 0 {
        (PublicIngestionStatus::Healthy, reasons)
    } else {
        (PublicIngestionStatus::Degraded, reasons)
    }
}


/// An optional header value read as an `i64`.
pub open spec fn header_i64(v: Option<Seq<char>>) -> Option<i64> {
    match v {
        Some(t) => match parse_i64_spec(t) {
            Some(x) => Some(x as i64),
            None => None,
        },
        None => None,
    }
}

fn parse_header(v: Option<&str>) -> (r: Option<i64>)
    ensures
        r == header_i64(crate::repos::opt_str_view(v)),
{
    match v {
        Some(t) => parse_i64(chars_of(t).as_slice()),
        None => None,
    }
}

/// The snapshot of a response's rate-limit headers observed at `now`:
/// nothing without a remaining or a limit header; numbers that do not
/// parse are left out, and so is a reset instant chrono cannot represent.
pub fn snapshot_from_headers(
    context: &str,
    remaining: Option<&str>,
    limit: Option<&str>,
    reset: Option<&str>,
    used: Option<&str>,
    now: i64,
) -> (r: Option<GitHubQuotaHeaderSnapshot>)
    ensures
        remaining is None && limit is None ==> r is None,
        !(remaining is None && limit is None) ==> (r matches Some(s) && s.observed_at == now
            && s.context@ == context@ && s.remaining == header_i64(
            crate::repos::opt_str_view(remaining),
        ) && s.limit == header_i64(crate::repos::opt_str_view(limit)) && s.used == header_i64(
            crate::repos::opt_str_view(used),
        ) && s.reset_at == match header_i64(crate::repos::opt_str_view(reset)) {
            Some(t) => if crate::github_client::chrono_timestamp_ok(t as int) {
                Some(t)
            } else {
                None
            },
            None => None,
        }),
{
    if remaining.is_none() && limit.is_none() {
        return None;
    }
    let reset_at = match parse_header(reset) {
        Some(t) => if crate::github_client::timestamp_representable(t) {
            Some(t)
        } else {
            None
        },
        None => None,
    };
    Some(
        GitHubQuotaHeaderSnapshot {
            observed_at: now,
            context: owned(context),
            remaining: parse_header(remaining),
            limit: parse_header(limit),
            used: parse_header(used),
            reset_at,
        },
    )
}

/// The public message of an ingestion status: none when healthy.
pub fn public_status_message(status: PublicIngestionStatus) -> (r: Option<&'static str>)
    ensures
        match status {
            PublicIngestionStatus::Healthy => r is None,
            PublicIngestionStatus::Degraded => r matches Some(m) && m@ == "GitHub ingestion degraded"@,
            PublicIngestionStatus::Disabled => r matches Some(m) && m@ == "GitHub ingestion disabled"@,
        },
{
    match status {
        PublicIngestionStatus::Healthy => None,
        PublicIngestionStatus::Degraded => Some("GitHub ingestion degraded"),
        PublicIngestionStatus::Disabled => Some("GitHub ingestion disabled"),
    }
}

} // verus!
