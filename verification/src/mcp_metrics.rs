//! The reporting window and report shapes of the MCP usage metrics.
use vstd::prelude::*;

use crate::error::ApiError;
use crate::text::{any_str_eq, chars_of, lemma_plain_word_normal, lower_chars, lower_seq, push_str,
    string_of, strs, trim_chars, trim_seq};

verus! {

/// The period the metrics cover.
#[derive(Debug, Clone, Copy, PartialEq, Eq)]
pub enum MetricsWindow {
    Day,
    Week,
    Month,
}

/// What a window request parses to: the window, or the offending value
/// (trimmed and lower-cased).
pub open spec fn window_spec(raw: Option<Seq<char>>) -> Result<MetricsWindow, Seq<char>> {
    match raw {
        None => Ok(MetricsWindow::Week),
        Some(r) => {
            let v = lower_seq(trim_seq(r));
            if seq![""@, "7d"@, "week"@].contains(v) {
                Ok(MetricsWindow::Week)
            } else if seq!["24h"@, "day"@, "1d"@].contains(v) {
                Ok(MetricsWindow::Day)
            } else if seq!["30d"@, "month"@].contains(v) {
                Ok(MetricsWindow::Month)
            } else {
                Err(v)
            }
        },
    }
}

/// The message of the error for an unknown window value.
pub open spec fn invalid_window_message(v: Seq<char>) -> Seq<char> {
    "invalid window '"@ + v + "' (expected 24h, 7d or 30d)"@
}

impl MetricsWindow {
    pub open spec fn interval(self) -> Seq<char> {
        match self {
            MetricsWindow::Day => "24 hours"@,
            MetricsWindow::Week => "7 days"@,
            MetricsWindow::Month => "30 days"@,
        }
    }

    pub open spec fn label(self) -> Seq<char> {
        match self {
            MetricsWindow::Day => "24h"@,
            MetricsWindow::Week => "7d"@,
            MetricsWindow::Month => "30d"@,
        }
    }

    /// The SQL interval the window covers.
    pub fn as_interval(self) -> (r: &'static str)
        ensures
            r@ == self.interval(),
    {
        match self {
            MetricsWindow::Day => "24 hours",
            MetricsWindow::Week => "7 days",
            MetricsWindow::Month => "30 days",
        }
    }

    /// The label of the window.
    pub fn as_str(self) -> (r: &'static str)
        ensures
            r@ == self.label(),
    {
        match self {
            MetricsWindow::Day => "24h",
            MetricsWindow::Week => "7d",
            MetricsWindow::Month => "30d",
        }
    }

    /// Parses a window: absent or empty is a week; `24h`/`day`/`1d`,
    /// `7d`/`week`, `30d`/`month` in any case; anything else is a bad request.
    pub fn parse(raw: Option<&str>) -> (r: Result<MetricsWindow, ApiError>)
        ensures
            match r {
                Ok(w) => window_spec(crate::repos::opt_str_view(raw)) == Ok::<
                    MetricsWindow,
                    Seq<char>,
                >(w),
                Err(e) => match window_spec(crate::repos::opt_str_view(raw)) {
                    Err(v) => e.is_bad_request(invalid_window_message(v)),
                    Ok(_) => false,
                },
            },
    {
        match raw {
            None => Ok(MetricsWindow::Week),
            Some(s) => {
                let v = lower_chars(trim_chars(chars_of(s).as_slice()).as_slice());
                let week = ["", "7d", "week"];
                let day = ["24h", "day", "1d"];
                let month = ["30d", "month"];
                assert(strs(week@) =~= seq![""@, "7d"@, "week"@]);
                assert(strs(day@) =~= seq!["24h"@, "day"@, "1d"@]);
                assert(strs(month@) =~= seq!["30d"@, "month"@]);
                if any_str_eq(&week, v.as_slice()) {
                    Ok(MetricsWindow::Week)
                } else if any_str_eq(&day, v.as_slice()) {
                    Ok(MetricsWindow::Day)
                } else if any_str_eq(&month, v.as_slice()) {
                    Ok(MetricsWindow::Month)
                } else {
                    let mut m = String::new();
                    push_str(&mut m, "invalid window '");
                    let vs = string_of(v.as_slice());
                    push_str(&mut m, vs.as_str());
                    push_str(&mut m, "' (expected 24h, 7d or 30d)");
                    Err(ApiError::bad_request_owned(m))
                }
            },
        }
    }
}

/// The MCP usage metrics over a window.
#[derive(Debug)]
pub struct McpMetricsReport {
    pub window: String,
    pub totals: McpTotals,
    pub outcome_distribution: Vec<OutcomeBucket>,
    pub rejection_breakdown: Vec<RejectionBucket>,
    pub top_repos: Vec<RepoVolume>,
    pub top_users: Vec<UserVolume>,
    pub daily_volume: Vec<DailyBucket>,
}

/// Event counts over the window.
#[derive(Debug)]
pub struct McpTotals {
    pub log_usage: i64,
    pub watch_repo: i64,
    pub rejections: i64,
    pub distinct_tokens: i64,
    pub distinct_users: i64,
    pub distinct_repos: i64,
}

/// How many `log_usage` events reported an outcome.
#[derive(Debug)]
pub struct OutcomeBucket {
    pub outcome: String,
    pub count: i64,
}

/// How many calls of a tool were rejected for a reason.
#[derive(Debug)]
pub struct RejectionBucket {
    pub tool: String,
    pub reason: String,
    pub count: i64,
}

/// Activity on one repository.
#[derive(Debug)]
pub struct RepoVolume {
    pub owner: String,
    pub name: String,
    pub log_usage: i64,
    pub watch_repo: i64,
    pub rejections: i64,
}

/// Activity of one user.
#[derive(Debug)]
pub struct UserVolume {
    pub user_id: String,
    pub log_usage: i64,
    pub watch_repo: i64,
    pub rejections: i64,
}

/// Activity on one day.
#[derive(Debug)]
pub struct DailyBucket {
    pub bucket: String,
    pub log_usage: i64,
    pub watch_repo: i64,
    pub rejections: i64,
}

/// A window's label parses back to the window, whatever case and
/// surrounding whitespace it is written with.
pub proof fn lemma_window_round_trip(w: MetricsWindow, raw: Seq<char>)
    requires
        lower_seq(trim_seq(raw)) == w.label(),
    ensures
        window_spec(Some(raw)) == Ok::<MetricsWindow, Seq<char>>(w),
{
    reveal_strlit("");
    reveal_strlit("7d");
    reveal_strlit("week");
    reveal_strlit("24h");
    reveal_strlit("day");
    reveal_strlit("1d");
    reveal_strlit("30d");
    reveal_strlit("month");
    let v = lower_seq(trim_seq(raw));
    let wk = seq![""@, "7d"@, "week"@];
    let dy = seq!["24h"@, "day"@, "1d"@];
    match w {
        MetricsWindow::Week => {
            assert(wk[1] == v);
        },
        MetricsWindow::Day => {
            assert(v[0] == '2');
            assert forall|i: int| 0 <= i < wk.len() implies wk[i] != v by {
                if i == 0 {
                    assert(wk[0].len() == 0);
                } else if i == 1 {
                    assert(wk[1][0] == '7');
                } else {
                    assert(wk[2][0] == 'w');
                }
            }
            assert(dy[0] == v);
        },
        MetricsWindow::Month => {
            assert(v[0] == '3');
            assert forall|i: int| 0 <= i < wk.len() implies wk[i] != v by {
                if i == 0 {
                    assert(wk[0].len() == 0);
                } else if i == 1 {
                    assert(wk[1][0] == '7');
                } else {
                    assert(wk[2][0] == 'w');
                }
            }
            assert forall|i: int| 0 <= i < dy.len() implies dy[i] != v by {
                if i == 0 {
                    assert(dy[0][0] == '2');
                } else if i == 1 {
                    assert(dy[1][0] == 'd');
                } else {
                    assert(dy[2][0] == '1');
                }
            }
            assert(seq!["30d"@, "month"@][0] == v);
        },
    }
}

/// A window's own label parses back to it.
pub proof fn lemma_window_label_parses(w: MetricsWindow)
    ensures
        window_spec(Some(w.label())) == Ok::<MetricsWindow, Seq<char>>(w),
{
    reveal_strlit("24h");
    reveal_strlit("7d");
    reveal_strlit("30d");
    lemma_plain_word_normal(w.label());
    lemma_window_round_trip(w, w.label());
}

} // verus!
