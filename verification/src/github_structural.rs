//! Structural signals of a GitHub repository: commit cadence and distinct
//! contributors, the owner's last activity, and the README text used for
//! classification. Instants are seconds after the Unix epoch.
use vstd::prelude::*;

use crate::crypto::{b64_decode, base64_decode, base64_error_text, copy_bytes, str_bytes,
    string_from_utf8_lossy, utf8_bytes, utf8_lossy};
use crate::error::ApiError;
use crate::flags::uniq;
use crate::github_client::chrono_timestamp_ok;
use crate::text::{chars_of, ends_with_chars, is_whitespace_char, is_ws, lower_chars, lower_seq,
    owned, push_char, push_str, push_unique_seq, push_unique_str, str_eq, has_suffix};

verus! {

pub const COMMITS_LOOKBACK_DAYS: i64 = 90;
pub const COMMITS_30D_WINDOW: i64 = 30;
/// The README text used for classification is cut to this many bytes.
pub const README_CLASSIFICATION_MAX_BYTES: usize = 80_000;

/// One commit: who made it and when.
#[derive(Debug, Clone)]
pub struct CommitSummary {
    pub author_key: String,
    pub committed_at: i64,
}

/// Commits of the last thirty days, and distinct authors of the window.
#[derive(Debug, Clone, Copy, PartialEq, Eq)]
pub struct CommitTally {
    pub commits_30d: i32,
    pub distinct_contributors_90d: i32,
}

pub open spec fn authors_of(commits: Seq<CommitSummary>) -> Seq<Seq<char>> {
    commits.map_values(|c: CommitSummary| c.author_key@)
}

/// The number of commits at or after the cutoff.
pub open spec fn count_since(commits: Seq<CommitSummary>, cutoff: i64) -> nat
    decreases commits.len(),
{
    if commits.len() == 0 {
        0
    } else {
        count_since(commits.drop_last(), cutoff) + if commits.last().committed_at >= cutoff {
            1nat
        } else {
            0nat
        }
    }
}

/// The distinct authors of the commits, in order of first commit.
pub open spec fn distinct_authors(commits: Seq<CommitSummary>) -> Seq<Seq<char>> {
    crate::text::push_all_unique(Seq::empty(), authors_of(commits))
}

/// Counts the commits at or after `cutoff_30d` (saturating at `i32::MAX`)
/// and the distinct authors.
pub fn tally_commits(commits: &[CommitSummary], cutoff_30d: i64) -> (r: CommitTally)
    ensures
        r.commits_30d == (if count_since(commits@, cutoff_30d) <= i32::MAX {
            count_since(commits@, cutoff_30d) as i32
        } else {
            i32::MAX
        }),
        r.distinct_contributors_90d == distinct_authors(commits@).len() as i32,
{
    let mut authors: Vec<String> = Vec::new();
    let mut commits_30d: i32 = 0;
    let ghost av = authors_of(commits@);
    for i in 0..commits.len()
        invariant
            av == authors_of(commits@),
            authors.deep_view() == crate::text::push_all_unique(Seq::empty(), av.take(i as int)),
            commits_30d == (if count_since(commits@.take(i as int), cutoff_30d) <= i32::MAX {
                count_since(commits@.take(i as int), cutoff_30d) as i32
            } else {
                i32::MAX
            }),
    {
        proof {
            assert(commits@.take(i + 1).drop_last() =~= commits@.take(i as int));
            assert(av.take(i + 1).drop_last() =~= av.take(i as int));
            assert(av.take(i + 1).last() == commits@[i as int].author_key@);
        }
        push_unique_str(&mut authors, commits[i].author_key.as_str());
        if commits[i].committed_at >= cutoff_30d {
            commits_30d = if commits_30d < i32::MAX {
                commits_30d + 1
            } else {
                i32::MAX
            };
        }
    }
    assert(commits@.take(commits@.len() as int) =~= commits@);
    assert(av.take(commits@.len() as int) =~= av);
    CommitTally { commits_30d, distinct_contributors_90d: authors.len() as i32 }
}

/// The author key of a commit: the GitHub login, else the author's email,
/// else the author's name (the first that is present and not empty), else
/// `sha:` and the commit hash.
pub open spec fn author_key_spec(
    login: Option<Seq<char>>,
    email: Option<Seq<char>>,
    name: Option<Seq<char>>,
    sha: Seq<char>,
) -> Seq<char> {
    if login matches Some(l) && l.len() > 0 {
        login->0
    } else if email matches Some(e) && e.len() > 0 {
        email->0
    } else if name matches Some(n) && n.len() > 0 {
        name->0
    } else {
        "sha:"@ + sha
    }
}

pub open spec fn opt_str(o: Option<&str>) -> Option<Seq<char>> {
    match o {
        Some(s) => Some(s@),
        None => None,
    }
}

/// Whom a commit counts for.
pub fn commit_author_key(
    login: Option<&str>,
    email: Option<&str>,
    name: Option<&str>,
    sha: &str,
) -> (r: String)
    ensures
        r@ == author_key_spec(opt_str(login), opt_str(email), opt_str(name), sha@),
{
    if let Some(l) = login {
        if !l.is_empty() {
            return owned(l);
        }
    }
    if let Some(e) = email {
        if !e.is_empty() {
            return owned(e);
        }
    }
    if let Some(n) = name {
        if !n.is_empty() {
            return owned(n);
        }
    }
    let mut r = owned("sha:");
    push_str(&mut r, sha);
    r
}

/// When a commit counts: its author date, else its committer date, else
/// now.
pub fn commit_time(author_date: Option<i64>, committer_date: Option<i64>, now: i64) -> (r: i64)
    ensures
        r == (match author_date {
            Some(a) => a,
            None => match committer_date {
                Some(c) => c,
                None => now,
            },
        }),
{
    match author_date {
        Some(a) => a,
        None => match committer_date {
            Some(c) => c,
            None => now,
        },
    }
}

// ---------------------------------------------------------------------------
// Owner activity
// ---------------------------------------------------------------------------

/// A repository event: its type, who acted, and when.
#[derive(Debug, Clone)]
pub struct GitHubRepoEvent {
    pub event_type: String,
    pub actor_login: String,
    pub created_at: i64,
}

/// When the maintainers were last active, and how many whole days ago.
#[derive(Debug, Clone, Copy, PartialEq, Eq)]
pub struct OwnerActivitySummary {
    pub owner_last_activity_at: Option<i64>,
    pub owner_inactive_days: Option<i32>,
}

/// An event shows maintainer activity unless a bot made it: the owner
/// acting, or a push, release, pull request or issue event.
pub open spec fn maintainer_activity_spec(event_type: Seq<char>, actor: Seq<char>, owner_lower: Seq<char>) -> bool {
    let a = lower_seq(actor);
    if has_suffix(a, "[bot]"@) {
        false
    } else if a == owner_lower {
        true
    } else {
        event_type == "PushEvent"@ || event_type == "ReleaseEvent"@ || event_type
            == "PullRequestEvent"@ || event_type == "IssuesEvent"@
    }
}

/// Whether an event shows maintainer activity, for a lower-cased owner.
pub fn is_maintainer_activity(event: &GitHubRepoEvent, owner_lower: &str) -> (r: bool)
    ensures
        r == maintainer_activity_spec(event.event_type@, event.actor_login@, owner_lower@),
{
    let actor = lower_chars(chars_of(event.actor_login.as_str()).as_slice());
    if ends_with_chars(actor.as_slice(), chars_of("[bot]").as_slice()) {
        return false;
    }
    if crate::text::chars_eq(actor.as_slice(), chars_of(owner_lower).as_slice()) {
        return true;
    }
    let t = event.event_type.as_str();
    str_eq(t, "PushEvent") || str_eq(t, "ReleaseEvent") || str_eq(t, "PullRequestEvent") || str_eq(
        t,
        "IssuesEvent",
    )
}

/// The latest instant of a maintainer event.
pub open spec fn last_activity(events: Seq<GitHubRepoEvent>, owner_lower: Seq<char>) -> Option<i64>
    decreases events.len(),
{
    if events.len() == 0 {
        None
    } else {
        let prev = last_activity(events.drop_last(), owner_lower);
        let e = events.last();
        if maintainer_activity_spec(e.event_type@, e.actor_login@, owner_lower) {
            match prev {
                Some(p) => if p >= e.created_at {
                    Some(p)
                } else {
                    Some(e.created_at)
                },
                None => Some(e.created_at),
            }
        } else {
            prev
        }
    }
}

/// Whole days from `last` to `now`, zero when `last` is later.
pub open spec fn inactive_days(now: int, last: int) -> int {
    if now - last < 0 {
        0
    } else {
        (now - last) / 86400
    }
}

pub open spec fn events_in_range(events: Seq<GitHubRepoEvent>) -> bool {
    forall|i: int|
        0 <= i < events.len() ==> chrono_timestamp_ok((#[trigger] events[i]).created_at as int)
}

/// The owner's last activity among the events (bots ignored) and the whole
/// days since, as seen at `now`.
pub fn owner_activity_summary(events: &[GitHubRepoEvent], owner: &str, now: i64) -> (r:
    OwnerActivitySummary)
    requires
        chrono_timestamp_ok(now as int),
        events_in_range(events@),
    ensures
        r.owner_last_activity_at == last_activity(events@, lower_seq(owner@)),
        r.owner_inactive_days == (match last_activity(events@, lower_seq(owner@)) {
            Some(last) => Some(inactive_days(now as int, last as int) as i32),
            None => None,
        }),
{
    let owner_lower = crate::text::to_ascii_lowercase(owner);
    let mut last: Option<i64> = None;
    for i in 0..events.len()
        invariant
            owner_lower@ == lower_seq(owner@),
            last == last_activity(events@.take(i as int), lower_seq(owner@)),
            events_in_range(events@),
            last matches Some(l) ==> chrono_timestamp_ok(l as int),
    {
        proof {
            assert(events@.take(i + 1).drop_last() =~= events@.take(i as int));
            assert(events@.take(i + 1).last() == events@[i as int]);
        }
        let e = &events[i];
        if is_maintainer_activity(e, owner_lower.as_str()) {
            last = match last {
                Some(p) => if p >= e.created_at {
                    Some(p)
                } else {
                    Some(e.created_at)
                },
                None => Some(e.created_at),
            };
        }
    }
    assert(events@.take(events@.len() as int) =~= events@);
    let days = match last {
        Some(l) => {
            let diff = now - l;
            let clamped = if diff < 0 {
                0
            } else {
                diff / 86400
            };
            assert(clamped <= i32::MAX);
            Some(clamped as i32)
        },
        None => None,
    };
    OwnerActivitySummary { owner_last_activity_at: last, owner_inactive_days: days }
}


// ---------------------------------------------------------------------------
// README text
// ---------------------------------------------------------------------------

/// The text without its whitespace characters.
pub open spec fn without_whitespace(s: Seq<char>) -> Seq<char>
    decreases s.len(),
{
    if s.len() == 0 {
        Seq::empty()
    } else if is_ws(s.last()) {
        without_whitespace(s.drop_last())
    } else {
        without_whitespace(s.drop_last()).push(s.last())
    }
}

/// At most the first `README_CLASSIFICATION_MAX_BYTES` bytes.
pub open spec fn readme_prefix(bytes: Seq<u8>) -> Seq<u8> {
    if bytes.len() > README_CLASSIFICATION_MAX_BYTES {
        bytes.take(README_CLASSIFICATION_MAX_BYTES as int)
    } else {
        bytes
    }
}

/// The README text for classification: base64 content decoded (whitespace
/// ignored), plain content as is; cut to the byte limit and read as UTF-8
/// with invalid sequences replaced. A bad base64 payload or another
/// encoding is an internal error.
pub open spec fn readme_spec(content: Seq<char>, encoding: Seq<char>) -> Result<Seq<char>, Seq<char>> {
    if encoding == "base64"@ {
        match base64_decode(without_whitespace(content)) {
            Some(bytes) => Ok(utf8_lossy(readme_prefix(bytes))),
            None => Err(
                "README base64 decode failed: "@ + base64_error_text(without_whitespace(content)),
            ),
        }
    } else if encoding == "plain"@ {
        Ok(utf8_lossy(readme_prefix(utf8_bytes(content))))
    } else {
        Err("unsupported README encoding: "@ + encoding)
    }
}

fn remove_whitespace(s: &str) -> (r: String)
    ensures
        r@ == without_whitespace(s@),
{
    let cs = chars_of(s);
    let mut r = String::new();
    for i in 0..cs.len()
        invariant
            cs@ == s@,
            r@ == without_whitespace(cs@.take(i as int)),
    {
        proof {
            assert(cs@.take(i + 1).drop_last() =~= cs@.take(i as int));
            assert(cs@.take(i + 1).last() == cs@[i as int]);
        }
        if !is_whitespace_char(cs[i]) {
            push_char(&mut r, cs[i]);
        }
    }
    assert(cs@.take(cs@.len() as int) =~= cs@);
    r
}

/// The README text used for classification.
pub fn decode_readme_content(content: &str, encoding: &str) -> (r: Result<String, ApiError>)
    ensures
        match readme_spec(content@, encoding@) {
            Ok(t) => r matches Ok(x) && x@ == t,
            Err(m) => r matches Err(e) && e.is_internal(m),
        },
{
    let bytes: Vec<u8> = if str_eq(encoding, "base64") {
        let compact = remove_whitespace(content);
        match b64_decode(compact.as_str()) {
            Ok(b) => b,
            Err(m) => {
                let mut msg = owned("README base64 decode failed: ");
                push_str(&mut msg, m.as_str());
                return Err(ApiError::internal_owned(msg));
            },
        }
    } else if str_eq(encoding, "plain") {
        str_bytes(content)
    } else {
        let mut msg = owned("unsupported README encoding: ");
        push_str(&mut msg, encoding);
        return Err(ApiError::internal_owned(msg));
    };
    let limited = if bytes.len() > README_CLASSIFICATION_MAX_BYTES {
        copy_bytes(bytes.as_slice(), 0, README_CLASSIFICATION_MAX_BYTES)
    } else {
        bytes
    };
    Ok(string_from_utf8_lossy(limited.as_slice()))
}


proof fn lemma_push_all_unique_bounds(acc: Seq<Seq<char>>, xs: Seq<Seq<char>>)
    requires
        acc.no_duplicates(),
    ensures
        crate::text::push_all_unique(acc, xs).no_duplicates(),
        crate::text::push_all_unique(acc, xs).len() <= acc.len() + xs.len(),
        forall|x: Seq<char>| #[trigger] xs.contains(x) ==> crate::text::push_all_unique(
            acc,
            xs,
        ).contains(x),
    decreases xs.len(),
{
    if xs.len() > 0 {
        lemma_push_all_unique_bounds(acc, xs.drop_last());
        let prev = crate::text::push_all_unique(acc, xs.drop_last());
        let x = xs.last();
        if !prev.contains(x) {
            let r = prev.push(x);
            assert forall|i: int, j: int| 0 <= i < r.len() && 0 <= j < r.len() && i != j implies r[i]
                != r[j] by {
                if i == prev.len() as int {
                    assert(prev.contains(r[j]));
                } else if j == prev.len() as int {
                    assert(prev.contains(r[i]));
                }
            }
        }
        let r = crate::text::push_all_unique(acc, xs);
        assert forall|y: Seq<char>| #[trigger] xs.contains(y) implies r.contains(y) by {
            let k = choose|k: int| 0 <= k < xs.len() && xs[k] == y;
            if k < xs.len() - 1 {
                assert(xs.drop_last()[k] == y);
                assert(xs.drop_last().contains(y));
                let j = choose|j: int| 0 <= j < prev.len() && prev[j] == y;
                if !prev.contains(x) {
                    assert(prev.push(x)[j] == y);
                }
            } else if !prev.contains(x) {
                assert(prev.push(x)[prev.len() as int] == y);
            }
        }
    }
}

/// The contributors counted are distinct, every commit's author is among
/// them, and there are no more of them than commits.
pub proof fn lemma_distinct_authors(commits: Seq<CommitSummary>)
    ensures
        distinct_authors(commits).no_duplicates(),
        distinct_authors(commits).len() <= commits.len(),
        forall|i: int|
            0 <= i < commits.len() ==> distinct_authors(commits).contains(
                #[trigger] commits[i].author_key@,
            ),
{
    lemma_push_all_unique_bounds(Seq::empty(), authors_of(commits));
    assert forall|i: int| 0 <= i < commits.len() implies distinct_authors(commits).contains(
        #[trigger] commits[i].author_key@,
    ) by {
        assert(authors_of(commits)[i] == commits[i].author_key@);
        assert(authors_of(commits).contains(commits[i].author_key@));
    }
}

/// No more commits fall in the thirty-day window than there are commits.
pub proof fn lemma_window_count_bounded(commits: Seq<CommitSummary>, cutoff: i64)
    ensures
        count_since(commits, cutoff) <= commits.len(),
    decreases commits.len(),
{
    if commits.len() > 0 {
        lemma_window_count_bounded(commits.drop_last(), cutoff);
    }
}

} // verus!
