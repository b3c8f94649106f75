//! The decisions of structural GitHub ingestion: which pages to request,
//! when to stop paging, how to read each answer, and how the answers and
//! the stored state combine into a repository's structural signals. The
//! requests themselves are made by the caller, which hands each answer back.
use vstd::prelude::*;

use crate::error::ApiError;
use crate::github_client::{api_failure_spec, github_api_failure, latest, summarize_releases};
use crate::github_structural::{
    decode_readme_content, events_in_range, last_activity, inactive_days, owner_activity_summary,
    readme_spec, CommitTally, GitHubRepoEvent, OwnerActivitySummary, COMMITS_30D_WINDOW,
    COMMITS_LOOKBACK_DAYS,
};
use crate::github_client::chrono_timestamp_ok;
use crate::text::{int_decimal, lower_seq, owned, push_str, u64_to_string};

verus! {

pub const RELEASES_PER_PAGE: u32 = 100;
pub const RELEASES_MAX_PAGES: u32 = 5;
pub const TAGS_PER_PAGE: u32 = 100;

/// `/repos/{owner}/{name}/releases?per_page=100`, with `&page={page}` after
/// the first page.
pub open spec fn releases_page_path_spec(owner: Seq<char>, name: Seq<char>, page: u32) -> Seq<char> {
    let base = "/repos/"@ + owner + "/"@ + name + "/releases?per_page=100"@;
    if page == 1 {
        base
    } else {
        base + "&page="@ + int_decimal(page as int)
    }
}

pub fn releases_page_path(owner: &str, name: &str, page: u32) -> (r: String)
    ensures
        r@ == releases_page_path_spec(owner@, name@, page),
{
    let mut r = owned("/repos/");
    push_str(&mut r, owner);
    push_str(&mut r, "/");
    push_str(&mut r, name);
    push_str(&mut r, "/releases?per_page=100");
    if page != 1 {
        push_str(&mut r, "&page=");
        push_str(&mut r, u64_to_string(page as u64).as_str());
    }
    r
}

/// A repository's releases count, latest release and releases ETag; times
/// in seconds since the Unix epoch.
#[derive(Debug, Clone, PartialEq, Eq)]
pub struct ReleaseFetchResult {
    pub releases_count: Option<i32>,
    pub last_release_at: Option<i64>,
    pub etag: Option<String>,
}

/// One page of releases as GitHub answered it: whether it was not modified
/// (only the first page is asked conditionally), its ETag, and the
/// publication time of each release on it.
#[derive(Debug, Clone)]
pub struct ReleasePage {
    pub not_modified: bool,
    pub etag: Option<String>,
    pub published_at: Vec<Option<i64>>,
}

/// What the release pager does next.
#[derive(Debug, Clone, PartialEq, Eq)]
pub enum PagerStep {
    /// Ask for this page (the stored ETag goes with the first page only).
    Fetch(u32),
    /// Stop with this result.
    Finish(ReleaseFetchResult),
}

/// Paging through a repository's releases, at most five pages of a hundred.
#[derive(Debug, Clone)]
pub struct ReleasePager {
    pub page: u32,
    pub published_at: Vec<Option<i64>>,
    pub etag: Option<String>,
    pub existing_count: Option<i32>,
    pub existing_last: Option<i64>,
}

impl ReleasePager {
    /// The pager is on one of the pages it may ask for.
    pub open spec fn wf(&self) -> bool {
        1 <= self.page <= RELEASES_MAX_PAGES
    }

    /// A pager on the first page, keeping the stored count and latest
    /// release for an unmodified answer.
    pub fn new(existing_count: Option<i32>, existing_last: Option<i64>) -> (r: ReleasePager)
        ensures
            r.wf(),
            r.page == 1,
            r.published_at@ == Seq::<Option<i64>>::empty(),
            r.etag is None,
            r.existing_count == existing_count,
            r.existing_last == existing_last,
    {
        ReleasePager {
            page: 1,
            published_at: Vec::new(),
            etag: None,
            existing_count,
            existing_last,
        }
    }

    /// Takes the answer for the current page. An unmodified first page
    /// keeps the stored count and latest release with the answer's ETag.
    /// Otherwise the page's releases are added, the first page's ETag is
    /// kept, and the pager stops after a page of fewer than a hundred
    /// releases or after the fifth page, with the number of releases and
    /// the latest publication; else it asks for the next page.
    pub fn step(&mut self, response: ReleasePage) -> (r: PagerStep)
        requires
            old(self).wf(),
        ensures
            old(self).page == 1 && response.not_modified ==> r == PagerStep::Finish(
                ReleaseFetchResult {
                    releases_count: old(self).existing_count,
                    last_release_at: old(self).existing_last,
                    etag: response.etag,
                },
            ),
            !(old(self).page == 1 && response.not_modified) ==> {
                let etag = if old(self).page == 1 {
                    response.etag
                } else {
                    old(self).etag
                };
                let all = old(self).published_at@ + response.published_at@;
                if response.published_at@.len() < RELEASES_PER_PAGE || old(self).page
                    == RELEASES_MAX_PAGES {
                    r == PagerStep::Finish(
                        ReleaseFetchResult {
                            releases_count: Some(all.len() as i32),
                            last_release_at: latest(all),
                            etag,
                        },
                    )
                } else {
                    &&& r == PagerStep::Fetch((old(self).page + 1) as u32)
                    &&& final(self).wf()
                    &&& final(self).page == old(self).page + 1
                    &&& final(self).published_at@ == all
                    &&& final(self).etag == etag
                    &&& final(self).existing_count == old(self).existing_count
                    &&& final(self).existing_last == old(self).existing_last
                }
            },
    {
        if self.page == 1 && response.not_modified {
            return PagerStep::Finish(
                ReleaseFetchResult {
                    releases_count: self.existing_count,
                    last_release_at: self.existing_last,
                    etag: response.etag,
                },
            );
        }
        let full = response.published_at.len() >= RELEASES_PER_PAGE as usize;
        if self.page == 1 {
            self.etag = response.etag;
        }
        let ghost before = self.published_at@;
        let ghost page0 = self.page;
        let ghost etag0 = self.etag;
        let ghost count0 = self.existing_count;
        let ghost last0 = self.existing_last;
        let batch = response.published_at;
        for i in 0..batch.len()
            invariant
                self.published_at@ == before + batch@.take(i as int),
                self.page == page0,
                self.etag == etag0,
                self.existing_count == count0,
                self.existing_last == last0,
        {
            self.published_at.push(batch[i]);
            assert(before + batch@.take(i + 1) =~= (before + batch@.take(i as int)).push(batch@[i as int]));
        }
        assert(batch@.take(batch@.len() as int) =~= batch@);
        if !full || self.page == RELEASES_MAX_PAGES {
            let (count, last) = summarize_releases(self.published_at.as_slice());
            let etag = self.etag.take();
            return PagerStep::Finish(ReleaseFetchResult { releases_count: Some(count), last_release_at: last, etag });
        }
        self.page = self.page + 1;
        PagerStep::Fetch(self.page)
    }
}

// ---------------------------------------------------------------------------
// Tags as a fallback for releases
// ---------------------------------------------------------------------------

/// `/repos/{owner}/{name}/tags?per_page=100`.
pub fn tags_path(owner: &str, name: &str) -> (r: String)
    ensures
        r@ == "/repos/"@ + owner@ + "/"@ + name@ + "/tags?per_page=100"@,
{
    let mut r = owned("/repos/");
    push_str(&mut r, owner);
    push_str(&mut r, "/");
    push_str(&mut r, name);
    push_str(&mut r, "/tags?per_page=100");
    r
}

/// The estimate drawn from a repository's first page of tags: their
/// number, with no date and no ETag.
pub fn tag_estimate(tag_count: usize) -> (r: ReleaseFetchResult)
    ensures
        r == (ReleaseFetchResult { releases_count: Some(tag_count as i32), last_release_at: None, etag: None }),
{
    ReleaseFetchResult { releases_count: Some(tag_count as i32), last_release_at: None, etag: None }
}

pub open spec fn count_or_zero(c: Option<i32>) -> int {
    match c {
        Some(n) => n as int,
        None => 0,
    }
}

/// The tags are consulted only when paging found no release.
pub fn needs_tag_estimate(paged: &ReleaseFetchResult) -> (r: bool)
    ensures
        r == (count_or_zero(paged.releases_count) <= 0),
{
    match paged.releases_count {
        Some(n) => n <= 0,
        None => true,
    }
}

/// The tag estimate replaces the paged result when it found tags.
pub fn prefer_tag_estimate(paged: ReleaseFetchResult, tags: ReleaseFetchResult) -> (r: ReleaseFetchResult)
    ensures
        r == if count_or_zero(tags.releases_count) > 0 {
            tags
        } else {
            paged
        },
{
    let found = match tags.releases_count {
        Some(n) => n > 0,
        None => false,
    };
    if found {
        tags
    } else {
        paged
    }
}

// ---------------------------------------------------------------------------
// Continuous integration
// ---------------------------------------------------------------------------

/// The answer to a repository-content lookup: found (and whether it lists
/// any item), not found (404), or failed otherwise.
#[derive(Debug, Clone, Copy, PartialEq, Eq)]
pub enum ContentAnswer {
    Found { has_items: bool },
    NotFound,
    Failed,
}

/// A workflows directory shows CI when it lists a workflow.
pub fn workflows_verdict(answer: ContentAnswer) -> (r: Option<bool>)
    ensures
        r == match answer {
            ContentAnswer::Found { has_items } => Some(has_items),
            ContentAnswer::NotFound => Some(false),
            ContentAnswer::Failed => None,
        },
{
    match answer {
        ContentAnswer::Found { has_items } => Some(has_items),
        ContentAnswer::NotFound => Some(false),
        ContentAnswer::Failed => None,
    }
}

/// A configuration file shows CI when it exists.
pub fn path_verdict(answer: ContentAnswer) -> (r: Option<bool>)
    ensures
        r == match answer {
            ContentAnswer::Found { .. } => Some(true),
            ContentAnswer::NotFound => Some(false),
            ContentAnswer::Failed => None,
        },
{
    match answer {
        ContentAnswer::Found { .. } => Some(true),
        ContentAnswer::NotFound => Some(false),
        ContentAnswer::Failed => None,
    }
}

/// The paths of the CI configurations looked for besides GitHub workflows,
/// in order.
pub open spec fn ci_paths() -> Seq<Seq<char>> {
    seq![".gitlab-ci.yml"@, "azure-pipelines.yml"@, ".circleci/config.yml"@]
}

/// A lookup the CI probe asks for.
#[derive(Debug, Clone, Copy, PartialEq, Eq)]
pub enum CiCheck {
    /// List `.github/workflows`.
    Workflows,
    /// Look up the file at this path.
    Path(&'static str),
}

/// What the CI probe does next.
#[derive(Debug, Clone, Copy, PartialEq, Eq)]
pub enum CiStep {
    Check(CiCheck),
    Done(Option<bool>),
}

/// Probing a repository for CI: GitHub workflows, then each configuration
/// file, then the workflows again; the first positive answer settles it,
/// and the last answer stands otherwise.
#[derive(Debug, Clone, Copy)]
pub struct CiProbe {
    /// 0: the first workflows lookup; 1 to 3: the configuration files; 4:
    /// the last workflows lookup.
    pub stage: u8,
}

pub open spec fn ci_check_at(stage: int) -> Option<Seq<char>> {
    if 1 <= stage <= 3 {
        Some(ci_paths()[stage - 1])
    } else {
        None
    }
}

pub open spec fn check_view(c: CiCheck) -> Option<Seq<char>> {
    match c {
        CiCheck::Workflows => None,
        CiCheck::Path(p) => Some(p@),
    }
}

fn ci_path(stage: u8) -> (r: &'static str)
    requires
        1 <= stage <= 3,
    ensures
        Some(r@) == ci_check_at(stage as int),
{
    if stage == 1 {
        ".gitlab-ci.yml"
    } else if stage == 2 {
        "azure-pipelines.yml"
    } else {
        ".circleci/config.yml"
    }
}

impl CiProbe {
    pub open spec fn wf(&self) -> bool {
        self.stage <= 4
    }

    /// A probe that starts with the GitHub workflows.
    pub fn new() -> (r: (CiProbe, CiCheck))
        ensures
            r.0.wf(),
            r.0.stage == 0,
            r.1 == CiCheck::Workflows,
    {
        (CiProbe { stage: 0 }, CiCheck::Workflows)
    }

    /// Takes the verdict of the current lookup: a positive one ends the
    /// probe with CI found; the last lookup's verdict ends it as it is;
    /// otherwise the probe moves to the next lookup.
    pub fn step(&mut self, verdict: Option<bool>) -> (r: CiStep)
        requires
            old(self).wf(),
        ensures
            verdict == Some(true) ==> r == CiStep::Done(Some(true)),
            verdict != Some(true) && old(self).stage == 4 ==> r == CiStep::Done(verdict),
            verdict != Some(true) && old(self).stage < 4 ==> {
                &&& final(self).wf()
                &&& final(self).stage == old(self).stage + 1
                &&& r matches CiStep::Check(c)
                &&& if final(self).stage == 4 {
                    c == CiCheck::Workflows
                } else {
                    check_view(c) == ci_check_at(final(self).stage as int)
                }
            },
    {
        if verdict == Some(true) {
            return CiStep::Done(Some(true));
        }
        if self.stage == 4 {
            return CiStep::Done(verdict);
        }
        self.stage = self.stage + 1;
        if self.stage == 4 {
            CiStep::Check(CiCheck::Workflows)
        } else {
            CiStep::Check(CiCheck::Path(ci_path(self.stage)))
        }
    }
}

// ---------------------------------------------------------------------------
// README and events
// ---------------------------------------------------------------------------

/// `/repos/{owner}/{name}/readme`.
pub fn readme_path(owner: &str, name: &str) -> (r: String)
    ensures
        r@ == "/repos/"@ + owner@ + "/"@ + name@ + "/readme"@,
{
    let mut r = owned("/repos/");
    push_str(&mut r, owner);
    push_str(&mut r, "/");
    push_str(&mut r, name);
    push_str(&mut r, "/readme");
    r
}

/// A README's text, when there is one, and its ETag.
#[derive(Debug, Clone)]
pub struct ReadmeFetch {
    pub content: Option<String>,
    pub etag: Option<String>,
}

/// A failed README request: a missing README reads as none; any other
/// failure stands.
pub fn readme_after_error(err: ApiError) -> (r: Result<ReadmeFetch, ApiError>)
    ensures
        err.status == crate::error::STATUS_NOT_FOUND ==> (r matches Ok(f) && f.content is None
            && f.etag is None),
        err.status != crate::error::STATUS_NOT_FOUND ==> r == Err::<ReadmeFetch, ApiError>(err),
{
    if err.status == crate::error::STATUS_NOT_FOUND {
        Ok(ReadmeFetch { content: None, etag: None })
    } else {
        Err(err)
    }
}

/// The body of a README answer: its content and encoding, when given.
#[derive(Debug, Clone)]
pub struct ReadmeAnswer {
    pub content: Option<String>,
    pub encoding: Option<String>,
}

pub open spec fn encoding_or_base64(e: Option<String>) -> Seq<char> {
    match e {
        Some(x) => x@,
        None => "base64"@,
    }
}

/// A README answer: unmodified, without a body or without content, there
/// is no text (the answer's ETag is kept); otherwise the content is decoded
/// with its encoding, base64 when none is given.
pub fn readme_from_answer(
    not_modified: bool,
    etag: Option<String>,
    data: Option<ReadmeAnswer>,
) -> (r: Result<ReadmeFetch, ApiError>)
    ensures
        match data {
            Some(ReadmeAnswer { content: Some(c), encoding }) if !not_modified => match readme_spec(
                c@,
                encoding_or_base64(encoding),
            ) {
                Ok(t) => r matches Ok(f) && f.content matches Some(x) && x@ == t && f.etag == etag,
                Err(m) => r matches Err(e) && e.is_internal(m),
            },
            _ => r matches Ok(f) && f.content is None && f.etag == etag,
        },
{
    if not_modified {
        return Ok(ReadmeFetch { content: None, etag });
    }
    let answer = match data {
        Some(a) => a,
        None => {
            return Ok(ReadmeFetch { content: None, etag });
        },
    };
    let content = match answer.content {
        Some(c) => c,
        None => {
            return Ok(ReadmeFetch { content: None, etag });
        },
    };
    let encoding = match answer.encoding {
        Some(e) => e,
        None => owned("base64"),
    };
    match decode_readme_content(content.as_str(), encoding.as_str()) {
        Ok(text) => Ok(ReadmeFetch { content: Some(text), etag }),
        Err(e) => Err(e),
    }
}

/// `/repos/{owner}/{name}/events?per_page=100`.
pub fn events_path(owner: &str, name: &str) -> (r: String)
    ensures
        r@ == "/repos/"@ + owner@ + "/"@ + name@ + "/events?per_page=100"@,
{
    let mut r = owned("/repos/");
    push_str(&mut r, owner);
    push_str(&mut r, "/");
    push_str(&mut r, name);
    push_str(&mut r, "/events?per_page=100");
    r
}

/// The owner's activity and the events ETag.
#[derive(Debug, Clone)]
pub struct OwnerActivityFetch {
    pub summary: OwnerActivitySummary,
    pub etag: Option<String>,
}

/// An events answer: unmodified, the stored activity stands; otherwise it
/// is summarized from the events (none when the answer had no body).
pub fn owner_activity_from(
    not_modified: bool,
    etag: Option<String>,
    events: Vec<GitHubRepoEvent>,
    owner: &str,
    now: i64,
    existing_last_activity_at: Option<i64>,
    existing_inactive_days: Option<i32>,
) -> (r: OwnerActivityFetch)
    requires
        chrono_timestamp_ok(now as int),
        events_in_range(events@),
    ensures
        r.etag == etag,
        not_modified ==> r.summary.owner_last_activity_at == existing_last_activity_at
            && r.summary.owner_inactive_days == existing_inactive_days,
        !not_modified ==> r.summary.owner_last_activity_at == last_activity(events@, lower_seq(owner@))
            && r.summary.owner_inactive_days == (match last_activity(events@, lower_seq(owner@)) {
            Some(last) => Some(inactive_days(now as int, last as int) as i32),
            None => None,
        }),
{
    let summary = if not_modified {
        OwnerActivitySummary {
            owner_last_activity_at: existing_last_activity_at,
            owner_inactive_days: existing_inactive_days,
        }
    } else {
        owner_activity_summary(events.as_slice(), owner, now)
    };
    OwnerActivityFetch { summary, etag }
}

// ---------------------------------------------------------------------------
// Commits
// ---------------------------------------------------------------------------

pub const COMMITS_PER_PAGE: u8 = 100;
pub const COMMITS_MAX_PAGES: u32 = 5;
pub const SECS_PER_DAY: i64 = 86_400;

/// The start of the ninety-day and of the thirty-day commit windows.
pub fn commit_cutoffs(now: i64) -> (r: (i64, i64))
    requires
        chrono_timestamp_ok(now as int),
    ensures
        r.0 == now - COMMITS_LOOKBACK_DAYS * SECS_PER_DAY,
        r.1 == now - COMMITS_30D_WINDOW * SECS_PER_DAY,
{
    (now - COMMITS_LOOKBACK_DAYS * SECS_PER_DAY, now - COMMITS_30D_WINDOW * SECS_PER_DAY)
}

/// Paging through commits: at most five pages.
#[derive(Debug, Clone, Copy)]
pub struct CommitPager {
    pub pages_remaining: u32,
}

impl CommitPager {
    pub fn new() -> (r: CommitPager)
        ensures
            r.pages_remaining == COMMITS_MAX_PAGES,
    {
        CommitPager { pages_remaining: COMMITS_MAX_PAGES }
    }

    /// After reading a page: whether to ask for the next one (when there is
    /// one).
    pub fn after_page(&mut self) -> (r: bool)
        ensures
            final(self).pages_remaining == if old(self).pages_remaining == 0 {
                0
            } else {
                (old(self).pages_remaining - 1) as u32
            },
            r == (final(self).pages_remaining != 0),
    {
        self.pages_remaining = self.pages_remaining.saturating_sub(1);
        self.pages_remaining != 0
    }
}

// ---------------------------------------------------------------------------
// Structural signals
// ---------------------------------------------------------------------------

/// What was stored from the last ingestion; times in seconds since the
/// Unix epoch.
#[derive(Debug, Clone, Default)]
pub struct ExistingIngestionState {
    pub repo_etag: Option<String>,
    pub releases_etag: Option<String>,
    pub readme_etag: Option<String>,
    pub events_etag: Option<String>,
    pub releases_count: Option<i32>,
    pub last_release_at: Option<i64>,
    pub owner_last_activity_at: Option<i64>,
    pub owner_inactive_days: Option<i32>,
}

/// A repository's structural signals; times in seconds since the Unix
/// epoch.
#[derive(Debug, Clone)]
pub struct StructuralSignals {
    pub distinct_contributors_90d: Option<i32>,
    pub commits_30d: Option<i32>,
    pub has_ci: Option<bool>,
    pub releases_count: Option<i32>,
    pub last_release_at: Option<i64>,
    pub captured_at: Option<i64>,
    pub owner_last_activity_at: Option<i64>,
    pub owner_inactive_days: Option<i32>,
    pub releases_etag: Option<String>,
    pub events_etag: Option<String>,
}

/// The structural signals from what each lookup gave (`None` for a failed
/// one): a failed commits lookup leaves the commit counts unknown, a failed
/// releases lookup leaves the releases unknown but keeps the stored
/// releases ETag, a failed events lookup keeps the stored owner activity
/// and events ETag; the signals are captured now.
pub fn assemble_structural_signals(
    now: i64,
    commits: Option<CommitTally>,
    has_ci: Option<bool>,
    releases: Option<ReleaseFetchResult>,
    owner_activity: Option<OwnerActivityFetch>,
    existing: &ExistingIngestionState,
) -> (r: StructuralSignals)
    ensures
        r.distinct_contributors_90d == (match commits {
            Some(t) => Some(t.distinct_contributors_90d),
            None => None,
        }),
        r.commits_30d == (match commits {
            Some(t) => Some(t.commits_30d),
            None => None,
        }),
        r.has_ci == has_ci,
        r.captured_at == Some(now),
        match releases {
            Some(rel) => r.releases_count == rel.releases_count && r.last_release_at
                == rel.last_release_at && r.releases_etag == rel.etag,
            None => r.releases_count is None && r.last_release_at is None && r.releases_etag
                == existing.releases_etag,
        },
        match owner_activity {
            Some(o) => r.owner_last_activity_at == o.summary.owner_last_activity_at
                && r.owner_inactive_days == o.summary.owner_inactive_days && r.events_etag == o.etag,
            None => r.owner_last_activity_at == existing.owner_last_activity_at
                && r.owner_inactive_days == existing.owner_inactive_days && r.events_etag
                == existing.events_etag,
        },
{
    let (distinct_contributors_90d, commits_30d) = match commits {
        Some(t) => (Some(t.distinct_contributors_90d), Some(t.commits_30d)),
        None => (None, None),
    };
    let (releases_count, last_release_at, releases_etag) = match releases {
        Some(rel) => (rel.releases_count, rel.last_release_at, rel.etag),
        None => (None, None, existing.releases_etag.clone()),
    };
    let (owner_last_activity_at, owner_inactive_days, events_etag) = match owner_activity {
        Some(o) => (o.summary.owner_last_activity_at, o.summary.owner_inactive_days, o.etag),
        None => (
            existing.owner_last_activity_at,
            existing.owner_inactive_days,
            existing.events_etag.clone(),
        ),
    };
    StructuralSignals {
        distinct_contributors_90d,
        commits_30d,
        has_ci,
        releases_count,
        last_release_at,
        captured_at: Some(now),
        owner_last_activity_at,
        owner_inactive_days,
        releases_etag,
        events_etag,
    }
}

// ---------------------------------------------------------------------------
// Repository metadata
// ---------------------------------------------------------------------------

/// `github:{owner}/{name}`, the key a GitHub repository is stored under.
pub fn canonical_slug(owner: &str, name: &str) -> (r: String)
    ensures
        r@ == "github:"@ + owner@ + "/"@ + name@,
{
    let mut r = owned("github:");
    push_str(&mut r, owner);
    push_str(&mut r, "/");
    push_str(&mut r, name);
    r
}

/// `{owner}/{name}`.
pub fn package_name(owner: &str, name: &str) -> (r: String)
    ensures
        r@ == owner@ + "/"@ + name@,
{
    let mut r = owned(owner);
    push_str(&mut r, "/");
    push_str(&mut r, name);
    r
}

/// The error for a failed repository fetch: a GitHub 404 is a repository
/// not found, a GitHub 403 or 429 the GitHub failure of that status, any
/// other failure an internal error naming it.
pub fn repo_fetch_failure(
    owner: &str,
    name: &str,
    github_status: Option<u16>,
    github_message: &str,
    error_text: &str,
) -> (r: ApiError)
    ensures
        github_status == Some(404u16) ==> r.status == crate::error::STATUS_NOT_FOUND && r.message@
            == "github repo not found: "@ + owner@ + "/"@ + name@,
        (github_status == Some(403u16) || github_status == Some(429u16)) ==> (r.status, r.message@)
            == api_failure_spec("GitHub repo fetch"@, github_status->0, None, None, None, github_message@),
        !(github_status == Some(404u16) || github_status == Some(403u16) || github_status == Some(
            429u16,
        )) ==> r.is_internal("github fetch failed: "@ + error_text@),
{
    match github_status {
        Some(404) => {
            let mut m = owned("github repo not found: ");
            push_str(&mut m, owner);
            push_str(&mut m, "/");
            push_str(&mut m, name);
            ApiError::not_found(m.as_str())
        },
        Some(403) | Some(429) => {
            let status = match github_status {
                Some(s) => s,
                None => 0,
            };
            github_api_failure("GitHub repo fetch", status, github_message)
        },
        _ => {
            let mut m = owned("github fetch failed: ");
            push_str(&mut m, error_text);
            ApiError::internal_owned(m)
        },
    }
}

/// A license counts when its SPDX id is neither empty nor `NOASSERTION`.
pub fn license_spdx_of(spdx: Option<String>) -> (r: Option<String>)
    ensures
        r == match spdx {
            Some(s) => if s@.len() > 0 && s@ != "NOASSERTION"@ {
                Some(s)
            } else {
                None
            },
            None => None,
        },
{
    match spdx {
        Some(s) => {
            if crate::text::chars_of(s.as_str()).len() > 0 && !crate::text::str_eq(s.as_str(), "NOASSERTION") {
                Some(s)
            } else {
                None
            }
        },
        None => None,
    }
}

/// The owner GitHub reports, or the one asked for.
pub fn resolved_owner(owner_login: Option<String>, requested: &str) -> (r: String)
    ensures
        r@ == match owner_login {
            Some(l) => l@,
            None => requested@,
        },
{
    match owner_login {
        Some(l) => l,
        None => owned(requested),
    }
}

/// The repository's page: the URL GitHub gives, or
/// `https://github.com/{owner}/{name}`.
pub fn repo_html_url(html_url: Option<String>, owner: &str, name: &str) -> (r: String)
    ensures
        r@ == match html_url {
            Some(u) => u@,
            None => "https://github.com/"@ + owner@ + "/"@ + name@,
        },
{
    match html_url {
        Some(u) => u,
        None => {
            let mut r = owned("https://github.com/");
            push_str(&mut r, owner);
            push_str(&mut r, "/");
            push_str(&mut r, name);
            r
        },
    }
}

/// The branch the latest-commit lookup names: the default branch, when it
/// is not empty.
pub fn commit_branch(default_branch: Option<&str>) -> (r: Option<&str>)
    ensures
        r == match default_branch {
            Some(b) => if b@.len() > 0 {
                Some(b)
            } else {
                None
            },
            None => None,
        },
{
    match default_branch {
        Some(b) => {
            if crate::text::chars_of(b).len() > 0 {
                Some(b)
            } else {
                None
            }
        },
        None => None,
    }
}

/// The last commit of the default branch, else the last push.
pub fn last_commit_or_pushed(latest_commit: Option<i64>, pushed_at: Option<i64>) -> (r: Option<i64>)
    ensures
        r == match latest_commit {
            Some(t) => Some(t),
            None => pushed_at,
        },
{
    match latest_commit {
        Some(t) => Some(t),
        None => pushed_at,
    }
}

/// The README ETag kept after a successful README fetch: the answer's, else
/// the stored one.
pub fn readme_etag_after(fetched: Option<String>, stored: Option<String>) -> (r: Option<String>)
    ensures
        r == match fetched {
            Some(e) => Some(e),
            None => stored,
        },
{
    match fetched {
        Some(e) => Some(e),
        None => stored,
    }
}

} // verus!
