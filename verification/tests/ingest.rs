use usestakly::github_client::{not_modified_etag, response_verdict, RateLimitHeaders, ResponseVerdict};
use usestakly::github_ingest::{
    assemble_structural_signals, canonical_slug, commit_branch, last_commit_or_pushed,
    license_spdx_of, package_name, readme_etag_after, repo_fetch_failure, repo_html_url,
    resolved_owner, commit_cutoffs, events_path, needs_tag_estimate, owner_activity_from,
    path_verdict, prefer_tag_estimate, readme_after_error, readme_from_answer, readme_path,
    releases_page_path, tag_estimate, tags_path, workflows_verdict, CiCheck, CiProbe, CiStep,
    CommitPager, ContentAnswer, ExistingIngestionState, PagerStep, ReadmeAnswer, ReleaseFetchResult,
    ReleasePage, ReleasePager,
};
use usestakly::error::ApiError;
use usestakly::github_structural::CommitTally;

fn page(n: usize, etag: Option<&str>) -> ReleasePage {
    ReleasePage {
        not_modified: false,
        etag: etag.map(str::to_string),
        published_at: (0..n).map(|i| if i % 2 == 0 { Some(i as i64) } else { None }).collect(),
    }
}

#[test]
fn release_paths_name_the_page_after_the_first() {
    assert_eq!(releases_page_path("acme", "tool", 1), "/repos/acme/tool/releases?per_page=100");
    assert_eq!(releases_page_path("acme", "tool", 3), "/repos/acme/tool/releases?per_page=100&page=3");
    assert_eq!(tags_path("acme", "tool"), "/repos/acme/tool/tags?per_page=100");
    assert_eq!(readme_path("acme", "tool"), "/repos/acme/tool/readme");
    assert_eq!(events_path("acme", "tool"), "/repos/acme/tool/events?per_page=100");
}

#[test]
fn unmodified_first_page_keeps_stored_releases() {
    let mut pager = ReleasePager::new(Some(12), Some(500));
    let step = pager.step(ReleasePage { not_modified: true, etag: Some("\"e1\"".to_string()), published_at: vec![] });
    assert_eq!(
        step,
        PagerStep::Finish(ReleaseFetchResult {
            releases_count: Some(12),
            last_release_at: Some(500),
            etag: Some("\"e1\"".to_string())
        })
    );
}

#[test]
fn structural_etag_not_modified_preserves_existing_release_values() {
    // 2026-05-01T00:00:00Z
    let existing_at = 1777593600;
    let mut pager = ReleasePager::new(Some(4), Some(existing_at));
    match pager.step(ReleasePage { not_modified: true, etag: None, published_at: vec![] }) {
        PagerStep::Finish(refreshed) => {
            assert_eq!(refreshed.releases_count, Some(4));
            assert_eq!(refreshed.last_release_at, Some(existing_at));
        }
        other => panic!("unexpected step {other:?}"),
    }
}

#[test]
fn pager_stops_after_a_short_page_and_keeps_the_first_etag() {
    let mut pager = ReleasePager::new(None, None);
    assert_eq!(pager.step(page(100, Some("first"))), PagerStep::Fetch(2));
    match pager.step(page(30, Some("second"))) {
        PagerStep::Finish(result) => {
            assert_eq!(result.releases_count, Some(130));
            assert_eq!(result.last_release_at, Some(98));
            assert_eq!(result.etag, Some("first".to_string()));
        }
        other => panic!("unexpected step {other:?}"),
    }
}

#[test]
fn pager_asks_for_at_most_five_pages() {
    let mut pager = ReleasePager::new(None, None);
    let mut fetches = Vec::new();
    loop {
        match pager.step(page(100, None)) {
            PagerStep::Fetch(p) => fetches.push(p),
            PagerStep::Finish(result) => {
                assert_eq!(result.releases_count, Some(500));
                break;
            }
        }
    }
    assert_eq!(fetches, vec![2, 3, 4, 5]);
}

#[test]
fn tags_stand_in_for_missing_releases() {
    let paged = ReleaseFetchResult { releases_count: Some(0), last_release_at: None, etag: Some("e".to_string()) };
    assert!(needs_tag_estimate(&paged));
    assert!(!needs_tag_estimate(&ReleaseFetchResult { releases_count: Some(3), last_release_at: None, etag: None }));
    let tags = tag_estimate(7);
    assert_eq!(tags, ReleaseFetchResult { releases_count: Some(7), last_release_at: None, etag: None });
    assert_eq!(prefer_tag_estimate(paged.clone(), tags.clone()), tags);
    assert_eq!(prefer_tag_estimate(paged.clone(), tag_estimate(0)), paged);
}

#[test]
fn ci_probe_stops_at_the_first_positive_answer() {
    let (mut probe, first) = CiProbe::new();
    assert_eq!(first, CiCheck::Workflows);
    assert_eq!(probe.step(workflows_verdict(ContentAnswer::NotFound)), CiStep::Check(CiCheck::Path(".gitlab-ci.yml")));
    assert_eq!(probe.step(path_verdict(ContentAnswer::NotFound)), CiStep::Check(CiCheck::Path("azure-pipelines.yml")));
    assert_eq!(probe.step(path_verdict(ContentAnswer::Found { has_items: false })), CiStep::Done(Some(true)));
}

#[test]
fn ci_probe_ends_with_the_second_workflows_answer() {
    let (mut probe, _) = CiProbe::new();
    assert_eq!(probe.step(None), CiStep::Check(CiCheck::Path(".gitlab-ci.yml")));
    assert_eq!(probe.step(Some(false)), CiStep::Check(CiCheck::Path("azure-pipelines.yml")));
    assert_eq!(probe.step(None), CiStep::Check(CiCheck::Path(".circleci/config.yml")));
    assert_eq!(probe.step(Some(false)), CiStep::Check(CiCheck::Workflows));
    assert_eq!(probe.step(workflows_verdict(ContentAnswer::Failed)), CiStep::Done(None));
    assert_eq!(workflows_verdict(ContentAnswer::Found { has_items: true }), Some(true));
}

#[test]
fn readme_answers() {
    let missing = readme_after_error(ApiError::not_found("GitHub README fetch: GitHub returned 404")).unwrap();
    assert!(missing.content.is_none() && missing.etag.is_none());
    assert!(readme_after_error(ApiError::internal("boom")).is_err());

    let unchanged = readme_from_answer(true, Some("e".to_string()), None).unwrap();
    assert!(unchanged.content.is_none());
    assert_eq!(unchanged.etag, Some("e".to_string()));

    let decoded = readme_from_answer(
        false,
        Some("e2".to_string()),
        Some(ReadmeAnswer { content: Some("SGVs\nbG8=".to_string()), encoding: None }),
    )
    .unwrap();
    assert_eq!(decoded.content, Some("Hello".to_string()));
    assert_eq!(decoded.etag, Some("e2".to_string()));
}

#[test]
fn unmodified_events_keep_the_stored_activity() {
    let fetch = owner_activity_from(true, Some("ev".to_string()), Vec::new(), "acme", 1_000_000, Some(900_000), Some(1));
    assert_eq!(fetch.summary.owner_last_activity_at, Some(900_000));
    assert_eq!(fetch.summary.owner_inactive_days, Some(1));
    assert_eq!(fetch.etag, Some("ev".to_string()));
    let fresh = owner_activity_from(false, None, Vec::new(), "acme", 1_000_000, Some(900_000), Some(1));
    assert_eq!(fresh.summary.owner_last_activity_at, None);
}

#[test]
fn failed_lookups_fall_back_as_stored() {
    let existing = ExistingIngestionState {
        releases_etag: Some("rel".to_string()),
        events_etag: Some("ev".to_string()),
        releases_count: Some(4),
        owner_last_activity_at: Some(10),
        owner_inactive_days: Some(2),
        ..ExistingIngestionState::default()
    };
    let s = assemble_structural_signals(99, None, Some(true), None, None, &existing);
    assert_eq!(s.commits_30d, None);
    assert_eq!(s.releases_count, None);
    assert_eq!(s.releases_etag, Some("rel".to_string()));
    assert_eq!(s.owner_last_activity_at, Some(10));
    assert_eq!(s.events_etag, Some("ev".to_string()));
    assert_eq!(s.captured_at, Some(99));

    let tally = CommitTally { commits_30d: 3, distinct_contributors_90d: 2 };
    let s = assemble_structural_signals(99, Some(tally), None, Some(tag_estimate(5)), None, &existing);
    assert_eq!(s.distinct_contributors_90d, Some(2));
    assert_eq!(s.releases_count, Some(5));
    assert_eq!(s.releases_etag, None);
}

#[test]
fn commit_windows_and_pages() {
    assert_eq!(commit_cutoffs(10_000_000), (10_000_000 - 90 * 86_400, 10_000_000 - 30 * 86_400));
    let mut pager = CommitPager::new();
    let asks: Vec<bool> = (0..6).map(|_| pager.after_page()).collect();
    assert_eq!(asks, vec![true, true, true, true, false, false]);
}

#[test]
fn github_answers_are_read_in_order() {
    assert_eq!(not_modified_etag(304, None, Some("\"old\"")), Some(Some("\"old\"".to_string())));
    assert_eq!(not_modified_etag(304, Some("new".to_string()), Some("old")), Some(Some("new".to_string())));
    assert_eq!(not_modified_etag(200, Some("new".to_string()), None), None);

    let none = RateLimitHeaders { remaining: None, reset: None, retry_after: None };
    assert!(matches!(response_verdict(1, 200, &none, "{}", "GitHub repo fetch"), ResponseVerdict::Decode));
    match response_verdict(1, 404, &none, "", "GitHub repo fetch") {
        ResponseVerdict::Fail(e) => {
            assert_eq!(e.status, 404);
            assert_eq!(e.message, "GitHub repo fetch: GitHub returned 404");
        }
        other => panic!("unexpected {other:?}"),
    }
    let secondary = "You have exceeded a secondary rate limit";
    assert!(matches!(response_verdict(1, 403, &none, secondary, "ctx"), ResponseVerdict::RetryAfter(2)));
    match response_verdict(2, 403, &none, secondary, "ctx") {
        ResponseVerdict::Fail(e) => assert_eq!(e.status, 403),
        other => panic!("unexpected {other:?}"),
    }
    match response_verdict(1, 500, &none, "oops", "ctx") {
        ResponseVerdict::Fail(e) => {
            assert_eq!(e.status, 500);
            assert_eq!(e.message, "ctx: GitHub returned 500 (oops)");
        }
        other => panic!("unexpected {other:?}"),
    }
}

#[test]
fn repository_keys_and_defaults() {
    assert_eq!(canonical_slug("acme", "tool"), "github:acme/tool");
    assert_eq!(package_name("acme", "tool"), "acme/tool");
    assert_eq!(license_spdx_of(Some("MIT".to_string())), Some("MIT".to_string()));
    assert_eq!(license_spdx_of(Some("NOASSERTION".to_string())), None);
    assert_eq!(license_spdx_of(Some(String::new())), None);
    assert_eq!(resolved_owner(Some("Acme".to_string()), "acme"), "Acme");
    assert_eq!(resolved_owner(None, "acme"), "acme");
    assert_eq!(repo_html_url(None, "acme", "tool"), "https://github.com/acme/tool");
    assert_eq!(repo_html_url(Some("https://x.test/r".to_string()), "acme", "tool"), "https://x.test/r");
    assert_eq!(commit_branch(Some("")), None);
    assert_eq!(commit_branch(Some("main")), Some("main"));
    assert_eq!(last_commit_or_pushed(None, Some(5)), Some(5));
    assert_eq!(last_commit_or_pushed(Some(7), Some(5)), Some(7));
    assert_eq!(readme_etag_after(None, Some("old".to_string())), Some("old".to_string()));
}

#[test]
fn repository_fetch_failures() {
    let e = repo_fetch_failure("acme", "tool", Some(404), "Not Found", "GitHub: Not Found");
    assert_eq!(e.status, 404);
    assert_eq!(e.message, "github repo not found: acme/tool");
    let e = repo_fetch_failure("acme", "tool", Some(403), "Forbidden", "x");
    assert_eq!(e.status, 403);
    assert_eq!(e.message, "GitHub repo fetch: GitHub returned 403 (Forbidden)");
    let e = repo_fetch_failure("acme", "tool", None, "", "timed out");
    assert_eq!(e.status, 500);
    assert_eq!(e.message, "github fetch failed: timed out");
}
