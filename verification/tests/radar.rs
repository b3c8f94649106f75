use usestakly::radar::{maturity_band, MaturityBand, RadarFacts};

struct Scores {
    overall: f64,
    freshness: f64,
    abandonment: f64,
    category_confidence: f64,
    trend: f64,
}

struct Counts {
    archived: bool,
    flags: Vec<String>,
    commits_30d: Option<i32>,
    contributors_90d: Option<i32>,
    has_ci: Option<bool>,
    releases_count: Option<i32>,
}

fn facts(s: &Scores, c: &Counts) -> RadarFacts {
    RadarFacts {
        archived: c.archived,
        quality_flags: c.flags.clone(),
        commits_30d: c.commits_30d,
        distinct_contributors_90d: c.contributors_90d,
        has_ci: c.has_ci,
        releases_count: c.releases_count,
        clear_category: s.category_confidence >= 0.55,
        overall_strong: s.overall >= 0.70,
        overall_fair: s.overall >= 0.50,
        overall_weak: s.overall < 0.55,
        abandonment_high: s.abandonment >= 0.45,
        abandonment_contained: s.abandonment <= 0.25,
        abandonment_low: s.abandonment <= 0.15,
        freshness_stale: s.freshness <= 0.25,
        freshness_high: s.freshness >= 0.65,
        trending: s.trend >= 0.45,
    }
}

fn scores() -> Scores {
    Scores { overall: 0.74, freshness: 0.95, abandonment: 0.05, category_confidence: 0.9, trend: 0.89 }
}

fn counts() -> Counts {
    Counts {
        archived: false,
        flags: Vec::new(),
        commits_30d: Some(20),
        contributors_90d: Some(4),
        has_ci: Some(true),
        releases_count: Some(3),
    }
}

#[test]
fn established_repo_has_mature_quality_and_activity() {
    let band = maturity_band(&facts(&scores(), &counts()));

    assert_eq!(band.band, MaturityBand::Established);
    assert_eq!(band.band.as_str(), "established");
    assert!(band.reasons.iter().any(|reason| reason == "strong_quality"));
}

#[test]
fn emerging_repo_is_recent_clear_and_active_but_not_proven() {
    let mut s = scores();
    s.overall = 0.52;
    let mut c = counts();
    c.releases_count = Some(1);

    let band = maturity_band(&facts(&s, &c));

    assert_eq!(band.band.as_str(), "emerging");
    assert_eq!(band.reasons, vec!["clear_category".to_string(), "recent_activity".to_string()]);
}

#[test]
fn stale_repo_has_high_abandonment_or_archive_signal() {
    let mut s = scores();
    s.abandonment = 0.62;
    s.freshness = 0.2;

    let band = maturity_band(&facts(&s, &counts()));

    assert_eq!(band.band.as_str(), "stale");
    assert_eq!(band.reasons, vec!["stale_or_flagged".to_string()]);
}

#[test]
fn unclear_repo_with_weak_category_confidence_is_noisy() {
    let mut s = scores();
    s.category_confidence = 0.2;
    s.overall = 0.48;
    let mut c = counts();
    c.commits_30d = Some(0);
    c.contributors_90d = Some(1);

    let band = maturity_band(&facts(&s, &c));

    assert_eq!(band.band.as_str(), "noisy");
}

#[test]
fn early_repo_with_clear_category_but_thin_signals_is_experimental() {
    let mut s = scores();
    s.overall = 0.4;
    let mut c = counts();
    c.commits_30d = Some(2);
    c.contributors_90d = Some(1);
    c.has_ci = Some(false);
    c.releases_count = Some(0);

    let band = maturity_band(&facts(&s, &c));

    assert_eq!(band.band.as_str(), "experimental");
    assert_eq!(band.reasons, vec!["thin_evidence".to_string()]);
}

#[test]
fn archived_or_broken_repo_is_stale_whatever_its_scores() {
    let mut c = counts();
    c.archived = true;
    assert_eq!(maturity_band(&facts(&scores(), &c)).band, MaturityBand::Stale);

    let mut c = counts();
    c.flags = vec!["broken".to_string()];
    assert_eq!(maturity_band(&facts(&scores(), &c)).band, MaturityBand::Stale);
}

#[test]
fn unclear_category_is_never_promoted() {
    let mut s = scores();
    s.category_confidence = 0.3;
    let band = maturity_band(&facts(&s, &counts()));
    assert_eq!(band.band, MaturityBand::Experimental);
}
