//! The radar maturity band of a repository.
//!
//! The band is decided from the repository's activity counts, its flags and
//! the outcomes of comparing its floating-point quality scores with the
//! band thresholds; the caller makes those comparisons.
use vstd::prelude::*;

use crate::text::{owned, str_eq};

verus! {

/// Where a repository stands on the radar.
#[derive(Debug, Clone, Copy, PartialEq, Eq)]
pub enum MaturityBand {
    Stale,
    Noisy,
    Established,
    Emerging,
    Experimental,
}

impl MaturityBand {
    pub open spec fn name(self) -> Seq<char> {
        match self {
            MaturityBand::Stale => "stale"@,
            MaturityBand::Noisy => "noisy"@,
            MaturityBand::Established => "established"@,
            MaturityBand::Emerging => "emerging"@,
            MaturityBand::Experimental => "experimental"@,
        }
    }

    pub fn as_str(self) -> (r: &'static str)
        ensures
            r@ == self.name(),
    {
        match self {
            MaturityBand::Stale => "stale",
            MaturityBand::Noisy => "noisy",
            MaturityBand::Established => "established",
            MaturityBand::Emerging => "emerging",
            MaturityBand::Experimental => "experimental",
        }
    }
}

/// What a repository's band is decided from: whether it is archived, its
/// quality flags, its structural counts, and how its scores compare with
/// the thresholds.
#[derive(Debug, Clone)]
pub struct RadarFacts {
    pub archived: bool,
    pub quality_flags: Vec<String>,
    pub commits_30d: Option<i32>,
    pub distinct_contributors_90d: Option<i32>,
    pub has_ci: Option<bool>,
    pub releases_count: Option<i32>,
    /// The best category confidence is at least 0.55.
    pub clear_category: bool,
    /// The overall quality is at least 0.70.
    pub overall_strong: bool,
    /// The overall quality is at least 0.50.
    pub overall_fair: bool,
    /// The overall quality is below 0.55.
    pub overall_weak: bool,
    /// The abandonment is at least 0.45.
    pub abandonment_high: bool,
    /// The abandonment is at most 0.25.
    pub abandonment_contained: bool,
    /// The abandonment is at most 0.15.
    pub abandonment_low: bool,
    /// The freshness is at most 0.25.
    pub freshness_stale: bool,
    /// The freshness is at least 0.65.
    pub freshness_high: bool,
    /// The trend signal is at least 0.45.
    pub trending: bool,
}

pub open spec fn count_or_zero(c: Option<i32>) -> int {
    match c {
        Some(n) => n as int,
        None => 0,
    }
}

/// A repository flagged as a security issue or as broken.
pub open spec fn has_severe_flag(flags: Seq<Seq<char>>) -> bool {
    exists|i: int| 0 <= i < flags.len() && (#[trigger] flags[i] == "security-issue"@ || flags[i] == "broken"@)
}

/// Recent activity: fresh, or at least five commits in thirty days.
pub open spec fn has_activity(f: RadarFacts) -> bool {
    f.freshness_high || count_or_zero(f.commits_30d) >= 5
}

/// Some structure: two contributors in ninety days, CI, or a release.
pub open spec fn has_structure(f: RadarFacts) -> bool {
    count_or_zero(f.distinct_contributors_90d) >= 2 || f.has_ci == Some(true)
        || count_or_zero(f.releases_count) > 0
}

/// Stale when archived, abandoned, not fresh or severely flagged; noisy
/// when its category is unclear and its quality weak; established with
/// strong quality, low abandonment, freshness, a clear category and
/// structure; emerging with a clear category, activity, structure,
/// contained abandonment and a trend or fair quality; experimental
/// otherwise.
pub open spec fn band_spec(f: RadarFacts) -> MaturityBand {
    if f.archived || f.abandonment_high || f.freshness_stale || has_severe_flag(
        f.quality_flags.deep_view(),
    ) {
        MaturityBand::Stale
    } else if !f.clear_category && f.overall_weak {
        MaturityBand::Noisy
    } else if f.overall_strong && f.abandonment_low && f.freshness_high && f.clear_category
        && has_structure(f) {
        MaturityBand::Established
    } else if f.clear_category && has_activity(f) && has_structure(f) && f.abandonment_contained
        && (f.trending || f.overall_fair) {
        MaturityBand::Emerging
    } else {
        MaturityBand::Experimental
    }
}

/// The reasons given for each band.
pub open spec fn band_reasons(b: MaturityBand) -> Seq<Seq<char>> {
    match b {
        MaturityBand::Stale => seq!["stale_or_flagged"@],
        MaturityBand::Noisy => seq!["weak_category_signal"@],
        MaturityBand::Established => seq!["strong_quality"@, "clear_category"@, "healthy_activity"@],
        MaturityBand::Emerging => seq!["clear_category"@, "recent_activity"@],
        MaturityBand::Experimental => seq!["thin_evidence"@],
    }
}

/// A repository's band and the reasons for it.
#[derive(Debug, Clone)]
pub struct RadarBand {
    pub band: MaturityBand,
    pub reasons: Vec<String>,
}

fn severe_flag(flags: &Vec<String>) -> (r: bool)
    ensures
        r == has_severe_flag(flags.deep_view()),
{
    for i in 0..flags.len()
        invariant
            forall|j: int| 0 <= j < i ==> !(#[trigger] flags.deep_view()[j] == "security-issue"@
                || flags.deep_view()[j] == "broken"@),
    {
        assert(flags.deep_view()[i as int] == flags@[i as int]@);
        if str_eq(flags[i].as_str(), "security-issue") || str_eq(flags[i].as_str(), "broken") {
            return true;
        }
    }
    false
}

fn or_zero(c: Option<i32>) -> (r: i32)
    ensures
        r as int == count_or_zero(c),
{
    match c {
        Some(n) => n,
        None => 0,
    }
}

/// The radar band of a repository and the reasons for it.
pub fn maturity_band(facts: &RadarFacts) -> (r: RadarBand)
    ensures
        r.band == band_spec(*facts),
        r.reasons.deep_view() == band_reasons(r.band),
{
    let has_activity = facts.freshness_high || or_zero(facts.commits_30d) >= 5;
    let has_structure = or_zero(facts.distinct_contributors_90d) >= 2 || facts.has_ci
        == Some(true) || or_zero(facts.releases_count) > 0;
    let mut reasons: Vec<String> = Vec::new();
    let band = if facts.archived || facts.abandonment_high || facts.freshness_stale || severe_flag(
        &facts.quality_flags,
    ) {
        reasons.push(owned("stale_or_flagged"));
        MaturityBand::Stale
    } else if !facts.clear_category && facts.overall_weak {
        reasons.push(owned("weak_category_signal"));
        MaturityBand::Noisy
    } else if facts.overall_strong && facts.abandonment_low && facts.freshness_high
        && facts.clear_category && has_structure {
        reasons.push(owned("strong_quality"));
        reasons.push(owned("clear_category"));
        reasons.push(owned("healthy_activity"));
        MaturityBand::Established
    } else if facts.clear_category && has_activity && has_structure && facts.abandonment_contained
        && (facts.trending || facts.overall_fair) {
        reasons.push(owned("clear_category"));
        reasons.push(owned("recent_activity"));
        MaturityBand::Emerging
    } else {
        reasons.push(owned("thin_evidence"));
        MaturityBand::Experimental
    };
    assert(reasons.deep_view() =~= band_reasons(band));
    RadarBand { band, reasons }
}

/// An archived or severely flagged repository is on the stale band,
/// whatever its scores.
pub proof fn lemma_archived_or_flagged_is_stale(f: RadarFacts)
    requires
        f.archived || has_severe_flag(f.quality_flags.deep_view()),
    ensures
        band_spec(f) == MaturityBand::Stale,
{
}

/// A repository without a clear category is never established nor
/// emerging.
pub proof fn lemma_unclear_category_not_promoted(f: RadarFacts)
    requires
        !f.clear_category,
    ensures
        band_spec(f) != MaturityBand::Established,
        band_spec(f) != MaturityBand::Emerging,
{
}

/// The bands in terms of the facts themselves. A repository is stale exactly
/// when it is archived, highly abandoned, stale in freshness, or flagged as a
/// security issue or broken; otherwise noisy exactly when its category is
/// unclear and its quality weak. Established needs strong quality, low
/// abandonment, high freshness, a clear category and some structure (two
/// contributors in ninety days, CI, or at least one release); emerging needs
/// a clear category, activity (high freshness or five commits in thirty
/// days), structure, contained abandonment and a trend or fair quality. A
/// repository that is neither stale nor noisy and meets the emerging
/// conditions is emerging or established, and one that meets the
/// established conditions is established.
pub proof fn lemma_band_conditions(f: RadarFacts)
    ensures
        ({
            let flags = f.quality_flags.deep_view();
            let stale = f.archived || f.abandonment_high || f.freshness_stale || flags.contains(
                "security-issue"@,
            ) || flags.contains("broken"@);
            let noisy = !f.clear_category && f.overall_weak;
            let structure = (f.distinct_contributors_90d matches Some(n) && n >= 2) || f.has_ci
                == Some(true) || (f.releases_count matches Some(n) && n > 0);
            let activity = f.freshness_high || (f.commits_30d matches Some(n) && n >= 5);
            let established = f.overall_strong && f.abandonment_low && f.freshness_high
                && f.clear_category && structure;
            let emerging = f.clear_category && activity && structure && f.abandonment_contained && (
            f.trending || f.overall_fair);
            &&& (band_spec(f) == MaturityBand::Stale) <==> stale
            &&& (band_spec(f) == MaturityBand::Noisy) <==> (!stale && noisy)
            &&& band_spec(f) == MaturityBand::Established ==> established
            &&& band_spec(f) == MaturityBand::Emerging ==> emerging
            &&& (!stale && !noisy && established) ==> band_spec(f) == MaturityBand::Established
            &&& (!stale && !noisy && emerging) ==> (band_spec(f) == MaturityBand::Established
                || band_spec(f) == MaturityBand::Emerging)
            &&& band_spec(f) == MaturityBand::Experimental ==> !stale && !noisy && !established
                && !emerging
        }),
{
    let flags = f.quality_flags.deep_view();
    if has_severe_flag(flags) {
        let i = choose|i: int| 0 <= i < flags.len() && (#[trigger] flags[i] == "security-issue"@
            || flags[i] == "broken"@);
        if flags[i] == "broken"@ {
            assert(flags.contains("broken"@));
        } else {
            assert(flags.contains("security-issue"@));
        }
    }
    if flags.contains("broken"@) {
        let i = choose|i: int| 0 <= i < flags.len() && flags[i] == "broken"@;
        assert(has_severe_flag(flags));
    }
    if flags.contains("security-issue"@) {
        let i = choose|i: int| 0 <= i < flags.len() && flags[i] == "security-issue"@;
        assert(has_severe_flag(flags));
    }
}

/// The reasons follow the band: an emerging repository is given its clear
/// category and its recent activity, an experimental one its thin evidence,
/// and so on for each band.
pub proof fn lemma_band_reasons(b: MaturityBand)
    ensures
        b == MaturityBand::Emerging ==> band_reasons(b) == seq!["clear_category"@, "recent_activity"@],
        b == MaturityBand::Experimental ==> band_reasons(b) == seq!["thin_evidence"@],
        b == MaturityBand::Stale ==> band_reasons(b) == seq!["stale_or_flagged"@],
        b == MaturityBand::Noisy ==> band_reasons(b) == seq!["weak_category_signal"@],
        b == MaturityBand::Established ==> band_reasons(b) == seq![
            "strong_quality"@,
            "clear_category"@,
            "healthy_activity"@,
        ],
{
}

} // verus!
