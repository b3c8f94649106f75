//! The display states of a repository profile's score dimensions, and the
//! proof tier they add up to.
//!
//! The score values themselves are floating-point; a state says which value
//! it shows (`DimensionValue`) and the caller puts the number in.
use vstd::prelude::*;

use crate::text::{chars_eq, chars_of, i64_to_string, int_decimal, join_seq, join_strings,
    lemma_join_occurs, lemma_join_starts_with_first, occurs_at, owned, push_str};

verus! {

/// How much of a profile rests on community evidence.
#[derive(Debug, Clone, Copy, PartialEq, Eq)]
pub enum ProofTier {
    CorpusOnly,
    UsageLimited,
    CommunityBacked,
}

/// Which value a dimension state shows.
#[derive(Debug, Clone, Copy, PartialEq, Eq)]
pub enum DimensionValue {
    /// The dimension's computed score.
    Score,
    /// Zero.
    Zero,
    /// The vitality stored with the last computed quality, if there is one.
    StoredVitality,
    /// No value.
    Absent,
}

/// One score dimension as a profile displays it. `as_of` is in seconds
/// since the Unix epoch.
#[derive(Debug, Clone)]
pub struct DimensionState {
    pub key: String,
    pub value: DimensionValue,
    pub display_state: String,
    pub source: String,
    pub confidence: String,
    pub as_of: i64,
    pub summary: String,
}

/// A dimension state as plain text.
pub struct DimensionStateView {
    pub key: Seq<char>,
    pub value: DimensionValue,
    pub display_state: Seq<char>,
    pub source: Seq<char>,
    pub confidence: Seq<char>,
    pub as_of: int,
    pub summary: Seq<char>,
}

impl View for DimensionState {
    type V = DimensionStateView;

    open spec fn view(&self) -> DimensionStateView {
        DimensionStateView {
            key: self.key@,
            value: self.value,
            display_state: self.display_state@,
            source: self.source@,
            confidence: self.confidence@,
            as_of: self.as_of as int,
            summary: self.summary@,
        }
    }
}

pub open spec fn states_view(v: Seq<DimensionState>) -> Seq<DimensionStateView> {
    v.map_values(|s: DimensionState| s@)
}

/// The structural signals captured for a repository; times in seconds since
/// the Unix epoch.
#[derive(Debug, Clone, Copy, PartialEq, Eq, Default)]
pub struct VitalityInputs {
    pub structural_signals_at: Option<i64>,
    pub distinct_contributors_90d: Option<i32>,
    pub commits_30d: Option<i32>,
    pub has_ci: Option<bool>,
    pub releases_count: Option<i32>,
    pub last_release_at: Option<i64>,
}

/// What the states read of a repository's last computed quality: its
/// signal counts and when it was computed.
#[derive(Debug, Clone, Copy, PartialEq, Eq)]
pub struct QualityCounts {
    pub resolve_count: i32,
    pub build_success_count: i32,
    pub build_failure_count: i32,
    pub computed_at: i64,
}

/// What the dimension states are built from. `freshness_positive` says
/// whether the computed freshness is above zero. A reliability is measured
/// from `reliability_min_builds` build outcomes on; the summary of a
/// reliability that is not names `reliability_min_sample_shown`.
#[derive(Debug, Clone, Copy)]
pub struct DimensionStateInput {
    pub freshness_positive: bool,
    pub quality: Option<QualityCounts>,
    pub vitality: VitalityInputs,
    pub reliability_min_builds: i64,
    pub reliability_min_sample_shown: i32,
    pub now: i64,
}

pub open spec fn state_of(
    key: Seq<char>,
    value: DimensionValue,
    display_state: Seq<char>,
    source: Seq<char>,
    confidence: Seq<char>,
    as_of: int,
    summary: Seq<char>,
) -> DimensionStateView {
    DimensionStateView { key, value, display_state, source, confidence, as_of, summary }
}

/// When the last quality was computed, or now.
pub open spec fn quality_as_of(input: DimensionStateInput) -> int {
    match input.quality {
        Some(q) => q.computed_at as int,
        None => input.now as int,
    }
}

pub open spec fn resolve_count_of(input: DimensionStateInput) -> int {
    match input.quality {
        Some(q) => q.resolve_count as int,
        None => 0,
    }
}

pub open spec fn build_count_of(input: DimensionStateInput) -> int {
    match input.quality {
        Some(q) => q.build_success_count + q.build_failure_count,
        None => 0,
    }
}

/// Freshness is measured once it is above zero or structural signals were
/// captured; it dates from the capture, else the quality, else now.
pub open spec fn freshness_spec(input: DimensionStateInput) -> DimensionStateView {
    if input.freshness_positive || input.vitality.structural_signals_at is Some {
        let as_of = match input.vitality.structural_signals_at {
            Some(t) => t as int,
            None => quality_as_of(input),
        };
        state_of("freshness"@, DimensionValue::Score, "measured"@, "github_metadata"@, "high"@,
            as_of, "Derived from the latest default-branch commit timestamp."@)
    } else {
        state_of("freshness"@, DimensionValue::Absent, "missing_commit"@, "github_metadata"@,
            "low"@, input.now as int, "No commit timestamp is available yet."@)
    }
}

/// Adoption awaits the community without resolve signals, is growing below
/// ten, and is measured from ten on.
pub open spec fn adoption_spec(input: DimensionStateInput) -> DimensionStateView {
    let rc = resolve_count_of(input);
    if rc == 0 {
        state_of("adoption"@, DimensionValue::Zero, "awaiting_community"@, "usage_signals"@,
            "high"@, quality_as_of(input),
            "No weighted UseStakly resolve signals yet; adoption stays at zero."@)
    } else {
        state_of("adoption"@, DimensionValue::Score, if rc >= 10 {
            "measured"@
        } else {
            "growing"@
        }, "usage_signals"@, if rc >= 5 {
            "high"@
        } else {
            "medium"@
        }, quality_as_of(input), "Based on "@ + int_decimal(rc)
            + " recorded resolve signal(s) from UseStakly usage."@)
    }
}

/// Reliability keeps its neutral default below the minimum sample of build
/// outcomes.
pub open spec fn reliability_spec(input: DimensionStateInput) -> DimensionStateView {
    if build_count_of(input) < input.reliability_min_builds {
        state_of("reliability"@, DimensionValue::Score, "neutral_default"@, "usage_signals"@,
            "medium"@, quality_as_of(input), "Fewer than "@ + int_decimal(
            input.reliability_min_sample_shown as int,
        ) + " build outcomes recorded; reliability uses the neutral default."@)
    } else {
        state_of("reliability"@, DimensionValue::Score, "measured"@, "usage_signals"@, "high"@,
            quality_as_of(input), "Computed from weighted build success and failure signals."@)
    }
}

pub open spec fn abandonment_spec(input: DimensionStateInput) -> DimensionStateView {
    state_of("abandonment"@, DimensionValue::Score, "measured"@, "formula_derived"@, "high"@,
        quality_as_of(input),
        "Combines freshness decay with weighted regret signals when present."@)
}

/// The structural fields that were not captured.
pub open spec fn vitality_missing(v: VitalityInputs) -> Seq<Seq<char>> {
    let a: Seq<Seq<char>> = if v.distinct_contributors_90d is None {
        seq!["contributors"@]
    } else {
        Seq::empty()
    };
    let b = if v.commits_30d is None {
        a.push("commits"@)
    } else {
        a
    };
    let c = if v.has_ci is None {
        b.push("ci"@)
    } else {
        b
    };
    if v.releases_count is None && v.last_release_at is None {
        c.push("releases"@)
    } else {
        c
    }
}

/// Vitality is not captured without structural signals, partial when a
/// structural field is missing, and measured otherwise.
pub open spec fn vitality_spec(input: DimensionStateInput) -> DimensionStateView {
    match input.vitality.structural_signals_at {
        None => state_of("vitality"@, DimensionValue::StoredVitality, "not_captured"@,
            "github_metadata"@, "low"@, input.now as int,
            "Structural GitHub signals have not been captured for this repo yet."@),
        Some(t) => {
            let missing = vitality_missing(input.vitality);
            if missing.len() > 0 {
                state_of("vitality"@, DimensionValue::Score, "partial"@, "github_metadata"@,
                    "medium"@, t as int, "Some structural fields are missing ("@ + join_seq(
                    missing,
                    ", "@,
                ) + ")."@)
            } else {
                state_of("vitality"@, DimensionValue::Score, "measured"@, "github_metadata"@,
                    "high"@, t as int,
                    "Based on contributors, commit cadence, CI, and release activity."@)
            }
        },
    }
}

/// The five dimension states, in display order.
pub open spec fn dimension_states_spec(input: DimensionStateInput) -> Seq<DimensionStateView> {
    seq![
        freshness_spec(input),
        adoption_spec(input),
        reliability_spec(input),
        abandonment_spec(input),
        vitality_spec(input)
    ]
}

fn state(
    key: &str,
    value: DimensionValue,
    display_state: &str,
    source: &str,
    confidence: &str,
    as_of: i64,
    summary: String,
) -> (r: DimensionState)
    ensures
        r@ == state_of(key@, value, display_state@, source@, confidence@, as_of as int, summary@),
{
    DimensionState {
        key: owned(key),
        value,
        display_state: owned(display_state),
        source: owned(source),
        confidence: owned(confidence),
        as_of,
        summary,
    }
}

fn quality_time(input: &DimensionStateInput) -> (r: i64)
    ensures
        r as int == quality_as_of(*input),
{
    match input.quality {
        Some(q) => q.computed_at,
        None => input.now,
    }
}

pub fn freshness_state(input: &DimensionStateInput) -> (r: DimensionState)
    ensures
        r@ == freshness_spec(*input),
{
    if input.freshness_positive || input.vitality.structural_signals_at.is_some() {
        let as_of = match input.vitality.structural_signals_at {
            Some(t) => t,
            None => quality_time(input),
        };
        return state("freshness", DimensionValue::Score, "measured", "github_metadata", "high",
            as_of, owned("Derived from the latest default-branch commit timestamp."));
    }
    state("freshness", DimensionValue::Absent, "missing_commit", "github_metadata", "low",
        input.now, owned("No commit timestamp is available yet."))
}

pub fn adoption_state(input: &DimensionStateInput) -> (r: DimensionState)
    ensures
        r@ == adoption_spec(*input),
{
    let resolve_count: i32 = match input.quality {
        Some(q) => q.resolve_count,
        None => 0,
    };
    let as_of = quality_time(input);
    if resolve_count == 0 {
        return state("adoption", DimensionValue::Zero, "awaiting_community", "usage_signals",
            "high", as_of,
            owned("No weighted UseStakly resolve signals yet; adoption stays at zero."));
    }
    let display_state = if resolve_count >= 10 {
        "measured"
    } else {
        "growing"
    };
    let confidence = if resolve_count >= 5 {
        "high"
    } else {
        "medium"
    };
    let mut summary = owned("Based on ");
    let n = i64_to_string(resolve_count as i64);
    push_str(&mut summary, n.as_str());
    push_str(&mut summary, " recorded resolve signal(s) from UseStakly usage.");
    state("adoption", DimensionValue::Score, display_state, "usage_signals", confidence, as_of,
        summary)
}

pub fn reliability_state(input: &DimensionStateInput) -> (r: DimensionState)
    ensures
        r@ == reliability_spec(*input),
{
    let builds: i64 = match input.quality {
        Some(q) => q.build_success_count as i64 + q.build_failure_count as i64,
        None => 0,
    };
    let as_of = quality_time(input);
    if builds < input.reliability_min_builds {
        let mut summary = owned("Fewer than ");
        let n = i64_to_string(input.reliability_min_sample_shown as i64);
        push_str(&mut summary, n.as_str());
        push_str(&mut summary, " build outcomes recorded; reliability uses the neutral default.");
        return state("reliability", DimensionValue::Score, "neutral_default", "usage_signals",
            "medium", as_of, summary);
    }
    state("reliability", DimensionValue::Score, "measured", "usage_signals", "high", as_of,
        owned("Computed from weighted build success and failure signals."))
}

pub fn abandonment_state(input: &DimensionStateInput) -> (r: DimensionState)
    ensures
        r@ == abandonment_spec(*input),
{
    state("abandonment", DimensionValue::Score, "measured", "formula_derived", "high",
        quality_time(input),
        owned("Combines freshness decay with weighted regret signals when present."))
}

pub fn vitality_state(input: &DimensionStateInput) -> (r: DimensionState)
    ensures
        r@ == vitality_spec(*input),
{
    let captured = match input.vitality.structural_signals_at {
        Some(t) => t,
        None => {
            return state("vitality", DimensionValue::StoredVitality, "not_captured",
                "github_metadata", "low", input.now,
                owned("Structural GitHub signals have not been captured for this repo yet."));
        },
    };
    let v = input.vitality;
    let mut missing: Vec<String> = Vec::new();
    if v.distinct_contributors_90d.is_none() {
        missing.push(owned("contributors"));
    }
    if v.commits_30d.is_none() {
        missing.push(owned("commits"));
    }
    if v.has_ci.is_none() {
        missing.push(owned("ci"));
    }
    if v.releases_count.is_none() && v.last_release_at.is_none() {
        missing.push(owned("releases"));
    }
    assert(missing.deep_view() =~= vitality_missing(v));
    if missing.len() > 0 {
        let mut summary = owned("Some structural fields are missing (");
        let joined = join_strings(&missing, ", ");
        push_str(&mut summary, joined.as_str());
        push_str(&mut summary, ").");
        return state("vitality", DimensionValue::Score, "partial", "github_metadata", "medium",
            captured, summary);
    }
    state("vitality", DimensionValue::Score, "measured", "github_metadata", "high", captured,
        owned("Based on contributors, commit cadence, CI, and release activity."))
}

/// The dimension states of a profile: freshness, adoption, reliability,
/// abandonment and vitality.
pub fn build_dimension_states(input: &DimensionStateInput) -> (r: Vec<DimensionState>)
    ensures
        states_view(r@) == dimension_states_spec(*input),
{
    let r = vec![
        freshness_state(input),
        adoption_state(input),
        reliability_state(input),
        abandonment_state(input),
        vitality_state(input),
    ];
    assert(states_view(r@) =~= dimension_states_spec(*input));
    r
}

/// The index of the first state with the given key.
pub open spec fn first_with_key(states: Seq<DimensionStateView>, key: Seq<char>) -> Option<int>
    decreases states.len(),
{
    if states.len() == 0 {
        None
    } else if states[0].key == key {
        Some(0)
    } else {
        match first_with_key(states.drop_first(), key) {
            Some(i) => Some(i + 1),
            None => None,
        }
    }
}

/// The first state with the given key shows the given display state.
pub open spec fn first_shows(states: Seq<DimensionStateView>, key: Seq<char>, display: Seq<char>) -> bool {
    match first_with_key(states, key) {
        Some(i) => states[i].display_state == display,
        None => false,
    }
}

/// Community-backed when adoption and reliability are both measured; usage
/// limited when some adoption state is growing, or reliability shows its
/// neutral default while adoption is not awaiting the community; corpus only
/// otherwise.
pub open spec fn proof_tier_spec(states: Seq<DimensionStateView>) -> ProofTier {
    if first_shows(states, "adoption"@, "measured"@) && first_shows(
        states,
        "reliability"@,
        "measured"@,
    ) {
        ProofTier::CommunityBacked
    } else if (exists|i: int|
        0 <= i < states.len() && (#[trigger] states[i]).key == "adoption"@
            && states[i].display_state == "growing"@) || (first_shows(
        states,
        "reliability"@,
        "neutral_default"@,
    ) && !first_shows(states, "adoption"@, "awaiting_community"@)) {
        ProofTier::UsageLimited
    } else {
        ProofTier::CorpusOnly
    }
}

fn find_key(states: &[DimensionState], key: &str) -> (r: Option<usize>)
    ensures
        match r {
            Some(i) => first_with_key(states_view(states@), key@) == Some(i as int) && i
                < states@.len(),
            None => first_with_key(states_view(states@), key@) is None,
        },
{
    let k = chars_of(key);
    let ghost s = states_view(states@);
    assert(s.skip(0) =~= s);
    for i in 0..states.len()
        invariant
            k@ == key@,
            s == states_view(states@),
            forall|j: int| 0 <= j < i ==> s[j].key != key@,
            first_with_key(s, key@) == match first_with_key(s.skip(i as int), key@) {
                Some(j) => Some(j + i),
                None => None::<int>,
            },
    {
        proof {
            assert(s.skip(i as int).drop_first() =~= s.skip(i + 1));
            assert(s.skip(i as int)[0] == s[i as int]);
        }
        if chars_eq(chars_of(states[i].key.as_str()).as_slice(), k.as_slice()) {
            return Some(i);
        }
    }
    proof {
        assert(s.skip(s.len() as int).len() == 0);
    }
    None
}

fn shows(states: &[DimensionState], key: &str, display: &str) -> (r: bool)
    ensures
        r == first_shows(states_view(states@), key@, display@),
{
    match find_key(states, key) {
        Some(i) => chars_eq(
            chars_of(states[i].display_state.as_str()).as_slice(),
            chars_of(display).as_slice(),
        ),
        None => false,
    }
}

/// The proof tier of a profile from its dimension states.
pub fn derive_proof_tier(states: &[DimensionState]) -> (r: ProofTier)
    ensures
        r == proof_tier_spec(states_view(states@)),
{
    let ghost s = states_view(states@);
    if shows(states, "adoption", "measured") && shows(states, "reliability", "measured") {
        return ProofTier::CommunityBacked;
    }
    let adoption_awaiting = shows(states, "adoption", "awaiting_community");
    let mut growing = false;
    for i in 0..states.len()
        invariant
            s == states_view(states@),
            growing == exists|j: int|
                0 <= j < i && (#[trigger] s[j]).key == "adoption"@ && s[j].display_state
                    == "growing"@,
    {
        assert(s[i as int] == states@[i as int]@);
        if !growing && chars_eq(chars_of(states[i].key.as_str()).as_slice(), chars_of("adoption").as_slice())
            && chars_eq(
            chars_of(states[i].display_state.as_str()).as_slice(),
            chars_of("growing").as_slice(),
        ) {
            growing = true;
        }
    }
    let usage_limited = growing || (shows(states, "reliability", "neutral_default")
        && !adoption_awaiting);
    if usage_limited {
        return ProofTier::UsageLimited;
    }
    ProofTier::CorpusOnly
}

impl ProofTier {
    pub open spec fn name(self) -> Seq<char> {
        match self {
            ProofTier::CorpusOnly => "corpus_only"@,
            ProofTier::UsageLimited => "usage_limited"@,
            ProofTier::CommunityBacked => "community_backed"@,
        }
    }
}

pub fn proof_tier_str(tier: ProofTier) -> (r: &'static str)
    ensures
        r@ == tier.name(),
{
    match tier {
        ProofTier::CorpusOnly => "corpus_only",
        ProofTier::UsageLimited => "usage_limited",
        ProofTier::CommunityBacked => "community_backed",
    }
}

/// The proof tier of a profile's dimension states follows from its signal
/// counts alone: corpus only without resolve signals, community backed from
/// ten resolve signals on with the minimum sample of build outcomes, usage
/// limited otherwise.
pub proof fn lemma_tier_from_counts(input: DimensionStateInput)
    ensures
        proof_tier_spec(dimension_states_spec(input)) == if resolve_count_of(input) == 0 {
            ProofTier::CorpusOnly
        } else if resolve_count_of(input) >= 10 && build_count_of(input)
            >= input.reliability_min_builds {
            ProofTier::CommunityBacked
        } else {
            ProofTier::UsageLimited
        },
{
    reveal_strlit("freshness");
    reveal_strlit("adoption");
    reveal_strlit("reliability");
    reveal_strlit("abandonment");
    reveal_strlit("vitality");
    reveal_strlit("measured");
    reveal_strlit("growing");
    reveal_strlit("awaiting_community");
    reveal_strlit("neutral_default");
    let s = dimension_states_spec(input);
    assert(s[0].key == "freshness"@);
    assert(s[1].key == "adoption"@);
    assert(s[2].key == "reliability"@);
    assert(s[3].key == "abandonment"@);
    assert(s[4].key == "vitality"@);
    assert("freshness"@ != "adoption"@) by {
        assert("freshness"@[0] != "adoption"@[0]);
    }
    assert("freshness"@ != "reliability"@) by {
        assert("freshness"@[0] != "reliability"@[0]);
    }
    assert("adoption"@ != "reliability"@) by {
        assert("adoption"@[0] != "reliability"@[0]);
    }
    assert("abandonment"@ != "adoption"@) by {
        assert("abandonment"@[1] != "adoption"@[1]);
    }
    assert("vitality"@ != "adoption"@) by {
        assert("vitality"@[0] != "adoption"@[0]);
    }
    assert(s.drop_first()[0] == s[1]);
    assert(s.drop_first().drop_first()[0] == s[2]);
    assert(first_with_key(s.drop_first(), "adoption"@) == Some(0int));
    assert(first_with_key(s, "adoption"@) == Some(1int));
    assert(first_with_key(s.drop_first().drop_first(), "reliability"@) == Some(0int));
    assert(first_with_key(s.drop_first(), "reliability"@) == Some(1int));
    assert(first_with_key(s, "reliability"@) == Some(2int));
    assert forall|i: int| 0 <= i < s.len() && (#[trigger] s[i]).key == "adoption"@ implies i == 1 by {
        if i == 0 {
        } else if i == 2 {
        } else if i == 3 {
        } else if i == 4 {
        }
    }
    assert("measured"@ != "growing"@) by {
        assert("measured"@[0] != "growing"@[0]);
    }
    assert("measured"@ != "awaiting_community"@) by {
        assert("measured"@[0] != "awaiting_community"@[0]);
    }
    assert("growing"@ != "awaiting_community"@) by {
        assert("growing"@[0] != "awaiting_community"@[0]);
    }
    assert("measured"@ != "neutral_default"@) by {
        assert("measured"@[0] != "neutral_default"@[0]);
    }
    if resolve_count_of(input) != 0 && resolve_count_of(input) < 10 {
        assert(s[1].display_state == "growing"@);
    }
}

/// Each structural field that was not captured is in the list of missing
/// fields, and the contributors, when missing, come first.
proof fn lemma_missing_fields_listed(v: VitalityInputs)
    ensures
        v.distinct_contributors_90d is None ==> vitality_missing(v).len() > 0 && vitality_missing(
            v,
        )[0] == "contributors"@,
        v.commits_30d is None ==> vitality_missing(v).contains("commits"@),
        v.has_ci is None ==> vitality_missing(v).contains("ci"@),
        v.releases_count is None && v.last_release_at is None ==> vitality_missing(v).contains(
            "releases"@,
        ),
        (v.distinct_contributors_90d is Some && v.commits_30d is Some && v.has_ci is Some && (
        v.releases_count is Some || v.last_release_at is Some)) <==> vitality_missing(v).len() == 0,
{
    let l0: Seq<Seq<char>> = if v.distinct_contributors_90d is None {
        seq!["contributors"@]
    } else {
        Seq::empty()
    };
    let l1 = if v.commits_30d is None {
        l0.push("commits"@)
    } else {
        l0
    };
    let l2 = if v.has_ci is None {
        l1.push("ci"@)
    } else {
        l1
    };
    let l3 = if v.releases_count is None && v.last_release_at is None {
        l2.push("releases"@)
    } else {
        l2
    };
    assert(l3 == vitality_missing(v));
    assert forall|x: Seq<char>| l0.contains(x) implies l1.contains(x) by {
        let k = choose|k: int| 0 <= k < l0.len() && l0[k] == x;
        assert(l1[k] == l0[k]);
    }
    assert forall|x: Seq<char>| l1.contains(x) implies l2.contains(x) by {
        let k = choose|k: int| 0 <= k < l1.len() && l1[k] == x;
        assert(l2[k] == l1[k]);
    }
    assert forall|x: Seq<char>| l2.contains(x) implies l3.contains(x) by {
        let k = choose|k: int| 0 <= k < l2.len() && l2[k] == x;
        assert(l3[k] == l2[k]);
    }
    if v.commits_30d is None {
        assert(l1[l0.len() as int] == "commits"@);
    }
    if v.has_ci is None {
        assert(l2[l1.len() as int] == "ci"@);
    }
    if v.releases_count is None && v.last_release_at is None {
        assert(l3[l2.len() as int] == "releases"@);
    }
    if v.distinct_contributors_90d is None {
        assert(l3[0] == "contributors"@);
    }
}

/// The vitality state from the structural fields themselves: not captured
/// without structural signals; with them, measured with high confidence as
/// of the capture when every field is there, and otherwise partial with
/// medium confidence, its summary naming each missing field (missing
/// contributors are named first).
pub proof fn lemma_vitality_reflects_missing_fields(input: DimensionStateInput)
    ensures
        ({
            let v = input.vitality;
            let st = vitality_spec(input);
            let complete = v.distinct_contributors_90d is Some && v.commits_30d is Some
                && v.has_ci is Some && (v.releases_count is Some || v.last_release_at is Some);
            &&& st.key == "vitality"@
            &&& v.structural_signals_at is None ==> st.display_state == "not_captured"@
                && st.confidence == "low"@ && st.value == DimensionValue::StoredVitality
            &&& v.structural_signals_at matches Some(t) ==> st.as_of == t && st.value
                == DimensionValue::Score
            &&& (v.structural_signals_at is Some && complete) ==> st.display_state == "measured"@
                && st.confidence == "high"@ && st.summary
                == "Based on contributors, commit cadence, CI, and release activity."@
            &&& (v.structural_signals_at is Some && !complete) ==> st.display_state == "partial"@
                && st.confidence == "medium"@
            &&& (v.structural_signals_at is Some && v.distinct_contributors_90d is None) ==> (exists|
                rest: Seq<char>,
            | st.summary == "Some structural fields are missing (contributors"@ + rest)
            &&& (v.structural_signals_at is Some && v.commits_30d is None) ==> (exists|i: int|
                occurs_at(st.summary, "commits"@, i))
            &&& (v.structural_signals_at is Some && v.has_ci is None) ==> (exists|i: int|
                occurs_at(st.summary, "ci"@, i))
            &&& (v.structural_signals_at is Some && v.releases_count is None && v.last_release_at
                is None) ==> (exists|i: int| occurs_at(st.summary, "releases"@, i))
        }),
{
    let v = input.vitality;
    lemma_missing_fields_listed(v);
    if v.structural_signals_at is Some {
        let m = vitality_missing(v);
        let p = "Some structural fields are missing ("@;
        let sep = ", "@;
        let sum = p + join_seq(m, sep) + ")."@;
        if m.len() > 0 {
            assert(vitality_spec(input).summary == sum);
            if v.distinct_contributors_90d is None {
                lemma_join_starts_with_first(m, sep);
                let jn = join_seq(m, sep);
                let rest = jn.skip(m[0].len() as int) + ")."@;
                reveal_strlit("Some structural fields are missing (contributors");
                reveal_strlit("Some structural fields are missing (");
                reveal_strlit("contributors");
                assert(jn =~= m[0] + jn.skip(m[0].len() as int));
                assert(sum =~= "Some structural fields are missing (contributors"@ + rest);
            }
            assert forall|x: Seq<char>| m.contains(x) implies (exists|i: int| occurs_at(sum, x, i)) by {
                let k = choose|k: int| 0 <= k < m.len() && m[k] == x;
                let i = lemma_join_occurs(m, sep, k);
                let jn = join_seq(m, sep);
                assert(sum.subrange(p.len() + i, p.len() + i + x.len()) =~= jn.subrange(
                    i,
                    i + x.len(),
                ));
                assert(occurs_at(sum, x, p.len() + i));
            }
        }
    }
}

} // verus!
