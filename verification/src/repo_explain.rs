//! Public-safe reason codes for why a repository is recommended.
use vstd::prelude::*;

use crate::text::{chars_eq, chars_of, contains_chars, contains_seq, lower_chars, lower_seq, owned,
    push_all_unique, push_unique_seq, push_unique_str, str_eq, trim_chars, trim_seq};

verus! {

/// The quality gate a search applies.
#[derive(Debug, Clone, Copy, PartialEq, Eq)]
pub enum SearchFilter {
    Auto,
    Strict,
    Explore,
}

/// The search the explanation is for.
#[derive(Debug, Clone)]
pub struct ExplainContext {
    pub filter: SearchFilter,
    pub query: Option<String>,
    pub query_tokens: Vec<String>,
    pub topics_filter: Vec<String>,
}

/// The explanation entry for the search gate a repository went through.
pub open spec fn filter_code_spec(filter: SearchFilter) -> Seq<char> {
    match filter {
        SearchFilter::Auto => "filter_auto_pass"@,
        SearchFilter::Strict => "filter_strict_pass"@,
        SearchFilter::Explore => "filter_explore"@,
    }
}

pub fn filter_code(filter: SearchFilter) -> (r: &'static str)
    ensures
        r@ == filter_code_spec(filter),
{
    match filter {
        SearchFilter::Auto => "filter_auto_pass",
        SearchFilter::Strict => "filter_strict_pass",
        SearchFilter::Explore => "filter_explore",
    }
}

/// The summary code of a filter: only the automatic gate has one.
pub fn auto_filter_summary_code(filter: SearchFilter) -> (r: Option<&'static str>)
    ensures
        match filter {
            SearchFilter::Auto => r matches Some(c) && c@ == "auto_hides_low_quality"@,
            _ => r is None,
        },
{
    match filter {
        SearchFilter::Auto => Some("auto_hides_low_quality"),
        _ => None,
    }
}

/// The caveat code of a public flag.
pub open spec fn flag_code_spec(flag: Seq<char>) -> Seq<char> {
    if flag == "security-issue"@ {
        "flag_security"@
    } else if flag == "broken"@ {
        "flag_broken"@
    } else if flag == "deprecated"@ {
        "flag_deprecated"@
    } else if flag == "unmaintained"@ || flag == "abandoned"@ {
        "flag_unmaintained"@
    } else {
        "flag_public"@
    }
}

pub fn flag_code(flag: &str) -> (r: &'static str)
    ensures
        r@ == flag_code_spec(flag@),
{
    if str_eq(flag, "security-issue") {
        "flag_security"
    } else if str_eq(flag, "broken") {
        "flag_broken"
    } else if str_eq(flag, "deprecated") {
        "flag_deprecated"
    } else if str_eq(flag, "unmaintained") || str_eq(flag, "abandoned") {
        "flag_unmaintained"
    } else {
        "flag_public"
    }
}

/// A topic and a query token match when, ASCII lower-cased, either contains
/// the other.
pub open spec fn topic_token_spec(topic: Seq<char>, token: Seq<char>) -> bool {
    contains_seq(lower_seq(topic), lower_seq(token)) || contains_seq(
        lower_seq(token),
        lower_seq(topic),
    )
}

pub fn topic_contains_token(topic: &str, token: &str) -> (r: bool)
    ensures
        r == topic_token_spec(topic@, token@),
{
    let t = lower_chars(chars_of(topic).as_slice());
    let k = lower_chars(chars_of(token).as_slice());
    contains_chars(t.as_slice(), k.as_slice()) || contains_chars(k.as_slice(), t.as_slice())
}

/// The reason code of a radar maturity band, if it has one.
pub open spec fn radar_code_spec(band: Seq<char>) -> Option<Seq<char>> {
    if band == "emerging"@ || band == "experimental"@ {
        Some("radar_emerging"@)
    } else if band == "established"@ {
        Some("radar_established"@)
    } else if band == "stale"@ || band == "noisy"@ {
        Some("radar_watch_band"@)
    } else {
        None
    }
}

pub fn radar_reason_code(band: &str) -> (r: Option<&'static str>)
    ensures
        match r {
            Some(c) => radar_code_spec(band@) == Some(c@),
            None => radar_code_spec(band@) is None,
        },
{
    if str_eq(band, "emerging") || str_eq(band, "experimental") {
        Some("radar_emerging")
    } else if str_eq(band, "established") {
        Some("radar_established")
    } else if str_eq(band, "stale") || str_eq(band, "noisy") {
        Some("radar_watch_band")
    } else {
        None
    }
}

/// The values in order, keeping the first occurrence of each.
pub open spec fn dedupe_seq(v: Seq<Seq<char>>) -> Seq<Seq<char>>
    decreases v.len(),
{
    if v.len() == 0 {
        Seq::empty()
    } else {
        let prev = dedupe_seq(v.drop_last());
        if prev.contains(v.last()) {
            prev
        } else {
            prev.push(v.last())
        }
    }
}

/// Removes repeated values, keeping the first occurrence of each.
pub fn dedupe_strings(values: &mut Vec<String>)
    ensures
        final(values).deep_view() == dedupe_seq(old(values).deep_view()),
{
    let ghost orig = values.deep_view();
    let mut out: Vec<String> = Vec::new();
    assert(out.deep_view() =~= Seq::<Seq<char>>::empty());
    for i in 0..values.len()
        invariant
            orig == values.deep_view(),
            out.deep_view() == dedupe_seq(orig.take(i as int)),
    {
        proof {
            assert(orig.take(i + 1).drop_last() =~= orig.take(i as int));
        }
        if !crate::text::vec_contains_str(&out, values[i].as_str()) {
            let ghost before = out.deep_view();
            let x = values[i].clone();
            out.push(x);
            assert(out.deep_view() =~= before.push(x@));
        }
    }
    assert(orig.take(orig.len() as int) =~= orig);
    *values = out;
}

/// Deduplicated values hold no value twice.
pub proof fn lemma_dedupe_distinct(v: Seq<Seq<char>>)
    ensures
        dedupe_seq(v).no_duplicates(),
    decreases v.len(),
{
    if v.len() > 0 {
        lemma_dedupe_distinct(v.drop_last());
    }
}

/// Deduplication keeps exactly the values present.
pub proof fn lemma_dedupe_same_values(v: Seq<Seq<char>>)
    ensures
        forall|x: Seq<char>| #[trigger] dedupe_seq(v).contains(x) <==> v.contains(x),
    decreases v.len(),
{
    if v.len() > 0 {
        lemma_dedupe_same_values(v.drop_last());
        let prev = dedupe_seq(v.drop_last());
        assert forall|x: Seq<char>| #[trigger] dedupe_seq(v).contains(x) <==> v.contains(x) by {
            if v.contains(x) {
                let k = choose|k: int| 0 <= k < v.len() && v[k] == x;
                if k < v.len() - 1 {
                    assert(v.drop_last()[k] == x);
                    assert(prev.contains(x));
                    let j = choose|j: int| 0 <= j < prev.len() && prev[j] == x;
                    if !prev.contains(v.last()) {
                        assert(prev.push(v.last())[j] == x);
                    }
                } else {
                    if !prev.contains(v.last()) {
                        assert(prev.push(v.last())[prev.len() as int] == x);
                    }
                }
            }
            if dedupe_seq(v).contains(x) {
                let j = choose|j: int| 0 <= j < dedupe_seq(v).len() && dedupe_seq(v)[j] == x;
                if j < prev.len() {
                    assert(dedupe_seq(v)[j] == prev[j]);
                    assert(prev.contains(x));
                    assert(v.drop_last().contains(x));
                    let k = choose|k: int| 0 <= k < v.drop_last().len() && v.drop_last()[k] == x;
                    assert(v[k] == x);
                } else {
                    assert(v[v.len() - 1] == x);
                }
            }
        }
    }
}

/// Deduplicating an already deduplicated list changes nothing.
pub proof fn lemma_dedupe_idempotent(v: Seq<Seq<char>>)
    ensures
        dedupe_seq(dedupe_seq(v)) == dedupe_seq(v),
{
    lemma_dedupe_distinct(v);
    lemma_dedupe_of_distinct(dedupe_seq(v));
}

proof fn lemma_dedupe_of_distinct(v: Seq<Seq<char>>)
    requires
        v.no_duplicates(),
    ensures
        dedupe_seq(v) == v,
    decreases v.len(),
{
    if v.len() > 0 {
        let init = v.drop_last();
        assert(init.no_duplicates());
        lemma_dedupe_of_distinct(init);
        if init.contains(v.last()) {
            let j = choose|j: int| 0 <= j < init.len() && init[j] == v.last();
            assert(v[j] == v[v.len() - 1]);
        }
        assert(init.push(v.last()) =~= v);
    }
}


// ---------------------------------------------------------------------------
// Explanations
// ---------------------------------------------------------------------------

/// The quality facts an explanation reads, each already compared with its
/// threshold: overall at least 0.75 (strong) or at least 0.55 (moderate),
/// reliability at least 0.7, abandonment at most 0.25, freshness at least
/// 0.75; and the public flags.
#[derive(Debug, Clone)]
pub struct QualityFacts {
    pub overall_strong: bool,
    pub overall_moderate: bool,
    pub reliability_high: bool,
    pub abandonment_low: bool,
    pub freshness_high: bool,
    pub flags: Vec<String>,
}

/// What an explanation is built from: the repository's topics and category
/// names, whether it is archived, its quality facts, its radar band, whether
/// its lexical score is at least 0.5, and the search.
#[derive(Debug, Clone)]
pub struct ExplainRepoInput {
    pub topics: Vec<String>,
    pub categories: Vec<String>,
    pub archived: bool,
    pub quality: Option<QualityFacts>,
    pub radar_band: Option<String>,
    pub lexical_strong: bool,
    pub context: ExplainContext,
}

/// Why a repository is recommended, and what to be careful about.
#[derive(Debug, Clone)]
pub struct RecommendationExplanation {
    pub included_because: Vec<String>,
    pub caveats: Vec<String>,
}

pub open spec fn quality_reasons(q: QualityFacts) -> Seq<Seq<char>> {
    let a: Seq<Seq<char>> = if q.overall_strong {
        seq!["quality_overall_strong"@]
    } else if q.overall_moderate {
        seq!["quality_overall_moderate"@]
    } else {
        Seq::empty()
    };
    let b = if q.reliability_high {
        a.push("reliability_high"@)
    } else {
        a
    };
    let c = if q.abandonment_low {
        b.push("abandonment_low"@)
    } else {
        b
    };
    if q.freshness_high {
        c.push("freshness_high"@)
    } else {
        c
    }
}

/// The caveat codes of the flags, each once, in order of first flag.
pub open spec fn flag_caveats(flags: Seq<Seq<char>>) -> Seq<Seq<char>> {
    push_all_unique(Seq::empty(), flags.map_values(|f: Seq<char>| flag_code_spec(f)))
}

pub open spec fn some_topic_matches(topics: Seq<Seq<char>>, tokens: Seq<Seq<char>>) -> bool {
    exists|i: int, j: int|
        0 <= i < topics.len() && 0 <= j < tokens.len() && topic_token_spec(
            #[trigger] topics[i],
            #[trigger] tokens[j],
        )
}

pub open spec fn some_category_matches(categories: Seq<Seq<char>>, tokens: Seq<Seq<char>>) -> bool {
    exists|i: int, j: int|
        0 <= i < categories.len() && 0 <= j < tokens.len() && contains_seq(
            lower_seq(#[trigger] categories[i]),
            #[trigger] tokens[j],
        )
}

/// The reasons a query gives: a lexical match for a query that is not
/// blank, a topic match and a category match when some query token meets a
/// topic or a category name.
pub open spec fn match_reasons(input: ExplainRepoInput) -> Seq<Seq<char>> {
    let tokens = input.context.query_tokens.deep_view();
    let a: Seq<Seq<char>> = match input.context.query {
        Some(q) => if trim_seq(q@).len() > 0 {
            if input.lexical_strong {
                seq!["lexical_match_strong"@]
            } else {
                seq!["lexical_match"@]
            }
        } else {
            Seq::empty()
        },
        None => Seq::empty(),
    };
    let b = if tokens.len() > 0 && some_topic_matches(input.topics.deep_view(), tokens) {
        a.push("topic_match"@)
    } else {
        a
    };
    if tokens.len() > 0 && some_category_matches(input.categories.deep_view(), tokens) {
        b.push("category_match"@)
    } else {
        b
    }
}

/// The reasons of an explanation before deduplication, in order.
pub open spec fn included_raw(input: ExplainRepoInput) -> Seq<Seq<char>> {
    let q = match input.quality {
        Some(q) => quality_reasons(q),
        None => Seq::empty(),
    };
    let radar = match input.radar_band {
        Some(b) => match radar_code_spec(b@) {
            Some(c) => seq![c],
            None => Seq::empty(),
        },
        None => Seq::empty(),
    };
    let topics_filter: Seq<Seq<char>> = if input.context.topics_filter@.len() > 0 {
        seq!["topics_filter_applied"@]
    } else {
        Seq::empty()
    };
    seq![filter_code_spec(input.context.filter)] + q + match_reasons(input) + radar + topics_filter
}

/// The caveats of an explanation before deduplication, in order.
pub open spec fn caveats_raw(input: ExplainRepoInput) -> Seq<Seq<char>> {
    let q = match input.quality {
        Some(q) => flag_caveats(q.flags.deep_view()),
        None => seq!["no_score_yet"@],
    };
    if input.archived {
        q.push("archived_repo"@)
    } else {
        q
    }
}

fn push_code(v: &mut Vec<String>, code: &str)
    ensures
        final(v).deep_view() == old(v).deep_view().push(code@),
{
    let ghost before = v.deep_view();
    v.push(owned(code));
    assert(v.deep_view() =~= before.push(code@));
}

fn any_topic_matches(topics: &Vec<String>, tokens: &Vec<String>) -> (r: bool)
    ensures
        r == some_topic_matches(topics.deep_view(), tokens.deep_view()),
{
    for i in 0..topics.len()
        invariant
            forall|a: int, b: int|
                0 <= a < i && 0 <= b < tokens@.len() ==> !topic_token_spec(
                    topics.deep_view()[a],
                    tokens.deep_view()[b],
                ),
    {
        for j in 0..tokens.len()
            invariant
                0 <= i < topics@.len(),
                forall|a: int, b: int|
                    0 <= a < i && 0 <= b < tokens@.len() ==> !topic_token_spec(
                        topics.deep_view()[a],
                        tokens.deep_view()[b],
                    ),
                forall|b: int|
                    0 <= b < j ==> !topic_token_spec(topics.deep_view()[i as int], tokens.deep_view()[b]),
        {
            assert(topics.deep_view()[i as int] == topics@[i as int]@);
            assert(tokens.deep_view()[j as int] == tokens@[j as int]@);
            if topic_contains_token(topics[i].as_str(), tokens[j].as_str()) {
                assert(topic_token_spec(topics.deep_view()[i as int], tokens.deep_view()[j as int]));
                return true;
            }
        }
    }
    false
}

fn any_category_matches(categories: &Vec<String>, tokens: &Vec<String>) -> (r: bool)
    ensures
        r == some_category_matches(categories.deep_view(), tokens.deep_view()),
{
    for i in 0..categories.len()
        invariant
            forall|a: int, b: int|
                0 <= a < i && 0 <= b < tokens@.len() ==> !contains_seq(
                    lower_seq(categories.deep_view()[a]),
                    tokens.deep_view()[b],
                ),
    {
        let lowered = lower_chars(chars_of(categories[i].as_str()).as_slice());
        assert(categories.deep_view()[i as int] == categories@[i as int]@);
        for j in 0..tokens.len()
            invariant
                0 <= i < categories@.len(),
                lowered@ == lower_seq(categories.deep_view()[i as int]),
                forall|a: int, b: int|
                    0 <= a < i && 0 <= b < tokens@.len() ==> !contains_seq(
                        lower_seq(categories.deep_view()[a]),
                        tokens.deep_view()[b],
                    ),
                forall|b: int|
                    0 <= b < j ==> !contains_seq(
                        lower_seq(categories.deep_view()[i as int]),
                        tokens.deep_view()[b],
                    ),
        {
            assert(tokens.deep_view()[j as int] == tokens@[j as int]@);
            if contains_chars(lowered.as_slice(), chars_of(tokens[j].as_str()).as_slice()) {
                return true;
            }
        }
    }
    false
}

fn push_quality_reasons(q: &QualityFacts, included: &mut Vec<String>, caveats: &mut Vec<String>)
    requires
        old(caveats).deep_view().len() == 0,
    ensures
        final(included).deep_view() == old(included).deep_view() + quality_reasons(*q),
        final(caveats).deep_view() == flag_caveats(q.flags.deep_view()),
{
    let ghost start = included.deep_view();
    if q.overall_strong {
        push_code(included, "quality_overall_strong");
    } else if q.overall_moderate {
        push_code(included, "quality_overall_moderate");
    }
    if q.reliability_high {
        push_code(included, "reliability_high");
    }
    if q.abandonment_low {
        push_code(included, "abandonment_low");
    }
    if q.freshness_high {
        push_code(included, "freshness_high");
    }
    assert(included.deep_view() =~= start + quality_reasons(*q));
    let ghost fv = q.flags.deep_view();
    let ghost codes = fv.map_values(|f: Seq<char>| flag_code_spec(f));
    assert(caveats.deep_view() =~= Seq::<Seq<char>>::empty());
    for i in 0..q.flags.len()
        invariant
            fv == q.flags.deep_view(),
            codes == fv.map_values(|f: Seq<char>| flag_code_spec(f)),
            caveats.deep_view() == push_all_unique(Seq::empty(), codes.take(i as int)),
    {
        proof {
            assert(codes.take(i + 1).drop_last() =~= codes.take(i as int));
            assert(codes.take(i + 1).last() == flag_code_spec(q.flags@[i as int]@));
        }
        push_unique_str(caveats, flag_code(q.flags[i].as_str()));
    }
    assert(codes.take(q.flags@.len() as int) =~= codes);
}

fn push_match_reasons(input: &ExplainRepoInput, included: &mut Vec<String>)
    ensures
        final(included).deep_view() == old(included).deep_view() + match_reasons(*input),
{
    let ghost start = included.deep_view();
    let ctx = &input.context;
    match &ctx.query {
        Some(q) => {
            let t = trim_chars(chars_of(q.as_str()).as_slice());
            if t.len() > 0 {
                if input.lexical_strong {
                    push_code(included, "lexical_match_strong");
                } else {
                    push_code(included, "lexical_match");
                }
            }
        },
        None => {},
    }
    if ctx.query_tokens.len() > 0 && any_topic_matches(&input.topics, &ctx.query_tokens) {
        push_code(included, "topic_match");
    }
    if ctx.query_tokens.len() > 0 && any_category_matches(&input.categories, &ctx.query_tokens) {
        push_code(included, "category_match");
    }
    assert(included.deep_view() =~= start + match_reasons(*input));
}

/// The explanation of a recommended repository: reasons and caveats, each
/// without repeats.
pub fn build_recommendation_explanation(input: &ExplainRepoInput) -> (r: RecommendationExplanation)
    ensures
        r.included_because.deep_view() == dedupe_seq(included_raw(*input)),
        r.caveats.deep_view() == dedupe_seq(caveats_raw(*input)),
{
    let mut included: Vec<String> = Vec::new();
    let mut caveats: Vec<String> = Vec::new();
    push_code(&mut included, filter_code(input.context.filter));
    assert(included.deep_view() =~= seq![filter_code_spec(input.context.filter)]);
    match &input.quality {
        Some(q) => {
            push_quality_reasons(q, &mut included, &mut caveats);
        },
        None => {
            push_code(&mut caveats, "no_score_yet");
            assert(caveats.deep_view() =~= seq!["no_score_yet"@]);
        },
    }
    if input.archived {
        push_code(&mut caveats, "archived_repo");
    }
    assert(caveats.deep_view() =~= caveats_raw(*input));
    push_match_reasons(input, &mut included);
    let ghost before_radar = included.deep_view();
    match &input.radar_band {
        Some(b) => match radar_reason_code(b.as_str()) {
            Some(c) => push_code(&mut included, c),
            None => {},
        },
        None => {},
    }
    if input.context.topics_filter.len() > 0 {
        push_code(&mut included, "topics_filter_applied");
    }
    assert(included.deep_view() =~= included_raw(*input));
    dedupe_strings(&mut included);
    dedupe_strings(&mut caveats);
    RecommendationExplanation { included_because: included, caveats }
}

} // verus!
