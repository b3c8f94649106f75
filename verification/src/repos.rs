//! Repository search parameters: sort order, query tokens, topic and
//! maturity-band filters.
use vstd::prelude::*;

use crate::text::{
    any_str_eq, chars_eq, chars_of, lower_chars, lower_seq, owned, push_all_unique, push_str,
    push_unique_str, replace_char, replace_char_seq, seqs_of, split_chars, split_seq, string_of,
    strs, to_unicode_lowercase, trim_chars, trim_seq, trim_start_matches_chars,
    trim_start_matches_seq, to_lowercase_spec, utf8_len, utf8_len_at_least, Sep,
};

verus! {

/// The order of repository search results.
#[derive(Debug, Clone, Copy, PartialEq, Eq)]
pub enum RepoSort {
    Score,
    Stars,
    Recency,
    Abandonment,
    Trend,
}

/// The sort a request asks for: the trimmed, lower-cased value mapped through
/// the known names and aliases; anything else, or nothing, sorts by score.
pub open spec fn repo_sort_spec(input: Option<Seq<char>>) -> RepoSort {
    match input {
        None => RepoSort::Score,
        Some(raw) => {
            let v = lower_seq(trim_seq(raw));
            if seq!["stars"@].contains(v) {
                RepoSort::Stars
            } else if seq!["recency"@, "recent"@, "freshness"@].contains(v) {
                RepoSort::Recency
            } else if seq!["abandonment"@, "risk"@].contains(v) {
                RepoSort::Abandonment
            } else if seq!["trend"@, "radar"@, "emerging"@].contains(v) {
                RepoSort::Trend
            } else {
                RepoSort::Score
            }
        },
    }
}

pub open spec fn opt_str_view(o: Option<&str>) -> Option<Seq<char>> {
    match o {
        Some(s) => Some(s@),
        None => None,
    }
}

impl RepoSort {
    pub fn parse(input: Option<&str>) -> (r: RepoSort)
        ensures
            r == repo_sort_spec(opt_str_view(input)),
    {
        match input {
            None => RepoSort::Score,
            Some(raw) => {
                let v = lower_chars(trim_chars(chars_of(raw).as_slice()).as_slice());
                let stars = ["stars"];
                let recency = ["recency", "recent", "freshness"];
                let abandonment = ["abandonment", "risk"];
                let trend = ["trend", "radar", "emerging"];
                assert(strs(stars@) =~= seq!["stars"@]);
                assert(strs(recency@) =~= seq!["recency"@, "recent"@, "freshness"@]);
                assert(strs(abandonment@) =~= seq!["abandonment"@, "risk"@]);
                assert(strs(trend@) =~= seq!["trend"@, "radar"@, "emerging"@]);
                if any_str_eq(&stars, v.as_slice()) {
                    RepoSort::Stars
                } else if any_str_eq(&recency, v.as_slice()) {
                    RepoSort::Recency
                } else if any_str_eq(&abandonment, v.as_slice()) {
                    RepoSort::Abandonment
                } else if any_str_eq(&trend, v.as_slice()) {
                    RepoSort::Trend
                } else {
                    RepoSort::Score
                }
            },
        }
    }

    pub open spec fn name(self) -> Seq<char> {
        match self {
            RepoSort::Score => "score"@,
            RepoSort::Stars => "stars"@,
            RepoSort::Recency => "recency"@,
            RepoSort::Abandonment => "abandonment"@,
            RepoSort::Trend => "trend"@,
        }
    }

    pub fn as_str(self) -> (r: &'static str)
        ensures
            r@ == self.name(),
    {
        match self {
            RepoSort::Score => "score",
            RepoSort::Stars => "stars",
            RepoSort::Recency => "recency",
            RepoSort::Abandonment => "abandonment",
            RepoSort::Trend => "trend",
        }
    }
}

// ---------------------------------------------------------------------------
// Query tokens
// ---------------------------------------------------------------------------

/// Each piece, trimmed then lower-cased (`str::to_lowercase`).
pub open spec fn lowered_pieces(p: Seq<Seq<char>>) -> Seq<Seq<char>> {
    Seq::new(p.len(), |i: int| to_lowercase_spec(trim_seq(p[i])))
}

/// The pieces at least `n` bytes long, in order.
pub open spec fn at_least_bytes(p: Seq<Seq<char>>, n: nat) -> Seq<Seq<char>>
    decreases p.len(),
{
    if p.len() == 0 {
        Seq::empty()
    } else if utf8_len(p.last()) >= n {
        at_least_bytes(p.drop_last(), n).push(p.last())
    } else {
        at_least_bytes(p.drop_last(), n)
    }
}

/// The query split on non-alphanumeric characters, each piece trimmed and
/// lower-cased, pieces shorter than two bytes dropped, duplicates dropped
/// (first occurrence kept).
pub open spec fn query_tokens_spec(query: Option<Seq<char>>) -> Seq<Seq<char>> {
    let q = match query {
        Some(q) => q,
        None => Seq::empty(),
    };
    push_all_unique(
        Seq::empty(),
        at_least_bytes(lowered_pieces(split_seq(q, Sep::NonAlnum)), 2),
    )
}

proof fn lemma_no_query_no_tokens()
    ensures
        query_tokens_spec(None) == Seq::<Seq<char>>::empty(),
{
    let e = Seq::<char>::empty();
    assert(split_seq(e, Sep::NonAlnum) == seq![e]);
    assert(trim_seq(e) == e);
    assert(lower_seq(e) =~= e);
    assert(lowered_pieces(seq![e]) =~= seq![e]);
    assert(seq![e].drop_last() =~= Seq::<Seq<char>>::empty());
    assert(seq![e].last() == e);
    assert(utf8_len(e) == 0);
    assert(at_least_bytes(Seq::<Seq<char>>::empty(), 2) =~= Seq::<Seq<char>>::empty());
    assert(at_least_bytes(seq![e], 2) =~= Seq::<Seq<char>>::empty());
}

/// The query's tokens: see `query_tokens_spec`. Without a query there are
/// none.
pub fn tokenize_query(query: Option<&str>) -> (r: Vec<String>)
    ensures
        r.deep_view() == query_tokens_spec(opt_str_view(query)),
        query is None ==> r@.len() == 0,
{
    proof {
        lemma_no_query_no_tokens();
    }
    let q = match query {
        Some(q) => chars_of(q),
        None => Vec::new(),
    };
    assert(q@ == match opt_str_view(query) {
        Some(q) => q,
        None => Seq::<char>::empty(),
    });
    let pieces = split_chars(q.as_slice(), Sep::NonAlnum);
    let ghost lp = lowered_pieces(seqs_of(pieces@));
    let mut tokens: Vec<String> = Vec::new();
    assert(tokens.deep_view() =~= Seq::<Seq<char>>::empty());
    for i in 0..pieces.len()
        invariant
            lp == lowered_pieces(seqs_of(pieces@)),
            tokens.deep_view() == push_all_unique(
                Seq::empty(),
                at_least_bytes(lp.take(i as int), 2),
            ),
    {
        let t = trim_chars(pieces[i].as_slice());
        let ts = string_of(t.as_slice());
        let token = to_unicode_lowercase(ts.as_str());
        let tc = chars_of(token.as_str());
        proof {
            assert(lp.take(i + 1).drop_last() =~= lp.take(i as int));
            assert(lp[i as int] == token@);
        }
        if utf8_len_at_least(tc.as_slice(), 2) {
            proof {
                let prev = at_least_bytes(lp.take(i as int), 2);
                assert(at_least_bytes(lp.take(i + 1), 2) == prev.push(token@));
                assert(prev.push(token@).drop_last() =~= prev);
            }
            push_unique_str(&mut tokens, token.as_str());
        }
    }
    assert(lp.take(lp.len() as int) =~= lp);
    tokens
}

// ---------------------------------------------------------------------------
// Topics and maturity bands
// ---------------------------------------------------------------------------

/// A topic filter value: trimmed, leading `#` removed, ASCII lower-cased,
/// `_` replaced by `-`.
pub open spec fn topic_norm(t: Seq<char>) -> Seq<char> {
    replace_char_seq(lower_seq(trim_start_matches_seq(trim_seq(t), seq!['#'])), '_', '-')
}

/// The normalized topics that are not empty, in order.
pub open spec fn nonempty_normalized_topics(t: Seq<Seq<char>>) -> Seq<Seq<char>>
    decreases t.len(),
{
    if t.len() == 0 {
        Seq::empty()
    } else if topic_norm(t.last()).len() > 0 {
        nonempty_normalized_topics(t.drop_last()).push(topic_norm(t.last()))
    } else {
        nonempty_normalized_topics(t.drop_last())
    }
}

pub open spec fn normalized_topics_spec(t: Seq<Seq<char>>) -> Seq<Seq<char>> {
    push_all_unique(Seq::empty(), nonempty_normalized_topics(t))
}

fn normalize_topic(t: &str) -> (r: Vec<char>)
    ensures
        r@ == topic_norm(t@),
{
    let a = trim_chars(chars_of(t).as_slice());
    let hash = vec!['#'];
    assert(hash@ =~= seq!['#']);
    let b = trim_start_matches_chars(a.as_slice(), hash.as_slice());
    let c = lower_chars(b.as_slice());
    replace_char(c.as_slice(), '_', '-')
}

/// Normalizes topic filters and drops empty and repeated ones.
pub fn normalize_topics(topics: &[String]) -> (r: Vec<String>)
    ensures
        r.deep_view() == normalized_topics_spec(topics@.map_values(|t: String| t@)),
{
    let ghost tv = topics@.map_values(|t: String| t@);
    let mut out: Vec<String> = Vec::new();
    assert(out.deep_view() =~= Seq::<Seq<char>>::empty());
    for i in 0..topics.len()
        invariant
            tv == topics@.map_values(|t: String| t@),
            out.deep_view() == push_all_unique(
                Seq::empty(),
                nonempty_normalized_topics(tv.take(i as int)),
            ),
    {
        let n = normalize_topic(topics[i].as_str());
        proof {
            assert(tv.take(i + 1).drop_last() =~= tv.take(i as int));
            assert(tv[i as int] == topics@[i as int]@);
        }
        if n.len() > 0 {
            let s = string_of(n.as_slice());
            proof {
                let prev = nonempty_normalized_topics(tv.take(i as int));
                assert(nonempty_normalized_topics(tv.take(i + 1)) == prev.push(s@));
                assert(prev.push(s@).drop_last() =~= prev);
            }
            push_unique_str(&mut out, s.as_str());
        }
    }
    assert(tv.take(tv.len() as int) =~= tv);
    out
}

/// The public spelling of a signal name (`security_issue` becomes
/// `security-issue`; others are unchanged).
pub open spec fn public_signal_spec(signal: Seq<char>) -> Seq<char> {
    if signal == "security_issue"@ {
        "security-issue"@
    } else {
        signal
    }
}

pub fn normalize_public_signal(signal: &str) -> (r: String)
    ensures
        r@ == public_signal_spec(signal@),
{
    if chars_eq(chars_of(signal).as_slice(), chars_of("security_issue").as_slice()) {
        owned("security-issue")
    } else {
        owned(signal)
    }
}

/// A repository profile shows a recent signal when it is passive, or when
/// its public spelling is one of the flags the repository was approved for.
pub open spec fn signal_visible_spec(is_passive: bool, signal: Seq<char>, approved_flags: Seq<Seq<char>>) -> bool {
    is_passive || approved_flags.contains(public_signal_spec(signal))
}

/// Whether a profile shows a recent signal.
pub fn signal_is_visible(is_passive: bool, signal: &str, approved_flags: &Vec<String>) -> (r: bool)
    ensures
        r == signal_visible_spec(is_passive, signal@, approved_flags.deep_view()),
{
    if is_passive {
        return true;
    }
    let public = normalize_public_signal(signal);
    crate::text::vec_contains_str(approved_flags, public.as_str())
}

/// The maturity bands a filter may name.
pub open spec fn known_bands() -> Seq<Seq<char>> {
    seq!["established"@, "emerging"@, "experimental"@, "stale"@, "noisy"@]
}

/// A band filter value: trimmed, ASCII lower-cased, `_` replaced by `-`.
pub open spec fn band_norm(b: Seq<char>) -> Seq<char> {
    replace_char_seq(lower_seq(trim_seq(b)), '_', '-')
}

pub open spec fn known_normalized_bands(b: Seq<Seq<char>>) -> Seq<Seq<char>>
    decreases b.len(),
{
    if b.len() == 0 {
        Seq::empty()
    } else if known_bands().contains(band_norm(b.last())) {
        known_normalized_bands(b.drop_last()).push(band_norm(b.last()))
    } else {
        known_normalized_bands(b.drop_last())
    }
}

pub open spec fn normalized_bands_spec(b: Seq<Seq<char>>) -> Seq<Seq<char>> {
    push_all_unique(Seq::empty(), known_normalized_bands(b))
}

/// Normalizes maturity-band filters, keeps the known ones, drops repeats.
pub fn normalize_maturity_bands(bands: &[String]) -> (r: Vec<String>)
    ensures
        r.deep_view() == normalized_bands_spec(bands@.map_values(|t: String| t@)),
{
    let ghost bv = bands@.map_values(|t: String| t@);
    let known = ["established", "emerging", "experimental", "stale", "noisy"];
    assert(strs(known@) =~= known_bands());
    let mut out: Vec<String> = Vec::new();
    assert(out.deep_view() =~= Seq::<Seq<char>>::empty());
    for i in 0..bands.len()
        invariant
            bv == bands@.map_values(|t: String| t@),
            strs(known@) == known_bands(),
            out.deep_view() == push_all_unique(
                Seq::empty(),
                known_normalized_bands(bv.take(i as int)),
            ),
    {
        let a = lower_chars(trim_chars(chars_of(bands[i].as_str()).as_slice()).as_slice());
        let n = replace_char(a.as_slice(), '_', '-');
        proof {
            assert(bv.take(i + 1).drop_last() =~= bv.take(i as int));
            assert(bv[i as int] == bands@[i as int]@);
        }
        if any_str_eq(&known, n.as_slice()) {
            let s = string_of(n.as_slice());
            proof {
                let prev = known_normalized_bands(bv.take(i as int));
                assert(known_normalized_bands(bv.take(i + 1)) == prev.push(s@));
                assert(prev.push(s@).drop_last() =~= prev);
            }
            push_unique_str(&mut out, s.as_str());
        }
    }
    assert(bv.take(bv.len() as int) =~= bv);
    out
}

/// When true, adding a repository must not call GitHub: it is already
/// indexed.
pub fn should_short_circuit_github_ingest(already_indexed: bool) -> (r: bool)
    ensures
        r == already_indexed,
{
    already_indexed
}

pub const SEARCH_DEFAULT_LIMIT: i64 = 50;
pub const SEARCH_MAX_LIMIT: i64 = 200;

/// The number of results a search returns: the requested number (fifty by
/// default), between one and two hundred.
pub fn search_limit(limit: Option<i64>) -> (r: i64)
    ensures
        r == match limit {
            Some(l) => if l < 1 {
                1
            } else if l > SEARCH_MAX_LIMIT {
                SEARCH_MAX_LIMIT as int
            } else {
                l as int
            },
            None => SEARCH_DEFAULT_LIMIT as int,
        },
{
    let l = match limit {
        Some(l) => l,
        None => SEARCH_DEFAULT_LIMIT,
    };
    if l < 1 {
        1
    } else if l > SEARCH_MAX_LIMIT {
        SEARCH_MAX_LIMIT
    } else {
        l
    }
}

/// Where a search's results start: the requested offset, never negative.
pub fn search_offset(offset: Option<i64>) -> (r: i64)
    ensures
        r == match offset {
            Some(o) => if o < 0 {
                0
            } else {
                o as int
            },
            None => 0,
        },
{
    match offset {
        Some(o) => if o < 0 {
            0
        } else {
            o
        },
        None => 0,
    }
}

/// The names shown for a repository: its owner and name (empty when
/// missing), `owner/name`, and its page (the stored URL, else
/// `https://github.com/owner/name`).
#[derive(Debug, Clone)]
pub struct RepoNames {
    pub owner: String,
    pub name: String,
    pub full_name: String,
    pub html_url: String,
}

pub open spec fn text_or_empty(o: Option<String>) -> Seq<char> {
    match o {
        Some(s) => s@,
        None => Seq::empty(),
    }
}

pub fn repo_names(owner: Option<String>, name: Option<String>, html_url: Option<String>) -> (r: RepoNames)
    ensures
        r.owner@ == text_or_empty(owner),
        r.name@ == text_or_empty(name),
        r.full_name@ == text_or_empty(owner) + "/"@ + text_or_empty(name),
        r.html_url@ == match html_url {
            Some(u) => u@,
            None => "https://github.com/"@ + text_or_empty(owner) + "/"@ + text_or_empty(name),
        },
{
    let owner = match owner {
        Some(o) => o,
        None => String::new(),
    };
    let name = match name {
        Some(n) => n,
        None => String::new(),
    };
    let mut full_name = owner.clone();
    proof {
        assert(full_name@ == owner@);
    }
    push_str(&mut full_name, "/");
    push_str(&mut full_name, name.as_str());
    let html_url = match html_url {
        Some(u) => u,
        None => {
            let mut u = owned("https://github.com/");
            push_str(&mut u, full_name.as_str());
            u
        },
    };
    RepoNames { owner, name, full_name, html_url }
}

/// A profile's score snapshot names the previous formula, `v1.1`, when a
/// previous overall score is known.
pub fn previous_formula_version(has_previous_overall: bool) -> (r: Option<&'static str>)
    ensures
        has_previous_overall ==> (r matches Some(v) && v@ == "v1.1"@),
        !has_previous_overall ==> r is None,
{
    if has_previous_overall {
        Some("v1.1")
    } else {
        None
    }
}

/// A sort's name parses back to the sort, whatever case and surrounding
/// whitespace it is written with.
pub proof fn lemma_sort_round_trip(sort: RepoSort, raw: Seq<char>)
    requires
        lower_seq(trim_seq(raw)) == sort.name(),
    ensures
        repo_sort_spec(Some(raw)) == sort,
{
    reveal_strlit("score");
    reveal_strlit("stars");
    reveal_strlit("recency");
    reveal_strlit("recent");
    reveal_strlit("freshness");
    reveal_strlit("abandonment");
    reveal_strlit("risk");
    reveal_strlit("trend");
    reveal_strlit("radar");
    reveal_strlit("emerging");
    let v = lower_seq(trim_seq(raw));
    let l1 = seq!["stars"@];
    let l2 = seq!["recency"@, "recent"@, "freshness"@];
    let l3 = seq!["abandonment"@, "risk"@];
    let l4 = seq!["trend"@, "radar"@, "emerging"@];
    match sort {
        RepoSort::Stars => {
            assert(l1[0] == v);
        },
        RepoSort::Recency => {
            assert(l1[0][0] != v[0]);
            assert(l2[0] == v);
        },
        RepoSort::Abandonment => {
            assert(l1[0][0] != v[0]);
            assert forall|i: int| 0 <= i < l2.len() implies l2[i] != v by {
                assert(l2[i][0] != v[0]);
            }
            assert(l3[0] == v);
        },
        RepoSort::Trend => {
            assert(l1[0][0] != v[0]);
            assert forall|i: int| 0 <= i < l2.len() implies l2[i] != v by {
                assert(l2[i][0] != v[0]);
            }
            assert forall|i: int| 0 <= i < l3.len() implies l3[i] != v by {
                assert(l3[i][0] != v[0]);
            }
            assert(l4[0] == v);
        },
        RepoSort::Score => {
            assert(l1[0][1] != v[1]);
            assert forall|i: int| 0 <= i < l2.len() implies l2[i] != v by {
                assert(l2[i][0] != v[0]);
            }
            assert forall|i: int| 0 <= i < l3.len() implies l3[i] != v by {
                assert(l3[i][0] != v[0]);
            }
            assert forall|i: int| 0 <= i < l4.len() implies l4[i] != v by {
                assert(l4[i][0] != v[0]);
            }
        },
    }
}

/// A sort's own name parses back to it.
pub proof fn lemma_sort_name_parses(sort: RepoSort)
    ensures
        repo_sort_spec(Some(sort.name())) == sort,
{
    reveal_strlit("score");
    reveal_strlit("stars");
    reveal_strlit("recency");
    reveal_strlit("abandonment");
    reveal_strlit("trend");
    crate::text::lemma_plain_word_normal(sort.name());
    lemma_sort_round_trip(sort, sort.name());
}

} // verus!
