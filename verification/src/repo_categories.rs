//! Category detection for repositories: which terms of each category's
//! rule a repository's text and topics show. (The confidence given to a
//! category is computed by the caller from the numbers of hits.)
use vstd::prelude::*;

use crate::recommendations::{fold_accent, fold_accent_char};
use crate::text::{ascii_lower, ascii_lower_char, chars_eq, chars_of, contains_char,
    contains_chars, contains_seq, join_seq, join_strings, push_str, seqs_of, string_of, str_eq,
    tokens_chars, tokens_seq, Sep};

verus! {

/// Category text: ASCII lower case, `_` and `/` as `-`, French accents
/// folded.
pub open spec fn category_char(c: char) -> char {
    let l = ascii_lower(c);
    if l == '_' || l == '/' {
        '-'
    } else {
        fold_accent(l)
    }
}

pub open spec fn category_text(s: Seq<char>) -> Seq<char> {
    Seq::new(s.len(), |i: int| category_char(s[i]))
}

/// Normalizes text for category matching.
pub fn normalize_text(input: &str) -> (r: String)
    ensures
        r@ == category_text(input@),
{
    let cs = chars_of(input);
    let mut out: Vec<char> = Vec::new();
    for i in 0..cs.len()
        invariant
            cs@ == input@,
            out@ == category_text(cs@.take(i as int)),
    {
        let l = ascii_lower_char(cs[i]);
        let c = if l == '_' || l == '/' {
            '-'
        } else {
            fold_accent_char(l)
        };
        out.push(c);
        assert(out@ =~= category_text(cs@.take(i + 1)));
    }
    assert(cs@.take(cs@.len() as int) =~= cs@);
    string_of(out.as_slice())
}

/// The ASCII-alphanumeric runs of a text.
pub fn text_tokens(input: &str) -> (r: Vec<Vec<char>>)
    ensures
        seqs_of(r@) == tokens_seq(input@, Sep::NonAsciiAlnum),
{
    tokens_chars(chars_of(input).as_slice(), Sep::NonAsciiAlnum)
}

/// A term matches when a topic equals it (normalized), or, for a term with
/// a dash or a space, when the text contains it, or else when a token of
/// the text equals it.
pub open spec fn term_matches(term: Seq<char>, haystack: Seq<char>, topics: Seq<Seq<char>>) -> bool {
    let n = category_text(term);
    topics.contains(n) || if n.contains('-') || n.contains(' ') {
        contains_seq(haystack, n)
    } else {
        tokens_seq(haystack, Sep::NonAsciiAlnum).contains(n)
    }
}

/// The terms that match, in order.
pub open spec fn matching_terms(terms: Seq<Seq<char>>, haystack: Seq<char>, topics: Seq<Seq<char>>) -> Seq<Seq<char>>
    decreases terms.len(),
{
    if terms.len() == 0 {
        Seq::empty()
    } else {
        let prev = matching_terms(terms.drop_last(), haystack, topics);
        if term_matches(terms.last(), haystack, topics) {
            prev.push(terms.last())
        } else {
            prev
        }
    }
}

fn vec_has(v: &Vec<Vec<char>>, x: &[char]) -> (r: bool)
    ensures
        r == seqs_of(v@).contains(x@),
{
    for i in 0..v.len()
        invariant
            forall|j: int| 0 <= j < i ==> seqs_of(v@)[j] != x@,
    {
        assert(seqs_of(v@)[i as int] == v@[i as int]@);
        if chars_eq(v[i].as_slice(), x) {
            return true;
        }
    }
    false
}

fn strings_have(v: &Vec<String>, x: &str) -> (r: bool)
    ensures
        r == v.deep_view().contains(x@),
{
    crate::text::vec_contains_str(v, x)
}

/// The terms of a rule that a repository shows.
pub fn matched_terms(terms: &[&str], haystack: &str, topics: &Vec<String>) -> (r: Vec<String>)
    ensures
        r.deep_view() == matching_terms(terms@.map_values(|t: &str| t@), haystack@, topics.deep_view()),
{
    let tokens = text_tokens(haystack);
    let hay = chars_of(haystack);
    let ghost tv = terms@.map_values(|t: &str| t@);
    let mut r: Vec<String> = Vec::new();
    for i in 0..terms.len()
        invariant
            tv == terms@.map_values(|t: &str| t@),
            hay@ == haystack@,
            seqs_of(tokens@) == tokens_seq(haystack@, Sep::NonAsciiAlnum),
            r.deep_view() == matching_terms(tv.take(i as int), haystack@, topics.deep_view()),
    {
        proof {
            assert(tv.take(i + 1).drop_last() =~= tv.take(i as int));
            assert(tv.take(i + 1).last() == terms@[i as int]@);
        }
        let normalized = normalize_text(terms[i]);
        let n = chars_of(normalized.as_str());
        let hit = if strings_have(topics, normalized.as_str()) {
            true
        } else if contains_char(n.as_slice(), '-') || contains_char(n.as_slice(), ' ') {
            contains_chars(hay.as_slice(), n.as_slice())
        } else {
            vec_has(&tokens, n.as_slice())
        };
        if hit {
            let ghost before = r.deep_view();
            r.push(crate::text::owned(terms[i]));
            assert(r.deep_view() =~= before.push(terms@[i as int]@));
        }
    }
    assert(tv.take(terms@.len() as int) =~= tv);
    r
}

/// The normalized text of a repository: owner, name, description,
/// language and topics, separated by spaces.
pub open spec fn haystack_spec(
    owner: Seq<char>,
    name: Seq<char>,
    description: Option<Seq<char>>,
    language: Option<Seq<char>>,
    topics: Seq<Seq<char>>,
) -> Seq<char> {
    let d = match description {
        Some(x) => x,
        None => Seq::empty(),
    };
    let l = match language {
        Some(x) => x,
        None => Seq::empty(),
    };
    category_text(owner + " "@ + name + " "@ + d + " "@ + l + " "@ + join_seq(topics, " "@))
}

/// The normalized text a repository is matched against.
pub fn normalized_haystack(
    owner: &str,
    name: &str,
    description: Option<&str>,
    language: Option<&str>,
    topics: &Vec<String>,
) -> (r: String)
    ensures
        r@ == haystack_spec(
            owner@,
            name@,
            crate::email_templates::opt_view(description),
            crate::email_templates::opt_view(language),
            topics.deep_view(),
        ),
{
    let mut s = String::new();
    push_str(&mut s, owner);
    push_str(&mut s, " ");
    push_str(&mut s, name);
    push_str(&mut s, " ");
    match description {
        Some(d) => push_str(&mut s, d),
        None => {},
    }
    push_str(&mut s, " ");
    match language {
        Some(l) => push_str(&mut s, l),
        None => {},
    }
    push_str(&mut s, " ");
    let joined = join_strings(topics, " ");
    push_str(&mut s, joined.as_str());
    proof {
        let d = match crate::email_templates::opt_view(description) {
            Some(x) => x,
            None => Seq::empty(),
        };
        let l = match crate::email_templates::opt_view(language) {
            Some(x) => x,
            None => Seq::empty(),
        };
        assert(s@ =~= owner@ + " "@ + name@ + " "@ + d + " "@ + l + " "@ + join_seq(
            topics.deep_view(),
            " "@,
        ));
    }
    normalize_text(s.as_str())
}


/// The terms of a category that a repository shows, by strength.
#[derive(Debug, Clone)]
pub struct RuleHits {
    pub strong: Vec<String>,
    pub medium: Vec<String>,
    pub weak: Vec<String>,
}

/// The weight of the hits in hundredths: 34 per strong term, 16 per
/// medium term, 8 per weak term.
pub open spec fn hits_weight(strong: nat, medium: nat, weak: nat) -> nat {
    34 * strong + 16 * medium + 8 * weak
}

/// A repository counts for a category when the hits weigh at least 0.24;
/// a UI kit needs a strong hit besides.
pub open spec fn rule_hits_spec(
    category: Seq<char>,
    strong: Seq<Seq<char>>,
    medium: Seq<Seq<char>>,
    weak: Seq<Seq<char>>,
    haystack: Seq<char>,
    topics: Seq<Seq<char>>,
) -> Option<(Seq<Seq<char>>, Seq<Seq<char>>, Seq<Seq<char>>)> {
    let s = matching_terms(strong, haystack, topics);
    let m = matching_terms(medium, haystack, topics);
    let w = matching_terms(weak, haystack, topics);
    if category == "ui-kit"@ && s.len() == 0 {
        None
    } else if hits_weight(s.len(), m.len(), w.len()) < 24 {
        None
    } else {
        Some((s, m, w))
    }
}

pub open spec fn strs_view(v: Seq<&str>) -> Seq<Seq<char>> {
    v.map_values(|t: &str| t@)
}

/// The hits of one category's rule on a repository, when they are enough.
pub fn rule_hits(
    category: &str,
    strong: &[&str],
    medium: &[&str],
    weak: &[&str],
    haystack: &str,
    topics: &Vec<String>,
) -> (r: Option<RuleHits>)
    ensures
        match rule_hits_spec(
            category@,
            strs_view(strong@),
            strs_view(medium@),
            strs_view(weak@),
            haystack@,
            topics.deep_view(),
        ) {
            Some(h) => r matches Some(x) && x.strong.deep_view() == h.0 && x.medium.deep_view()
                == h.1 && x.weak.deep_view() == h.2,
            None => r is None,
        },
{
    let s = matched_terms(strong, haystack, topics);
    let m = matched_terms(medium, haystack, topics);
    let w = matched_terms(weak, haystack, topics);
    if str_eq(category, "ui-kit") && s.len() == 0 {
        return None;
    }
    let sl = s.len() as u128;
    let ml = m.len() as u128;
    let wl = w.len() as u128;
    if 34 * sl + 16 * ml + 8 * wl < 24 {
        return None;
    }
    Some(RuleHits { strong: s, medium: m, weak: w })
}

/// The terms of one category, by strength.
#[derive(Debug, Clone)]
pub struct CategoryRule {
    pub category: &'static str,
    pub strong: Vec<&'static str>,
    pub medium: Vec<&'static str>,
    pub weak: Vec<&'static str>,
}

/// A rule as plain text: the category and its strong, medium and weak terms.
pub open spec fn rule_view(r: CategoryRule) -> (Seq<char>, Seq<Seq<char>>, Seq<Seq<char>>, Seq<Seq<char>>) {
    (r.category@, strs_view(r.strong@), strs_view(r.medium@), strs_view(r.weak@))
}

pub open spec fn rules_view(v: Seq<CategoryRule>) -> Seq<(Seq<char>, Seq<Seq<char>>, Seq<Seq<char>>, Seq<Seq<char>>)> {
    v.map_values(|r: CategoryRule| rule_view(r))
}

/// The categories a repository can fall in, with their terms.
pub open spec fn category_table() -> Seq<(Seq<char>, Seq<Seq<char>>, Seq<Seq<char>>, Seq<Seq<char>>)> {
    seq![
        ("ui-kit"@,
            seq!["component"@, "components"@, "design-system"@, "design system"@, "shadcn"@,
                "material-ui"@, "chakra"@, "radix"@, "mantine"@, "headlessui"@, "ant-design"@],
            seq!["ui"@, "react"@, "tailwind"@, "css"@, "frontend"@],
            seq!["kit"@, "interface"@]),
        ("orm"@,
            seq!["orm"@, "prisma"@, "drizzle"@, "typeorm"@, "sequelize"@, "gorm"@],
            seq!["database"@, "postgres"@, "postgresql"@, "sql"@],
            seq!["query-builder"@, "schema"@]),
        ("auth"@,
            seq!["auth"@, "authentication"@, "oauth"@, "openid"@, "session"@],
            seq!["login"@, "security"@, "identity"@],
            seq!["jwt"@, "password"@]),
        ("data-grid"@,
            seq!["datatable"@, "data-grid"@, "data grid"@, "table"@, "grid"@],
            seq!["spreadsheet"@, "react-table"@, "tanstack"@],
            seq!["rows"@, "columns"@]),
        ("video-tool"@,
            seq!["video"@, "screen-recording"@, "recording"@, "ffmpeg"@, "remotion"@],
            seq!["animation"@, "course"@, "tutorial"@, "education"@],
            seq!["media"@, "capture"@]),
        ("testing"@,
            seq!["test"@, "testing"@, "playwright"@, "vitest"@, "jest"@],
            seq!["e2e"@, "assertion"@, "browser"@],
            seq!["spec"@, "mock"@]),
        ("http-client"@,
            seq!["http-client"@, "http client"@, "fetch"@, "axios"@, "ky"@, "got"@],
            seq!["http"@, "request"@, "api"@],
            seq!["client"@, "network"@]),
        ("validation"@,
            seq!["validation"@, "validator"@, "schema"@, "zod"@, "valibot"@, "yup"@],
            seq!["json-schema"@, "types"@],
            seq!["parse"@, "safeparse"@])
    ]
}

/// The category rules, in the order categories are tried.
pub fn category_rules() -> (r: Vec<CategoryRule>)
    ensures
        rules_view(r@) == category_table(),
{
    let r = vec![
        CategoryRule {
            category: "ui-kit",
            strong: vec!["component", "components", "design-system", "design system", "shadcn",
                "material-ui", "chakra", "radix", "mantine", "headlessui", "ant-design"],
            medium: vec!["ui", "react", "tailwind", "css", "frontend"],
            weak: vec!["kit", "interface"],
        },
        CategoryRule {
            category: "orm",
            strong: vec!["orm", "prisma", "drizzle", "typeorm", "sequelize", "gorm"],
            medium: vec!["database", "postgres", "postgresql", "sql"],
            weak: vec!["query-builder", "schema"],
        },
        CategoryRule {
            category: "auth",
            strong: vec!["auth", "authentication", "oauth", "openid", "session"],
            medium: vec!["login", "security", "identity"],
            weak: vec!["jwt", "password"],
        },
        CategoryRule {
            category: "data-grid",
            strong: vec!["datatable", "data-grid", "data grid", "table", "grid"],
            medium: vec!["spreadsheet", "react-table", "tanstack"],
            weak: vec!["rows", "columns"],
        },
        CategoryRule {
            category: "video-tool",
            strong: vec!["video", "screen-recording", "recording", "ffmpeg", "remotion"],
            medium: vec!["animation", "course", "tutorial", "education"],
            weak: vec!["media", "capture"],
        },
        CategoryRule {
            category: "testing",
            strong: vec!["test", "testing", "playwright", "vitest", "jest"],
            medium: vec!["e2e", "assertion", "browser"],
            weak: vec!["spec", "mock"],
        },
        CategoryRule {
            category: "http-client",
            strong: vec!["http-client", "http client", "fetch", "axios", "ky", "got"],
            medium: vec!["http", "request", "api"],
            weak: vec!["client", "network"],
        },
        CategoryRule {
            category: "validation",
            strong: vec!["validation", "validator", "schema", "zod", "valibot", "yup"],
            medium: vec!["json-schema", "types"],
            weak: vec!["parse", "safeparse"],
        },
    ];
    assert(rules_view(r@) =~~= category_table());
    r
}

/// A category a repository falls in, with the terms it shows.
#[derive(Debug, Clone)]
pub struct CategoryHits {
    pub category: String,
    pub hits: RuleHits,
}

pub open spec fn category_hits_view(h: CategoryHits) -> (Seq<char>, (Seq<Seq<char>>, Seq<Seq<char>>, Seq<Seq<char>>)) {
    (h.category@, (h.hits.strong.deep_view(), h.hits.medium.deep_view(), h.hits.weak.deep_view()))
}

pub open spec fn hits_view(v: Seq<CategoryHits>) -> Seq<(Seq<char>, (Seq<Seq<char>>, Seq<Seq<char>>, Seq<Seq<char>>))> {
    v.map_values(|h: CategoryHits| category_hits_view(h))
}

/// The categories whose rule a repository satisfies, in rule order, each
/// with its hits.
pub open spec fn classify_spec(
    rules: Seq<(Seq<char>, Seq<Seq<char>>, Seq<Seq<char>>, Seq<Seq<char>>)>,
    haystack: Seq<char>,
    topics: Seq<Seq<char>>,
) -> Seq<(Seq<char>, (Seq<Seq<char>>, Seq<Seq<char>>, Seq<Seq<char>>))>
    decreases rules.len(),
{
    if rules.len() == 0 {
        Seq::empty()
    } else {
        let prev = classify_spec(rules.drop_last(), haystack, topics);
        let r = rules.last();
        match rule_hits_spec(r.0, r.1, r.2, r.3, haystack, topics) {
            Some(h) => prev.push((r.0, h)),
            None => prev,
        }
    }
}

/// Applies each rule to a repository's normalized text and topics.
pub fn classify_with_rules(rules: &Vec<CategoryRule>, haystack: &str, topics: &Vec<String>) -> (r: Vec<CategoryHits>)
    ensures
        hits_view(r@) == classify_spec(rules_view(rules@), haystack@, topics.deep_view()),
{
    let ghost rv = rules_view(rules@);
    let mut out: Vec<CategoryHits> = Vec::new();
    for i in 0..rules.len()
        invariant
            rv == rules_view(rules@),
            hits_view(out@) == classify_spec(rv.take(i as int), haystack@, topics.deep_view()),
    {
        proof {
            assert(rv.take(i + 1).drop_last() =~= rv.take(i as int));
            assert(rv.take(i + 1).last() == rule_view(rules@[i as int]));
        }
        let rule = &rules[i];
        let found = rule_hits(
            rule.category,
            rule.strong.as_slice(),
            rule.medium.as_slice(),
            rule.weak.as_slice(),
            haystack,
            topics,
        );
        match found {
            Some(h) => {
                let ghost before = hits_view(out@);
                let item = CategoryHits { category: crate::text::owned(rule.category), hits: h };
                out.push(item);
                assert(hits_view(out@) =~= before.push(category_hits_view(item)));
            },
            None => {},
        }
    }
    assert(rv.take(rules@.len() as int) =~= rv);
    out
}

/// The topics, each normalized for category matching.
pub fn normalize_topics(topics: &Vec<String>) -> (r: Vec<String>)
    ensures
        r.deep_view() == topics.deep_view().map_values(|t: Seq<char>| category_text(t)),
{
    let ghost want = topics.deep_view().map_values(|t: Seq<char>| category_text(t));
    let mut out: Vec<String> = Vec::new();
    for i in 0..topics.len()
        invariant
            want == topics.deep_view().map_values(|t: Seq<char>| category_text(t)),
            out.deep_view() == want.take(i as int),
    {
        let n = normalize_text(topics[i].as_str());
        let ghost before = out.deep_view();
        out.push(n);
        assert(topics.deep_view()[i as int] == topics@[i as int]@);
        assert(out.deep_view() =~= before.push(n@));
        assert(out.deep_view() =~= want.take(i + 1));
    }
    assert(want.take(topics.len() as int) =~= want);
    out
}

/// The categories of a repository: each rule of the category table applied
/// to its normalized text (owner, name, description, language and topics)
/// and its normalized topics.
pub fn classify_repo_categories(
    owner: &str,
    name: &str,
    description: Option<&str>,
    language: Option<&str>,
    topics: &Vec<String>,
) -> (r: Vec<CategoryHits>)
    ensures
        hits_view(r@) == classify_spec(
            category_table(),
            haystack_spec(
                owner@,
                name@,
                crate::email_templates::opt_view(description),
                crate::email_templates::opt_view(language),
                topics.deep_view(),
            ),
            topics.deep_view().map_values(|t: Seq<char>| category_text(t)),
        ),
{
    let haystack = normalized_haystack(owner, name, description, language, topics);
    let topic_text = normalize_topics(topics);
    let rules = category_rules();
    classify_with_rules(&rules, haystack.as_str(), &topic_text)
}

/// Names a category of the given rules, each reported category's hits weigh
/// enough, and no two reported entries share a category, when the rules'
/// categories are distinct.
proof fn lemma_classify_shape(
    rules: Seq<(Seq<char>, Seq<Seq<char>>, Seq<Seq<char>>, Seq<Seq<char>>)>,
    haystack: Seq<char>,
    topics: Seq<Seq<char>>,
)
    requires
        forall|i: int, j: int| 0 <= i < j < rules.len() ==> #[trigger] rules[i].0 != #[trigger] rules[j].0,
    ensures
        forall|k: int| 0 <= k < classify_spec(rules, haystack, topics).len() ==> exists|m: int|
            0 <= m < rules.len() && rules[m].0 == #[trigger] classify_spec(rules, haystack, topics)[k].0,
        forall|k: int| 0 <= k < classify_spec(rules, haystack, topics).len() ==> {
            let e = #[trigger] classify_spec(rules, haystack, topics)[k];
            &&& hits_weight(e.1.0.len(), e.1.1.len(), e.1.2.len()) >= 24
            &&& (e.0 == "ui-kit"@ ==> e.1.0.len() > 0)
        },
        forall|i: int, j: int| 0 <= i < j < classify_spec(rules, haystack, topics).len()
            ==> #[trigger] classify_spec(rules, haystack, topics)[i].0
                != #[trigger] classify_spec(rules, haystack, topics)[j].0,
    decreases rules.len(),
{
    if rules.len() > 0 {
        let init = rules.drop_last();
        assert forall|i: int, j: int| 0 <= i < j < init.len() implies #[trigger] init[i].0 != #[trigger] init[j].0 by {
            assert(init[i] == rules[i]);
            assert(init[j] == rules[j]);
        }
        lemma_classify_shape(init, haystack, topics);
        let prev = classify_spec(init, haystack, topics);
        let r = rules.last();
        let cur = classify_spec(rules, haystack, topics);
        match rule_hits_spec(r.0, r.1, r.2, r.3, haystack, topics) {
            Some(h) => {
                assert(cur == prev.push((r.0, h)));
                assert forall|k: int| 0 <= k < cur.len() implies exists|m: int|
                    0 <= m < rules.len() && rules[m].0 == #[trigger] cur[k].0 by {
                    if k < prev.len() {
                        assert(cur[k] == prev[k]);
                        let m = choose|m: int| 0 <= m < init.len() && init[m].0 == #[trigger] prev[k].0;
                        assert(rules[m] == init[m]);
                    } else {
                        assert(rules[rules.len() - 1].0 == cur[k].0);
                    }
                }
                assert forall|i: int, j: int| 0 <= i < j < cur.len() implies #[trigger] cur[i].0 != #[trigger] cur[j].0 by {
                    if j < prev.len() {
                        assert(cur[i] == prev[i]);
                        assert(cur[j] == prev[j]);
                    } else {
                        assert(cur[i] == prev[i]);
                        let m = choose|m: int| 0 <= m < init.len() && init[m].0 == #[trigger] prev[i].0;
                        assert(rules[m] == init[m]);
                        assert(rules[m].0 != rules[rules.len() - 1].0);
                    }
                }
                assert forall|k: int| 0 <= k < cur.len() implies {
                    let e = #[trigger] cur[k];
                    &&& hits_weight(e.1.0.len(), e.1.1.len(), e.1.2.len()) >= 24
                    &&& (e.0 == "ui-kit"@ ==> e.1.0.len() > 0)
                } by {
                    if k < prev.len() {
                        assert(cur[k] == prev[k]);
                    }
                }
            },
            None => {
                assert(cur == prev);
                assert forall|k: int| 0 <= k < cur.len() implies exists|m: int|
                    0 <= m < rules.len() && rules[m].0 == #[trigger] cur[k].0 by {
                    let m = choose|m: int| 0 <= m < init.len() && init[m].0 == #[trigger] prev[k].0;
                    assert(rules[m] == init[m]);
                }
            },
        }
    }
}

/// A repository is reported at most once per category; every reported
/// category is one of the table's, its hits weigh at least 0.24, and a UI
/// kit is reported only with a strong hit.
pub proof fn lemma_categories_distinct(haystack: Seq<char>, topics: Seq<Seq<char>>)
    ensures
        forall|i: int, j: int| 0 <= i < j < classify_spec(category_table(), haystack, topics).len()
            ==> #[trigger] classify_spec(category_table(), haystack, topics)[i].0
                != #[trigger] classify_spec(category_table(), haystack, topics)[j].0,
        forall|k: int| 0 <= k < classify_spec(category_table(), haystack, topics).len() ==> {
            let e = #[trigger] classify_spec(category_table(), haystack, topics)[k];
            &&& hits_weight(e.1.0.len(), e.1.1.len(), e.1.2.len()) >= 24
            &&& (e.0 == "ui-kit"@ ==> e.1.0.len() > 0)
            &&& exists|m: int| 0 <= m < category_table().len() && category_table()[m].0 == e.0
        },
{
    reveal_strlit("ui-kit");
    reveal_strlit("orm");
    reveal_strlit("auth");
    reveal_strlit("data-grid");
    reveal_strlit("video-tool");
    reveal_strlit("testing");
    reveal_strlit("http-client");
    reveal_strlit("validation");
    let t = category_table();
    assert forall|i: int, j: int| 0 <= i < j < t.len() implies #[trigger] t[i].0 != #[trigger] t[j].0 by {
        assert(t[0].0 == "ui-kit"@);
        assert(t[1].0 == "orm"@);
        assert(t[2].0 == "auth"@);
        assert(t[3].0 == "data-grid"@);
        assert(t[4].0 == "video-tool"@);
        assert(t[5].0 == "testing"@);
        assert(t[6].0 == "http-client"@);
        assert(t[7].0 == "validation"@);
        if t[i].0 == t[j].0 {
            assert(t[i].0.len() == t[j].0.len());
            assert(t[i].0[0] == t[j].0[0]);
            assert(t[i].0[1] == t[j].0[1]);
        }
    }
    lemma_classify_shape(t, haystack, topics);
}

} // verus!
