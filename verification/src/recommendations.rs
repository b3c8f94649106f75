//! Use-case intent detection for recommendations: which categories, topics
//! and languages a free-text need points at.
use vstd::prelude::*;

use crate::text::{
    any_str_eq, ascii_lower, ascii_lower_char, chars_eq, chars_of, contains_chars, contains_seq,
    eq_ignore_ascii_case, join_seq, join_strings, lower_chars, lower_seq, owned, push_all_unique,
    push_str, push_unique_many, push_unique_seq, push_unique_str, seqs_of, split_chars, split_seq,
    string_of, strs, tokens_chars, tokens_seq, trim_chars, trim_seq, utf8_len, utf8_len_at_least,
    Sep,
};

verus! {

/// How confident the intent detection is.
#[derive(Debug, Clone, Copy, PartialEq, Eq)]
pub enum IntentConfidence {
    High,
    Medium,
    Low,
}

/// What a free-text need asks for.
#[derive(Debug, Clone)]
pub struct UseCaseIntent {
    pub label: String,
    pub confidence: IntentConfidence,
    pub categories: Vec<String>,
    pub topics: Vec<String>,
    pub languages: Vec<String>,
}

// ---------------------------------------------------------------------------
// Text normalisation
// ---------------------------------------------------------------------------

/// Folds the French accented lower-case letters onto their base letter.
pub open spec fn fold_accent(c: char) -> char {
    if c == '\u{e9}' || c == '\u{e8}' || c == '\u{ea}' || c == '\u{eb}' {
        'e'
    } else if c == '\u{e0}' || c == '\u{e2}' {
        'a'
    } else if c == '\u{ee}' || c == '\u{ef}' {
        'i'
    } else if c == '\u{f4}' {
        'o'
    } else if c == '\u{f9}' || c == '\u{fb}' {
        'u'
    } else if c == '\u{e7}' {
        'c'
    } else {
        c
    }
}

/// ASCII lower-casing followed by accent folding, on each character.
pub open spec fn normalize_seq(s: Seq<char>) -> Seq<char> {
    Seq::new(s.len(), |i: int| fold_accent(ascii_lower(s[i])))
}

pub(crate) fn fold_accent_char(c: char) -> (r: char)
    ensures
        r == fold_accent(c),
{
    if c == '\u{e9}' || c == '\u{e8}' || c == '\u{ea}' || c == '\u{eb}' {
        'e'
    } else if c == '\u{e0}' || c == '\u{e2}' {
        'a'
    } else if c == '\u{ee}' || c == '\u{ef}' {
        'i'
    } else if c == '\u{f4}' {
        'o'
    } else if c == '\u{f9}' || c == '\u{fb}' {
        'u'
    } else if c == '\u{e7}' {
        'c'
    } else {
        c
    }
}

/// Lower-cases ASCII letters and folds French accents.
pub fn normalize_text(input: &str) -> (r: Vec<char>)
    ensures
        r@ == normalize_seq(input@),
{
    let s = chars_of(input);
    let mut r: Vec<char> = Vec::new();
    for i in 0..s.len()
        invariant
            s@ == input@,
            r@ == normalize_seq(s@.take(i as int)),
    {
        r.push(fold_accent_char(ascii_lower_char(s[i])));
        assert(normalize_seq(s@.take(i + 1)) =~= normalize_seq(s@.take(i as int)).push(
            fold_accent(ascii_lower(s@[i as int])),
        ));
    }
    assert(s@.take(s@.len() as int) =~= s@);
    r
}

// ---------------------------------------------------------------------------
// Needle matching
// ---------------------------------------------------------------------------

/// Some needle occurs as a substring of the haystack.
pub open spec fn contains_any_spec(hay: Seq<char>, needles: Seq<Seq<char>>) -> bool {
    exists|i: int| 0 <= i < needles.len() && contains_seq(hay, #[trigger] needles[i])
}

/// Some piece of the haystack split on non-alphanumeric ASCII characters
/// equals a needle.
pub open spec fn contains_token_any_spec(hay: Seq<char>, needles: Seq<Seq<char>>) -> bool {
    exists|i: int|
        0 <= i < split_seq(hay, Sep::NonAsciiAlnum).len() && needles.contains(
            #[trigger] split_seq(hay, Sep::NonAsciiAlnum)[i],
        )
}

pub fn contains_any(hay: &[char], needles: &[&str]) -> (r: bool)
    ensures
        r == contains_any_spec(hay@, strs(needles@)),
{
    for i in 0..needles.len()
        invariant
            forall|j: int| 0 <= j < i ==> !contains_seq(hay@, #[trigger] strs(needles@)[j]),
    {
        let n = chars_of(needles[i]);
        if contains_chars(hay, n.as_slice()) {
            assert(contains_seq(hay@, strs(needles@)[i as int]));
            return true;
        }
    }
    false
}

pub fn contains_token_any(hay: &[char], needles: &[&str]) -> (r: bool)
    ensures
        r == contains_token_any_spec(hay@, strs(needles@)),
{
    let pieces = split_chars(hay, Sep::NonAsciiAlnum);
    let ghost ps = split_seq(hay@, Sep::NonAsciiAlnum);
    for i in 0..pieces.len()
        invariant
            seqs_of(pieces@) == ps,
            ps == split_seq(hay@, Sep::NonAsciiAlnum),
            forall|j: int| 0 <= j < i ==> !strs(needles@).contains(#[trigger] ps[j]),
    {
        if any_str_eq(needles, pieces[i].as_slice()) {
            assert(ps[i as int] == pieces@[i as int]@);
            return true;
        }
        assert(ps[i as int] == pieces@[i as int]@);
    }
    false
}

// ---------------------------------------------------------------------------
// The intent rules
// ---------------------------------------------------------------------------

pub const RULE_COUNT: usize = 7;

/// Whether rule `k` (0-based, in the order the rules are tried) fires on the
/// normalized query.
pub open spec fn rule_fires(n: Seq<char>, k: int) -> bool {
    if k == 0 {
        contains_token_any_spec(
            n,
            seq!["orm"@, "database"@, "postgres"@, "sql"@, "prisma"@, "drizzle"@],
        )
    } else if k == 1 {
        contains_any_spec(n, seq!["typescript"@, "ts"@, "node"@, "javascript"@])
    } else if k == 2 {
        contains_token_any_spec(
            n,
            seq![
                "test"@,
                "tests"@,
                "testing"@,
                "e2e"@,
                "unit"@,
                "integration"@,
                "playwright"@,
                "vitest"@,
                "jest"@,
            ],
        )
    } else if k == 3 {
        contains_any_spec(
            n,
            seq![
                "video"@,
                "videos"@,
                "formation"@,
                "course"@,
                "tutorial"@,
                "recording"@,
                "screen"@,
            ],
        )
    } else if k == 4 {
        contains_any_spec(n, seq!["table"@, "grid"@, "datatable"@])
    } else if k == 5 {
        contains_token_any_spec(
            n,
            seq![
                "ui"@,
                "kit"@,
                "component"@,
                "components"@,
                "design"@,
                "shadcn"@,
                "chakra"@,
                "radix"@,
                "mantine"@,
            ],
        )
    } else {
        contains_any_spec(n, seq!["auth"@, "login"@, "oauth"@, "session"@])
    }
}

/// The label a rule proposes, if any.
pub open spec fn rule_label(k: int) -> Option<Seq<char>> {
    if k == 0 {
        Some("ORM TypeScript"@)
    } else if k == 1 {
        None
    } else if k == 2 {
        Some("Testing"@)
    } else if k == 3 {
        Some("Creation video pedagogique"@)
    } else if k == 4 {
        Some("Data grid UI"@)
    } else if k == 5 {
        Some("Kit UI / composants"@)
    } else {
        Some("Authentification web"@)
    }
}

/// The categories a rule adds.
pub open spec fn rule_categories(k: int) -> Seq<Seq<char>> {
    if k == 0 {
        seq!["orm"@, "database"@]
    } else if k == 1 {
        Seq::empty()
    } else if k == 2 {
        seq!["testing"@]
    } else if k == 3 {
        seq!["video-creation"@, "education"@]
    } else if k == 4 {
        seq!["data-grid"@, "ui"@]
    } else if k == 5 {
        seq!["ui-kit"@, "ui"@, "components"@]
    } else {
        seq!["auth"@]
    }
}

/// The topics a rule adds.
pub open spec fn rule_topics(k: int) -> Seq<Seq<char>> {
    if k == 0 {
        seq!["orm"@, "database"@, "postgresql"@, "sql"@, "typescript"@]
    } else if k == 1 {
        seq!["typescript"@]
    } else if k == 2 {
        seq!["test"@, "testing"@, "testing-tools"@, "e2e-testing"@]
    } else if k == 3 {
        seq!["video"@, "recording"@, "screen-recording"@, "animation"@, "ffmpeg"@, "education"@]
    } else if k == 4 {
        seq!["table"@, "datatable"@, "grid"@, "react"@, "typescript"@]
    } else if k == 5 {
        seq!["components"@, "ui"@, "react"@, "design-system"@, "css"@, "tailwind"@]
    } else {
        seq!["auth"@, "oauth"@, "security"@, "nextjs"@]
    }
}

/// The languages a rule adds.
pub open spec fn rule_languages(k: int) -> Seq<Seq<char>> {
    if k == 1 {
        seq!["TypeScript"@]
    } else {
        Seq::empty()
    }
}

/// What the first `k` rules contribute, each firing rule adding its entries in
/// order, without duplicates.
pub open spec fn gathered(n: Seq<char>, k: int, entries: spec_fn(int) -> Seq<Seq<char>>) -> Seq<
    Seq<char>,
>
    decreases k,
{
    if k <= 0 {
        Seq::empty()
    } else {
        let prev = gathered(n, k - 1, entries);
        if rule_fires(n, k - 1) {
            push_all_unique(prev, entries(k - 1))
        } else {
            prev
        }
    }
}

/// The label of the first firing rule among the first `k` that has one.
pub open spec fn first_label(n: Seq<char>, k: int) -> Option<Seq<char>>
    decreases k,
{
    if k <= 0 {
        None
    } else {
        match first_label(n, k - 1) {
            Some(l) => Some(l),
            None => if rule_fires(n, k - 1) {
                rule_label(k - 1)
            } else {
                None
            },
        }
    }
}

/// The words of the query (whitespace-separated) that are at least three
/// bytes long.
pub open spec fn long_words(s: Seq<Seq<char>>) -> Seq<Seq<char>>
    decreases s.len(),
{
    if s.len() == 0 {
        Seq::empty()
    } else if utf8_len(s.last()) >= 3 {
        long_words(s.drop_last()).push(s.last())
    } else {
        long_words(s.drop_last())
    }
}

pub open spec fn intent_categories(n: Seq<char>) -> Seq<Seq<char>> {
    gathered(n, 7, |k: int| rule_categories(k))
}

pub open spec fn rule_topics_gathered(n: Seq<char>) -> Seq<Seq<char>> {
    gathered(n, 7, |k: int| rule_topics(k))
}

/// The topics: those of the firing rules, or, when no rule adds one, the long
/// words of the query.
pub open spec fn intent_topics(n: Seq<char>) -> Seq<Seq<char>> {
    if rule_topics_gathered(n).len() == 0 {
        push_all_unique(Seq::empty(), long_words(tokens_seq(n, Sep::Whitespace)))
    } else {
        rule_topics_gathered(n)
    }
}

pub open spec fn intent_languages(n: Seq<char>) -> Seq<Seq<char>> {
    gathered(n, 7, |k: int| rule_languages(k))
}

pub open spec fn intent_label(n: Seq<char>) -> Seq<char> {
    match first_label(n, 7) {
        Some(l) => l,
        None => "Recherche OSS"@,
    }
}

/// High when the rules yield categories and topics, Medium when they yield
/// topics only, Low otherwise.
pub open spec fn intent_confidence(n: Seq<char>) -> IntentConfidence {
    if intent_categories(n).len() > 0 && rule_topics_gathered(n).len() > 0 {
        IntentConfidence::High
    } else if rule_topics_gathered(n).len() > 0 {
        IntentConfidence::Medium
    } else {
        IntentConfidence::Low
    }
}

/// The intent detected in `query`.
pub open spec fn intent_of(query: Seq<char>, intent: UseCaseIntent) -> bool {
    let n = normalize_seq(query);
    &&& intent.label@ == intent_label(n)
    &&& intent.confidence == intent_confidence(n)
    &&& intent.categories.deep_view() == intent_categories(n)
    &&& intent.topics.deep_view() == intent_topics(n)
    &&& intent.languages.deep_view() == intent_languages(n)
}

/// Applies one rule's additions when it fires.
fn apply_rule(
    fires: bool,
    label: Option<&'static str>,
    cats: &[&str],
    tops: &[&str],
    langs: &[&str],
    chosen: &mut Option<&'static str>,
    categories: &mut Vec<String>,
    topics: &mut Vec<String>,
    languages: &mut Vec<String>,
)
    ensures
        fires ==> final(categories).deep_view() == push_all_unique(
            old(categories).deep_view(),
            strs(cats@),
        ),
        fires ==> final(topics).deep_view() == push_all_unique(
            old(topics).deep_view(),
            strs(tops@),
        ),
        fires ==> final(languages).deep_view() == push_all_unique(
            old(languages).deep_view(),
            strs(langs@),
        ),
        !fires ==> final(categories).deep_view() == old(categories).deep_view(),
        !fires ==> final(topics).deep_view() == old(topics).deep_view(),
        !fires ==> final(languages).deep_view() == old(languages).deep_view(),
        old(chosen).is_some() ==> *final(chosen) == *old(chosen),
        old(chosen).is_none() && fires ==> *final(chosen) == label,
        old(chosen).is_none() && !fires ==> final(chosen).is_none(),
{
    if fires {
        if chosen.is_none() {
            *chosen = label;
        }
        push_unique_many(categories, cats);
        push_unique_many(topics, tops);
        push_unique_many(languages, langs);
    }
}

pub open spec fn opt_view(o: Option<&str>) -> Option<Seq<char>> {
    match o {
        Some(s) => Some(s@),
        None => None,
    }
}

/// Detects the intent of a free-text need: categories, topics and languages
/// of the rules whose keywords occur, a label and a confidence.
pub fn parse_intent(query: &str) -> (intent: UseCaseIntent)
    ensures
        intent_of(query@, intent),
{
    let normalized = normalize_text(query);
    let ghost n = normalized@;
    let nz = normalized.as_slice();
    let mut categories: Vec<String> = Vec::new();
    let mut topics: Vec<String> = Vec::new();
    let mut languages: Vec<String> = Vec::new();
    let mut chosen: Option<&'static str> = None;
    let empty: [&str; 0] = [];
    assert(categories.deep_view() =~= Seq::<Seq<char>>::empty());
    assert(topics.deep_view() =~= Seq::<Seq<char>>::empty());
    assert(languages.deep_view() =~= Seq::<Seq<char>>::empty());
    assert(gathered(n, 0, |k: int| rule_categories(k)) == Seq::<Seq<char>>::empty());
    assert(gathered(n, 0, |k: int| rule_topics(k)) == Seq::<Seq<char>>::empty());
    assert(gathered(n, 0, |k: int| rule_languages(k)) == Seq::<Seq<char>>::empty());
    assert(first_label(n, 0) is None);

    let r0_needles = ["orm", "database", "postgres", "sql", "prisma", "drizzle"];
    let f0 = contains_token_any(nz, &r0_needles);
    assert(strs(r0_needles@) =~= seq!["orm"@, "database"@, "postgres"@, "sql"@, "prisma"@, "drizzle"@]);
    let c0 = ["orm", "database"];
    let t0 = ["orm", "database", "postgresql", "sql", "typescript"];
    apply_rule(
        f0,
        Some("ORM TypeScript"),
        &c0,
        &t0,
        &empty,
        &mut chosen,
        &mut categories,
        &mut topics,
        &mut languages,
    );
    assert(strs(c0@) =~= rule_categories(0));
    assert(strs(t0@) =~= rule_topics(0));
    assert(strs(empty@) =~= rule_languages(0));
    assert(categories.deep_view() == gathered(n, 1, |k: int| rule_categories(k)));
    assert(topics.deep_view() == gathered(n, 1, |k: int| rule_topics(k)));
    assert(languages.deep_view() == gathered(n, 1, |k: int| rule_languages(k)));
    assert(opt_view(chosen) == first_label(n, 1));

    let r1_needles = ["typescript", "ts", "node", "javascript"];
    let f1 = contains_any(nz, &r1_needles);
    assert(strs(r1_needles@) =~= seq!["typescript"@, "ts"@, "node"@, "javascript"@]);
    let t1 = ["typescript"];
    let l1 = ["TypeScript"];
    apply_rule(
        f1,
        None,
        &empty,
        &t1,
        &l1,
        &mut chosen,
        &mut categories,
        &mut topics,
        &mut languages,
    );
    assert(strs(empty@) =~= rule_categories(1));
    assert(strs(t1@) =~= rule_topics(1));
    assert(strs(l1@) =~= rule_languages(1));
    assert(categories.deep_view() == gathered(n, 2, |k: int| rule_categories(k)));
    assert(topics.deep_view() == gathered(n, 2, |k: int| rule_topics(k)));
    assert(languages.deep_view() == gathered(n, 2, |k: int| rule_languages(k)));
    assert(opt_view(chosen) == first_label(n, 2));

    let r2_needles = [
        "test",
        "tests",
        "testing",
        "e2e",
        "unit",
        "integration",
        "playwright",
        "vitest",
        "jest",
    ];
    let f2 = contains_token_any(nz, &r2_needles);
    assert(strs(r2_needles@) =~= seq![
        "test"@,
        "tests"@,
        "testing"@,
        "e2e"@,
        "unit"@,
        "integration"@,
        "playwright"@,
        "vitest"@,
        "jest"@,
    ]);
    let c2 = ["testing"];
    let t2 = ["test", "testing", "testing-tools", "e2e-testing"];
    apply_rule(
        f2,
        Some("Testing"),
        &c2,
        &t2,
        &empty,
        &mut chosen,
        &mut categories,
        &mut topics,
        &mut languages,
    );
    assert(strs(c2@) =~= rule_categories(2));
    assert(strs(t2@) =~= rule_topics(2));
    assert(strs(empty@) =~= rule_languages(2));
    assert(categories.deep_view() == gathered(n, 3, |k: int| rule_categories(k)));
    assert(topics.deep_view() == gathered(n, 3, |k: int| rule_topics(k)));
    assert(languages.deep_view() == gathered(n, 3, |k: int| rule_languages(k)));
    assert(opt_view(chosen) == first_label(n, 3));

    let r3_needles = ["video", "videos", "formation", "course", "tutorial", "recording", "screen"];
    let f3 = contains_any(nz, &r3_needles);
    assert(strs(r3_needles@) =~= seq![
        "video"@,
        "videos"@,
        "formation"@,
        "course"@,
        "tutorial"@,
        "recording"@,
        "screen"@,
    ]);
    let c3 = ["video-creation", "education"];
    let t3 = ["video", "recording", "screen-recording", "animation", "ffmpeg", "education"];
    apply_rule(
        f3,
        Some("Creation video pedagogique"),
        &c3,
        &t3,
        &empty,
        &mut chosen,
        &mut categories,
        &mut topics,
        &mut languages,
    );
    assert(strs(c3@) =~= rule_categories(3));
    assert(strs(t3@) =~= rule_topics(3));
    assert(strs(empty@) =~= rule_languages(3));
    assert(categories.deep_view() == gathered(n, 4, |k: int| rule_categories(k)));
    assert(topics.deep_view() == gathered(n, 4, |k: int| rule_topics(k)));
    assert(languages.deep_view() == gathered(n, 4, |k: int| rule_languages(k)));
    assert(opt_view(chosen) == first_label(n, 4));

    let r4_needles = ["table", "grid", "datatable"];
    let f4 = contains_any(nz, &r4_needles);
    assert(strs(r4_needles@) =~= seq!["table"@, "grid"@, "datatable"@]);
    let c4 = ["data-grid", "ui"];
    let t4 = ["table", "datatable", "grid", "react", "typescript"];
    apply_rule(
        f4,
        Some("Data grid UI"),
        &c4,
        &t4,
        &empty,
        &mut chosen,
        &mut categories,
        &mut topics,
        &mut languages,
    );
    assert(strs(c4@) =~= rule_categories(4));
    assert(strs(t4@) =~= rule_topics(4));
    assert(strs(empty@) =~= rule_languages(4));
    assert(categories.deep_view() == gathered(n, 5, |k: int| rule_categories(k)));
    assert(topics.deep_view() == gathered(n, 5, |k: int| rule_topics(k)));
    assert(languages.deep_view() == gathered(n, 5, |k: int| rule_languages(k)));
    assert(opt_view(chosen) == first_label(n, 5));

    let r5_needles = [
        "ui",
        "kit",
        "component",
        "components",
        "design",
        "shadcn",
        "chakra",
        "radix",
        "mantine",
    ];
    let f5 = contains_token_any(nz, &r5_needles);
    assert(strs(r5_needles@) =~= seq![
        "ui"@,
        "kit"@,
        "component"@,
        "components"@,
        "design"@,
        "shadcn"@,
        "chakra"@,
        "radix"@,
        "mantine"@,
    ]);
    let c5 = ["ui-kit", "ui", "components"];
    let t5 = ["components", "ui", "react", "design-system", "css", "tailwind"];
    apply_rule(
        f5,
        Some("Kit UI / composants"),
        &c5,
        &t5,
        &empty,
        &mut chosen,
        &mut categories,
        &mut topics,
        &mut languages,
    );
    assert(strs(c5@) =~= rule_categories(5));
    assert(strs(t5@) =~= rule_topics(5));
    assert(strs(empty@) =~= rule_languages(5));
    assert(categories.deep_view() == gathered(n, 6, |k: int| rule_categories(k)));
    assert(topics.deep_view() == gathered(n, 6, |k: int| rule_topics(k)));
    assert(languages.deep_view() == gathered(n, 6, |k: int| rule_languages(k)));
    assert(opt_view(chosen) == first_label(n, 6));

    let r6_needles = ["auth", "login", "oauth", "session"];
    let f6 = contains_any(nz, &r6_needles);
    assert(strs(r6_needles@) =~= seq!["auth"@, "login"@, "oauth"@, "session"@]);
    let c6 = ["auth"];
    let t6 = ["auth", "oauth", "security", "nextjs"];
    apply_rule(
        f6,
        Some("Authentification web"),
        &c6,
        &t6,
        &empty,
        &mut chosen,
        &mut categories,
        &mut topics,
        &mut languages,
    );
    assert(strs(c6@) =~= rule_categories(6));
    assert(strs(t6@) =~= rule_topics(6));
    assert(strs(empty@) =~= rule_languages(6));
    assert(categories.deep_view() == gathered(n, 7, |k: int| rule_categories(k)));
    assert(topics.deep_view() == gathered(n, 7, |k: int| rule_topics(k)));
    assert(languages.deep_view() == gathered(n, 7, |k: int| rule_languages(k)));
    assert(opt_view(chosen) == first_label(n, 7));

    let confidence = if categories.len() > 0 && topics.len() > 0 {
        IntentConfidence::High
    } else if topics.len() > 0 {
        IntentConfidence::Medium
    } else {
        IntentConfidence::Low
    };

    if topics.len() == 0 {
        let words = tokens_chars(nz, Sep::Whitespace);
        let ghost ws = tokens_seq(n, Sep::Whitespace);
        for i in 0..words.len()
            invariant
                seqs_of(words@) == ws,
                topics.deep_view() == push_all_unique(Seq::empty(), long_words(ws.take(i as int))),
        {
            proof {
                assert(ws.take(i + 1).drop_last() =~= ws.take(i as int));
                assert(ws[i as int] == words@[i as int]@);
            }
            if utf8_len_at_least(words[i].as_slice(), 3) {
                let w = string_of(words[i].as_slice());
                proof {
                    let lw = long_words(ws.take(i as int));
                    assert(long_words(ws.take(i + 1)) == lw.push(ws[i as int]));
                    assert(lw.push(ws[i as int]).drop_last() =~= lw);
                }
                push_unique_str(&mut topics, w.as_str());
            }
        }
        assert(ws.take(ws.len() as int) =~= ws);
    }
    let label = match chosen {
        Some(l) => string_of(chars_of(l).as_slice()),
        None => string_of(chars_of("Recherche OSS").as_slice()),
    };
    UseCaseIntent { label, confidence, categories, topics, languages }
}


// ---------------------------------------------------------------------------
// Candidate search and filtering
// ---------------------------------------------------------------------------

/// The first topic at least three bytes long.
pub open spec fn first_long_topic(topics: Seq<Seq<char>>) -> Option<Seq<char>>
    decreases topics.len(),
{
    if topics.len() == 0 {
        None
    } else if utf8_len(topics[0]) >= 3 {
        Some(topics[0])
    } else {
        first_long_topic(topics.drop_first())
    }
}

/// The search query used to find candidates: the first topic of at least
/// three bytes, else the trimmed query.
pub open spec fn candidate_query_spec(query: Seq<char>, topics: Seq<Seq<char>>) -> Seq<char> {
    match first_long_topic(topics) {
        Some(t) => t,
        None => trim_seq(query),
    }
}

pub fn build_candidate_query(query: &str, intent: &UseCaseIntent) -> (r: String)
    ensures
        r@ == candidate_query_spec(query@, intent.topics.deep_view()),
{
    let ghost ts = intent.topics.deep_view();
    assert(ts.skip(0) =~= ts);
    for i in 0..intent.topics.len()
        invariant
            ts == intent.topics.deep_view(),
            first_long_topic(ts) == first_long_topic(ts.skip(i as int)),
    {
        let t = chars_of(intent.topics[i].as_str());
        proof {
            assert(ts.skip(i as int).drop_first() =~= ts.skip(i + 1));
            assert(ts.skip(i as int)[0] == ts[i as int]);
        }
        if utf8_len_at_least(t.as_slice(), 3) {
            return intent.topics[i].clone();
        }
    }
    proof {
        assert(ts.skip(ts.len() as int).len() == 0);
    }
    let q = chars_of(query);
    string_of(trim_chars(q.as_slice()).as_slice())
}

/// `low`, `medium` or `high` from the trimmed, lower-cased input; anything
/// else is `medium`.
pub open spec fn risk_tolerance_spec(input: Seq<char>) -> Seq<char> {
    let t = lower_seq(trim_seq(input));
    if t == "low"@ {
        "low"@
    } else if t == "high"@ {
        "high"@
    } else {
        "medium"@
    }
}

pub fn normalize_risk_tolerance(input: &str) -> (r: &'static str)
    ensures
        r@ == risk_tolerance_spec(input@),
{
    let t = lower_chars(trim_chars(chars_of(input).as_slice()).as_slice());
    if chars_eq(t.as_slice(), chars_of("low").as_slice()) {
        "low"
    } else if chars_eq(t.as_slice(), chars_of("high").as_slice()) {
        "high"
    } else {
        "medium"
    }
}

/// Which risks a tolerance admits: `low` only low, `high` everything, any
/// other tolerance everything but high.
pub open spec fn risk_allowed_spec(risk: Seq<char>, tolerance: Seq<char>) -> bool {
    if tolerance == "low"@ {
        risk == "low"@
    } else if tolerance == "high"@ {
        true
    } else {
        risk != "high"@
    }
}

pub fn risk_allowed_for_tolerance(risk: &str, tolerance: &str) -> (r: bool)
    ensures
        r == risk_allowed_spec(risk@, tolerance@),
{
    let t = chars_of(tolerance);
    let rk = chars_of(risk);
    if chars_eq(t.as_slice(), chars_of("low").as_slice()) {
        chars_eq(rk.as_slice(), chars_of("low").as_slice())
    } else if chars_eq(t.as_slice(), chars_of("high").as_slice()) {
        true
    } else {
        !chars_eq(rk.as_slice(), chars_of("high").as_slice())
    }
}

/// The categories whose intents only accept repositories of a matching
/// category.
pub open spec fn gated_categories() -> Seq<Seq<char>> {
    seq!["testing"@, "ui-kit"@, "auth"@, "data-grid"@, "video-tool"@]
}

pub fn requires_category_match(intent: &UseCaseIntent) -> (r: bool)
    ensures
        r == exists|i: int|
            0 <= i < intent.categories@.len() && gated_categories().contains(
                #[trigger] intent.categories.deep_view()[i],
            ),
{
    let gated = ["testing", "ui-kit", "auth", "data-grid", "video-tool"];
    assert(strs(gated@) =~= gated_categories());
    for i in 0..intent.categories.len()
        invariant
            strs(gated@) == gated_categories(),
            forall|j: int|
                0 <= j < i ==> !gated_categories().contains(#[trigger] intent.categories.deep_view()[j]),
    {
        let c = chars_of(intent.categories[i].as_str());
        assert(intent.categories.deep_view()[i as int] == c@);
        if any_str_eq(&gated, c.as_slice()) {
            return true;
        }
    }
    false
}

/// Well-known repositories to suggest for an intent, by its first matching
/// category family (video creation, ORM, testing, UI).
pub open spec fn fallback_spec(categories: Seq<Seq<char>>) -> Seq<Seq<char>> {
    if categories.contains("video-creation"@) {
        seq![
            "remotion-dev/remotion"@,
            "obsproject/obs-studio"@,
            "ffmpeg/ffmpeg"@,
            "manimcommunity/manim"@,
            "mifi/lossless-cut"@,
        ]
    } else if categories.contains("orm"@) {
        seq![
            "prisma/prisma"@,
            "drizzle-team/drizzle-orm"@,
            "typeorm/typeorm"@,
            "sequelize/sequelize"@,
            "knex/knex"@,
        ]
    } else if categories.contains("testing"@) {
        seq![
            "vitest-dev/vitest"@,
            "microsoft/playwright"@,
            "jestjs/jest"@,
            "testing-library/react-testing-library"@,
            "cypress-io/cypress"@,
        ]
    } else if categories.contains("ui-kit"@) || categories.contains("ui"@) || categories.contains(
        "components"@,
    ) {
        seq![
            "shadcn-ui/ui"@,
            "mui/material-ui"@,
            "chakra-ui/chakra-ui"@,
            "radix-ui/primitives"@,
            "tailwindlabs/headlessui"@,
            "ant-design/ant-design"@,
            "mantinedev/mantine"@,
        ]
    } else {
        Seq::empty()
    }
}

fn strings_from(values: &[&str]) -> (r: Vec<String>)
    ensures
        r.deep_view() == strs(values@),
{
    let mut r: Vec<String> = Vec::new();
    for i in 0..values.len()
        invariant
            r.deep_view() == strs(values@).take(i as int),
    {
        let ghost before = r.deep_view();
        let x = owned(values[i]);
        r.push(x);
        assert(r.deep_view() =~= before.push(x@));
        assert(strs(values@).take(i + 1) =~= strs(values@).take(i as int).push(x@));
    }
    assert(strs(values@).take(values@.len() as int) =~= strs(values@));
    r
}

pub fn fallback_candidates_for(intent: &UseCaseIntent) -> (r: Vec<String>)
    ensures
        r.deep_view() == fallback_spec(intent.categories.deep_view()),
{
    let cats = &intent.categories;
    if crate::text::vec_contains_str(cats, "video-creation") {
        let v = [
            "remotion-dev/remotion",
            "obsproject/obs-studio",
            "ffmpeg/ffmpeg",
            "manimcommunity/manim",
            "mifi/lossless-cut",
        ];
        let r = strings_from(&v);
        assert(strs(v@) =~= fallback_spec(cats.deep_view()));
        return r;
    }
    if crate::text::vec_contains_str(cats, "orm") {
        let v = [
            "prisma/prisma",
            "drizzle-team/drizzle-orm",
            "typeorm/typeorm",
            "sequelize/sequelize",
            "knex/knex",
        ];
        let r = strings_from(&v);
        assert(strs(v@) =~= fallback_spec(cats.deep_view()));
        return r;
    }
    if crate::text::vec_contains_str(cats, "testing") {
        let v = [
            "vitest-dev/vitest",
            "microsoft/playwright",
            "jestjs/jest",
            "testing-library/react-testing-library",
            "cypress-io/cypress",
        ];
        let r = strings_from(&v);
        assert(strs(v@) =~= fallback_spec(cats.deep_view()));
        return r;
    }
    if crate::text::vec_contains_str(cats, "ui-kit") || crate::text::vec_contains_str(cats, "ui")
        || crate::text::vec_contains_str(cats, "components") {
        let v = [
            "shadcn-ui/ui",
            "mui/material-ui",
            "chakra-ui/chakra-ui",
            "radix-ui/primitives",
            "tailwindlabs/headlessui",
            "ant-design/ant-design",
            "mantinedev/mantine",
        ];
        let r = strings_from(&v);
        assert(strs(v@) =~= fallback_spec(cats.deep_view()));
        return r;
    }
    let r: Vec<String> = Vec::new();
    assert(r.deep_view() =~= Seq::<Seq<char>>::empty());
    r
}

// ---------------------------------------------------------------------------
// Matching a repository against an intent
// ---------------------------------------------------------------------------

/// The text fields of a repository that the matching reads.
#[derive(Debug, Clone)]
pub struct RepoTerms {
    pub owner: String,
    pub name: String,
    pub description: Option<String>,
    pub language: Option<String>,
    pub topics: Vec<String>,
    /// The category names the repository was classified under.
    pub categories: Vec<String>,
}

pub open spec fn opt_text(o: Option<String>) -> Seq<char> {
    match o {
        Some(s) => s@,
        None => Seq::empty(),
    }
}

/// `"{owner} {name} {description} {language} {topics joined by spaces}"`,
/// normalized.
pub open spec fn haystack_spec(repo: RepoTerms) -> Seq<char> {
    normalize_seq(
        repo.owner@ + " "@ + repo.name@ + " "@ + opt_text(repo.description) + " "@ + opt_text(
            repo.language,
        ) + " "@ + join_seq(repo.topics.deep_view(), " "@),
    )
}

fn push_opt(s: &mut String, o: &Option<String>)
    ensures
        final(s)@ == old(s)@ + opt_text(*o),
{
    match o {
        Some(x) => push_str(s, x.as_str()),
        None => {
            assert(old(s)@ + Seq::<char>::empty() =~= old(s)@);
        },
    }
}

pub fn repo_haystack(repo: &RepoTerms) -> (r: Vec<char>)
    ensures
        r@ == haystack_spec(*repo),
{
    let mut s = String::new();
    push_str(&mut s, repo.owner.as_str());
    push_str(&mut s, " ");
    push_str(&mut s, repo.name.as_str());
    push_str(&mut s, " ");
    push_opt(&mut s, &repo.description);
    push_str(&mut s, " ");
    push_opt(&mut s, &repo.language);
    push_str(&mut s, " ");
    let topics = join_strings(&repo.topics, " ");
    push_str(&mut s, topics.as_str());
    assert(s@ =~= repo.owner@ + " "@ + repo.name@ + " "@ + opt_text(repo.description) + " "@
        + opt_text(repo.language) + " "@ + join_seq(repo.topics.deep_view(), " "@));
    normalize_text(s.as_str())
}

/// The non-empty runs of ASCII letters and digits of the haystack.
pub open spec fn repo_tokens_spec(repo: RepoTerms) -> Seq<Seq<char>> {
    tokens_seq(haystack_spec(repo), Sep::NonAsciiAlnum)
}

pub fn repo_text_tokens(repo: &RepoTerms) -> (r: Vec<Vec<char>>)
    ensures
        seqs_of(r@) == repo_tokens_spec(*repo),
{
    let h = repo_haystack(repo);
    tokens_chars(h.as_slice(), Sep::NonAsciiAlnum)
}

/// A term matches a repository when, normalized, it equals a normalized
/// topic or one of the haystack tokens.
pub open spec fn matches_term_spec(repo: RepoTerms, term: Seq<char>) -> bool {
    (exists|i: int|
        0 <= i < repo.topics@.len() && normalize_seq(#[trigger] repo.topics.deep_view()[i])
            == normalize_seq(term)) || repo_tokens_spec(repo).contains(normalize_seq(term))
}

pub fn matches_term(repo: &RepoTerms, term: &str) -> (r: bool)
    ensures
        r == matches_term_spec(*repo, term@),
{
    let nt = normalize_text(term);
    for i in 0..repo.topics.len()
        invariant
            nt@ == normalize_seq(term@),
            forall|j: int|
                0 <= j < i ==> normalize_seq(#[trigger] repo.topics.deep_view()[j]) != nt@,
    {
        let t = normalize_text(repo.topics[i].as_str());
        if chars_eq(t.as_slice(), nt.as_slice()) {
            assert(normalize_seq(repo.topics.deep_view()[i as int]) == nt@);
            return true;
        }
    }
    let tokens = repo_text_tokens(repo);
    for i in 0..tokens.len()
        invariant
            nt@ == normalize_seq(term@),
            seqs_of(tokens@) == repo_tokens_spec(*repo),
            forall|j: int| 0 <= j < i ==> seqs_of(tokens@)[j] != nt@,
            forall|j: int|
                0 <= j < repo.topics@.len() ==> normalize_seq(#[trigger] repo.topics.deep_view()[j])
                    != nt@,
    {
        if chars_eq(tokens[i].as_slice(), nt.as_slice()) {
            assert(seqs_of(tokens@)[i as int] == nt@);
            return true;
        }
    }
    false
}

/// The intent topics that match the repository, in intent order.
pub open spec fn matched_topics_spec(repo: RepoTerms, topics: Seq<Seq<char>>) -> Seq<Seq<char>> {
    topics.filter(|t: Seq<char>| matches_term_spec(repo, t))
}

pub fn matched_topics(repo: &RepoTerms, intent: &UseCaseIntent) -> (r: Vec<String>)
    ensures
        r.deep_view() == matched_topics_spec(*repo, intent.topics.deep_view()),
{
    let ghost ts = intent.topics.deep_view();
    let mut r: Vec<String> = Vec::new();
    for i in 0..intent.topics.len()
        invariant
            ts == intent.topics.deep_view(),
            r.deep_view() == matched_topics_spec(*repo, ts.take(i as int)),
    {
        proof {
            assert(ts.take(i + 1).drop_last() =~= ts.take(i as int));
            reveal_with_fuel(Seq::filter, 1);
        }
        if matches_term(repo, intent.topics[i].as_str()) {
            let ghost before = r.deep_view();
            let x = intent.topics[i].clone();
            r.push(x);
            assert(r.deep_view() =~= before.push(x@));
        }
    }
    assert(ts.take(ts.len() as int) =~= ts);
    r
}

/// How many intent categories the repository was classified under (compared
/// ignoring ASCII case).
pub open spec fn category_hits_spec(repo_categories: Seq<Seq<char>>, wanted: Seq<Seq<char>>) -> nat {
    wanted.filter(
        |w: Seq<char>|
            exists|j: int|
                0 <= j < repo_categories.len() && lower_seq(#[trigger] repo_categories[j])
                    == lower_seq(w),
    ).len()
}

pub fn category_hits(repo: &RepoTerms, intent: &UseCaseIntent) -> (r: usize)
    ensures
        r == category_hits_spec(repo.categories.deep_view(), intent.categories.deep_view()),
{
    let ghost ws = intent.categories.deep_view();
    let ghost rc = repo.categories.deep_view();
    let ghost pred = |w: Seq<char>|
        exists|j: int| 0 <= j < rc.len() && lower_seq(#[trigger] rc[j]) == lower_seq(w);
    let mut hits: usize = 0;
    for i in 0..intent.categories.len()
        invariant
            ws == intent.categories.deep_view(),
            rc == repo.categories.deep_view(),
            pred == (|w: Seq<char>|
                exists|j: int| 0 <= j < rc.len() && lower_seq(#[trigger] rc[j]) == lower_seq(w)),
            hits == ws.take(i as int).filter(pred).len(),
            hits <= i,
    {
        proof {
            assert(ws.take(i + 1).drop_last() =~= ws.take(i as int));
            reveal_with_fuel(Seq::filter, 1);
        }
        let mut found = false;
        for j in 0..repo.categories.len()
            invariant
                rc == repo.categories.deep_view(),
                ws == intent.categories.deep_view(),
                i < ws.len(),
                found == exists|k: int|
                    0 <= k < j && lower_seq(#[trigger] rc[k]) == lower_seq(ws[i as int]),
        {
            if !found {
                if eq_ignore_ascii_case(
                    repo.categories[j].as_str(),
                    intent.categories[i].as_str(),
                ) {
                    found = true;
                    assert(lower_seq(rc[j as int]) == lower_seq(ws[i as int]));
                }
            }
        }
        if found {
            hits = hits + 1;
        }
    }
    assert(ws.take(ws.len() as int) =~= ws);
    hits
}

/// Whether one of the intent languages equals the repository language,
/// ignoring ASCII case (a missing language reads as empty).
pub open spec fn ecosystem_match_spec(language: Seq<char>, wanted: Seq<Seq<char>>) -> bool {
    exists|i: int| 0 <= i < wanted.len() && lower_seq(#[trigger] wanted[i]) == lower_seq(language)
}

pub fn ecosystem_matches(repo: &RepoTerms, intent: &UseCaseIntent) -> (r: bool)
    ensures
        r == ecosystem_match_spec(opt_text(repo.language), intent.languages.deep_view()),
{
    let language = match &repo.language {
        Some(l) => l.clone(),
        None => String::new(),
    };
    assert(language@ == opt_text(repo.language));
    for i in 0..intent.languages.len()
        invariant
            language@ == opt_text(repo.language),
            forall|j: int|
                0 <= j < i ==> lower_seq(#[trigger] intent.languages.deep_view()[j]) != lower_seq(
                    language@,
                ),
    {
        if eq_ignore_ascii_case(intent.languages[i].as_str(), language.as_str()) {
            assert(lower_seq(intent.languages.deep_view()[i as int]) == lower_seq(language@));
            return true;
        }
    }
    false
}

// ---------------------------------------------------------------------------
// Lexical match
// ---------------------------------------------------------------------------

/// The words of the intent label followed by the intent categories, each
/// normalized.
pub open spec fn lexical_pieces_spec(intent: UseCaseIntent) -> Seq<Seq<char>> {
    (tokens_seq(intent.label@, Sep::Whitespace) + intent.categories.deep_view()).map_values(
        |t: Seq<char>| normalize_seq(t),
    )
}

pub open spec fn long_token(t: Seq<char>) -> bool {
    utf8_len(t) >= 3
}

/// The lexical tokens of an intent: its normalized pieces of at least three
/// bytes.
pub open spec fn lexical_tokens_spec(intent: UseCaseIntent) -> Seq<Seq<char>> {
    lexical_pieces_spec(intent).filter(|t: Seq<char>| long_token(t))
}

/// The lexical tokens that occur in the repository's normalized text.
pub open spec fn lexical_hits_spec(repo: RepoTerms, intent: UseCaseIntent) -> Seq<Seq<char>> {
    lexical_tokens_spec(intent).filter(|t: Seq<char>| contains_seq(haystack_spec(repo), t))
}

/// How many lexical tokens an intent has and how many of them a repository
/// shows. The lexical match is their ratio (zero without tokens).
#[derive(Debug, Clone, Copy, PartialEq, Eq)]
pub struct LexicalMatch {
    pub hits: usize,
    pub tokens: usize,
}

fn lexical_pieces(intent: &UseCaseIntent) -> (r: Vec<Vec<char>>)
    ensures
        seqs_of(r@) == lexical_pieces_spec(*intent),
{
    let words = tokens_chars(chars_of(intent.label.as_str()).as_slice(), Sep::Whitespace);
    let ghost src = seqs_of(words@) + intent.categories.deep_view();
    let ghost want = src.map_values(|t: Seq<char>| normalize_seq(t));
    let mut r: Vec<Vec<char>> = Vec::new();
    for i in 0..words.len()
        invariant
            src == seqs_of(words@) + intent.categories.deep_view(),
            want == src.map_values(|t: Seq<char>| normalize_seq(t)),
            seqs_of(r@) == want.take(i as int),
    {
        let w = string_of(words[i].as_slice());
        let n = normalize_text(w.as_str());
        let ghost before = seqs_of(r@);
        r.push(n);
        assert(src[i as int] == words@[i as int]@);
        assert(seqs_of(r@) =~= before.push(n@));
        assert(seqs_of(r@) =~= want.take(i + 1));
    }
    let base = words.len();
    for j in 0..intent.categories.len()
        invariant
            base == words@.len(),
            src == seqs_of(words@) + intent.categories.deep_view(),
            want == src.map_values(|t: Seq<char>| normalize_seq(t)),
            seqs_of(r@) == want.take(base + j),
    {
        let n = normalize_text(intent.categories[j].as_str());
        let ghost before = seqs_of(r@);
        r.push(n);
        assert(src[base + j] == intent.categories@[j as int]@);
        assert(seqs_of(r@) =~= before.push(n@));
        assert(seqs_of(r@) =~= want.take(base + j + 1));
    }
    assert(want.take(want.len() as int) =~= want);
    proof {
        assert(tokens_seq(intent.label@, Sep::Whitespace) == seqs_of(words@));
    }
    r
}

/// Counts the lexical tokens of the intent and those the repository shows.
pub fn lexical_hits(repo: &RepoTerms, intent: &UseCaseIntent) -> (r: LexicalMatch)
    ensures
        r.tokens == lexical_tokens_spec(*intent).len(),
        r.hits == lexical_hits_spec(*repo, *intent).len(),
{
    let pieces = lexical_pieces(intent);
    let hay = repo_haystack(repo);
    let ghost ps = seqs_of(pieces@);
    let ghost hs = haystack_spec(*repo);
    let ghost long = |t: Seq<char>| long_token(t);
    let ghost inside = |t: Seq<char>| contains_seq(hs, t);
    let mut tokens: usize = 0;
    let mut hits: usize = 0;
    for i in 0..pieces.len()
        invariant
            ps == seqs_of(pieces@),
            hs == haystack_spec(*repo),
            hay@ == hs,
            long == (|t: Seq<char>| long_token(t)),
            inside == (|t: Seq<char>| contains_seq(hs, t)),
            tokens == ps.take(i as int).filter(long).len(),
            hits == ps.take(i as int).filter(long).filter(inside).len(),
            hits <= tokens <= i,
    {
        let ghost prev = ps.take(i as int).filter(long);
        proof {
            assert(ps.take(i + 1).drop_last() =~= ps.take(i as int));
            assert(ps.take(i + 1).last() == ps[i as int]);
            assert(ps[i as int] == pieces@[i as int]@);
            reveal_with_fuel(Seq::filter, 1);
        }
        if utf8_len_at_least(pieces[i].as_slice(), 3) {
            let ghost cur = ps.take(i + 1).filter(long);
            proof {
                assert(cur == prev.push(ps[i as int]));
                assert(cur.drop_last() =~= prev);
                reveal_with_fuel(Seq::filter, 1);
            }
            tokens = tokens + 1;
            if contains_chars(hay.as_slice(), pieces[i].as_slice()) {
                hits = hits + 1;
            }
        }
    }
    proof {
        assert(ps.take(ps.len() as int) =~= ps);
    }
    LexicalMatch { hits, tokens }
}

// ---------------------------------------------------------------------------
// Recommendation gates and reason
// ---------------------------------------------------------------------------

/// A quality flag that keeps a repository out of recommendations.
pub open spec fn severe_flag_spec(flags: Seq<Seq<char>>) -> bool {
    exists|i: int| 0 <= i < flags.len() && (#[trigger] flags[i] == "security-issue"@ || flags[i] == "broken"@)
}

/// The checks a repository passes before it is scored for an intent: it is
/// not archived, not flagged as a security issue or broken, shows the term
/// `orm` when the intent asks for an ORM, and is classified under one of the
/// intent categories when the intent needs a category match.
pub open spec fn recommendation_gate_spec(
    archived: bool,
    flags: Seq<Seq<char>>,
    repo: RepoTerms,
    intent: UseCaseIntent,
) -> bool {
    &&& !archived
    &&& !severe_flag_spec(flags)
    &&& (intent.categories.deep_view().contains("orm"@) ==> matches_term_spec(repo, "orm"@))
    &&& ((exists|i: int|
        0 <= i < intent.categories@.len() && gated_categories().contains(
            #[trigger] intent.categories.deep_view()[i],
        )) ==> category_hits_spec(
        repo.categories.deep_view(),
        intent.categories.deep_view(),
    ) > 0)
}

fn severe_flag(flags: &Vec<String>) -> (r: bool)
    ensures
        r == severe_flag_spec(flags.deep_view()),
{
    for i in 0..flags.len()
        invariant
            forall|j: int| 0 <= j < i ==> !(#[trigger] flags.deep_view()[j] == "security-issue"@
                || flags.deep_view()[j] == "broken"@),
    {
        assert(flags.deep_view()[i as int] == flags@[i as int]@);
        if crate::text::str_eq(flags[i].as_str(), "security-issue") || crate::text::str_eq(
            flags[i].as_str(),
            "broken",
        ) {
            return true;
        }
    }
    false
}

/// Whether a repository passes the checks before it is scored for an
/// intent.
pub fn recommendation_gate(
    archived: bool,
    flags: &Vec<String>,
    repo: &RepoTerms,
    intent: &UseCaseIntent,
) -> (r: bool)
    ensures
        r == recommendation_gate_spec(archived, flags.deep_view(), *repo, *intent),
{
    if archived {
        return false;
    }
    if severe_flag(flags) {
        return false;
    }
    if crate::text::vec_contains_str(&intent.categories, "orm") && !matches_term(repo, "orm") {
        return false;
    }
    if requires_category_match(intent) && category_hits(repo, intent) == 0 {
        return false;
    }
    true
}

/// `{full_name} est propose pour "{label}" car il {matched topics or a
/// lexical match}, avec un score qualite {quality} et un risque d'abandon
/// {abandonment}.`, the two scores given as text.
pub open spec fn reason_spec(
    full_name: Seq<char>,
    label: Seq<char>,
    matched_topics: Seq<Seq<char>>,
    quality_text: Seq<char>,
    abandonment_text: Seq<char>,
) -> Seq<char> {
    let topic_part = if matched_topics.len() == 0 {
        "correspond lexicalement au besoin"@
    } else {
        "matche "@ + join_seq(matched_topics, ", "@)
    };
    full_name + " est propose pour \""@ + label + "\" car il "@ + topic_part
        + ", avec un score qualite "@ + quality_text + " et un risque d'abandon "@
        + abandonment_text + "."@
}

/// The reason given for a recommendation; the quality and abandonment come
/// formatted with three decimals.
pub fn build_reason(
    full_name: &str,
    label: &str,
    matched_topics: &Vec<String>,
    quality_text: &str,
    abandonment_text: &str,
) -> (r: String)
    ensures
        r@ == reason_spec(
            full_name@,
            label@,
            matched_topics.deep_view(),
            quality_text@,
            abandonment_text@,
        ),
{
    let mut r = owned(full_name);
    push_str(&mut r, " est propose pour \"");
    push_str(&mut r, label);
    push_str(&mut r, "\" car il ");
    if matched_topics.len() == 0 {
        push_str(&mut r, "correspond lexicalement au besoin");
    } else {
        push_str(&mut r, "matche ");
        let joined = join_strings(matched_topics, ", ");
        push_str(&mut r, joined.as_str());
    }
    push_str(&mut r, ", avec un score qualite ");
    push_str(&mut r, quality_text);
    push_str(&mut r, " et un risque d'abandon ");
    push_str(&mut r, abandonment_text);
    push_str(&mut r, ".");
    r
}

/// How many recommendations a report keeps: the requested number, between
/// one and twenty.
pub fn recommendation_limit(limit: i64) -> (r: usize)
    ensures
        r == if limit < 1 {
            1
        } else if limit > 20 {
            20
        } else {
            limit
        },
{
    if limit < 1 {
        1
    } else if limit > 20 {
        20
    } else {
        limit as usize
    }
}

/// No repository that is archived, or flagged as a security issue or as
/// broken, passes the recommendation gate, whatever the repository's terms
/// and whatever the intent. One that passes is neither.
pub proof fn lemma_flagged_never_recommended(
    archived: bool,
    flags: Seq<Seq<char>>,
    repo: RepoTerms,
    intent: UseCaseIntent,
)
    ensures
        archived || flags.contains("security-issue"@) || flags.contains("broken"@)
            ==> !recommendation_gate_spec(archived, flags, repo, intent),
        recommendation_gate_spec(archived, flags, repo, intent) ==> !archived && !flags.contains(
            "security-issue"@,
        ) && !flags.contains("broken"@),
{
    if flags.contains("broken"@) {
        let i = choose|i: int| 0 <= i < flags.len() && flags[i] == "broken"@;
        assert(severe_flag_spec(flags));
    }
    if flags.contains("security-issue"@) {
        let i = choose|i: int| 0 <= i < flags.len() && flags[i] == "security-issue"@;
        assert(severe_flag_spec(flags));
    }
}

/// With no ORM in the intent and no intent category that needs a category
/// match, every repository that is neither archived nor flagged as a
/// security issue or broken is let through for scoring.
pub proof fn lemma_unflagged_repo_admitted(
    archived: bool,
    flags: Seq<Seq<char>>,
    repo: RepoTerms,
    intent: UseCaseIntent,
)
    requires
        !archived,
        !flags.contains("security-issue"@),
        !flags.contains("broken"@),
        !intent.categories.deep_view().contains("orm"@),
        forall|i: int|
            0 <= i < intent.categories@.len() ==> !gated_categories().contains(
                #[trigger] intent.categories.deep_view()[i],
            ),
    ensures
        recommendation_gate_spec(archived, flags, repo, intent),
{
    if severe_flag_spec(flags) {
        let i = choose|i: int| 0 <= i < flags.len() && (#[trigger] flags[i] == "security-issue"@
            || flags[i] == "broken"@);
        assert(flags.contains(flags[i]));
    }
}

/// An intent that asks for an ORM is only served by repositories that show
/// the term `orm`.
pub proof fn lemma_orm_intent_needs_orm_term(
    archived: bool,
    flags: Seq<Seq<char>>,
    repo: RepoTerms,
    intent: UseCaseIntent,
)
    ensures
        recommendation_gate_spec(archived, flags, repo, intent) && intent.categories.deep_view().contains(
            "orm"@,
        ) ==> matches_term_spec(repo, "orm"@),
{
}

} // verus!
