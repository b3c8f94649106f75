//! Which GitHub repositories a scheduler cycle refreshes: watched ones first,
//! then stale corpus entries, without case-insensitive duplicates.
use vstd::prelude::*;

use crate::text::{chars_eq, chars_of, lower_chars, lower_seq};

verus! {

/// An `(owner, name)` pair as character sequences.
pub open spec fn pair_view(p: (String, String)) -> (Seq<char>, Seq<char>) {
    (p.0@, p.1@)
}

pub open spec fn pairs_view(v: Seq<(String, String)>) -> Seq<(Seq<char>, Seq<char>)> {
    v.map_values(|p: (String, String)| pair_view(p))
}

/// The identity of a target: owner and name, ASCII lower-cased.
pub open spec fn target_key(p: (Seq<char>, Seq<char>)) -> (Seq<char>, Seq<char>) {
    (lower_seq(p.0), lower_seq(p.1))
}

/// Some target of `s` has the same key as `p`.
pub open spec fn has_key(s: Seq<(Seq<char>, Seq<char>)>, p: (Seq<char>, Seq<char>)) -> bool {
    exists|j: int| 0 <= j < s.len() && target_key(#[trigger] s[j]) == target_key(p)
}

/// The targets in order, keeping only the first of each key.
pub open spec fn dedupe_spec(rows: Seq<(Seq<char>, Seq<char>)>) -> Seq<(Seq<char>, Seq<char>)>
    decreases rows.len(),
{
    if rows.len() == 0 {
        Seq::empty()
    } else {
        let prev = dedupe_spec(rows.drop_last());
        if has_key(prev, rows.last()) {
            prev
        } else {
            prev.push(rows.last())
        }
    }
}

/// Appends the stale targets in order, skipping keys already present, until
/// `max` targets are reached.
pub open spec fn fill_spec(
    targets: Seq<(Seq<char>, Seq<char>)>,
    stale: Seq<(Seq<char>, Seq<char>)>,
    max: nat,
) -> Seq<(Seq<char>, Seq<char>)>
    decreases stale.len(),
{
    if stale.len() == 0 {
        targets
    } else {
        let prev = fill_spec(targets, stale.drop_last(), max);
        if prev.len() >= max || has_key(prev, stale.last()) {
            prev
        } else {
            prev.push(stale.last())
        }
    }
}

/// The refresh targets of a cycle: the deduplicated watched targets, all of
/// them even beyond `max`; then, while fewer than `max`, stale ones with new
/// keys.
pub open spec fn refresh_targets_spec(
    watched: Seq<(Seq<char>, Seq<char>)>,
    stale: Seq<(Seq<char>, Seq<char>)>,
    max: nat,
) -> Seq<(Seq<char>, Seq<char>)> {
    let targets = dedupe_spec(watched);
    if targets.len() >= max {
        targets
    } else {
        fill_spec(targets, stale, max)
    }
}

/// No two targets share a key.
pub open spec fn keys_distinct(s: Seq<(Seq<char>, Seq<char>)>) -> bool {
    forall|i: int, j: int|
        0 <= i < s.len() && 0 <= j < s.len() && i != j ==> target_key(#[trigger] s[i])
            != target_key(#[trigger] s[j])
}

fn same_key(a: &(String, String), b_owner: &Vec<char>, b_name: &Vec<char>) -> (r: bool)
    ensures
        r == (target_key(pair_view(*a)) == (b_owner@, b_name@)),
{
    let ao = lower_chars(chars_of(a.0.as_str()).as_slice());
    let an = lower_chars(chars_of(a.1.as_str()).as_slice());
    chars_eq(ao.as_slice(), b_owner.as_slice()) && chars_eq(an.as_slice(), b_name.as_slice())
}

fn contains_key(s: &Vec<(String, String)>, p: &(String, String)) -> (r: bool)
    ensures
        r == has_key(pairs_view(s@), pair_view(*p)),
{
    let ko = lower_chars(chars_of(p.0.as_str()).as_slice());
    let kn = lower_chars(chars_of(p.1.as_str()).as_slice());
    assert(target_key(pair_view(*p)) == (ko@, kn@));
    for j in 0..s.len()
        invariant
            target_key(pair_view(*p)) == (ko@, kn@),
            forall|k: int|
                0 <= k < j ==> target_key(#[trigger] pairs_view(s@)[k]) != target_key(
                    pair_view(*p),
                ),
    {
        if same_key(&s[j], &ko, &kn) {
            assert(pairs_view(s@)[j as int] == pair_view(s@[j as int]));
            return true;
        }
        assert(pairs_view(s@)[j as int] == pair_view(s@[j as int]));
    }
    false
}

/// Keeps the first target of each case-insensitive `(owner, name)` key, in
/// order.
pub fn dedupe_refresh_targets(rows: Vec<(String, String)>) -> (r: Vec<(String, String)>)
    ensures
        pairs_view(r@) == dedupe_spec(pairs_view(rows@)),
{
    let ghost rv = pairs_view(rows@);
    let mut deduped: Vec<(String, String)> = Vec::new();
    assert(pairs_view(deduped@) =~= Seq::<(Seq<char>, Seq<char>)>::empty());
    for i in 0..rows.len()
        invariant
            rv == pairs_view(rows@),
            pairs_view(deduped@) == dedupe_spec(rv.take(i as int)),
    {
        proof {
            assert(rv.take(i + 1).drop_last() =~= rv.take(i as int));
            assert(rv[i as int] == pair_view(rows@[i as int]));
        }
        let row = &rows[i];
        if !contains_key(&deduped, row) {
            let ghost before = pairs_view(deduped@);
            let item = (row.0.clone(), row.1.clone());
            deduped.push(item);
            assert(pairs_view(deduped@) =~= before.push(pair_view(rows@[i as int])));
        }
    }
    assert(rv.take(rv.len() as int) =~= rv);
    deduped
}

/// The repositories a scheduler cycle refreshes.
pub fn build_refresh_targets(
    watched: Vec<(String, String)>,
    stale_corpus: Vec<(String, String)>,
    max_per_cycle: usize,
) -> (r: Vec<(String, String)>)
    ensures
        pairs_view(r@) == refresh_targets_spec(
            pairs_view(watched@),
            pairs_view(stale_corpus@),
            max_per_cycle as nat,
        ),
{
    let mut targets = dedupe_refresh_targets(watched);
    if targets.len() >= max_per_cycle {
        return targets;
    }
    let ghost start = pairs_view(targets@);
    let ghost sv = pairs_view(stale_corpus@);
    let mut i: usize = 0;
    assert(sv.take(sv.len() as int) =~= sv);
    while i < stale_corpus.len()
        invariant
            sv == pairs_view(stale_corpus@),
            sv.take(sv.len() as int) == sv,
            i <= sv.len(),
            pairs_view(targets@) == fill_spec(start, sv.take(i as int), max_per_cycle as nat),
        ensures
            pairs_view(targets@) == fill_spec(start, sv, max_per_cycle as nat),
        decreases sv.len() - i,
    {
        if targets.len() >= max_per_cycle {
            proof {
                lemma_fill_full(start, sv, i as int, max_per_cycle as nat);
            }
            break;
        }
        proof {
            assert(sv.take(i + 1).drop_last() =~= sv.take(i as int));
            assert(sv[i as int] == pair_view(stale_corpus@[i as int]));
        }
        let row = &stale_corpus[i];
        if !contains_key(&targets, row) {
            let ghost before = pairs_view(targets@);
            let item = (row.0.clone(), row.1.clone());
            targets.push(item);
            assert(pairs_view(targets@) =~= before.push(pair_view(stale_corpus@[i as int])));
        }
        i = i + 1;
    }
    targets
}

/// Once the targets are full, later stale entries change nothing.
proof fn lemma_fill_full(
    start: Seq<(Seq<char>, Seq<char>)>,
    stale: Seq<(Seq<char>, Seq<char>)>,
    i: int,
    max: nat,
)
    requires
        0 <= i <= stale.len(),
        fill_spec(start, stale.take(i), max).len() >= max,
    ensures
        fill_spec(start, stale, max) == fill_spec(start, stale.take(i), max),
    decreases stale.len() - i,
{
    if i < stale.len() {
        assert(stale.take(i + 1).drop_last() =~= stale.take(i));
        lemma_fill_full(start, stale, i + 1, max);
    } else {
        assert(stale.take(i) =~= stale);
    }
}

// ---------------------------------------------------------------------------
// Laws
// ---------------------------------------------------------------------------

/// Deduplication leaves no two targets with the same case-insensitive key.
pub proof fn lemma_dedupe_keys_distinct(rows: Seq<(Seq<char>, Seq<char>)>)
    ensures
        keys_distinct(dedupe_spec(rows)),
    decreases rows.len(),
{
    if rows.len() > 0 {
        lemma_dedupe_keys_distinct(rows.drop_last());
    }
}

/// Every input target's key appears in the deduplicated targets, and every
/// deduplicated target comes from the input.
pub proof fn lemma_dedupe_covers(rows: Seq<(Seq<char>, Seq<char>)>)
    ensures
        forall|i: int| 0 <= i < rows.len() ==> has_key(dedupe_spec(rows), #[trigger] rows[i]),
        forall|i: int|
            0 <= i < dedupe_spec(rows).len() ==> rows.contains(#[trigger] dedupe_spec(rows)[i]),
    decreases rows.len(),
{
    if rows.len() > 0 {
        let prev = dedupe_spec(rows.drop_last());
        lemma_dedupe_covers(rows.drop_last());
        assert forall|i: int| 0 <= i < rows.len() implies has_key(
            dedupe_spec(rows),
            #[trigger] rows[i],
        ) by {
            if i < rows.len() - 1 {
                assert(rows.drop_last()[i] == rows[i]);
                assert(has_key(prev, rows[i]));
                let j = choose|j: int| 0 <= j < prev.len() && target_key(#[trigger] prev[j]) == target_key(rows[i]);
                assert(dedupe_spec(rows)[j] == prev[j]);
            } else {
                if !has_key(prev, rows.last()) {
                    assert(dedupe_spec(rows)[prev.len() as int] == rows.last());
                }
            }
        }
        assert forall|i: int| 0 <= i < dedupe_spec(rows).len() implies rows.contains(
            #[trigger] dedupe_spec(rows)[i],
        ) by {
            if i < prev.len() {
                assert(dedupe_spec(rows)[i] == prev[i]);
                assert(rows.drop_last().contains(prev[i]));
                let k = choose|k: int| 0 <= k < rows.drop_last().len() && rows.drop_last()[k] == prev[i];
                assert(rows[k] == prev[i]);
            } else {
                assert(dedupe_spec(rows)[i] == rows.last());
                assert(rows[rows.len() - 1] == rows.last());
            }
        }
    }
}

/// Deduplicating twice is the same as deduplicating once.
pub proof fn lemma_dedupe_idempotent(rows: Seq<(Seq<char>, Seq<char>)>)
    ensures
        dedupe_spec(dedupe_spec(rows)) == dedupe_spec(rows),
{
    lemma_dedupe_keys_distinct(rows);
    lemma_dedupe_of_distinct(dedupe_spec(rows));
}

/// Deduplication leaves targets with distinct keys unchanged.
pub proof fn lemma_dedupe_of_distinct(s: Seq<(Seq<char>, Seq<char>)>)
    requires
        keys_distinct(s),
    ensures
        dedupe_spec(s) == s,
    decreases s.len(),
{
    if s.len() > 0 {
        let init = s.drop_last();
        assert forall|i: int, j: int|
            0 <= i < init.len() && 0 <= j < init.len() && i != j implies target_key(
            #[trigger] init[i],
        ) != target_key(#[trigger] init[j]) by {
            assert(init[i] == s[i] && init[j] == s[j]);
        }
        lemma_dedupe_of_distinct(init);
        if has_key(init, s.last()) {
            let j = choose|j: int| 0 <= j < init.len() && target_key(#[trigger] init[j]) == target_key(s.last());
            assert(init[j] == s[j]);
            assert(s[s.len() - 1] == s.last());
            assert(false);
        }
        assert(init.push(s.last()) =~= s);
    }
}

/// Watched targets come first: the deduplicated watched targets are a prefix
/// of the refresh targets.
pub proof fn lemma_watched_first(
    watched: Seq<(Seq<char>, Seq<char>)>,
    stale: Seq<(Seq<char>, Seq<char>)>,
    max: nat,
)
    ensures
        refresh_targets_spec(watched, stale, max).len() >= dedupe_spec(watched).len(),
        refresh_targets_spec(watched, stale, max).take(dedupe_spec(watched).len() as int)
            == dedupe_spec(watched),
{
    let t = dedupe_spec(watched);
    if t.len() < max {
        lemma_fill_extends(t, stale, max);
    } else {
        assert(t.take(t.len() as int) =~= t);
    }
}

proof fn lemma_fill_extends(
    t: Seq<(Seq<char>, Seq<char>)>,
    stale: Seq<(Seq<char>, Seq<char>)>,
    max: nat,
)
    ensures
        fill_spec(t, stale, max).len() >= t.len(),
        fill_spec(t, stale, max).take(t.len() as int) == t,
    decreases stale.len(),
{
    if stale.len() == 0 {
        assert(t.take(t.len() as int) =~= t);
    } else {
        lemma_fill_extends(t, stale.drop_last(), max);
        let prev = fill_spec(t, stale.drop_last(), max);
        if !(prev.len() >= max || has_key(prev, stale.last())) {
            assert(prev.push(stale.last()).take(t.len() as int) =~= prev.take(t.len() as int));
        }
    }
}

/// The stale corpus never takes the cycle beyond `max` targets: when the
/// watched targets fit under the cap, the result holds at most `max`.
pub proof fn lemma_targets_capped(
    watched: Seq<(Seq<char>, Seq<char>)>,
    stale: Seq<(Seq<char>, Seq<char>)>,
    max: nat,
)
    requires
        dedupe_spec(watched).len() < max,
    ensures
        refresh_targets_spec(watched, stale, max).len() <= max,
{
    lemma_fill_capped(dedupe_spec(watched), stale, max);
}

proof fn lemma_fill_capped(
    t: Seq<(Seq<char>, Seq<char>)>,
    stale: Seq<(Seq<char>, Seq<char>)>,
    max: nat,
)
    requires
        t.len() <= max,
    ensures
        fill_spec(t, stale, max).len() <= max,
    decreases stale.len(),
{
    if stale.len() > 0 {
        lemma_fill_capped(t, stale.drop_last(), max);
    }
}

/// The refresh targets never repeat a case-insensitive key.
pub proof fn lemma_targets_distinct(
    watched: Seq<(Seq<char>, Seq<char>)>,
    stale: Seq<(Seq<char>, Seq<char>)>,
    max: nat,
)
    ensures
        keys_distinct(refresh_targets_spec(watched, stale, max)),
{
    lemma_dedupe_keys_distinct(watched);
    lemma_fill_distinct(dedupe_spec(watched), stale, max);
}

proof fn lemma_fill_distinct(
    t: Seq<(Seq<char>, Seq<char>)>,
    stale: Seq<(Seq<char>, Seq<char>)>,
    max: nat,
)
    requires
        keys_distinct(t),
    ensures
        keys_distinct(fill_spec(t, stale, max)),
    decreases stale.len(),
{
    if stale.len() > 0 {
        lemma_fill_distinct(t, stale.drop_last(), max);
    }
}

} // verus!
