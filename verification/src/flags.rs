//! Public flags by consensus: a flag is shown on a repository once enough
//! distinct eligible users reported it.
use vstd::prelude::*;

use crate::config::AppConfig;
use crate::repos::public_signal_spec;
use crate::text::{chars_eq, chars_of, owned, str_eq};

verus! {

/// An accepted active signal: which artifact, which signal, which user.
#[derive(Debug, Clone)]
pub struct ActiveSignalRow {
    pub external_artifact_id: Option<u128>,
    pub signal: String,
    pub actor_user_id: Option<u128>,
}

/// How many distinct eligible users a flag needs.
#[derive(Debug, Clone, Copy)]
pub struct ConsensusThresholds {
    /// For `deprecated` and other ordinary flags.
    pub default_consensus: u32,
    /// For `security_issue` and `broken`.
    pub severe_consensus: u32,
}

impl ConsensusThresholds {
    /// The thresholds of the configuration, or 2 and 3 without one.
    pub fn from_config(config: Option<&AppConfig>) -> (r: ConsensusThresholds)
        ensures
            match config {
                Some(c) => r.default_consensus == c.active_signal_default_consensus
                    && r.severe_consensus == c.active_signal_severe_consensus,
                None => r.default_consensus == 2 && r.severe_consensus == 3,
            },
    {
        match config {
            Some(c) => ConsensusThresholds {
                default_consensus: c.active_signal_default_consensus,
                severe_consensus: c.active_signal_severe_consensus,
            },
            None => ConsensusThresholds { default_consensus: 2, severe_consensus: 3 },
        }
    }
}

/// The public spelling of each flag, in order.
pub open spec fn normalize_flags_spec(signals: Seq<Seq<char>>) -> Seq<Seq<char>> {
    signals.map_values(|s: Seq<char>| public_signal_spec(s))
}

/// Spells each flag the public way (`security_issue` becomes
/// `security-issue`).
pub fn normalize_flags(signals: Vec<String>) -> (r: Vec<String>)
    ensures
        r.deep_view() == normalize_flags_spec(signals.deep_view()),
{
    let ghost sv = signals.deep_view();
    let mut r: Vec<String> = Vec::new();
    for i in 0..signals.len()
        invariant
            sv == signals.deep_view(),
            r.deep_view() == normalize_flags_spec(sv.take(i as int)),
    {
        let x = crate::repos::normalize_public_signal(signals[i].as_str());
        let ghost before = r.deep_view();
        r.push(x);
        assert(r.deep_view() =~= before.push(x@));
        assert(normalize_flags_spec(sv.take(i + 1)) =~= normalize_flags_spec(sv.take(i as int)).push(
            public_signal_spec(sv[i as int]),
        ));
    }
    assert(sv.take(sv.len() as int) =~= sv);
    r
}

// ---------------------------------------------------------------------------
// Specification of the consensus
// ---------------------------------------------------------------------------

/// The values in order, keeping the first occurrence of each.
pub open spec fn uniq<T>(s: Seq<T>) -> Seq<T>
    decreases s.len(),
{
    if s.len() == 0 {
        Seq::empty()
    } else {
        let prev = uniq(s.drop_last());
        if prev.contains(s.last()) {
            prev
        } else {
            prev.push(s.last())
        }
    }
}

/// A report that counts: it names an artifact and a user, and the user is
/// eligible.
pub type Vote = (u128, Seq<char>, u128);

pub open spec fn row_view(r: ActiveSignalRow) -> (Option<u128>, Seq<char>, Option<u128>) {
    (r.external_artifact_id, r.signal@, r.actor_user_id)
}

/// The reports that count, as `(artifact, signal, user)`, in order.
pub open spec fn votes(rows: Seq<(Option<u128>, Seq<char>, Option<u128>)>, eligible: Seq<u128>) -> Seq<
    Vote,
>
    decreases rows.len(),
{
    if rows.len() == 0 {
        Seq::empty()
    } else {
        let prev = votes(rows.drop_last(), eligible);
        let r = rows.last();
        match (r.0, r.2) {
            (Some(a), Some(u)) => if eligible.contains(u) {
                prev.push((a, r.1, u))
            } else {
                prev
            },
            _ => prev,
        }
    }
}

/// The artifacts of the votes, in order.
pub open spec fn vote_artifacts(v: Seq<Vote>) -> Seq<u128> {
    v.map_values(|x: Vote| x.0)
}

/// The signals voted on an artifact, in order.
pub open spec fn vote_signals(v: Seq<Vote>, a: u128) -> Seq<Seq<char>>
    decreases v.len(),
{
    if v.len() == 0 {
        Seq::empty()
    } else if v.last().0 == a {
        vote_signals(v.drop_last(), a).push(v.last().1)
    } else {
        vote_signals(v.drop_last(), a)
    }
}

/// The users who voted a signal on an artifact, in order.
pub open spec fn vote_users(v: Seq<Vote>, a: u128, s: Seq<char>) -> Seq<u128>
    decreases v.len(),
{
    if v.len() == 0 {
        Seq::empty()
    } else if v.last().0 == a && v.last().1 == s {
        vote_users(v.drop_last(), a, s).push(v.last().2)
    } else {
        vote_users(v.drop_last(), a, s)
    }
}

/// Severe flags need the severe threshold.
pub open spec fn needed(s: Seq<char>, t: ConsensusThresholds) -> u32 {
    if s == "security_issue"@ || s == "broken"@ {
        t.severe_consensus
    } else {
        t.default_consensus
    }
}

/// The signals of an artifact that reached consensus, in first-vote order.
pub open spec fn consensus_signals(v: Seq<Vote>, a: u128, t: ConsensusThresholds) -> Seq<
    Seq<char>,
> {
    uniq(vote_signals(v, a)).filter(|s: Seq<char>| uniq(vote_users(v, a, s)).len() >= needed(s, t))
}

/// One entry per artifact with a counted vote, in first-vote order, holding
/// the public spelling of its flags that reached consensus.
pub open spec fn consensus_spec(
    rows: Seq<(Option<u128>, Seq<char>, Option<u128>)>,
    eligible: Seq<u128>,
    t: ConsensusThresholds,
) -> Seq<(u128, Seq<Seq<char>>)> {
    let v = votes(rows, eligible);
    uniq(vote_artifacts(v)).map_values(
        |a: u128| (a, normalize_flags_spec(consensus_signals(v, a, t))),
    )
}

pub open spec fn result_view(r: Seq<(u128, Vec<String>)>) -> Seq<(u128, Seq<Seq<char>>)> {
    r.map_values(|x: (u128, Vec<String>)| (x.0, x.1.deep_view()))
}

// ---------------------------------------------------------------------------
// Implementation
// ---------------------------------------------------------------------------

/// A counted vote as held during the computation.
struct VoteRow {
    artifact: u128,
    signal: String,
    user: u128,
}

spec fn vote_rows_view(v: Seq<VoteRow>) -> Seq<Vote> {
    v.map_values(|x: VoteRow| (x.artifact, x.signal@, x.user))
}

fn u128_in(v: &[u128], x: u128) -> (r: bool)
    ensures
        r == v@.contains(x),
{
    for i in 0..v.len()
        invariant
            forall|j: int| 0 <= j < i ==> v@[j] != x,
    {
        if v[i] == x {
            return true;
        }
    }
    false
}

fn collect_votes(rows: &[ActiveSignalRow], eligible: &[u128]) -> (r: Vec<VoteRow>)
    ensures
        vote_rows_view(r@) == votes(rows@.map_values(|x: ActiveSignalRow| row_view(x)), eligible@),
{
    let ghost rv = rows@.map_values(|x: ActiveSignalRow| row_view(x));
    let mut out: Vec<VoteRow> = Vec::new();
    for i in 0..rows.len()
        invariant
            rv == rows@.map_values(|x: ActiveSignalRow| row_view(x)),
            vote_rows_view(out@) == votes(rv.take(i as int), eligible@),
    {
        proof {
            assert(rv.take(i + 1).drop_last() =~= rv.take(i as int));
            assert(rv.take(i + 1).last() == row_view(rows@[i as int]));
        }
        let row = &rows[i];
        match (row.external_artifact_id, row.actor_user_id) {
            (Some(a), Some(u)) => {
                if u128_in(eligible, u) {
                    let ghost before = vote_rows_view(out@);
                    let s = row.signal.clone();
                    out.push(VoteRow { artifact: a, signal: s, user: u });
                    assert(vote_rows_view(out@) =~= before.push((a, row.signal@, u)));
                }
            },
            _ => {},
        }
    }
    assert(rv.take(rv.len() as int) =~= rv);
    out
}

fn artifacts_in_order(v: &Vec<VoteRow>) -> (r: Vec<u128>)
    ensures
        r@ == uniq(vote_artifacts(vote_rows_view(v@))),
{
    let ghost va = vote_artifacts(vote_rows_view(v@));
    let mut r: Vec<u128> = Vec::new();
    for i in 0..v.len()
        invariant
            va == vote_artifacts(vote_rows_view(v@)),
            r@ == uniq(va.take(i as int)),
    {
        proof {
            assert(va.take(i + 1).drop_last() =~= va.take(i as int));
            assert(va[i as int] == v@[i as int].artifact);
        }
        if !u128_in(r.as_slice(), v[i].artifact) {
            r.push(v[i].artifact);
        }
    }
    assert(va.take(va.len() as int) =~= va);
    r
}

fn signals_for(v: &Vec<VoteRow>, a: u128) -> (r: Vec<String>)
    ensures
        r.deep_view() == uniq(vote_signals(vote_rows_view(v@), a)),
{
    let ghost vv = vote_rows_view(v@);
    let mut r: Vec<String> = Vec::new();
    assert(r.deep_view() =~= Seq::<Seq<char>>::empty());
    for i in 0..v.len()
        invariant
            vv == vote_rows_view(v@),
            r.deep_view() == uniq(vote_signals(vv.take(i as int), a)),
    {
        proof {
            assert(vv.take(i + 1).drop_last() =~= vv.take(i as int));
            assert(vv.take(i + 1).last() == vv[i as int]);
        }
        if v[i].artifact == a {
            if !crate::text::vec_contains_str(&r, v[i].signal.as_str()) {
                let ghost before = r.deep_view();
                let s = v[i].signal.clone();
                r.push(s);
                assert(r.deep_view() =~= before.push(vv[i as int].1));
            }
            proof {
                let prev = vote_signals(vv.take(i as int), a);
                assert(vote_signals(vv.take(i + 1), a) == prev.push(vv[i as int].1));
                assert(prev.push(vv[i as int].1).drop_last() =~= prev);
            }
        }
    }
    assert(vv.take(vv.len() as int) =~= vv);
    r
}

fn distinct_voters(v: &Vec<VoteRow>, a: u128, s: &str) -> (r: usize)
    ensures
        r == uniq(vote_users(vote_rows_view(v@), a, s@)).len(),
{
    let ghost vv = vote_rows_view(v@);
    let mut users: Vec<u128> = Vec::new();
    for i in 0..v.len()
        invariant
            vv == vote_rows_view(v@),
            users@ == uniq(vote_users(vv.take(i as int), a, s@)),
            users@.len() <= i,
    {
        proof {
            assert(vv.take(i + 1).drop_last() =~= vv.take(i as int));
            assert(vv.take(i + 1).last() == vv[i as int]);
        }
        if v[i].artifact == a && str_eq(v[i].signal.as_str(), s) {
            if !u128_in(users.as_slice(), v[i].user) {
                users.push(v[i].user);
            }
            proof {
                let prev = vote_users(vv.take(i as int), a, s@);
                assert(vote_users(vv.take(i + 1), a, s@) == prev.push(vv[i as int].2));
                assert(prev.push(vv[i as int].2).drop_last() =~= prev);
            }
        }
    }
    assert(vv.take(vv.len() as int) =~= vv);
    users.len()
}

fn is_severe(s: &str) -> (r: bool)
    ensures
        r == (s@ == "security_issue"@ || s@ == "broken"@),
{
    str_eq(s, "security_issue") || str_eq(s, "broken")
}

/// The flags that reached consensus on each artifact: one entry per artifact
/// with a counted report, in order of first report. A report counts when it
/// names an artifact and a user among `eligible_users`; a flag needs reports
/// from `severe_consensus` distinct users for `security_issue` and `broken`,
/// from `default_consensus` otherwise.
pub fn compute_consensus_flags(
    rows: &[ActiveSignalRow],
    eligible_users: &[u128],
    thresholds: &ConsensusThresholds,
) -> (r: Vec<(u128, Vec<String>)>)
    ensures
        result_view(r@) == consensus_spec(
            rows@.map_values(|x: ActiveSignalRow| row_view(x)),
            eligible_users@,
            *thresholds,
        ),
{
    let v = collect_votes(rows, eligible_users);
    let ghost vv = vote_rows_view(v@);
    let artifacts = artifacts_in_order(&v);
    let ghost spec_all = consensus_spec(
        rows@.map_values(|x: ActiveSignalRow| row_view(x)),
        eligible_users@,
        *thresholds,
    );
    let mut out: Vec<(u128, Vec<String>)> = Vec::new();
    for k in 0..artifacts.len()
        invariant
            vv == vote_rows_view(v@),
            vv == votes(rows@.map_values(|x: ActiveSignalRow| row_view(x)), eligible_users@),
            artifacts@ == uniq(vote_artifacts(vv)),
            spec_all == consensus_spec(
                rows@.map_values(|x: ActiveSignalRow| row_view(x)),
                eligible_users@,
                *thresholds,
            ),
            result_view(out@) == spec_all.take(k as int),
    {
        let a = artifacts[k];
        let signals = signals_for(&v, a);
        let ghost sig = uniq(vote_signals(vv, a));
        let ghost pred = |s: Seq<char>| uniq(vote_users(vv, a, s)).len() >= needed(s, *thresholds);
        let mut reached: Vec<String> = Vec::new();
        assert(reached.deep_view() =~= Seq::<Seq<char>>::empty());
        for j in 0..signals.len()
            invariant
                vv == vote_rows_view(v@),
                sig == signals.deep_view(),
                pred == (|s: Seq<char>| uniq(vote_users(vv, a, s)).len() >= needed(s, *thresholds)),
                reached.deep_view() == sig.take(j as int).filter(pred),
        {
            proof {
                assert(sig.take(j + 1).drop_last() =~= sig.take(j as int));
                reveal_with_fuel(Seq::filter, 1);
            }
            let count = distinct_voters(&v, a, signals[j].as_str());
            let need = if is_severe(signals[j].as_str()) {
                thresholds.severe_consensus
            } else {
                thresholds.default_consensus
            };
            if count >= need as usize {
                let ghost before = reached.deep_view();
                let s = signals[j].clone();
                reached.push(s);
                assert(reached.deep_view() =~= before.push(sig[j as int]));
            }
        }
        assert(sig.take(sig.len() as int) =~= sig);
        let flags = normalize_flags(reached);
        let ghost before = result_view(out@);
        out.push((a, flags));
        proof {
            assert(result_view(out@) =~= before.push(spec_all[k as int]));
            assert(spec_all.take(k + 1) =~= spec_all.take(k as int).push(spec_all[k as int]));
        }
    }
    assert(spec_all.take(artifacts@.len() as int) =~= spec_all);
    out
}

// ---------------------------------------------------------------------------
// Laws
// ---------------------------------------------------------------------------

/// `uniq` holds no value twice.
pub proof fn lemma_uniq_distinct<T>(s: Seq<T>)
    ensures
        uniq(s).no_duplicates(),
    decreases s.len(),
{
    if s.len() > 0 {
        lemma_uniq_distinct(s.drop_last());
    }
}

/// `uniq` keeps exactly the values present.
pub proof fn lemma_uniq_same_values<T>(s: Seq<T>)
    ensures
        forall|x: T| #[trigger] uniq(s).contains(x) <==> s.contains(x),
    decreases s.len(),
{
    if s.len() > 0 {
        lemma_uniq_same_values(s.drop_last());
        let prev = uniq(s.drop_last());
        assert forall|x: T| #[trigger] uniq(s).contains(x) <==> s.contains(x) by {
            if s.contains(x) {
                let k = choose|k: int| 0 <= k < s.len() && s[k] == x;
                if k < s.len() - 1 {
                    assert(s.drop_last()[k] == x);
                    assert(prev.contains(x));
                    let j = choose|j: int| 0 <= j < prev.len() && prev[j] == x;
                    if !prev.contains(s.last()) {
                        assert(prev.push(s.last())[j] == x);
                    }
                } else if !prev.contains(s.last()) {
                    assert(prev.push(s.last())[prev.len() as int] == x);
                }
            }
            if uniq(s).contains(x) {
                let j = choose|j: int| 0 <= j < uniq(s).len() && uniq(s)[j] == x;
                if j < prev.len() {
                    assert(uniq(s)[j] == prev[j]);
                    assert(prev.contains(x));
                    let k = choose|k: int| 0 <= k < s.drop_last().len() && s.drop_last()[k] == x;
                    assert(s[k] == x);
                } else {
                    assert(s[s.len() - 1] == x);
                }
            }
        }
    }
}

/// A user who reports the same flag on the same artifact several times is
/// one voter: the voters of a flag are distinct and are exactly the users who
/// reported it.
pub proof fn lemma_voters_distinct(v: Seq<Vote>, a: u128, s: Seq<char>)
    ensures
        uniq(vote_users(v, a, s)).no_duplicates(),
        forall|u: u128| #[trigger]
            uniq(vote_users(v, a, s)).contains(u) <==> vote_users(v, a, s).contains(u),
{
    lemma_uniq_distinct(vote_users(v, a, s));
    lemma_uniq_same_values(vote_users(v, a, s));
}

/// Reports from users outside the eligible set, and reports missing an
/// artifact or a user, change nothing.
pub proof fn lemma_ignored_report_changes_nothing(
    rows: Seq<(Option<u128>, Seq<char>, Option<u128>)>,
    eligible: Seq<u128>,
    extra: (Option<u128>, Seq<char>, Option<u128>),
    t: ConsensusThresholds,
)
    requires
        extra.0 is None || extra.2 is None || !eligible.contains(extra.2->0),
    ensures
        consensus_spec(rows.push(extra), eligible, t) == consensus_spec(rows, eligible, t),
{
    assert(rows.push(extra).drop_last() =~= rows);
    assert(votes(rows.push(extra), eligible) == votes(rows, eligible));
}

/// A single eligible report is never enough when the threshold is above one:
/// with every report coming from the same user, no flag with a threshold of
/// two or more is shown.
pub proof fn lemma_one_user_cannot_flag(v: Seq<Vote>, a: u128, s: Seq<char>, u: u128)
    requires
        forall|i: int| 0 <= i < v.len() ==> (#[trigger] v[i]).2 == u,
    ensures
        uniq(vote_users(v, a, s)).len() <= 1,
{
    lemma_users_all(v, a, s, u);
    lemma_uniq_same_values(vote_users(v, a, s));
    lemma_uniq_distinct(vote_users(v, a, s));
    let w = uniq(vote_users(v, a, s));
    if w.len() > 1 {
        assert(w.contains(w[0]));
        assert(w.contains(w[1]));
        assert(w[0] == u && w[1] == u);
    }
}

proof fn lemma_users_all(v: Seq<Vote>, a: u128, s: Seq<char>, u: u128)
    requires
        forall|i: int| 0 <= i < v.len() ==> (#[trigger] v[i]).2 == u,
    ensures
        forall|x: u128| #[trigger] vote_users(v, a, s).contains(x) ==> x == u,
    decreases v.len(),
{
    if v.len() > 0 {
        assert forall|i: int| 0 <= i < v.drop_last().len() implies (#[trigger] v.drop_last()[i]).2
            == u by {
            assert(v.drop_last()[i] == v[i]);
        }
        lemma_users_all(v.drop_last(), a, s, u);
        assert(v[v.len() - 1] == v.last());
        assert forall|x: u128| #[trigger] vote_users(v, a, s).contains(x) implies x == u by {
            let prev = vote_users(v.drop_last(), a, s);
            if v.last().0 == a && v.last().1 == s {
                let j = choose|j: int| 0 <= j < prev.push(v.last().2).len() && prev.push(v.last().2)[j] == x;
                if j < prev.len() {
                    assert(prev.contains(x));
                }
            }
        }
    }
}

/// The distinct eligible users who reported signal `s` on artifact `a`.
pub open spec fn reporters(
    rows: Seq<(Option<u128>, Seq<char>, Option<u128>)>,
    eligible: Seq<u128>,
    a: u128,
    s: Seq<char>,
) -> Set<u128> {
    Set::new(|u: u128| eligible.contains(u) && rows.contains((Some(a), s, Some(u))))
}

proof fn lemma_contains_push<T>(p: Seq<T>, x: T, y: T)
    ensures
        p.push(x).contains(y) <==> (p.contains(y) || x == y),
{
    if p.push(x).contains(y) {
        let i = choose|i: int| 0 <= i < p.push(x).len() && p.push(x)[i] == y;
        if i < p.len() {
            assert(p[i] == y);
        }
    }
    if p.contains(y) {
        let i = choose|i: int| 0 <= i < p.len() && p[i] == y;
        assert(p.push(x)[i] == y);
    }
    if x == y {
        assert(p.push(x)[p.len() as int] == y);
    }
}

/// The users counted for a signal on an artifact are exactly its eligible
/// reporters, and the signal is among the artifact's voted signals as soon
/// as one of them exists.
proof fn lemma_votes_match_reports(
    rows: Seq<(Option<u128>, Seq<char>, Option<u128>)>,
    eligible: Seq<u128>,
    a: u128,
    s: Seq<char>,
)
    ensures
        forall|u: u128| #[trigger]
            vote_users(votes(rows, eligible), a, s).contains(u) <==> (eligible.contains(u)
                && rows.contains((Some(a), s, Some(u)))),
        vote_users(votes(rows, eligible), a, s).len() > 0 ==> vote_signals(
            votes(rows, eligible),
            a,
        ).contains(s),
    decreases rows.len(),
{
    if rows.len() > 0 {
        let pr = rows.drop_last();
        let r = rows.last();
        lemma_votes_match_reports(pr, eligible, a, s);
        assert(pr.push(r) =~= rows);
        let pv = votes(pr, eligible);
        let v = votes(rows, eligible);
        let counted = r.0 is Some && r.2 is Some && eligible.contains(r.2->0);
        if counted {
            let x = (r.0->0, r.1, r.2->0);
            assert(v == pv.push(x));
            assert(pv.push(x).drop_last() =~= pv);
            if x.0 == a && x.1 == s {
                assert(vote_users(v, a, s) == vote_users(pv, a, s).push(x.2));
                assert(vote_signals(v, a) == vote_signals(pv, a).push(s));
                lemma_contains_push(vote_signals(pv, a), s, s);
            } else {
                assert(vote_users(v, a, s) == vote_users(pv, a, s));
                if x.0 == a {
                    assert(vote_signals(v, a) == vote_signals(pv, a).push(x.1));
                    lemma_contains_push(vote_signals(pv, a), x.1, s);
                } else {
                    assert(vote_signals(v, a) == vote_signals(pv, a));
                }
            }
        } else {
            assert(v == pv);
        }
        assert forall|u: u128| #[trigger]
            vote_users(v, a, s).contains(u) <==> (eligible.contains(u) && rows.contains(
                (Some(a), s, Some(u)),
            )) by {
            lemma_contains_push(pr, r, (Some(a), s, Some(u)));
            if counted {
                let x = (r.0->0, r.1, r.2->0);
                if x.0 == a && x.1 == s {
                    lemma_contains_push(vote_users(pv, a, s), x.2, u);
                }
            }
        }
    }
}

/// The number of distinct users counted for a flag is the number of its
/// distinct eligible reporters.
proof fn lemma_voter_count(
    rows: Seq<(Option<u128>, Seq<char>, Option<u128>)>,
    eligible: Seq<u128>,
    a: u128,
    s: Seq<char>,
)
    ensures
        reporters(rows, eligible, a, s).finite(),
        uniq(vote_users(votes(rows, eligible), a, s)).len() == reporters(rows, eligible, a, s).len(),
{
    let w = uniq(vote_users(votes(rows, eligible), a, s));
    lemma_votes_match_reports(rows, eligible, a, s);
    lemma_voters_distinct(votes(rows, eligible), a, s);
    w.unique_seq_to_set();
    assert(w.to_set() =~= reporters(rows, eligible, a, s));
    vstd::seq_lib::seq_to_set_is_finite(w);
}

/// A flag is shown on an artifact only when enough distinct eligible users
/// reported it there: `severe_consensus` of them for `security_issue` and
/// `broken`, `default_consensus` for any other signal. In particular
/// `broken` is shown only once `severe_consensus` distinct eligible users
/// reported it. Conversely, every signal reported on the artifact by at least
/// one eligible user and by as many as its threshold is shown, in its public
/// spelling.
pub proof fn lemma_shown_flags_reached_consensus(
    rows: Seq<(Option<u128>, Seq<char>, Option<u128>)>,
    eligible: Seq<u128>,
    t: ConsensusThresholds,
    i: int,
)
    requires
        0 <= i < consensus_spec(rows, eligible, t).len(),
    ensures
        ({
            let a = consensus_spec(rows, eligible, t)[i].0;
            let shown = consensus_spec(rows, eligible, t)[i].1;
            &&& forall|k: int|
                #![trigger shown[k]]
                0 <= k < shown.len() ==> exists|s: Seq<char>|
                    #![trigger reporters(rows, eligible, a, s)]
                    public_signal_spec(s) == shown[k] && reporters(rows, eligible, a, s).finite() && (
                    (s == "security_issue"@ || s == "broken"@) ==> reporters(rows, eligible, a, s).len()
                        >= t.severe_consensus) && (!(s == "security_issue"@ || s == "broken"@)
                        ==> reporters(rows, eligible, a, s).len() >= t.default_consensus)
            &&& shown.contains("broken"@) ==> reporters(rows, eligible, a, "broken"@).len()
                >= t.severe_consensus
            &&& forall|s: Seq<char>|
                #![trigger reporters(rows, eligible, a, s)]
                reporters(rows, eligible, a, s).len() >= 1 && reporters(rows, eligible, a, s).finite()
                    && reporters(rows, eligible, a, s).len() >= (if s == "security_issue"@ || s
                    == "broken"@ {
                    t.severe_consensus
                } else {
                    t.default_consensus
                }) ==> shown.contains(public_signal_spec(s))
        }),
{
    let v = votes(rows, eligible);
    let arts = uniq(vote_artifacts(v));
    let a = consensus_spec(rows, eligible, t)[i].0;
    let shown = consensus_spec(rows, eligible, t)[i].1;
    assert(a == arts[i]);
    let cs = consensus_signals(v, a, t);
    assert(shown == normalize_flags_spec(cs));
    let sig = uniq(vote_signals(v, a));
    let pred = |s: Seq<char>| uniq(vote_users(v, a, s)).len() >= needed(s, t);
    sig.filter_lemma(pred);
    assert forall|k: int| #![trigger shown[k]] 0 <= k < shown.len() implies exists|s: Seq<char>|
        #![trigger reporters(rows, eligible, a, s)]
        public_signal_spec(s) == shown[k] && reporters(rows, eligible, a, s).finite() && (
        (s == "security_issue"@ || s == "broken"@) ==> reporters(rows, eligible, a, s).len()
            >= t.severe_consensus) && (!(s == "security_issue"@ || s == "broken"@)
            ==> reporters(rows, eligible, a, s).len() >= t.default_consensus) by {
        let s = cs[k];
        assert(pred(cs[k]));
        lemma_voter_count(rows, eligible, a, s);
        assert(reporters(rows, eligible, a, s).len() >= t.severe_consensus || !(s
            == "security_issue"@ || s == "broken"@));
    }
    if shown.contains("broken"@) {
        let k = choose|k: int| 0 <= k < shown.len() && shown[k] == "broken"@;
        let s = cs[k];
        assert(pred(cs[k]));
        lemma_voter_count(rows, eligible, a, s);
        reveal_strlit("broken");
        reveal_strlit("security-issue");
        assert(public_signal_spec(s) == "broken"@);
        if s == "security_issue"@ {
            assert("security-issue"@[0] != "broken"@[0]);
        }
        assert(s == "broken"@);
    }
    assert forall|s: Seq<char>|
        #![trigger reporters(rows, eligible, a, s)]
        reporters(rows, eligible, a, s).len() >= 1 && reporters(rows, eligible, a, s).finite()
            && reporters(rows, eligible, a, s).len() >= (if s == "security_issue"@ || s == "broken"@ {
            t.severe_consensus
        } else {
            t.default_consensus
        }) implies shown.contains(public_signal_spec(s)) by {
        lemma_voter_count(rows, eligible, a, s);
        lemma_votes_match_reports(rows, eligible, a, s);
        let w = uniq(vote_users(v, a, s));
        if vote_users(v, a, s).len() == 0 {
            assert(vote_users(v, a, s) =~= Seq::<u128>::empty());
            assert(uniq(Seq::<u128>::empty()).len() == 0);
        }
        assert(vote_signals(v, a).contains(s));
        lemma_uniq_same_values(vote_signals(v, a));
        assert(sig.contains(s));
        let j = choose|j: int| 0 <= j < sig.len() && sig[j] == s;
        assert(pred(sig[j]));
        assert(cs.contains(s));
        let k = choose|k: int| 0 <= k < cs.len() && cs[k] == s;
        assert(shown[k] == public_signal_spec(s));
    }
}

/// Some eligible user reported a signal on artifact `a`.
pub open spec fn reported_on(
    rows: Seq<(Option<u128>, Seq<char>, Option<u128>)>,
    eligible: Seq<u128>,
    a: u128,
) -> bool {
    exists|j: int|
        0 <= j < rows.len() && (#[trigger] rows[j]).0 == Some(a) && rows[j].2 is Some
            && eligible.contains(rows[j].2->0)
}

proof fn lemma_vote_artifacts_reported(
    rows: Seq<(Option<u128>, Seq<char>, Option<u128>)>,
    eligible: Seq<u128>,
)
    ensures
        forall|a: u128| #[trigger]
            vote_artifacts(votes(rows, eligible)).contains(a) <==> reported_on(rows, eligible, a),
    decreases rows.len(),
{
    if rows.len() > 0 {
        let pr = rows.drop_last();
        let r = rows.last();
        lemma_vote_artifacts_reported(pr, eligible);
        let pv = votes(pr, eligible);
        let v = votes(rows, eligible);
        let counted = r.0 is Some && r.2 is Some && eligible.contains(r.2->0);
        if counted {
            let x = (r.0->0, r.1, r.2->0);
            assert(v == pv.push(x));
            assert(vote_artifacts(v) =~= vote_artifacts(pv).push(x.0));
        } else {
            assert(v == pv);
        }
        assert forall|a: u128| #[trigger]
            vote_artifacts(v).contains(a) <==> reported_on(rows, eligible, a) by {
            if counted {
                lemma_contains_push(vote_artifacts(pv), r.0->0, a);
            }
            if reported_on(rows, eligible, a) {
                let j = choose|j: int|
                    0 <= j < rows.len() && (#[trigger] rows[j]).0 == Some(a) && rows[j].2 is Some
                        && eligible.contains(rows[j].2->0);
                if j < pr.len() {
                    assert(pr[j] == rows[j]);
                }
            }
            if reported_on(pr, eligible, a) {
                let j = choose|j: int|
                    0 <= j < pr.len() && (#[trigger] pr[j]).0 == Some(a) && pr[j].2 is Some
                        && eligible.contains(pr[j].2->0);
                assert(rows[j] == pr[j]);
            }
            if counted && r.0 == Some(a) {
                assert(rows[rows.len() - 1] == r);
            }
        }
    }
}

/// The result has one entry per artifact on which some eligible user
/// reported a signal, and none for any other artifact: an artifact has an
/// entry exactly when it was reported on, and no artifact has two.
pub proof fn lemma_entries_are_reported_artifacts(
    rows: Seq<(Option<u128>, Seq<char>, Option<u128>)>,
    eligible: Seq<u128>,
    t: ConsensusThresholds,
)
    ensures
        forall|a: u128|
            #![trigger reported_on(rows, eligible, a)]
            (exists|i: int|
                0 <= i < consensus_spec(rows, eligible, t).len() && (#[trigger] consensus_spec(
                    rows,
                    eligible,
                    t,
                )[i]).0 == a) <==> reported_on(rows, eligible, a),
        forall|i: int, k: int|
            0 <= i < k < consensus_spec(rows, eligible, t).len() ==> (#[trigger] consensus_spec(
                rows,
                eligible,
                t,
            )[i]).0 != (#[trigger] consensus_spec(rows, eligible, t)[k]).0,
{
    let v = votes(rows, eligible);
    let arts = uniq(vote_artifacts(v));
    let res = consensus_spec(rows, eligible, t);
    lemma_vote_artifacts_reported(rows, eligible);
    lemma_uniq_same_values(vote_artifacts(v));
    lemma_uniq_distinct(vote_artifacts(v));
    assert(res.len() == arts.len());
    assert forall|i: int| 0 <= i < res.len() implies (#[trigger] res[i]).0 == arts[i] by {}
    assert forall|a: u128|
        #![trigger reported_on(rows, eligible, a)]
        (exists|i: int| 0 <= i < res.len() && (#[trigger] res[i]).0 == a) <==> reported_on(
            rows,
            eligible,
            a,
        ) by {
        if reported_on(rows, eligible, a) {
            assert(vote_artifacts(v).contains(a));
            assert(arts.contains(a));
            let i = choose|i: int| 0 <= i < arts.len() && arts[i] == a;
            assert(res[i].0 == a);
        }
        if exists|i: int| 0 <= i < res.len() && (#[trigger] res[i]).0 == a {
            let i = choose|i: int| 0 <= i < res.len() && (#[trigger] res[i]).0 == a;
            assert(arts[i] == a);
            assert(arts.contains(a));
            assert(vote_artifacts(v).contains(a));
        }
    }
    assert forall|i: int, k: int| 0 <= i < k < res.len() implies (#[trigger] res[i]).0
        != (#[trigger] res[k]).0 by {
        assert(arts[i] != arts[k]);
    }
}

} // verus!
