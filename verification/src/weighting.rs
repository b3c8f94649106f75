//! The integer side of signal weighting: which bucket each observed signal
//! counts in, how many earlier signals share its artifact, reporter and
//! outcome (the count its duplicate discount is drawn from), and the raw
//! count of each bucket. The weights themselves are floating-point and are
//! computed by the caller from these.
use vstd::prelude::*;

use crate::formula::{bucket_for, bucket_spec};
use crate::text::str_eq;

verus! {

/// An observed usage signal; identifiers are UUIDs as integers, the time in
/// seconds since the Unix epoch.
#[derive(Debug, Clone)]
pub struct SignalObservation {
    pub signal_id: u128,
    pub external_artifact_id: u128,
    pub outcome: String,
    pub actor_user_id: Option<u128>,
    pub created_at: i64,
}

/// The reporter a signal is grouped under: its actor, or the nil id.
pub open spec fn actor_key(o: SignalObservation) -> u128 {
    match o.actor_user_id {
        Some(a) => a,
        None => 0,
    }
}

/// Two signals on the same artifact, from the same reporter, with the same
/// outcome.
pub open spec fn same_key(a: SignalObservation, b: SignalObservation) -> bool {
    a.external_artifact_id == b.external_artifact_id && actor_key(a) == actor_key(b)
        && a.outcome@ == b.outcome@
}

/// How many signals before position `i` share its key.
pub open spec fn prior_count(s: Seq<SignalObservation>, i: int) -> nat {
    s.take(i).filter(|o: SignalObservation| same_key(o, s[i])).len()
}

/// What a signal's weight is drawn from: its bucket and the number of
/// earlier signals with the same key.
#[derive(Debug, Clone, Copy, PartialEq, Eq)]
pub struct SignalWeighing {
    pub bucket: Option<&'static str>,
    pub n_prev: u32,
}

fn same_key_exec(a: &SignalObservation, b: &SignalObservation) -> (r: bool)
    ensures
        r == same_key(*a, *b),
{
    let ka: u128 = match a.actor_user_id {
        Some(x) => x,
        None => 0,
    };
    let kb: u128 = match b.actor_user_id {
        Some(x) => x,
        None => 0,
    };
    a.external_artifact_id == b.external_artifact_id && ka == kb && str_eq(
        a.outcome.as_str(),
        b.outcome.as_str(),
    )
}

fn prior_same_key(signals: &[SignalObservation], i: usize) -> (r: u32)
    requires
        i < signals@.len(),
        signals@.len() <= u32::MAX,
    ensures
        r == prior_count(signals@, i as int),
{
    let ghost s = signals@;
    let ghost pred = |o: SignalObservation| same_key(o, s[i as int]);
    let mut n: u32 = 0;
    for j in 0..i
        invariant
            s == signals@,
            i < s.len(),
            s.len() <= u32::MAX,
            pred == (|o: SignalObservation| same_key(o, s[i as int])),
            n == s.take(j as int).filter(pred).len(),
            n <= j,
    {
        proof {
            assert(s.take(j + 1).drop_last() =~= s.take(j as int));
            assert(s.take(j + 1).last() == s[j as int]);
            reveal_with_fuel(Seq::filter, 1);
        }
        if same_key_exec(&signals[j], &signals[i]) {
            n = n + 1;
        }
    }
    n
}

/// The bucket of each signal and the number of earlier signals sharing its
/// artifact, reporter and outcome, in order.
pub fn weigh_signals(signals: &[SignalObservation]) -> (r: Vec<SignalWeighing>)
    requires
        signals@.len() <= u32::MAX,
    ensures
        r@.len() == signals@.len(),
        forall|i: int|
            0 <= i < signals@.len() ==> (#[trigger] r@[i]).n_prev == prior_count(signals@, i) && match r@[i].bucket {
                Some(b) => bucket_spec(signals@[i].outcome@) == Some(b@),
                None => bucket_spec(signals@[i].outcome@) is None,
            },
{
    let mut r: Vec<SignalWeighing> = Vec::new();
    for i in 0..signals.len()
        invariant
            signals@.len() <= u32::MAX,
            r@.len() == i,
            forall|k: int|
                0 <= k < i ==> (#[trigger] r@[k]).n_prev == prior_count(signals@, k) && match r@[k].bucket {
                    Some(b) => bucket_spec(signals@[k].outcome@) == Some(b@),
                    None => bucket_spec(signals@[k].outcome@) is None,
                },
    {
        let n_prev = prior_same_key(signals, i);
        let bucket = bucket_for(signals[i].outcome.as_str());
        r.push(SignalWeighing { bucket, n_prev });
    }
    r
}

/// The number of signals counted in the given bucket.
pub open spec fn bucket_count(s: Seq<SignalObservation>, b: Seq<char>) -> nat {
    s.filter(|o: SignalObservation| bucket_spec(o.outcome@) == Some(b)).len()
}

/// The raw number of signals in each bucket.
#[derive(Debug, Clone, Copy, PartialEq, Eq)]
pub struct RawCounts {
    pub resolve: i32,
    pub build_success: i32,
    pub build_failure: i32,
    pub regret: i32,
}

/// Counts the signals of each bucket; signals with an unknown outcome count
/// nowhere.
pub fn raw_counts(signals: &[SignalObservation]) -> (r: RawCounts)
    requires
        signals@.len() <= i32::MAX,
    ensures
        r.resolve == bucket_count(signals@, "resolve"@),
        r.build_success == bucket_count(signals@, "build_success"@),
        r.build_failure == bucket_count(signals@, "build_failure"@),
        r.regret == bucket_count(signals@, "regret"@),
{
    let ghost s = signals@;
    let mut c = RawCounts { resolve: 0, build_success: 0, build_failure: 0, regret: 0 };
    for i in 0..signals.len()
        invariant
            s == signals@,
            s.len() <= i32::MAX,
            c.resolve == bucket_count(s.take(i as int), "resolve"@),
            c.build_success == bucket_count(s.take(i as int), "build_success"@),
            c.build_failure == bucket_count(s.take(i as int), "build_failure"@),
            c.regret == bucket_count(s.take(i as int), "regret"@),
            c.resolve + c.build_success + c.build_failure + c.regret <= i,
    {
        proof {
            assert(s.take(i + 1).drop_last() =~= s.take(i as int));
            assert(s.take(i + 1).last() == s[i as int]);
            reveal_with_fuel(Seq::filter, 1);
            reveal_strlit("resolve");
            reveal_strlit("build_success");
            reveal_strlit("build_failure");
            reveal_strlit("regret");
            assert("build_success"@ != "build_failure"@) by {
                assert("build_success"@[6] != "build_failure"@[6]);
            }
            assert("build_success"@ != "resolve"@) by {
                assert("build_success"@[0] != "resolve"@[0]);
            }
            assert("build_failure"@ != "resolve"@) by {
                assert("build_failure"@[0] != "resolve"@[0]);
            }
            assert("build_success"@ != "regret"@) by {
                assert("build_success"@[0] != "regret"@[0]);
            }
            assert("build_failure"@ != "regret"@) by {
                assert("build_failure"@[0] != "regret"@[0]);
            }
            assert("resolve"@ != "regret"@) by {
                assert("resolve"@[2] != "regret"@[2]);
            }
        }
        match bucket_for(signals[i].outcome.as_str()) {
            Some(b) => {
                if str_eq(b, "resolve") {
                    c.resolve = c.resolve + 1;
                } else if str_eq(b, "build_success") {
                    c.build_success = c.build_success + 1;
                } else if str_eq(b, "build_failure") {
                    c.build_failure = c.build_failure + 1;
                } else {
                    c.regret = c.regret + 1;
                }
            },
            None => {},
        }
    }
    proof {
        assert(s.take(s.len() as int) =~= s);
    }
    c
}

/// The raw counts of the four buckets add up to the number of signals with
/// a known outcome.
pub proof fn lemma_raw_counts_partition(s: Seq<SignalObservation>)
    ensures
        bucket_count(s, "resolve"@) + bucket_count(s, "build_success"@) + bucket_count(
            s,
            "build_failure"@,
        ) + bucket_count(s, "regret"@) == s.filter(
            |o: SignalObservation| bucket_spec(o.outcome@) is Some,
        ).len(),
    decreases s.len(),
{
    reveal_with_fuel(Seq::filter, 1);
    if s.len() > 0 {
        lemma_raw_counts_partition(s.drop_last());
        reveal_strlit("resolve");
        reveal_strlit("build_success");
        reveal_strlit("build_failure");
        reveal_strlit("regret");
        assert("build_success"@ != "build_failure"@) by {
            assert("build_success"@[6] != "build_failure"@[6]);
        }
        assert("build_success"@ != "resolve"@) by {
            assert("build_success"@[0] != "resolve"@[0]);
        }
        assert("build_failure"@ != "resolve"@) by {
            assert("build_failure"@[0] != "resolve"@[0]);
        }
        assert("build_success"@ != "regret"@) by {
            assert("build_success"@[0] != "regret"@[0]);
        }
        assert("build_failure"@ != "regret"@) by {
            assert("build_failure"@[0] != "regret"@[0]);
        }
        assert("resolve"@ != "regret"@) by {
            assert("resolve"@[2] != "regret"@[2]);
        }
    }
}

proof fn lemma_filter_take_grows(s: Seq<SignalObservation>, key: SignalObservation, j: int, i: int)
    requires
        0 <= j < i <= s.len(),
        same_key(s[j], key),
    ensures
        s.take(j).filter(|o: SignalObservation| same_key(o, key)).len() < s.take(i).filter(
            |o: SignalObservation| same_key(o, key),
        ).len(),
    decreases i - j,
{
    let p = |o: SignalObservation| same_key(o, key);
    reveal_with_fuel(Seq::filter, 1);
    assert(s.take(i).drop_last() =~= s.take(i - 1));
    assert(s.take(i).last() == s[i - 1]);
    if j == i - 1 {
        assert(s.take(i).filter(p).len() == s.take(i - 1).filter(p).len() + 1);
    } else {
        lemma_filter_take_grows(s, key, j, i - 1);
        assert(s.take(i).filter(p).len() >= s.take(i - 1).filter(p).len());
    }
}

/// Each repeated report is discounted more than the one before it: a signal
/// with the same artifact, reporter and outcome as an earlier one has a
/// larger prior count.
pub proof fn lemma_repeat_reports_count_up(s: Seq<SignalObservation>, j: int, i: int)
    requires
        0 <= j < i < s.len(),
        same_key(s[j], s[i]),
    ensures
        prior_count(s, j) < prior_count(s, i),
{
    let key = s[i];
    assert(forall|o: SignalObservation| same_key(o, s[j]) == same_key(o, key));
    assert((|o: SignalObservation| same_key(o, s[j])) =~= (|o: SignalObservation| same_key(o, key)));
    lemma_filter_take_grows(s, key, j, i);
}

} // verus!
