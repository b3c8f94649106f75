//! Use-case watches: their default label and the events a new set of matches
//! raises.
use vstd::prelude::*;

use crate::alerts::NotificationKind;
use crate::recommendations::UseCaseIntent;
use crate::text::{chars_eq, chars_of, owned, push_str, str_eq, vec_contains_str};

verus! {

/// `Veille OSS` for the generic intent, else `Veille ` and the intent label.
pub open spec fn watch_label_spec(intent_label: Seq<char>) -> Seq<char> {
    if intent_label == "Recherche OSS"@ {
        "Veille OSS"@
    } else {
        "Veille "@ + intent_label
    }
}

pub fn default_watch_label(intent: &UseCaseIntent) -> (r: String)
    ensures
        r@ == watch_label_spec(intent.label@),
{
    if chars_eq(chars_of(intent.label.as_str()).as_slice(), chars_of("Recherche OSS").as_slice()) {
        return owned("Veille OSS");
    }
    let mut r = String::new();
    push_str(&mut r, "Veille ");
    push_str(&mut r, intent.label.as_str());
    r
}


/// No use-case notification within this many hours of the last one.
pub const USE_CASE_NOTIFICATION_COOLDOWN_HOURS: i64 = 24;

/// A stored or current match of a watched need: the repository and its
/// flags. (Its scores stay with the caller, by position.)
#[derive(Debug, Clone)]
pub struct WatchMatch {
    pub artifact_id: u128,
    pub flags: Vec<String>,
}

/// An event a new set of matches raises. A quality check names the
/// positions of a repository in the previous and current matches; it
/// becomes a quality-drop event when the current quality is at least 0.10
/// below the previous one.
#[derive(Debug, Clone, PartialEq, Eq)]
pub enum WatchEventDraft {
    NewCandidate { artifact_id: u128 },
    BestCandidateChanged { previous_artifact_id: u128, current_artifact_id: u128 },
    QualityCheck { artifact_id: u128, previous_index: usize, current_index: usize },
    FlagAdded { artifact_id: u128, flag: String },
}

/// An event as plain values.
pub enum WatchEventView {
    NewCandidate(u128),
    BestCandidateChanged(u128, u128),
    QualityCheck(u128, int, int),
    FlagAdded(u128, Seq<char>),
}

pub open spec fn draft_view(d: WatchEventDraft) -> WatchEventView {
    match d {
        WatchEventDraft::NewCandidate { artifact_id } => WatchEventView::NewCandidate(artifact_id),
        WatchEventDraft::BestCandidateChanged { previous_artifact_id, current_artifact_id } =>
            WatchEventView::BestCandidateChanged(previous_artifact_id, current_artifact_id),
        WatchEventDraft::QualityCheck { artifact_id, previous_index, current_index } =>
            WatchEventView::QualityCheck(artifact_id, previous_index as int, current_index as int),
        WatchEventDraft::FlagAdded { artifact_id, flag } => WatchEventView::FlagAdded(artifact_id, flag@),
    }
}

pub open spec fn drafts_view(v: Seq<WatchEventDraft>) -> Seq<WatchEventView> {
    v.map_values(|d: WatchEventDraft| draft_view(d))
}

/// The position of the first match of a repository, if any.
pub open spec fn first_match(matches: Seq<WatchMatch>, id: u128) -> Option<int>
    decreases matches.len(),
{
    if matches.len() == 0 {
        None
    } else if matches[0].artifact_id == id {
        Some(0)
    } else {
        match first_match(matches.drop_first(), id) {
            Some(i) => Some(i + 1),
            None => None,
        }
    }
}

/// A flag event for each current flag missing from the previous flags.
pub open spec fn flag_events(id: u128, previous: Seq<Seq<char>>, current: Seq<Seq<char>>) -> Seq<WatchEventView>
    decreases current.len(),
{
    if current.len() == 0 {
        Seq::empty()
    } else {
        let prev = flag_events(id, previous, current.drop_last());
        if previous.contains(current.last()) {
            prev
        } else {
            prev.push(WatchEventView::FlagAdded(id, current.last()))
        }
    }
}

/// The events of each current match, in order: a new candidate, or a
/// quality check followed by the flags it gained.
pub open spec fn match_events(previous: Seq<WatchMatch>, current: Seq<WatchMatch>) -> Seq<WatchEventView>
    decreases current.len(),
{
    if current.len() == 0 {
        Seq::empty()
    } else {
        let before = match_events(previous, current.drop_last());
        let i = current.len() - 1;
        let c = current.last();
        match first_match(previous, c.artifact_id) {
            None => before.push(WatchEventView::NewCandidate(c.artifact_id)),
            Some(j) => before.push(WatchEventView::QualityCheck(c.artifact_id, j, i)) + flag_events(
                c.artifact_id,
                previous[j].flags.deep_view(),
                c.flags.deep_view(),
            ),
        }
    }
}

/// Nothing within the cooldown; otherwise a change of the best candidate
/// first, then the events of each current match.
pub open spec fn watch_events_spec(
    previous: Seq<WatchMatch>,
    current: Seq<WatchMatch>,
    last_notified_hours_ago: Option<i64>,
) -> Seq<WatchEventView> {
    if last_notified_hours_ago matches Some(h) && h < USE_CASE_NOTIFICATION_COOLDOWN_HOURS {
        Seq::empty()
    } else {
        let best = if previous.len() > 0 && current.len() > 0 && previous[0].artifact_id
            != current[0].artifact_id {
            seq![WatchEventView::BestCandidateChanged(previous[0].artifact_id, current[0].artifact_id)]
        } else {
            Seq::empty()
        };
        best + match_events(previous, current)
    }
}

proof fn lemma_first_match(matches: Seq<WatchMatch>, id: u128)
    ensures
        match first_match(matches, id) {
            Some(j) => 0 <= j < matches.len() && matches[j].artifact_id == id && forall|k: int|
                0 <= k < j ==> matches[k].artifact_id != id,
            None => forall|k: int| 0 <= k < matches.len() ==> matches[k].artifact_id != id,
        },
    decreases matches.len(),
{
    if matches.len() > 0 && matches[0].artifact_id != id {
        lemma_first_match(matches.drop_first(), id);
        match first_match(matches.drop_first(), id) {
            Some(j) => {
                assert forall|k: int| 0 <= k < j + 1 implies matches[k].artifact_id != id by {
                    if k > 0 {
                        assert(matches[k] == matches.drop_first()[k - 1]);
                    }
                }
            },
            None => {
                assert forall|k: int| 0 <= k < matches.len() implies matches[k].artifact_id != id by {
                    if k > 0 {
                        assert(matches[k] == matches.drop_first()[k - 1]);
                    }
                }
            },
        }
    }
}

fn find_match(matches: &[WatchMatch], id: u128) -> (r: Option<usize>)
    ensures
        match r {
            Some(j) => first_match(matches@, id) == Some(j as int) && j < matches@.len(),
            None => first_match(matches@, id) is None,
        },
{
    proof {
        lemma_first_match(matches@, id);
    }
    for k in 0..matches.len()
        invariant
            forall|j: int| 0 <= j < k ==> matches@[j].artifact_id != id,
            match first_match(matches@, id) {
                Some(j) => 0 <= j < matches@.len() && matches@[j].artifact_id == id && forall|m: int|
                    0 <= m < j ==> matches@[m].artifact_id != id,
                None => forall|m: int| 0 <= m < matches@.len() ==> matches@[m].artifact_id != id,
            },
    {
        if matches[k].artifact_id == id {
            return Some(k);
        }
    }
    None
}

fn push_flag_events(out: &mut Vec<WatchEventDraft>, id: u128, previous: &Vec<String>, current: &Vec<String>)
    ensures
        drafts_view(final(out)@) == drafts_view(old(out)@) + flag_events(
            id,
            previous.deep_view(),
            current.deep_view(),
        ),
{
    let ghost start = drafts_view(out@);
    let ghost cv = current.deep_view();
    for i in 0..current.len()
        invariant
            cv == current.deep_view(),
            drafts_view(out@) == start + flag_events(id, previous.deep_view(), cv.take(i as int)),
    {
        proof {
            assert(cv.take(i + 1).drop_last() =~= cv.take(i as int));
            assert(cv.take(i + 1).last() == current@[i as int]@);
        }
        if !vec_contains_str(previous, current[i].as_str()) {
            let ghost before = drafts_view(out@);
            out.push(WatchEventDraft::FlagAdded { artifact_id: id, flag: owned(current[i].as_str()) });
            assert(drafts_view(out@) =~= before.push(WatchEventView::FlagAdded(id, current@[i as int]@)));
        }
    }
    assert(cv.take(current@.len() as int) =~= cv);
}

/// The events a new set of matches of a watched need raises, in order.
pub fn detect_use_case_watch_events(
    previous: &[WatchMatch],
    current: &[WatchMatch],
    last_notified_hours_ago: Option<i64>,
) -> (r: Vec<WatchEventDraft>)
    ensures
        drafts_view(r@) == watch_events_spec(previous@, current@, last_notified_hours_ago),
{
    let mut events: Vec<WatchEventDraft> = Vec::new();
    if let Some(h) = last_notified_hours_ago {
        if h < USE_CASE_NOTIFICATION_COOLDOWN_HOURS {
            assert(drafts_view(events@) =~= Seq::empty());
            return events;
        }
    }
    if previous.len() > 0 && current.len() > 0 && previous[0].artifact_id != current[0].artifact_id {
        events.push(
            WatchEventDraft::BestCandidateChanged {
                previous_artifact_id: previous[0].artifact_id,
                current_artifact_id: current[0].artifact_id,
            },
        );
    }
    let ghost head = drafts_view(events@);
    assert(head =~= (if previous@.len() > 0 && current@.len() > 0 && previous@[0].artifact_id
        != current@[0].artifact_id {
        seq![WatchEventView::BestCandidateChanged(previous@[0].artifact_id, current@[0].artifact_id)]
    } else {
        Seq::<WatchEventView>::empty()
    }));
    for i in 0..current.len()
        invariant
            drafts_view(events@) == head + match_events(previous@, current@.take(i as int)),
    {
        proof {
            assert(current@.take(i + 1).drop_last() =~= current@.take(i as int));
            assert(current@.take(i + 1).last() == current@[i as int]);
        }
        let c = &current[i];
        match find_match(previous, c.artifact_id) {
            None => {
                let ghost before = drafts_view(events@);
                events.push(WatchEventDraft::NewCandidate { artifact_id: c.artifact_id });
                assert(drafts_view(events@) =~= before.push(WatchEventView::NewCandidate(c.artifact_id)));
            },
            Some(j) => {
                let ghost before = drafts_view(events@);
                events.push(
                    WatchEventDraft::QualityCheck {
                        artifact_id: c.artifact_id,
                        previous_index: j,
                        current_index: i,
                    },
                );
                assert(drafts_view(events@) =~= before.push(
                    WatchEventView::QualityCheck(c.artifact_id, j as int, i as int),
                ));
                push_flag_events(&mut events, c.artifact_id, &previous[j].flags, &c.flags);
                assert(drafts_view(events@) =~= head + match_events(previous@, current@.take(i + 1)));
            },
        }
    }
    assert(current@.take(current@.len() as int) =~= current@);
    events
}

/// The repository a watch event notifies about and the kind of its
/// notification: the new candidate, the new best candidate, the repository
/// whose quality dropped (a quality check is sent only once it is a drop),
/// or the repository that gained a flag.
pub open spec fn event_target_spec(event: WatchEventDraft) -> (u128, NotificationKind) {
    match event {
        WatchEventDraft::NewCandidate { artifact_id } => (artifact_id, NotificationKind::UseCaseNewCandidate),
        WatchEventDraft::BestCandidateChanged { current_artifact_id, .. } => (
            current_artifact_id,
            NotificationKind::UseCaseBestCandidateChanged,
        ),
        WatchEventDraft::QualityCheck { artifact_id, .. } => (artifact_id, NotificationKind::UseCaseQualityDrop),
        WatchEventDraft::FlagAdded { artifact_id, .. } => (artifact_id, NotificationKind::UseCaseFlagAdded),
    }
}

/// The repository and notification kind of a watch event.
pub fn event_target(event: &WatchEventDraft) -> (r: (u128, NotificationKind))
    ensures
        r == event_target_spec(*event),
{
    match event {
        WatchEventDraft::NewCandidate { artifact_id } => (*artifact_id, NotificationKind::UseCaseNewCandidate),
        WatchEventDraft::BestCandidateChanged { current_artifact_id, .. } => (
            *current_artifact_id,
            NotificationKind::UseCaseBestCandidateChanged,
        ),
        WatchEventDraft::QualityCheck { artifact_id, .. } => (*artifact_id, NotificationKind::UseCaseQualityDrop),
        WatchEventDraft::FlagAdded { artifact_id, .. } => (*artifact_id, NotificationKind::UseCaseFlagAdded),
    }
}

/// Whole hours since the last notification (never negative), when there
/// was one; times in seconds since the Unix epoch.
pub open spec fn hours_since_spec(last_notified_at: Option<i64>, now: i64) -> Option<int> {
    match last_notified_at {
        Some(last) => Some(if now - last <= 0 {
            0
        } else {
            (now - last) / 3600
        }),
        None => None,
    }
}

pub fn last_notified_hours_ago(last_notified_at: Option<i64>, now: i64) -> (r: Option<i64>)
    ensures
        match r {
            Some(h) => hours_since_spec(last_notified_at, now) == Some(h as int),
            None => hours_since_spec(last_notified_at, now) is None,
        },
{
    match last_notified_at {
        Some(last) => {
            let d: i128 = now as i128 - last as i128;
            if d <= 0 {
                Some(0)
            } else {
                let h: i128 = d / 3600;
                assert(h <= d);
                Some(h as i64)
            }
        },
        None => None,
    }
}

} // verus!
