//! Watch alerts: which changes of a watched repository notify its watchers,
//! and how an alert reads in a Discord message or an email.
use vstd::prelude::*;

use crate::account::{uuid_hyphenated, uuid_hyphenated_string};
use crate::email_templates::{
    alert_text, branded_html, alert_eyebrow, fields_view, opt_view, render_watch_alert_email,
    EmailField, EmailLocale, EmailTemplate,
};
use crate::notification_digest::{opt_string_view, repo_name_spec};
use crate::text::{owned, push_str, str_eq, vec_contains_str};

verus! {

/// The kinds of notification.
#[derive(Debug, Clone, Copy, PartialEq, Eq)]
pub enum NotificationKind {
    ScoreDrop,
    AbandonmentUp,
    FlagAdded,
    FlagSevere,
    UseCaseNewCandidate,
    UseCaseBestCandidateChanged,
    UseCaseQualityDrop,
    UseCaseFlagAdded,
}

/// What an alert's payload says that its message shows: the flag, and the
/// previous and new scores already written with two decimals.
#[derive(Debug, Clone)]
pub struct AlertPayload {
    pub flag: Option<String>,
    pub previous_score: String,
    pub new_score: String,
}

/// A detail of an alert message.
#[derive(Debug, Clone)]
pub struct AlertField {
    pub name: String,
    pub value: String,
    pub inline: bool,
}

/// The text of an alert.
#[derive(Debug, Clone)]
pub struct WatchAlertMessage {
    pub title: String,
    pub content: String,
    pub description: String,
    pub color: u32,
    pub fields: Vec<AlertField>,
}

pub const COLOR_WARNING: u32 = 16_744_996;
pub const COLOR_SEVERE: u32 = 15_115_908;
pub const COLOR_RADAR: u32 = 8_900_331;

pub open spec fn alert_fields_view(f: Seq<AlertField>) -> Seq<(Seq<char>, Seq<char>, bool)> {
    f.map_values(|x: AlertField| (x.name@, x.value@, x.inline))
}

/// The flag of a payload, or `new flag` without one.
pub open spec fn flag_or_default(flag: Option<Seq<char>>) -> Seq<char> {
    match flag {
        Some(f) => f,
        None => "new flag"@,
    }
}

/// The message of an alert on `repo` of the given kind: (title, content,
/// description, color, fields).
pub open spec fn alert_message_spec(
    repo: Seq<char>,
    kind: NotificationKind,
    flag: Option<Seq<char>>,
    previous_score: Seq<char>,
    new_score: Seq<char>,
) -> (Seq<char>, Seq<char>, Seq<char>, u32, Seq<(Seq<char>, Seq<char>, bool)>) {
    let f = flag_or_default(flag);
    match kind {
        NotificationKind::ScoreDrop => (
            repo + ": score drop"@,
            "UseStakly alert: "@ + repo + " quality score dropped."@,
            "A watched repository crossed the score-drop alert threshold."@,
            COLOR_WARNING,
            seq![("Previous score"@, previous_score, true), ("New score"@, new_score, true)],
        ),
        NotificationKind::AbandonmentUp => (
            repo + ": abandonment risk up"@,
            "UseStakly alert: "@ + repo + " abandonment risk increased."@,
            "A watched repository shows a higher abandonment risk."@,
            COLOR_WARNING,
            Seq::empty(),
        ),
        NotificationKind::FlagAdded => (
            repo + ": "@ + f,
            "UseStakly alert: "@ + repo + " received flag `"@ + f + "`."@,
            "A new flag was detected on a watched repository."@,
            COLOR_WARNING,
            seq![("Flag"@, f, true)],
        ),
        NotificationKind::FlagSevere => (
            repo + ": "@ + f,
            "UseStakly alert: "@ + repo + " received flag `"@ + f + "`."@,
            "A severe flag was detected on a watched repository."@,
            COLOR_SEVERE,
            seq![("Flag"@, f, true)],
        ),
        NotificationKind::UseCaseNewCandidate => (
            repo + ": new radar candidate"@,
            "UseStakly alert: "@ + repo + " entered a watched need."@,
            "A repository entered the recommendations for a watched need."@,
            COLOR_RADAR,
            Seq::empty(),
        ),
        NotificationKind::UseCaseBestCandidateChanged => (
            repo + ": best radar candidate changed"@,
            "UseStakly alert: "@ + repo + " is now the top match for a watched need."@,
            "The leading recommendation changed for a watched need."@,
            COLOR_RADAR,
            Seq::empty(),
        ),
        NotificationKind::UseCaseQualityDrop => (
            repo + ": radar candidate quality dropped"@,
            "UseStakly alert: "@ + repo + " dropped in a watched need."@,
            "A repository in a watched need crossed the quality-drop threshold."@,
            COLOR_WARNING,
            Seq::empty(),
        ),
        NotificationKind::UseCaseFlagAdded => (
            repo + ": radar candidate flag"@,
            "UseStakly alert: "@ + repo + " received flag `"@ + f + "` in a watched need."@,
            "A repository in a watched need received a new flag."@,
            COLOR_WARNING,
            seq![("Flag"@, f, true)],
        ),
    }
}

fn cat3(a: &str, b: &str, c: &str) -> (r: String)
    ensures
        r@ == a@ + b@ + c@,
{
    crate::text::concat3(a, b, c)
}

fn field(name: &str, value: &str) -> (r: AlertField)
    ensures
        r.name@ == name@,
        r.value@ == value@,
        r.inline,
{
    AlertField { name: owned(name), value: owned(value), inline: true }
}

/// The message of an alert on `repo_full_name`.
pub fn watch_alert_message(repo_full_name: &str, kind: NotificationKind, payload: &AlertPayload) -> (r:
    WatchAlertMessage)
    ensures
        (r.title@, r.content@, r.description@, r.color, alert_fields_view(r.fields@))
            == alert_message_spec(
            repo_full_name@,
            kind,
            opt_string_view(payload.flag),
            payload.previous_score@,
            payload.new_score@,
        ),
{
    let flag: &str = match &payload.flag {
        Some(f) => f.as_str(),
        None => "new flag",
    };
    let repo = repo_full_name;
    match kind {
        NotificationKind::ScoreDrop => {
            let mut fields: Vec<AlertField> = Vec::new();
            fields.push(field("Previous score", payload.previous_score.as_str()));
            fields.push(field("New score", payload.new_score.as_str()));
            let r = WatchAlertMessage {
                title: crate::text::concat2(repo, ": score drop"),
                content: cat3("UseStakly alert: ", repo, " quality score dropped."),
                description: owned("A watched repository crossed the score-drop alert threshold."),
                color: COLOR_WARNING,
                fields,
            };
            assert(alert_fields_view(r.fields@) =~= seq![
                ("Previous score"@, payload.previous_score@, true),
                ("New score"@, payload.new_score@, true),
            ]);
            r
        },
        NotificationKind::AbandonmentUp => {
            let r = WatchAlertMessage {
                title: crate::text::concat2(repo, ": abandonment risk up"),
                content: cat3("UseStakly alert: ", repo, " abandonment risk increased."),
                description: owned("A watched repository shows a higher abandonment risk."),
                color: COLOR_WARNING,
                fields: Vec::new(),
            };
            assert(alert_fields_view(r.fields@) =~= Seq::empty());
            r
        },
        NotificationKind::FlagAdded | NotificationKind::FlagSevere => {
            let severe = match kind {
                NotificationKind::FlagSevere => true,
                _ => false,
            };
            let mut fields: Vec<AlertField> = Vec::new();
            fields.push(field("Flag", flag));
            let mut content = cat3("UseStakly alert: ", repo, " received flag `");
            push_str(&mut content, flag);
            push_str(&mut content, "`.");
            let r = WatchAlertMessage {
                title: cat3(repo, ": ", flag),
                content,
                description: if severe {
                    owned("A severe flag was detected on a watched repository.")
                } else {
                    owned("A new flag was detected on a watched repository.")
                },
                color: if severe {
                    COLOR_SEVERE
                } else {
                    COLOR_WARNING
                },
                fields,
            };
            assert(alert_fields_view(r.fields@) =~= seq![("Flag"@, flag@, true)]);
            r
        },
        NotificationKind::UseCaseNewCandidate => {
            let r = WatchAlertMessage {
                title: crate::text::concat2(repo, ": new radar candidate"),
                content: cat3("UseStakly alert: ", repo, " entered a watched need."),
                description: owned("A repository entered the recommendations for a watched need."),
                color: COLOR_RADAR,
                fields: Vec::new(),
            };
            assert(alert_fields_view(r.fields@) =~= Seq::empty());
            r
        },
        NotificationKind::UseCaseBestCandidateChanged => {
            let r = WatchAlertMessage {
                title: crate::text::concat2(repo, ": best radar candidate changed"),
                content: cat3("UseStakly alert: ", repo, " is now the top match for a watched need."),
                description: owned("The leading recommendation changed for a watched need."),
                color: COLOR_RADAR,
                fields: Vec::new(),
            };
            assert(alert_fields_view(r.fields@) =~= Seq::empty());
            r
        },
        NotificationKind::UseCaseQualityDrop => {
            let r = WatchAlertMessage {
                title: crate::text::concat2(repo, ": radar candidate quality dropped"),
                content: cat3("UseStakly alert: ", repo, " dropped in a watched need."),
                description: owned(
                    "A repository in a watched need crossed the quality-drop threshold.",
                ),
                color: COLOR_WARNING,
                fields: Vec::new(),
            };
            assert(alert_fields_view(r.fields@) =~= Seq::empty());
            r
        },
        NotificationKind::UseCaseFlagAdded => {
            let mut fields: Vec<AlertField> = Vec::new();
            fields.push(field("Flag", flag));
            let mut content = cat3("UseStakly alert: ", repo, " received flag `");
            push_str(&mut content, flag);
            push_str(&mut content, "` in a watched need.");
            let r = WatchAlertMessage {
                title: crate::text::concat2(repo, ": radar candidate flag"),
                content,
                description: owned("A repository in a watched need received a new flag."),
                color: COLOR_WARNING,
                fields,
            };
            assert(alert_fields_view(r.fields@) =~= seq![("Flag"@, flag@, true)]);
            r
        },
    }
}


/// The details of an alert shown in an email: those with a value.
pub open spec fn email_fields_of(f: Seq<(Seq<char>, Seq<char>, bool)>) -> Seq<(Seq<char>, Seq<char>)>
    decreases f.len(),
{
    if f.len() == 0 {
        Seq::empty()
    } else {
        let prev = email_fields_of(f.drop_last());
        if f.last().1.len() == 0 {
            prev
        } else {
            prev.push((f.last().0, f.last().1))
        }
    }
}

fn email_fields(fields: &Vec<AlertField>) -> (r: Vec<EmailField>)
    ensures
        fields_view(r@) == email_fields_of(alert_fields_view(fields@)),
{
    let ghost fv = alert_fields_view(fields@);
    let mut r: Vec<EmailField> = Vec::new();
    for i in 0..fields.len()
        invariant
            fv == alert_fields_view(fields@),
            fields_view(r@) == email_fields_of(fv.take(i as int)),
    {
        proof {
            assert(fv.take(i + 1).drop_last() =~= fv.take(i as int));
            assert(fv.take(i + 1).last() == fv[i as int]);
        }
        if !fields[i].value.as_str().is_empty() {
            let ghost before = fields_view(r@);
            r.push(EmailField { name: owned(fields[i].name.as_str()), value: owned(fields[i].value.as_str()) });
            assert(fields_view(r@) =~= before.push((fv[i as int].0, fv[i as int].1)));
        }
    }
    assert(fv.take(fields@.len() as int) =~= fv);
    r
}

/// The email of a watch alert: subject `[UseStakly] <title>`, the title,
/// the content as intro, the description, the repository link, and the
/// details that have a value.
pub fn watch_alert_email(
    locale: EmailLocale,
    repo_full_name: &str,
    repo_url: Option<&str>,
    kind: NotificationKind,
    payload: &AlertPayload,
) -> (r: EmailTemplate)
    ensures
        ({
            let m = alert_message_spec(
                repo_full_name@,
                kind,
                opt_string_view(payload.flag),
                payload.previous_score@,
                payload.new_score@,
            );
            let fields = email_fields_of(m.4);
            &&& r.subject@ == "[UseStakly] "@ + m.0
            &&& r.text@ == alert_text(locale, m.1, m.2, opt_view(repo_url), fields)
            &&& r.html@ == branded_html(
                locale,
                "[UseStakly] "@ + m.0,
                m.0,
                alert_eyebrow(locale),
                alert_text(locale, m.1, m.2, opt_view(repo_url), fields),
                fields,
                opt_view(repo_url),
            )
        }),
{
    let message = watch_alert_message(repo_full_name, kind, payload);
    let fields = email_fields(&message.fields);
    let subject = crate::text::concat2("[UseStakly] ", message.title.as_str());
    render_watch_alert_email(
        locale,
        subject.as_str(),
        message.title.as_str(),
        message.content.as_str(),
        message.description.as_str(),
        repo_url,
        fields.as_slice(),
    )
}

// ---------------------------------------------------------------------------
// Which changes notify
// ---------------------------------------------------------------------------

/// The flags that make a new flag severe.
pub open spec fn severe_flag(flag: Seq<char>) -> bool {
    flag == "security-issue"@ || flag == "broken"@
}

/// A flag event for each flag of the new score that the previous score did
/// not have, in order: severe for `security-issue` and `broken`.
pub open spec fn new_flag_events_spec(previous: Seq<Seq<char>>, current: Seq<Seq<char>>) -> Seq<
    (NotificationKind, Seq<char>),
>
    decreases current.len(),
{
    if current.len() == 0 {
        Seq::empty()
    } else {
        let prev = new_flag_events_spec(previous, current.drop_last());
        let f = current.last();
        if previous.contains(f) {
            prev
        } else if severe_flag(f) {
            prev.push((NotificationKind::FlagSevere, f))
        } else {
            prev.push((NotificationKind::FlagAdded, f))
        }
    }
}

pub open spec fn events_view(e: Seq<(NotificationKind, String)>) -> Seq<(NotificationKind, Seq<char>)> {
    e.map_values(|x: (NotificationKind, String)| (x.0, x.1@))
}

/// The flag events between two scores of a watched repository.
pub fn new_flag_events(previous: &Vec<String>, current: &Vec<String>) -> (r: Vec<(NotificationKind, String)>)
    ensures
        events_view(r@) == new_flag_events_spec(previous.deep_view(), current.deep_view()),
{
    let ghost cv = current.deep_view();
    let mut r: Vec<(NotificationKind, String)> = Vec::new();
    for i in 0..current.len()
        invariant
            cv == current.deep_view(),
            events_view(r@) == new_flag_events_spec(previous.deep_view(), cv.take(i as int)),
    {
        proof {
            assert(cv.take(i + 1).drop_last() =~= cv.take(i as int));
            assert(cv.take(i + 1).last() == current@[i as int]@);
        }
        let f = current[i].as_str();
        if !vec_contains_str(previous, f) {
            let kind = if str_eq(f, "security-issue") || str_eq(f, "broken") {
                NotificationKind::FlagSevere
            } else {
                NotificationKind::FlagAdded
            };
            let ghost before = events_view(r@);
            r.push((kind, owned(f)));
            assert(events_view(r@) =~= before.push((kind, f@)));
        }
    }
    assert(cv.take(current@.len() as int) =~= cv);
    r
}

/// The name an alert gives its repository: `owner/name`, the name alone,
/// or the artifact's id without a name.
pub open spec fn alert_repo_name_spec(owner: Option<Seq<char>>, name: Option<Seq<char>>, artifact_id: u128) -> Seq<char> {
    match name {
        Some(_) => repo_name_spec(owner, name),
        None => uuid_hyphenated(artifact_id),
    }
}

/// The repository name used in an alert.
pub fn alert_repo_name(owner: Option<String>, name: Option<String>, artifact_id: u128) -> (r: String)
    ensures
        r@ == alert_repo_name_spec(opt_string_view(owner), opt_string_view(name), artifact_id),
{
    match name {
        Some(n) => crate::notification_digest::repo_name(owner, Some(n)),
        None => uuid_hyphenated_string(artifact_id),
    }
}

/// A repository that gains a flag it did not have is always notified, and
/// a flag it already had never is.
pub proof fn lemma_new_flags_notify_once(previous: Seq<Seq<char>>, current: Seq<Seq<char>>, f: Seq<char>)
    ensures
        current.contains(f) && !previous.contains(f) ==> exists|i: int|
            0 <= i < new_flag_events_spec(previous, current).len() && (#[trigger] new_flag_events_spec(
                previous,
                current,
            )[i]).1 == f,
        previous.contains(f) ==> forall|i: int|
            0 <= i < new_flag_events_spec(previous, current).len() ==> (#[trigger] new_flag_events_spec(
                previous,
                current,
            )[i]).1 != f,
    decreases current.len(),
{
    if current.len() > 0 {
        lemma_new_flags_notify_once(previous, current.drop_last(), f);
        let prev = new_flag_events_spec(previous, current.drop_last());
        let all = new_flag_events_spec(previous, current);
        if current.contains(f) && !previous.contains(f) {
            let k = choose|k: int| 0 <= k < current.len() && current[k] == f;
            if k < current.len() - 1 {
                assert(current.drop_last()[k] == f);
                let i = choose|i: int| 0 <= i < prev.len() && (#[trigger] prev[i]).1 == f;
                assert(all[i] == prev[i]);
            } else {
                assert(all[prev.len() as int].1 == f);
            }
        }
        if previous.contains(f) {
            assert forall|i: int| 0 <= i < all.len() implies (#[trigger] all[i]).1 != f by {
                if i < prev.len() {
                    assert(all[i] == prev[i]);
                }
            }
        }
    }
}

} // verus!
