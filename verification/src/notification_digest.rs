//! The daily digest: when it is due in the user's time zone, and what it
//! says.
use vstd::prelude::*;

use crate::email_templates::EmailSection;
use crate::error::ApiError;
use crate::github_client::chrono_timestamp_ok;
use chrono::Timelike;
use crate::text::{chars_of, owned, parse_i64_spec, parse_i64_within, push_str, push_unique_seq,
    push_unique_str, str_eq, take_strings};

verus! {

// ---------------------------------------------------------------------------
// Digest times
// ---------------------------------------------------------------------------

/// The local time of each digest preset.
pub open spec fn preset_time(preset: Seq<char>) -> Option<Seq<char>> {
    if preset == "morning"@ {
        Some("08:00"@)
    } else if preset == "noon"@ {
        Some("12:00"@)
    } else if preset == "evening"@ {
        Some("18:00"@)
    } else if preset == "night"@ {
        Some("21:00"@)
    } else {
        None
    }
}

/// The local time (`HH:MM`) of a digest preset; an unknown preset is a bad
/// request.
pub fn digest_time_for_preset(preset: &str) -> (r: Result<&'static str, ApiError>)
    ensures
        match preset_time(preset@) {
            Some(t) => r matches Ok(s) && s@ == t,
            None => r matches Err(e) && e.is_bad_request("invalid digest time preset"@),
        },
{
    if str_eq(preset, "morning") {
        Ok("08:00")
    } else if str_eq(preset, "noon") {
        Ok("12:00")
    } else if str_eq(preset, "evening") {
        Ok("18:00")
    } else if str_eq(preset, "night") {
        Ok("21:00")
    } else {
        Err(ApiError::bad_request("invalid digest time preset"))
    }
}

/// The index of the first `:` in `s`, if any.
pub open spec fn colon_at(s: Seq<char>) -> Option<int>
    decreases s.len(),
{
    if s.len() == 0 {
        None
    } else if s[0] == ':' {
        Some(0)
    } else {
        match colon_at(s.drop_first()) {
            Some(i) => Some(i + 1),
            None => None,
        }
    }
}

/// Minutes after midnight of an `HH:MM` time: split at the first `:`, both
/// sides parsed as `i64`, hours in `0..=23` and minutes in `0..=59`.
pub open spec fn hhmm_minutes(value: Seq<char>) -> Option<int> {
    match colon_at(value) {
        None => None,
        Some(k) => match (parse_i64_spec(value.take(k)), parse_i64_spec(value.skip(k + 1))) {
            (Some(h), Some(m)) => if 0 <= h <= 23 && 0 <= m <= 59 {
                Some(h * 60 + m)
            } else {
                None
            },
            _ => None,
        },
    }
}

proof fn lemma_colon_at(s: Seq<char>)
    ensures
        match colon_at(s) {
            Some(k) => 0 <= k < s.len() && s[k] == ':' && forall|j: int|
                0 <= j < k ==> s[j] != ':',
            None => forall|j: int| 0 <= j < s.len() ==> s[j] != ':',
        },
    decreases s.len(),
{
    if s.len() > 0 && s[0] != ':' {
        lemma_colon_at(s.drop_first());
        match colon_at(s.drop_first()) {
            Some(k) => {
                assert forall|j: int| 0 <= j < k + 1 implies s[j] != ':' by {
                    if j > 0 {
                        assert(s[j] == s.drop_first()[j - 1]);
                    }
                }
            },
            None => {
                assert forall|j: int| 0 <= j < s.len() implies s[j] != ':' by {
                    if j > 0 {
                        assert(s[j] == s.drop_first()[j - 1]);
                    }
                }
            },
        }
    }
}

fn find_colon(s: &[char]) -> (r: Option<usize>)
    ensures
        match r {
            Some(i) => colon_at(s@) == Some(i as int) && i < s@.len(),
            None => colon_at(s@) is None,
        },
{
    proof {
        lemma_colon_at(s@);
    }
    for i in 0..s.len()
        invariant
            forall|j: int| 0 <= j < i ==> s@[j] != ':',
            match colon_at(s@) {
                Some(k) => 0 <= k < s@.len() && s@[k] == ':' && forall|j: int|
                    0 <= j < k ==> s@[j] != ':',
                None => forall|j: int| 0 <= j < s@.len() ==> s@[j] != ':',
            },
    {
        if s[i] == ':' {
            return Some(i);
        }
    }
    None
}

/// Parses an `HH:MM` digest time into minutes after midnight.
pub fn parse_hhmm_minutes(value: &str) -> (r: Result<i64, ApiError>)
    ensures
        match hhmm_minutes(value@) {
            Some(m) => r matches Ok(x) && x == m,
            None => r matches Err(e) && e.is_bad_request("invalid digest time"@),
        },
{
    let cs = chars_of(value);
    let k = match find_colon(cs.as_slice()) {
        Some(k) => k,
        None => {
            return Err(ApiError::bad_request("invalid digest time"));
        },
    };
    let n = cs.len();
    let hours_part = crate::text::copy_range(cs.as_slice(), 0, k);
    let minutes_part = crate::text::copy_range(cs.as_slice(), k + 1, n);
    assert(hours_part@ =~= value@.take(k as int));
    assert(minutes_part@ =~= value@.skip(k + 1));
    let hours = parse_i64_within(hours_part.as_slice(), 100);
    let minutes = parse_i64_within(minutes_part.as_slice(), 100);
    match (hours, minutes) {
        (Some(h), Some(m)) => {
            if 0 <= h && h <= 23 && 0 <= m && m <= 59 {
                Ok(h * 60 + m)
            } else {
                Err(ApiError::bad_request("invalid digest time"))
            }
        },
        _ => Err(ApiError::bad_request("invalid digest time")),
    }
}


// ---------------------------------------------------------------------------
// Time zones
// ---------------------------------------------------------------------------

/// The IANA zone names known to chrono-tz's `Tz::from_str`.
pub uninterp spec fn tz_known(name: Seq<char>) -> bool;

/// The local wall-clock (hour, minute) in zone `name` at `secs` seconds after
/// the Unix epoch, as chrono-tz computes it.
pub uninterp spec fn tz_wall_clock(name: Seq<char>, secs: int) -> (u32, u32);

/// Whether `name` is a zone name that `Tz::from_str` (chrono-tz) accepts.
/// The lookup is exact and depends on the name alone.
#[verifier::external_body]
pub(crate) fn timezone_is_known(name: &str) -> (r: bool)
    ensures
        r == tz_known(name@),
{
    name.parse::<chrono_tz::Tz>().is_ok()
}

/// The local hour and minute in zone `name` at the instant `utc_secs`:
/// `Tz::from_str` (chrono-tz), then `DateTime::from_timestamp`,
/// `with_timezone`, `hour` and `minute` (chrono). Nothing when the zone is
/// unknown. Every instant chrono represents converts (the hour and minute
/// are read from the local time without a range check, so none panics at
/// the ends of the range). The hour is below 24 and the minute below 60;
/// which values come out is named, not stated.
#[verifier::external_body]
fn local_wall_clock(name: &str, utc_secs: i64) -> (r: Option<(u32, u32)>)
    requires
        chrono_timestamp_ok(utc_secs as int),
    ensures
        r is Some == tz_known(name@),
        r matches Some(hm) ==> hm == tz_wall_clock(name@, utc_secs as int) && hm.0 < 24 && hm.1 < 60,
{
    let tz: chrono_tz::Tz = name.parse().ok()?;
    let local = chrono::DateTime::from_timestamp(utc_secs, 0)?.with_timezone(&tz);
    Some((local.hour(), local.minute()))
}

/// Whether the digest scheduled at `scheduled` minutes after midnight is due
/// when the local clock shows `now_minutes`: it is, during the
/// `window_minutes` minutes that follow the scheduled time.
pub open spec fn due_within(scheduled: int, now_minutes: int, window_minutes: int) -> bool {
    0 <= now_minutes - scheduled < window_minutes
}

/// The outcome of the due check for a named wall clock.
pub open spec fn due_spec(
    digest_time_local: Seq<char>,
    timezone: Seq<char>,
    now: int,
    window_minutes: int,
) -> Result<bool, Seq<char>> {
    match hhmm_minutes(digest_time_local) {
        None => Err("invalid digest time"@),
        Some(scheduled) => if !tz_known(timezone) {
            Err("invalid timezone"@)
        } else {
            let hm = tz_wall_clock(timezone, now);
            Ok(due_within(scheduled, hm.0 * 60 + hm.1, window_minutes))
        },
    }
}

/// Whether a digest scheduled at local time `digest_time_local` (`HH:MM`)
/// in `timezone` is due at the instant `now` (seconds after the Unix epoch):
/// the local time is at or after the scheduled time and less than
/// `window_minutes` after it. A malformed time, then an unknown time zone,
/// is a bad request.
pub fn is_digest_due_now(
    digest_time_local: &str,
    timezone: &str,
    now: i64,
    window_minutes: i64,
) -> (r: Result<bool, ApiError>)
    requires
        chrono_timestamp_ok(now as int),
    ensures
        match due_spec(digest_time_local@, timezone@, now as int, window_minutes as int) {
            Ok(b) => r matches Ok(x) && x == b,
            Err(m) => r matches Err(e) && e.is_bad_request(m),
        },
{
    let scheduled = match parse_hhmm_minutes(digest_time_local) {
        Ok(m) => m,
        Err(e) => {
            return Err(e);
        },
    };
    let (hour, minute) = match local_wall_clock(timezone, now) {
        Some(hm) => hm,
        None => {
            return Err(ApiError::bad_request("invalid timezone"));
        },
    };
    let now_minutes = (hour as i64) * 60 + (minute as i64);
    let diff = now_minutes - scheduled;
    Ok(0 <= diff && diff < window_minutes)
}


// ---------------------------------------------------------------------------
// Digest content
// ---------------------------------------------------------------------------

/// The repositories a digest reports, by kind of change.
#[derive(Debug, Clone)]
pub struct DigestContent {
    pub score_drops: Vec<String>,
    pub abandonment_up: Vec<String>,
    pub new_flags: Vec<String>,
    pub radar_candidates: Vec<String>,
}

/// A notification of the last day: the repository and the kind of change.
#[derive(Debug, Clone)]
pub struct DigestNotificationRow {
    pub owner: Option<String>,
    pub name: Option<String>,
    pub kind: String,
}

impl DigestContent {
    pub open spec fn empty_spec(self) -> bool {
        self.score_drops@.len() == 0 && self.abandonment_up@.len() == 0 && self.new_flags@.len()
            == 0 && self.radar_candidates@.len() == 0
    }

    /// Nothing to report.
    pub fn is_empty(&self) -> (r: bool)
        ensures
            r == self.empty_spec(),
    {
        self.score_drops.len() == 0 && self.abandonment_up.len() == 0 && self.new_flags.len() == 0
            && self.radar_candidates.len() == 0
    }
}

pub open spec fn opt_string_view(o: Option<String>) -> Option<Seq<char>> {
    match o {
        Some(s) => Some(s@),
        None => None,
    }
}

/// `owner/name` when both are known, the name alone without an owner,
/// `unknown repo` without a name.
pub open spec fn repo_name_spec(owner: Option<Seq<char>>, name: Option<Seq<char>>) -> Seq<char> {
    match (owner, name) {
        (Some(o), Some(n)) => o + "/"@ + n,
        (_, Some(n)) => n,
        _ => "unknown repo"@,
    }
}

/// The display name of a repository.
pub fn repo_name(owner: Option<String>, name: Option<String>) -> (r: String)
    ensures
        r@ == repo_name_spec(opt_string_view(owner), opt_string_view(name)),
{
    match (owner, name) {
        (Some(o), Some(n)) => {
            let mut r = o;
            push_str(&mut r, "/");
            push_str(&mut r, n.as_str());
            r
        },
        (_, Some(n)) => n,
        _ => owned("unknown repo"),
    }
}

pub open spec fn pair_name(p: (Option<String>, Option<String>)) -> Seq<char> {
    repo_name_spec(opt_string_view(p.0), opt_string_view(p.1))
}

fn clone_opt(o: &Option<String>) -> (r: Option<String>)
    ensures
        opt_string_view(r) == opt_string_view(*o),
{
    match o {
        Some(x) => Some(x.clone()),
        None => None,
    }
}

/// The display names of repositories, in order.
pub fn repo_names(rows: &[(Option<String>, Option<String>)]) -> (r: Vec<String>)
    ensures
        r.deep_view() == rows@.map_values(|p: (Option<String>, Option<String>)| pair_name(p)),
{
    let ghost want = rows@.map_values(|p: (Option<String>, Option<String>)| pair_name(p));
    let mut r: Vec<String> = Vec::new();
    for i in 0..rows.len()
        invariant
            want == rows@.map_values(|p: (Option<String>, Option<String>)| pair_name(p)),
            r.deep_view() == want.take(i as int),
    {
        let name = repo_name(clone_opt(&rows[i].0), clone_opt(&rows[i].1));
        let ghost before = r.deep_view();
        r.push(name);
        assert(r.deep_view() =~= before.push(want[i as int]));
        assert(want.take(i + 1) =~= want.take(i as int).push(want[i as int]));
    }
    assert(want.take(rows@.len() as int) =~= want);
    r
}


/// Appends `value` unless `items` already holds it.
pub fn push_unique(items: &mut Vec<String>, value: String)
    ensures
        final(items).deep_view() == push_unique_seq(old(items).deep_view(), value@),
{
    push_unique_str(items, value.as_str());
}

/// The lists of a digest after the given notifications, in order: score
/// drops, abandonment increases and new flags, each without duplicates.
pub open spec fn classify_spec(rows: Seq<DigestNotificationRow>) -> (
    Seq<Seq<char>>,
    Seq<Seq<char>>,
    Seq<Seq<char>>,
)
    decreases rows.len(),
{
    if rows.len() == 0 {
        (Seq::empty(), Seq::empty(), Seq::empty())
    } else {
        let prev = classify_spec(rows.drop_last());
        let row = rows.last();
        let repo = repo_name_spec(opt_string_view(row.owner), opt_string_view(row.name));
        if row.kind@ == "score_drop"@ {
            (push_unique_seq(prev.0, repo), prev.1, prev.2)
        } else if row.kind@ == "abandonment_up"@ {
            (prev.0, push_unique_seq(prev.1, repo), prev.2)
        } else if row.kind@ == "flag_added"@ || row.kind@ == "flag_severe"@ {
            (prev.0, prev.1, push_unique_seq(prev.2, repo))
        } else {
            prev
        }
    }
}

/// The content of a digest: the notifications sorted by kind (other kinds
/// ignored, each repository once per list), and the radar candidates.
pub fn digest_content(
    notifications: &[DigestNotificationRow],
    radar_candidates: &[(Option<String>, Option<String>)],
) -> (r: DigestContent)
    ensures
        (r.score_drops.deep_view(), r.abandonment_up.deep_view(), r.new_flags.deep_view())
            == classify_spec(notifications@),
        r.radar_candidates.deep_view() == radar_candidates@.map_values(
            |p: (Option<String>, Option<String>)| pair_name(p),
        ),
{
    let mut content = DigestContent {
        score_drops: Vec::new(),
        abandonment_up: Vec::new(),
        new_flags: Vec::new(),
        radar_candidates: repo_names(radar_candidates),
    };
    for i in 0..notifications.len()
        invariant
            (
                content.score_drops.deep_view(),
                content.abandonment_up.deep_view(),
                content.new_flags.deep_view(),
            ) == classify_spec(notifications@.take(i as int)),
            content.radar_candidates.deep_view() == radar_candidates@.map_values(
                |p: (Option<String>, Option<String>)| pair_name(p),
            ),
    {
        proof {
            assert(notifications@.take(i + 1).drop_last() =~= notifications@.take(i as int));
            assert(notifications@.take(i + 1).last() == notifications@[i as int]);
        }
        let n = &notifications[i];
        let repo = repo_name(clone_opt(&n.owner), clone_opt(&n.name));
        let kind = n.kind.as_str();
        if str_eq(kind, "score_drop") {
            push_unique(&mut content.score_drops, repo);
        } else if str_eq(kind, "abandonment_up") {
            push_unique(&mut content.abandonment_up, repo);
        } else if str_eq(kind, "flag_added") || str_eq(kind, "flag_severe") {
            push_unique(&mut content.new_flags, repo);
        }
    }
    assert(notifications@.take(notifications@.len() as int) =~= notifications@);
    content
}

/// The first five items of a list.
pub open spec fn first_five(items: Seq<Seq<char>>) -> Seq<Seq<char>> {
    items.take(if items.len() < 5 { items.len() as int } else { 5 })
}

/// A digest section with the given title and items, or nothing when there
/// are no items.
pub open spec fn section_if(title: Seq<char>, items: Seq<Seq<char>>) -> Seq<
    (Seq<char>, Seq<Seq<char>>),
> {
    if items.len() == 0 {
        Seq::empty()
    } else {
        seq![(title, first_five(items))]
    }
}

/// The sections of a digest email, in this order: repos to watch
/// (abandonment up), scores down, new flags, new radar candidates; empty ones
/// left out, at most five items each.
pub open spec fn digest_sections_spec(c: DigestContent) -> Seq<(Seq<char>, Seq<Seq<char>>)> {
    section_if("Repos to watch"@, c.abandonment_up.deep_view()) + section_if(
        "Scores down"@,
        c.score_drops.deep_view(),
    ) + section_if("New flags"@, c.new_flags.deep_view()) + section_if(
        "New radar candidates"@,
        c.radar_candidates.deep_view(),
    )
}

fn push_section(out: &mut Vec<EmailSection>, title: &str, items: &Vec<String>)
    ensures
        crate::email_templates::sections_view(final(out)@) == crate::email_templates::sections_view(
            old(out)@,
        ) + section_if(title@, items.deep_view()),
{
    let ghost before = crate::email_templates::sections_view(out@);
    if items.len() > 0 {
        let first = take_strings(items, 5);
        out.push(EmailSection { title: owned(title), items: first });
        assert(crate::email_templates::sections_view(out@) =~= before + section_if(
            title@,
            items.deep_view(),
        ));
    } else {
        assert(crate::email_templates::sections_view(out@) =~= before + section_if(
            title@,
            items.deep_view(),
        ));
    }
}

/// The sections of the digest email for some content.
pub fn digest_email_sections(content: &DigestContent) -> (r: Vec<EmailSection>)
    ensures
        crate::email_templates::sections_view(r@) == digest_sections_spec(*content),
{
    let mut out: Vec<EmailSection> = Vec::new();
    assert(crate::email_templates::sections_view(out@) =~= Seq::empty());
    push_section(&mut out, "Repos to watch", &content.abandonment_up);
    push_section(&mut out, "Scores down", &content.score_drops);
    push_section(&mut out, "New flags", &content.new_flags);
    push_section(&mut out, "New radar candidates", &content.radar_candidates);
    assert(crate::email_templates::sections_view(out@) =~= digest_sections_spec(*content));
    out
}


// ---------------------------------------------------------------------------
// Laws
// ---------------------------------------------------------------------------

proof fn lemma_push_unique_keeps_distinct(acc: Seq<Seq<char>>, x: Seq<char>)
    requires
        acc.no_duplicates(),
    ensures
        push_unique_seq(acc, x).no_duplicates(),
{
    if !acc.contains(x) {
        let r = acc.push(x);
        assert forall|i: int, j: int| 0 <= i < r.len() && 0 <= j < r.len() && i != j implies r[i]
            != r[j] by {
            if i == acc.len() as int {
                assert(acc.contains(r[j]));
            } else if j == acc.len() as int {
                assert(acc.contains(r[i]));
            }
        }
    }
}

/// Each list of a digest names a repository at most once.
pub proof fn lemma_digest_lists_distinct(rows: Seq<DigestNotificationRow>)
    ensures
        classify_spec(rows).0.no_duplicates(),
        classify_spec(rows).1.no_duplicates(),
        classify_spec(rows).2.no_duplicates(),
    decreases rows.len(),
{
    if rows.len() > 0 {
        lemma_digest_lists_distinct(rows.drop_last());
        let prev = classify_spec(rows.drop_last());
        let row = rows.last();
        let repo = repo_name_spec(opt_string_view(row.owner), opt_string_view(row.name));
        lemma_push_unique_keeps_distinct(prev.0, repo);
        lemma_push_unique_keeps_distinct(prev.1, repo);
        lemma_push_unique_keeps_distinct(prev.2, repo);
    }
}

/// A digest section never lists more than five repositories, and every
/// section it shows lists at least one.
pub proof fn lemma_digest_sections_bounded(c: DigestContent)
    ensures
        forall|i: int|
            0 <= i < digest_sections_spec(c).len() ==> 1 <= (#[trigger] digest_sections_spec(
                c,
            )[i]).1.len() <= 5,
{
    let a = section_if("Repos to watch"@, c.abandonment_up.deep_view());
    let b = section_if("Scores down"@, c.score_drops.deep_view());
    let d = section_if("New flags"@, c.new_flags.deep_view());
    let e = section_if("New radar candidates"@, c.radar_candidates.deep_view());
    assert forall|i: int| 0 <= i < digest_sections_spec(c).len() implies 1 <= (
    #[trigger] digest_sections_spec(c)[i]).1.len() <= 5 by {
        let all = digest_sections_spec(c);
        assert(all == a + b + d + e);
        if i < a.len() {
            assert(all[i] == a[i]);
        } else if i < a.len() + b.len() {
            assert(all[i] == b[i - a.len()]);
        } else if i < a.len() + b.len() + d.len() {
            assert(all[i] == d[i - a.len() - b.len()]);
        } else {
            assert(all[i] == e[i - a.len() - b.len() - d.len()]);
        }
    }
}

/// Content with something to report makes a digest with at least one
/// section; empty content makes none.
pub proof fn lemma_digest_sections_empty_iff(c: DigestContent)
    ensures
        (digest_sections_spec(c).len() == 0) == c.empty_spec(),
{
    assert(c.abandonment_up.deep_view().len() == c.abandonment_up@.len());
    assert(c.score_drops.deep_view().len() == c.score_drops@.len());
    assert(c.new_flags.deep_view().len() == c.new_flags@.len());
    assert(c.radar_candidates.deep_view().len() == c.radar_candidates@.len());
}

} // verus!
