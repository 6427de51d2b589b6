use vstd::prelude::*;
use vstd::string::StringExecFns;

use crate::model::{Event, Form, Millis, RecordId};

verus! {

/// A submission younger than this counts as recent: 36 hours.
pub const RECENT_WINDOW_MILLIS: i64 = 129_600_000;

/// English rendering of a signed span of time (negative: in the past), as
/// the humanizing crate writes it ("2 days ago", "now", "in an hour").
pub uninterp spec fn humanized(delta_millis: int) -> Seq<char>;

/// The span from `now` to `t`, held within what a time delta can represent.
pub open spec fn clamped_delta(t: int, now: int) -> int {
    let d = t - now;
    if d > i64::MAX {
        i64::MAX as int
    } else if d < -(i64::MAX as int) {
        -(i64::MAX as int)
    } else {
        d
    }
}

/// A submission at `t` is recent at `now` when less than the window has elapsed.
pub open spec fn is_recent(t: int, now: int) -> bool {
    now - t < RECENT_WINDOW_MILLIS
}

/// The latest submission time among `events`, if any form was submitted.
pub open spec fn latest_submission(events: Seq<Event>) -> Option<Millis>
    decreases events.len(),
{
    if events.len() == 0 {
        None
    } else {
        let rest = latest_submission(events.drop_last());
        match events.last() {
            Event::FormSubmitted(s) => match rest {
                None => Some(s.submitted_at),
                Some(b) => Some(if s.submitted_at > b { s.submitted_at } else { b }),
            },
            Event::QuestionEdited(_) => rest,
        }
    }
}

/// The status line of a form whose latest submission is `latest`.
pub open spec fn status_text(latest: Option<Millis>, now: int) -> Seq<char> {
    match latest {
        None => never_updated(),
        Some(t) => humanized(clamped_delta(t as int, now)),
    }
}

pub open spec fn never_updated() -> Seq<char> {
    seq!['N', 'e', 'v', 'e', 'r', ' ', 'u', 'p', 'd', 'a', 't', 'e', 'd']
}

pub open spec fn opt_string_view(o: Option<String>) -> Option<Seq<char>> {
    match o {
        Some(s) => Some(s@),
        None => None,
    }
}

/// Relies on chrono's `Duration::milliseconds` and chrono_humanize's
/// `HumanTime` display: the text depends on the span alone.
#[verifier::external_body]
fn humanize_span(delta: i64) -> (r: String)
    requires
        delta >= -i64::MAX,
    ensures
        r@ == humanized(delta as int),
{
    chrono_humanize::HumanTime::from(chrono::Duration::milliseconds(delta)).to_string()
}

/// Human-readable age of a submission made at `timestamp`, and whether it
/// is recent, as seen at `now`.
pub fn recency(timestamp: Millis, now: Millis) -> (r: (String, bool))
    ensures
        r.0@ == humanized(clamped_delta(timestamp as int, now as int)),
        r.1 == is_recent(timestamp as int, now as int),
{
    let d: i128 = timestamp as i128 - now as i128;
    let span: i64 = if d > i64::MAX as i128 {
        i64::MAX
    } else if d < -(i64::MAX as i128) {
        -i64::MAX
    } else {
        d as i64
    };
    let elapsed: i128 = now as i128 - timestamp as i128;
    (humanize_span(span), elapsed < RECENT_WINDOW_MILLIS as i128)
}

/// The latest submission time among a form's events.
pub fn most_recent_submission(events: &Vec<Event>) -> (r: Option<Millis>)
    ensures
        r == latest_submission(events@),
{
    let mut best: Option<Millis> = None;
    let mut i: usize = 0;
    while i < events.len()
        invariant
            i <= events@.len(),
            best == latest_submission(events@.subrange(0, i as int)),
        decreases events@.len() - i,
    {
        proof {
            let next = events@.subrange(0, i + 1);
            assert(next.drop_last() =~= events@.subrange(0, i as int));
        }
        match &events[i] {
            Event::FormSubmitted(s) => {
                best = match best {
                    None => Some(s.submitted_at),
                    Some(b) => Some(if s.submitted_at > b { s.submitted_at } else { b }),
                };
            },
            Event::QuestionEdited(_) => {},
        }
        i = i + 1;
    }
    assert(events@.subrange(0, events@.len() as int) =~= events@);
    best
}

/// Per-form summary shown on a dashboard.
#[derive(Clone, Debug)]
pub struct Symptom {
    pub title: String,
    pub description: Option<String>,
    pub status: String,
    pub id: RecordId,
    pub recently_completed: bool,
}

impl Symptom {
    /// The summary of `form` at `now`, given the text that renders the age of
    /// its latest submission (used only when the form was ever submitted).
    pub fn with_age_text(form: &Form, now: Millis, age_text: String) -> (r: Symptom)
        ensures
            r.title@ == form.title@,
            opt_string_view(r.description) == opt_string_view(form.description),
            r.id == form.id,
            r.status@ == match latest_submission(form.events@) {
                None => never_updated(),
                Some(_) => age_text@,
            },
            r.recently_completed == match latest_submission(form.events@) {
                None => false,
                Some(t) => is_recent(t as int, now as int),
            },
    {
        let latest = most_recent_submission(&form.events);
        let description = match &form.description {
            Some(d) => Some(d.clone()),
            None => None,
        };
        let (status, recent) = match latest {
            None => (String::from_str("Never updated"), false),
            Some(t) => {
                let elapsed: i128 = now as i128 - t as i128;
                (age_text, elapsed < RECENT_WINDOW_MILLIS as i128)
            },
        };
        proof {
            reveal_strlit("Never updated");
        }
        Symptom { title: form.title.clone(), description, status, id: form.id, recently_completed: recent }
    }

    /// The summary of `form` at `now`.
    pub fn of(form: &Form, now: Millis) -> (r: Symptom)
        ensures
            r.title@ == form.title@,
            opt_string_view(r.description) == opt_string_view(form.description),
            r.id == form.id,
            r.status@ == status_text(latest_submission(form.events@), now as int),
            r.recently_completed == match latest_submission(form.events@) {
                None => false,
                Some(t) => is_recent(t as int, now as int),
            },
    {
        let age_text = match most_recent_submission(&form.events) {
            None => String::new(),
            Some(t) => recency(t, now).0,
        };
        Symptom::with_age_text(form, now, age_text)
    }
}

} // verus!
