//! A user's submission history: every submission of their own forms,
//! newest first.
use vstd::prelude::*;

use crate::model::{Event, Form, FormSubmitted, Millis, RecordId};
use crate::registry::{deref_forms, owned_by, Registry};

verus! {

/// A submission joined with the form it was made on.
#[derive(Clone, Copy, Debug)]
pub struct FormSubmittedWithForm<'a> {
    pub form: &'a Form,
    pub submission: &'a FormSubmitted,
}

impl<'a> FormSubmittedWithForm<'a> {
    pub open spec fn view(&self) -> (Form, FormSubmitted) {
        (*self.form, *self.submission)
    }

    pub fn submitted_at(&self) -> (r: Millis)
        ensures
            r == self.submission.submitted_at,
    {
        self.submission.submitted_at
    }
}

/// The submissions among `events`, in log order.
pub open spec fn submissions_in(events: Seq<Event>) -> Seq<FormSubmitted>
    decreases events.len(),
{
    if events.len() == 0 {
        Seq::empty()
    } else {
        let rest = submissions_in(events.drop_last());
        match events.last() {
            Event::FormSubmitted(s) => rest.push(s),
            Event::QuestionEdited(_) => rest,
        }
    }
}

/// Every submission of `forms`, each joined with its form, form after form.
pub open spec fn joined_submissions(forms: Seq<Form>) -> Seq<(Form, FormSubmitted)>
    decreases forms.len(),
{
    if forms.len() == 0 {
        Seq::empty()
    } else {
        let f = forms.last();
        joined_submissions(forms.drop_last()) + submissions_in(f.events@).map_values(
            |s: FormSubmitted| (f, s),
        )
    }
}

pub open spec fn views(s: Seq<FormSubmittedWithForm>) -> Seq<(Form, FormSubmitted)> {
    s.map_values(|e: FormSubmittedWithForm| e@)
}

/// Newest first: no entry is followed by a newer one.
pub open spec fn newest_first(s: Seq<FormSubmittedWithForm>) -> bool {
    forall|i: int, j: int|
        0 <= i < j < s.len() ==> #[trigger] s[i].submission.submitted_at >= #[trigger] s[j].submission.submitted_at
}

/// Joins each submission of `form` with it, in log order.
fn submissions_of<'a>(form: &'a Form) -> (r: Vec<FormSubmittedWithForm<'a>>)
    ensures
        views(r@) == submissions_in(form.events@).map_values(|s: FormSubmitted| (*form, s)),
{
    let mut out: Vec<FormSubmittedWithForm<'a>> = Vec::new();
    let mut i: usize = 0;
    while i < form.events.len()
        invariant
            i <= form.events@.len(),
            views(out@) == submissions_in(form.events@.subrange(0, i as int)).map_values(
                |s: FormSubmitted| (*form, s),
            ),
        decreases form.events@.len() - i,
    {
        proof {
            assert(form.events@.subrange(0, i + 1).drop_last() =~= form.events@.subrange(0, i as int));
        }
        let ghost prev = out@;
        match &form.events[i] {
            Event::FormSubmitted(s) => {
                out.push(FormSubmittedWithForm { form, submission: s });
                proof {
                    let sub = submissions_in(form.events@.subrange(0, i as int));
                    let f = |x: FormSubmitted| (*form, x);
                    assert(views(out@) =~= views(prev).push((*form, *s)));
                    assert(sub.push(*s).map_values(f) =~= sub.map_values(f).push(f(*s)));
                }
            },
            Event::QuestionEdited(_) => {},
        }
        i = i + 1;
    }
    assert(form.events@.subrange(0, form.events@.len() as int) =~= form.events@);
    out
}

/// Orders `entries` newest first; entries with equal times may come in
/// either order.
pub fn sort_newest_first<'a>(entries: Vec<FormSubmittedWithForm<'a>>) -> (r: Vec<FormSubmittedWithForm<'a>>)
    ensures
        views(r@).to_multiset() == views(entries@).to_multiset(),
        newest_first(r@),
{
    broadcast use vstd::seq_lib::to_multiset_build, vstd::seq_lib::to_multiset_insert;

    let mut out: Vec<FormSubmittedWithForm<'a>> = Vec::new();
    let mut i: usize = 0;
    assert(views(out@) =~= views(entries@.subrange(0, 0)));
    while i < entries.len()
        invariant
            i <= entries@.len(),
            views(out@).to_multiset() == views(entries@.subrange(0, i as int)).to_multiset(),
            newest_first(out@),
        decreases entries@.len() - i,
    {
        let x = entries[i];
        let at = x.submission.submitted_at;
        let mut p: usize = 0;
        while p < out.len() && out[p].submission.submitted_at >= at
            invariant
                p <= out@.len(),
                forall|k: int| 0 <= k < p ==> #[trigger] out@[k].submission.submitted_at >= at,
            decreases out@.len() - p,
        {
            p = p + 1;
        }
        let ghost prev = out@;
        out.insert(p, x);
        proof {
            assert(views(out@) =~= views(prev).insert(p as int, x@));
            assert(views(entries@.subrange(0, i + 1)) =~= views(entries@.subrange(0, i as int)).push(x@));
            vstd::seq_lib::to_multiset_insert(views(prev), p as int, x@);
            vstd::seq_lib::to_multiset_build(views(entries@.subrange(0, i as int)), x@);
            assert forall|a: int, b: int| 0 <= a < b < out@.len() implies #[trigger] out@[a].submission.submitted_at
                >= #[trigger] out@[b].submission.submitted_at by {
                if p < prev.len() {
                    assert(prev[p as int].submission.submitted_at < at);
                }
                if a < p && b == p {
                } else if a == p && b > p {
                    assert(out@[b] == prev[b - 1]);
                    if b - 1 > p {
                        assert(prev[p as int].submission.submitted_at >= prev[b - 1].submission.submitted_at);
                    }
                } else if b < p {
                } else if a < p {
                    assert(out@[b] == prev[b - 1]);
                } else {
                    assert(out@[a] == prev[a - 1]);
                    assert(out@[b] == prev[b - 1]);
                }
            }
        }
        i = i + 1;
    }
    assert(entries@.subrange(0, entries@.len() as int) =~= entries@);
    out
}

impl Registry {
    /// Every submission of `u`'s own forms, joined with its form, newest
    /// first. Submissions of the forms of `u`'s patients are not included.
    pub fn submission_history<'a>(&'a self, u: RecordId) -> (r: Vec<FormSubmittedWithForm<'a>>)
        ensures
            views(r@).to_multiset() == joined_submissions(owned_by(self.forms@, u)).to_multiset(),
            newest_first(r@),
    {
        let forms = self.find_forms_for_user(u);
        let mut all: Vec<FormSubmittedWithForm<'a>> = Vec::new();
        let mut i: usize = 0;
        while i < forms.len()
            invariant
                i <= forms@.len(),
                deref_forms(forms@) == owned_by(self.forms@, u),
                views(all@) == joined_submissions(deref_forms(forms@).subrange(0, i as int)),
            decreases forms@.len() - i,
        {
            let mut more = submissions_of(forms[i]);
            let ghost prev = all@;
            let ghost added = more@;
            all.append(&mut more);
            proof {
                let fs = deref_forms(forms@);
                assert(fs.subrange(0, i + 1).drop_last() =~= fs.subrange(0, i as int));
                assert(fs.subrange(0, i + 1).last() == *forms@[i as int]);
                assert(views(all@) =~= views(prev) + views(added));
            }
            i = i + 1;
        }
        assert(deref_forms(forms@).subrange(0, forms@.len() as int) =~= deref_forms(forms@));
        sort_newest_first(all)
    }
}

} // verus!
