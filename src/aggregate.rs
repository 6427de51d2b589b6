//! Views that combine a user's own forms with those of the patients who
//! list the user as a caregiver.
use vstd::prelude::*;

use crate::model::{Form, Millis, RecordId};
use crate::recency::{is_recent, latest_submission, opt_string_view, status_text, Symptom};
use crate::registry::{contains_id, deref_forms, owned_by, patient_ids, Registry};

verus! {

/// The forms owned by each of `owners`, one owner after another.
pub open spec fn forms_of_all(forms: Seq<Form>, owners: Seq<RecordId>) -> Seq<Form>
    decreases owners.len(),
{
    if owners.len() == 0 {
        Seq::empty()
    } else {
        forms_of_all(forms, owners.drop_last()) + owned_by(forms, owners.last())
    }
}

/// `s` is the dashboard summary of `f` at `now`.
pub open spec fn summarizes_form(s: Symptom, f: Form, now: int) -> bool {
    &&& s.title@ == f.title@
    &&& opt_string_view(s.description) == opt_string_view(f.description)
    &&& s.id == f.id
    &&& s.status@ == status_text(latest_submission(f.events@), now)
    &&& s.recently_completed == match latest_submission(f.events@) {
        None => false,
        Some(t) => is_recent(t as int, now),
    }
}

impl Registry {
    /// `u`'s own forms, then the forms of every patient who lists `u` as a
    /// caregiver, patient after patient in storage order.
    pub open spec fn visible_forms(&self, u: RecordId) -> Seq<Form> {
        owned_by(self.forms@, u) + forms_of_all(self.forms@, patient_ids(self.users@, u))
    }

    /// Ids of the accounts that list `u` as a caregiver.
    pub fn patients_of(&self, u: RecordId) -> (r: Vec<RecordId>)
        ensures
            r@ == patient_ids(self.users@, u),
    {
        let mut out: Vec<RecordId> = Vec::new();
        let mut i: usize = 0;
        while i < self.users.len()
            invariant
                i <= self.users@.len(),
                out@ == patient_ids(self.users@.subrange(0, i as int), u),
            decreases self.users@.len() - i,
        {
            proof {
                assert(self.users@.subrange(0, i + 1).drop_last() =~= self.users@.subrange(0, i as int));
            }
            if contains_id(&self.users[i].caregivers, u) {
                out.push(self.users[i].id);
            }
            i = i + 1;
        }
        assert(self.users@.subrange(0, self.users@.len() as int) =~= self.users@);
        out
    }

    /// Every form that `u` may read: their own, and those of each patient who
    /// lists them as a caregiver.
    pub fn list_all_forms<'a>(&'a self, u: RecordId) -> (r: Vec<&'a Form>)
        ensures
            deref_forms(r@) == self.visible_forms(u),
    {
        let mut out = self.find_forms_for_user(u);
        let patients = self.patients_of(u);
        let mut i: usize = 0;
        while i < patients.len()
            invariant
                i <= patients@.len(),
                patients@ == patient_ids(self.users@, u),
                deref_forms(out@) == owned_by(self.forms@, u) + forms_of_all(
                    self.forms@,
                    patients@.subrange(0, i as int),
                ),
            decreases patients@.len() - i,
        {
            let mut more = self.find_forms_for_user(patients[i]);
            let ghost prev = out@;
            out.append(&mut more);
            proof {
                assert(patients@.subrange(0, i + 1).drop_last() =~= patients@.subrange(0, i as int));
                assert(deref_forms(out@) =~= deref_forms(prev) + owned_by(self.forms@, patients@[i as int]));
            }
            i = i + 1;
        }
        assert(patients@.subrange(0, patients@.len() as int) =~= patients@);
        out
    }

    /// The dashboard summary, at `now`, of every form that `u` may read.
    pub fn symptom_status(&self, u: RecordId, now: Millis) -> (r: Vec<Symptom>)
        ensures
            r@.len() == self.visible_forms(u).len(),
            forall|k: int| 0 <= k < r@.len() ==> summarizes_form(#[trigger] r@[k], self.visible_forms(u)[k], now as int),
    {
        let forms = self.list_all_forms(u);
        let mut out: Vec<Symptom> = Vec::new();
        let mut i: usize = 0;
        while i < forms.len()
            invariant
                i <= forms@.len(),
                deref_forms(forms@) == self.visible_forms(u),
                out@.len() == i,
                forall|k: int| 0 <= k < i ==> summarizes_form(#[trigger] out@[k], *forms@[k], now as int),
            decreases forms@.len() - i,
        {
            out.push(Symptom::of(forms[i], now));
            i = i + 1;
        }
        proof {
            assert forall|k: int| 0 <= k < out@.len() implies summarizes_form(#[trigger] out@[k], self.visible_forms(u)[k], now as int) by {
                assert(deref_forms(forms@)[k] == *forms@[k]);
            }
        }
        out
    }
}

proof fn lemma_owned_by_contains(forms: Seq<Form>, o: RecordId, f: Form)
    ensures
        owned_by(forms, o).contains(f) <==> forms.contains(f) && f.user_id == o,
{
    let pred = |g: Form| g.user_id == o;
    crate::tokens::lemma_filter_from(forms, pred);
    if owned_by(forms, o).contains(f) {
        let i = choose|i: int| 0 <= i < owned_by(forms, o).len() && owned_by(forms, o)[i] == f;
        forms.lemma_filter_pred(pred, i);
    }
    if forms.contains(f) && f.user_id == o {
        let i = choose|i: int| 0 <= i < forms.len() && forms[i] == f;
        forms.lemma_filter_contains(pred, i);
    }
}

proof fn lemma_forms_of_all_contains(forms: Seq<Form>, owners: Seq<RecordId>, f: Form)
    ensures
        forms_of_all(forms, owners).contains(f) <==> forms.contains(f) && owners.contains(f.user_id),
    decreases owners.len(),
{
    if owners.len() > 0 {
        let init = owners.drop_last();
        lemma_forms_of_all_contains(forms, init, f);
        lemma_owned_by_contains(forms, owners.last(), f);
        let a = forms_of_all(forms, init);
        let b = owned_by(forms, owners.last());
        lemma_concat_contains(a, b, f);
        if owners.contains(f.user_id) && !init.contains(f.user_id) {
            let j = choose|j: int| 0 <= j < owners.len() && owners[j] == f.user_id;
            if j < owners.len() - 1 {
                assert(init[j] == f.user_id);
            }
        }
        if init.contains(f.user_id) {
            let j = choose|j: int| 0 <= j < init.len() && init[j] == f.user_id;
            assert(owners[j] == f.user_id);
        }
        if f.user_id == owners.last() {
            assert(owners[owners.len() - 1] == f.user_id);
        }
    }
}

proof fn lemma_concat_contains(a: Seq<Form>, b: Seq<Form>, f: Form)
    ensures
        (a + b).contains(f) <==> a.contains(f) || b.contains(f),
{
    if (a + b).contains(f) {
        let i = choose|i: int| 0 <= i < (a + b).len() && (a + b)[i] == f;
        if i >= a.len() {
            assert(b[i - a.len()] == f);
        }
    }
    if a.contains(f) {
        let i = choose|i: int| 0 <= i < a.len() && a[i] == f;
        assert((a + b)[i] == f);
    }
    if b.contains(f) {
        let i = choose|i: int| 0 <= i < b.len() && b[i] == f;
        assert((a + b)[a.len() + i] == f);
    }
}

proof fn lemma_patient_ids_contains(users: Seq<crate::model::User>, u: RecordId, x: RecordId)
    ensures
        patient_ids(users, u).contains(x) <==> exists|k: int|
            0 <= k < users.len() && #[trigger] users[k].id == x && users[k].caregivers@.contains(u),
    decreases users.len(),
{
    if users.len() > 0 {
        let init = users.drop_last();
        lemma_patient_ids_contains(init, u, x);
        let rest = patient_ids(init, u);
        if exists|k: int| 0 <= k < users.len() && #[trigger] users[k].id == x && users[k].caregivers@.contains(u) {
            let k = choose|k: int| 0 <= k < users.len() && #[trigger] users[k].id == x && users[k].caregivers@.contains(u);
            if k < users.len() - 1 {
                assert(init[k].id == x);
                let j = choose|j: int| 0 <= j < rest.len() && rest[j] == x;
                if users.last().caregivers@.contains(u) {
                    assert(rest.push(users.last().id)[j] == x);
                }
            } else {
                assert(rest.push(users.last().id)[rest.len() as int] == x);
            }
        }
        if patient_ids(users, u).contains(x) {
            let j = choose|j: int| 0 <= j < patient_ids(users, u).len() && patient_ids(users, u)[j] == x;
            if j < rest.len() {
                assert(rest[j] == x);
                let k = choose|k: int| 0 <= k < init.len() && #[trigger] init[k].id == x && init[k].caregivers@.contains(u);
                assert(users[k] == init[k]);
            } else {
                assert(users[users.len() - 1].id == x);
            }
        }
    }
}

/// Aggregation scope: a form is visible to `u` exactly when it is stored and
/// is owned by `u` or by an account that lists `u` as a caregiver.
pub proof fn aggregation_scope(reg: Registry, u: RecordId, f: Form)
    ensures
        reg.visible_forms(u).contains(f) <==> reg.forms@.contains(f) && (f.user_id == u || exists|k: int|
            0 <= k < reg.users@.len() && #[trigger] reg.users@[k].id == f.user_id
                && reg.users@[k].caregivers@.contains(u)),
{
    let own = owned_by(reg.forms@, u);
    let ids = patient_ids(reg.users@, u);
    lemma_concat_contains(own, forms_of_all(reg.forms@, ids), f);
    lemma_owned_by_contains(reg.forms@, u, f);
    lemma_forms_of_all_contains(reg.forms@, ids, f);
    lemma_patient_ids_contains(reg.users@, u, f.user_id);
}

proof fn lemma_owned_by_single(f: Form, o: RecordId)
    ensures
        owned_by(seq![f], o) == if f.user_id == o {
            seq![f]
        } else {
            Seq::<Form>::empty()
        },
{
    reveal(Seq::filter);
    let s = seq![f];
    assert(s.drop_last() =~= Seq::<Form>::empty());
    assert(s.last() == f);
    assert(owned_by(Seq::<Form>::empty(), o) =~= Seq::<Form>::empty());
    assert(Seq::<Form>::empty().push(f) =~= seq![f]);
}

proof fn lemma_no_patients(users: Seq<crate::model::User>, c: RecordId)
    requires
        forall|k: int| 0 <= k < users.len() ==> !(#[trigger] users[k]).caregivers@.contains(c),
    ensures
        patient_ids(users, c) == Seq::<RecordId>::empty(),
    decreases users.len(),
{
    if users.len() > 0 {
        let init = users.drop_last();
        assert forall|k: int| 0 <= k < init.len() implies !(#[trigger] init[k]).caregivers@.contains(c) by {
            assert(init[k] == users[k]);
        }
        lemma_no_patients(init, c);
        assert(!users[users.len() - 1].caregivers@.contains(c));
    }
}

proof fn lemma_single_patient(users: Seq<crate::model::User>, c: RecordId, kp: int)
    requires
        0 <= kp < users.len(),
        forall|k: int| 0 <= k < users.len() ==> ((#[trigger] users[k]).caregivers@.contains(c) <==> k == kp),
    ensures
        patient_ids(users, c) == seq![users[kp].id],
    decreases users.len(),
{
    let init = users.drop_last();
    if kp < users.len() - 1 {
        assert forall|k: int| 0 <= k < init.len() implies ((#[trigger] init[k]).caregivers@.contains(c) <==> k == kp) by {
            assert(init[k] == users[k]);
        }
        lemma_single_patient(init, c, kp);
        assert(!users[users.len() - 1].caregivers@.contains(c));
        assert(init[kp] == users[kp]);
    } else {
        assert forall|k: int| 0 <= k < init.len() implies !(#[trigger] init[k]).caregivers@.contains(c) by {
            assert(init[k] == users[k]);
        }
        lemma_no_patients(init, c);
        assert(users[users.len() - 1].caregivers@.contains(c));
        assert(Seq::<RecordId>::empty().push(users[kp].id) =~= seq![users[kp].id]);
    }
}

/// A caregiver's dashboard: when exactly one account lists `c` as a
/// caregiver, that patient owns the only stored form `f`, and `f`'s latest
/// submission at `t1` is less than the recency window before `now`, then the
/// symptom status of `c` holds exactly one summary: that of `f`, recently
/// completed, with the rendered age of the submission as its status.
pub proof fn caregiver_sees_patient_symptom(
    reg: Registry,
    c: RecordId,
    kp: int,
    f: Form,
    t1: Millis,
    now: Millis,
    r: Seq<Symptom>,
)
    requires
        0 <= kp < reg.users@.len(),
        reg.users@[kp].id != c,
        forall|k: int| 0 <= k < reg.users@.len() ==> ((#[trigger] reg.users@[k]).caregivers@.contains(c) <==> k == kp),
        reg.forms@ == seq![f],
        f.user_id == reg.users@[kp].id,
        latest_submission(f.events@) == Some(t1),
        is_recent(t1 as int, now as int),
        r.len() == reg.visible_forms(c).len(),
        forall|k: int| 0 <= k < r.len() ==> summarizes_form(#[trigger] r[k], reg.visible_forms(c)[k], now as int),
    ensures
        r.len() == 1,
        r[0].id == f.id,
        r[0].title@ == f.title@,
        r[0].recently_completed,
        r[0].status@ == crate::recency::humanized(crate::recency::clamped_delta(t1 as int, now as int)),
{
    let p = reg.users@[kp].id;
    lemma_single_patient(reg.users@, c, kp);
    let forms = reg.forms@;
    lemma_owned_by_single(f, c);
    lemma_owned_by_single(f, p);
    let ids = seq![p];
    assert(ids.drop_last() =~= Seq::<RecordId>::empty());
    assert(ids.last() == p);
    assert(forms_of_all(forms, ids) =~= forms_of_all(forms, Seq::<RecordId>::empty()) + owned_by(forms, p));
    assert(forms_of_all(forms, ids) =~= seq![f]);
    assert(reg.visible_forms(c) =~= seq![f]);
    assert(summarizes_form(r[0], f, now as int));
}

} // verus!
