use vstd::prelude::*;

use crate::model::{CoreError, Event, Form, FormSubmitted, Millis, QuestionAndAnswer, RecordId, User, UserSummary};
use crate::tokens::{expiry_after, invitation_owner, is_live, CaregiverToken, TokenStore, TOKEN_LENGTH};

verus! {

/// The forms of `forms` owned by `owner`, in storage order.
pub open spec fn owned_by(forms: Seq<Form>, owner: RecordId) -> Seq<Form> {
    forms.filter(|f: Form| f.user_id == owner)
}

/// No identifier occurs twice in `s`.
pub open spec fn no_dup_ids(s: Seq<RecordId>) -> bool {
    forall|i: int, j: int| 0 <= i < j < s.len() ==> #[trigger] s[i] != #[trigger] s[j]
}

/// An account never lists itself, nor anyone twice, among its caregivers.
pub open spec fn account_ok(u: User) -> bool {
    !u.caregivers@.contains(u.id) && no_dup_ids(u.caregivers@)
}

/// `b` is `a` with, at most, another caregiver list.
pub open spec fn same_but_caregivers(a: User, b: User) -> bool {
    &&& a.id == b.id
    &&& a.first_name == b.first_name
    &&& a.last_name == b.last_name
    &&& a.email_address == b.email_address
    &&& a.hashed_password == b.hashed_password
    &&& a.is_patient == b.is_patient
}

/// The caregiver list `cgs` after adding `c` as a set union.
pub open spec fn linked(cgs: Seq<RecordId>, c: RecordId) -> Seq<RecordId> {
    if cgs.contains(c) {
        cgs
    } else {
        cgs.push(c)
    }
}

/// The caregiver list `cgs` after removing `c`.
pub open spec fn unlinked(cgs: Seq<RecordId>, c: RecordId) -> Seq<RecordId> {
    cgs.filter(|x: RecordId| x != c)
}

/// `after` is `before` where the account `patient` (if any) has `c` among its
/// caregivers; all else is unchanged.
pub open spec fn users_linked(before: Seq<User>, after: Seq<User>, patient: RecordId, c: RecordId) -> bool {
    &&& after.len() == before.len()
    &&& forall|k: int|
        0 <= k < before.len() ==> same_but_caregivers(#[trigger] before[k], #[trigger] after[k])
            && after[k].caregivers@ == if before[k].id == patient {
            linked(before[k].caregivers@, c)
        } else {
            before[k].caregivers@
        }
}

/// `after` is `before` where the account `patient` (if any) no longer has `c`
/// among its caregivers; all else is unchanged.
pub open spec fn users_unlinked(before: Seq<User>, after: Seq<User>, patient: RecordId, c: RecordId) -> bool {
    &&& after.len() == before.len()
    &&& forall|k: int|
        0 <= k < before.len() ==> same_but_caregivers(#[trigger] before[k], #[trigger] after[k])
            && after[k].caregivers@ == if before[k].id == patient {
            unlinked(before[k].caregivers@, c)
        } else {
            before[k].caregivers@
        }
}

/// Ids of the accounts that list `c` as a caregiver, in storage order.
pub open spec fn patient_ids(users: Seq<User>, c: RecordId) -> Seq<RecordId>
    decreases users.len(),
{
    if users.len() == 0 {
        Seq::empty()
    } else {
        let rest = patient_ids(users.drop_last(), c);
        if users.last().caregivers@.contains(c) {
            rest.push(users.last().id)
        } else {
            rest
        }
    }
}

/// The account with id `id`, if there is one.
pub open spec fn account_of(users: Seq<User>, id: RecordId) -> Option<User> {
    if exists|k: int| 0 <= k < users.len() && #[trigger] users[k].id == id {
        Some(users[choose|k: int| 0 <= k < users.len() && #[trigger] users[k].id == id])
    } else {
        None
    }
}

/// The accounts named in `ids` that exist, in the order of `ids`.
pub open spec fn accounts_named(users: Seq<User>, ids: Seq<RecordId>) -> Seq<User>
    decreases ids.len(),
{
    if ids.len() == 0 {
        Seq::empty()
    } else {
        let rest = accounts_named(users, ids.drop_last());
        match account_of(users, ids.last()) {
            Some(u) => rest.push(u),
            None => rest,
        }
    }
}

/// `s` shows `u`'s public fields.
pub open spec fn summarizes(s: UserSummary, u: User) -> bool {
    &&& s.id == u.id
    &&& s.first_name@ == u.first_name@
    &&& s.last_name@ == u.last_name@
    &&& s.email_address@ == u.email_address@
}

proof fn lemma_unlinked_absent(cgs: Seq<RecordId>, c: RecordId)
    requires
        !cgs.contains(c),
    ensures
        unlinked(cgs, c) == cgs,
    decreases cgs.len(),
{
    reveal(Seq::filter);
    if cgs.len() > 0 {
        assert(!cgs.drop_last().contains(c)) by {
            if cgs.drop_last().contains(c) {
                let j = choose|j: int| 0 <= j < cgs.drop_last().len() && cgs.drop_last()[j] == c;
                assert(cgs[j] == c);
            }
        }
        lemma_unlinked_absent(cgs.drop_last(), c);
        assert(cgs.drop_last().push(cgs.last()) =~= cgs);
    }
}

/// Whether `v` holds `c`.
pub(crate) fn contains_id(v: &Vec<RecordId>, c: RecordId) -> (r: bool)
    ensures
        r == v@.contains(c),
{
    let mut i: usize = 0;
    while i < v.len()
        invariant
            i <= v@.len(),
            forall|j: int| 0 <= j < i ==> v@[j] != c,
        decreases v@.len() - i,
    {
        if v[i] == c {
            assert(v@[i as int] == c);
            return true;
        }
        i = i + 1;
    }
    false
}

/// `v` without `c`.
fn without_id(v: &Vec<RecordId>, c: RecordId) -> (r: Vec<RecordId>)
    requires
        no_dup_ids(v@),
    ensures
        r@ == unlinked(v@, c),
        no_dup_ids(r@),
        forall|x: RecordId| r@.contains(x) ==> v@.contains(x),
        !r@.contains(c),
{
    let mut out: Vec<RecordId> = Vec::new();
    let mut i: usize = 0;
    while i < v.len()
        invariant
            i <= v@.len(),
            no_dup_ids(v@),
            out@ == unlinked(v@.subrange(0, i as int), c),
            no_dup_ids(out@),
            forall|a: int| 0 <= a < out@.len() ==> exists|b: int| 0 <= b < i && v@[b] == #[trigger] out@[a],
            !out@.contains(c),
        decreases v@.len() - i,
    {
        proof {
            assert(v@.subrange(0, i + 1).drop_last() =~= v@.subrange(0, i as int));
            reveal(Seq::filter);
        }
        let x = v[i];
        if x != c {
            proof {
                assert forall|a: int| 0 <= a < out@.len() implies #[trigger] out@[a] != x by {
                    let b = choose|b: int| 0 <= b < i && v@[b] == out@[a];
                    assert(v@[b] != v@[i as int]);
                }
            }
            out.push(x);
            proof {
                assert forall|a: int| 0 <= a < out@.len() implies exists|b: int| 0 <= b < i + 1 && v@[b] == #[trigger] out@[a] by {
                    if a == out@.len() - 1 {
                        assert(v@[i as int] == out@[a]);
                    } else {
                        let b = choose|b: int| 0 <= b < i && v@[b] == out@[a];
                        assert(v@[b] == out@[a]);
                    }
                }
            }
        }
        i = i + 1;
    }
    assert(v@.subrange(0, v@.len() as int) =~= v@);
    proof {
        assert forall|x: RecordId| out@.contains(x) implies v@.contains(x) by {
            let a = choose|a: int| 0 <= a < out@.len() && out@[a] == x;
            let b = choose|b: int| 0 <= b < v@.len() && v@[b] == #[trigger] out@[a];
        }
    }
    out
}

/// `after` is `before` where the form at `k` has one more event at the end:
/// a submission with the given answers, submitter and time.
pub open spec fn submission_appended(
    before: Seq<Form>,
    after: Seq<Form>,
    k: int,
    answers: Vec<QuestionAndAnswer>,
    submitted_by: RecordId,
    submitted_at: Millis,
) -> bool {
    let f = before[k];
    let g = after[k];
    &&& after.len() == before.len()
    &&& forall|j: int| 0 <= j < before.len() && j != k ==> #[trigger] after[j] == before[j]
    &&& g.id == f.id && g.user_id == f.user_id && g.title == f.title && g.description == f.description
    &&& g.created_by == f.created_by && g.created_at == f.created_at && g.questions == f.questions
    &&& g.events@ == f.events@.push(
        Event::FormSubmitted(FormSubmitted { answers, submitted_by, submitted_at }),
    )
}

/// The forms that `refs` point to.
pub open spec fn deref_forms(refs: Seq<&Form>) -> Seq<Form> {
    refs.map_values(|f: &Form| *f)
}

/// Everything the core keeps: accounts, forms and pending invitation tokens.
pub struct Registry {
    pub users: Vec<User>,
    pub forms: Vec<Form>,
    pub tokens: TokenStore,
}

impl Registry {
    /// Account ids are unique, every account is well formed, form ids are
    /// unique, and the token store is well formed.
    pub open spec fn wf(&self) -> bool {
        &&& self.tokens.wf()
        &&& forall|i: int, j: int|
            0 <= i < j < self.users@.len() ==> #[trigger] self.users@[i].id != #[trigger] self.users@[j].id
        &&& forall|i: int| 0 <= i < self.users@.len() ==> account_ok(#[trigger] self.users@[i])
        &&& forall|i: int, j: int|
            0 <= i < j < self.forms@.len() ==> #[trigger] self.forms@[i].id != #[trigger] self.forms@[j].id
    }

    /// Whether this registry is well formed; for data loaded from elsewhere.
    pub fn is_wf(&self) -> (r: bool)
        ensures
            r == self.wf(),
    {
        let n = self.users.len();
        let mut i: usize = 0;
        while i < n
            invariant
                n == self.users@.len(),
                i <= n,
                forall|a: int, b: int| 0 <= a < b < n && a < i ==> #[trigger] self.users@[a].id != #[trigger] self.users@[b].id,
                forall|a: int| 0 <= a < i ==> account_ok(#[trigger] self.users@[a]),
            decreases n - i,
        {
            let u = &self.users[i];
            if contains_id(&u.caregivers, u.id) {
                assert(!account_ok(self.users@[i as int]));
                return false;
            }
            let cg = &u.caregivers;
            let mut a: usize = 0;
            while a < cg.len()
                invariant
                    n == self.users@.len(),
                    i < n,
                    cg@ == self.users@[i as int].caregivers@,
                    a <= cg@.len(),
                    forall|x: int, y: int| 0 <= x < y < cg@.len() && x < a ==> #[trigger] cg@[x] != #[trigger] cg@[y],
                decreases cg@.len() - a,
            {
                let mut b: usize = a + 1;
                while b < cg.len()
                    invariant
                        n == self.users@.len(),
                        i < n,
                        cg@ == self.users@[i as int].caregivers@,
                        a < cg@.len(),
                        a + 1 <= b <= cg@.len(),
                        forall|y: int| a < y < b ==> cg@[a as int] != #[trigger] cg@[y],
                    decreases cg@.len() - b,
                {
                    if cg[a] == cg[b] {
                        assert(!no_dup_ids(cg@));
                        assert(!account_ok(self.users@[i as int]));
                        return false;
                    }
                    b = b + 1;
                }
                a = a + 1;
            }
            let mut j: usize = i + 1;
            while j < n
                invariant
                    n == self.users@.len(),
                    i < n,
                    i + 1 <= j <= n,
                    forall|b: int| i < b < j ==> self.users@[i as int].id != #[trigger] self.users@[b].id,
                decreases n - j,
            {
                if self.users[i].id == self.users[j].id {
                    return false;
                }
                j = j + 1;
            }
            i = i + 1;
        }
        let m = self.forms.len();
        let mut i: usize = 0;
        while i < m
            invariant
                m == self.forms@.len(),
                i <= m,
                forall|a: int, b: int| 0 <= a < b < m && a < i ==> #[trigger] self.forms@[a].id != #[trigger] self.forms@[b].id,
            decreases m - i,
        {
            let mut j: usize = i + 1;
            while j < m
                invariant
                    m == self.forms@.len(),
                    i < m,
                    i + 1 <= j <= m,
                    forall|b: int| i < b < j ==> self.forms@[i as int].id != #[trigger] self.forms@[b].id,
                decreases m - j,
            {
                if self.forms[i].id == self.forms[j].id {
                    return false;
                }
                j = j + 1;
            }
            i = i + 1;
        }
        self.tokens.is_wf()
    }

    /// An empty registry.
    pub fn new() -> (r: Registry)
        ensures
            r.wf(),
            r.users@.len() == 0,
            r.forms@.len() == 0,
            r.tokens.tokens@.len() == 0,
    {
        Registry { users: Vec::new(), forms: Vec::new(), tokens: TokenStore::new() }
    }

    /// Position of the account `id`.
    fn find_user_index(&self, id: RecordId) -> (r: Option<usize>)
        ensures
            match r {
                Some(k) => k < self.users@.len() && self.users@[k as int].id == id,
                None => forall|k: int| 0 <= k < self.users@.len() ==> #[trigger] self.users@[k].id != id,
            },
    {
        let mut i: usize = 0;
        while i < self.users.len()
            invariant
                i <= self.users@.len(),
                forall|k: int| 0 <= k < i ==> #[trigger] self.users@[k].id != id,
            decreases self.users@.len() - i,
        {
            if self.users[i].id == id {
                return Some(i);
            }
            i = i + 1;
        }
        None
    }

    /// Stores a newly registered account, which starts with no caregivers.
    /// Fails when the id is taken.
    pub fn register(&mut self, user: User) -> (r: Result<(), CoreError>)
        requires
            old(self).wf(),
        ensures
            final(self).wf(),
            final(self).forms@ == old(self).forms@,
            final(self).tokens == old(self).tokens,
            match r {
                Ok(()) => {
                    &&& account_of(old(self).users@, user.id) is None
                    &&& final(self).users@.len() == old(self).users@.len() + 1
                    &&& final(self).users@.drop_last() == old(self).users@
                    &&& same_but_caregivers(final(self).users@.last(), user)
                    &&& final(self).users@.last().caregivers@.len() == 0
                },
                Err(e) => {
                    &&& e == CoreError::StorageFailure
                    &&& account_of(old(self).users@, user.id) is Some
                    &&& final(self).users@ == old(self).users@
                },
            },
    {
        match self.find_user_index(user.id) {
            Some(k) => {
                assert(self.users@[k as int].id == user.id);
                Err(CoreError::StorageFailure)
            },
            None => {
                let mut user = user;
                user.caregivers = Vec::new();
                let ghost before = self.users@;
                self.users.push(user);
                assert(self.users@.drop_last() =~= before);
                Ok(())
            },
        }
    }

    /// The account `id`, if it exists.
    pub fn find_user(&self, id: RecordId) -> (r: Option<&User>)
        requires
            self.wf(),
        ensures
            match r {
                Some(u) => account_of(self.users@, id) == Some(*u),
                None => account_of(self.users@, id) is None,
            },
    {
        match self.find_user_index(id) {
            Some(k) => {
                proof {
                    let j = choose|j: int| 0 <= j < self.users@.len() && #[trigger] self.users@[j].id == id;
                    if j < k {
                        assert(self.users@[j].id != self.users@[k as int].id);
                    } else if k < j {
                        assert(self.users@[k as int].id != self.users@[j].id);
                    }
                }
                Some(&self.users[k])
            },
            None => None,
        }
    }

    /// The public summaries of the caregivers of `user`, in the order they
    /// were added; ids with no account are skipped. Fails with `NotFound`
    /// when `user` has no account.
    pub fn list_caregivers(&self, user: RecordId) -> (r: Result<Vec<UserSummary>, CoreError>)
        requires
            self.wf(),
        ensures
            match r {
                Ok(v) => match account_of(self.users@, user) {
                    Some(acct) => {
                        let named = accounts_named(self.users@, acct.caregivers@);
                        &&& v@.len() == named.len()
                        &&& forall|k: int| 0 <= k < v@.len() ==> summarizes(#[trigger] v@[k], named[k])
                    },
                    None => false,
                },
                Err(e) => e == CoreError::NotFound && account_of(self.users@, user) is None,
            },
    {
        let acct = match self.find_user(user) {
            None => {
                return Err(CoreError::NotFound);
            },
            Some(a) => a,
        };
        let ids = &acct.caregivers;
        let mut out: Vec<UserSummary> = Vec::new();
        let mut i: usize = 0;
        while i < ids.len()
            invariant
                self.wf(),
                i <= ids@.len(),
                out@.len() == accounts_named(self.users@, ids@.subrange(0, i as int)).len(),
                forall|k: int|
                    0 <= k < out@.len() ==> summarizes(
                        #[trigger] out@[k],
                        accounts_named(self.users@, ids@.subrange(0, i as int))[k],
                    ),
            decreases ids@.len() - i,
        {
            proof {
                assert(ids@.subrange(0, i + 1).drop_last() =~= ids@.subrange(0, i as int));
            }
            match self.find_user(ids[i]) {
                Some(c) => {
                    out.push(c.summary());
                },
                None => {},
            }
            i = i + 1;
        }
        assert(ids@.subrange(0, ids@.len() as int) =~= ids@);
        Ok(out)
    }

    /// Adds `c` to the caregivers of `patient` as a set union; no account
    /// `patient` means no change.
    fn link_caregiver(&mut self, patient: RecordId, c: RecordId)
        requires
            old(self).wf(),
            patient != c,
        ensures
            final(self).wf(),
            final(self).forms@ == old(self).forms@,
            final(self).tokens == old(self).tokens,
            users_linked(old(self).users@, final(self).users@, patient, c),
    {
        let ghost before = self.users@;
        match self.find_user_index(patient) {
            None => {},
            Some(k) => {
                if !contains_id(&self.users[k].caregivers, c) {
                    let mut u = self.users.remove(k);
                    u.caregivers.push(c);
                    self.users.insert(k, u);
                    proof {
                        assert(self.users@ =~= before.update(k as int, u));
                        let cg = u.caregivers@;
                        assert forall|i: int, j: int| 0 <= i < j < cg.len() implies #[trigger] cg[i] != #[trigger] cg[j] by {
                            if j == cg.len() - 1 {
                                assert(before[k as int].caregivers@[i] == cg[i]);
                            }
                        }
                    }
                }
                proof {
                    assert forall|q: int| 0 <= q < before.len() && q != k implies #[trigger] before[q].id != patient by {
                        if q < k {
                            assert(before[q].id != before[k as int].id);
                        } else {
                            assert(before[k as int].id != before[q].id);
                        }
                    }
                }
            },
        }
    }

    /// Mints a fresh invitation token for `owner` and stores it; returns its
    /// text. Fails when the random text collides with a pending token.
    pub fn mint(&mut self, owner: RecordId) -> (r: Result<String, CoreError>)
        requires
            old(self).wf(),
        ensures
            final(self).wf(),
            final(self).users@ == old(self).users@,
            final(self).forms@ == old(self).forms@,
            match r {
                Ok(text) => {
                    let t = final(self).tokens.tokens@.last();
                    &&& final(self).tokens.tokens@.len() == old(self).tokens.tokens@.len() + 1
                    &&& final(self).tokens.tokens@.drop_last() == old(self).tokens.tokens@
                    &&& t.token@ == text@
                    &&& text@.len() == TOKEN_LENGTH
                    &&& t.user_id == owner
                    &&& t.expired_by == expiry_after(t.created_at as int)
                },
                Err(e) => {
                    &&& e == CoreError::StorageFailure
                    &&& final(self).tokens.tokens@ == old(self).tokens.tokens@
                    &&& exists|i: int|
                        0 <= i < old(self).tokens.tokens@.len()
                            && #[trigger] old(self).tokens.tokens@[i].token@.len() == TOKEN_LENGTH
                },
            },
    {
        let token = CaregiverToken::new(owner);
        let text = token.token.clone();
        let ghost before = self.tokens.tokens@;
        match self.tokens.insert(token) {
            Ok(()) => {
                assert(self.tokens.tokens@.drop_last() =~= before);
                Ok(text)
            },
            Err(e) => Err(e),
        }
    }

    /// Position of the form `form_id` owned by `owner`.
    fn find_form_index(&self, owner: RecordId, form_id: RecordId) -> (r: Option<usize>)
        ensures
            match r {
                Some(k) => k < self.forms@.len() && self.forms@[k as int].id == form_id
                    && self.forms@[k as int].user_id == owner,
                None => forall|k: int|
                    0 <= k < self.forms@.len() ==> !(#[trigger] self.forms@[k].id == form_id
                        && self.forms@[k].user_id == owner),
            },
    {
        let mut i: usize = 0;
        while i < self.forms.len()
            invariant
                i <= self.forms@.len(),
                forall|k: int|
                    0 <= k < i ==> !(#[trigger] self.forms@[k].id == form_id && self.forms@[k].user_id == owner),
            decreases self.forms@.len() - i,
        {
            if self.forms[i].id == form_id && self.forms[i].user_id == owner {
                return Some(i);
            }
            i = i + 1;
        }
        None
    }

    /// Position of the form `form_id`, whoever owns it.
    fn find_form_by_id(&self, form_id: RecordId) -> (r: Option<usize>)
        ensures
            match r {
                Some(k) => k < self.forms@.len() && self.forms@[k as int].id == form_id,
                None => forall|k: int| 0 <= k < self.forms@.len() ==> #[trigger] self.forms@[k].id != form_id,
            },
    {
        let mut i: usize = 0;
        while i < self.forms.len()
            invariant
                i <= self.forms@.len(),
                forall|k: int| 0 <= k < i ==> #[trigger] self.forms@[k].id != form_id,
            decreases self.forms@.len() - i,
        {
            if self.forms[i].id == form_id {
                return Some(i);
            }
            i = i + 1;
        }
        None
    }

    /// Stores a new form; fails when its id is taken.
    pub fn create_form(&mut self, form: Form) -> (r: Result<(), CoreError>)
        requires
            old(self).wf(),
        ensures
            final(self).wf(),
            final(self).users@ == old(self).users@,
            final(self).tokens == old(self).tokens,
            match r {
                Ok(()) => {
                    &&& forall|k: int| 0 <= k < old(self).forms@.len() ==> #[trigger] old(self).forms@[k].id != form.id
                    &&& final(self).forms@ == old(self).forms@.push(form)
                },
                Err(e) => {
                    &&& e == CoreError::StorageFailure
                    &&& exists|k: int| 0 <= k < old(self).forms@.len() && #[trigger] old(self).forms@[k].id == form.id
                    &&& final(self).forms@ == old(self).forms@
                },
            },
    {
        match self.find_form_by_id(form.id) {
            Some(k) => {
                assert(self.forms@[k as int].id == form.id);
                Err(CoreError::StorageFailure)
            },
            None => {
                self.forms.push(form);
                Ok(())
            },
        }
    }

    /// The form `form_id` if `owner` owns it; a form of someone else is not
    /// told apart from a missing one.
    pub fn find_form(&self, owner: RecordId, form_id: RecordId) -> (r: Option<&Form>)
        requires
            self.wf(),
        ensures
            match r {
                Some(f) => self.forms@.contains(*f) && f.id == form_id && f.user_id == owner,
                None => forall|k: int|
                    0 <= k < self.forms@.len() ==> !(#[trigger] self.forms@[k].id == form_id
                        && self.forms@[k].user_id == owner),
            },
    {
        match self.find_form_index(owner, form_id) {
            Some(k) => Some(&self.forms[k]),
            None => None,
        }
    }

    /// `reader` may read `f`: the owner's account exists and is the reader or
    /// lists the reader as a caregiver.
    pub open spec fn may_read(&self, reader: RecordId, f: Form) -> bool {
        match account_of(self.users@, f.user_id) {
            Some(owner) => owner.id == reader || owner.caregivers@.contains(reader),
            None => false,
        }
    }

    /// The form `form_id` when `reader` may read it, or no form: one that is
    /// missing and one that may not be read are not told apart.
    pub fn readable_form(&self, reader: RecordId, form_id: RecordId) -> (r: Option<&Form>)
        requires
            self.wf(),
        ensures
            match r {
                Some(f) => self.forms@.contains(*f) && f.id == form_id && self.may_read(reader, *f),
                None => forall|k: int|
                    0 <= k < self.forms@.len() && #[trigger] self.forms@[k].id == form_id ==> !self.may_read(
                        reader,
                        self.forms@[k],
                    ),
            },
    {
        match self.find_form_by_id(form_id) {
            None => None,
            Some(k) => {
                let f = &self.forms[k];
                proof {
                    assert forall|q: int| 0 <= q < self.forms@.len() && #[trigger] self.forms@[q].id == form_id implies q == k by {
                        if q < k {
                            assert(self.forms@[q].id != self.forms@[k as int].id);
                        } else if k < q {
                            assert(self.forms@[k as int].id != self.forms@[q].id);
                        }
                    }
                }
                match self.find_user(f.user_id) {
                    None => None,
                    Some(owner) => {
                        if owner.id == reader || contains_id(&owner.caregivers, reader) {
                            Some(f)
                        } else {
                            None
                        }
                    },
                }
            },
        }
    }

    /// Appends a submission to the form `form_id` of `owner`. Fails with
    /// `BadRequest`, changing nothing, when `owner` has no such form.
    pub fn append_submission(
        &mut self,
        form_id: RecordId,
        owner: RecordId,
        answers: Vec<QuestionAndAnswer>,
        submitted_by: RecordId,
        submitted_at: Millis,
    ) -> (r: Result<(), CoreError>)
        requires
            old(self).wf(),
        ensures
            final(self).wf(),
            final(self).users@ == old(self).users@,
            final(self).tokens == old(self).tokens,
            match r {
                Ok(()) => exists|k: int|
                    0 <= k < old(self).forms@.len() && #[trigger] old(self).forms@[k].id == form_id
                        && old(self).forms@[k].user_id == owner && submission_appended(
                        old(self).forms@,
                        final(self).forms@,
                        k,
                        answers,
                        submitted_by,
                        submitted_at,
                    ),
                Err(e) => {
                    &&& e == CoreError::BadRequest
                    &&& forall|k: int|
                        0 <= k < old(self).forms@.len() ==> !(#[trigger] old(self).forms@[k].id == form_id
                            && old(self).forms@[k].user_id == owner)
                    &&& final(self).forms@ == old(self).forms@
                },
            },
    {
        match self.find_form_index(owner, form_id) {
            None => Err(CoreError::BadRequest),
            Some(k) => {
                let ghost before = self.forms@;
                let mut f = self.forms.remove(k);
                let event = Event::FormSubmitted(FormSubmitted { answers, submitted_by, submitted_at });
                f.events.push(event);
                self.forms.insert(k, f);
                proof {
                    assert(self.forms@ =~= before.update(k as int, f));
                }
                Ok(())
            },
        }
    }

    /// What redeeming the invitation `s` by `redeemer` at `now` does: expired
    /// tokens are purged; a live token with that text is consumed; when its
    /// owner is someone else, the redeemer joins the owner's caregivers.
    pub open spec fn redeem_invitation_post(
        before: Registry,
        after: Registry,
        redeemer: RecordId,
        s: Seq<char>,
        now: int,
        r: Result<(), CoreError>,
    ) -> bool {
        let purged = before.tokens.tokens@.filter(|t: CaregiverToken| is_live(t, now));
        &&& after.forms@ == before.forms@
        &&& match r {
            Err(CoreError::NotFound) => {
                &&& !before.tokens.holds_live(s, now)
                &&& after.tokens.tokens@ == purged
                &&& after.users@ == before.users@
            },
            Err(CoreError::InvalidRelationship) => exists|i: int|
                0 <= i < purged.len() && #[trigger] purged[i].token@ == s && purged[i].user_id
                    == redeemer && after.tokens.tokens@ == purged.remove(i) && after.users@
                    == before.users@,
            Ok(()) => exists|i: int|
                0 <= i < purged.len() && #[trigger] purged[i].token@ == s && purged[i].user_id
                    != redeemer && after.tokens.tokens@ == purged.remove(i) && users_linked(
                    before.users@,
                    after.users@,
                    purged[i].user_id,
                    redeemer,
                ),
            Err(_) => false,
        }
    }

    /// Redeems the invitation `s` on behalf of `redeemer` at `now`.
    ///
    /// Expired tokens are purged first. An unknown, consumed or expired token
    /// fails with `NotFound`. A token minted by the redeemer is consumed and
    /// fails with `InvalidRelationship`. Otherwise the token is consumed and
    /// the redeemer is added to its owner's caregivers (a no-op when present).
    pub fn redeem_invitation(&mut self, redeemer: RecordId, s: &String, now: Millis) -> (r: Result<
        (),
        CoreError,
    >)
        requires
            old(self).wf(),
        ensures
            final(self).wf(),
            Self::redeem_invitation_post(*old(self), *final(self), redeemer, s@, now as int, r),
    {
        let ghost before = self.tokens.tokens@;
        let _purged_count = self.tokens.purge_expired(now);
        let ghost purged = self.tokens.tokens@;
        let ghost mid = self.tokens;
        let found = self.tokens.redeem(s, now);
        let outcome = invitation_owner(redeemer, found.as_ref());
        match found {
            None => {
                proof {
                    if exists|i: int| 0 <= i < before.len() && #[trigger] before[i].token@ == s@ && is_live(before[i], now as int) {
                        let i = choose|i: int| 0 <= i < before.len() && #[trigger] before[i].token@ == s@ && is_live(before[i], now as int);
                        before.lemma_filter_contains(|t: CaregiverToken| is_live(t, now as int), i);
                        let j = choose|j: int| 0 <= j < purged.len() && purged[j] == before[i];
                        assert(purged[j].token@ == s@ && is_live(purged[j], now as int));
                        assert(mid.holds_live(s@, now as int));
                    }
                }
                Err(CoreError::NotFound)
            },
            Some(t) => {
                proof {
                    let i = choose|i: int|
                        0 <= i < purged.len() && #[trigger] purged[i] == t && t.token@ == s@
                            && is_live(t, now as int) && self.tokens.tokens@ == purged.remove(i);
                    assert(purged[i].token@ == s@);
                }
                match outcome {
                    Ok(owner) => {
                        self.link_caregiver(owner, redeemer);
                        Ok(())
                    },
                    Err(e) => Err(e),
                }
            },
        }
    }

    /// What removing `caregiver` from `patient` does: the account `patient`
    /// loses `caregiver`, and when it did not list it nothing changes at all.
    pub open spec fn remove_post(before: Registry, after: Registry, patient: RecordId, caregiver: RecordId) -> bool {
        &&& after.forms@ == before.forms@
        &&& after.tokens == before.tokens
        &&& users_unlinked(before.users@, after.users@, patient, caregiver)
        &&& (forall|k: int|
            0 <= k < before.users@.len() && #[trigger] before.users@[k].id == patient
                ==> !before.users@[k].caregivers@.contains(caregiver)) ==> after.users@ == before.users@
    }

    /// Removes `caregiver` from the caregivers of `patient`. Removing one that
    /// is not there, or from an unknown account, changes nothing.
    pub fn remove_relationship(&mut self, patient: RecordId, caregiver: RecordId)
        requires
            old(self).wf(),
        ensures
            final(self).wf(),
            Self::remove_post(*old(self), *final(self), patient, caregiver),
    {
        let ghost before = self.users@;
        match self.find_user_index(patient) {
            None => {
                proof {
                    assert forall|q: int| 0 <= q < before.len() implies #[trigger] before[q].id != patient by {}
                }
            },
            Some(k) if !contains_id(&self.users[k].caregivers, caregiver) => {
                proof {
                    let cg = before[k as int].caregivers@;
                    lemma_unlinked_absent(cg, caregiver);
                    assert forall|q: int| 0 <= q < before.len() && q != k implies #[trigger] before[q].id != patient by {
                        if q < k {
                            assert(before[q].id != before[k as int].id);
                        } else {
                            assert(before[k as int].id != before[q].id);
                        }
                    }
                }
            },
            Some(k) => {
                let kept = without_id(&self.users[k].caregivers, caregiver);
                let mut u = self.users.remove(k);
                u.caregivers = kept;
                self.users.insert(k, u);
                proof {
                    assert(self.users@ =~= before.update(k as int, u));
                    assert forall|q: int| 0 <= q < before.len() && q != k implies #[trigger] before[q].id != patient by {
                        if q < k {
                            assert(before[q].id != before[k as int].id);
                        } else {
                            assert(before[k as int].id != before[q].id);
                        }
                    }
                }
            },
        }
    }

    /// The forms owned by `owner`, in storage order.
    pub fn find_forms_for_user<'a>(&'a self, owner: RecordId) -> (r: Vec<&'a Form>)
        ensures
            deref_forms(r@) == owned_by(self.forms@, owner),
    {
        let mut out: Vec<&'a Form> = Vec::new();
        let mut i: usize = 0;
        while i < self.forms.len()
            invariant
                i <= self.forms@.len(),
                out@.len() == owned_by(self.forms@.subrange(0, i as int), owner).len(),
                forall|k: int| 0 <= k < out@.len() ==> *out@[k] == owned_by(self.forms@.subrange(0, i as int), owner)[k],
            decreases self.forms@.len() - i,
        {
            proof {
                assert(self.forms@.subrange(0, i + 1).drop_last() =~= self.forms@.subrange(0, i as int));
                reveal(Seq::filter);
            }
            let f = &self.forms[i];
            if f.user_id == owner {
                out.push(f);
            }
            i = i + 1;
        }
        assert(self.forms@.subrange(0, self.forms@.len() as int) =~= self.forms@);
        assert(deref_forms(out@) =~= owned_by(self.forms@, owner));
        out
    }
}

} // verus!
