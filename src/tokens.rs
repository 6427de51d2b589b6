use vstd::prelude::*;

use crate::model::{now_millis, CoreError, Millis, RecordId};

verus! {

/// Number of characters in a minted token.
pub const TOKEN_LENGTH: usize = 10;

/// How long a minted token stays redeemable: 3 days.
pub const TOKEN_VALIDITY_MILLIS: i64 = 259_200_000;

pub open spec fn is_ascii_alphanumeric(c: char) -> bool {
    ('a' <= c && c <= 'z') || ('A' <= c && c <= 'Z') || ('0' <= c && c <= '9')
}

pub open spec fn is_token_char(c: char) -> bool {
    ('a' <= c && c <= 'z') || ('0' <= c && c <= '9')
}

/// ASCII upper-case letters become lower case; every other character stays.
pub open spec fn ascii_lower(c: char) -> char {
    if 'A' <= c && c <= 'Z' {
        ((c as u32) + 32) as char
    } else {
        c
    }
}

/// The expiry of a token created at `created_at`, saturating at the latest
/// representable instant.
pub open spec fn expiry_after(created_at: int) -> int {
    if created_at + TOKEN_VALIDITY_MILLIS > i64::MAX {
        i64::MAX as int
    } else {
        created_at + TOKEN_VALIDITY_MILLIS
    }
}

/// Relies on rand's `Alphanumeric` distribution: each sampled byte is an
/// ASCII letter or digit, and `take(len)` yields exactly `len` of them.
#[verifier::external_body]
fn random_alphanumeric(len: usize) -> (r: String)
    ensures
        r@.len() == len,
        forall|i: int| 0 <= i < r@.len() ==> is_ascii_alphanumeric(#[trigger] r@[i]),
{
    rand::Rng::sample_iter(rand::thread_rng(), &rand::distributions::Alphanumeric)
        .take(len)
        .map(char::from)
        .collect()
}

/// Relies on `str::to_ascii_lowercase`: ASCII letters are lowered, every
/// other character is kept.
#[verifier::external_body]
fn to_ascii_lowercase(s: &str) -> (r: String)
    ensures
        r@ == s@.map_values(|c: char| ascii_lower(c)),
{
    s.to_ascii_lowercase()
}

/// A single-use invitation that lets another user become the owner's caregiver.
#[derive(Clone, Debug)]
pub struct CaregiverToken {
    pub token: String,
    /// The patient who minted the token.
    pub user_id: RecordId,
    pub created_at: Millis,
    pub expired_by: Millis,
}

/// A token may be redeemed at `now` up to and including its expiry instant.
pub open spec fn is_live(t: CaregiverToken, now: int) -> bool {
    now <= t.expired_by
}

impl CaregiverToken {
    /// A token with the given text, minted by `user_id` at `created_at`.
    pub fn issued(token: String, user_id: RecordId, created_at: Millis) -> (r: CaregiverToken)
        ensures
            r.token == token,
            r.user_id == user_id,
            r.created_at == created_at,
            r.expired_by == expiry_after(created_at as int),
    {
        let expired_by = if created_at > i64::MAX - TOKEN_VALIDITY_MILLIS {
            i64::MAX
        } else {
            created_at + TOKEN_VALIDITY_MILLIS
        };
        CaregiverToken { token, user_id, created_at, expired_by }
    }

    /// A fresh random lower-case token minted now by `user_id`.
    pub fn new(user_id: RecordId) -> (r: CaregiverToken)
        ensures
            r.token@.len() == TOKEN_LENGTH,
            forall|i: int| 0 <= i < r.token@.len() ==> is_token_char(#[trigger] r.token@[i]),
            r.user_id == user_id,
            r.expired_by == expiry_after(r.created_at as int),
    {
        let raw = random_alphanumeric(TOKEN_LENGTH);
        let token = to_ascii_lowercase(raw.as_str());
        assert forall|i: int| 0 <= i < token@.len() implies is_token_char(#[trigger] token@[i]) by {
            assert(is_ascii_alphanumeric(raw@[i]));
            let c = raw@[i];
            if 'A' <= c && c <= 'Z' {
                assert((c as u32) + 32 <= 'z' as u32);
            }
        }
        CaregiverToken::issued(token, user_id, now_millis())
    }
}

/// No two tokens of `s` share their text.
pub open spec fn unique_texts(s: Seq<CaregiverToken>) -> bool {
    forall|i: int, j: int| 0 <= i < j < s.len() ==> #[trigger] s[i].token@ != #[trigger] s[j].token@
}

pub proof fn lemma_remove_unique(s: Seq<CaregiverToken>, i: int)
    requires
        unique_texts(s),
        0 <= i < s.len(),
    ensures
        unique_texts(s.remove(i)),
{
    let r = s.remove(i);
    assert forall|a: int, b: int| 0 <= a < b < r.len() implies #[trigger] r[a].token@
        != #[trigger] r[b].token@ by {
        let a2 = if a < i { a } else { a + 1 };
        let b2 = if b < i { b } else { b + 1 };
        assert(r[a] == s[a2]);
        assert(r[b] == s[b2]);
    }
}

/// Every element that a filter keeps comes from the filtered sequence.
pub proof fn lemma_filter_from<A>(s: Seq<A>, pred: spec_fn(A) -> bool)
    ensures
        forall|i: int| 0 <= i < s.filter(pred).len() ==> s.contains(#[trigger] s.filter(pred)[i]),
{
    assert forall|i: int| 0 <= i < s.filter(pred).len() implies s.contains(#[trigger] s.filter(pred)[i]) by {
        assert(s.filter(pred).contains(s.filter(pred)[i]));
        s.lemma_filter_contains_rev(pred, s.filter(pred)[i]);
    }
}

/// Filtering keeps the texts unique.
pub proof fn lemma_filter_keeps_unique(s: Seq<CaregiverToken>, pred: spec_fn(CaregiverToken) -> bool)
    requires
        unique_texts(s),
    ensures
        unique_texts(s.filter(pred)),
    decreases s.len(),
{
    reveal(Seq::filter);
    if s.len() > 0 {
        let init = s.drop_last();
        assert(unique_texts(init));
        lemma_filter_keeps_unique(init, pred);
        if pred(s.last()) {
            let f = init.filter(pred);
            lemma_filter_from(init, pred);
            let g = f.push(s.last());
            assert forall|i: int, j: int| 0 <= i < j < g.len() implies #[trigger] g[i].token@
                != #[trigger] g[j].token@ by {
                if j == g.len() - 1 {
                    assert(init.contains(f[i]));
                    let m = choose|m: int| 0 <= m < init.len() && init[m] == f[i];
                    assert(s[m] == init[m]);
                    assert(s[m].token@ != s[s.len() - 1].token@);
                }
            }
        }
    }
}

/// The patient whose caregiver `redeemer` becomes, given the token that an
/// atomic find-and-delete of the invitation returned: none means the
/// invitation is unknown, consumed or expired; one's own token is refused.
pub fn invitation_owner(redeemer: RecordId, found: Option<&CaregiverToken>) -> (r: Result<RecordId, CoreError>)
    ensures
        match found {
            None => r == Err::<RecordId, CoreError>(CoreError::NotFound),
            Some(t) => if t.user_id == redeemer {
                r == Err::<RecordId, CoreError>(CoreError::InvalidRelationship)
            } else {
                r == Ok::<RecordId, CoreError>(t.user_id)
            },
        },
{
    match found {
        None => Err(CoreError::NotFound),
        Some(t) => {
            if t.user_id == redeemer {
                Err(CoreError::InvalidRelationship)
            } else {
                Ok(t.user_id)
            }
        },
    }
}

/// The pending invitation tokens.
pub struct TokenStore {
    pub tokens: Vec<CaregiverToken>,
}

impl TokenStore {
    /// No two tokens share their text.
    pub open spec fn wf(&self) -> bool {
        unique_texts(self.tokens@)
    }

    /// Some pending token has the text `s`.
    pub open spec fn holds(&self, s: Seq<char>) -> bool {
        exists|i: int| 0 <= i < self.tokens@.len() && #[trigger] self.tokens@[i].token@ == s
    }

    /// Some pending token has the text `s` and is still live at `now`.
    pub open spec fn holds_live(&self, s: Seq<char>, now: int) -> bool {
        exists|i: int|
            0 <= i < self.tokens@.len() && #[trigger] self.tokens@[i].token@ == s && is_live(
                self.tokens@[i],
                now,
            )
    }

    /// What a redemption of `s` at `now` does: a live token with that text is
    /// removed and handed back; otherwise nothing changes.
    pub open spec fn redeem_post(
        before: TokenStore,
        after: TokenStore,
        s: Seq<char>,
        now: int,
        r: Option<CaregiverToken>,
    ) -> bool {
        match r {
            Some(t) => exists|i: int|
                0 <= i < before.tokens@.len() && #[trigger] before.tokens@[i] == t && t.token@ == s
                    && is_live(t, now) && after.tokens@ == before.tokens@.remove(i),
            None => !before.holds_live(s, now) && after.tokens@ == before.tokens@,
        }
    }

    /// Whether no two tokens share their text; for data loaded from elsewhere.
    pub fn is_wf(&self) -> (r: bool)
        ensures
            r == self.wf(),
    {
        let n = self.tokens.len();
        let mut i: usize = 0;
        while i < n
            invariant
                n == self.tokens@.len(),
                i <= n,
                forall|a: int, b: int|
                    0 <= a < b < n && a < i ==> #[trigger] self.tokens@[a].token@ != #[trigger] self.tokens@[b].token@,
            decreases n - i,
        {
            let mut j: usize = i + 1;
            while j < n
                invariant
                    n == self.tokens@.len(),
                    i < n,
                    i + 1 <= j <= n,
                    forall|b: int| i < b < j ==> self.tokens@[i as int].token@ != #[trigger] self.tokens@[b].token@,
                decreases n - j,
            {
                if self.tokens[i].token == self.tokens[j].token {
                    return false;
                }
                j = j + 1;
            }
            i = i + 1;
        }
        true
    }

    pub fn new() -> (r: TokenStore)
        ensures
            r.wf(),
            r.tokens@.len() == 0,
    {
        TokenStore { tokens: Vec::new() }
    }

    /// Position of the token with text `s`, if any.
    fn find(&self, s: &String) -> (r: Option<usize>)
        ensures
            match r {
                Some(i) => i < self.tokens@.len() && self.tokens@[i as int].token@ == s@,
                None => !self.holds(s@),
            },
    {
        let mut i: usize = 0;
        while i < self.tokens.len()
            invariant
                i <= self.tokens@.len(),
                forall|j: int| 0 <= j < i ==> #[trigger] self.tokens@[j].token@ != s@,
            decreases self.tokens@.len() - i,
        {
            if self.tokens[i].token == *s {
                return Some(i);
            }
            i = i + 1;
        }
        None
    }

    /// Stores a newly minted token; fails when one with the same text is pending.
    pub fn insert(&mut self, token: CaregiverToken) -> (r: Result<(), CoreError>)
        requires
            old(self).wf(),
        ensures
            final(self).wf(),
            match r {
                Ok(()) => !old(self).holds(token.token@) && final(self).tokens@ == old(
                    self,
                ).tokens@.push(token),
                Err(e) => e == CoreError::StorageFailure && old(self).holds(token.token@)
                    && final(self).tokens@ == old(self).tokens@,
            },
    {
        match self.find(&token.token) {
            Some(_) => Err(CoreError::StorageFailure),
            None => {
                self.tokens.push(token);
                Ok(())
            },
        }
    }

    /// Atomically finds and deletes the live token with text `s`. An unknown,
    /// consumed or expired token yields `None` and leaves the store as it was.
    pub fn redeem(&mut self, s: &String, now: Millis) -> (r: Option<CaregiverToken>)
        requires
            old(self).wf(),
        ensures
            final(self).wf(),
            Self::redeem_post(*old(self), *final(self), s@, now as int, r),
    {
        match self.find(s) {
            None => None,
            Some(i) => {
                if now <= self.tokens[i].expired_by {
                    let ghost before = self.tokens@;
                    let t = self.tokens.remove(i);
                    proof {
                        lemma_remove_unique(before, i as int);
                        assert(before[i as int] == t);
                    }
                    Some(t)
                } else {
                    proof {
                        let tk = self.tokens@;
                        assert forall|k: int| 0 <= k < tk.len() && #[trigger] tk[k].token@ == s@ implies !is_live(
                            tk[k],
                            now as int,
                        ) by {
                            if k != i {
                                if k < i {
                                    assert(tk[k].token@ != tk[i as int].token@);
                                } else {
                                    assert(tk[i as int].token@ != tk[k].token@);
                                }
                            }
                        }
                    }
                    None
                }
            },
        }
    }

    /// Deletes every token whose expiry lies before `now`; returns how many went.
    pub fn purge_expired(&mut self, now: Millis) -> (r: usize)
        requires
            old(self).wf(),
        ensures
            final(self).wf(),
            final(self).tokens@ == old(self).tokens@.filter(|t: CaregiverToken| is_live(t, now as int)),
            r == old(self).tokens@.len() - final(self).tokens@.len(),
    {
        let ghost before = self.tokens@;
        let total = self.tokens.len();
        let ghost n: int = before.len() as int;
        let ghost mut j: int = 0;
        let mut i: usize = 0;
        let mut removed: usize = 0;
        while i < self.tokens.len()
            invariant
                self.wf(),
                before == old(self).tokens@,
                n == before.len(),
                n == total,
                0 <= j <= n,
                i <= self.tokens@.len(),
                self.tokens@.subrange(0, i as int) == before.subrange(0, j).filter(
                    |t: CaregiverToken| is_live(t, now as int),
                ),
                self.tokens@.subrange(i as int, self.tokens@.len() as int) == before.subrange(j, n),
                removed == j - i,
            decreases self.tokens@.len() - i,
        {
            let ghost cur = self.tokens@;
            proof {
                assert(cur.subrange(i as int, cur.len() as int).len() > 0);
                assert(j < n);
                assert(cur[i as int] == cur.subrange(i as int, cur.len() as int)[0]);
                assert(before.subrange(j, n)[0] == before[j]);
                let tail = cur.subrange(i as int, cur.len() as int);
                assert(cur.subrange(i + 1, cur.len() as int) =~= tail.subrange(1, tail.len() as int));
                assert(before.subrange(j + 1, n) =~= before.subrange(j, n).subrange(1, n - j));
                assert(before.subrange(0, j + 1).drop_last() =~= before.subrange(0, j));
                reveal(Seq::filter);
            }
            if now <= self.tokens[i].expired_by {
                proof {
                    assert(cur.subrange(0, i + 1) =~= cur.subrange(0, i as int).push(before[j]));
                    assert(cur.subrange(i + 1, cur.len() as int) =~= before.subrange(j + 1, n));
                }
                i = i + 1;
            } else {
                let _gone = self.tokens.remove(i);
                proof {
                    let now_seq = self.tokens@;
                    assert(now_seq.subrange(0, i as int) =~= cur.subrange(0, i as int));
                    assert(now_seq.subrange(i as int, now_seq.len() as int) =~= before.subrange(j + 1, n));
                    lemma_remove_unique(cur, i as int);
                }
                removed = removed + 1;
            }
            proof {
                j = j + 1;
            }
        }
        proof {
            assert(self.tokens@.subrange(i as int, self.tokens@.len() as int).len() == 0);
            assert(j == n);
            assert(self.tokens@ =~= self.tokens@.subrange(0, i as int));
            assert(before.subrange(0, n) =~= before);
        }
        removed
    }
}

/// Single use: once a redemption of `s` has handed a token out, a later
/// redemption of the same text finds nothing.
pub proof fn token_single_use(
    before: TokenStore,
    after: TokenStore,
    again: TokenStore,
    s: Seq<char>,
    first_now: int,
    second_now: int,
    first: CaregiverToken,
    second: Option<CaregiverToken>,
)
    requires
        before.wf(),
        TokenStore::redeem_post(before, after, s, first_now, Some(first)),
        TokenStore::redeem_post(after, again, s, second_now, second),
    ensures
        second is None,
        again.tokens@ == after.tokens@,
{
    let i = choose|i: int|
        0 <= i < before.tokens@.len() && #[trigger] before.tokens@[i] == first && first.token@ == s
            && is_live(first, first_now) && after.tokens@ == before.tokens@.remove(i);
    if second is Some {
        let t = second->Some_0;
        let k = choose|k: int|
            0 <= k < after.tokens@.len() && #[trigger] after.tokens@[k] == t && t.token@ == s
                && is_live(t, second_now) && again.tokens@ == after.tokens@.remove(k);
        let k2 = if k < i { k } else { k + 1 };
        assert(after.tokens@[k] == before.tokens@[k2]);
        if k2 < i {
            assert(before.tokens@[k2].token@ != before.tokens@[i].token@);
        } else {
            assert(before.tokens@[i].token@ != before.tokens@[k2].token@);
        }
    }
}

/// Expiry: a token whose expiry instant lies before `now` is never handed out
/// at `now`, whether or not expired tokens were purged first.
pub proof fn expired_token_never_redeemed(
    before: TokenStore,
    after: TokenStore,
    s: Seq<char>,
    now: int,
    r: Option<CaregiverToken>,
    k: int,
)
    requires
        before.wf(),
        0 <= k < before.tokens@.len(),
        before.tokens@[k].token@ == s,
        before.tokens@[k].expired_by < now,
        TokenStore::redeem_post(before, after, s, now, r),
    ensures
        r is None,
        after.tokens@ == before.tokens@,
{
    if r is Some {
        let t = r->Some_0;
        let i = choose|i: int|
            0 <= i < before.tokens@.len() && #[trigger] before.tokens@[i] == t && t.token@ == s
                && is_live(t, now) && after.tokens@ == before.tokens@.remove(i);
        if i < k {
            assert(before.tokens@[i].token@ != before.tokens@[k].token@);
        } else if k < i {
            assert(before.tokens@[k].token@ != before.tokens@[i].token@);
        }
    }
}

} // verus!
