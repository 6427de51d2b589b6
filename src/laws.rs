//! Properties that relate several operations of the registry.
use vstd::prelude::*;

use crate::model::{CoreError, RecordId};
use crate::registry::{linked, no_dup_ids, users_linked, Registry};
use crate::tokens::{is_live, lemma_filter_from, lemma_filter_keeps_unique, unique_texts, CaregiverToken};

verus! {

/// Of tokens with unique texts, the one that shares `x`'s text is `x`.
proof fn lemma_same_text_same_token(ts: Seq<CaregiverToken>, x: CaregiverToken, k: int)
    requires
        unique_texts(ts),
        ts.contains(x),
        0 <= k < ts.len(),
        ts[k].token@ == x.token@,
    ensures
        x == ts[k],
{
    let m = choose|m: int| 0 <= m < ts.len() && ts[m] == x;
    if m < k {
        assert(ts[m].token@ != ts[k].token@);
    } else if k < m {
        assert(ts[k].token@ != ts[m].token@);
    }
}

/// Removing the token at `i` leaves no token with its text.
proof fn lemma_removed_text_gone(ts: Seq<CaregiverToken>, i: int)
    requires
        unique_texts(ts),
        0 <= i < ts.len(),
    ensures
        forall|j: int| 0 <= j < ts.remove(i).len() ==> #[trigger] ts.remove(i)[j].token@ != ts[i].token@,
{
    assert forall|j: int| 0 <= j < ts.remove(i).len() implies #[trigger] ts.remove(i)[j].token@ != ts[i].token@ by {
        if j < i {
            assert(ts.remove(i)[j] == ts[j]);
        } else {
            assert(ts.remove(i)[j] == ts[j + 1]);
        }
    }
}

/// Every token left after removing the one at `i` was there before.
proof fn lemma_removed_from(ts: Seq<CaregiverToken>, i: int)
    requires
        0 <= i < ts.len(),
    ensures
        forall|j: int| 0 <= j < ts.remove(i).len() ==> ts.contains(#[trigger] ts.remove(i)[j]),
{
    assert forall|j: int| 0 <= j < ts.remove(i).len() implies ts.contains(#[trigger] ts.remove(i)[j]) by {
        if j < i {
            assert(ts.remove(i)[j] == ts[j]);
        } else {
            assert(ts.remove(i)[j] == ts[j + 1]);
        }
    }
}

/// Self-link rejection: a user who redeems a live invitation of their own
/// gets `InvalidRelationship`; the token is consumed all the same and the
/// accounts are unchanged.
pub proof fn self_link_rejected(
    before: Registry,
    after: Registry,
    u: RecordId,
    s: Seq<char>,
    now: int,
    r: Result<(), CoreError>,
    k: int,
)
    requires
        before.wf(),
        0 <= k < before.tokens.tokens@.len(),
        before.tokens.tokens@[k].token@ == s,
        before.tokens.tokens@[k].user_id == u,
        is_live(before.tokens.tokens@[k], now),
        Registry::redeem_invitation_post(before, after, u, s, now, r),
    ensures
        r == Err::<(), CoreError>(CoreError::InvalidRelationship),
        !after.tokens.holds(s),
        after.users@ == before.users@,
{
    let ts = before.tokens.tokens@;
    let pred = |t: CaregiverToken| is_live(t, now);
    let purged = ts.filter(pred);
    lemma_filter_from(ts, pred);
    lemma_filter_keeps_unique(ts, pred);
    match r {
        Err(CoreError::NotFound) => {
            assert(before.tokens.holds_live(s, now));
        },
        Ok(()) => {
            let i = choose|i: int|
                0 <= i < purged.len() && #[trigger] purged[i].token@ == s && purged[i].user_id != u
                    && after.tokens.tokens@ == purged.remove(i) && users_linked(
                    before.users@,
                    after.users@,
                    purged[i].user_id,
                    u,
                );
            lemma_same_text_same_token(ts, purged[i], k);
        },
        Err(CoreError::InvalidRelationship) => {
            let i = choose|i: int|
                0 <= i < purged.len() && #[trigger] purged[i].token@ == s && purged[i].user_id == u
                    && after.tokens.tokens@ == purged.remove(i) && after.users@ == before.users@;
            lemma_removed_text_gone(purged, i);
        },
        Err(_) => {},
    }
}

/// Idempotent add: two successful redemptions of invitations minted by the
/// same patient, by the same caregiver, leave the caregiver listed exactly
/// once, with the same effect on the accounts as a single redemption.
pub proof fn relationship_add_idempotent(
    before: Registry,
    mid: Registry,
    after: Registry,
    c: RecordId,
    p: RecordId,
    s1: Seq<char>,
    s2: Seq<char>,
    now1: int,
    now2: int,
    k1: int,
    k2: int,
)
    requires
        before.wf(),
        after.wf(),
        0 <= k1 < before.tokens.tokens@.len(),
        0 <= k2 < before.tokens.tokens@.len(),
        before.tokens.tokens@[k1].token@ == s1,
        before.tokens.tokens@[k2].token@ == s2,
        before.tokens.tokens@[k1].user_id == p,
        before.tokens.tokens@[k2].user_id == p,
        Registry::redeem_invitation_post(before, mid, c, s1, now1, Ok(())),
        Registry::redeem_invitation_post(mid, after, c, s2, now2, Ok(())),
    ensures
        users_linked(before.users@, after.users@, p, c),
        forall|q: int|
            0 <= q < after.users@.len() && #[trigger] after.users@[q].id == p ==> after.users@[q].caregivers@.contains(c)
                && no_dup_ids(after.users@[q].caregivers@),
{
    let ts = before.tokens.tokens@;
    let pred1 = |t: CaregiverToken| is_live(t, now1);
    let purged1 = ts.filter(pred1);
    lemma_filter_from(ts, pred1);
    let i1 = choose|i: int|
        0 <= i < purged1.len() && #[trigger] purged1[i].token@ == s1 && purged1[i].user_id != c
            && mid.tokens.tokens@ == purged1.remove(i) && users_linked(
            before.users@,
            mid.users@,
            purged1[i].user_id,
            c,
        );
    lemma_same_text_same_token(ts, purged1[i1], k1);

    let ms = mid.tokens.tokens@;
    let pred2 = |t: CaregiverToken| is_live(t, now2);
    let purged2 = ms.filter(pred2);
    lemma_filter_from(ms, pred2);
    lemma_removed_from(purged1, i1);
    let i2 = choose|i: int|
        0 <= i < purged2.len() && #[trigger] purged2[i].token@ == s2 && purged2[i].user_id != c
            && after.tokens.tokens@ == purged2.remove(i) && users_linked(
            mid.users@,
            after.users@,
            purged2[i].user_id,
            c,
        );
    let x = purged2[i2];
    assert(ms.contains(x));
    let a = choose|a: int| 0 <= a < ms.len() && ms[a] == x;
    assert(purged1.contains(x));
    lemma_same_text_same_token(ts, x, k2);

    assert forall|q: int| 0 <= q < before.users@.len() implies same_but_after(before, after, q, p, c) by {
        let b = before.users@[q].caregivers@;
        let bu = before.users@[q];
        let mu = mid.users@[q];
        let au = after.users@[q];
        assert(crate::registry::same_but_caregivers(bu, mu));
        assert(crate::registry::same_but_caregivers(mu, au));
        if before.users@[q].id == p {
            if !b.contains(c) {
                assert(b.push(c)[b.len() as int] == c);
            }
        }
    }
    assert(users_linked(before.users@, after.users@, p, c)) by {
        assert forall|k: int| 0 <= k < before.users@.len() implies crate::registry::same_but_caregivers(
            #[trigger] before.users@[k],
            #[trigger] after.users@[k],
        ) && after.users@[k].caregivers@ == if before.users@[k].id == p {
            linked(before.users@[k].caregivers@, c)
        } else {
            before.users@[k].caregivers@
        } by {
            assert(same_but_after(before, after, k, p, c));
        }
    }
    assert forall|q: int| 0 <= q < after.users@.len() && #[trigger] after.users@[q].id == p implies after.users@[q].caregivers@.contains(c)
        && no_dup_ids(after.users@[q].caregivers@) by {
        assert(same_but_after(before, after, q, p, c));
        assert(crate::registry::same_but_caregivers(before.users@[q], after.users@[q]));
        let b = before.users@[q].caregivers@;
        if !b.contains(c) {
            assert(b.push(c)[b.len() as int] == c);
        }
        assert(crate::registry::account_ok(after.users@[q]));
    }
}

spec fn same_but_after(before: Registry, after: Registry, q: int, p: RecordId, c: RecordId) -> bool {
    &&& crate::registry::same_but_caregivers(before.users@[q], after.users@[q])
    &&& after.users@[q].caregivers@ == if before.users@[q].id == p {
        linked(before.users@[q].caregivers@, c)
    } else {
        before.users@[q].caregivers@
    }
}

/// Idempotent removal: removing a caregiver that the patient does not list
/// changes nothing.
pub proof fn removal_idempotent(before: Registry, after: Registry, p: RecordId, c: RecordId)
    requires
        Registry::remove_post(before, after, p, c),
        forall|k: int|
            0 <= k < before.users@.len() && #[trigger] before.users@[k].id == p
                ==> !before.users@[k].caregivers@.contains(c),
    ensures
        after.users@ == before.users@,
        after.forms@ == before.forms@,
        after.tokens == before.tokens,
{
}

/// The tokens that a redemption leaves were all there before it.
proof fn lemma_redeem_leaves_subset(
    before: Registry,
    after: Registry,
    u: RecordId,
    s: Seq<char>,
    now: int,
    r: Result<(), CoreError>,
)
    requires
        before.wf(),
        Registry::redeem_invitation_post(before, after, u, s, now, r),
    ensures
        unique_texts(after.tokens.tokens@),
        forall|j: int| 0 <= j < after.tokens.tokens@.len() ==> before.tokens.tokens@.contains(#[trigger] after.tokens.tokens@[j]),
        r is Ok || r == Err::<(), CoreError>(CoreError::InvalidRelationship) ==> !after.tokens.holds(s),
{
    let ts = before.tokens.tokens@;
    let pred = |t: CaregiverToken| is_live(t, now);
    let purged = ts.filter(pred);
    lemma_filter_from(ts, pred);
    lemma_filter_keeps_unique(ts, pred);
    match r {
        Err(CoreError::NotFound) => {},
        Err(CoreError::InvalidRelationship) => {
            let i = choose|i: int|
                0 <= i < purged.len() && #[trigger] purged[i].token@ == s && purged[i].user_id == u
                    && after.tokens.tokens@ == purged.remove(i) && after.users@ == before.users@;
            lemma_removed_text_gone(purged, i);
            lemma_removed_from(purged, i);
            crate::tokens::lemma_remove_unique(purged, i);
        },
        Ok(()) => {
            let i = choose|i: int|
                0 <= i < purged.len() && #[trigger] purged[i].token@ == s && purged[i].user_id != u
                    && after.tokens.tokens@ == purged.remove(i) && users_linked(
                    before.users@,
                    after.users@,
                    purged[i].user_id,
                    u,
                );
            lemma_removed_text_gone(purged, i);
            lemma_removed_from(purged, i);
            crate::tokens::lemma_remove_unique(purged, i);
        },
        Err(_) => {},
    }
}

/// Single use, through the relationship API: once an invitation has been
/// redeemed (linking the redeemer, or refused as a self-link), any later
/// redemption of the same text fails with `NotFound`.
pub proof fn invitation_single_use(
    before: Registry,
    mid: Registry,
    after: Registry,
    u1: RecordId,
    u2: RecordId,
    s: Seq<char>,
    now1: int,
    now2: int,
    r1: Result<(), CoreError>,
    r2: Result<(), CoreError>,
)
    requires
        before.wf(),
        r1 is Ok || r1 == Err::<(), CoreError>(CoreError::InvalidRelationship),
        Registry::redeem_invitation_post(before, mid, u1, s, now1, r1),
        Registry::redeem_invitation_post(mid, after, u2, s, now2, r2),
    ensures
        r2 == Err::<(), CoreError>(CoreError::NotFound),
{
    lemma_redeem_leaves_subset(before, mid, u1, s, now1, r1);
    let ms = mid.tokens.tokens@;
    let pred = |t: CaregiverToken| is_live(t, now2);
    let purged = ms.filter(pred);
    lemma_filter_from(ms, pred);
    match r2 {
        Err(CoreError::NotFound) => {},
        Err(CoreError::InvalidRelationship) => {
            let i = choose|i: int|
                0 <= i < purged.len() && #[trigger] purged[i].token@ == s && purged[i].user_id == u2
                    && after.tokens.tokens@ == purged.remove(i) && after.users@ == mid.users@;
            assert(ms.contains(purged[i]));
            let j = choose|j: int| 0 <= j < ms.len() && ms[j] == purged[i];
            assert(ms[j].token@ == s);
        },
        Ok(()) => {
            let i = choose|i: int|
                0 <= i < purged.len() && #[trigger] purged[i].token@ == s && purged[i].user_id != u2
                    && after.tokens.tokens@ == purged.remove(i) && users_linked(
                    mid.users@,
                    after.users@,
                    purged[i].user_id,
                    u2,
                );
            assert(ms.contains(purged[i]));
            let j = choose|j: int| 0 <= j < ms.len() && ms[j] == purged[i];
            assert(ms[j].token@ == s);
        },
        Err(_) => {},
    }
}

/// Expiry, through the relationship API: redeeming an invitation after its
/// expiry instant fails with `NotFound` and links no one.
pub proof fn expired_invitation_not_found(
    before: Registry,
    after: Registry,
    u: RecordId,
    s: Seq<char>,
    now: int,
    r: Result<(), CoreError>,
    k: int,
)
    requires
        before.wf(),
        0 <= k < before.tokens.tokens@.len(),
        before.tokens.tokens@[k].token@ == s,
        before.tokens.tokens@[k].expired_by < now,
        Registry::redeem_invitation_post(before, after, u, s, now, r),
    ensures
        r == Err::<(), CoreError>(CoreError::NotFound),
        after.users@ == before.users@,
{
    let ts = before.tokens.tokens@;
    let pred = |t: CaregiverToken| is_live(t, now);
    let purged = ts.filter(pred);
    lemma_filter_from(ts, pred);
    match r {
        Err(CoreError::NotFound) => {},
        Err(CoreError::InvalidRelationship) => {
            let i = choose|i: int|
                0 <= i < purged.len() && #[trigger] purged[i].token@ == s && purged[i].user_id == u
                    && after.tokens.tokens@ == purged.remove(i) && after.users@ == before.users@;
            ts.lemma_filter_pred(pred, i);
            lemma_same_text_same_token(ts, purged[i], k);
        },
        Ok(()) => {
            let i = choose|i: int|
                0 <= i < purged.len() && #[trigger] purged[i].token@ == s && purged[i].user_id != u
                    && after.tokens.tokens@ == purged.remove(i) && users_linked(
                    before.users@,
                    after.users@,
                    purged[i].user_id,
                    u,
                );
            ts.lemma_filter_pred(pred, i);
            lemma_same_text_same_token(ts, purged[i], k);
        },
        Err(_) => {},
    }
}

} // verus!
