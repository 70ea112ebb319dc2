//! Properties that hold across the operations of the library.
use vstd::prelude::*;

use crate::agreements::{
    accept_fold, blake2_256_digest, calls_for_answer, entry_bytes, law_entry_round_trip,
    stored_entry,
};
use crate::inflation::{
    era_portion, lemma_perbill_of_bounded, maximum_payout, perbill_of, staker_payout, validator_share,
    MILLISECONDS_PER_YEAR, PERBILL_ONE,
};
use crate::session::{
    finalized_agreements, queue_changed, registered_only, response_status, rotated,
    rotation_candidates, status_of, AgreementId, AgreementState, AgreementStatus, GuardianId,
    Pallet, PeerId, PeriodicSessions, ShouldEndSession, responses_of,
};
use crate::ids::IdMap;

verus! {

/// The validators' and the guardians' payouts add up to the stakers' payout of the era,
/// and the validators never get less than the guardians minus one.
pub proof fn law_payout_split(yearly_value: int, era_duration: int)
    requires
        yearly_value >= 0,
        era_duration >= 0,
    ensures
        ({
            let p = staker_payout(yearly_value, era_duration);
            &&& validator_share(p) + (p - validator_share(p)) == p
            &&& 0 <= validator_share(p) <= p
            &&& p - validator_share(p) <= validator_share(p) + 1
        }),
{
    let p = staker_payout(yearly_value, era_duration);
    lemma_rational_parts_in_unit(era_duration);
    lemma_perbill_of_bounded(era_portion(era_duration), yearly_value);
    assert(0 <= p * 2 / 3 <= p && p - p * 2 / 3 <= p * 2 / 3 + 1) by (nonlinear_arith)
        requires
            p >= 0,
    ;
}

/// An era never pays out more than its maximum share of a year's value: the maximum payout
/// is at most the total issuance, and the stakers' payout at most the curve's value.
pub proof fn law_payout_bounded(maximum_parts: int, total_tokens: int, yearly_value: int, era_duration: int)
    requires
        0 <= maximum_parts <= PERBILL_ONE,
        total_tokens >= 0,
        yearly_value >= 0,
        era_duration >= 0,
    ensures
        0 <= maximum_payout(maximum_parts, total_tokens, era_duration) <= total_tokens,
        0 <= staker_payout(yearly_value, era_duration) <= yearly_value,
{
    lemma_rational_parts_in_unit(era_duration);
    lemma_perbill_of_bounded(maximum_parts, total_tokens);
    lemma_perbill_of_bounded(era_portion(era_duration), perbill_of(maximum_parts, total_tokens));
    lemma_perbill_of_bounded(era_portion(era_duration), yearly_value);
}

/// An era that lasts a year or more pays out a whole year's value.
pub proof fn law_year_long_era(yearly_value: int, era_duration: int)
    requires
        yearly_value >= 0,
        era_duration >= MILLISECONDS_PER_YEAR,
    ensures
        staker_payout(yearly_value, era_duration) == yearly_value,
{
    let d = PERBILL_ONE as int;
    assert(era_portion(era_duration) == d) by (nonlinear_arith)
        requires
            era_duration >= MILLISECONDS_PER_YEAR,
            era_portion(era_duration) == (if era_duration > MILLISECONDS_PER_YEAR {
                d
            } else {
                d * era_duration / (MILLISECONDS_PER_YEAR as int)
            }),
    ;
    assert(yearly_value * d / d == yearly_value && (yearly_value * d) % d == 0) by (nonlinear_arith)
        requires
            d > 0,
    ;
}

proof fn lemma_rational_parts_in_unit(era_duration: int)
    requires
        era_duration >= 0,
    ensures
        0 <= era_portion(era_duration) <= PERBILL_ONE,
{
    let d = PERBILL_ONE as int;
    let y = MILLISECONDS_PER_YEAR as int;
    if era_duration <= y {
        assert(0 <= d * era_duration / y <= d) by (nonlinear_arith)
            requires
                0 <= era_duration <= y,
                y > 0,
                d > 0,
        ;
    }
}


/// Keeping every candidate keeps the candidates as they are.
proof fn lemma_all_registered(candidates: Seq<GuardianId>, registered: Seq<bool>)
    requires
        registered.len() == candidates.len(),
        forall|i: int| 0 <= i < registered.len() ==> registered[i],
    ensures
        registered_only(candidates, registered) == candidates,
    decreases candidates.len(),
{
    if candidates.len() > 0 {
        lemma_all_registered(candidates.drop_last(), registered.drop_last());
        assert(candidates.drop_last().push(candidates.last()) =~= candidates);
    }
}

/// Each kept guardian is a candidate whose registration flag is set.
proof fn lemma_kept_are_registered(candidates: Seq<GuardianId>, registered: Seq<bool>, i: int)
    requires
        registered.len() == candidates.len(),
        0 <= i < registered_only(candidates, registered).len(),
    ensures
        exists|j: int|
            0 <= j < candidates.len() && candidates[j] == registered_only(candidates, registered)[i]
                && registered[j],
    decreases candidates.len(),
{
    let rest = registered_only(candidates.drop_last(), registered.drop_last());
    if i < rest.len() {
        lemma_kept_are_registered(candidates.drop_last(), registered.drop_last(), i);
        let j = choose|j: int|
            0 <= j < candidates.drop_last().len() && candidates.drop_last()[j] == rest[i]
                && registered.drop_last()[j];
        assert(candidates[j] == registered_only(candidates, registered)[i] && registered[j]);
    } else {
        let j = candidates.len() - 1;
        assert(candidates[j] == registered_only(candidates, registered)[i] && registered[j]);
    }
}

/// A guardian set takes effect one session after it was queued: when the session manager
/// proposes a set whose guardians are all registered, that set is the current one after the
/// following rotation.
pub proof fn law_proposed_set_current_after_next_rotation(
    a: Pallet,
    b: Pallet,
    c: Pallet,
    proposed: Seq<GuardianId>,
    registered: Seq<bool>,
    planned_next: Option<Seq<GuardianId>>,
    registered_next: Seq<bool>,
)
    requires
        registered.len() == proposed.len(),
        forall|i: int| 0 <= i < registered.len() ==> registered[i],
        rotated(a, b, Some(proposed), registered),
        rotated(b, c, planned_next, registered_next),
    ensures
        b.next_guardians@ == proposed,
        c.guardians@ == proposed,
        c.current_index == a.current_index + 2,
{
    lemma_all_registered(proposed, registered);
}

/// Only registered guardians are queued: each queued guardian is a candidate whose
/// registration was confirmed.
pub proof fn law_only_registered_queued(
    a: Pallet,
    b: Pallet,
    planned: Option<Seq<GuardianId>>,
    registered: Seq<bool>,
    i: int,
)
    requires
        registered.len() == rotation_candidates(planned, a.next_guardians@).len(),
        rotated(a, b, planned, registered),
        0 <= i < b.next_guardians@.len(),
    ensures
        exists|j: int|
            0 <= j < rotation_candidates(planned, a.next_guardians@).len()
                && #[trigger] rotation_candidates(planned, a.next_guardians@)[j] == b.next_guardians@[i]
                && registered[j],
{
    lemma_kept_are_registered(rotation_candidates(planned, a.next_guardians@), registered, i);
}

/// After a rotation the queue counts as changed exactly when the session manager proposed a
/// set, even one with the same members as the set queued before, whose economic weights may
/// have changed; the default-groups marker tells, of a proposed set, that its members are
/// those queued before. Proposing the queued set again, all registered, sets both.
pub proof fn law_queue_markers(a: Pallet, b: Pallet, planned: Option<Seq<GuardianId>>, registered: Seq<bool>)
    requires
        rotated(a, b, planned, registered),
        registered.len() == rotation_candidates(planned, a.next_guardians@).len(),
    ensures
        b.queued_changed == (planned is Some),
        b.default_groups_marker ==> b.queued_changed,
        b.default_groups_marker ==> b.next_guardians@.len() == a.next_guardians@.len()
            && forall|i: int| 0 <= i < b.next_guardians@.len() ==> a.next_guardians@.contains(#[trigger] b.next_guardians@[i]),
        planned == Some(a.next_guardians@) && (forall|i: int| 0 <= i < registered.len() ==> registered[i])
            ==> b.queued_changed && b.default_groups_marker,
{
    if planned == Some(a.next_guardians@) && (forall|i: int| 0 <= i < registered.len() ==> registered[i]) {
        lemma_all_registered(a.next_guardians@, registered);
        assert forall|i: int| 0 <= i < b.next_guardians@.len() implies a.next_guardians@.contains(b.next_guardians@[i]) by {
            assert(a.next_guardians@[i] == b.next_guardians@[i]);
        }
    }
}

/// Reading an agreement's status after marking it used gives `Utilized`, and the status of
/// every other agreement is unchanged.
pub proof fn law_utilized_read_back(
    agreements: Map<AgreementId, AgreementStatus>,
    id: AgreementId,
    other: AgreementId,
)
    requires
        other != id,
    ensures
        status_of(agreements.insert(id, AgreementStatus::Utilized), id) == AgreementStatus::Utilized,
        status_of(agreements.insert(id, AgreementStatus::Utilized), other) == status_of(agreements, other),
{
}

/// Counting the answers of a block: an answered agreement is rejected when any guardian
/// rejected it and accepted otherwise; an agreement without answers keeps its status.
pub proof fn law_answers_decide_status(
    agreements: Map<AgreementId, AgreementStatus>,
    responses: Map<AgreementId, Vec<(PeerId, bool)>>,
    id: AgreementId,
)
    ensures
        responses.contains_key(id) ==> status_of(finalized_agreements(agreements, responses), id)
            == response_status(responses_of(responses, id)),
        !responses.contains_key(id) ==> status_of(finalized_agreements(agreements, responses), id)
            == status_of(agreements, id),
{
    let decided = responses.map_values(|v: Vec<(PeerId, bool)>| response_status(v@));
    if responses.contains_key(id) {
        assert(decided.contains_key(id) && decided[id] == response_status(responses[id]@));
        assert(finalized_agreements(agreements, responses)[id] == decided[id]);
    }
}

/// After going through a list of transactions, none of their notes calls for an answer.
proof fn lemma_fold_quiets(store: Map<[u8; 32], Seq<u8>>, items: Seq<Seq<u8>>)
    ensures
        forall|j: int|
            0 <= j < items.len() ==> {
                let key = blake2_256_digest(#[trigger] items[j]);
                let after = accept_fold(store, items).1;
                after.contains_key(key) ==> !calls_for_answer(after[key])
            },
    decreases items.len(),
{
    if items.len() > 0 {
        let prev = accept_fold(store, items.drop_last());
        lemma_fold_quiets(store, items.drop_last());
        let key = blake2_256_digest(items.last());
        if prev.1.contains_key(key) && calls_for_answer(prev.1[key]) {
            let e = stored_entry(prev.1[key]);
            law_entry_round_trip(e.0, AgreementState::Processed, e.2);
        }
        assert forall|j: int| 0 <= j < items.len() implies {
            let key = blake2_256_digest(#[trigger] items[j]);
            let after = accept_fold(store, items).1;
            after.contains_key(key) ==> !calls_for_answer(after[key])
        } by {
            if j < items.len() - 1 {
                assert(items[j] == items.drop_last()[j]);
            }
        }
    }
}

/// Going through transactions whose notes call for no answer answers nothing and changes
/// nothing.
proof fn lemma_fold_of_quiet(store: Map<[u8; 32], Seq<u8>>, items: Seq<Seq<u8>>)
    requires
        forall|j: int|
            0 <= j < items.len() ==> {
                let key = blake2_256_digest(#[trigger] items[j]);
                store.contains_key(key) ==> !calls_for_answer(store[key])
            },
    ensures
        accept_fold(store, items).0 == Seq::<(Seq<u8>, bool)>::empty(),
        accept_fold(store, items).1 == store,
    decreases items.len(),
{
    if items.len() > 0 {
        assert forall|j: int| 0 <= j < items.drop_last().len() implies {
            let key = blake2_256_digest(#[trigger] items.drop_last()[j]);
            store.contains_key(key) ==> !calls_for_answer(store[key])
        } by {
            assert(items.drop_last()[j] == items[j]);
        }
        lemma_fold_of_quiet(store, items.drop_last());
        assert(items.last() == items[items.len() - 1]);
    }
}

/// Each agreement is answered once: going through the same transactions a second time, with
/// the local store as the first pass left it, answers nothing and leaves the store as it is.
pub proof fn law_agreements_answered_once(store: Map<[u8; 32], Seq<u8>>, items: Seq<Seq<u8>>)
    ensures
        accept_fold(accept_fold(store, items).1, items).0 == Seq::<(Seq<u8>, bool)>::empty(),
        accept_fold(accept_fold(store, items).1, items).1 == accept_fold(store, items).1,
{
    lemma_fold_quiets(store, items);
    lemma_fold_of_quiet(accept_fold(store, items).1, items);
}

/// A single acceptance among the answers to an agreement makes it accepted, whatever the
/// other answers; answers that all reject it, or no answers, make it rejected.
pub proof fn law_one_acceptance_accepts(answers: Seq<(PeerId, bool)>, peer: PeerId)
    ensures
        response_status(answers.push((peer, true))) == AgreementStatus::Accepted,
        (forall|i: int| 0 <= i < answers.len() ==> !answers[i].1) ==> response_status(answers)
            == AgreementStatus::Rejected,
        response_status(Seq::empty()) == AgreementStatus::Rejected,
{
    let s = answers.push((peer, true));
    assert(0 <= answers.len() < s.len() && s[answers.len() as int].1);
}

/// The first session ends at block `OFFSET`, and each later one `PERIOD` blocks after the
/// one before: a session that ends at block `n` is followed by one that ends at `n + PERIOD`
/// and by none in between.
pub proof fn law_periodic_sessions<const PERIOD: u32, const OFFSET: u32>(n: u32, k: u32)
    requires
        PERIOD > 0,
        <PeriodicSessions<PERIOD, OFFSET> as ShouldEndSession<u32>>::ends_at(n),
        n + PERIOD <= u32::MAX,
        0 < k < PERIOD,
    ensures
        <PeriodicSessions<PERIOD, OFFSET> as ShouldEndSession<u32>>::ends_at(OFFSET),
        <PeriodicSessions<PERIOD, OFFSET> as ShouldEndSession<u32>>::ends_at((n + PERIOD) as u32),
        !<PeriodicSessions<PERIOD, OFFSET> as ShouldEndSession<u32>>::ends_at((n + k) as u32),
{
    let p = PERIOD as int;
    let m = n - OFFSET;
    assert((m + p) % p == m % p && (m + k) % p != 0 && 0int % p == 0) by (nonlinear_arith)
        requires
            p > 0,
            m >= 0,
            m % p == 0,
            0 < k < p,
    ;
}

/// The indices of disabled guardians stay sorted across a rotation: the list is either
/// cleared or left as it was.
pub proof fn law_disabled_stay_sorted(a: Pallet, b: Pallet, planned: Option<Seq<GuardianId>>, registered: Seq<bool>)
    requires
        rotated(a, b, planned, registered),
        forall|i: int, j: int| 0 <= i < j < a.disabled_guardians@.len() ==> a.disabled_guardians@[i] <= a.disabled_guardians@[j],
    ensures
        forall|i: int, j: int| 0 <= i < j < b.disabled_guardians@.len() ==> b.disabled_guardians@[i] <= b.disabled_guardians@[j],
        a.queued_changed ==> b.disabled_guardians@.len() == 0,
{
}

/// `(m + k) % p` is zero, for `k` below `p`, exactly at `k == (p - m % p) % p`.
proof fn lemma_mod_zero_once(m: int, p: int, k: int)
    requires
        p > 0,
        m >= 0,
        0 <= k < p,
    ensures
        0 <= (p - m % p) % p < p,
        (m + (p - m % p) % p) % p == 0,
        (m + k) % p == 0 <==> k == (p - m % p) % p,
{
    let q = m / p;
    let r = m % p;
    assert(m == p * q + r && 0 <= r < p) by (nonlinear_arith)
        requires
            p > 0,
            m >= 0,
            q == m / p,
            r == m % p,
    ;
    let k0 = (p - r) % p;
    assert(k0 == (if r == 0 { 0 } else { p - r })) by (nonlinear_arith)
        requires
            0 <= r < p,
            k0 == (p - r) % p,
    ;
    vstd::arithmetic::div_mod::lemma_mod_multiples_vanish(q, r + k, p);
    vstd::arithmetic::div_mod::lemma_mod_multiples_vanish(q, r + k0, p);
    assert(m + k == p * q + (r + k) && m + k0 == p * q + (r + k0));
    assert((r + k) % p == 0 <==> (r + k == 0 || r + k == p)) by (nonlinear_arith)
        requires
            0 <= r < p,
            0 <= k < p,
    ;
    assert((r + k0) % p == 0) by (nonlinear_arith)
        requires
            0 <= r < p,
            k0 == (if r == 0 { 0 } else { p - r }),
    ;
}

/// Sessions after the first last `PERIOD` blocks each: from any block at or after `OFFSET`,
/// the block `PERIOD` later ends a session exactly when it does, and exactly one of the
/// `PERIOD` blocks from it on ends a session.
pub proof fn law_periodic_sessions_every_period<const PERIOD: u32, const OFFSET: u32>(n: u32)
    requires
        PERIOD > 0,
        n >= OFFSET,
        n + PERIOD <= u32::MAX,
    ensures
        <PeriodicSessions<PERIOD, OFFSET> as ShouldEndSession<u32>>::ends_at((n + PERIOD) as u32)
            == <PeriodicSessions<PERIOD, OFFSET> as ShouldEndSession<u32>>::ends_at(n),
        ({
            let k0 = (PERIOD - (n - OFFSET) % (PERIOD as int)) % (PERIOD as int);
            &&& 0 <= k0 < PERIOD
            &&& <PeriodicSessions<PERIOD, OFFSET> as ShouldEndSession<u32>>::ends_at((n + k0) as u32)
            &&& forall|k: int|
                0 <= k < PERIOD ==> (<PeriodicSessions<PERIOD, OFFSET> as ShouldEndSession<u32>>::ends_at(
                    #[trigger] ((n + k) as u32),
                ) <==> k == k0)
        }),
{
    let p = PERIOD as int;
    let m = n - OFFSET;
    assert((m + p) % p == m % p) by (nonlinear_arith)
        requires
            p > 0,
            m >= 0,
    ;
    lemma_mod_zero_once(m, p, 0);
    assert forall|k: int| 0 <= k < PERIOD implies (<PeriodicSessions<PERIOD, OFFSET> as ShouldEndSession<u32>>::ends_at(
        #[trigger] ((n + k) as u32),
    ) <==> k == (p - m % p) % p) by {
        lemma_mod_zero_once(m, p, k);
        assert(((n + k) as u32) - OFFSET == m + k);
    }
}

/// Every rotation makes the set queued before it current, whether or not the queue had
/// counted as changed, and moves to the next session index.
pub proof fn law_queued_set_always_current(a: Pallet, b: Pallet, planned: Option<Seq<GuardianId>>, registered: Seq<bool>)
    requires
        rotated(a, b, planned, registered),
    ensures
        b.guardians@ == a.next_guardians@,
        b.current_index == a.current_index + 1,
{
}

} // verus!
