//! Guardian sessions: the set of guardians per session, its rotation, and the agreements
//! that guardians answer.
use vstd::prelude::*;

use crate::ids::{same_id, IdMap};

verus! {

/// The index of a session.
pub type SessionIndex = u32;

/// A guardian's public key.
pub type GuardianId = [u8; 32];

/// An account.
pub type AccountId = [u8; 32];

/// A 32-byte agreement identifier.
pub type AgreementId = [u8; 32];

/// A 32-byte network peer identifier.
pub type PeerId = [u8; 32];

/// How many guardians are active, and how many there may be.
#[derive(Clone, Copy, PartialEq, Eq, Debug, Default)]
pub struct RGuardianInfo {
    pub active: u32,
    pub maximum: u32,
}

/// What the local node wants to do with an agreement it has seen.
#[derive(Clone, Copy, PartialEq, Eq, Debug, Default)]
pub enum AgreementAction {
    #[default]
    Ignore,
    Accept,
    Reject,
}

/// Whether the local node has already answered an agreement.
#[derive(Clone, Copy, PartialEq, Eq, Debug, Default)]
pub enum AgreementState {
    #[default]
    Pending,
    Processed,
}

/// What the local node keeps about an agreement: its action, its state and its identifier.
#[derive(Clone, Copy, PartialEq, Eq, Debug, Default)]
pub struct AgreementEntry(pub AgreementAction, pub AgreementState, pub AgreementId);

/// The status of an agreement on chain.
#[derive(Clone, Copy, PartialEq, Eq, Debug, Default)]
pub enum AgreementStatus {
    #[default]
    NotFound,
    Pending,
    Accepted,
    Rejected,
    Utilized,
}

/// What the pallet reports.
#[derive(Clone, Copy, PartialEq, Eq, Debug)]
pub enum Event {
    /// A new session has started; the argument is the session index.
    NewSession { session_index: SessionIndex },
    /// A guardian has answered an agreement.
    NewAgreement { agrement: AgreementId, signer: PeerId, acceptance: bool },
}

/// The pallet's own error.
#[derive(Clone, Copy, PartialEq, Eq, Debug)]
pub enum Error {
    Dummy,
}

/// Who dispatches a call.
#[derive(Clone, Copy, PartialEq, Eq, Debug)]
pub enum Origin {
    /// The root of the chain.
    Root,
    /// An account that signed the call.
    Signed(AccountId),
    /// Nobody: an unsigned transaction.
    Unsigned,
}

/// Why a call was refused.
#[derive(Clone, Copy, PartialEq, Eq, Debug)]
pub enum DispatchError {
    /// The call came from the wrong kind of origin.
    BadOrigin,
}

/// Decides whether the session should be ended.
pub trait ShouldEndSession<BlockNumber> {
    /// The blocks at which a decision can be made.
    spec fn can_decide(now: BlockNumber) -> bool;

    /// The blocks at which the session ends.
    spec fn ends_at(now: BlockNumber) -> bool;

    /// Return `true` if the session should be ended.
    fn should_end_session(now: BlockNumber) -> (r: bool)
        requires
            Self::can_decide(now),
        ensures
            r == Self::ends_at(now),
    ;
}

/// Ends the session after a fixed period of blocks.
///
/// The first session ends at block `OFFSET`, and the following sessions last `PERIOD`
/// blocks each.
pub struct PeriodicSessions<const PERIOD: u32, const OFFSET: u32>;

impl<const PERIOD: u32, const OFFSET: u32> ShouldEndSession<u32> for PeriodicSessions<PERIOD, OFFSET> {
    open spec fn can_decide(now: u32) -> bool {
        now >= OFFSET ==> PERIOD > 0
    }

    open spec fn ends_at(now: u32) -> bool {
        now >= OFFSET && (now - OFFSET) % (PERIOD as int) == 0
    }

    fn should_end_session(now: u32) -> (r: bool) {
        now >= OFFSET && (now - OFFSET) % PERIOD == 0
    }
}

/// A proposed guardian set, if any, as a sequence.
pub open spec fn proposal_view<Id>(planned: Option<Vec<Id>>) -> Proposal<Id> {
    match planned {
        Some(g) => Some(g@),
        None => None,
    }
}

/// A session manager's answer when asked to plan a session: a guardian set, or none.
pub type Proposal<Id> = Option<Seq<Id>>;

/// Manages the creation of new guardian sets.
pub trait SessionManager<Id> {
    /// The answers that this manager may give when asked to plan session `new_index`.
    spec fn may_propose(new_index: SessionIndex, proposed: Proposal<Id>) -> bool;

    /// Observes the session index at each step of a rotation.
    fn test(index: SessionIndex) {
    }

    /// Plan a new session, and optionally provide the new guardian set.
    ///
    /// The returned set, if any, is applied from session `new_index` on.
    fn new_session(new_index: SessionIndex) -> (r: Option<Vec<Id>>)
        ensures
            Self::may_propose(new_index, proposal_view::<Id>(r)),
    ;

    /// Same as `new_session`, but called at genesis only; by default, what `new_session`
    /// proposes.
    fn new_session_genesis(new_index: SessionIndex) -> (r: Option<Vec<Id>>)
        ensures
            Self::may_propose(new_index, proposal_view::<Id>(r)),
    {
        Self::new_session(new_index)
    }

    /// Whether this manager has been told that session `index` started; a manager that keeps
    /// no record of it counts every session as started.
    closed spec fn started(index: SessionIndex) -> bool {
        true
    }

    /// Whether this manager has been told that session `index` ended; a manager that keeps no
    /// record of it counts every session as ended.
    closed spec fn ended(index: SessionIndex) -> bool {
        true
    }

    /// End the session.
    fn end_session(end_index: SessionIndex)
        ensures
            Self::ended(end_index),
    ;

    /// Start an already planned session.
    fn start_session(start_index: SessionIndex)
        ensures
            Self::started(start_index),
    ;
}

/// A session manager that never proposes a guardian set.
impl<A> SessionManager<A> for () {
    open spec fn may_propose(new_index: SessionIndex, proposed: Proposal<A>) -> bool {
        proposed is None
    }

    fn test(index: SessionIndex) {
    }

    fn new_session(new_index: SessionIndex) -> Option<Vec<A>> {
        None
    }

    fn start_session(start_index: SessionIndex) {
    }

    fn end_session(end_index: SessionIndex) {
    }
}

/// Tells whether a guardian has been registered.
pub trait GuardianRegistration<Id> {
    /// The guardians that have been registered.
    spec fn registered(id: Id) -> bool;

    /// Whether the guardian `id` has been registered.
    fn is_registered(id: &Id) -> (r: bool)
        ensures
            r == Self::registered(*id),
    ;
}

/// For each candidate, whether `R` has it registered.
pub open spec fn registrations<R: GuardianRegistration<GuardianId>>(candidates: Seq<GuardianId>) -> Seq<bool> {
    Seq::new(candidates.len(), |j: int| R::registered(candidates[j]))
}

/// Gives other modules the status of agreements, and lets them mark an agreement used.
pub trait AgreementProvider {
    /// The status of agreement `agreementid`.
    fn get_agreement_status(&self, agreementid: &AgreementId) -> AgreementStatus;

    /// Marks agreement `agreementid` as used.
    fn set_agreement_utilized(&mut self, agreementid: &AgreementId);
}

/// What a runtime chooses for the pallet.
pub trait Config {
    /// Indicator for when to end the session.
    type ShouldEndSession: ShouldEndSession<u32>;

    /// Handler for managing new sessions.
    type SessionManager: SessionManager<GuardianId>;

    /// Validates a guardian's registration status.
    type GuardianRegistration: GuardianRegistration<GuardianId>;
}

/// The pallet's storage.
pub struct Pallet {
    /// The current set of guardians.
    pub guardians: Vec<GuardianId>,
    /// The account that runs the guardian service of each node.
    pub worker: IdMap<AccountId>,
    /// The set of guardians of the next session.
    pub next_guardians: Vec<GuardianId>,
    /// Whether the identities or weights behind the queued guardian set may have changed:
    /// the session manager proposed it.
    pub queued_changed: bool,
    /// The index of the current session.
    pub current_index: SessionIndex,
    /// Indices of disabled guardians.
    pub disabled_guardians: Vec<u32>,
    /// Whether the session manager proposed a set with the same members as the one queued
    /// before.
    pub default_groups_marker: bool,
    /// The keys of the current session.
    pub keys: Vec<GuardianId>,
    /// The most keys that genesis may set.
    pub max_keys: u32,
    /// The status of each agreement.
    pub agreements: IdMap<AgreementStatus>,
    /// The answers collected for each agreement in the current block.
    pub agreements_responses: IdMap<Vec<(PeerId, bool)>>,
    /// The events reported so far.
    pub events: Vec<Event>,
}

/// The answers recorded for agreement `id` in `responses`; none if it has no entry.
pub open spec fn responses_of(
    responses: Map<AgreementId, Vec<(PeerId, bool)>>,
    id: AgreementId,
) -> Seq<(PeerId, bool)> {
    if responses.contains_key(id) {
        responses[id]@
    } else {
        Seq::empty()
    }
}

/// The status stored for agreement `id`, or `NotFound`.
pub open spec fn status_of(agreements: Map<AgreementId, AgreementStatus>, id: AgreementId) -> AgreementStatus {
    if agreements.contains_key(id) {
        agreements[id]
    } else {
        AgreementStatus::NotFound
    }
}

impl Pallet {
    /// Empty storage; genesis may set at most `max_keys` keys.
    pub fn new(max_keys: u32) -> (r: Self)
        ensures
            r.guardians@ == Seq::<GuardianId>::empty(),
            r.worker@ == Map::<AgreementId, AccountId>::empty(),
            r.next_guardians@ == Seq::<GuardianId>::empty(),
            !r.queued_changed,
            r.current_index == 0,
            r.disabled_guardians@ == Seq::<u32>::empty(),
            !r.default_groups_marker,
            r.keys@ == Seq::<GuardianId>::empty(),
            r.max_keys == max_keys,
            r.agreements@ == Map::<AgreementId, AgreementStatus>::empty(),
            r.agreements_responses@ == Map::<AgreementId, Vec<(PeerId, bool)>>::empty(),
            r.events@ == Seq::<Event>::empty(),
    {
        Pallet {
            guardians: Vec::new(),
            worker: IdMap::new(),
            next_guardians: Vec::new(),
            queued_changed: false,
            current_index: 0,
            disabled_guardians: Vec::new(),
            default_groups_marker: false,
            keys: Vec::new(),
            max_keys,
            agreements: IdMap::new(),
            agreements_responses: IdMap::new(),
            events: Vec::new(),
        }
    }

    /// Records the signing account as the worker of node `nodeid`.
    pub fn set_worker(&mut self, origin: Origin, nodeid: [u8; 32]) -> (r: Result<(), DispatchError>)
        ensures
            match origin {
                Origin::Signed(controller) => {
                    &&& r is Ok
                    &&& final(self).worker@ == old(self).worker@.insert(nodeid, controller)
                },
                _ => {
                    &&& r == Err::<(), DispatchError>(DispatchError::BadOrigin)
                    &&& final(self).worker@ == old(self).worker@
                },
            },
            final(self).guardians == old(self).guardians,
            final(self).next_guardians == old(self).next_guardians,
            final(self).queued_changed == old(self).queued_changed,
            final(self).current_index == old(self).current_index,
            final(self).disabled_guardians == old(self).disabled_guardians,
            final(self).default_groups_marker == old(self).default_groups_marker,
            final(self).keys == old(self).keys,
            final(self).max_keys == old(self).max_keys,
            final(self).agreements == old(self).agreements,
            final(self).agreements_responses == old(self).agreements_responses,
            final(self).events == old(self).events,
    {
        match origin {
            Origin::Signed(controller) => {
                self.worker.insert(nodeid, controller);
                Ok(())
            },
            _ => Err(DispatchError::BadOrigin),
        }
    }

    /// Accepts any origin and does nothing.
    pub fn agreement(&self, origin: Origin) -> (r: Result<(), DispatchError>)
        ensures
            r is Ok,
    {
        Ok(())
    }

    /// Records guardian `peer_id`'s answer to agreement `agreementid`; unsigned calls only.
    pub fn agreement_response(
        &mut self,
        origin: Origin,
        agreementid: AgreementId,
        peer_id: PeerId,
        signature: [u8; 64],
        acceptance: bool,
    ) -> (r: Result<(), DispatchError>)
        ensures
            origin == Origin::Unsigned ==> {
                &&& r is Ok
                &&& final(self).agreements_responses@.dom() == old(self).agreements_responses@.dom().insert(agreementid)
                &&& responses_of(final(self).agreements_responses@, agreementid)
                    == responses_of(old(self).agreements_responses@, agreementid).push((peer_id, acceptance))
                &&& forall|id: AgreementId| id != agreementid
                    ==> #[trigger] final(self).agreements_responses@.contains_key(id)
                    ==> final(self).agreements_responses@[id] == old(self).agreements_responses@[id]
                &&& final(self).events@ == old(self).events@.push(
                    Event::NewAgreement { agrement: agreementid, signer: peer_id, acceptance },
                )
            },
            origin != Origin::Unsigned ==> {
                &&& r == Err::<(), DispatchError>(DispatchError::BadOrigin)
                &&& final(self).agreements_responses@ == old(self).agreements_responses@
                &&& final(self).events == old(self).events
            },
            final(self).guardians == old(self).guardians,
            final(self).worker == old(self).worker,
            final(self).next_guardians == old(self).next_guardians,
            final(self).queued_changed == old(self).queued_changed,
            final(self).current_index == old(self).current_index,
            final(self).disabled_guardians == old(self).disabled_guardians,
            final(self).default_groups_marker == old(self).default_groups_marker,
            final(self).keys == old(self).keys,
            final(self).max_keys == old(self).max_keys,
            final(self).agreements == old(self).agreements,
    {
        match origin {
            Origin::Unsigned => {},
            _ => {
                return Err(DispatchError::BadOrigin);
            },
        }
        let mut list = match self.agreements_responses.remove(&agreementid) {
            Some(list) => list,
            None => Vec::new(),
        };
        list.push((peer_id, acceptance));
        self.agreements_responses.insert(agreementid, list);
        proof {
            assert(self.agreements_responses@.dom() =~= old(self).agreements_responses@.dom().insert(agreementid));
        }
        self.events.push(Event::NewAgreement { agrement: agreementid, signer: peer_id, acceptance });
        Ok(())
    }

    /// The status of agreement `agreementid`; `NotFound` when none is stored.
    pub fn get_agreement_status(&self, agreementid: &AgreementId) -> (r: AgreementStatus)
        ensures
            r == status_of(self.agreements@, *agreementid),
    {
        match self.agreements.get(agreementid) {
            Some(status) => *status,
            None => AgreementStatus::NotFound,
        }
    }

    /// Marks agreement `agreementid` as used.
    pub fn set_agreement_utilized(&mut self, agreementid: &AgreementId)
        ensures
            final(self).agreements@ == old(self).agreements@.insert(*agreementid, AgreementStatus::Utilized),
            final(self).guardians == old(self).guardians,
            final(self).worker == old(self).worker,
            final(self).next_guardians == old(self).next_guardians,
            final(self).queued_changed == old(self).queued_changed,
            final(self).current_index == old(self).current_index,
            final(self).disabled_guardians == old(self).disabled_guardians,
            final(self).default_groups_marker == old(self).default_groups_marker,
            final(self).keys == old(self).keys,
            final(self).max_keys == old(self).max_keys,
            final(self).agreements_responses == old(self).agreements_responses,
            final(self).events == old(self).events,
    {
        self.agreements.insert(*agreementid, AgreementStatus::Utilized);
    }

    /// Sets the marker of the default groups.
    pub fn set_groups_marker(&mut self, value: bool)
        ensures
            final(self).default_groups_marker == value,
            final(self).guardians == old(self).guardians,
            final(self).worker == old(self).worker,
            final(self).next_guardians == old(self).next_guardians,
            final(self).queued_changed == old(self).queued_changed,
            final(self).current_index == old(self).current_index,
            final(self).disabled_guardians == old(self).disabled_guardians,
            final(self).keys == old(self).keys,
            final(self).max_keys == old(self).max_keys,
            final(self).agreements == old(self).agreements,
            final(self).agreements_responses == old(self).agreements_responses,
            final(self).events == old(self).events,
    {
        self.default_groups_marker = value;
    }
}

impl AgreementProvider for Pallet {
    fn get_agreement_status(&self, agreementid: &AgreementId) -> (r: AgreementStatus)
        ensures
            r == status_of(self.agreements@, *agreementid),
    {
        Pallet::get_agreement_status(self, agreementid)
    }

    fn set_agreement_utilized(&mut self, agreementid: &AgreementId)
        ensures
            final(self).agreements@ == old(self).agreements@.insert(*agreementid, AgreementStatus::Utilized),
    {
        Pallet::set_agreement_utilized(self, agreementid)
    }
}

/// Whether a newly queued guardian set differs in its members from the one queued before: it
/// has another length, or holds a guardian that was not queued.
pub open spec fn queue_changed(prev: Seq<GuardianId>, next: Seq<GuardianId>) -> bool {
    prev.len() != next.len() || exists|i: int| 0 <= i < next.len() && !prev.contains(next[i])
}

/// The candidates whose registration flag is set, in their order.
pub open spec fn registered_only(candidates: Seq<GuardianId>, registered: Seq<bool>) -> Seq<GuardianId>
    decreases candidates.len(),
{
    if candidates.len() == 0 {
        Seq::empty()
    } else {
        let rest = registered_only(candidates.drop_last(), registered.drop_last());
        if registered.last() {
            rest.push(candidates.last())
        } else {
            rest
        }
    }
}

/// The guardian set proposed by the session manager, if any, as a sequence.
pub open spec fn planned_view(planned: Option<Vec<GuardianId>>) -> Option<Seq<GuardianId>> {
    match planned {
        Some(g) => Some(g@),
        None => None,
    }
}

/// The candidates for the next queued set: the proposed set, or else the set queued before.
pub open spec fn rotation_candidates(planned: Option<Seq<GuardianId>>, queued: Seq<GuardianId>) -> Seq<GuardianId> {
    match planned {
        Some(g) => g,
        None => queued,
    }
}

/// Only the guardian sets, the session index, the markers and the events may differ.
pub open spec fn agreements_and_keys_kept(a: Pallet, b: Pallet) -> bool {
    &&& b.worker == a.worker
    &&& b.keys == a.keys
    &&& b.max_keys == a.max_keys
    &&& b.agreements == a.agreements
    &&& b.agreements_responses == a.agreements_responses
}

/// The storage `new` after a session rotation from `old`, where the session manager proposed
/// `planned` and `registered` tells, for each candidate, whether it is registered.
pub open spec fn rotated(old: Pallet, new: Pallet, planned: Option<Seq<GuardianId>>, registered: Seq<bool>) -> bool {
    let next = registered_only(rotation_candidates(planned, old.next_guardians@), registered);
    &&& new.guardians@ == old.next_guardians@
    &&& new.current_index == old.current_index + 1
    &&& new.disabled_guardians@ == (if old.queued_changed {
        Seq::<u32>::empty()
    } else {
        old.disabled_guardians@
    })
    &&& new.next_guardians@ == next
    &&& new.default_groups_marker == (planned is Some && !queue_changed(old.next_guardians@, next))
    &&& new.queued_changed == (planned is Some)
    &&& new.events@ == old.events@.push(Event::NewSession { session_index: (old.current_index + 1) as u32 })
    &&& agreements_and_keys_kept(old, new)
}

/// A copy of a list of identifiers.
fn copy_ids(v: &Vec<GuardianId>) -> (r: Vec<GuardianId>)
    ensures
        r@ == v@,
{
    let mut r: Vec<GuardianId> = Vec::new();
    let mut i: usize = 0;
    while i < v.len()
        invariant
            0 <= i <= v@.len(),
            r@ == v@.take(i as int),
        decreases v@.len() - i,
    {
        r.push(v[i]);
        i = i + 1;
        proof {
            assert(r@ =~= v@.take(i as int));
        }
    }
    proof {
        assert(v@.take(v@.len() as int) =~= v@);
    }
    r
}

/// Whether `v` holds identifier `g`.
fn contains_id(v: &Vec<GuardianId>, g: &GuardianId) -> (r: bool)
    ensures
        r == v@.contains(*g),
{
    let mut i: usize = 0;
    while i < v.len()
        invariant
            0 <= i <= v@.len(),
            forall|j: int| 0 <= j < i ==> v@[j] != *g,
        decreases v@.len() - i,
    {
        if same_id(&v[i], g) {
            proof {
                assert(v@[i as int] == *g);
            }
            return true;
        }
        i = i + 1;
    }
    false
}

/// Whether the newly queued set `next` differs from the set `prev` queued before.
fn differs(prev: &Vec<GuardianId>, next: &Vec<GuardianId>) -> (r: bool)
    ensures
        r == queue_changed(prev@, next@),
{
    if prev.len() != next.len() {
        return true;
    }
    let mut i: usize = 0;
    while i < next.len()
        invariant
            0 <= i <= next@.len(),
            prev@.len() == next@.len(),
            forall|j: int| 0 <= j < i ==> prev@.contains(#[trigger] next@[j]),
        decreases next@.len() - i,
    {
        if !contains_id(prev, &next[i]) {
            return true;
        }
        i = i + 1;
    }
    false
}

/// The candidates whose registration flag is set.
fn keep_registered(candidates: &Vec<GuardianId>, registered: &Vec<bool>) -> (r: Vec<GuardianId>)
    requires
        registered@.len() == candidates@.len(),
    ensures
        r@ == registered_only(candidates@, registered@),
{
    let mut r: Vec<GuardianId> = Vec::new();
    let mut i: usize = 0;
    while i < candidates.len()
        invariant
            0 <= i <= candidates@.len(),
            registered@.len() == candidates@.len(),
            r@ == registered_only(candidates@.take(i as int), registered@.take(i as int)),
        decreases candidates@.len() - i,
    {
        proof {
            assert(candidates@.take(i + 1).drop_last() =~= candidates@.take(i as int));
            assert(registered@.take(i + 1).drop_last() =~= registered@.take(i as int));
        }
        if registered[i] {
            r.push(candidates[i]);
        }
        i = i + 1;
    }
    proof {
        assert(candidates@.take(candidates@.len() as int) =~= candidates@);
        assert(registered@.take(registered@.len() as int) =~= registered@);
    }
    r
}

impl Pallet {
    /// Moves on to the next session, given the set that the session manager proposed for
    /// the session after it and, for each candidate, whether it is registered.
    ///
    /// The queued set becomes the current one; the candidates are the proposed set, or else
    /// the set that was queued, and those that are registered are queued next. A proposed set
    /// counts as a change of the queue even when its members are the same, since the economic
    /// weights behind them may have changed; the default-groups marker tells that the members
    /// are the same.
    pub fn apply_rotation(&mut self, planned: Option<Vec<GuardianId>>, registered: &Vec<bool>)
        requires
            old(self).current_index < u32::MAX,
            registered@.len() == rotation_candidates(planned_view(planned), old(self).next_guardians@).len(),
        ensures
            rotated(*old(self), *final(self), planned_view(planned), registered@),
            final(self).guardians@ == old(self).next_guardians@,
    {
        let changed = self.queued_changed;
        let prev_queued = copy_ids(&self.next_guardians);
        self.guardians = copy_ids(&self.next_guardians);
        if changed {
            self.disabled_guardians = Vec::new();
        }
        let session_index: SessionIndex = self.current_index + 1;
        self.current_index = session_index;
        let proposed = planned.is_some();
        let candidates = match planned {
            Some(g) => g,
            None => copy_ids(&prev_queued),
        };
        let next = keep_registered(&candidates, registered);
        let queued_changed_flag = differs(&prev_queued, &next);
        self.default_groups_marker = proposed && !queued_changed_flag;
        self.queued_changed = proposed;
        self.next_guardians = next;
        self.events.push(Event::NewSession { session_index });
    }

    /// Moves on to the next session: ends the current one, starts the queued set, asks the
    /// session manager for the set after it, and queues its registered guardians.
    pub fn rotate_guard_session<T: Config>(&mut self)
        requires
            old(self).current_index + 2 <= u32::MAX,
        ensures
            exists|planned: Option<Seq<GuardianId>>|
                {
                    &&& #[trigger] T::SessionManager::may_propose((old(self).current_index + 2) as u32, planned)
                    &&& rotated(
                        *old(self),
                        *final(self),
                        planned,
                        registrations::<T::GuardianRegistration>(
                            rotation_candidates(planned, old(self).next_guardians@),
                        ),
                    )
                },
            final(self).guardians@ == old(self).next_guardians@,
            final(self).current_index == old(self).current_index + 1,
            T::SessionManager::ended(old(self).current_index),
            T::SessionManager::started((old(self).current_index + 1) as u32),
    {
        let session_index: SessionIndex = self.current_index;
        T::SessionManager::test(session_index);
        T::SessionManager::end_session(session_index);
        let session_index: SessionIndex = session_index + 1;
        T::SessionManager::test(session_index);
        T::SessionManager::start_session(session_index);
        T::SessionManager::test(session_index);
        let planned = T::SessionManager::new_session(session_index + 1);
        T::SessionManager::test(session_index + 1);
        let mut registered: Vec<bool> = Vec::new();
        {
            let candidates = match &planned {
                Some(g) => g,
                None => &self.next_guardians,
            };
            let mut i: usize = 0;
            while i < candidates.len()
                invariant
                    0 <= i <= candidates@.len(),
                    registered@.len() == i,
                    forall|j: int| 0 <= j < i ==> registered@[j] == T::GuardianRegistration::registered(#[trigger] candidates@[j]),
                decreases candidates@.len() - i,
            {
                registered.push(T::GuardianRegistration::is_registered(&candidates[i]));
                i = i + 1;
            }
            proof {
                assert(registered@ =~= registrations::<T::GuardianRegistration>(candidates@));
            }
        }
        let ghost planned_seq = planned_view(planned);
        proof {
            assert(T::SessionManager::may_propose((old(self).current_index + 2) as u32, planned_seq));
        }
        self.apply_rotation(planned, &registered);
        proof {
            assert(rotated(
                *old(self),
                *self,
                planned_seq,
                registrations::<T::GuardianRegistration>(rotation_candidates(planned_seq, old(self).next_guardians@)),
            ));
        }
    }
}

/// The status that the answers to an agreement decide: accepted when any guardian accepted
/// it, rejected otherwise.
pub open spec fn response_status(responses: Seq<(PeerId, bool)>) -> AgreementStatus {
    if exists|i: int| 0 <= i < responses.len() && responses[i].1 {
        AgreementStatus::Accepted
    } else {
        AgreementStatus::Rejected
    }
}

/// The agreement statuses after the answers in `responses` have been counted.
pub open spec fn finalized_agreements(
    agreements: Map<AgreementId, AgreementStatus>,
    responses: Map<AgreementId, Vec<(PeerId, bool)>>,
) -> Map<AgreementId, AgreementStatus> {
    agreements.union_prefer_right(responses.map_values(|v: Vec<(PeerId, bool)>| response_status(v@)))
}

/// The status that the answers in `responses` decide.
fn decide_status(responses: &Vec<(PeerId, bool)>) -> (r: AgreementStatus)
    ensures
        r == response_status(responses@),
{
    let mut i: usize = 0;
    while i < responses.len()
        invariant
            0 <= i <= responses@.len(),
            forall|j: int| 0 <= j < i ==> !responses@[j].1,
        decreases responses@.len() - i,
    {
        if responses[i].1 {
            return AgreementStatus::Accepted;
        }
        i = i + 1;
    }
    AgreementStatus::Rejected
}

/// Keeps all but the current and the queued guardian sets: the session index, the markers,
/// the keys, the agreements, the workers and the events are unchanged.
pub open spec fn only_guardian_sets_changed(a: Pallet, b: Pallet) -> bool {
    &&& agreements_and_keys_kept(a, b)
    &&& b.queued_changed == a.queued_changed
    &&& b.current_index == a.current_index
    &&& b.disabled_guardians == a.disabled_guardians
    &&& b.default_groups_marker == a.default_groups_marker
    &&& b.events == a.events
}

/// The set of a proposal, or no guardians when there is none.
pub open spec fn proposed_or_empty(proposed: Proposal<GuardianId>) -> Seq<GuardianId> {
    match proposed {
        Some(g) => g,
        None => Seq::<GuardianId>::empty(),
    }
}

/// The set of the second session at genesis: the one proposed for it, or else the set of the
/// first session.
pub open spec fn second_genesis_set(first: Proposal<GuardianId>, second: Proposal<GuardianId>) -> Seq<GuardianId> {
    match second {
        Some(g) => g,
        None => proposed_or_empty(first),
    }
}

/// Builds the genesis storage.
pub struct GenesisConfig;

impl GenesisConfig {
    /// Makes the set that the session manager proposed for session 0 current (no guardians
    /// when it proposed none), and queues the set proposed for session 1, or else the same set
    /// again.
    pub fn apply_genesis(
        &self,
        pallet: &mut Pallet,
        first: Option<Vec<GuardianId>>,
        second: Option<Vec<GuardianId>>,
    )
        ensures
            only_guardian_sets_changed(*old(pallet), *final(pallet)),
            final(pallet).guardians@ == proposed_or_empty(planned_view(first)),
            final(pallet).next_guardians@ == second_genesis_set(planned_view(first), planned_view(second)),
    {
        let current = match first {
            Some(g) => g,
            None => Vec::new(),
        };
        let queued = match second {
            Some(g) => g,
            None => copy_ids(&current),
        };
        pallet.guardians = current;
        pallet.next_guardians = queued;
    }

    /// Asks the session manager for the guardians of the first two sessions, makes those of
    /// the first one current (none when it proposes none), queues those of the second one (or
    /// else the first set again), and starts session 0.
    pub fn build<T: Config>(&self, pallet: &mut Pallet)
        ensures
            only_guardian_sets_changed(*old(pallet), *final(pallet)),
            exists|first: Proposal<GuardianId>, second: Proposal<GuardianId>|
                {
                    &&& #[trigger] T::SessionManager::may_propose(0, first)
                    &&& #[trigger] T::SessionManager::may_propose(1, second)
                    &&& final(pallet).guardians@ == proposed_or_empty(first)
                    &&& final(pallet).next_guardians@ == second_genesis_set(first, second)
                },
            T::SessionManager::started(0),
    {
        let initial_guardians_0 = T::SessionManager::new_session_genesis(0);
        let initial_guardians_1 = T::SessionManager::new_session_genesis(1);
        let ghost first = planned_view(initial_guardians_0);
        let ghost second = planned_view(initial_guardians_1);
        self.apply_genesis(pallet, initial_guardians_0, initial_guardians_1);
        T::SessionManager::start_session(0);
        proof {
            assert(T::SessionManager::may_propose(0, first) && T::SessionManager::may_propose(1, second));
        }
    }
}

impl Pallet {
    /// Counts the answers collected in this block: each answered agreement becomes accepted
    /// when any guardian accepted it and rejected otherwise, and the answers are cleared.
    pub fn on_finalize(&mut self, n: u32)
        ensures
            final(self).agreements@ == finalized_agreements(old(self).agreements@, old(self).agreements_responses@),
            final(self).agreements_responses@ == Map::<AgreementId, Vec<(PeerId, bool)>>::empty(),
            final(self).guardians == old(self).guardians,
            final(self).worker == old(self).worker,
            final(self).next_guardians == old(self).next_guardians,
            final(self).queued_changed == old(self).queued_changed,
            final(self).current_index == old(self).current_index,
            final(self).disabled_guardians == old(self).disabled_guardians,
            final(self).default_groups_marker == old(self).default_groups_marker,
            final(self).keys == old(self).keys,
            final(self).max_keys == old(self).max_keys,
            final(self).events == old(self).events,
    {
        let mut responses: IdMap<Vec<(PeerId, bool)>> = IdMap::new();
        std::mem::swap(&mut responses, &mut self.agreements_responses);
        let entries = responses.into_entries();
        let ghost start = self.agreements@;
        let mut i: usize = 0;
        while i < entries.len()
            invariant
                0 <= i <= entries@.len(),
                crate::ids::entries_map(entries@) == old(self).agreements_responses@,
                start == old(self).agreements@,
                self.agreements@ == finalized_agreements(start, crate::ids::entries_map(entries@.take(i as int))),
                self.agreements_responses@ == Map::<AgreementId, Vec<(PeerId, bool)>>::empty(),
                self.guardians == old(self).guardians,
                self.worker == old(self).worker,
                self.next_guardians == old(self).next_guardians,
                self.queued_changed == old(self).queued_changed,
                self.current_index == old(self).current_index,
                self.disabled_guardians == old(self).disabled_guardians,
                self.default_groups_marker == old(self).default_groups_marker,
                self.keys == old(self).keys,
                self.max_keys == old(self).max_keys,
                self.events == old(self).events,
            decreases entries@.len() - i,
        {
            let status = decide_status(&entries[i].1);
            self.agreements.insert(entries[i].0, status);
            proof {
                let s = entries@;
                assert(s.take(i + 1).drop_last() =~= s.take(i as int));
                let before = crate::ids::entries_map(s.take(i as int));
                let after = crate::ids::entries_map(s.take(i + 1));
                assert(after == before.insert(s[i as int].0, s[i as int].1));
                assert(finalized_agreements(start, after) =~= finalized_agreements(start, before).insert(
                    s[i as int].0,
                    status,
                ));
            }
            i = i + 1;
        }
        proof {
            assert(entries@.take(entries@.len() as int) =~= entries@);
        }
    }

    /// Ends the session at block `n` when the runtime's `ShouldEndSession` says so; returns
    /// whether it did, in which case the block is charged its full weight.
    pub fn on_initialize<T: Config>(&mut self, n: u32) -> (r: bool)
        requires
            T::ShouldEndSession::can_decide(n),
            T::ShouldEndSession::ends_at(n) ==> old(self).current_index + 2 <= u32::MAX,
        ensures
            r == T::ShouldEndSession::ends_at(n),
            r ==> exists|planned: Option<Seq<GuardianId>>|
                {
                    &&& #[trigger] T::SessionManager::may_propose((old(self).current_index + 2) as u32, planned)
                    &&& rotated(
                        *old(self),
                        *final(self),
                        planned,
                        registrations::<T::GuardianRegistration>(
                            rotation_candidates(planned, old(self).next_guardians@),
                        ),
                    )
                },
            r ==> final(self).guardians@ == old(self).next_guardians@,
            r ==> T::SessionManager::ended(old(self).current_index),
            r ==> T::SessionManager::started((old(self).current_index + 1) as u32),
            !r ==> *final(self) == *old(self),
    {
        if T::ShouldEndSession::should_end_session(n) {
            self.rotate_guard_session::<T>();
            true
        } else {
            false
        }
    }

    /// Sets the session keys at genesis; nothing when `keys` is empty.
    fn initialize_keys(&mut self, keys: Vec<GuardianId>)
        requires
            keys@.len() > 0 ==> old(self).keys@.len() == 0 && keys@.len() <= old(self).max_keys,
        ensures
            final(self).keys@ == (if keys@.len() > 0 {
                keys@
            } else {
                old(self).keys@
            }),
            final(self).guardians == old(self).guardians,
            final(self).worker == old(self).worker,
            final(self).next_guardians == old(self).next_guardians,
            final(self).queued_changed == old(self).queued_changed,
            final(self).current_index == old(self).current_index,
            final(self).disabled_guardians == old(self).disabled_guardians,
            final(self).default_groups_marker == old(self).default_groups_marker,
            final(self).max_keys == old(self).max_keys,
            final(self).agreements == old(self).agreements,
            final(self).agreements_responses == old(self).agreements_responses,
            final(self).events == old(self).events,
    {
        if keys.len() > 0 {
            self.keys = keys;
        }
    }

    /// Sets the session keys; at most `max_keys` of them.
    pub fn set_keys(&mut self, keys: Vec<GuardianId>)
        requires
            keys@.len() <= old(self).max_keys,
        ensures
            final(self).keys@ == keys@,
            final(self).guardians == old(self).guardians,
            final(self).worker == old(self).worker,
            final(self).next_guardians == old(self).next_guardians,
            final(self).queued_changed == old(self).queued_changed,
            final(self).current_index == old(self).current_index,
            final(self).disabled_guardians == old(self).disabled_guardians,
            final(self).default_groups_marker == old(self).default_groups_marker,
            final(self).max_keys == old(self).max_keys,
            final(self).agreements == old(self).agreements,
            final(self).agreements_responses == old(self).agreements_responses,
            final(self).events == old(self).events,
    {
        self.keys = keys;
    }

    /// The genesis guardians and their keys: the keys become the session keys, unless there
    /// are none.
    pub fn on_genesis_session(&mut self, validators: &Vec<(GuardianId, GuardianId)>)
        requires
            validators@.len() > 0 ==> old(self).keys@.len() == 0 && validators@.len() <= old(self).max_keys,
        ensures
            final(self).keys@ == (if validators@.len() > 0 {
                session_keys(validators@)
            } else {
                old(self).keys@
            }),
            final(self).guardians == old(self).guardians,
            final(self).worker == old(self).worker,
            final(self).next_guardians == old(self).next_guardians,
            final(self).queued_changed == old(self).queued_changed,
            final(self).current_index == old(self).current_index,
            final(self).disabled_guardians == old(self).disabled_guardians,
            final(self).default_groups_marker == old(self).default_groups_marker,
            final(self).max_keys == old(self).max_keys,
            final(self).agreements == old(self).agreements,
            final(self).agreements_responses == old(self).agreements_responses,
            final(self).events == old(self).events,
    {
        let keys = keys_of(validators);
        self.initialize_keys(keys);
    }

    /// The guardians of a new session and their keys: the keys become the session keys,
    /// however many there are.
    pub fn on_new_session(
        &mut self,
        changed: bool,
        validators: &Vec<(GuardianId, GuardianId)>,
        queued_validators: &Vec<(GuardianId, GuardianId)>,
    )
        ensures
            final(self).keys@ == session_keys(validators@),
            final(self).guardians == old(self).guardians,
            final(self).worker == old(self).worker,
            final(self).next_guardians == old(self).next_guardians,
            final(self).queued_changed == old(self).queued_changed,
            final(self).current_index == old(self).current_index,
            final(self).disabled_guardians == old(self).disabled_guardians,
            final(self).default_groups_marker == old(self).default_groups_marker,
            final(self).max_keys == old(self).max_keys,
            final(self).agreements == old(self).agreements,
            final(self).agreements_responses == old(self).agreements_responses,
            final(self).events == old(self).events,
    {
        self.keys = keys_of(validators);
    }
}

/// The keys of a list of guardians paired with their keys.
pub open spec fn session_keys(validators: Seq<(GuardianId, GuardianId)>) -> Seq<GuardianId> {
    validators.map_values(|v: (GuardianId, GuardianId)| v.1)
}

/// The keys of a list of guardians paired with their keys.
fn keys_of(validators: &Vec<(GuardianId, GuardianId)>) -> (r: Vec<GuardianId>)
    ensures
        r@ == session_keys(validators@),
{
    let mut r: Vec<GuardianId> = Vec::new();
    let mut i: usize = 0;
    while i < validators.len()
        invariant
            0 <= i <= validators@.len(),
            r@ == session_keys(validators@.take(i as int)),
        decreases validators@.len() - i,
    {
        r.push(validators[i].1);
        i = i + 1;
        proof {
            assert(r@ =~= session_keys(validators@.take(i as int)));
        }
    }
    proof {
        assert(validators@.take(validators@.len() as int) =~= validators@);
    }
    r
}

} // verus!
