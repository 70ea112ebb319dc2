use guard_session::session::{
    AgreementProvider, AgreementStatus, Config, DispatchError, Event, GenesisConfig, GuardianId,
    GuardianRegistration, Origin, Pallet, PeriodicSessions, Proposal, SessionManager, ShouldEndSession,
};
use guard_session::transaction::{Call, InvalidTransaction, TransactionSource};
use sp_core::{sr25519, Pair};

const A: GuardianId = [1u8; 32];
const B: GuardianId = [2u8; 32];
const UNREGISTERED: GuardianId = [0u8; 32];

// Proposes A, B and an unregistered guardian for even sessions, nothing for odd ones.
struct EvenProposer;

impl SessionManager<GuardianId> for EvenProposer {
    fn may_propose(_: u32, _: Proposal<GuardianId>) -> bool {
        true
    }

    fn new_session(new_index: u32) -> Option<Vec<GuardianId>> {
        if new_index % 2 == 0 {
            Some(vec![A, B, UNREGISTERED])
        } else {
            None
        }
    }

    fn end_session(_: u32) {}

    fn start_session(_: u32) {}
}

// Proposes B alone for every session.
struct OnlyB;

impl SessionManager<GuardianId> for OnlyB {
    fn may_propose(_: u32, _: Proposal<GuardianId>) -> bool {
        true
    }

    fn new_session(_: u32) -> Option<Vec<GuardianId>> {
        Some(vec![B])
    }

    fn end_session(_: u32) {}

    fn start_session(_: u32) {}
}

// A guardian is registered when its first byte is not zero.
struct FirstByteSet;

impl GuardianRegistration<GuardianId> for FirstByteSet {
    fn registered(id: GuardianId) -> bool {
        id[0] != 0
    }

    fn is_registered(id: &GuardianId) -> bool {
        id[0] != 0
    }
}

// Sessions end at block 1, then every 3 blocks; even sessions get a proposal.
struct EvenRuntime;

impl Config for EvenRuntime {
    type ShouldEndSession = PeriodicSessions<3, 1>;
    type SessionManager = EvenProposer;
    type GuardianRegistration = FirstByteSet;
}

// Every session gets B alone.
struct OnlyBRuntime;

impl Config for OnlyBRuntime {
    type ShouldEndSession = PeriodicSessions<3, 1>;
    type SessionManager = OnlyB;
    type GuardianRegistration = FirstByteSet;
}

// A session manager that never proposes.
struct QuietRuntime;

impl Config for QuietRuntime {
    type ShouldEndSession = PeriodicSessions<3, 1>;
    type SessionManager = ();
    type GuardianRegistration = FirstByteSet;
}

#[test]
fn rotation_queues_registered_guardians_with_a_session_of_delay() {
    let mut p = Pallet::new(10);
    p.rotate_guard_session::<EvenRuntime>();
    // Session 1 starts with the (empty) queued set; A and B are queued, the unregistered one is
    // left out.
    assert_eq!(p.current_index, 1);
    assert!(p.guardians.is_empty());
    assert_eq!(p.next_guardians, vec![A, B]);
    assert!(p.queued_changed);
    assert!(!p.default_groups_marker);
    assert_eq!(p.events, vec![Event::NewSession { session_index: 1 }]);

    p.disabled_guardians = vec![3];
    p.rotate_guard_session::<EvenRuntime>();
    // Session 2 uses the set queued in session 1; the disabled list is cleared since the queue
    // had changed. Nothing is proposed, so the set is queued again, unmarked.
    assert_eq!(p.current_index, 2);
    assert_eq!(p.guardians, vec![A, B]);
    assert!(p.disabled_guardians.is_empty());
    assert_eq!(p.next_guardians, vec![A, B]);
    assert!(!p.queued_changed);
    assert!(!p.default_groups_marker);

    p.disabled_guardians = vec![1];
    p.rotate_guard_session::<EvenRuntime>();
    // The same set is proposed again: a change all the same, since the weights behind it may
    // have changed, and the marker tells that the members are the same. The disabled list
    // stays, since nothing had been proposed the session before.
    assert_eq!(p.current_index, 3);
    assert_eq!(p.disabled_guardians, vec![1]);
    assert_eq!(p.next_guardians, vec![A, B]);
    assert!(p.queued_changed);
    assert!(p.default_groups_marker);

    p.disabled_guardians = vec![2];
    p.rotate_guard_session::<OnlyBRuntime>();
    assert!(p.disabled_guardians.is_empty());
    assert_eq!(p.next_guardians, vec![B]);
    assert!(p.queued_changed);
    assert!(!p.default_groups_marker);
    p.rotate_guard_session::<OnlyBRuntime>();
    assert_eq!(p.guardians, vec![B]);
    assert_eq!(
        p.events,
        vec![
            Event::NewSession { session_index: 1 },
            Event::NewSession { session_index: 2 },
            Event::NewSession { session_index: 3 },
            Event::NewSession { session_index: 4 },
            Event::NewSession { session_index: 5 },
        ]
    );
}

#[test]
fn apply_rotation_takes_the_outside_answers() {
    let mut p = Pallet::new(10);
    p.next_guardians = vec![A, B];
    p.queued_changed = true;
    p.disabled_guardians = vec![0, 1];
    p.apply_rotation(Some(vec![B, A, UNREGISTERED]), &vec![true, true, false]);
    assert_eq!(p.guardians, vec![A, B]);
    assert_eq!(p.next_guardians, vec![B, A]);
    assert!(p.disabled_guardians.is_empty());
    // Same guardians in another order: proposed, so a change; the marker tells the members
    // are the same.
    assert!(p.queued_changed);
    assert!(p.default_groups_marker);
    p.apply_rotation(None, &vec![false, true]);
    assert_eq!(p.next_guardians, vec![A]);
    assert!(!p.queued_changed);
    assert!(!p.default_groups_marker);
    assert_eq!(p.current_index, 2);
}

#[test]
fn periodic_sessions_end_after_offset_then_every_period() {
    type S = PeriodicSessions<3, 1>;
    let ends: Vec<bool> = (0u32..9).map(|n| <S as ShouldEndSession<u32>>::should_end_session(n)).collect();
    assert_eq!(ends, vec![false, true, false, false, true, false, false, true, false]);
    // With no period, blocks before the offset never end a session.
    assert!(!<PeriodicSessions<0, 5> as ShouldEndSession<u32>>::should_end_session(4));
}

#[test]
fn on_initialize_rotates_when_the_session_ends() {
    let mut p = Pallet::new(10);
    assert!(!p.on_initialize::<EvenRuntime>(0));
    assert_eq!(p.current_index, 0);
    assert!(p.on_initialize::<EvenRuntime>(1));
    assert_eq!(p.current_index, 1);
    assert!(!p.on_initialize::<EvenRuntime>(2));
    assert!(p.on_initialize::<EvenRuntime>(4));
    assert_eq!(p.current_index, 2);
}

#[test]
fn genesis_takes_the_first_proposed_set() {
    let mut p = Pallet::new(10);
    GenesisConfig.build::<EvenRuntime>(&mut p);
    // Session 0 gets the proposed set; nothing is proposed for session 1, so the same set is
    // queued for it.
    assert_eq!(p.guardians, vec![A, B, UNREGISTERED]);
    assert_eq!(p.next_guardians, vec![A, B, UNREGISTERED]);
    assert_eq!(p.current_index, 0);
    p.rotate_guard_session::<EvenRuntime>();
    assert_eq!(p.guardians, vec![A, B, UNREGISTERED]);

    let mut r = Pallet::new(10);
    GenesisConfig.build::<OnlyBRuntime>(&mut r);
    assert_eq!(r.guardians, vec![B]);
    assert_eq!(r.next_guardians, vec![B]);

    let mut q = Pallet::new(10);
    q.guardians = vec![A];
    q.next_guardians = vec![A];
    GenesisConfig.build::<QuietRuntime>(&mut q);
    assert!(q.guardians.is_empty());
    assert!(q.next_guardians.is_empty());
}

#[test]
fn answers_are_counted_at_the_end_of_the_block() {
    let mut p = Pallet::new(10);
    let id1 = [7u8; 32];
    let id2 = [8u8; 32];
    let id3 = [9u8; 32];
    let peer1 = [1u8; 32];
    let peer2 = [2u8; 32];
    let sig = [0u8; 64];
    assert_eq!(p.agreement_response(Origin::Unsigned, id1, peer1, sig, true), Ok(()));
    assert_eq!(p.agreement_response(Origin::Unsigned, id1, peer2, sig, false), Ok(()));
    assert_eq!(p.agreement_response(Origin::Unsigned, id3, peer2, sig, false), Ok(()));
    assert_eq!(p.agreement_response(Origin::Unsigned, id2, peer1, sig, true), Ok(()));
    assert_eq!(
        p.agreement_response(Origin::Signed(peer1), id2, peer1, sig, false),
        Err(DispatchError::BadOrigin)
    );
    assert_eq!(p.agreement_response(Origin::Root, id2, peer1, sig, false), Err(DispatchError::BadOrigin));
    assert_eq!(p.agreements_responses.get(&id1), Some(&vec![(peer1, true), (peer2, false)]));
    assert_eq!(p.agreements_responses.get(&id2), Some(&vec![(peer1, true)]));
    assert_eq!(
        p.events,
        vec![
            Event::NewAgreement { agrement: id1, signer: peer1, acceptance: true },
            Event::NewAgreement { agrement: id1, signer: peer2, acceptance: false },
            Event::NewAgreement { agrement: id3, signer: peer2, acceptance: false },
            Event::NewAgreement { agrement: id2, signer: peer1, acceptance: true },
        ]
    );
    assert_eq!(p.get_agreement_status(&id1), AgreementStatus::NotFound);

    p.on_finalize(1);
    // Any acceptance makes an agreement accepted; only rejections make it rejected.
    assert_eq!(p.get_agreement_status(&id1), AgreementStatus::Accepted);
    assert_eq!(p.get_agreement_status(&id2), AgreementStatus::Accepted);
    assert_eq!(p.get_agreement_status(&id3), AgreementStatus::Rejected);
    assert!(!p.agreements_responses.contains_key(&id3));
    assert!(!p.agreements_responses.contains_key(&id1));
    assert!(!p.agreements_responses.contains_key(&id2));
    assert!(p.agreement(Origin::Root).is_ok());
}

#[test]
fn utilized_agreement_reads_back() {
    let mut p = Pallet::new(10);
    let id = [9u8; 32];
    let other = [10u8; 32];
    assert_eq!(p.get_agreement_status(&id), AgreementStatus::NotFound);
    p.set_agreement_utilized(&id);
    assert_eq!(p.get_agreement_status(&id), AgreementStatus::Utilized);
    assert_eq!(p.get_agreement_status(&other), AgreementStatus::NotFound);
    AgreementProvider::set_agreement_utilized(&mut p, &other);
    assert_eq!(AgreementProvider::get_agreement_status(&p, &other), AgreementStatus::Utilized);
}

#[test]
fn workers_are_set_by_signed_origins() {
    let mut p = Pallet::new(10);
    let node = [5u8; 32];
    let account = [6u8; 32];
    assert_eq!(p.set_worker(Origin::Signed(account), node), Ok(()));
    assert_eq!(p.worker.get(&node), Some(&account));
    assert_eq!(p.set_worker(Origin::Unsigned, node), Err(DispatchError::BadOrigin));
    assert_eq!(p.set_worker(Origin::Root, [4u8; 32]), Err(DispatchError::BadOrigin));
    assert_eq!(p.worker.get(&[4u8; 32]), None);
    p.set_groups_marker(true);
    assert!(p.default_groups_marker);
}

#[test]
fn session_keys_follow_the_sessions() {
    let mut p = Pallet::new(2);
    p.on_genesis_session(&vec![]);
    assert!(p.keys.is_empty());
    p.on_genesis_session(&vec![(A, B), (B, A)]);
    assert_eq!(p.keys, vec![B, A]);
    p.on_new_session(true, &vec![(A, A), (B, B), (A, B)], &vec![]);
    assert_eq!(p.keys, vec![A, B, B]);
    p.set_keys(vec![A]);
    assert_eq!(p.keys, vec![A]);
}

#[test]
fn only_agreement_answers_signed_by_a_session_key_are_accepted_unsigned() {
    let peer = [3u8; 32];
    let id = [4u8; 32];
    let guardian = sr25519::Pair::from_seed(&[7u8; 32]);
    let stranger = sr25519::Pair::from_seed(&[8u8; 32]);
    let mut p = Pallet::new(10);
    p.set_keys(vec![[9u8; 32], guardian.public().0]);

    let signature = guardian.sign(&id).0;
    let call = Call::AgreementResponse { agreementid: id, peer_id: peer, signature, acceptance: true };
    let v = p.validate_unsigned(TransactionSource::External, &call).ok().unwrap();
    assert_eq!(v.priority, u64::MAX);
    assert_eq!(v.longevity, 64);
    assert!(v.propagate);
    assert!(v.requires.is_empty());
    let mut tag = vec![56u8];
    tag.extend_from_slice(b"GuardAgreement");
    tag.extend_from_slice(&peer);
    tag.extend_from_slice(&id);
    assert_eq!(v.provides, vec![tag]);

    // A signature by a key outside the session, of another agreement, or no signature at all.
    let by_stranger = Call::AgreementResponse { agreementid: id, peer_id: peer, signature: stranger.sign(&id).0, acceptance: true };
    assert!(matches!(p.validate_unsigned(TransactionSource::External, &by_stranger), Err(InvalidTransaction::BadProof)));
    let other = Call::AgreementResponse { agreementid: [5u8; 32], peer_id: peer, signature, acceptance: true };
    assert!(matches!(p.validate_unsigned(TransactionSource::External, &other), Err(InvalidTransaction::BadProof)));
    let unsigned = Call::AgreementResponse { agreementid: id, peer_id: peer, signature: [0u8; 64], acceptance: true };
    assert!(matches!(p.validate_unsigned(TransactionSource::External, &unsigned), Err(InvalidTransaction::BadProof)));
    // No session keys: nobody's answer is accepted.
    assert!(matches!(Pallet::new(10).validate_unsigned(TransactionSource::External, &call), Err(InvalidTransaction::BadProof)));

    assert!(matches!(
        p.validate_unsigned(TransactionSource::Local, &Call::SetWorker { nodeid: id }),
        Err(InvalidTransaction::Call)
    ));
    assert!(matches!(p.validate_unsigned(TransactionSource::InBlock, &Call::Agreement), Err(InvalidTransaction::Call)));
}

#[test]
fn genesis_applies_the_proposed_set_or_none() {
    let mut p = Pallet::new(10);
    GenesisConfig.apply_genesis(&mut p, Some(vec![A, B]), None);
    assert_eq!(p.guardians, vec![A, B]);
    assert_eq!(p.next_guardians, vec![A, B]);
    GenesisConfig.apply_genesis(&mut p, Some(vec![A]), Some(vec![B]));
    assert_eq!(p.guardians, vec![A]);
    assert_eq!(p.next_guardians, vec![B]);
    GenesisConfig.apply_genesis(&mut p, None, Some(vec![B]));
    assert!(p.guardians.is_empty());
    assert_eq!(p.next_guardians, vec![B]);
    GenesisConfig.apply_genesis(&mut p, None, None);
    assert!(p.guardians.is_empty());
    assert!(p.next_guardians.is_empty());
}
