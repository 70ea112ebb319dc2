//! What the local node answers to the agreements it has seen: its notes on each agreement
//! are kept, SCALE-encoded, in its local store under the hash of the transaction that
//! carried the agreement.
use vstd::prelude::*;

use crate::ids::IdMap;
use crate::session::{AgreementAction, AgreementEntry, AgreementId, AgreementState, Pallet, PeerId};

verus! {

broadcast use vstd::array::group_array_axioms;

/// The BLAKE2b-256 digest of `data`.
pub uninterp spec fn blake2_256_digest(data: Seq<u8>) -> [u8; 32];

/// `sp_io::hashing::blake2_256`: the 256-bit BLAKE2b digest of `data`.
#[verifier::external_body]
fn blake2_256(data: &[u8]) -> (r: [u8; 32])
    ensures
        r == blake2_256_digest(data@),
{
    sp_io::hashing::blake2_256(data)
}

/// The key under which the local store keeps the notes on the agreement carried by
/// transaction `item`: the digest of its bytes.
pub fn agreement_storage_key(item: &Vec<u8>) -> (r: [u8; 32])
    ensures
        r == blake2_256_digest(item@),
{
    blake2_256(item.as_slice())
}

/// The index of an action in its encoding.
pub open spec fn action_byte(a: AgreementAction) -> u8 {
    match a {
        AgreementAction::Ignore => 0,
        AgreementAction::Accept => 1,
        AgreementAction::Reject => 2,
    }
}

/// The index of a state in its encoding.
pub open spec fn state_byte(s: AgreementState) -> u8 {
    match s {
        AgreementState::Pending => 0,
        AgreementState::Processed => 1,
    }
}

/// The action whose index is `b`.
pub open spec fn action_of_byte(b: u8) -> AgreementAction {
    if b == 0 {
        AgreementAction::Ignore
    } else if b == 1 {
        AgreementAction::Accept
    } else {
        AgreementAction::Reject
    }
}

/// The state whose index is `b`.
pub open spec fn state_of_byte(b: u8) -> AgreementState {
    if b == 0 {
        AgreementState::Pending
    } else {
        AgreementState::Processed
    }
}

/// The encoding of an entry: the action's index, the state's index, the identifier.
pub open spec fn entry_bytes(action: AgreementAction, state: AgreementState, id: Seq<u8>) -> Seq<u8> {
    seq![action_byte(action), state_byte(state)] + id
}

/// Whether `b` begins with the encoding of an entry.
pub open spec fn entry_decodes(b: Seq<u8>) -> bool {
    b.len() >= 34 && b[0] <= 2 && b[1] <= 1
}

/// The action, state and identifier that the notes `b` hold: those of the entry that `b`
/// begins with, or else the default entry (ignored, pending, all zeros).
pub open spec fn stored_entry(b: Seq<u8>) -> (AgreementAction, AgreementState, Seq<u8>) {
    if entry_decodes(b) {
        (action_of_byte(b[0]), state_of_byte(b[1]), b.subrange(2, 34))
    } else {
        (AgreementAction::Ignore, AgreementState::Pending, Seq::new(32, |i: int| 0u8))
    }
}

/// Whether the notes `b` call for an answer: an action other than ignoring it, and not yet
/// processed.
pub open spec fn calls_for_answer(b: Seq<u8>) -> bool {
    stored_entry(b).0 != AgreementAction::Ignore && stored_entry(b).1 != AgreementState::Processed
}

/// The SCALE encoding of an entry.
pub fn encode_entry(entry: &AgreementEntry) -> (r: Vec<u8>)
    ensures
        r@ == entry_bytes(entry.0, entry.1, entry.2@),
        r@.len() == 34,
        r@[0] == match entry.0 {
            AgreementAction::Ignore => 0u8,
            AgreementAction::Accept => 1u8,
            AgreementAction::Reject => 2u8,
        },
        r@[1] == match entry.1 {
            AgreementState::Pending => 0u8,
            AgreementState::Processed => 1u8,
        },
        r@.subrange(2, 34) == entry.2@,
{
    let mut r: Vec<u8> = Vec::new();
    let a: u8 = match entry.0 {
        AgreementAction::Ignore => 0,
        AgreementAction::Accept => 1,
        AgreementAction::Reject => 2,
    };
    let s: u8 = match entry.1 {
        AgreementState::Pending => 0,
        AgreementState::Processed => 1,
    };
    r.push(a);
    r.push(s);
    let mut i: usize = 0;
    while i < 32
        invariant
            0 <= i <= 32,
            r@ == seq![a, s] + entry.2@.take(i as int),
        decreases 32 - i,
    {
        r.push(entry.2[i]);
        i = i + 1;
        proof {
            assert(r@ =~= seq![a, s] + entry.2@.take(i as int));
        }
    }
    proof {
        assert(entry.2@.take(32) =~= entry.2@);
    }
    r
}

/// Decodes the entry that `bytes` begin with; `None` when they are too short or an index
/// is out of range.
pub fn decode_entry(bytes: &[u8]) -> (r: Option<AgreementEntry>)
    ensures
        r is Some <==> entry_decodes(bytes@),
        r matches Some(e) ==> {
            &&& e.0 == action_of_byte(bytes@[0])
            &&& e.1 == state_of_byte(bytes@[1])
            &&& e.2@ == bytes@.subrange(2, 34)
        },
        r matches Some(e) ==> {
            &&& (e.0 == AgreementAction::Ignore <==> bytes@[0] == 0)
            &&& (e.0 == AgreementAction::Accept <==> bytes@[0] == 1)
            &&& (e.0 == AgreementAction::Reject <==> bytes@[0] == 2)
            &&& (e.1 == AgreementState::Pending <==> bytes@[1] == 0)
            &&& (e.1 == AgreementState::Processed <==> bytes@[1] == 1)
        },
{
    if bytes.len() < 34 {
        return None;
    }
    let action = match bytes[0] {
        0 => AgreementAction::Ignore,
        1 => AgreementAction::Accept,
        2 => AgreementAction::Reject,
        _ => {
            return None;
        },
    };
    let state = match bytes[1] {
        0 => AgreementState::Pending,
        1 => AgreementState::Processed,
        _ => {
            return None;
        },
    };
    let mut id: [u8; 32] = [0u8; 32];
    let mut i: usize = 0;
    while i < 32
        invariant
            0 <= i <= 32,
            bytes@.len() >= 34,
            forall|j: int| 0 <= j < i ==> id@[j] == bytes@[j + 2],
        decreases 32 - i,
    {
        id[i] = bytes[i + 2];
        i = i + 1;
    }
    proof {
        assert(id@ =~= bytes@.subrange(2, 34));
    }
    Some(AgreementEntry(action, state, id))
}

/// Decoding the encoding of an entry gives the entry back.
pub proof fn law_entry_round_trip(action: AgreementAction, state: AgreementState, id: Seq<u8>)
    requires
        id.len() == 32,
    ensures
        entry_decodes(entry_bytes(action, state, id)),
        stored_entry(entry_bytes(action, state, id)) == (action, state, id),
{
    let b = entry_bytes(action, state, id);
    assert(b.subrange(2, 34) =~= id);
}

/// The entry that the notes `stored` hold when they call for an answer.
pub fn answer_for(stored: &Vec<u8>) -> (r: Option<AgreementEntry>)
    ensures
        r is Some <==> calls_for_answer(stored@),
        r matches Some(e) ==> {
            &&& e.0 == stored_entry(stored@).0
            &&& e.1 == stored_entry(stored@).1
            &&& e.2@ == stored_entry(stored@).2
        },
{
    match decode_entry(stored.as_slice()) {
        Some(e) => match (e.0, e.1) {
            (AgreementAction::Ignore, _) => None,
            (_, AgreementState::Processed) => None,
            _ => Some(e),
        },
        None => None,
    }
}

/// The 32 bytes that identify the local peer: the last 32 bytes of its network identifier,
/// right-aligned and padded with zeros in front when it is shorter.
pub open spec fn peer_id_bytes(s: Seq<u8>) -> Seq<u8> {
    Seq::new(
        32,
        |j: int|
            if s.len() >= 32 - j {
                s[s.len() - 32 + j]
            } else {
                0u8
            },
    )
}

/// The local peer's 32-byte identifier, from its network identifier.
pub fn peer_id_from_network(network_peer_id: &Vec<u8>) -> (r: PeerId)
    ensures
        r@ == peer_id_bytes(network_peer_id@),
{
    let len: usize = network_peer_id.len();
    let start: usize = if len >= 32 { len - 32 } else { 0 };
    let mut arr: [u8; 32] = [0u8; 32];
    let offset: usize = 32 - (len - start);
    let mut i: usize = start;
    while i < len
        invariant
            start <= i <= len,
            len == network_peer_id@.len(),
            start == (if len >= 32 { len - 32 } else { 0 }),
            offset == 32 - (len - start),
            forall|j: int| 0 <= j < 32 ==> #[trigger] arr@[j] == (if offset <= j < offset + (i - start) {
                network_peer_id@[len - 32 + j]
            } else {
                0u8
            }),
        decreases len - i,
    {
        arr[offset + (i - start)] = network_peer_id[i];
        i = i + 1;
    }
    proof {
        assert(arr@ =~= peer_id_bytes(network_peer_id@));
    }
    arr
}

/// A guardian's answer: the agreement, the answering peer, and whether it accepts.
pub type AgreementVote = (AgreementId, PeerId, bool);

/// The local store with its values as byte sequences.
pub open spec fn store_bytes(store: Map<[u8; 32], Vec<u8>>) -> Map<[u8; 32], Seq<u8>> {
    store.map_values(|v: Vec<u8>| v@)
}

/// The transactions as byte sequences.
pub open spec fn items_bytes(items: Seq<Vec<u8>>) -> Seq<Seq<u8>> {
    items.map_values(|v: Vec<u8>| v@)
}

/// Going through `items` in order from the local store `store`: the agreements answered,
/// each with its identifier and whether it is accepted, and the store afterwards, in which
/// each answered agreement's notes are marked processed.
pub open spec fn accept_fold(store: Map<[u8; 32], Seq<u8>>, items: Seq<Seq<u8>>) -> (
    Seq<(Seq<u8>, bool)>,
    Map<[u8; 32], Seq<u8>>,
)
    decreases items.len(),
{
    if items.len() == 0 {
        (Seq::empty(), store)
    } else {
        let prev = accept_fold(store, items.drop_last());
        let key = blake2_256_digest(items.last());
        if prev.1.contains_key(key) && calls_for_answer(prev.1[key]) {
            let e = stored_entry(prev.1[key]);
            (
                prev.0.push((e.2, e.0 == AgreementAction::Accept)),
                prev.1.insert(key, entry_bytes(e.0, AgreementState::Processed, e.2)),
            )
        } else {
            prev
        }
    }
}

impl Pallet {
    /// Goes through the pending transactions `items` and answers, as the peer with network
    /// identifier `network_peer_id`, each agreement whose notes in the local store call for
    /// an answer, marking those notes processed.
    pub fn accept_agreements(
        store: &mut IdMap<Vec<u8>>,
        items: &Vec<Vec<u8>>,
        network_peer_id: &Vec<u8>,
    ) -> (r: Vec<AgreementVote>)
        ensures
            ({
                let f = accept_fold(store_bytes(old(store)@), items_bytes(items@));
                &&& r@.len() == f.0.len()
                &&& forall|i: int|
                    0 <= i < r@.len() ==> {
                        &&& (#[trigger] r@[i]).0@ == f.0[i].0
                        &&& r@[i].1@ == peer_id_bytes(network_peer_id@)
                        &&& r@[i].2 == f.0[i].1
                    }
                &&& store_bytes(final(store)@) == f.1
            }),
    {
        let peer_id = peer_id_from_network(network_peer_id);
        let mut agreements: Vec<AgreementVote> = Vec::new();
        let ghost start = store_bytes(store@);
        let ghost all = items_bytes(items@);
        let mut i: usize = 0;
        while i < items.len()
            invariant
                0 <= i <= items@.len(),
                start == store_bytes(old(store)@),
                all == items_bytes(items@),
                peer_id@ == peer_id_bytes(network_peer_id@),
                ({
                    let f = accept_fold(start, all.take(i as int));
                    &&& agreements@.len() == f.0.len()
                    &&& forall|k: int|
                        0 <= k < agreements@.len() ==> {
                            &&& (#[trigger] agreements@[k]).0@ == f.0[k].0
                            &&& agreements@[k].1 == peer_id
                            &&& agreements@[k].2 == f.0[k].1
                        }
                    &&& store_bytes(store@) == f.1
                }),
            decreases items@.len() - i,
        {
            proof {
                assert(all.take(i + 1).drop_last() =~= all.take(i as int));
                assert(all.take(i + 1).last() == items@[i as int]@);
            }
            let key = blake2_256(items[i].as_slice());
            let answer = match store.get(&key) {
                Some(notes) => answer_for(notes),
                None => None,
            };
            match answer {
                Some(e) => {
                    let accepted = match e.0 {
                        AgreementAction::Accept => true,
                        _ => false,
                    };
                    agreements.push((e.2, peer_id, accepted));
                    let processed = encode_entry(&AgreementEntry(e.0, AgreementState::Processed, e.2));
                    let ghost before = store@;
                    store.insert(key, processed);
                    proof {
                        assert(store_bytes(store@) =~= store_bytes(before).insert(key, processed@));
                    }
                },
                None => {},
            }
            i = i + 1;
        }
        proof {
            assert(all.take(items@.len() as int) =~= all);
        }
        agreements
    }
}

/// `a` and `b` agree on their first `i` bytes.
pub open spec fn agree_before(a: Seq<u8>, b: Seq<u8>, i: int) -> bool {
    forall|j: int| 0 <= j < i ==> a[j] == b[j]
}

/// `a` comes strictly before `b` in byte order: at the first byte where they differ, `a`'s
/// is smaller.
pub open spec fn key_lt(a: [u8; 32], b: [u8; 32]) -> bool {
    exists|i: int| 0 <= i < 32 && #[trigger] agree_before(a@, b@, i) && a@[i] < b@[i]
}

/// No key comes after the one that follows it.
pub open spec fn keys_sorted(s: Seq<[u8; 32]>) -> bool {
    forall|i: int| 0 <= i < s.len() - 1 ==> !key_lt(#[trigger] s[i + 1], s[i])
}

/// A key never comes both before and after another.
proof fn lemma_key_lt_asymmetric(a: [u8; 32], b: [u8; 32])
    requires
        key_lt(a, b),
    ensures
        !key_lt(b, a),
{
    let i = choose|i: int| 0 <= i < 32 && #[trigger] agree_before(a@, b@, i) && a@[i] < b@[i];
    if key_lt(b, a) {
        let k = choose|k: int| 0 <= k < 32 && #[trigger] agree_before(b@, a@, k) && b@[k] < a@[k];
        if k < i {
            assert(a@[k] == b@[k]);
        } else if i < k {
            assert(b@[i] == a@[i]);
        }
    }
}

/// Whether `a` comes strictly before `b` in byte order.
fn key_less(a: &[u8; 32], b: &[u8; 32]) -> (r: bool)
    ensures
        r == key_lt(*a, *b),
{
    let mut i: usize = 0;
    while i < 32
        invariant
            0 <= i <= 32,
            agree_before(a@, b@, i as int),
        decreases 32 - i,
    {
        if a[i] != b[i] {
            let r: bool = a[i] < b[i];
            proof {
                if !r && key_lt(*a, *b) {
                    let k = choose|k: int| 0 <= k < 32 && #[trigger] agree_before(a@, b@, k) && a@[k] < b@[k];
                    if k < i {
                        assert(a@[k] == b@[k]);
                    } else if i < k {
                        assert(a@[i as int] == b@[i as int]);
                    }
                }
                if r {
                    assert(agree_before(a@, b@, i as int));
                }
            }
            return r;
        }
        i = i + 1;
    }
    proof {
        if key_lt(*a, *b) {
            let k = choose|k: int| 0 <= k < 32 && #[trigger] agree_before(a@, b@, k) && a@[k] < b@[k];
            assert(a@[k] == b@[k]);
        }
    }
    false
}

/// The keys in byte order.
pub fn sort_keys(keys: &Vec<[u8; 32]>) -> (r: Vec<[u8; 32]>)
    ensures
        keys_sorted(r@),
        r@.to_multiset() == keys@.to_multiset(),
{
    let mut r: Vec<[u8; 32]> = Vec::new();
    let mut i: usize = 0;
    proof {
        assert(keys@.take(0) =~= r@);
    }
    while i < keys.len()
        invariant
            0 <= i <= keys@.len(),
            keys_sorted(r@),
            r@.to_multiset() == keys@.take(i as int).to_multiset(),
        decreases keys@.len() - i,
    {
        let x = keys[i];
        let mut p: usize = 0;
        while p < r.len()
            invariant
                0 <= p <= r@.len(),
                forall|q: int| 0 <= q < p ==> !key_lt(x, #[trigger] r@[q]),
            ensures
                0 <= p <= r@.len(),
                forall|q: int| 0 <= q < p ==> !key_lt(x, #[trigger] r@[q]),
                p < r@.len() ==> key_lt(x, r@[p as int]),
            decreases r@.len() - p,
        {
            if key_less(&x, &r[p]) {
                break;
            }
            p = p + 1;
        }
        let ghost before = r@;
        proof {
            if p < before.len() {
                assert(key_lt(x, before[p as int]));
            }
        }
        r.insert(p, x);
        proof {
            assert(r@ =~= before.insert(p as int, x));
            assert forall|k: int| 0 <= k < r@.len() - 1 implies !key_lt(#[trigger] r@[k + 1], r@[k]) by {
                if k + 1 < p {
                    assert(r@[k] == before[k] && r@[k + 1] == before[k + 1]);
                    assert(!key_lt(before[k + 1], before[k]));
                } else if k + 1 == p {
                    assert(r@[k] == before[k] && r@[k + 1] == x);
                    assert(!key_lt(x, before[k]));
                } else if k == p {
                    assert(r@[k] == x && r@[k + 1] == before[k]);
                    lemma_key_lt_asymmetric(x, before[k]);
                } else {
                    assert(r@[k] == before[k - 1] && r@[k + 1] == before[k]);
                    assert(!key_lt(before[(k - 1) + 1], before[k - 1]));
                }
            }
            vstd::seq_lib::to_multiset_insert(before, p as int, x);
            vstd::seq_lib::to_multiset_build(keys@.take(i as int), x);
            assert(keys@.take(i + 1) =~= keys@.take(i as int).push(x));
        }
        i = i + 1;
    }
    proof {
        assert(keys@.take(keys@.len() as int) =~= keys@);
    }
    r
}

/// The answers to send, key by key in the order of `keys`, each key answering every
/// agreement in turn.
pub open spec fn submissions(keys: Seq<[u8; 32]>, votes: Seq<AgreementVote>) -> Seq<([u8; 32], AgreementVote)>
    decreases keys.len(),
{
    if keys.len() == 0 {
        Seq::empty()
    } else {
        submissions(keys.drop_last(), votes) + votes.map_values(|v: AgreementVote| (keys.last(), v))
    }
}

/// The order in which the local keys sign and send the answers `agreements`: the keys in byte
/// order, each signing every answer in turn.
pub fn signing_order(local_keys: &Vec<[u8; 32]>, agreements: &Vec<AgreementVote>) -> (r: Vec<([u8; 32], AgreementVote)>)
    ensures
        exists|sorted: Seq<[u8; 32]>|
            {
                &&& keys_sorted(sorted)
                &&& sorted.to_multiset() == local_keys@.to_multiset()
                &&& r@ == submissions(sorted, agreements@)
            },
{
    let keys = sort_keys(local_keys);
    let mut r: Vec<([u8; 32], AgreementVote)> = Vec::new();
    let mut i: usize = 0;
    while i < keys.len()
        invariant
            0 <= i <= keys@.len(),
            r@ == submissions(keys@.take(i as int), agreements@),
        decreases keys@.len() - i,
    {
        let key = keys[i];
        let ghost done = r@;
        let mut j: usize = 0;
        while j < agreements.len()
            invariant
                0 <= j <= agreements@.len(),
                0 <= i < keys@.len(),
                key == keys@[i as int],
                r@ == done + agreements@.take(j as int).map_values(|v: AgreementVote| (key, v)),
            decreases agreements@.len() - j,
        {
            r.push((key, agreements[j]));
            j = j + 1;
            proof {
                assert(r@ =~= done + agreements@.take(j as int).map_values(|v: AgreementVote| (key, v)));
            }
        }
        proof {
            assert(agreements@.take(agreements@.len() as int) =~= agreements@);
            assert(keys@.take(i + 1).drop_last() =~= keys@.take(i as int));
        }
        i = i + 1;
    }
    proof {
        assert(keys@.take(keys@.len() as int) =~= keys@);
    }
    r
}

/// The notes are SCALE-encoded entries: the action's index (ignore 0, accept 1, reject 2),
/// the state's index (pending 0, processed 1), then the 32 bytes of the identifier. A pending
/// note to accept or reject calls for an answer and is rewritten as processed; an ignored or
/// processed note does not.
pub proof fn law_scale_note_format(id: Seq<u8>)
    requires
        id.len() == 32,
    ensures
        stored_entry(seq![0u8, 0u8] + id) == (AgreementAction::Ignore, AgreementState::Pending, id),
        stored_entry(seq![1u8, 0u8] + id) == (AgreementAction::Accept, AgreementState::Pending, id),
        stored_entry(seq![2u8, 0u8] + id) == (AgreementAction::Reject, AgreementState::Pending, id),
        stored_entry(seq![1u8, 1u8] + id) == (AgreementAction::Accept, AgreementState::Processed, id),
        entry_bytes(AgreementAction::Ignore, AgreementState::Pending, id) == seq![0u8, 0u8] + id,
        entry_bytes(AgreementAction::Accept, AgreementState::Processed, id) == seq![1u8, 1u8] + id,
        entry_bytes(AgreementAction::Reject, AgreementState::Processed, id) == seq![2u8, 1u8] + id,
        calls_for_answer(seq![1u8, 0u8] + id),
        calls_for_answer(seq![2u8, 0u8] + id),
        !calls_for_answer(seq![0u8, 0u8] + id),
        !calls_for_answer(seq![1u8, 1u8] + id),
        !entry_decodes(seq![3u8, 0u8] + id),
{
    assert((seq![0u8, 0u8] + id).subrange(2, 34) =~= id);
    assert((seq![1u8, 0u8] + id).subrange(2, 34) =~= id);
    assert((seq![2u8, 0u8] + id).subrange(2, 34) =~= id);
    assert((seq![1u8, 1u8] + id).subrange(2, 34) =~= id);
}

} // verus!
