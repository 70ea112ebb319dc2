//! The guardian set of a session, paired with each guardian's full identification, as it
//! is stored for off-chain processing, and the key it is stored under.
use vstd::prelude::*;

use crate::session::{GuardianId, SessionIndex};

verus! {

/// The guardians that have an identification, each paired with it, in their order.
pub open spec fn identified<F>(guardians: Seq<GuardianId>, identifications: Seq<Option<F>>) -> Seq<(GuardianId, F)>
    decreases guardians.len(),
{
    if guardians.len() == 0 {
        Seq::empty()
    } else {
        let rest = identified(guardians.drop_last(), identifications.drop_last());
        match identifications.last() {
            Some(f) => rest.push((guardians.last(), f)),
            None => rest,
        }
    }
}

/// Each guardian with an identification is kept, paired with it; each kept pair is a guardian
/// with its identification; nothing more is kept than there are guardians; and when every
/// guardian has an identification, all are kept, in order.
pub proof fn law_identified_pairs_each<F>(guardians: Seq<GuardianId>, identifications: Seq<Option<F>>)
    requires
        identifications.len() == guardians.len(),
    ensures
        forall|i: int|
            0 <= i < guardians.len() && (#[trigger] identifications[i]) is Some ==> identified(
                guardians,
                identifications,
            ).contains((guardians[i], identifications[i]->0)),
        forall|k: int|
            0 <= k < identified(guardians, identifications).len() ==> exists|j: int|
                0 <= j < guardians.len() && identifications[j] == Some(
                    (#[trigger] identified(guardians, identifications)[k]).1,
                ) && guardians[j] == identified(guardians, identifications)[k].0,
        identified(guardians, identifications).len() <= guardians.len(),
        (forall|i: int| 0 <= i < guardians.len() ==> (#[trigger] identifications[i]) is Some) ==> {
            &&& identified(guardians, identifications).len() == guardians.len()
            &&& forall|i: int|
                0 <= i < guardians.len() ==> #[trigger] identified(guardians, identifications)[i] == (
                    guardians[i],
                    identifications[i]->0,
                )
        },
    decreases guardians.len(),
{
    if guardians.len() > 0 {
        let n = guardians.len() - 1;
        let g = guardians.drop_last();
        let ids = identifications.drop_last();
        let rest = identified(g, ids);
        law_identified_pairs_each(g, ids);
        let res = identified(guardians, identifications);
        assert forall|i: int|
            0 <= i < guardians.len() && (#[trigger] identifications[i]) is Some implies res.contains(
                (guardians[i], identifications[i]->0),
            ) by {
            if i < n {
                assert(g[i] == guardians[i] && ids[i] == identifications[i]);
                let k = choose|k: int| 0 <= k < rest.len() && rest[k] == (g[i], ids[i]->0);
                assert(res[k] == rest[k]);
            } else {
                assert(res[res.len() - 1] == (guardians[i], identifications[i]->0));
            }
        }
        assert forall|k: int| 0 <= k < res.len() implies exists|j: int|
            0 <= j < guardians.len() && identifications[j] == Some((#[trigger] res[k]).1) && guardians[j]
                == res[k].0 by {
            if k < rest.len() {
                assert(res[k] == rest[k]);
                let j = choose|j: int|
                    0 <= j < g.len() && ids[j] == Some((#[trigger] rest[k]).1) && g[j] == rest[k].0;
                assert(identifications[j] == ids[j] && guardians[j] == g[j]);
            } else {
                assert(identifications[n] == Some(res[k].1) && guardians[n] == res[k].0);
            }
        }
        if forall|i: int| 0 <= i < guardians.len() ==> (#[trigger] identifications[i]) is Some {
            assert forall|i: int| 0 <= i < g.len() implies (#[trigger] ids[i]) is Some by {
                assert(ids[i] == identifications[i]);
            }
            assert(identifications[n] is Some);
            assert forall|i: int| 0 <= i < guardians.len() implies #[trigger] res[i] == (
                guardians[i],
                identifications[i]->0,
            ) by {
                if i < n {
                    assert(rest[i] == (g[i], ids[i]->0));
                    assert(g[i] == guardians[i] && ids[i] == identifications[i]);
                }
            }
        }
    }
}

/// Pairs each guardian with its full identification, `identifications[i]` being that of
/// `guardians[i]`, and leaves out those that have none.
pub fn identified_guardians<F>(guardians: &Vec<GuardianId>, identifications: Vec<Option<F>>) -> (r: Vec<(GuardianId, F)>)
    requires
        identifications@.len() == guardians@.len(),
    ensures
        r@ == identified(guardians@, identifications@),
        forall|i: int|
            0 <= i < guardians@.len() && (#[trigger] identifications@[i]) is Some ==> r@.contains(
                (guardians@[i], identifications@[i]->0),
            ),
        (forall|i: int| 0 <= i < guardians@.len() ==> (#[trigger] identifications@[i]) is Some) ==> {
            &&& r@.len() == guardians@.len()
            &&& forall|i: int|
                0 <= i < guardians@.len() ==> #[trigger] r@[i] == (guardians@[i], identifications@[i]->0)
        },
{
    proof {
        law_identified_pairs_each(guardians@, identifications@);
    }
    let ghost all = identifications@;
    let mut rest = identifications;
    let mut r: Vec<(GuardianId, F)> = Vec::new();
    let mut i: usize = 0;
    while i < guardians.len()
        invariant
            0 <= i <= guardians@.len(),
            all.len() == guardians@.len(),
            rest@ == all.skip(i as int),
            r@ == identified(guardians@.take(i as int), all.take(i as int)),
        decreases guardians@.len() - i,
    {
        proof {
            assert(guardians@.take(i + 1).drop_last() =~= guardians@.take(i as int));
            assert(all.take(i + 1).drop_last() =~= all.take(i as int));
        }
        let identification = rest.remove(0);
        match identification {
            Some(f) => {
                r.push((guardians[i], f));
            },
            None => {},
        }
        proof {
            assert(rest@ =~= all.skip(i + 1));
        }
        i = i + 1;
    }
    proof {
        assert(guardians@.take(guardians@.len() as int) =~= guardians@);
        assert(all.take(all.len() as int) =~= all);
    }
    r
}

/// The SCALE encoding of a `u32`: its four bytes, least significant first.
pub open spec fn u32_le_bytes(x: u32) -> Seq<u8> {
    seq![
        (x % 256) as u8,
        (x / 256 % 256) as u8,
        (x / 65536 % 256) as u8,
        (x / 16777216 % 256) as u8,
    ]
}

/// `x.encode()` with `parity-scale-codec`: the four bytes of `x`, least significant first.
#[verifier::external_body]
fn encode_u32(x: u32) -> (r: Vec<u8>)
    ensures
        r@ == u32_le_bytes(x),
{
    parity_scale_codec::Encode::encode(&x)
}

/// The off-chain key of the guardian set of session `session_index`: the prefix, a slash,
/// then the encoded session index.
pub fn derive_key(prefix: &[u8], session_index: SessionIndex) -> (r: Vec<u8>)
    ensures
        r@ == prefix@ + seq![47u8] + u32_le_bytes(session_index),
{
    let mut key: Vec<u8> = Vec::new();
    let mut i: usize = 0;
    while i < prefix.len()
        invariant
            0 <= i <= prefix@.len(),
            key@ == prefix@.take(i as int),
        decreases prefix@.len() - i,
    {
        key.push(prefix[i]);
        i = i + 1;
        proof {
            assert(key@ =~= prefix@.take(i as int));
        }
    }
    proof {
        assert(prefix@.take(prefix@.len() as int) =~= prefix@);
    }
    key.push(47u8);
    let encoded = encode_u32(session_index);
    let ghost head = key@;
    let mut j: usize = 0;
    while j < encoded.len()
        invariant
            0 <= j <= encoded@.len(),
            encoded@ == u32_le_bytes(session_index),
            head == prefix@ + seq![47u8],
            key@ == head + encoded@.take(j as int),
        decreases encoded@.len() - j,
    {
        key.push(encoded[j]);
        j = j + 1;
        proof {
            assert(key@ =~= head + encoded@.take(j as int));
        }
    }
    proof {
        assert(encoded@.take(encoded@.len() as int) =~= encoded@);
    }
    key
}

} // verus!
