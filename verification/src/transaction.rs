//! Which unsigned transactions the pallet accepts into the pool.
use vstd::prelude::*;

use crate::session::{AgreementId, GuardianId, Pallet, PeerId};

verus! {

/// A call of the pallet.
#[derive(Clone, Copy, PartialEq, Eq, Debug)]
pub enum Call {
    /// Records the signer as the worker of a node.
    SetWorker { nodeid: [u8; 32] },
    /// Does nothing.
    Agreement,
    /// A guardian's answer to an agreement.
    AgreementResponse { agreementid: AgreementId, peer_id: PeerId, signature: [u8; 64], acceptance: bool },
}

/// Where a transaction comes from.
#[derive(Clone, Copy, PartialEq, Eq, Debug)]
pub enum TransactionSource {
    InBlock,
    Local,
    External,
}

/// Why a transaction is refused.
#[derive(Clone, Copy, PartialEq, Eq, Debug)]
pub enum InvalidTransaction {
    /// The call cannot be sent unsigned.
    Call,
    /// The call's signature is not valid.
    BadProof,
}

/// How a valid transaction is handled by the pool.
pub struct ValidTransaction {
    /// Its priority; higher goes first.
    pub priority: u64,
    /// The tags that must be provided before it.
    pub requires: Vec<Vec<u8>>,
    /// The tags that it provides.
    pub provides: Vec<Vec<u8>>,
    /// For how many blocks it stays valid.
    pub longevity: u64,
    /// Whether it is gossiped to other nodes.
    pub propagate: bool,
}

/// The tag prefix of agreement answers.
pub open spec fn agreement_tag_prefix() -> Seq<u8> {
    seq![71u8, 117, 97, 114, 100, 65, 103, 114, 101, 101, 109, 101, 110, 116]
}

/// The SCALE encoding of a byte string of fewer than 64 bytes followed by two 32-byte
/// arrays: the length times four in one byte, then the bytes.
pub open spec fn encoded_tag(prefix: Seq<u8>, first: Seq<u8>, second: Seq<u8>) -> Seq<u8> {
    seq![(prefix.len() * 4) as u8] + prefix + first + second
}

/// `(prefix, (first, second)).encode()` with `parity-scale-codec`: the compact length of
/// `prefix`, its bytes, then the bytes of `first` and of `second`.
#[verifier::external_body]
fn encode_prefixed_pair(prefix: &[u8], first: [u8; 32], second: [u8; 32]) -> (r: Vec<u8>)
    requires
        prefix@.len() < 64,
    ensures
        r@ == encoded_tag(prefix@, first@, second@),
{
    parity_scale_codec::Encode::encode(&(prefix, (first, second)))
}

/// Whether `signature` is a valid sr25519 signature of `message` by the key `public`.
pub uninterp spec fn sr25519_signs(signature: Seq<u8>, message: Seq<u8>, public: Seq<u8>) -> bool;

/// `sp_io::crypto::sr25519_verify`: whether `signature` is a valid sr25519 signature of
/// `message` by the key `public`.
#[verifier::external_body]
fn sr25519_verify(signature: &[u8; 64], message: &[u8], public: &[u8; 32]) -> (r: bool)
    ensures
        r == sr25519_signs(signature@, message@, public@),
{
    sp_io::crypto::sr25519_verify(
        &sp_core::sr25519::Signature::from_raw(*signature),
        message,
        &sp_core::sr25519::Public::from_raw(*public),
    )
}

/// Whether one of `keys` signed the agreement identifier: the signed message is the SCALE
/// encoding of the 32-byte identifier, which is its bytes.
pub open spec fn signed_by_key(keys: Seq<GuardianId>, signature: [u8; 64], agreementid: AgreementId) -> bool {
    exists|i: int| 0 <= i < keys.len() && sr25519_signs(signature@, agreementid@, #[trigger] keys[i]@)
}

/// Whether one of `keys` signed the agreement identifier.
fn signed_by_any(keys: &Vec<GuardianId>, signature: &[u8; 64], agreementid: &AgreementId) -> (r: bool)
    ensures
        r == signed_by_key(keys@, *signature, *agreementid),
        r <==> exists|i: int| 0 <= i < keys@.len() && sr25519_signs(signature@, agreementid@, #[trigger] keys@[i]@),
{
    let mut i: usize = 0;
    while i < keys.len()
        invariant
            0 <= i <= keys@.len(),
            forall|j: int| 0 <= j < i ==> !sr25519_signs(signature@, agreementid@, #[trigger] keys@[j]@),
        decreases keys@.len() - i,
    {
        if sr25519_verify(signature, agreementid.as_slice(), &keys[i]) {
            return true;
        }
        i = i + 1;
    }
    false
}

impl Pallet {
    /// Accepts into the pool an agreement answer signed by one of the session keys, with the
    /// highest priority, for 64 blocks, gossiped, and providing the tag of its peer and
    /// agreement; refuses an answer with any other signature, and any other call.
    pub fn validate_unsigned(&self, source: TransactionSource, call: &Call) -> (r: Result<
        ValidTransaction,
        InvalidTransaction,
    >)
        ensures
            match *call {
                Call::AgreementResponse { agreementid, peer_id, signature, .. } => if signed_by_key(
                    self.keys@,
                    signature,
                    agreementid,
                ) {
                    match r {
                        Ok(v) => {
                            &&& v.priority == u64::MAX
                            &&& v.requires@.len() == 0
                            &&& v.provides@.len() == 1
                            &&& v.provides@[0]@ == encoded_tag(agreement_tag_prefix(), peer_id@, agreementid@)
                            &&& v.longevity == 64
                            &&& v.propagate
                        },
                        Err(_) => false,
                    }
                } else {
                    r == Err::<ValidTransaction, InvalidTransaction>(InvalidTransaction::BadProof)
                },
                _ => r == Err::<ValidTransaction, InvalidTransaction>(InvalidTransaction::Call),
            },
            match *call {
                Call::AgreementResponse { agreementid, signature, .. } => {
                    &&& forall|i: int|
                        0 <= i < self.keys@.len() && sr25519_signs(signature@, agreementid@, #[trigger] self.keys@[i]@)
                            ==> r is Ok
                    &&& r is Ok ==> exists|i: int|
                        0 <= i < self.keys@.len() && sr25519_signs(signature@, agreementid@, #[trigger] self.keys@[i]@)
                },
                _ => r is Err,
            },
    {
        match call {
            Call::AgreementResponse { agreementid, peer_id, signature, .. } => {
                if !signed_by_any(&self.keys, signature, agreementid) {
                    return Err(InvalidTransaction::BadProof);
                }
                // The ASCII bytes of `GuardAgreement`.
                let prefix: [u8; 14] = [71u8, 117, 97, 114, 100, 65, 103, 114, 101, 101, 109, 101, 110, 116];
                let tag = encode_prefixed_pair(prefix.as_slice(), *peer_id, *agreementid);
                let mut provides: Vec<Vec<u8>> = Vec::new();
                provides.push(tag);
                proof {
                    assert(prefix@ =~= agreement_tag_prefix());
                }
                Ok(ValidTransaction { priority: u64::MAX, requires: Vec::new(), provides, longevity: 64, propagate: true })
            },
            _ => Err(InvalidTransaction::Call),
        }
    }
}

/// An answer signed by any of the session keys, the first one included, counts as signed by
/// a session key; one that no session key signed does not.
pub proof fn law_any_session_key_signs(keys: Seq<GuardianId>, signature: [u8; 64], agreementid: AgreementId, i: int)
    ensures
        0 <= i < keys.len() && sr25519_signs(signature@, agreementid@, keys[i]@) ==> signed_by_key(
            keys,
            signature,
            agreementid,
        ),
        (forall|j: int| 0 <= j < keys.len() ==> !sr25519_signs(signature@, agreementid@, #[trigger] keys[j]@))
            ==> !signed_by_key(keys, signature, agreementid),
{
}

} // verus!
