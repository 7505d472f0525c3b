//! The narrow cryptographic surface the chain consumes: public keys and
//! their fingerprints, billing queries, and Ed25519 signature validation
//! over the deterministic payload encoding.

use vstd::prelude::*;

use crate::block::{sha256, sha256_of};
use crate::codec::{bytes_eq, clone_bytes, data_enc};
use crate::tx::{Data, DataV, Fingerprint, Signable, SignedData, SignedDataV};

verus! {

/// Whether `signature` is a valid Ed25519 signature of `message` under
/// `public_key`: a pure function of the three byte strings.
pub uninterp spec fn ed25519_verifies(
    public_key: Seq<u8>,
    message: Seq<u8>,
    signature: Seq<u8>,
) -> bool;

/// Relies on ring::signature::UnparsedPublicKey::verify with the ED25519
/// algorithm: verification is a pure function of the public key, message
/// and signature bytes.
#[verifier::external_body]
fn ed25519_verify(public_key: &Vec<u8>, message: &Vec<u8>, signature: &[u8; 64]) -> (r: bool)
    ensures
        r == ed25519_verifies(public_key@, message@, signature@),
{
    ring::signature::UnparsedPublicKey::new(&ring::signature::ED25519, public_key.as_slice())
        .verify(message.as_slice(), signature.as_slice())
        .is_ok()
}

/// A signed payload carries a valid signature under `pk`: the signature
/// verifies over the payload's deterministic encoding (never over the
/// signature itself).
pub open spec fn sig_valid(pk: Seq<u8>, s: SignedDataV) -> bool {
    ed25519_verifies(pk, data_enc(s.data), s.signature)
}

/// Wrapper for a public key's raw bytes.
pub struct PublicKey(Vec<u8>);

impl View for PublicKey {
    type V = Seq<u8>;

    closed spec fn view(&self) -> Seq<u8> {
        self.0@
    }
}

impl PublicKey {
    /// Wraps raw public key bytes.
    pub fn from_bytes(bytes: Vec<u8>) -> (r: Self)
        ensures
            r@ == bytes@,
    {
        PublicKey(bytes)
    }

    /// Generates the fingerprint of the public key: the hash of its raw
    /// byte encoding.
    pub fn fingerprint(&self) -> (r: Fingerprint)
        ensures
            r@ == sha256_of(self@),
    {
        let digest = sha256(&self.0);
        let v = vstd::slice::slice_to_vec(digest.as_slice());
        v
    }

    /// Generates transaction data for a billing record for this public key.
    pub fn to_billing(&self) -> (r: Data)
        ensures
            r@ == DataV::Billing(sha256_of(self@)),
    {
        Data::Billing(self.fingerprint())
    }

    /// Returns a reference to the public key bytes.
    pub fn bytes(&self) -> (r: &[u8])
        ensures
            r@ == self@,
    {
        self.0.as_slice()
    }
}

impl Clone for PublicKey {
    /// The clone has the same abstract value as the original.
    fn clone(&self) -> (r: Self)
        ensures
            r@ == self@,
    {
        PublicKey(clone_bytes(&self.0))
    }
}

/// Abstract value of a billing query.
pub ghost struct BillingQueryV {
    pub signee: Seq<u8>,
    pub user: Seq<u8>,
}

/// Query sent to the worker to receive the usage for a specified user:
/// the billing signee's public key and the queried user's fingerprint.
pub struct BillingQuery {
    signee: PublicKey,
    user: Fingerprint,
}

impl View for BillingQuery {
    type V = BillingQueryV;

    closed spec fn view(&self) -> BillingQueryV {
        BillingQueryV { signee: self.signee@, user: self.user@ }
    }
}

impl BillingQuery {
    /// Creates a new billing query for a given signee (the provider,
    /// identified by its public key) and a user (identified by its public
    /// key's fingerprint).
    pub fn new(signee: PublicKey, user: Fingerprint) -> (r: Self)
        ensures
            r@ == (BillingQueryV { signee: signee@, user: user@ }),
    {
        Self { signee, user }
    }

    /// Returns the signee.
    pub fn signee(&self) -> (r: &PublicKey)
        ensures
            r@ == self@.signee,
    {
        &self.signee
    }

    /// Returns the user.
    pub fn user(&self) -> (r: &Fingerprint)
        ensures
            r@ == self@.user,
    {
        &self.user
    }
}

/// Validates a signed payload's signature under a public key.
pub fn validate_signature(pub_key: &PublicKey, data: &SignedData) -> (r: bool)
    ensures
        r == sig_valid(pub_key@, data@),
{
    let message = data.data().get_bytes();
    ed25519_verify(&pub_key.0, &message, data.signature())
}

/// Tests whether a block's payload is the billing record the query names:
/// a billing payload whose fingerprint equals the queried user and whose
/// signature validates under the query's signee.
pub open spec fn billing_match(b: crate::block::BlockV, q: BillingQueryV) -> bool {
    match b.data.data {
        DataV::Billing(fp) => fp == q.user && sig_valid(q.signee, b.data),
        DataV::Usage(_) => false,
    }
}

/// The executable form of `billing_match`.
pub fn matches_query(blk: &crate::block::Block, query: &BillingQuery) -> (r: bool)
    ensures
        r == billing_match(blk@, query@),
{
    let signed = blk.data();
    match signed.data() {
        Data::Billing(fp) => {
            if bytes_eq(fp, query.user()) {
                validate_signature(query.signee(), signed)
            } else {
                false
            }
        },
        Data::Usage(_) => false,
    }
}

} // verus!
