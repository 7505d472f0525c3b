//! Transaction data stored inside blocks: a tagged payload (a billing or a
//! usage record) wrapped together with the Ed25519 signature of its encoding.

use vstd::prelude::*;

use crate::codec::data_enc;

verus! {

/// Size of an Ed25519 signature in bytes.
pub const SIG_SIZE: usize = 64;

/// Convenience type for a signature.
pub type Signature = [u8; SIG_SIZE];

/// Convenience type for a fingerprint: the hash of a public key's raw bytes.
pub type Fingerprint = Vec<u8>;

/// Convenience type for signed data inside a block.
pub type BlockData = SignedData;

/// The data that can be contained in a block.
pub enum Data {
    /// Billing operation: closes an accounting period for the account
    /// identified by the fingerprint.
    Billing(Fingerprint),
    /// Usage operation: records a usage quantum attributed to the signer of
    /// the enclosing signed envelope.
    Usage(u64),
}

/// Abstract value of a payload.
pub ghost enum DataV {
    Billing(Seq<u8>),
    Usage(u64),
}

impl View for Data {
    type V = DataV;

    open spec fn view(&self) -> DataV {
        match self {
            Data::Billing(fp) => DataV::Billing(fp@),
            Data::Usage(u) => DataV::Usage(*u),
        }
    }
}

/// Wrapper for signed data: the payload together with the signature of the
/// payload's deterministic encoding.
pub struct SignedData {
    signature: Signature,
    data: Data,
}

/// Abstract value of a signed payload.
pub ghost struct SignedDataV {
    pub signature: Seq<u8>,
    pub data: DataV,
}

impl View for SignedData {
    type V = SignedDataV;

    closed spec fn view(&self) -> SignedDataV {
        SignedDataV { signature: self.signature@, data: self.data@ }
    }
}

impl SignedData {
    /// Generates a new object from supplied data and a signature.
    pub fn new(signature: Signature, data: Data) -> (r: Self)
        ensures
            r@ == (SignedDataV { signature: signature@, data: data@ }),
    {
        Self { signature, data }
    }

    /// Returns a reference to the wrapped data.
    pub fn data(&self) -> (r: &Data)
        ensures
            r@ == self@.data,
    {
        &self.data
    }

    /// Returns a reference to the wrapped signature.
    pub fn signature(&self) -> (r: &Signature)
        ensures
            r@ == self@.signature,
    {
        &self.signature
    }
}

/// Types that implement this trait can be signed: they expose the byte
/// encoding that a signature is computed over.
pub trait Signable {
    /// The deterministic encoding of the value, as covered by a signature.
    spec fn signable_bytes(&self) -> Seq<u8>;

    /// Converts the data to the list of bytes that is signed.
    fn get_bytes(&self) -> (r: Vec<u8>)
        ensures
            r@ == self.signable_bytes(),
    ;
}

impl Signable for Data {
    open spec fn signable_bytes(&self) -> Seq<u8> {
        data_enc(self@)
    }

    fn get_bytes(&self) -> (r: Vec<u8>) {
        crate::codec::encode_data(self)
    }
}

impl PartialEq for Data {
    /// Two payloads are equal iff they are the same variant with the same
    /// contents.
    fn eq(&self, other: &Self) -> (r: bool) {
        match (self, other) {
            (Data::Billing(a), Data::Billing(b)) => crate::codec::bytes_eq(a, b),
            (Data::Usage(a), Data::Usage(b)) => a == b,
            _ => false,
        }
    }
}

impl vstd::std_specs::cmp::PartialEqSpecImpl for Data {
    open spec fn obeys_eq_spec() -> bool {
        true
    }

    open spec fn eq_spec(&self, other: &Self) -> bool {
        self@ == other@
    }
}

impl PartialEq for SignedData {
    /// Two signed payloads are equal iff their signatures and payloads are.
    fn eq(&self, other: &Self) -> (r: bool) {
        crate::codec::eq64(&self.signature, &other.signature) && self.data == other.data
    }
}

impl vstd::std_specs::cmp::PartialEqSpecImpl for SignedData {
    open spec fn obeys_eq_spec() -> bool {
        true
    }

    open spec fn eq_spec(&self, other: &Self) -> bool {
        self@ == other@
    }
}

impl Clone for Data {
    /// The clone has the same abstract value as the original.
    fn clone(&self) -> (r: Self)
        ensures
            r@ == self@,
    {
        match self {
            Data::Billing(fp) => {
                let r = Data::Billing(crate::codec::clone_bytes(fp));
                proof {
                    assert(r@ == self@);
                }
                r
            },
            Data::Usage(u) => Data::Usage(*u),
        }
    }
}

impl Clone for SignedData {
    /// The clone has the same abstract value as the original.
    fn clone(&self) -> (r: Self)
        ensures
            r@ == self@,
    {
        SignedData { signature: self.signature, data: self.data.clone() }
    }
}

} // verus!
