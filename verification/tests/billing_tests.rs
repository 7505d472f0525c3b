use blockchain::chain::Blockchain;
use blockchain::crypto::{validate_signature, BillingQuery, PublicKey};
use blockchain::tx::{Data, Signable, SignedData};
use blockchain::wrapper::{BlockchainError, WrappedChain};

use ring::signature::{Ed25519KeyPair, KeyPair};

const DIFFICULTY: u8 = 3;

struct TestKey {
    key: Ed25519KeyPair,
}

impl TestKey {
    fn generate() -> Self {
        let rng = ring::rand::SystemRandom::new();
        let pkcs8 = Ed25519KeyPair::generate_pkcs8(&rng).expect("key generation failed");
        let key = Ed25519KeyPair::from_pkcs8(pkcs8.as_ref()).expect("key parsing failed");
        TestKey { key }
    }

    fn public_key(&self) -> PublicKey {
        PublicKey::from_bytes(self.key.public_key().as_ref().to_vec())
    }

    fn sign(&self, data: Data) -> SignedData {
        let message = data.get_bytes();
        let signature = self.key.sign(&message);
        let mut sig_bytes = [0u8; 64];
        sig_bytes.copy_from_slice(signature.as_ref());
        SignedData::new(sig_bytes, data)
    }
}

/// The chain of scenario D, oldest to newest:
/// usage(10), usage(20), billing(fp(user)), usage(30), usage(40).
fn billing_chain(user: &TestKey, provider: &TestKey) -> Blockchain {
    Blockchain::new()
        .append(user.sign(Data::Usage(10)), DIFFICULTY)
        .append(user.sign(Data::Usage(20)), DIFFICULTY)
        .append(provider.sign(Data::Billing(user.public_key().fingerprint())), DIFFICULTY)
        .append(user.sign(Data::Usage(30)), DIFFICULTY)
        .append(user.sign(Data::Usage(40)), DIFFICULTY)
}

#[test]
fn billing_query_returns_suffix_since_last_billing() {
    let user = TestKey::generate();
    let provider = TestKey::generate();
    let chain = billing_chain(&user, &provider);
    let wrapped = WrappedChain::new(chain);
    let query = BillingQuery::new(provider.public_key(), user.public_key().fingerprint());
    let sub = match wrapped.last_billing(&query) {
        Some(c) => c,
        None => panic!("billing query must find the billing record"),
    };
    assert_eq!(sub.len(), 3);
    let (head, rest) = sub.tail();
    assert!(head.expect("sub-chain has a head").data().data() == &Data::Usage(40));
    let (mid, rest) = rest.tail();
    assert!(mid.expect("sub-chain has a second block").data().data() == &Data::Usage(30));
    let (oldest, _) = rest.tail();
    assert!(
        oldest.expect("sub-chain has a third block").data().data()
            == &Data::Billing(user.public_key().fingerprint())
    );
}

#[test]
fn billing_query_misses_unknown_user() {
    let user = TestKey::generate();
    let provider = TestKey::generate();
    let other = TestKey::generate();
    let chain = billing_chain(&user, &provider);
    let wrapped = WrappedChain::new(chain);
    let query = BillingQuery::new(provider.public_key(), other.public_key().fingerprint());
    assert!(wrapped.last_billing(&query).is_none());
}

#[test]
fn billing_query_rejects_forged_billing_record() {
    let user = TestKey::generate();
    let provider = TestKey::generate();
    // The billing record is signed by the user, not the provider: querying
    // with the provider as signee must not accept it.
    let chain = Blockchain::new()
        .append(user.sign(Data::Billing(user.public_key().fingerprint())), DIFFICULTY)
        .append(user.sign(Data::Usage(30)), DIFFICULTY);
    let wrapped = WrappedChain::new(chain);
    let query = BillingQuery::new(provider.public_key(), user.public_key().fingerprint());
    assert!(wrapped.last_billing(&query).is_none());
}

#[test]
fn second_billing_shadows_the_first() {
    let user = TestKey::generate();
    let provider = TestKey::generate();
    let fp = user.public_key().fingerprint();
    let chain = Blockchain::new()
        .append(provider.sign(Data::Billing(fp.clone())), DIFFICULTY)
        .append(user.sign(Data::Usage(10)), DIFFICULTY)
        .append(provider.sign(Data::Billing(fp.clone())), DIFFICULTY)
        .append(user.sign(Data::Usage(20)), DIFFICULTY);
    let wrapped = WrappedChain::new(chain);
    let query = BillingQuery::new(provider.public_key(), fp.clone());
    let sub = match wrapped.last_billing(&query) {
        Some(c) => c,
        None => panic!("billing query must find the more recent billing"),
    };
    // Only the more recent billing and what follows it are returned.
    assert_eq!(sub.len(), 2);
    let (head, rest) = sub.tail();
    assert!(head.expect("sub-chain has a head").data().data() == &Data::Usage(20));
    let (oldest, _) = rest.tail();
    assert!(oldest.expect("sub-chain has an oldest block").data().data() == &Data::Billing(fp));
}

#[test]
fn wrapped_chain_append_and_latest_block() {
    let user = TestKey::generate();
    let chain = Blockchain::new();
    let block = chain.generate_block(user.sign(Data::Usage(5)), DIFFICULTY);
    let expected = block.clone();
    let mut wrapped = WrappedChain::new(chain);
    assert!(wrapped.latest_block().is_none());
    match wrapped.append(block) {
        Ok(()) => {},
        Err(_) => panic!("append of a freshly generated block must succeed"),
    }
    let latest = wrapped.latest_block().expect("chain has a head");
    assert!(latest == expected);
}

#[test]
fn wrapped_chain_append_rejects_stale_block() {
    let user = TestKey::generate();
    let chain = Blockchain::new().append(user.sign(Data::Usage(5)), DIFFICULTY);
    let stale = blockchain::block::Block::new(user.sign(Data::Usage(6)), DIFFICULTY as usize)
        .proof_of_work();
    let mut wrapped = WrappedChain::new(chain);
    match wrapped.append(stale) {
        Ok(()) => panic!("stale append must be rejected"),
        Err(e) => assert!(matches!(e, BlockchainError::InvalidBlock)),
    }
}

#[test]
fn signature_validation_accepts_real_and_rejects_tampered() {
    let user = TestKey::generate();
    let signed = user.sign(Data::Usage(7));
    assert!(validate_signature(&user.public_key(), &signed));
    // The same signature over different data must not validate.
    let tampered = SignedData::new(*signed.signature(), Data::Usage(8));
    assert!(!validate_signature(&user.public_key(), &tampered));
}

#[test]
fn fingerprint_is_sha256_of_key_bytes() {
    // SHA-256 of the empty byte string, a published test vector.
    let empty = PublicKey::from_bytes(Vec::new());
    let expected: [u8; 32] = [
        0xe3, 0xb0, 0xc4, 0x42, 0x98, 0xfc, 0x1c, 0x14, 0x9a, 0xfb, 0xf4, 0xc8, 0x99, 0x6f, 0xb9,
        0x24, 0x27, 0xae, 0x41, 0xe4, 0x64, 0x9b, 0x93, 0x4c, 0xa4, 0x95, 0x99, 0x1b, 0x78, 0x52,
        0xb8, 0x55,
    ];
    assert_eq!(empty.fingerprint(), expected.to_vec());
    // SHA-256 of "abc", a published test vector.
    let abc = PublicKey::from_bytes(vec![0x61, 0x62, 0x63]);
    let expected_abc: [u8; 32] = [
        0xba, 0x78, 0x16, 0xbf, 0x8f, 0x01, 0xcf, 0xea, 0x41, 0x41, 0x40, 0xde, 0x5d, 0xae, 0x22,
        0x23, 0xb0, 0x03, 0x61, 0xa3, 0x96, 0x17, 0x7a, 0x9c, 0xb4, 0x10, 0xff, 0x61, 0xf2, 0x00,
        0x15, 0xad,
    ];
    assert_eq!(abc.fingerprint(), expected_abc.to_vec());
}

#[test]
fn to_billing_carries_the_fingerprint() {
    let user = TestKey::generate();
    let pk = user.public_key();
    assert!(pk.to_billing() == Data::Billing(pk.fingerprint()));
    assert_eq!(pk.fingerprint().len(), 32);
}
