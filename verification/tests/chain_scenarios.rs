use blockchain::block::{Block, VERSION};
use blockchain::chain::{Blockchain, BlockchainError};
use blockchain::crypto::PublicKey;
use blockchain::tx::{Data, Signable, SignedData};

use ring::signature::{Ed25519KeyPair, KeyPair};

const DIFFICULTY: u8 = 3;

struct TestKey {
    key: Ed25519KeyPair,
}

impl TestKey {
    fn generate() -> Self {
        let rng = ring::rand::SystemRandom::new();
        let pkcs8 = Ed25519KeyPair::generate_pkcs8(&rng).expect("key generation failed");
        let key = Ed25519KeyPair::from_pkcs8(pkcs8.as_ref()).expect("key parsing failed");
        TestKey { key }
    }

    fn public_key(&self) -> PublicKey {
        PublicKey::from_bytes(self.key.public_key().as_ref().to_vec())
    }

    fn sign(&self, data: Data) -> SignedData {
        let message = data.get_bytes();
        let signature = self.key.sign(&message);
        let mut sig_bytes = [0u8; 64];
        sig_bytes.copy_from_slice(signature.as_ref());
        SignedData::new(sig_bytes, data)
    }
}

#[test]
fn scenario_genesis_insert() {
    let user = TestKey::generate();
    let chain = Blockchain::new();
    let block = chain.generate_block(user.sign(Data::Usage(100)), DIFFICULTY);
    let chain = match chain.insert(block) {
        Ok(c) => c,
        Err(_) => panic!("genesis insert failed"),
    };
    assert_eq!(chain.len(), 1);
    let (head, _) = chain.tail();
    let head = head.expect("chain has a head");
    assert!(head.data().data() == &Data::Usage(100));
    assert_eq!(head.prev_hash(), &[0u8; 32]);
    assert!(chain.validate_chain());
}

#[test]
fn scenario_linked_insert() {
    let user = TestKey::generate();
    let provider = TestKey::generate();
    let chain = Blockchain::new();
    let block_a = chain.generate_block(user.sign(Data::Usage(100)), DIFFICULTY);
    let hash_a = block_a.hash();
    let chain = match chain.insert(block_a) {
        Ok(c) => c,
        Err(_) => panic!("genesis insert failed"),
    };
    let billing = provider.sign(Data::Billing(user.public_key().fingerprint()));
    let block_b = chain.generate_block(billing, DIFFICULTY);
    let chain = match chain.insert(block_b) {
        Ok(c) => c,
        Err(_) => panic!("linked insert failed"),
    };
    assert_eq!(chain.len(), 2);
    let (head, _) = chain.tail();
    assert_eq!(head.expect("chain has a head").prev_hash(), &hash_a);
    assert!(chain.validate_chain());
}

#[test]
fn scenario_rejected_insert() {
    let user = TestKey::generate();
    let chain = Blockchain::new()
        .append(user.sign(Data::Usage(1)), DIFFICULTY)
        .append(user.sign(Data::Usage(2)), DIFFICULTY);
    assert_eq!(chain.len(), 2);
    let head_before = chain.tail().0.expect("chain has a head").clone();
    // A stale block: its prev_hash is the all-zero array, not the head's hash.
    let stale = Block::new(user.sign(Data::Usage(3)), DIFFICULTY as usize).proof_of_work();
    match chain.insert(stale) {
        Ok(_) => panic!("stale insert must be rejected"),
        Err(BlockchainError::InvalidPrevHash(observed, expected)) => {
            assert_eq!(observed, [0u8; 32]);
            assert_eq!(expected, head_before.hash());
        },
        Err(_) => panic!("wrong error variant"),
    }
    assert_eq!(chain.len(), 2);
    assert!(chain.tail().0.expect("chain has a head") == &head_before);
}

#[test]
fn append_only_chains_validate() {
    let user = TestKey::generate();
    let chain = Blockchain::new()
        .append(user.sign(Data::Usage(1)), 1)
        .append(user.sign(Data::Usage(2)), 1)
        .append(user.sign(Data::Usage(3)), 1);
    assert_eq!(chain.len(), 3);
    assert!(chain.validate_chain());
}

#[test]
fn unchecked_append_breaks_validation() {
    let user = TestKey::generate();
    let chain = Blockchain::new();
    let chain = chain.unchecked_append(user.sign(Data::Usage(3)));
    let chain = chain.unchecked_append(user.sign(Data::Usage(5)));
    assert!(!chain.validate_chain());
}

#[test]
fn unmined_block_is_rejected_as_invalid_hash() {
    let user = TestKey::generate();
    let chain = Blockchain::new().append(user.sign(Data::Usage(1)), 0);
    let head_hash = chain.tail().0.expect("chain has a head").hash();
    // Find a nonce whose hash misses difficulty 16; a few tries suffice.
    let mut block = Block::new_with_hash(user.sign(Data::Usage(2)), head_hash, 16);
    while block.validate_difficulty() {
        let t = block.time();
        block = block.increment_nonce(t);
    }
    let difficulty = block.difficulty();
    let hash = block.hash();
    match chain.insert(block) {
        Ok(_) => panic!("unmined block must be rejected"),
        Err(BlockchainError::InvalidBlockHash(h, d)) => {
            assert_eq!(h, hash);
            assert_eq!(d, difficulty);
        },
        Err(_) => panic!("wrong error variant"),
    }
    assert_eq!(chain.len(), 1);
}

#[test]
fn unknown_version_is_rejected() {
    let user = TestKey::generate();
    let chain = Blockchain::new();
    // Craft the encoding of a version-2 block and decode it: decoding takes
    // the stored bytes verbatim, so the bad version reaches `insert`.
    let block = Block::new(user.sign(Data::Usage(9)), 0);
    let mut bytes = block.as_bytes();
    bytes[0] = 2;
    let decoded = match blockchain::block::decode_block(&bytes, 0) {
        Some((b, _)) => b,
        None => panic!("decoding failed"),
    };
    assert_eq!(decoded.version(), 2);
    match chain.insert(decoded) {
        Ok(_) => panic!("unknown version must be rejected"),
        Err(BlockchainError::UnknownVersion(v)) => assert_eq!(v, 2),
        Err(_) => panic!("wrong error variant"),
    }
}

#[test]
fn generated_block_links_to_head() {
    let user = TestKey::generate();
    let chain = Blockchain::new().append(user.sign(Data::Usage(1)), 1);
    let head_hash = chain.tail().0.expect("chain has a head").hash();
    let block = chain.generate_block(user.sign(Data::Usage(2)), 1);
    assert_eq!(block.prev_hash(), &head_hash);
    assert_eq!(block.version(), VERSION);
    assert!(block.validate_difficulty());
}

#[test]
fn chain_iter_yields_newest_first() {
    let user = TestKey::generate();
    let chain = Blockchain::new()
        .append(user.sign(Data::Usage(1)), 0)
        .append(user.sign(Data::Usage(2)), 0);
    let mut iter = chain.iter();
    assert!(iter.next().expect("two blocks").data().data() == &Data::Usage(2));
    assert!(iter.next().expect("two blocks").data().data() == &Data::Usage(1));
    assert!(iter.next().is_none());
}
