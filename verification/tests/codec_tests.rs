use blockchain::block::Block;
use blockchain::chain::{Blockchain, PersistingError};
use blockchain::tx::{Data, Signable, SignedData};

fn le64(v: u64) -> Vec<u8> {
    let mut out = Vec::new();
    let mut x = v;
    for _ in 0..8 {
        out.push((x % 256) as u8);
        x /= 256;
    }
    out
}

#[test]
fn usage_encoding_is_tag_and_little_endian_value() {
    let data = Data::Usage(258);
    let bytes = data.get_bytes();
    assert_eq!(bytes, vec![1u8, 2, 1, 0, 0, 0, 0, 0, 0]);
}

#[test]
fn billing_encoding_is_tag_length_and_raw_bytes() {
    let data = Data::Billing(vec![0xAB, 0xCD]);
    let bytes = data.get_bytes();
    assert_eq!(bytes, vec![0u8, 2, 0, 0, 0, 0, 0, 0, 0, 0xAB, 0xCD]);
}

#[test]
fn block_encoding_lists_the_six_fields_in_order() {
    let data = SignedData::new([9u8; 64], Data::Usage(77));
    let block = Block::new_with_hash(data, [7u8; 32], 2).set_nonce(5, 1000);
    let bytes = block.as_bytes();
    let mut expected: Vec<u8> = Vec::new();
    expected.push(1); // version
    expected.extend_from_slice(&[7u8; 32]); // prev_hash
    expected.extend_from_slice(&le64(1000)); // time
    expected.extend_from_slice(&le64(2)); // difficulty
    expected.extend_from_slice(&le64(5)); // nonce
    expected.extend_from_slice(&[9u8; 64]); // signature
    expected.push(1); // payload tag: usage
    expected.extend_from_slice(&le64(77)); // usage quantum
    assert_eq!(bytes, expected);
}

#[test]
fn chain_round_trips_through_bytes() {
    let chain = Blockchain::new();
    let chain = chain.append(SignedData::new([1u8; 64], Data::Usage(10)), 1);
    let chain = chain.append(SignedData::new([2u8; 64], Data::Billing(vec![3, 4, 5])), 1);
    let bytes = chain.to_bytes();
    let reloaded = match Blockchain::from_bytes(&bytes) {
        Ok(c) => c,
        Err(_) => panic!("decoding failed"),
    };
    assert!(reloaded == chain);
    assert_eq!(reloaded.len(), 2);
}

#[test]
fn empty_chain_round_trips_through_bytes() {
    let chain = Blockchain::new();
    let bytes = chain.to_bytes();
    assert_eq!(bytes, le64(0));
    let reloaded = match Blockchain::from_bytes(&bytes) {
        Ok(c) => c,
        Err(_) => panic!("decoding failed"),
    };
    assert!(reloaded == chain);
}

#[test]
fn trailing_bytes_are_ignored_on_load() {
    let chain = Blockchain::new().append(SignedData::new([0u8; 64], Data::Usage(1)), 0);
    let mut bytes = chain.to_bytes();
    bytes.push(0xFF);
    let reloaded = match Blockchain::from_bytes(&bytes) {
        Ok(c) => c,
        Err(_) => panic!("decoding failed"),
    };
    assert!(reloaded == chain);
}

#[test]
fn truncated_bytes_fail_to_decode() {
    let chain = Blockchain::new().append(SignedData::new([0u8; 64], Data::Usage(1)), 0);
    let mut bytes = chain.to_bytes();
    bytes.pop();
    let r = Blockchain::from_bytes(&bytes);
    assert!(matches!(r, Err(PersistingError::DeserializingError)));
}

#[test]
fn short_header_fails_to_decode() {
    let bytes = vec![1u8, 2, 3];
    let r = Blockchain::from_bytes(&bytes);
    assert!(matches!(r, Err(PersistingError::DeserializingError)));
}
