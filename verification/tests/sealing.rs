use ledgerchain::chain::{candidate_encoding, header_encoding, BlockHeader, Chain};

#[test]
fn proof_of_work_prefix_parses_to_zero() {
    let mut h = BlockHeader {
        timestamp: 7,
        nonce: 0,
        pre_hash: "0".repeat(64),
        merkle: String::from("m"),
        difficulty: 2,
    };
    assert!(Chain::proof_of_work(&mut h));
    let digest = Chain::hash(&header_encoding(&h));
    let prefix: u32 = digest[..2].parse().unwrap();
    assert_eq!(prefix, 0);
}

#[test]
fn zero_difficulty_seals_immediately() {
    let mut h = BlockHeader {
        timestamp: 1,
        nonce: 5,
        pre_hash: String::new(),
        merkle: String::new(),
        difficulty: 0,
    };
    assert!(Chain::proof_of_work(&mut h));
    // The trivial predicate holds at once: the nonce is untouched.
    assert_eq!(h.nonce, 5);
}

#[test]
fn genesis_at_zero_difficulty_keeps_nonce_zero() {
    let c = Chain::new(String::from("M"), 0).unwrap();
    assert_eq!(c.chain[0].header.nonce, 0);
}

#[test]
fn sealed_nonce_is_minimal() {
    let original = BlockHeader {
        timestamp: 42,
        nonce: 0,
        pre_hash: String::from("p"),
        merkle: String::from("m"),
        difficulty: 1,
    };
    let mut h = BlockHeader {
        timestamp: 42,
        nonce: 0,
        pre_hash: String::from("p"),
        merkle: String::from("m"),
        difficulty: 1,
    };
    assert!(Chain::proof_of_work(&mut h));
    for m in 0..h.nonce {
        let digest = Chain::hash(&candidate_encoding(&original, m));
        assert!(!digest.starts_with('0'));
    }
    let digest = Chain::hash(&candidate_encoding(&original, h.nonce));
    assert!(digest.starts_with('0'));
}

#[test]
fn sealed_block_header_satisfies_its_difficulty() {
    let mut c = Chain::new(String::from("M"), 1).unwrap();
    assert!(c.generate_new_block());
    for block in &c.chain {
        let digest = Chain::hash(&header_encoding(&block.header));
        let d = block.header.difficulty as usize;
        let value: u32 = digest[..d].parse().unwrap();
        assert_eq!(value, 0);
    }
}
