use ledgerchain::chain::{header_encoding, Chain, Transaction, DEFAULT_REWARD};
use ledgerchain::LedgerError;

#[test]
fn construct_seeds_genesis() {
    let c = Chain::new(String::from("M"), 1).unwrap();
    assert_eq!(c.chain.len(), 1);
    assert_eq!(c.curr_trans.len(), 0);
    assert_eq!(c.difficulty, 1);
    assert_eq!(c.miner_addr, "M");
    assert_eq!(c.reward, DEFAULT_REWARD);
    let genesis = &c.chain[0];
    assert_eq!(genesis.header.pre_hash, "0".repeat(64));
    assert_eq!(genesis.count, 1);
    assert_eq!(genesis.transactions.len(), 1);
    assert_eq!(genesis.transactions[0].sender, "Root");
    assert_eq!(genesis.transactions[0].receiver, "M");
    assert_eq!(genesis.transactions[0].amount, DEFAULT_REWARD);
}

#[test]
fn scenario_submit_then_seal() {
    let mut c = Chain::new(String::from("M"), 1).unwrap();
    assert_eq!(c.chain.len(), 1);
    assert!(c.new_transaction(String::from("A"), String::from("B"), 10));
    assert_eq!(c.curr_trans.len(), 1);
    assert!(c.generate_new_block());
    assert_eq!(c.chain.len(), 2);
    assert_eq!(c.curr_trans.len(), 0);
    let sealed = &c.chain[1];
    assert_eq!(sealed.count, 2);
    assert_eq!(sealed.transactions.len(), 2);
    assert_eq!(sealed.transactions[0].sender, "Root");
    assert_eq!(sealed.transactions[0].receiver, "M");
    assert_eq!(sealed.transactions[0].amount, DEFAULT_REWARD);
    assert_eq!(sealed.transactions[1].sender, "A");
    assert_eq!(sealed.transactions[1].receiver, "B");
    assert_eq!(sealed.transactions[1].amount, 10);
}

#[test]
fn scenario_consecutive_empty_seals() {
    let mut c = Chain::new(String::from("M"), 1).unwrap();
    assert!(c.generate_new_block());
    assert!(c.generate_new_block());
    assert_eq!(c.chain.len(), 3);
    for block in &c.chain {
        assert_eq!(block.transactions.len(), 1);
        assert_eq!(block.count, 1);
        assert_eq!(block.transactions[0].sender, "Root");
        assert_eq!(block.transactions[0].receiver, "M");
    }
}

#[test]
fn seal_grows_chain_by_one_and_empties_pool() {
    let mut c = Chain::new(String::from("M"), 0).unwrap();
    c.new_transaction(String::from("A"), String::from("B"), 1);
    c.new_transaction(String::from("B"), String::from("C"), 2);
    let before = c.chain.len();
    assert!(c.generate_new_block());
    assert_eq!(c.chain.len(), before + 1);
    assert_eq!(c.curr_trans.len(), 0);
}

#[test]
fn chain_linkage_and_last_hash_track_head() {
    let mut c = Chain::new(String::from("M"), 1).unwrap();
    assert_eq!(c.last_hash(), Chain::hash(&header_encoding(&c.chain[0].header)));
    c.new_transaction(String::from("A"), String::from("B"), 5);
    assert!(c.generate_new_block());
    assert!(c.generate_new_block());
    for k in 1..c.chain.len() {
        let prev_digest = Chain::hash(&header_encoding(&c.chain[k - 1].header));
        assert_eq!(c.chain[k].header.pre_hash, prev_digest);
    }
    let head_digest = Chain::hash(&header_encoding(&c.chain[c.chain.len() - 1].header));
    assert_eq!(c.last_hash(), head_digest);
}

#[test]
fn empty_chain_last_hash_is_placeholder() {
    let c = Chain {
        chain: Vec::new(),
        curr_trans: Vec::new(),
        difficulty: 1,
        miner_addr: String::from("M"),
        reward: DEFAULT_REWARD,
    };
    assert_eq!(c.last_hash(), "0".repeat(64));
}

#[test]
fn parameter_updates_take_effect_next_seal() {
    let mut c = Chain::new(String::from("M"), 1).unwrap();
    let frozen_difficulty = c.chain[0].header.difficulty;
    assert!(c.update_reward(7));
    assert!(c.update_difficulty(0));
    assert_eq!(c.reward, 7);
    assert_eq!(c.difficulty, 0);
    // Already-sealed blocks are frozen.
    assert_eq!(c.chain[0].header.difficulty, frozen_difficulty);
    assert_eq!(c.chain[0].transactions[0].amount, DEFAULT_REWARD);
    assert!(c.generate_new_block());
    let sealed = &c.chain[1];
    assert_eq!(sealed.header.difficulty, 0);
    assert_eq!(sealed.transactions[0].amount, 7);
}

#[test]
fn unsatisfiable_difficulty_is_an_explicit_failure() {
    // No digest has more characters than its fixed length, so a difficulty
    // beyond it can never be met and construction must fail explicitly.
    let r = Chain::new(String::from("M"), 65);
    assert!(matches!(r, Err(LedgerError::DifficultyUnsatisfiable)));
}

#[test]
fn failed_seal_leaves_ledger_untouched() {
    let mut c = Chain::new(String::from("M"), 1).unwrap();
    c.new_transaction(String::from("A"), String::from("B"), 3);
    c.update_difficulty(70);
    assert!(!c.generate_new_block());
    assert_eq!(c.chain.len(), 1);
    assert_eq!(c.curr_trans.len(), 1);
    assert_eq!(c.curr_trans[0].sender, "A");
}

#[test]
fn transactions_move_from_pool_into_block() {
    let mut c = Chain::new(String::from("M"), 0).unwrap();
    c.new_transaction(String::from("A"), String::from("B"), 1);
    c.new_transaction(String::from("C"), String::from("D"), 2);
    c.new_transaction(String::from("E"), String::from("F"), 3);
    assert!(c.generate_new_block());
    let sealed = &c.chain[1];
    assert_eq!(sealed.transactions.len(), 4);
    let senders: Vec<&str> = sealed.transactions.iter().map(|t| t.sender.as_str()).collect();
    assert_eq!(senders, vec!["Root", "A", "C", "E"]);
}

#[test]
fn largest_amount_survives_a_seal() {
    let mut c = Chain::new(String::from("M"), 0).unwrap();
    c.new_transaction(String::from("A"), String::from("B"), u64::MAX);
    assert!(c.generate_new_block());
    assert_eq!(c.chain[1].transactions[1].amount, u64::MAX);
}
