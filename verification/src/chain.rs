//! The data model and the ledger: transactions, block headers, blocks, and
//! the chain that owns them, together with the canonical encodings under
//! which entities are hashed.

use vstd::prelude::*;

use crate::digest::{digest_of, sha256_hex, zero_digest, zero_digest_string, DIGEST_LEN};
use crate::encoding::{append_str_block, str_block, u32_hex, u32_hex_string, u64_hex,
    u64_hex_string};
use crate::merkle::merkle_root;
use crate::pow::difficulty_satisfied;
use crate::LedgerError;

verus! {

/// The reward a freshly constructed ledger pays per sealed block, in whole
/// currency units, until `update_reward` changes it.
pub const DEFAULT_REWARD: u64 = 100;

/// An immutable transfer record: amounts are counted in whole currency units.
#[derive(Debug)]
pub struct Transaction {
    pub sender: String,
    pub receiver: String,
    pub amount: u64,
}

/// The mathematical value of a transaction.
#[verifier::ext_equal]
pub ghost struct TransactionView {
    pub sender: Seq<char>,
    pub receiver: Seq<char>,
    pub amount: u64,
}

impl View for Transaction {
    type V = TransactionView;

    open spec fn view(&self) -> TransactionView {
        TransactionView { sender: self.sender@, receiver: self.receiver@, amount: self.amount }
    }
}

impl Clone for Transaction {
    /// A field-for-field copy of the record.
    fn clone(&self) -> (r: Self)
        ensures
            r@ == self@,
    {
        Transaction {
            sender: self.sender.clone(),
            receiver: self.receiver.clone(),
            amount: self.amount,
        }
    }
}

/// The values of a sequence of transactions.
pub open spec fn transaction_views(s: Seq<Transaction>) -> Seq<TransactionView> {
    s.map(|i: int, t: Transaction| t@)
}

/// Per-block metadata: the part of a block that is hashed and sealed. Only
/// the nonce is mutated after construction, by the proof-of-work search.
#[derive(Debug)]
pub struct BlockHeader {
    pub timestamp: u64,
    pub nonce: u32,
    pub pre_hash: String,
    pub merkle: String,
    pub difficulty: u32,
}

/// The mathematical value of a block header.
#[verifier::ext_equal]
pub ghost struct BlockHeaderView {
    pub timestamp: u64,
    pub nonce: u32,
    pub pre_hash: Seq<char>,
    pub merkle: Seq<char>,
    pub difficulty: u32,
}

impl View for BlockHeader {
    type V = BlockHeaderView;

    open spec fn view(&self) -> BlockHeaderView {
        BlockHeaderView {
            timestamp: self.timestamp,
            nonce: self.nonce,
            pre_hash: self.pre_hash@,
            merkle: self.merkle@,
            difficulty: self.difficulty,
        }
    }
}

/// The same header with its nonce replaced: one proof-of-work candidate.
pub open spec fn with_nonce(h: BlockHeaderView, nonce: u32) -> BlockHeaderView {
    BlockHeaderView { nonce, ..h }
}

/// A sealed batch: a header plus the ordered transaction list it commits.
/// Element 0 of the list is always a reward transaction.
#[derive(Debug)]
pub struct Block {
    pub header: BlockHeader,
    pub count: u32,
    pub transactions: Vec<Transaction>,
}

/// The mathematical value of a block.
#[verifier::ext_equal]
pub ghost struct BlockView {
    pub header: BlockHeaderView,
    pub count: u32,
    pub transactions: Seq<TransactionView>,
}

impl View for Block {
    type V = BlockView;

    open spec fn view(&self) -> BlockView {
        BlockView {
            header: self.header@,
            count: self.count,
            transactions: transaction_views(self.transactions@),
        }
    }
}

/// The values of a sequence of blocks.
pub open spec fn block_views(s: Seq<Block>) -> Seq<BlockView> {
    s.map(|i: int, b: Block| b@)
}

/// The ledger: the append-only chain of sealed blocks, the pending pool, and
/// the mining parameters.
pub struct Chain {
    pub chain: Vec<Block>,
    pub curr_trans: Vec<Transaction>,
    pub difficulty: u32,
    pub miner_addr: String,
    pub reward: u64,
}

/// The mathematical value of the ledger.
#[verifier::ext_equal]
pub ghost struct ChainView {
    pub chain: Seq<BlockView>,
    pub curr_trans: Seq<TransactionView>,
    pub difficulty: u32,
    pub miner_addr: Seq<char>,
    pub reward: u64,
}

impl View for Chain {
    type V = ChainView;

    open spec fn view(&self) -> ChainView {
        ChainView {
            chain: block_views(self.chain@),
            curr_trans: transaction_views(self.curr_trans@),
            difficulty: self.difficulty,
            miner_addr: self.miner_addr@,
            reward: self.reward,
        }
    }
}

/// The canonical encoding of a transaction: both identities length-prefixed,
/// then the amount as 16 hexadecimal digits.
pub open spec fn encode_transaction(t: TransactionView) -> Seq<char> {
    str_block(t.sender) + str_block(t.receiver) + u64_hex(t.amount)
}

/// The canonical encoding of a header: timestamp, nonce, the two digest
/// fields length-prefixed, and the difficulty, all fixed-width.
pub open spec fn encode_header(h: BlockHeaderView) -> Seq<char> {
    u64_hex(h.timestamp) + u32_hex(h.nonce) + str_block(h.pre_hash) + str_block(h.merkle)
        + u32_hex(h.difficulty)
}

/// Builds the canonical encoding of a transaction.
pub fn transaction_encoding(t: &Transaction) -> (r: String)
    ensures
        r@ == encode_transaction(t@),
{
    let mut r = String::new();
    append_str_block(&mut r, t.sender.as_str());
    append_str_block(&mut r, t.receiver.as_str());
    let amount = u64_hex_string(t.amount);
    r.append(amount.as_str());
    proof {
        assert(r@ =~= encode_transaction(t@));
    }
    r
}

/// Builds the canonical encoding of a header as it would read with the given
/// nonce: one proof-of-work candidate input.
pub fn candidate_encoding(h: &BlockHeader, nonce: u32) -> (r: String)
    ensures
        r@ == encode_header(with_nonce(h@, nonce)),
{
    let mut r = u64_hex_string(h.timestamp);
    let nonce_hex = u32_hex_string(nonce);
    r.append(nonce_hex.as_str());
    append_str_block(&mut r, h.pre_hash.as_str());
    append_str_block(&mut r, h.merkle.as_str());
    let difficulty_hex = u32_hex_string(h.difficulty);
    r.append(difficulty_hex.as_str());
    proof {
        assert(r@ =~= encode_header(with_nonce(h@, nonce)));
    }
    r
}

/// Builds the canonical encoding of a header as it stands.
pub fn header_encoding(h: &BlockHeader) -> (r: String)
    ensures
        r@ == encode_header(h@),
{
    let r = candidate_encoding(h, h.nonce);
    proof {
        assert(with_nonce(h@, h@.nonce) == h@);
    }
    r
}

/// What sealing guarantees of every block on the chain: the count matches
/// the list, the list holds at least its reward transaction, the merkle root
/// is the aggregate of the list computed once at sealing, and the header's
/// digest satisfies the header's difficulty.
pub open spec fn block_sealed(b: BlockView) -> bool {
    &&& b.count as nat == b.transactions.len()
    &&& b.transactions.len() >= 1
    &&& b.header.merkle == merkle_root(b.transactions)
    &&& difficulty_satisfied(digest_of(encode_header(b.header)), b.header.difficulty as nat)
}

/// The state a fresh ledger starts from, before its genesis block is sealed.
pub open spec fn genesis_state(miner_addr: Seq<char>, difficulty: u32) -> ChainView {
    ChainView {
        chain: Seq::empty(),
        curr_trans: Seq::empty(),
        difficulty,
        miner_addr,
        reward: DEFAULT_REWARD,
    }
}

impl ChainView {
    /// The synthetic transfer crediting the miner, as a seal from this state
    /// would capture it.
    pub open spec fn reward_transaction(self) -> TransactionView {
        TransactionView { sender: "Root"@, receiver: self.miner_addr, amount: self.reward }
    }

    /// The ordered list a seal from this state commits: the reward
    /// transaction, then the pending pool in submission order.
    pub open spec fn sealed_transactions(self) -> Seq<TransactionView> {
        seq![self.reward_transaction()] + self.curr_trans
    }

    /// The digest of the chain head's header, or the all-zero placeholder
    /// while the chain is empty.
    pub open spec fn last_digest(self) -> Seq<char> {
        if self.chain.len() == 0 {
            zero_digest()
        } else {
            digest_of(encode_header(self.chain.last().header))
        }
    }

    /// The header a seal from this state would search, at the given
    /// timestamp and nonce.
    pub open spec fn candidate_header(self, timestamp: u64, nonce: u32) -> BlockHeaderView {
        BlockHeaderView {
            timestamp,
            nonce,
            pre_hash: self.last_digest(),
            merkle: merkle_root(self.sealed_transactions()),
            difficulty: self.difficulty,
        }
    }

    /// The ledger after a successful seal appends block `b`: the chain grows
    /// by exactly that block and the pending pool is emptied.
    pub open spec fn after_seal(self, b: BlockView) -> ChainView {
        ChainView { chain: self.chain.push(b), curr_trans: Seq::empty(), ..self }
    }

    /// What a seal from this state guarantees of the block it appends: the
    /// block commits this state's sealed transaction list, its header is a
    /// candidate of this state, the header satisfies this state's
    /// difficulty, and its nonce is the least that does so.
    pub open spec fn seals(self, b: BlockView) -> bool {
        &&& b.transactions == self.sealed_transactions()
        &&& b.count as nat == self.sealed_transactions().len()
        &&& b.header == self.candidate_header(b.header.timestamp, b.header.nonce)
        &&& difficulty_satisfied(digest_of(encode_header(b.header)), self.difficulty as nat)
        &&& forall|m: u32|
            m < b.header.nonce ==> !difficulty_satisfied(
                digest_of(encode_header(with_nonce(b.header, m))),
                self.difficulty as nat,
            )
    }

    /// Well-formedness of the ledger: every block on the chain is sealed,
    /// the genesis block's previous-digest is the all-zero placeholder, and
    /// every later block's previous-digest is the digest of its
    /// predecessor's header.
    pub open spec fn wf(self) -> bool {
        &&& forall|i: int| 0 <= i < self.chain.len() ==> block_sealed(#[trigger] self.chain[i])
        &&& self.chain.len() > 0 ==> self.chain[0].header.pre_hash == zero_digest()
        &&& forall|i: int|
            0 < i < self.chain.len() ==> (#[trigger] self.chain[i]).header.pre_hash == digest_of(
                encode_header(self.chain[i - 1].header),
            )
    }
}

/// No nonce at all seals the candidate header that a seal from state `c`
/// would search at timestamp `ts`.
pub open spec fn unsatisfiable_at(c: ChainView, ts: u64) -> bool {
    forall|m: u32|
        !difficulty_satisfied(
            digest_of(encode_header(#[trigger] c.candidate_header(ts, m))),
            c.difficulty as nat,
        )
}

/// Law: chain linkage — on a well-formed ledger, each block's
/// previous-digest equals the digest of its predecessor's header.
pub proof fn lemma_chain_linkage(c: ChainView, i: int)
    requires
        c.wf(),
        0 < i < c.chain.len(),
    ensures
        c.chain[i].header.pre_hash == digest_of(encode_header(c.chain[i - 1].header)),
{
}

/// Law: the last digest tracks the chain head — after a seal appends block
/// `b`, the ledger's last digest is the digest of `b`'s header.
pub proof fn lemma_last_digest_tracks_head(c: ChainView, b: BlockView)
    ensures
        c.after_seal(b).last_digest() == digest_of(encode_header(b.header)),
{
}

/// Relies on std::time::SystemTime: the clock's reading in whole seconds
/// since the Unix epoch; nothing is assumed of the value.
#[verifier::external_body]
fn now_secs() -> u64 {
    match std::time::SystemTime::now().duration_since(std::time::UNIX_EPOCH) {
        Ok(elapsed) => elapsed.as_secs(),
        Err(_) => 0,
    }
}

impl Chain {
    /// The hash adapter: the canonical digest of any encoded entity, as a
    /// 64-character hexadecimal string.
    pub fn hash(input: &str) -> (r: String)
        ensures
            r@ == digest_of(input@),
            r@.len() == DIGEST_LEN,
    {
        sha256_hex(input)
    }

    /// The digest of the chain head's header, or the all-zero placeholder if
    /// the chain is momentarily empty (observable only during construction).
    pub fn last_hash(&self) -> (r: String)
        ensures
            r@ == self@.last_digest(),
    {
        if self.chain.len() == 0 {
            zero_digest_string()
        } else {
            let block = &self.chain[self.chain.len() - 1];
            let encoded = header_encoding(&block.header);
            Chain::hash(encoded.as_str())
        }
    }

    /// Appends a transfer to the pending pool. Always succeeds: amounts and
    /// identities are not validated here.
    pub fn new_transaction(&mut self, sender: String, receiver: String, amount: u64) -> (r: bool)
        ensures
            r == true,
            final(self)@ == (ChainView {
                curr_trans: old(self)@.curr_trans.push(
                    TransactionView { sender: sender@, receiver: receiver@, amount },
                ),
                ..old(self)@
            }),
            old(self)@.wf() ==> final(self)@.wf(),
    {
        let ghost c0 = self@;
        self.curr_trans.push(Transaction { sender, receiver, amount });
        proof {
            assert(transaction_views(self.curr_trans@) =~= c0.curr_trans.push(
                TransactionView { sender: sender@, receiver: receiver@, amount },
            ));
        }
        true
    }

    /// Sets the difficulty used by every seal from now on; already-sealed
    /// blocks are frozen.
    pub fn update_difficulty(&mut self, difficulty: u32) -> (r: bool)
        ensures
            r == true,
            final(self)@ == (ChainView { difficulty, ..old(self)@ }),
            old(self)@.wf() ==> final(self)@.wf(),
    {
        self.difficulty = difficulty;
        true
    }

    /// Sets the reward captured by every seal from now on; already-sealed
    /// blocks are frozen.
    pub fn update_reward(&mut self, reward: u64) -> (r: bool)
        ensures
            r == true,
            final(self)@ == (ChainView { reward, ..old(self)@ }),
            old(self)@.wf() ==> final(self)@.wf(),
    {
        self.reward = reward;
        true
    }

    /// Materializes and seals a new block from the pending pool: a reward
    /// transaction is prepended to the pool's contents, the merkle root of
    /// the full list is computed, a header linked to the chain head is
    /// sealed by proof-of-work, and the block is appended while the pool is
    /// emptied. Returns false, leaving the ledger untouched, when no nonce
    /// seals the candidate header.
    pub fn generate_new_block(&mut self) -> (r: bool)
        requires
            old(self)@.wf(),
            old(self)@.curr_trans.len() + 1 <= u32::MAX,
        ensures
            final(self)@.wf(),
            r ==> final(self)@ == old(self)@.after_seal(final(self)@.chain.last()),
            r ==> old(self)@.seals(final(self)@.chain.last()),
            r ==> final(self)@.chain.len() == old(self)@.chain.len() + 1,
            r ==> final(self)@.curr_trans.len() == 0,
            !r ==> final(self)@ == old(self)@,
            !r ==> old(self)@.difficulty as nat > DIGEST_LEN as nat || exists|ts: u64|
                unsatisfiable_at(old(self)@, ts),
    {
        let ghost c0 = self@;
        let timestamp = now_secs();
        let pre_hash = self.last_hash();
        let mut txs: Vec<Transaction> = Vec::new();
        let reward_trans = Transaction {
            sender: String::from_str("Root"),
            receiver: self.miner_addr.clone(),
            amount: self.reward,
        };
        txs.push(reward_trans);
        proof {
            assert(transaction_views(txs@) =~= c0.sealed_transactions().subrange(0, 1));
        }
        let mut idx: usize = 0;
        while idx < self.curr_trans.len()
            invariant
                c0 == old(self)@,
                self@ == c0,
                idx <= self.curr_trans@.len(),
                txs@.len() == idx + 1,
                transaction_views(txs@) == c0.sealed_transactions().subrange(0, idx + 1),
            decreases self.curr_trans@.len() - idx,
        {
            let t = self.curr_trans[idx].clone();
            txs.push(t);
            proof {
                assert(transaction_views(txs@) =~= c0.sealed_transactions().subrange(
                    0,
                    idx + 2,
                ));
            }
            idx = idx + 1;
        }
        proof {
            assert(c0.sealed_transactions().subrange(
                0,
                c0.sealed_transactions().len() as int,
            ) =~= c0.sealed_transactions());
        }
        let merkle = match Chain::get_merkle(&txs) {
            Ok(root) => root,
            Err(_) => {
                proof {
                    assert(false);
                }
                return false;
            },
        };
        let mut header = BlockHeader {
            timestamp,
            nonce: 0,
            pre_hash,
            merkle,
            difficulty: self.difficulty,
        };
        proof {
            assert(header@ == c0.candidate_header(timestamp, 0));
        }
        if !Chain::proof_of_work(&mut header) {
            proof {
                if !(c0.difficulty as nat > DIGEST_LEN as nat) {
                    assert forall|m: u32|
                        !difficulty_satisfied(
                            digest_of(encode_header(#[trigger] c0.candidate_header(timestamp, m))),
                            c0.difficulty as nat,
                        ) by {
                        assert(c0.candidate_header(timestamp, m) == with_nonce(
                            c0.candidate_header(timestamp, 0),
                            m,
                        ));
                    }
                    assert(unsatisfiable_at(c0, timestamp));
                }
            }
            return false;
        }
        let ghost nonce = header@.nonce;
        proof {
            assert(header@ == c0.candidate_header(timestamp, nonce));
            assert(forall|m: u32|
                with_nonce(c0.candidate_header(timestamp, 0), m) == with_nonce(
                    header@,
                    m,
                ));
        }
        let count = txs.len() as u32;
        let block = Block { header, count, transactions: txs };
        let ghost bv = block@;
        proof {
            assert(c0.seals(bv));
        }
        self.chain.push(block);
        self.curr_trans.clear();
        proof {
            assert(block_views(self.chain@) =~= c0.chain.push(bv));
            assert(transaction_views(self.curr_trans@) =~= Seq::<TransactionView>::empty());
            assert(self@ == c0.after_seal(bv));
            assert forall|i: int| 0 <= i < self@.chain.len() implies block_sealed(
                #[trigger] self@.chain[i],
            ) by {
                if i < c0.chain.len() {
                    assert(block_sealed(c0.chain[i]));
                } else {
                    assert(self@.chain[i] == bv);
                }
            }
            assert(self@.wf());
        }
        true
    }

    /// Constructs a ledger for the given miner identity and difficulty: an
    /// empty chain and pool with the default reward, then a genesis block is
    /// sealed at once so that the last digest is always defined.
    pub fn new(miner_addr: String, difficulty: u32) -> (r: Result<Chain, LedgerError>)
        ensures
            r matches Ok(c) ==> c@.wf() && c@.chain.len() == 1 && c@.curr_trans.len() == 0
                && c@.difficulty == difficulty && c@.miner_addr == miner_addr@ && c@.reward
                == DEFAULT_REWARD && genesis_state(miner_addr@, difficulty).seals(c@.chain[0]),
            r matches Err(e) ==> e == LedgerError::DifficultyUnsatisfiable,
            r is Err ==> difficulty as nat > DIGEST_LEN as nat || exists|ts: u64|
                unsatisfiable_at(genesis_state(miner_addr@, difficulty), ts),
    {
        let mut chain = Chain {
            chain: Vec::new(),
            curr_trans: Vec::new(),
            difficulty,
            miner_addr,
            reward: DEFAULT_REWARD,
        };
        proof {
            assert(block_views(chain.chain@) =~= Seq::<BlockView>::empty());
            assert(transaction_views(chain.curr_trans@) =~= Seq::<TransactionView>::empty());
            assert(chain@ == genesis_state(chain.miner_addr@, difficulty));
        }
        if chain.generate_new_block() {
            proof {
                assert(chain@.chain[0] == chain@.chain.last());
            }
            Ok(chain)
        } else {
            Err(LedgerError::DifficultyUnsatisfiable)
        }
    }
}

} // verus!
