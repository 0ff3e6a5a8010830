//! Merkle aggregation: reduces an ordered transaction list to one aggregate
//! digest.
//!
//! The reduction is the flat, first-in-first-out scheme: a leaf digest is
//! computed for every transaction in order; an odd level is padded by
//! duplicating its last digest; then the two front digests are repeatedly
//! removed, their concatenation hashed, and the result pushed to the back,
//! until one digest remains. This is a left-to-right sequential reduction,
//! not a balanced binary tree; the two are not bit-compatible, and this
//! library fixes the flat scheme.

use vstd::prelude::*;

use crate::chain::{encode_transaction, transaction_encoding, transaction_views, Chain,
    Transaction, TransactionView};
use crate::digest::digest_of;
use crate::LedgerError;

verus! {

/// The leaf digests of an ordered transaction list.
pub open spec fn leaf_digests(txs: Seq<TransactionView>) -> Seq<Seq<char>> {
    txs.map(|i: int, t: TransactionView| digest_of(encode_transaction(t)))
}

/// An odd-length level padded by duplicating its last digest.
pub open spec fn padded(level: Seq<Seq<char>>) -> Seq<Seq<char>> {
    if level.len() % 2 == 1 {
        level.push(level.last())
    } else {
        level
    }
}

/// The first-in-first-out reduction of a level of digests: while more than
/// one digest remains, the two front digests leave, and the digest of their
/// concatenation joins at the back.
pub open spec fn reduce_digests(level: Seq<Seq<char>>) -> Seq<char>
    decreases level.len(),
{
    if level.len() == 0 {
        Seq::empty()
    } else if level.len() == 1 {
        level[0]
    } else {
        reduce_digests(
            level.subrange(2, level.len() as int).push(digest_of(level[0] + level[1])),
        )
    }
}

/// The merkle root of an ordered transaction list: the reduction of its
/// padded leaf digests.
pub open spec fn merkle_root(txs: Seq<TransactionView>) -> Seq<char> {
    reduce_digests(padded(leaf_digests(txs)))
}

/// The values of a working vector of digest strings.
pub open spec fn digest_views(v: Seq<String>) -> Seq<Seq<char>> {
    v.map(|i: int, s: String| s@)
}

/// Law: merkle aggregation is deterministic — it is a pure function of the
/// ordered transaction list, so equal ordered lists yield equal roots.
pub proof fn lemma_merkle_deterministic(a: Seq<TransactionView>, b: Seq<TransactionView>)
    requires
        a == b,
    ensures
        merkle_root(a) == merkle_root(b),
{
}

impl Chain {
    /// Aggregates an ordered transaction list to its merkle root. An empty
    /// list has no aggregate and is rejected explicitly.
    pub fn get_merkle(curr_trans: &Vec<Transaction>) -> (r: Result<String, LedgerError>)
        ensures
            r is Err <==> curr_trans@.len() == 0,
            r is Err ==> r == Err::<String, LedgerError>(LedgerError::EmptyTransactionList),
            r matches Ok(root) ==> root@ == merkle_root(transaction_views(curr_trans@)),
    {
        let ghost txs = transaction_views(curr_trans@);
        if curr_trans.len() == 0 {
            return Err(LedgerError::EmptyTransactionList);
        }
        let mut merkel: Vec<String> = Vec::new();
        let mut idx: usize = 0;
        while idx < curr_trans.len()
            invariant
                txs == transaction_views(curr_trans@),
                idx <= curr_trans@.len(),
                merkel@.len() == idx,
                digest_views(merkel@) == leaf_digests(txs).subrange(0, idx as int),
            decreases curr_trans@.len() - idx,
        {
            let t = &curr_trans[idx];
            let encoded = transaction_encoding(t);
            let leaf = Chain::hash(encoded.as_str());
            merkel.push(leaf);
            proof {
                assert(digest_views(merkel@) =~= leaf_digests(txs).subrange(0, idx + 1));
            }
            idx = idx + 1;
        }
        proof {
            assert(leaf_digests(txs).subrange(0, curr_trans@.len() as int) =~= leaf_digests(
                txs,
            ));
        }
        if merkel.len() % 2 == 1 {
            let last = merkel[merkel.len() - 1].clone();
            merkel.push(last);
            proof {
                assert(digest_views(merkel@) =~= padded(leaf_digests(txs)));
            }
        } else {
            proof {
                assert(digest_views(merkel@) =~= padded(leaf_digests(txs)));
            }
        }
        while merkel.len() > 1
            invariant
                txs == transaction_views(curr_trans@),
                merkel@.len() >= 1,
                reduce_digests(digest_views(merkel@)) == merkle_root(txs),
            decreases merkel@.len(),
        {
            let ghost level = digest_views(merkel@);
            let mut combined = merkel.remove(0);
            let second = merkel.remove(0);
            combined.append(second.as_str());
            let joined = Chain::hash(combined.as_str());
            merkel.push(joined);
            proof {
                assert(digest_views(merkel@) =~= level.subrange(2, level.len() as int).push(
                    digest_of(level[0] + level[1]),
                ));
            }
        }
        match merkel.pop() {
            Some(root) => {
                proof {
                    assert(digest_views(merkel@.push(root))[0] == root@);
                }
                Ok(root)
            },
            None => {
                proof {
                    assert(false);
                }
                Err(LedgerError::EmptyTransactionList)
            },
        }
    }
}

} // verus!
