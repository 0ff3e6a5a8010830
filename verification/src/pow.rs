//! Proof-of-work sealing: the nonce search that makes a header's digest
//! satisfy the difficulty predicate.
//!
//! The predicate is the ledger's own, recorded as it stands: the first
//! `difficulty` characters of the digest, read as an unsigned decimal
//! integer, are exactly zero. On the hexadecimal digests the hash adapter
//! produces, that holds precisely when each of those characters is the digit
//! zero. The predicate is far stricter than a conventional below-target rule
//! and can be unsatisfiable, so the search is bounded: it walks the whole
//! nonce space once and reports failure explicitly instead of spinning
//! forever.

use vstd::prelude::*;

use crate::chain::{candidate_encoding, encode_header, with_nonce, BlockHeader, Chain};
use crate::digest::{digest_of, DIGEST_LEN};

verus! {

/// The difficulty predicate: the digest has at least `d` characters and its
/// first `d` characters all parse to zero, i.e. each is the digit zero.
pub open spec fn difficulty_satisfied(digest: Seq<char>, d: nat) -> bool {
    d <= digest.len() && (forall|i: int| 0 <= i < d ==> digest[i] == '0')
}

/// Law: difficulty zero is the trivial predicate — every digest satisfies
/// it, so sealing at difficulty zero terminates immediately.
pub proof fn lemma_zero_difficulty_trivial(digest: Seq<char>)
    ensures
        difficulty_satisfied(digest, 0),
{
}

/// Decides the difficulty predicate on a digest string.
pub fn satisfies_difficulty(digest: &str, difficulty: u32) -> (r: bool)
    ensures
        r == difficulty_satisfied(digest@, difficulty as nat),
{
    let len = digest.unicode_len();
    if difficulty as usize > len {
        return false;
    }
    let mut i: usize = 0;
    while i < difficulty as usize
        invariant
            difficulty as usize <= len,
            len == digest@.len(),
            i <= difficulty as usize,
            forall|j: int| 0 <= j < i ==> digest@[j] == '0',
        decreases difficulty as usize - i,
    {
        if digest.get_char(i) != '0' {
            return false;
        }
        i = i + 1;
    }
    true
}

impl Chain {
    /// Seals a header: searches nonces upward from the header's current one
    /// until the digest of the candidate header satisfies the header's
    /// difficulty, and fixes the first such nonce into the header. Returns
    /// false, leaving the header untouched, when no nonce in the remaining
    /// search space satisfies the predicate.
    pub fn proof_of_work(header: &mut BlockHeader) -> (r: bool)
        ensures
            r ==> final(header)@ == with_nonce(old(header)@, final(header)@.nonce),
            r ==> old(header)@.nonce <= final(header)@.nonce,
            r ==> difficulty_satisfied(
                digest_of(encode_header(final(header)@)),
                old(header)@.difficulty as nat,
            ),
            r ==> forall|m: u32|
                old(header)@.nonce <= m < final(header)@.nonce ==> !difficulty_satisfied(
                    digest_of(encode_header(with_nonce(old(header)@, m))),
                    old(header)@.difficulty as nat,
                ),
            !r ==> final(header)@ == old(header)@,
            !r ==> old(header)@.difficulty as nat > DIGEST_LEN as nat || forall|m: u32|
                m >= old(header)@.nonce ==> !difficulty_satisfied(
                    digest_of(encode_header(with_nonce(old(header)@, m))),
                    old(header)@.difficulty as nat,
                ),
            old(header)@.difficulty == 0 ==> r && final(header)@ == old(header)@,
    {
        let ghost h0 = header@;
        let d = header.difficulty;
        if d as usize > DIGEST_LEN {
            return false;
        }
        let mut nonce: u32 = header.nonce;
        loop
            invariant
                h0 == old(header)@,
                header@ == h0,
                d == h0.difficulty,
                d as usize <= DIGEST_LEN,
                h0.nonce <= nonce,
                forall|m: u32|
                    h0.nonce <= m < nonce ==> !difficulty_satisfied(
                        digest_of(encode_header(with_nonce(h0, m))),
                        h0.difficulty as nat,
                    ),
            decreases u32::MAX - nonce,
        {
            let encoded = candidate_encoding(header, nonce);
            let digest = Chain::hash(encoded.as_str());
            if satisfies_difficulty(digest.as_str(), d) {
                header.nonce = nonce;
                proof {
                    assert(header@ == with_nonce(h0, nonce));
                    assert(with_nonce(h0, h0.nonce) == h0);
                }
                return true;
            }
            if nonce == u32::MAX {
                return false;
            }
            nonce = nonce + 1;
        }
    }
}

} // verus!
