//! The hash adapter: a deterministic, fixed-format digest string for any
//! canonically encoded entity. The digest is SHA-256 rendered as 64 lowercase
//! hexadecimal characters, so that proof-of-work search is meaningful and
//! merkle aggregation is collision-resistant.

use sha2::Digest;
use vstd::prelude::*;

verus! {

/// The number of characters in every digest string.
pub const DIGEST_LEN: usize = 64;

/// The hexadecimal digest the hash adapter returns for a given input. The
/// adapter is a pure function of its input, so its result carries this name;
/// what the name denotes is fixed by `sha256_hex` alone.
pub uninterp spec fn digest_of(s: Seq<char>) -> Seq<char>;

/// Relies on sha2::Sha256 together with hex::encode: the SHA-256 digest of
/// the input's UTF-8 bytes, rendered as exactly 64 lowercase hexadecimal
/// characters; the result depends on the input characters alone.
#[verifier::external_body]
pub(crate) fn sha256_hex(input: &str) -> (r: String)
    ensures
        r@ == digest_of(input@),
        r@.len() == DIGEST_LEN,
{
    hex::encode(sha2::Sha256::digest(input.as_bytes()))
}

/// The canonical all-zero placeholder: the same length as a real digest,
/// every character the digit zero. It stands as the previous-digest of a
/// genesis block, before any real digest exists.
pub open spec fn zero_digest() -> Seq<char> {
    Seq::new(DIGEST_LEN as nat, |i: int| '0')
}

/// Builds the all-zero placeholder digest.
pub fn zero_digest_string() -> (r: String)
    ensures
        r@ == zero_digest(),
{
    let mut r = String::new();
    let mut i: usize = 0;
    while i < DIGEST_LEN
        invariant
            i <= DIGEST_LEN,
            r@ == zero_digest().subrange(0, i as int),
        decreases DIGEST_LEN - i,
    {
        r.append("0");
        proof {
            reveal_strlit("0");
            assert(r@ =~= zero_digest().subrange(0, i + 1));
        }
        i = i + 1;
    }
    proof {
        assert(zero_digest().subrange(0, DIGEST_LEN as int) =~= zero_digest());
    }
    r
}

} // verus!
