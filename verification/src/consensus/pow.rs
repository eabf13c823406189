//! Proof of work: a header is sealed by a digest under which its hash falls
//! below a threshold.

use crate::consensus::{Consensus, Header, SealRule};
use crate::hashing::{hash_words, Canonical};
use crate::nonce::fresh_nonce;
use vstd::prelude::*;

verus! {

/// A proof-of-work engine. The lower the threshold, the harder the work: a
/// header is valid where its hash is below the threshold. To seal a header
/// the engine keeps it as it is where it is valid, and else searches for a
/// nonce; under the threshold 0 nothing is valid, and the engine refuses.
#[derive(Clone, Copy, Debug, PartialEq, Eq, Hash)]
pub struct Pow {
    pub threshold: u64,
}

/// Whether a header meets a threshold of work.
pub open spec fn meets_threshold(header: Header<u64>, threshold: u64) -> bool {
    header.hash_spec() < threshold
}

/// Whether the words are those of a header, but for the last, which stands
/// for the digest.
pub open spec fn holds_fields_of(words: Seq<u64>, header: Header<u64>) -> bool {
    &&& words.len() == 5
    &&& words[0] == header.parent
    &&& words[1] == header.height
    &&& words[2] == header.state_root
    &&& words[3] == header.extrinsics_root
}

/// Tries one nonce on the words of a header: only the word of the digest is
/// written anew from one nonce to the next.
fn try_nonce_on(words: &mut Vec<u64>, header: &Header<u64>, threshold: u64, nonce: u64) -> (sealed:
    Option<Header<u64>>)
    requires
        holds_fields_of(old(words)@, *header),
    ensures
        holds_fields_of(final(words)@, *header),
        sealed == (if meets_threshold(header.sealed_with(nonce), threshold) {
            Some(header.sealed_with(nonce))
        } else {
            None
        }),
{
    words.set(4, nonce);
    proof {
        let candidate = header.sealed_with(nonce);
        assert(words@ =~= candidate.encoding());
    }
    if hash_words(words) < threshold {
        Some(header.with_digest(nonce))
    } else {
        None
    }
}

/// Tries one nonce: the header under that nonce if it then meets the threshold.
pub fn try_nonce(header: &Header<u64>, threshold: u64, nonce: u64) -> (sealed: Option<Header<u64>>)
    ensures
        sealed == (if meets_threshold(header.sealed_with(nonce), threshold) {
            Some(header.sealed_with(nonce))
        } else {
            None
        }),
{
    let mut words = header.encode();
    try_nonce_on(&mut words, header, threshold, nonce)
}

/// Searches for a nonce under which the header meets the threshold, with at
/// most `draws` nonces drawn by chance. A header that meets the threshold
/// already is returned as it is; without a draw, no other is. No header
/// meets the threshold 0, and none is searched for.
pub fn mine_within(header: Header<u64>, threshold: u64, draws: u64) -> (mined: Option<Header<u64>>)
    ensures
        meets_threshold(header, threshold) ==> mined == Some(header),
        !meets_threshold(header, threshold) && draws == 0 ==> mined is None,
        threshold == 0 ==> mined is None,
        mined matches Some(found) ==> found == header.sealed_with(found.consensus_digest)
            && meets_threshold(found, threshold),
{
    if threshold == 0 {
        return None;
    }
    if header.hash() < threshold {
        return Some(header);
    }
    let mut words = header.encode();
    let mut drawn: u64 = 0;
    while drawn < draws
        invariant
            !meets_threshold(header, threshold),
            holds_fields_of(words@, header),
        decreases draws - drawn,
    {
        let nonce = fresh_nonce();
        if let Some(found) = try_nonce_on(&mut words, &header, threshold, nonce) {
            return Some(found);
        }
        drawn += 1;
    }
    None
}

/// Searches for a nonce under which the header meets the threshold. A header
/// that meets it already is returned as it is. The search draws nonces by
/// chance and gives up after `u64::MAX` draws; there is none for the
/// threshold 0.
pub fn mine(header: Header<u64>, threshold: u64) -> (mined: Option<Header<u64>>)
    ensures
        meets_threshold(header, threshold) ==> mined == Some(header),
        threshold == 0 ==> mined is None,
        mined matches Some(found) ==> found == header.sealed_with(found.consensus_digest)
            && meets_threshold(found, threshold),
{
    mine_within(header, threshold, u64::MAX)
}

impl Consensus for Pow {
    type Digest = u64;

    open spec fn valid(&self, parent_digest: u64, header: Header<u64>) -> bool {
        meets_threshold(header, self.threshold)
    }

    open spec fn seal_rule(&self, parent_digest: u64, partial_header: Header<u64>) -> SealRule<u64> {
        if self.threshold == 0 {
            SealRule::Refuses
        } else if meets_threshold(partial_header, self.threshold) {
            SealRule::Stamps(partial_header.consensus_digest)
        } else {
            SealRule::Searches
        }
    }

    fn validate(&self, parent_digest: &u64, header: &Header<u64>) -> (ok: bool) {
        header.hash() < self.threshold
    }

    fn seal(&self, parent_digest: &u64, partial_header: Header<u64>) -> (sealed: Option<
        Header<u64>,
    >) {
        mine(partial_header, self.threshold)
    }
}

/// A proof-of-work engine under which about one header in a hundred, with a
/// nonce drawn by chance, is valid.
pub fn moderate_difficulty_pow() -> (engine: Pow)
    ensures
        engine.threshold == u64::MAX / 100,
{
    Pow { threshold: u64::MAX / 100 }
}

} // verus!
