//! Consensus: the rules by which a header is sealed, and by which a seal is
//! accepted given the seal of the parent.

use crate::hashing::{append_words, hash_of, hash_words, Canonical};
use vstd::prelude::*;

pub mod even_only;
pub mod forking;
pub mod interleave;
pub mod poa;
pub mod pow;

verus! {

/// A block header. `parent` is the hash of the parent header, or 0 at genesis;
/// `height` is 0 at genesis and one more than the parent's elsewhere.
#[derive(Clone, Copy, Debug, PartialEq, Eq, Hash)]
pub struct Header<Digest> {
    pub parent: u64,
    pub height: u64,
    pub state_root: u64,
    pub extrinsics_root: u64,
    pub consensus_digest: Digest,
}

impl<Digest> Header<Digest> {
    /// This header under another seal.
    pub open spec fn sealed_with<Other>(self, digest: Other) -> Header<Other> {
        Header {
            parent: self.parent,
            height: self.height,
            state_root: self.state_root,
            extrinsics_root: self.extrinsics_root,
            consensus_digest: digest,
        }
    }

    /// This header under another seal.
    pub fn with_digest<Other>(&self, digest: Other) -> (sealed: Header<Other>)
        ensures
            sealed == self.sealed_with(digest),
    {
        Header {
            parent: self.parent,
            height: self.height,
            state_root: self.state_root,
            extrinsics_root: self.extrinsics_root,
            consensus_digest: digest,
        }
    }
}

impl<Digest: Canonical> Header<Digest> {
    /// The hash of this header: it is a function of all five fields.
    pub open spec fn hash_spec(self) -> u64 {
        hash_of(self.encoding())
    }

    /// The hash of this header.
    pub fn hash(&self) -> (h: u64)
        ensures
            h == self.hash_spec(),
    {
        let words = self.encode();
        hash_words(&words)
    }
}

impl<Digest: Canonical> Canonical for Header<Digest> {
    open spec fn encoding(&self) -> Seq<u64> {
        seq![self.parent, self.height, self.state_root, self.extrinsics_root]
            + self.consensus_digest.encoding()
    }

    proof fn lemma_encoding_injective(a: Self, b: Self) {
        let wa = a.encoding();
        let wb = b.encoding();
        assert(wa[0] == a.parent && wb[0] == b.parent);
        assert(wa[1] == a.height && wb[1] == b.height);
        assert(wa[2] == a.state_root && wb[2] == b.state_root);
        assert(wa[3] == a.extrinsics_root && wb[3] == b.extrinsics_root);
        assert(wa.subrange(4, wa.len() as int) =~= a.consensus_digest.encoding());
        assert(wb.subrange(4, wb.len() as int) =~= b.consensus_digest.encoding());
        Digest::lemma_encoding_injective(a.consensus_digest, b.consensus_digest);
    }

    fn encode(&self) -> (words: Vec<u64>) {
        let mut words: Vec<u64> = Vec::new();
        words.push(self.parent);
        words.push(self.height);
        words.push(self.state_root);
        words.push(self.extrinsics_root);
        let digest_words = self.consensus_digest.encode();
        append_words(&mut words, &digest_words);
        words
    }

    fn duplicate(&self) -> (copy: Self) {
        Header {
            parent: self.parent,
            height: self.height,
            state_root: self.state_root,
            extrinsics_root: self.extrinsics_root,
            consensus_digest: self.consensus_digest.duplicate(),
        }
    }
}

/// Two headers that differ in any field differ in what is hashed: only a
/// collision of the 64-bit digest can give them one hash.
pub proof fn lemma_header_hash_reads_every_field<Digest: Canonical>(
    a: Header<Digest>,
    b: Header<Digest>,
)
    ensures
        a == b ==> a.hash_spec() == b.hash_spec(),
        a != b ==> crate::hashing::word_chunks(a.encoding()) != crate::hashing::word_chunks(
            b.encoding(),
        ),
{
    if a != b && crate::hashing::word_chunks(a.encoding()) == crate::hashing::word_chunks(
        b.encoding(),
    ) {
        crate::hashing::lemma_word_chunks_injective(a.encoding(), b.encoding());
        Header::<Digest>::lemma_encoding_injective(a, b);
    }
}

/// A consensus digest: plain data with a value for headers not yet sealed.
pub trait Digest: Canonical {
    /// The digest of a header that has not been sealed.
    spec fn unsealed() -> Self;

    fn blank() -> (digest: Self)
        ensures
            digest == Self::unsealed(),
    ;
}

impl Digest for u64 {
    open spec fn unsealed() -> u64 {
        0
    }

    fn blank() -> (digest: u64) {
        0
    }
}

impl Digest for () {
    open spec fn unsealed() -> () {
        ()
    }

    fn blank() -> (digest: ()) {
        ()
    }
}

/// What an engine does with a header it is asked to seal.
pub enum SealRule<Digest> {
    /// The engine refuses the header: `seal` returns `None`.
    Refuses,
    /// The engine stamps this digest on the header.
    Stamps(Digest),
    /// The engine searches for a digest; the search may give up.
    Searches,
}

/// A consensus engine.
pub trait Consensus {
    type Digest: Digest;

    /// Whether the seal of `header` is acceptable given the seal of its parent.
    spec fn valid(&self, parent_digest: Self::Digest, header: Header<Self::Digest>) -> bool;

    /// What `seal` does with a header.
    spec fn seal_rule(
        &self,
        parent_digest: Self::Digest,
        partial_header: Header<Self::Digest>,
    ) -> SealRule<Self::Digest>;

    fn validate(&self, parent_digest: &Self::Digest, header: &Header<Self::Digest>) -> (ok: bool)
        ensures
            ok == self.valid(*parent_digest, *header),
    ;

    /// Seals a header: the result is the header under a digest that `validate`
    /// accepts, or `None`.
    fn seal(&self, parent_digest: &Self::Digest, partial_header: Header<Self::Digest>) -> (sealed:
        Option<Header<Self::Digest>>)
        ensures
            match self.seal_rule(*parent_digest, partial_header) {
                SealRule::Refuses => sealed is None,
                SealRule::Stamps(digest) => sealed == Some(partial_header.sealed_with(digest)),
                SealRule::Searches => true,
            },
            sealed matches Some(header) ==> header == partial_header.sealed_with(
                header.consensus_digest,
            ) && self.valid(*parent_digest, header),
    ;
}

/// The authorities that may sign blocks.
#[derive(Clone, Copy, Debug, PartialEq, Eq, Hash, Structural)]
pub enum ConsensusAuthority {
    Alice,
    Bob,
    Charlie,
}

impl ConsensusAuthority {
    /// The place of an authority in the total order of authorities.
    pub open spec fn rank(self) -> u64 {
        match self {
            ConsensusAuthority::Alice => 0,
            ConsensusAuthority::Bob => 1,
            ConsensusAuthority::Charlie => 2,
        }
    }

    pub fn index(&self) -> (i: u64)
        ensures
            i == self.rank(),
    {
        match self {
            ConsensusAuthority::Alice => 0,
            ConsensusAuthority::Bob => 1,
            ConsensusAuthority::Charlie => 2,
        }
    }
}

impl Default for ConsensusAuthority {
    fn default() -> (authority: Self)
        ensures
            authority == ConsensusAuthority::Alice,
    {
        ConsensusAuthority::Alice
    }
}

impl Canonical for ConsensusAuthority {
    open spec fn encoding(&self) -> Seq<u64> {
        seq![self.rank()]
    }

    proof fn lemma_encoding_injective(a: Self, b: Self) {
        assert(a.encoding()[0] == a.rank());
        assert(b.encoding()[0] == b.rank());
    }

    fn encode(&self) -> (words: Vec<u64>) {
        let mut words: Vec<u64> = Vec::new();
        words.push(self.index());
        words
    }

    fn duplicate(&self) -> (copy: Self) {
        *self
    }
}

impl Digest for ConsensusAuthority {
    open spec fn unsealed() -> ConsensusAuthority {
        ConsensusAuthority::Alice
    }

    fn blank() -> (digest: ConsensusAuthority) {
        ConsensusAuthority::Alice
    }
}

impl Default for Header<u64> {
    fn default() -> (header: Self)
        ensures
            header == (Header::<u64> {
                parent: 0,
                height: 0,
                state_root: 0,
                extrinsics_root: 0,
                consensus_digest: 0,
            }),
    {
        Header { parent: 0, height: 0, state_root: 0, extrinsics_root: 0, consensus_digest: 0 }
    }
}

impl Default for Header<ConsensusAuthority> {
    fn default() -> (header: Self)
        ensures
            header == (Header::<ConsensusAuthority> {
                parent: 0,
                height: 0,
                state_root: 0,
                extrinsics_root: 0,
                consensus_digest: ConsensusAuthority::Alice,
            }),
    {
        Header {
            parent: 0,
            height: 0,
            state_root: 0,
            extrinsics_root: 0,
            consensus_digest: ConsensusAuthority::Alice,
        }
    }
}

impl Default for Header<()> {
    fn default() -> (header: Self)
        ensures
            header == (Header::<()> {
                parent: 0,
                height: 0,
                state_root: 0,
                extrinsics_root: 0,
                consensus_digest: (),
            }),
    {
        Header { parent: 0, height: 0, state_root: 0, extrinsics_root: 0, consensus_digest: () }
    }
}

} // verus!
