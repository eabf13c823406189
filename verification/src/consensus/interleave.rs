//! An engine that alternates between proof of work and proof of authority:
//! a block sealed by work is followed by one sealed by an authority, and the
//! other way round.

use crate::consensus::poa::SimplePoa;
use crate::consensus::pow::Pow;
use crate::consensus::{Consensus, ConsensusAuthority, Digest, Header, SealRule};
use crate::hashing::Canonical;
use vstd::prelude::*;
use vstd::std_specs::convert::{FromSpecImpl, TryFromSpecImpl};

verus! {

/// A digest that is either a nonce of work or the signature of an authority.
#[derive(Clone, Copy, Debug, PartialEq, Eq, Hash, Structural)]
pub enum PowOrPoaDigest {
    Pow(u64),
    Poa(ConsensusAuthority),
}

impl PowOrPoaDigest {
    /// The nonce, where this digest is one of work.
    pub open spec fn work(self) -> Option<u64> {
        match self {
            PowOrPoaDigest::Pow(nonce) => Some(nonce),
            PowOrPoaDigest::Poa(_) => None,
        }
    }

    /// The signer, where this digest is one of authority.
    pub open spec fn signer(self) -> Option<ConsensusAuthority> {
        match self {
            PowOrPoaDigest::Pow(_) => None,
            PowOrPoaDigest::Poa(authority) => Some(authority),
        }
    }
}

impl Default for PowOrPoaDigest {
    fn default() -> (digest: Self)
        ensures
            digest == PowOrPoaDigest::Pow(0),
    {
        PowOrPoaDigest::Pow(0)
    }
}

impl From<u64> for PowOrPoaDigest {
    fn from(v: u64) -> (digest: Self) {
        PowOrPoaDigest::Pow(v)
    }
}

impl FromSpecImpl<u64> for PowOrPoaDigest {
    open spec fn obeys_from_spec() -> bool {
        true
    }

    open spec fn from_spec(v: u64) -> Self {
        PowOrPoaDigest::Pow(v)
    }
}

impl From<ConsensusAuthority> for PowOrPoaDigest {
    fn from(c: ConsensusAuthority) -> (digest: Self) {
        PowOrPoaDigest::Poa(c)
    }
}

impl FromSpecImpl<ConsensusAuthority> for PowOrPoaDigest {
    open spec fn obeys_from_spec() -> bool {
        true
    }

    open spec fn from_spec(c: ConsensusAuthority) -> Self {
        PowOrPoaDigest::Poa(c)
    }
}

impl TryFrom<PowOrPoaDigest> for u64 {
    type Error = ();

    fn try_from(d: PowOrPoaDigest) -> (nonce: Result<Self, Self::Error>) {
        match d {
            PowOrPoaDigest::Pow(v) => Ok(v),
            PowOrPoaDigest::Poa(_) => Err(()),
        }
    }
}

impl TryFromSpecImpl<PowOrPoaDigest> for u64 {
    open spec fn obeys_try_from_spec() -> bool {
        true
    }

    open spec fn try_from_spec(d: PowOrPoaDigest) -> Result<Self, Self::Error> {
        match d {
            PowOrPoaDigest::Pow(v) => Ok(v),
            PowOrPoaDigest::Poa(_) => Err(()),
        }
    }
}

impl TryFrom<PowOrPoaDigest> for ConsensusAuthority {
    type Error = ();

    fn try_from(d: PowOrPoaDigest) -> (signer: Result<Self, Self::Error>) {
        match d {
            PowOrPoaDigest::Pow(_) => Err(()),
            PowOrPoaDigest::Poa(c) => Ok(c),
        }
    }
}

impl TryFromSpecImpl<PowOrPoaDigest> for ConsensusAuthority {
    open spec fn obeys_try_from_spec() -> bool {
        true
    }

    open spec fn try_from_spec(d: PowOrPoaDigest) -> Result<Self, Self::Error> {
        match d {
            PowOrPoaDigest::Pow(_) => Err(()),
            PowOrPoaDigest::Poa(c) => Ok(c),
        }
    }
}

impl Canonical for PowOrPoaDigest {
    open spec fn encoding(&self) -> Seq<u64> {
        match *self {
            PowOrPoaDigest::Pow(nonce) => seq![0u64, nonce],
            PowOrPoaDigest::Poa(authority) => seq![1u64, authority.rank()],
        }
    }

    proof fn lemma_encoding_injective(a: Self, b: Self) {
        let wa = a.encoding();
        let wb = b.encoding();
        assert(wa[0] == wb[0] && wa[1] == wb[1]);
    }

    fn encode(&self) -> (words: Vec<u64>) {
        let mut words: Vec<u64> = Vec::new();
        match *self {
            PowOrPoaDigest::Pow(nonce) => {
                words.push(0);
                words.push(nonce);
            },
            PowOrPoaDigest::Poa(authority) => {
                words.push(1);
                words.push(authority.index());
            },
        }
        words
    }

    fn duplicate(&self) -> (copy: Self) {
        *self
    }
}

impl Digest for PowOrPoaDigest {
    open spec fn unsealed() -> PowOrPoaDigest {
        PowOrPoaDigest::Pow(0)
    }

    fn blank() -> (digest: PowOrPoaDigest) {
        PowOrPoaDigest::Pow(0)
    }
}

/// What a rule over nonces is over the digests of either kind.
pub open spec fn work_rule(rule: SealRule<u64>) -> SealRule<PowOrPoaDigest> {
    match rule {
        SealRule::Refuses => SealRule::Refuses,
        SealRule::Stamps(nonce) => SealRule::Stamps(PowOrPoaDigest::Pow(nonce)),
        SealRule::Searches => SealRule::Searches,
    }
}

/// What a rule over signatures is over the digests of either kind.
pub open spec fn authority_rule(rule: SealRule<ConsensusAuthority>) -> SealRule<PowOrPoaDigest> {
    match rule {
        SealRule::Refuses => SealRule::Refuses,
        SealRule::Stamps(authority) => SealRule::Stamps(PowOrPoaDigest::Poa(authority)),
        SealRule::Searches => SealRule::Searches,
    }
}

/// Alternates between the two engines: the child of a block sealed by work is
/// sealed by an authority, and the child of a block sealed by an authority is
/// sealed by work.
#[derive(Clone, Debug, Hash)]
pub struct AlternatingPowPoa {
    pub pow: Pow,
    pub poa: SimplePoa,
}

impl Consensus for AlternatingPowPoa {
    type Digest = PowOrPoaDigest;

    open spec fn valid(&self, parent_digest: PowOrPoaDigest, header: Header<PowOrPoaDigest>) -> bool {
        match parent_digest {
            PowOrPoaDigest::Pow(_) => header.consensus_digest.signer() matches Some(authority)
                && self.poa.valid(ConsensusAuthority::Alice, header.sealed_with(authority)),
            PowOrPoaDigest::Poa(_) => header.consensus_digest.work() matches Some(nonce)
                && self.pow.valid(0, header.sealed_with(nonce)),
        }
    }

    open spec fn seal_rule(
        &self,
        parent_digest: PowOrPoaDigest,
        partial_header: Header<PowOrPoaDigest>,
    ) -> SealRule<PowOrPoaDigest> {
        match parent_digest {
            PowOrPoaDigest::Pow(_) => authority_rule(
                self.poa.seal_rule(
                    ConsensusAuthority::Alice,
                    partial_header.sealed_with(ConsensusAuthority::Alice),
                ),
            ),
            PowOrPoaDigest::Poa(_) => work_rule(
                self.pow.seal_rule(0, partial_header.sealed_with(0u64)),
            ),
        }
    }

    fn validate(&self, parent_digest: &PowOrPoaDigest, header: &Header<PowOrPoaDigest>) -> (ok:
        bool) {
        match *parent_digest {
            PowOrPoaDigest::Pow(_) => match header.consensus_digest {
                PowOrPoaDigest::Poa(authority) => self.poa.validate(
                    &ConsensusAuthority::Alice,
                    &header.with_digest(authority),
                ),
                PowOrPoaDigest::Pow(_) => false,
            },
            PowOrPoaDigest::Poa(_) => match header.consensus_digest {
                PowOrPoaDigest::Pow(nonce) => self.pow.validate(&0, &header.with_digest(nonce)),
                PowOrPoaDigest::Poa(_) => false,
            },
        }
    }

    fn seal(&self, parent_digest: &PowOrPoaDigest, partial_header: Header<PowOrPoaDigest>) -> (sealed:
        Option<Header<PowOrPoaDigest>>) {
        let digest = match *parent_digest {
            PowOrPoaDigest::Pow(_) => {
                let signed = self.poa.seal(
                    &ConsensusAuthority::Alice,
                    partial_header.with_digest(ConsensusAuthority::default()),
                );
                match signed {
                    Some(header) => PowOrPoaDigest::Poa(header.consensus_digest),
                    None => {
                        return None;
                    },
                }
            },
            PowOrPoaDigest::Poa(_) => {
                let mined = self.pow.seal(&0, partial_header.with_digest(0u64));
                match mined {
                    Some(header) => PowOrPoaDigest::Pow(header.consensus_digest),
                    None => {
                        return None;
                    },
                }
            },
        };
        Some(partial_header.with_digest(digest))
    }
}

} // verus!
