//! Proof of authority: a header is sealed by the signature of an authority.
//! Three engines differ in which authority may sign which block.

use crate::consensus::{Consensus, ConsensusAuthority, Digest, Header, SealRule};
use crate::hashing::Canonical;
use vstd::prelude::*;

verus! {

/// Whether `at` is the first place at which an authority stands in a list.
pub open spec fn is_first_position(
    authorities: Seq<ConsensusAuthority>,
    who: ConsensusAuthority,
    at: int,
) -> bool {
    &&& 0 <= at < authorities.len()
    &&& authorities[at] == who
    &&& forall|before: int| 0 <= before < at ==> authorities[before] != who
}

/// The first place at which an authority stands in a list, if it is in it.
pub open spec fn first_position(
    authorities: Seq<ConsensusAuthority>,
    who: ConsensusAuthority,
) -> Option<int> {
    if exists|at: int| is_first_position(authorities, who, at) {
        Some(choose|at: int| is_first_position(authorities, who, at))
    } else {
        None
    }
}

/// The first place at which an authority stands in a list, if it is in it.
pub fn position(authorities: &Vec<ConsensusAuthority>, who: ConsensusAuthority) -> (found: Option<
    usize,
>)
    ensures
        match found {
            Some(at) => first_position(authorities@, who) == Some(at as int) && is_first_position(
                authorities@,
                who,
                at as int,
            ),
            None => first_position(authorities@, who) is None && !authorities@.contains(who),
        },
{
    let mut i: usize = 0;
    while i < authorities.len()
        invariant
            i <= authorities.len(),
            forall|before: int| 0 <= before < i ==> authorities@[before] != who,
        decreases authorities.len() - i,
    {
        if authorities[i] == who {
            proof {
                assert(is_first_position(authorities@, who, i as int));
                let chosen = choose|at: int| is_first_position(authorities@, who, at);
            }
            return Some(i);
        }
        i += 1;
    }
    None
}

/// Any of the authorities may sign any block.
#[derive(Clone, Debug, Hash)]
pub struct SimplePoa {
    pub authorities: Vec<ConsensusAuthority>,
}

impl Consensus for SimplePoa {
    type Digest = ConsensusAuthority;

    open spec fn valid(
        &self,
        parent_digest: ConsensusAuthority,
        header: Header<ConsensusAuthority>,
    ) -> bool {
        self.authorities@.contains(header.consensus_digest)
    }

    open spec fn seal_rule(
        &self,
        parent_digest: ConsensusAuthority,
        partial_header: Header<ConsensusAuthority>,
    ) -> SealRule<ConsensusAuthority> {
        if self.authorities@.len() == 0 {
            SealRule::Refuses
        } else {
            SealRule::Stamps(self.authorities@[0])
        }
    }

    fn validate(&self, parent_digest: &ConsensusAuthority, header: &Header<ConsensusAuthority>) -> (ok:
        bool) {
        position(&self.authorities, header.consensus_digest).is_some()
    }

    fn seal(
        &self,
        parent_digest: &ConsensusAuthority,
        partial_header: Header<ConsensusAuthority>,
    ) -> (sealed: Option<Header<ConsensusAuthority>>) {
        if self.authorities.len() == 0 {
            None
        } else {
            Some(partial_header.with_digest(self.authorities[0]))
        }
    }
}

/// The authorities take turns by block height: the first signs the block at
/// height 1. The genesis block bears no seal.
#[derive(Clone, Debug, Hash)]
pub struct PoaRoundRobinByHeight {
    pub authorities: Vec<ConsensusAuthority>,
}

impl PoaRoundRobinByHeight {
    /// The authority whose turn it is at a height: none at genesis, and none
    /// where there are no authorities.
    pub open spec fn scheduled(&self, height: u64) -> Option<ConsensusAuthority> {
        if self.authorities@.len() == 0 || height == 0 {
            None
        } else {
            Some(self.authorities@[(height - 1) % (self.authorities@.len() as int)])
        }
    }

    /// The authority whose turn it is at a height.
    pub fn signer_at(&self, height: u64) -> (signer: Option<ConsensusAuthority>)
        ensures
            signer == self.scheduled(height),
    {
        let n = self.authorities.len();
        if n == 0 || height == 0 {
            None
        } else {
            let turn = (height - 1) % (n as u64);
            Some(self.authorities[turn as usize])
        }
    }
}

impl Consensus for PoaRoundRobinByHeight {
    type Digest = ConsensusAuthority;

    open spec fn valid(
        &self,
        parent_digest: ConsensusAuthority,
        header: Header<ConsensusAuthority>,
    ) -> bool {
        self.scheduled(header.height) == Some(header.consensus_digest)
    }

    open spec fn seal_rule(
        &self,
        parent_digest: ConsensusAuthority,
        partial_header: Header<ConsensusAuthority>,
    ) -> SealRule<ConsensusAuthority> {
        match self.scheduled(partial_header.height) {
            Some(signer) => SealRule::Stamps(signer),
            None => SealRule::Refuses,
        }
    }

    fn validate(&self, parent_digest: &ConsensusAuthority, header: &Header<ConsensusAuthority>) -> (ok:
        bool) {
        match self.signer_at(header.height) {
            Some(signer) => signer == header.consensus_digest,
            None => false,
        }
    }

    fn seal(
        &self,
        parent_digest: &ConsensusAuthority,
        partial_header: Header<ConsensusAuthority>,
    ) -> (sealed: Option<Header<ConsensusAuthority>>) {
        match self.signer_at(partial_header.height) {
            Some(signer) => Some(partial_header.with_digest(signer)),
            None => None,
        }
    }
}

/// The digest of the round robin by slot: the slot, and who signed for it.
#[derive(Clone, Copy, Debug, PartialEq, Eq, Hash, Structural)]
pub struct SlotDigest {
    pub slot: u64,
    pub signature: ConsensusAuthority,
}

impl Default for SlotDigest {
    fn default() -> (digest: Self)
        ensures
            digest == (SlotDigest { slot: 0, signature: ConsensusAuthority::Alice }),
    {
        SlotDigest { slot: 0, signature: ConsensusAuthority::Alice }
    }
}

impl Canonical for SlotDigest {
    open spec fn encoding(&self) -> Seq<u64> {
        seq![self.slot, self.signature.rank()]
    }

    proof fn lemma_encoding_injective(a: Self, b: Self) {
        assert(a.encoding()[0] == a.slot && b.encoding()[0] == b.slot);
        assert(a.encoding()[1] == a.signature.rank() && b.encoding()[1] == b.signature.rank());
    }

    fn encode(&self) -> (words: Vec<u64>) {
        let mut words: Vec<u64> = Vec::new();
        words.push(self.slot);
        words.push(self.signature.index());
        words
    }

    fn duplicate(&self) -> (copy: Self) {
        *self
    }
}

impl Digest for SlotDigest {
    open spec fn unsealed() -> SlotDigest {
        SlotDigest { slot: 0, signature: ConsensusAuthority::Alice }
    }

    fn blank() -> (digest: SlotDigest) {
        SlotDigest { slot: 0, signature: ConsensusAuthority::Alice }
    }
}

impl Default for Header<SlotDigest> {
    fn default() -> (header: Self)
        ensures
            header == (Header::<SlotDigest> {
                parent: 0,
                height: 0,
                state_root: 0,
                extrinsics_root: 0,
                consensus_digest: SlotDigest { slot: 1, signature: ConsensusAuthority::Alice },
            }),
    {
        Header {
            parent: 0,
            height: 0,
            state_root: 0,
            extrinsics_root: 0,
            consensus_digest: SlotDigest { slot: 1, signature: ConsensusAuthority::Alice },
        }
    }
}

/// The authorities take turns by slot. Slots may be skipped, but never reused
/// or gone back on: the authority after the parent's signer signs the next
/// block, in a later slot.
#[derive(Clone, Debug, Hash)]
pub struct PoaRoundRobinBySlot {
    pub authorities: Vec<ConsensusAuthority>,
}

impl PoaRoundRobinBySlot {
    /// The authority that follows a signer: none where the signer is no authority.
    pub open spec fn successor(&self, signer: ConsensusAuthority) -> Option<ConsensusAuthority> {
        match first_position(self.authorities@, signer) {
            Some(at) => Some(self.authorities@[(at + 1) % (self.authorities@.len() as int)]),
            None => None,
        }
    }

    /// The authority that follows a signer.
    pub fn next_signer(&self, signer: ConsensusAuthority) -> (next: Option<ConsensusAuthority>)
        ensures
            next == self.successor(signer),
    {
        match position(&self.authorities, signer) {
            Some(at) => {
                let following: usize = if at == self.authorities.len() - 1 {
                    0
                } else {
                    at + 1
                };
                proof {
                    let n = self.authorities@.len() as int;
                    if at + 1 == n {
                        vstd::arithmetic::div_mod::lemma_mod_self_0(n);
                    } else {
                        vstd::arithmetic::div_mod::lemma_small_mod((at + 1) as nat, n as nat);
                    }
                }
                Some(self.authorities[following])
            },
            None => None,
        }
    }
}

impl Consensus for PoaRoundRobinBySlot {
    type Digest = SlotDigest;

    open spec fn valid(&self, parent_digest: SlotDigest, header: Header<SlotDigest>) -> bool {
        &&& parent_digest.slot < header.consensus_digest.slot
        &&& self.successor(parent_digest.signature) == Some(header.consensus_digest.signature)
    }

    open spec fn seal_rule(&self, parent_digest: SlotDigest, partial_header: Header<SlotDigest>) -> SealRule<
        SlotDigest,
    > {
        match self.successor(parent_digest.signature) {
            Some(signer) => if parent_digest.slot == u64::MAX {
                SealRule::Refuses
            } else {
                SealRule::Stamps(
                    SlotDigest { slot: (parent_digest.slot + 1) as u64, signature: signer },
                )
            },
            None => SealRule::Refuses,
        }
    }

    fn validate(&self, parent_digest: &SlotDigest, header: &Header<SlotDigest>) -> (ok: bool) {
        if parent_digest.slot >= header.consensus_digest.slot {
            return false;
        }
        match self.next_signer(parent_digest.signature) {
            Some(signer) => signer == header.consensus_digest.signature,
            None => false,
        }
    }

    fn seal(&self, parent_digest: &SlotDigest, partial_header: Header<SlotDigest>) -> (sealed:
        Option<Header<SlotDigest>>) {
        match self.next_signer(parent_digest.signature) {
            Some(signer) => {
                if parent_digest.slot == u64::MAX {
                    None
                } else {
                    Some(
                        partial_header.with_digest(
                            SlotDigest { slot: parent_digest.slot + 1, signature: signer },
                        ),
                    )
                }
            },
            None => None,
        }
    }
}

} // verus!
