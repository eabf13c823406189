//! A higher-order engine for a change of consensus rules at a block height:
//! one engine governs the blocks below the fork height, another those from it on.

use crate::consensus::even_only::EvenOnly;
use crate::consensus::interleave::PowOrPoaDigest;
use crate::consensus::poa::PoaRoundRobinByHeight;
use crate::consensus::pow::Pow;
use crate::consensus::{Consensus, ConsensusAuthority, Digest, Header, SealRule};
use std::marker::PhantomData;
use vstd::prelude::*;

verus! {

/// A digest type that holds the digests of an inner engine: every inner digest
/// can be put into it, and taken out again where the outer digest holds one.
pub trait Embeds<Inner>: Sized {
    /// The outer digest that holds an inner one.
    spec fn inject(inner: Inner) -> Self;

    /// The inner digest that an outer one holds, if it holds one of this kind.
    spec fn project(self) -> Option<Inner>;

    /// What was put in comes out again.
    proof fn lemma_project_inject(inner: Inner)
        ensures
            Self::inject(inner).project() == Some(inner),
    ;

    fn embed(inner: Inner) -> (outer: Self)
        ensures
            outer == Self::inject(inner),
    ;

    fn extract(&self) -> (inner: Option<Inner>)
        ensures
            inner == self.project(),
    ;
}

impl Embeds<u64> for u64 {
    open spec fn inject(inner: u64) -> u64 {
        inner
    }

    open spec fn project(self) -> Option<u64> {
        Some(self)
    }

    proof fn lemma_project_inject(inner: u64) {
    }

    fn embed(inner: u64) -> (outer: u64) {
        inner
    }

    fn extract(&self) -> (inner: Option<u64>) {
        Some(*self)
    }
}

impl Embeds<ConsensusAuthority> for ConsensusAuthority {
    open spec fn inject(inner: ConsensusAuthority) -> ConsensusAuthority {
        inner
    }

    open spec fn project(self) -> Option<ConsensusAuthority> {
        Some(self)
    }

    proof fn lemma_project_inject(inner: ConsensusAuthority) {
    }

    fn embed(inner: ConsensusAuthority) -> (outer: ConsensusAuthority) {
        inner
    }

    fn extract(&self) -> (inner: Option<ConsensusAuthority>) {
        Some(*self)
    }
}

impl Embeds<u64> for PowOrPoaDigest {
    open spec fn inject(inner: u64) -> PowOrPoaDigest {
        PowOrPoaDigest::Pow(inner)
    }

    open spec fn project(self) -> Option<u64> {
        self.work()
    }

    proof fn lemma_project_inject(inner: u64) {
    }

    fn embed(inner: u64) -> (outer: PowOrPoaDigest) {
        PowOrPoaDigest::Pow(inner)
    }

    fn extract(&self) -> (inner: Option<u64>) {
        match *self {
            PowOrPoaDigest::Pow(nonce) => Some(nonce),
            PowOrPoaDigest::Poa(_) => None,
        }
    }
}

impl Embeds<ConsensusAuthority> for PowOrPoaDigest {
    open spec fn inject(inner: ConsensusAuthority) -> PowOrPoaDigest {
        PowOrPoaDigest::Poa(inner)
    }

    open spec fn project(self) -> Option<ConsensusAuthority> {
        self.signer()
    }

    proof fn lemma_project_inject(inner: ConsensusAuthority) {
    }

    fn embed(inner: ConsensusAuthority) -> (outer: PowOrPoaDigest) {
        PowOrPoaDigest::Poa(inner)
    }

    fn extract(&self) -> (inner: Option<ConsensusAuthority>) {
        match *self {
            PowOrPoaDigest::Pow(_) => None,
            PowOrPoaDigest::Poa(authority) => Some(authority),
        }
    }
}

/// Whether an inner engine accepts a header of the outer kind: the digests of
/// the parent and of the header must both hold a digest of the inner kind.
pub open spec fn accepts_through<D: Embeds<E::Digest>, E: Consensus>(
    engine: E,
    parent_digest: D,
    header: Header<D>,
) -> bool {
    match (parent_digest.project(), header.consensus_digest.project()) {
        (Some(parent), Some(digest)) => engine.valid(parent, header.sealed_with(digest)),
        _ => false,
    }
}

/// The header that is handed to an inner engine for sealing: under the inner
/// digest that the header holds, or the unsealed one where it holds none.
pub open spec fn handed_down<D: Embeds<E::Digest>, E: Consensus>(header: Header<D>) -> Header<
    E::Digest,
> {
    header.sealed_with(
        match header.consensus_digest.project() {
            Some(digest) => digest,
            None => <E::Digest as Digest>::unsealed(),
        },
    )
}

/// What an inner engine does with a header of the outer kind: it refuses
/// where the digest of the parent holds no digest of the inner kind.
pub open spec fn seals_through<D: Embeds<E::Digest>, E: Consensus>(
    engine: E,
    parent_digest: D,
    partial_header: Header<D>,
) -> SealRule<D> {
    match parent_digest.project() {
        Some(parent) => match engine.seal_rule(parent, handed_down::<D, E>(partial_header)) {
            SealRule::Refuses => SealRule::Refuses,
            SealRule::Stamps(digest) => SealRule::Stamps(D::inject(digest)),
            SealRule::Searches => SealRule::Searches,
        },
        None => SealRule::Refuses,
    }
}

/// Validates a header of the outer kind with an inner engine.
pub fn validate_through<D: Embeds<E::Digest>, E: Consensus>(
    engine: &E,
    parent_digest: &D,
    header: &Header<D>,
) -> (ok: bool)
    ensures
        ok == accepts_through(*engine, *parent_digest, *header),
{
    match parent_digest.extract() {
        Some(parent) => match header.consensus_digest.extract() {
            Some(digest) => engine.validate(&parent, &header.with_digest(digest)),
            None => false,
        },
        None => false,
    }
}

/// Seals a header of the outer kind with an inner engine.
pub fn seal_through<D: Embeds<E::Digest>, E: Consensus>(
    engine: &E,
    parent_digest: &D,
    partial_header: &Header<D>,
) -> (sealed: Option<Header<D>>)
    ensures
        match seals_through(*engine, *parent_digest, *partial_header) {
            SealRule::Refuses => sealed is None,
            SealRule::Stamps(digest) => sealed == Some(partial_header.sealed_with(digest)),
            SealRule::Searches => true,
        },
        sealed matches Some(header) ==> header == partial_header.sealed_with(
            header.consensus_digest,
        ) && accepts_through(*engine, *parent_digest, header),
{
    match parent_digest.extract() {
        Some(parent) => {
            let inner_digest = match partial_header.consensus_digest.extract() {
                Some(digest) => digest,
                None => <E::Digest as Digest>::blank(),
            };
            match engine.seal(&parent, partial_header.with_digest(inner_digest)) {
                Some(inner) => {
                    proof {
                        D::lemma_project_inject(inner.consensus_digest);
                    }
                    let Header { consensus_digest, .. } = inner;
                    Some(partial_header.with_digest(D::embed(consensus_digest)))
                },
                None => None,
            }
        },
        None => None,
    }
}

/// A change from one set of consensus rules to another at a block height.
/// The engine of a height is handed the digest of the parent too: a block is
/// accepted, and sealed, only where that digest holds one of its own kind.
pub struct Forked<D, Before, After> {
    /// The first block height at which the new rules apply.
    pub fork_height: u64,
    pub before: Before,
    pub after: After,
    pub phdata: PhantomData<D>,
}

impl<D, B, A> Consensus for Forked<D, B, A> where
    D: Digest + Embeds<B::Digest> + Embeds<A::Digest>,
    B: Consensus,
    A: Consensus,
 {
    type Digest = D;

    open spec fn valid(&self, parent_digest: D, header: Header<D>) -> bool {
        if header.height < self.fork_height {
            accepts_through::<D, B>(self.before, parent_digest, header)
        } else {
            accepts_through::<D, A>(self.after, parent_digest, header)
        }
    }

    open spec fn seal_rule(&self, parent_digest: D, partial_header: Header<D>) -> SealRule<D> {
        if partial_header.height < self.fork_height {
            seals_through::<D, B>(self.before, parent_digest, partial_header)
        } else {
            seals_through::<D, A>(self.after, parent_digest, partial_header)
        }
    }

    fn validate(&self, parent_digest: &D, header: &Header<D>) -> (ok: bool) {
        if header.height < self.fork_height {
            validate_through::<D, B>(&self.before, parent_digest, header)
        } else {
            validate_through::<D, A>(&self.after, parent_digest, header)
        }
    }

    fn seal(&self, parent_digest: &D, partial_header: Header<D>) -> (sealed: Option<Header<D>>) {
        if partial_header.height < self.fork_height {
            seal_through::<D, B>(&self.before, parent_digest, &partial_header)
        } else {
            seal_through::<D, A>(&self.after, parent_digest, &partial_header)
        }
    }
}

/// At the fork height the later engine governs; one block below it, the earlier.
pub proof fn lemma_fork_boundary<D, B, A>(engine: Forked<D, B, A>, parent_digest: D, header: Header<D>) where
    D: Digest + Embeds<B::Digest> + Embeds<A::Digest>,
    B: Consensus,
    A: Consensus,

    ensures
        header.height == engine.fork_height ==> engine.valid(parent_digest, header)
            == accepts_through::<D, A>(engine.after, parent_digest, header),
        header.height + 1 == engine.fork_height ==> engine.valid(parent_digest, header)
            == accepts_through::<D, B>(engine.before, parent_digest, header),
        header.height == engine.fork_height ==> engine.seal_rule(parent_digest, header)
            == seals_through::<D, A>(engine.after, parent_digest, header),
        header.height + 1 == engine.fork_height ==> engine.seal_rule(parent_digest, header)
            == seals_through::<D, B>(engine.before, parent_digest, header),
{
}

/// A round robin of authorities that changes its authorities at a height.
pub fn change_authorities(
    fork_height: u64,
    initial_authorities: Vec<ConsensusAuthority>,
    final_authorities: Vec<ConsensusAuthority>,
) -> (engine: Forked<ConsensusAuthority, PoaRoundRobinByHeight, PoaRoundRobinByHeight>)
    ensures
        engine.fork_height == fork_height,
        engine.before.authorities == initial_authorities,
        engine.after.authorities == final_authorities,
{
    Forked {
        fork_height,
        before: PoaRoundRobinByHeight { authorities: initial_authorities },
        after: PoaRoundRobinByHeight { authorities: final_authorities },
        phdata: PhantomData,
    }
}

/// A proof of work that changes its difficulty at a height.
pub fn change_difficulty(fork_height: u64, initial_difficulty: u64, final_difficulty: u64) -> (engine:
    Forked<u64, Pow, Pow>)
    ensures
        engine.fork_height == fork_height,
        engine.before.threshold == initial_difficulty,
        engine.after.threshold == final_difficulty,
{
    Forked {
        fork_height,
        before: Pow { threshold: initial_difficulty },
        after: Pow { threshold: final_difficulty },
        phdata: PhantomData,
    }
}

/// An engine that asks for even state roots from a height on, and otherwise
/// keeps the rules of the given engine.
pub fn even_after_given_height<Engine: Consensus + Clone>(
    fork_height: u64,
    consensus: Engine,
) -> (engine: Forked<Engine::Digest, Engine, EvenOnly<Engine>>) where
    Engine::Digest: Embeds<Engine::Digest>,

    ensures
        engine.fork_height == fork_height,
        cloned(consensus, engine.before),
        engine.after.inner == consensus,
{
    Forked {
        fork_height,
        before: consensus.clone(),
        after: EvenOnly { inner: consensus },
        phdata: PhantomData,
    }
}

/// A switch from proof of work to a round robin of authorities at a height.
pub fn pow_to_poa(fork_height: u64, difficulty: u64, authorities: Vec<ConsensusAuthority>) -> (engine:
    Forked<PowOrPoaDigest, Pow, PoaRoundRobinByHeight>)
    ensures
        engine.fork_height == fork_height,
        engine.before.threshold == difficulty,
        engine.after.authorities == authorities,
{
    Forked {
        fork_height,
        before: Pow { threshold: difficulty },
        after: PoaRoundRobinByHeight { authorities },
        phdata: PhantomData,
    }
}

} // verus!
