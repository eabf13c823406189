//! A higher-order engine that accepts a header only where its state root is
//! even, and the engine it wraps accepts it too.

use crate::consensus::pow::{meets_threshold, mine, moderate_difficulty_pow};
use crate::consensus::{Consensus, Header, SealRule};
use vstd::prelude::*;

verus! {

/// Requires an even state root besides the rules of the inner engine.
#[derive(Clone, Copy, Debug, Hash)]
pub struct EvenOnly<Inner: Consensus> {
    pub inner: Inner,
}

impl<Inner: Consensus> Consensus for EvenOnly<Inner> {
    type Digest = Inner::Digest;

    open spec fn valid(&self, parent_digest: Inner::Digest, header: Header<Inner::Digest>) -> bool {
        header.state_root % 2 == 0 && self.inner.valid(parent_digest, header)
    }

    open spec fn seal_rule(
        &self,
        parent_digest: Inner::Digest,
        partial_header: Header<Inner::Digest>,
    ) -> SealRule<Inner::Digest> {
        if partial_header.state_root % 2 == 0 {
            self.inner.seal_rule(parent_digest, partial_header)
        } else {
            SealRule::Refuses
        }
    }

    fn validate(&self, parent_digest: &Inner::Digest, header: &Header<Inner::Digest>) -> (ok: bool) {
        header.state_root % 2 == 0 && self.inner.validate(parent_digest, header)
    }

    fn seal(&self, parent_digest: &Inner::Digest, partial_header: Header<Inner::Digest>) -> (sealed:
        Option<Header<Inner::Digest>>) {
        if partial_header.state_root % 2 == 0 {
            self.inner.seal(parent_digest, partial_header)
        } else {
            None
        }
    }
}

/// What the wrapper accepts, the inner engine accepts, and its state root is even.
pub proof fn lemma_even_only_composes<Inner: Consensus>(
    engine: EvenOnly<Inner>,
    parent_digest: Inner::Digest,
    header: Header<Inner::Digest>,
)
    requires
        engine.valid(parent_digest, header),
    ensures
        engine.inner.valid(parent_digest, header),
        header.state_root % 2 == 0,
{
}

/// The state roots of the chain that `almost_valid_but_not_all_even` builds:
/// 2 at its start, then 0, 1, 2 and so on.
pub open spec fn almost_valid_state_root(at: int) -> u64 {
    if at == 0 {
        2
    } else {
        (at - 1) as u64
    }
}

/// The header that `almost_valid_but_not_all_even` hands to the miner for a
/// place of its chain: a genesis header at the start, and after it children
/// of the mined genesis header, whose hash is `genesis_hash`. The state root
/// of a child is also its extrinsics root.
pub open spec fn almost_valid_unsealed(at: int, genesis_hash: u64) -> Header<u64> {
    if at == 0 {
        Header { parent: 0, height: 0, state_root: 2, extrinsics_root: 0, consensus_digest: 0 }
    } else {
        Header {
            parent: genesis_hash,
            height: 1,
            state_root: almost_valid_state_root(at),
            extrinsics_root: almost_valid_state_root(at),
            consensus_digest: 0,
        }
    }
}

/// Whether the chain of `almost_valid_but_not_all_even` comes out without a
/// nonce: each of its eleven headers meets the threshold as it is.
pub open spec fn almost_valid_without_chance() -> bool {
    forall|at: int|
        0 <= at < 11 ==> meets_threshold(
            #[trigger] almost_valid_unsealed(at, almost_valid_unsealed(0, 0).hash_spec()),
            u64::MAX / 100,
        )
}

/// Builds a chain of eleven headers, each of which the proof of work of
/// moderate difficulty accepts, while the state roots are not all even: the
/// even-only engine over that proof of work refuses the chain. Mining draws
/// nonces by chance, and `None` comes back where it gave up; where no
/// header needs a nonce, nothing is left to chance.
pub fn almost_valid_but_not_all_even() -> (built: Option<Vec<Header<u64>>>)
    ensures
        built matches Some(chain) ==> {
            &&& chain@.len() == 11
            &&& forall|at: int|
                0 <= at < 11 ==> #[trigger] chain@[at] == almost_valid_unsealed(
                    at,
                    chain@[0].hash_spec(),
                ).sealed_with(chain@[at].consensus_digest)
            &&& forall|at: int|
                0 <= at < 11 ==> meets_threshold(#[trigger] chain@[at], u64::MAX / 100)
            &&& forall|at: int|
                0 <= at < 11 ==> (#[trigger] chain@[at]).state_root == almost_valid_state_root(at)
            &&& forall|at: int| 1 <= at < 11 ==> (#[trigger] chain@[at]).height == 1
            &&& forall|at: int|
                1 <= at < 11 ==> (#[trigger] chain@[at]).parent == chain@[0].hash_spec()
            &&& chain@[2].state_root % 2 == 1
        },
        almost_valid_without_chance() ==> (built matches Some(chain) && chain@.len() == 11
            && forall|at: int|
            0 <= at < 11 ==> #[trigger] chain@[at] == almost_valid_unsealed(
                at,
                almost_valid_unsealed(0, 0).hash_spec(),
            )),
{
    let engine = moderate_difficulty_pow();
    let ghost owed = almost_valid_without_chance();
    let unsealed_genesis = Header::<u64> {
        parent: 0,
        height: 0,
        state_root: 2,
        extrinsics_root: 0,
        consensus_digest: 0,
    };
    proof {
        assert(unsealed_genesis == almost_valid_unsealed(0, 0));
        if owed {
            assert(meets_threshold(
                almost_valid_unsealed(0, almost_valid_unsealed(0, 0).hash_spec()),
                u64::MAX / 100,
            ));
        }
    }
    let genesis = match mine(unsealed_genesis, engine.threshold) {
        Some(mined) => mined,
        None => {
            return None;
        },
    };
    let genesis_hash = genesis.hash();
    let mut chain: Vec<Header<u64>> = Vec::new();
    chain.push(genesis);
    let mut i: u64 = 0;
    while i < 10
        invariant
            i <= 10,
            engine.threshold == u64::MAX / 100,
            chain@.len() == i + 1,
            genesis_hash == chain@[0].hash_spec(),
            owed == almost_valid_without_chance(),
            owed ==> genesis_hash == almost_valid_unsealed(0, 0).hash_spec(),
            forall|at: int|
                0 <= at < chain@.len() ==> #[trigger] chain@[at] == almost_valid_unsealed(
                    at,
                    genesis_hash,
                ).sealed_with(chain@[at].consensus_digest),
            owed ==> forall|at: int|
                0 <= at < chain@.len() ==> #[trigger] chain@[at] == almost_valid_unsealed(
                    at,
                    genesis_hash,
                ),
            forall|at: int|
                0 <= at < chain@.len() ==> meets_threshold(#[trigger] chain@[at], u64::MAX / 100),
        decreases 10 - i,
    {
        let child = Header::<u64> {
            parent: genesis_hash,
            height: 1,
            state_root: i,
            extrinsics_root: i,
            consensus_digest: 0,
        };
        proof {
            assert(child == almost_valid_unsealed(i + 1, genesis_hash));
        }
        match mine(child, engine.threshold) {
            Some(mined) => {
                chain.push(mined);
            },
            None => {
                return None;
            },
        }
        i += 1;
    }
    Some(chain)
}

} // verus!
