//! Chains of proof-of-work headers, and rules that judge which of several
//! chains is the best one.

use crate::consensus::pow::{meets_threshold, mine};
use crate::consensus::Header;
use crate::hashing::{hash_of, hash_value};
use vstd::prelude::*;

verus! {

/// The threshold of work that the headers of a chain meet.
pub const THRESHOLD: u64 = u64::MAX / 100;

/// Whether `child` follows `parent`: it names the parent's hash and stands one higher.
pub open spec fn follows(parent: Header<u64>, child: Header<u64>) -> bool {
    child.parent == parent.hash_spec() && child.height == parent.height + 1
}

/// Whether the headers form a chain that starts as a child of `root`.
pub open spec fn extends(root: Header<u64>, chain: Seq<Header<u64>>) -> bool {
    forall|at: int|
        0 <= at < chain.len() ==> follows(
            if at == 0 {
                root
            } else {
                chain[at - 1]
            },
            #[trigger] chain[at],
        )
}

/// Whether every header of a chain meets a threshold of work.
pub open spec fn all_meet(chain: Seq<Header<u64>>, threshold: u64) -> bool {
    forall|at: int| 0 <= at < chain.len() ==> meets_threshold(#[trigger] chain[at], threshold)
}

/// A genesis header: no parent, height 0, and no seal.
pub fn genesis_header() -> (genesis: Header<u64>)
    ensures
        genesis == (Header::<u64> {
            parent: 0,
            height: 0,
            state_root: 0,
            extrinsics_root: 0,
            consensus_digest: 0,
        }),
{
    Header { parent: 0, height: 0, state_root: 0, extrinsics_root: 0, consensus_digest: 0 }
}

/// The child of a header before it is sealed.
pub open spec fn unsealed_child(parent: Header<u64>, extrinsics_root: u64, state_root: u64) -> Header<
    u64,
> {
    Header {
        parent: parent.hash_spec(),
        height: (parent.height + 1) as u64,
        state_root,
        extrinsics_root,
        consensus_digest: 0,
    }
}

/// Mines a child of a header at `THRESHOLD`. `None` where the search gave up.
pub fn child_header(parent: &Header<u64>, extrinsics_root: u64, state_root: u64) -> (child: Option<
    Header<u64>,
>)
    requires
        parent.height < u64::MAX,
    ensures
        child matches Some(mined) ==> {
            &&& mined == unsealed_child(*parent, extrinsics_root, state_root).sealed_with(
                mined.consensus_digest,
            )
            &&& follows(*parent, mined)
            &&& meets_threshold(mined, THRESHOLD)
        },
        meets_threshold(unsealed_child(*parent, extrinsics_root, state_root), THRESHOLD) ==> child
            == Some(unsealed_child(*parent, extrinsics_root, state_root)),
{
    let unsealed = Header {
        parent: parent.hash(),
        height: parent.height + 1,
        state_root,
        extrinsics_root,
        consensus_digest: 0,
    };
    mine(unsealed, THRESHOLD)
}

/// Seals a header again, under a threshold of the caller's choice. Returns
/// whether a nonce was found; the header is as it was where none was.
pub fn mine_extra_hard(header: &mut Header<u64>, threshold: u64) -> (found: bool)
    ensures
        found ==> meets_threshold(*final(header), threshold) && *final(header) == old(header).sealed_with(final(header).consensus_digest),
        !found ==> *final(header) == *old(header),
        meets_threshold(*old(header), threshold) ==> found && *final(header) == *old(header),
{
    match mine(*header, threshold) {
        Some(mined) => {
            *header = mined;
            true
        },
        None => false,
    }
}

/// Judges which chain is best when there are several candidates.
pub trait ForkChoice {
    /// The chains that the rule can judge.
    spec fn judges(chain: Seq<Header<u64>>) -> bool;

    /// Whether the first chain is at least as good as the second.
    spec fn prefers(chain_1: Seq<Header<u64>>, chain_2: Seq<Header<u64>>) -> bool;

    /// Compares two chains. They need not start at the same block, nor at a
    /// genesis block.
    fn first_chain_is_better(chain_1: &[Header<u64>], chain_2: &[Header<u64>]) -> (better: bool)
        requires
            Self::judges(chain_1@),
            Self::judges(chain_2@),
        ensures
            better == Self::prefers(chain_1@, chain_2@),
    ;
}

/// The candidate that is kept after the first `upto` candidates were compared
/// in turn, each with the one kept so far.
pub open spec fn kept<F: ForkChoice>(candidates: Seq<Seq<Header<u64>>>, upto: int) -> int
    decreases upto,
{
    if upto <= 0 {
        0
    } else {
        let so_far = kept::<F>(candidates, upto - 1);
        if F::prefers(candidates[upto - 1], candidates[so_far]) {
            upto - 1
        } else {
            so_far
        }
    }
}

/// The place of the best of several chains, found by comparing them in turn.
pub fn best_chain<F: ForkChoice>(candidate_chains: &Vec<Vec<Header<u64>>>) -> (best: usize)
    requires
        candidate_chains@.len() > 0,
        forall|at: int|
            0 <= at < candidate_chains@.len() ==> F::judges((#[trigger] candidate_chains@[at])@),
    ensures
        best < candidate_chains@.len(),
        best == kept::<F>(
            candidate_chains@.map_values(|chain: Vec<Header<u64>>| chain@),
            candidate_chains@.len() as int,
        ),
{
    let ghost candidates = candidate_chains@.map_values(|chain: Vec<Header<u64>>| chain@);
    let mut best: usize = 0;
    let mut i: usize = 0;
    while i < candidate_chains.len()
        invariant
            i <= candidate_chains.len(),
            candidate_chains@.len() > 0,
            best < candidate_chains@.len(),
            candidates == candidate_chains@.map_values(|chain: Vec<Header<u64>>| chain@),
            best == kept::<F>(candidates, i as int),
            forall|at: int|
                0 <= at < candidate_chains@.len() ==> F::judges(
                    (#[trigger] candidate_chains@[at])@,
                ),
        decreases candidate_chains.len() - i,
    {
        if F::first_chain_is_better(candidate_chains[i].as_slice(), candidate_chains[best].as_slice()) {
            best = i;
        }
        i += 1;
    }
    best
}

/// The best chain is the longest one.
pub struct LongestChainRule;

impl ForkChoice for LongestChainRule {
    open spec fn judges(chain: Seq<Header<u64>>) -> bool {
        true
    }

    open spec fn prefers(chain_1: Seq<Header<u64>>, chain_2: Seq<Header<u64>>) -> bool {
        chain_1.len() >= chain_2.len()
    }

    fn first_chain_is_better(chain_1: &[Header<u64>], chain_2: &[Header<u64>]) -> (better: bool) {
        chain_1.len() >= chain_2.len()
    }
}

/// The chain that the longest-chain rule keeps is as long as any candidate.
pub proof fn lemma_longest_rule_keeps_a_longest(candidates: Seq<Seq<Header<u64>>>, upto: int)
    requires
        0 < upto <= candidates.len(),
    ensures
        0 <= kept::<LongestChainRule>(candidates, upto) < upto,
        forall|at: int|
            0 <= at < upto ==> (#[trigger] candidates[at]).len() <= candidates[kept::<
                LongestChainRule,
            >(candidates, upto)].len(),
    decreases upto,
{
    if upto > 1 {
        lemma_longest_rule_keeps_a_longest(candidates, upto - 1);
    } else {
        assert(kept::<LongestChainRule>(candidates, 0) == 0);
    }
}

/// The work in a header: the lower its hash, the more. A header without a
/// seal, such as a genesis header, holds none.
pub open spec fn work_of(header: Header<u64>) -> int {
    if header.consensus_digest == 0 {
        0
    } else {
        THRESHOLD - header.hash_spec()
    }
}

/// The work accumulated in a chain.
pub open spec fn total_work(chain: Seq<Header<u64>>) -> int
    decreases chain.len(),
{
    if chain.len() == 0 {
        0
    } else {
        total_work(chain.drop_last()) + work_of(chain.last())
    }
}

/// Whether each sealed header of a chain has a hash that does not exceed
/// `THRESHOLD`, so that its work can be told.
pub open spec fn work_defined(chain: Seq<Header<u64>>) -> bool {
    forall|at: int|
        0 <= at < chain.len() ==> (#[trigger] chain[at]).consensus_digest == 0
            || chain[at].hash_spec() <= THRESHOLD
}

proof fn lemma_total_work_bounds(chain: Seq<Header<u64>>)
    requires
        work_defined(chain),
    ensures
        0 <= total_work(chain) <= chain.len() * THRESHOLD,
    decreases chain.len(),
{
    if chain.len() > 0 {
        lemma_total_work_bounds(chain.drop_last());
        assert(chain.last() == chain[chain.len() - 1]);
        assert((chain.len() - 1) * THRESHOLD + THRESHOLD == chain.len() * THRESHOLD)
            by (nonlinear_arith);
    }
}

/// The best chain is the one with the most accumulated work.
pub struct HeaviestChainRule;

impl HeaviestChainRule {
    /// Whether the work of every header of a chain can be told.
    pub fn can_judge(chain: &[Header<u64>]) -> (ok: bool)
        ensures
            ok == work_defined(chain@),
    {
        let mut i: usize = 0;
        while i < chain.len()
            invariant
                i <= chain.len(),
                work_defined(chain@.take(i as int)),
            decreases chain.len() - i,
        {
            if chain[i].consensus_digest != 0 && chain[i].hash() > THRESHOLD {
                return false;
            }
            i += 1;
        }
        proof {
            assert(chain@.take(i as int) =~= chain@);
        }
        true
    }

    /// The work accumulated in a chain.
    pub fn work_in_chain(chain: &[Header<u64>]) -> (work: u128)
        requires
            work_defined(chain@),
        ensures
            work == total_work(chain@),
    {
        let mut work: u128 = 0;
        let mut i: usize = 0;
        while i < chain.len()
            invariant
                i <= chain.len(),
                work_defined(chain@),
                work == total_work(chain@.take(i as int)),
            decreases chain.len() - i,
        {
            proof {
                let upto = chain@.take(i + 1);
                assert(upto.drop_last() =~= chain@.take(i as int));
                lemma_total_work_bounds(upto);
                assert(upto.len() * THRESHOLD <= usize::MAX * u64::MAX) by (nonlinear_arith)
                    requires
                        upto.len() <= usize::MAX,
                        THRESHOLD <= u64::MAX,
                ;
                assert(usize::MAX * u64::MAX <= u128::MAX) by (nonlinear_arith)
                    requires
                        usize::MAX <= u64::MAX,
                ;
            }
            if chain[i].consensus_digest != 0 {
                let spent: u64 = THRESHOLD - chain[i].hash();
                work = work + (spent as u128);
            }
            i += 1;
        }
        proof {
            assert(chain@.take(i as int) =~= chain@);
        }
        work
    }
}

impl ForkChoice for HeaviestChainRule {
    open spec fn judges(chain: Seq<Header<u64>>) -> bool {
        work_defined(chain)
    }

    open spec fn prefers(chain_1: Seq<Header<u64>>, chain_2: Seq<Header<u64>>) -> bool {
        total_work(chain_1) >= total_work(chain_2)
    }

    fn first_chain_is_better(chain_1: &[Header<u64>], chain_2: &[Header<u64>]) -> (better: bool) {
        let work_in_chain_1 = HeaviestChainRule::work_in_chain(chain_1);
        let work_in_chain_2 = HeaviestChainRule::work_in_chain(chain_2);
        work_in_chain_1 >= work_in_chain_2
    }
}

/// The chain that the heaviest-chain rule keeps holds as much work as any candidate.
pub proof fn lemma_heaviest_rule_keeps_a_heaviest(candidates: Seq<Seq<Header<u64>>>, upto: int)
    requires
        0 < upto <= candidates.len(),
    ensures
        0 <= kept::<HeaviestChainRule>(candidates, upto) < upto,
        forall|at: int|
            0 <= at < upto ==> total_work(#[trigger] candidates[at]) <= total_work(
                candidates[kept::<HeaviestChainRule>(candidates, upto)],
            ),
    decreases upto,
{
    if upto > 1 {
        lemma_heaviest_rule_keeps_a_heaviest(candidates, upto - 1);
    } else {
        assert(kept::<HeaviestChainRule>(candidates, 0) == 0);
    }
}

/// The number of headers of a chain whose hash is even.
pub open spec fn even_hashes(chain: Seq<Header<u64>>) -> int
    decreases chain.len(),
{
    if chain.len() == 0 {
        0
    } else {
        even_hashes(chain.drop_last()) + if chain.last().hash_spec() % 2 == 0 {
            1int
        } else {
            0int
        }
    }
}

/// The best chain is the one with the most headers of even hash.
pub struct MostBlocksWithEvenHash;

impl MostBlocksWithEvenHash {
    /// The number of headers of a chain whose hash is even.
    pub fn count_even(chain: &[Header<u64>]) -> (count: usize)
        ensures
            count == even_hashes(chain@),
    {
        let mut count: usize = 0;
        let mut i: usize = 0;
        while i < chain.len()
            invariant
                i <= chain.len(),
                count <= i,
                count == even_hashes(chain@.take(i as int)),
            decreases chain.len() - i,
        {
            proof {
                let upto = chain@.take(i + 1);
                assert(upto.drop_last() =~= chain@.take(i as int));
            }
            if chain[i].hash() % 2 == 0 {
                count += 1;
            }
            i += 1;
        }
        proof {
            assert(chain@.take(i as int) =~= chain@);
        }
        count
    }
}

impl ForkChoice for MostBlocksWithEvenHash {
    open spec fn judges(chain: Seq<Header<u64>>) -> bool {
        true
    }

    open spec fn prefers(chain_1: Seq<Header<u64>>, chain_2: Seq<Header<u64>>) -> bool {
        even_hashes(chain_1) > even_hashes(chain_2)
    }

    fn first_chain_is_better(chain_1: &[Header<u64>], chain_2: &[Header<u64>]) -> (better: bool) {
        let count_even_chain_1 = MostBlocksWithEvenHash::count_even(chain_1);
        let count_even_chain_2 = MostBlocksWithEvenHash::count_even(chain_2);
        count_even_chain_1 > count_even_chain_2
    }
}

/// The header before a place of a chain that follows `root`.
pub open spec fn predecessor(root: Header<u64>, chain: Seq<Header<u64>>, at: int) -> Header<u64> {
    if at == 0 {
        root
    } else {
        chain[at - 1]
    }
}

/// The header that is handed to the miner for the place `at` of a chain,
/// after `parent`: it bears the state root `at` and the hash of `at` as
/// extrinsics root, and no seal.
pub open spec fn unsealed_link(parent: Header<u64>, at: int) -> Header<u64> {
    Header {
        parent: parent.hash_spec(),
        height: (parent.height + 1) as u64,
        state_root: at as u64,
        extrinsics_root: hash_of(seq![at as u64]),
        consensus_digest: 0,
    }
}

/// Whether a chain is one that `extend_chain` builds after `root`: each
/// header is the link after its predecessor, under a digest with which it
/// meets the threshold, and there was a height for it.
pub open spec fn is_mined_extension(
    root: Header<u64>,
    chain: Seq<Header<u64>>,
    threshold: u64,
) -> bool {
    forall|at: int|
        0 <= at < chain.len() ==> {
            &&& predecessor(root, chain, at).height < u64::MAX
            &&& #[trigger] chain[at] == unsealed_link(predecessor(root, chain, at), at).sealed_with(
                chain[at].consensus_digest,
            )
            &&& meets_threshold(chain[at], threshold)
        }
}

/// The chain of `n` links after `root` in which no link bears a seal: what
/// `extend_chain` builds where no link needs a nonce.
pub open spec fn unmined_extension(root: Header<u64>, n: nat) -> Seq<Header<u64>>
    decreases n,
{
    if n == 0 {
        Seq::empty()
    } else {
        let before = unmined_extension(root, (n - 1) as nat);
        before.push(unsealed_link(predecessor(root, before, n - 1), n - 1))
    }
}

/// The unmined chain of `n` links begins with the unmined chain of `k` links.
pub proof fn lemma_unmined_extension_grows(root: Header<u64>, k: nat, n: nat)
    requires
        k <= n,
    ensures
        unmined_extension(root, n).len() == n,
        unmined_extension(root, n).take(k as int) == unmined_extension(root, k),
    decreases n,
{
    if n > 0 {
        lemma_unmined_extension_grows(root, if k < n {
            k
        } else {
            (n - 1) as nat
        }, (n - 1) as nat);
        let before = unmined_extension(root, (n - 1) as nat);
        let whole = unmined_extension(root, n);
        if k < n {
            assert(whole.take(k as int) =~= before.take(k as int));
        } else {
            assert(whole.take(k as int) =~= whole);
        }
    } else {
        assert(unmined_extension(root, n).take(k as int) =~= unmined_extension(root, k));
    }
}

/// Mines `n` headers in a row after `root`, each at `threshold`. The header
/// at place `i` has the state root `i` and the hash of `i` as extrinsics root.
/// `None` where a search gave up or a height would pass `u64::MAX`; where no
/// link needs a nonce, nothing is left to chance.
pub fn extend_chain(root: &Header<u64>, n: u64, threshold: u64) -> (built: Option<Vec<Header<u64>>>)
    ensures
        built matches Some(chain) ==> {
            &&& chain@.len() == n
            &&& is_mined_extension(*root, chain@, threshold)
            &&& extends(*root, chain@)
            &&& all_meet(chain@, threshold)
            &&& forall|at: int|
                0 <= at < n ==> {
                    &&& (#[trigger] chain@[at]).height == root.height + at + 1
                    &&& chain@[at].state_root == at
                    &&& chain@[at].extrinsics_root == hash_of(seq![at as u64])
                }
        },
        root.height + n > u64::MAX ==> built is None,
        threshold == 0 && n > 0 ==> built is None,
        root.height + n <= u64::MAX && all_meet(unmined_extension(*root, n as nat), threshold)
            ==> (built matches Some(chain) && chain@ == unmined_extension(*root, n as nat)),
{
    let ghost owed = all_meet(unmined_extension(*root, n as nat), threshold);
    let mut chain: Vec<Header<u64>> = Vec::new();
    let mut parent = *root;
    let mut i: u64 = 0;
    while i < n
        invariant
            i <= n,
            chain@.len() == i,
            is_mined_extension(*root, chain@, threshold),
            extends(*root, chain@),
            all_meet(chain@, threshold),
            forall|at: int|
                0 <= at < i ==> {
                    &&& (#[trigger] chain@[at]).height == root.height + at + 1
                    &&& chain@[at].state_root == at
                    &&& chain@[at].extrinsics_root == hash_of(seq![at as u64])
                },
            parent == predecessor(*root, chain@, i as int),
            parent.height == root.height + i,
            i > 0 ==> threshold > 0,
            owed == all_meet(unmined_extension(*root, n as nat), threshold),
            owed ==> chain@ == unmined_extension(*root, i as nat),
        decreases n - i,
    {
        if parent.height == u64::MAX {
            return None;
        }
        let unsealed = Header {
            parent: parent.hash(),
            height: parent.height + 1,
            state_root: i,
            extrinsics_root: hash_value(&i),
            consensus_digest: 0,
        };
        proof {
            assert(unsealed == unsealed_link(parent, i as int));
            if owed {
                lemma_unmined_extension_grows(*root, (i + 1) as nat, n as nat);
                let whole = unmined_extension(*root, n as nat);
                let next = unmined_extension(*root, (i + 1) as nat);
                assert(next[i as int] == whole.take(i + 1)[i as int]);
                assert(next[i as int] == unsealed);
                assert(meets_threshold(whole[i as int], threshold));
            }
        }
        match mine(unsealed, threshold) {
            Some(child) => {
                chain.push(child);
                proof {
                    let before = chain@.drop_last();
                    assert forall|at: int| 0 <= at < chain@.len() implies {
                        &&& predecessor(*root, chain@, at).height < u64::MAX
                        &&& #[trigger] chain@[at] == unsealed_link(
                            predecessor(*root, chain@, at),
                            at,
                        ).sealed_with(chain@[at].consensus_digest)
                        &&& meets_threshold(chain@[at], threshold)
                    } by {
                        if at < i {
                            assert(chain@[at] == before[at]);
                            assert(predecessor(*root, chain@, at) == predecessor(*root, before, at));
                        }
                    }
                    if owed {
                        assert(chain@ =~= unmined_extension(*root, (i + 1) as nat));
                    }
                }
                parent = child;
            },
            None => {
                return None;
            },
        }
        i += 1;
    }
    Some(chain)
}

/// The genesis header of the chains that are built here.
pub open spec fn built_genesis() -> Header<u64> {
    Header { parent: 0, height: 0, state_root: 0, extrinsics_root: 0, consensus_digest: 0 }
}

/// Builds a valid chain: a genesis header and `n` headers after it, each
/// mined at `THRESHOLD` as `extend_chain` mines them. `None` where a search
/// gave up; where no header needs a nonce, nothing is left to chance, and a
/// chain of the genesis header alone is always built.
pub fn build_valid_chain(n: u64) -> (built: Option<Vec<Header<u64>>>)
    requires
        n < usize::MAX,
    ensures
        built matches Some(chain) ==> {
            &&& chain@.len() == n + 1
            &&& chain@[0] == (Header::<u64> {
                parent: 0,
                height: 0,
                state_root: 0,
                extrinsics_root: 0,
                consensus_digest: 0,
            })
            &&& is_mined_extension(chain@[0], chain@.subrange(1, n + 1), THRESHOLD)
            &&& extends(chain@[0], chain@.subrange(1, n + 1))
            &&& all_meet(chain@.subrange(1, n + 1), THRESHOLD)
            &&& forall|at: int| 0 <= at <= n ==> (#[trigger] chain@[at]).height == at
        },
        all_meet(unmined_extension(built_genesis(), n as nat), THRESHOLD) ==> (built matches Some(
            chain,
        ) && chain@ == seq![built_genesis()] + unmined_extension(built_genesis(), n as nat)),
{
    let genesis = genesis_header();
    match extend_chain(&genesis, n, THRESHOLD) {
        Some(rest) => {
            let mut chain: Vec<Header<u64>> = Vec::new();
            chain.push(genesis);
            let mut i: usize = 0;
            while i < rest.len()
                invariant
                    i <= rest.len(),
                    rest@.len() == n,
                    chain@.len() == i + 1,
                    chain@[0] == genesis,
                    chain@.subrange(1, i + 1) == rest@.take(i as int),
                decreases rest.len() - i,
            {
                chain.push(rest[i]);
                proof {
                    assert(chain@.subrange(1, i + 2) =~= rest@.take(i + 1));
                }
                i += 1;
            }
            proof {
                assert(rest@.take(i as int) =~= rest@);
                assert(chain@ =~= seq![genesis] + rest@);
                assert forall|at: int| 0 <= at <= n implies (#[trigger] chain@[at]).height
                    == at by {
                    if at > 0 {
                        assert(chain@[at] == rest@[at - 1]);
                    }
                }
            }
            Some(chain)
        },
        None => None,
    }
}

/// Builds a fork: a common prefix of eleven headers from genesis on, a suffix
/// of twelve headers at `THRESHOLD`, and a suffix of ten headers at a
/// ten-thousandth of it, each mined as `extend_chain` mines them. The first
/// suffix is the longer, the second the heavier one; `None` where a search
/// gave up, or where the shorter suffix did not come out as the heavier.
/// Where no header needs a nonce, nothing is left to chance.
pub fn create_fork_one_side_longer_other_side_heavier() -> (built: Option<
    (Vec<Header<u64>>, Vec<Header<u64>>, Vec<Header<u64>>),
>)
    ensures
        built matches Some((prefix, longer, heavier)) ==> {
            &&& prefix@.len() == 11
            &&& longer@.len() == 12
            &&& heavier@.len() == 10
            &&& prefix@[0] == built_genesis()
            &&& is_mined_extension(prefix@[0], prefix@.subrange(1, 11), THRESHOLD)
            &&& is_mined_extension(prefix@[10], longer@, THRESHOLD)
            &&& is_mined_extension(prefix@[10], heavier@, (THRESHOLD / 10000) as u64)
            &&& extends(prefix@[0], prefix@.subrange(1, 11))
            &&& extends(prefix@[10], longer@)
            &&& extends(prefix@[10], heavier@)
            &&& all_meet(longer@, THRESHOLD)
            &&& all_meet(heavier@, THRESHOLD / 10000)
            &&& LongestChainRule::prefers(longer@, heavier@)
            &&& !LongestChainRule::prefers(heavier@, longer@)
            &&& HeaviestChainRule::judges(longer@)
            &&& HeaviestChainRule::judges(heavier@)
            &&& HeaviestChainRule::prefers(heavier@, longer@)
        },
        fork_without_chance() ==> (built matches Some((prefix, longer, heavier)) && prefix@
            == seq![built_genesis()] + unmined_extension(built_genesis(), 10) && longer@
            == unmined_extension(unmined_extension(built_genesis(), 10)[9], 12) && heavier@
            == unmined_extension(unmined_extension(built_genesis(), 10)[9], 10)),
{
    let prefix = match build_valid_chain(10) {
        Some(chain) => chain,
        None => {
            return None;
        },
    };
    let tip = prefix[10];
    let longer = match extend_chain(&tip, 12, THRESHOLD) {
        Some(chain) => chain,
        None => {
            return None;
        },
    };
    let heavier = match extend_chain(&tip, 10, THRESHOLD / 10000) {
        Some(chain) => chain,
        None => {
            return None;
        },
    };
    proof {
        assert forall|at: int| 0 <= at < longer@.len() implies (#[trigger] longer@[at]).hash_spec()
            <= THRESHOLD by {
            assert(meets_threshold(longer@[at], THRESHOLD));
        }
        assert forall|at: int| 0 <= at < heavier@.len() implies (
        #[trigger] heavier@[at]).hash_spec() <= THRESHOLD by {
            assert(meets_threshold(heavier@[at], THRESHOLD / 10000));
        }
    }
    if HeaviestChainRule::first_chain_is_better(heavier.as_slice(), longer.as_slice()) {
        Some((prefix, longer, heavier))
    } else {
        None
    }
}

/// Whether the fork of `create_fork_one_side_longer_other_side_heavier`
/// comes out without a nonce: every link meets its threshold as it is, and
/// the shorter suffix holds no less work than the longer.
pub open spec fn fork_without_chance() -> bool {
    let prefix = unmined_extension(built_genesis(), 10);
    let longer = unmined_extension(prefix[9], 12);
    let heavier = unmined_extension(prefix[9], 10);
    &&& all_meet(prefix, THRESHOLD)
    &&& all_meet(longer, THRESHOLD)
    &&& all_meet(heavier, (THRESHOLD / 10000) as u64)
    &&& total_work(heavier) >= total_work(longer)
}

} // verus!
