//! Fork choice: the rule by which a client decides which of the chains it
//! knows is the best one. A rule is told of every imported block.

use crate::client::tip_weights::{
    advanced, best_tip, capped_sum, lemma_advanced_idempotent, TipWeights,
};
use crate::client::{Block, FullClient};
use crate::consensus::poa::SimplePoa;
use crate::consensus::pow::Pow;
use crate::consensus::{Consensus, ConsensusAuthority, Digest, Header};
use crate::state_machine::StateMachine;
use vstd::prelude::*;

verus! {

/// A rule that tells the best block among those imported.
pub trait ForkChoice<C: Consensus, SM: StateMachine>: View + Sized {
    /// The hash of the best block known, if a block is known.
    spec fn best(model: Self::V) -> Option<u64>;

    /// What the rule holds after a block with the given header was imported.
    spec fn after_import(model: Self::V, header: Header<C::Digest>) -> Self::V;

    /// Importing a block a second time, right after the first, changes nothing.
    proof fn lemma_import_is_idempotent(model: Self::V, header: Header<C::Digest>)
        ensures
            Self::after_import(Self::after_import(model, header), header) == Self::after_import(
                model,
                header,
            ),
    ;

    /// The hash of the best block currently known.
    fn best_block(&self) -> (best: Option<u64>)
        ensures
            best == Self::best(self@),
    ;

    /// Keeps the books when a block is imported.
    fn import_hook(&mut self, block: Block<C, SM>)
        ensures
            final(self)@ == Self::after_import(old(self)@, block@.header),
    ;
}

/// What the longest-chain rule holds after a block: the greatest height seen,
/// and the hash of the block that reached it first.
pub open spec fn longest_after<D: Digest>(model: Option<(u64, u64)>, header: Header<D>) -> Option<
    (u64, u64),
> {
    match model {
        Some((height, hash)) => if header.height > height {
            Some((header.height, header.hash_spec()))
        } else {
            model
        },
        None => Some((header.height, header.hash_spec())),
    }
}

/// What the longest-chain rule holds after a sequence of blocks.
pub open spec fn longest_after_all<D: Digest>(
    model: Option<(u64, u64)>,
    headers: Seq<Header<D>>,
) -> Option<(u64, u64)>
    decreases headers.len(),
{
    if headers.len() == 0 {
        model
    } else {
        longest_after(longest_after_all(model, headers.drop_last()), headers.last())
    }
}

/// After any sequence of imports the longest-chain rule names a block of the
/// sequence whose height is the greatest of all, and the first to have it.
pub proof fn lemma_longest_names_greatest_height<D: Digest>(headers: Seq<Header<D>>)
    requires
        headers.len() > 0,
    ensures
        longest_after_all(None, headers) matches Some((height, hash)) && exists|at: int|
            {
                &&& 0 <= at < headers.len()
                &&& (#[trigger] headers[at]).height == height
                &&& headers[at].hash_spec() == hash
                &&& forall|other: int|
                    0 <= other < headers.len() ==> (#[trigger] headers[other]).height <= height
                &&& forall|earlier: int|
                    0 <= earlier < at ==> (#[trigger] headers[earlier]).height < height
            },
    decreases headers.len(),
{
    let before = headers.drop_last();
    if before.len() == 0 {
        assert(longest_after_all::<D>(None, before) == None::<(u64, u64)>);
        assert(headers[0] == headers.last());
    } else {
        lemma_longest_names_greatest_height(before);
        let (height, hash) = longest_after_all(None, before)->0;
        let at = choose|at: int|
            {
                &&& 0 <= at < before.len()
                &&& (#[trigger] before[at]).height == height
                &&& before[at].hash_spec() == hash
                &&& forall|other: int|
                    0 <= other < before.len() ==> (#[trigger] before[other]).height <= height
                &&& forall|earlier: int|
                    0 <= earlier < at ==> (#[trigger] before[earlier]).height < height
            };
        assert(forall|i: int| 0 <= i < before.len() ==> before[i] == headers[i]);
        if headers.last().height > height {
            let last = headers.len() - 1;
            assert(headers[last] == headers.last());
            assert forall|earlier: int| 0 <= earlier < last implies (
            #[trigger] headers[earlier]).height < headers.last().height by {
                assert(before[earlier].height <= height);
            }
        } else {
            assert(headers[at] == before[at]);
            assert forall|other: int| 0 <= other < headers.len() implies (
            #[trigger] headers[other]).height <= height by {
                if other < before.len() {
                    assert(before[other].height <= height);
                }
            }
            assert forall|earlier: int| 0 <= earlier < at implies (
            #[trigger] headers[earlier]).height < height by {
                assert(before[earlier].height < height);
            }
        }
    }
}

/// The chain with the highest block is the best. Of two blocks of one
/// height, the one imported first stays.
pub struct LongestChain {
    best_header: Option<(u64, u64)>,
}

impl View for LongestChain {
    type V = Option<(u64, u64)>;

    closed spec fn view(&self) -> Option<(u64, u64)> {
        self.best_header
    }
}

impl Default for LongestChain {
    fn default() -> (rule: Self)
        ensures
            rule@ is None,
    {
        LongestChain { best_header: None }
    }
}

impl<C: Consensus, SM: StateMachine> ForkChoice<C, SM> for LongestChain {
    open spec fn best(model: Option<(u64, u64)>) -> Option<u64> {
        match model {
            Some((height, hash)) => Some(hash),
            None => None,
        }
    }

    open spec fn after_import(model: Option<(u64, u64)>, header: Header<C::Digest>) -> Option<
        (u64, u64),
    > {
        longest_after(model, header)
    }

    proof fn lemma_import_is_idempotent(model: Option<(u64, u64)>, header: Header<C::Digest>) {
    }

    fn best_block(&self) -> (best: Option<u64>) {
        match self.best_header {
            Some((height, hash)) => Some(hash),
            None => None,
        }
    }

    fn import_hook(&mut self, block: Block<C, SM>) {
        let higher = match self.best_header {
            Some((height, hash)) => block.header.height > height,
            None => true,
        };
        if higher {
            self.best_header = Some((block.header.height, block.hash()));
        }
    }
}

/// The chain with the most accumulated work is the best. The work of a block
/// is its digest; the work of a chain stays at `u64::MAX` once it is there.
pub struct HeaviestChain {
    chain_weight_to_last_block_hash: TipWeights,
}

impl View for HeaviestChain {
    type V = Map<u64, u64>;

    closed spec fn view(&self) -> Map<u64, u64> {
        self.chain_weight_to_last_block_hash@
    }
}

impl Default for HeaviestChain {
    fn default() -> (rule: Self)
        ensures
            rule@ == Map::<u64, u64>::empty(),
    {
        HeaviestChain { chain_weight_to_last_block_hash: TipWeights::new() }
    }
}

impl<SM: StateMachine> ForkChoice<Pow, SM> for HeaviestChain {
    open spec fn best(model: Map<u64, u64>) -> Option<u64> {
        best_tip(model)
    }

    open spec fn after_import(model: Map<u64, u64>, header: Header<u64>) -> Map<u64, u64> {
        advanced(model, header.parent, header.hash_spec(), header.consensus_digest)
    }

    proof fn lemma_import_is_idempotent(model: Map<u64, u64>, header: Header<u64>) {
        lemma_advanced_idempotent(
            model,
            header.parent,
            header.hash_spec(),
            header.consensus_digest,
        );
    }

    fn best_block(&self) -> (best: Option<u64>) {
        self.chain_weight_to_last_block_hash.best()
    }

    fn import_hook(&mut self, block: Block<Pow, SM>) {
        let tip = block.hash();
        self.chain_weight_to_last_block_hash.advance(
            block.header.parent,
            tip,
            block.header.consensus_digest,
        );
    }
}

/// What a block adds to the count of a chain: one where Alice signed it.
pub open spec fn alice_sigs_in(header: Header<ConsensusAuthority>) -> u64 {
    if header.consensus_digest == ConsensusAuthority::Alice {
        1
    } else {
        0
    }
}

/// The chain with the most signatures of Alice is the best.
pub struct MostAliceSigs {
    chains_alice_sigs_to_last_block_hash: TipWeights,
}

impl View for MostAliceSigs {
    type V = Map<u64, u64>;

    closed spec fn view(&self) -> Map<u64, u64> {
        self.chains_alice_sigs_to_last_block_hash@
    }
}

impl Default for MostAliceSigs {
    fn default() -> (rule: Self)
        ensures
            rule@ == Map::<u64, u64>::empty(),
    {
        MostAliceSigs { chains_alice_sigs_to_last_block_hash: TipWeights::new() }
    }
}

impl<SM: StateMachine> ForkChoice<SimplePoa, SM> for MostAliceSigs {
    open spec fn best(model: Map<u64, u64>) -> Option<u64> {
        best_tip(model)
    }

    open spec fn after_import(model: Map<u64, u64>, header: Header<ConsensusAuthority>) -> Map<
        u64,
        u64,
    > {
        advanced(model, header.parent, header.hash_spec(), alice_sigs_in(header))
    }

    proof fn lemma_import_is_idempotent(model: Map<u64, u64>, header: Header<ConsensusAuthority>) {
        lemma_advanced_idempotent(model, header.parent, header.hash_spec(), alice_sigs_in(header));
    }

    fn best_block(&self) -> (best: Option<u64>) {
        self.chains_alice_sigs_to_last_block_hash.best()
    }

    fn import_hook(&mut self, block: Block<SimplePoa, SM>) {
        let gain: u64 = if block.header.consensus_digest == ConsensusAuthority::Alice {
            1
        } else {
            0
        };
        let tip = block.hash();
        self.chains_alice_sigs_to_last_block_hash.advance(block.header.parent, tip, gain);
    }
}

/// A chain that the GHOST rule follows: its accumulated work, and the hashes
/// of its blocks from the first to the tip.
pub struct ChainModel {
    pub weight: u64,
    pub blocks: Seq<u64>,
}

/// Whether a chain ends in a block.
pub open spec fn ends_in(chain: ChainModel, tip: u64) -> bool {
    chain.blocks.len() > 0 && chain.blocks.last() == tip
}

/// Whether `at` is the place of the first chain that ends in a block.
pub open spec fn is_first_ending_in(chains: Seq<ChainModel>, tip: u64, at: int) -> bool {
    &&& 0 <= at < chains.len()
    &&& ends_in(chains[at], tip)
    &&& forall|before: int| 0 <= before < at ==> !ends_in(#[trigger] chains[before], tip)
}

/// The place of the first chain that ends in a block, if one does.
pub open spec fn first_ending_in(chains: Seq<ChainModel>, tip: u64) -> Option<int> {
    if exists|at: int| is_first_ending_in(chains, tip, at) {
        Some(choose|at: int| is_first_ending_in(chains, tip, at))
    } else {
        None
    }
}

/// Whether `at` is the place of the heaviest chain, and of the first of
/// them where several weigh the same.
pub open spec fn is_first_heaviest(chains: Seq<ChainModel>, at: int) -> bool {
    &&& 0 <= at < chains.len()
    &&& forall|other: int|
        0 <= other < chains.len() ==> (#[trigger] chains[other]).weight <= chains[at].weight
    &&& forall|before: int| 0 <= before < at ==> (#[trigger] chains[before]).weight < chains[at].weight
}

/// The tip of the heaviest chain, if a chain is followed.
pub open spec fn ghost_best(chains: Seq<ChainModel>) -> Option<u64> {
    if exists|at: int| is_first_heaviest(chains, at) {
        let chain = chains[choose|at: int| is_first_heaviest(chains, at)];
        if chain.blocks.len() > 0 {
            Some(chain.blocks.last())
        } else {
            None
        }
    } else {
        None
    }
}

/// The chains after a block was imported. A block that is a tip already
/// changes nothing. A block whose parent is the tip of a chain is added to
/// that chain, and its work to the work of the chain. Any other block starts
/// a chain of its own.
pub open spec fn ghost_after(chains: Seq<ChainModel>, parent: u64, tip: u64, work: u64) -> Seq<
    ChainModel,
> {
    if first_ending_in(chains, tip) is Some {
        chains
    } else {
        match first_ending_in(chains, parent) {
            Some(at) => chains.update(
                at,
                ChainModel {
                    weight: capped_sum(chains[at].weight, work),
                    blocks: chains[at].blocks.push(tip),
                },
            ),
            None => chains.push(ChainModel { weight: work, blocks: seq![tip] }),
        }
    }
}

/// No import takes work away from a chain: what was the greatest work
/// before is, after an import, at most the greatest work.
pub proof fn lemma_ghost_weight_monotonic(
    chains: Seq<ChainModel>,
    parent: u64,
    tip: u64,
    work: u64,
    before: int,
    after: int,
)
    requires
        is_first_heaviest(chains, before),
        is_first_heaviest(ghost_after(chains, parent, tip, work), after),
    ensures
        chains[before].weight <= ghost_after(chains, parent, tip, work)[after].weight,
{
    let later = ghost_after(chains, parent, tip, work);
    assert(later.len() >= chains.len());
    assert(chains[before].weight <= later[before].weight);
}

/// No two chains end in one block, if none did before the import.
pub proof fn lemma_ghost_tips_stay_distinct(chains: Seq<ChainModel>, parent: u64, tip: u64, work: u64)
    requires
        forall|i: int, j: int|
            0 <= i < j < chains.len() && chains[i].blocks.len() > 0 && chains[j].blocks.len() > 0
                ==> chains[i].blocks.last() != chains[j].blocks.last(),
    ensures
        ({
            let later = ghost_after(chains, parent, tip, work);
            forall|i: int, j: int|
                0 <= i < j < later.len() && later[i].blocks.len() > 0 && later[j].blocks.len() > 0
                    ==> later[i].blocks.last() != later[j].blocks.last()
        }),
{
    let later = ghost_after(chains, parent, tip, work);
    if first_ending_in(chains, tip) is None {
        assert forall|at: int| 0 <= at < chains.len() implies !ends_in(
            #[trigger] chains[at],
            tip,
        ) by {
            if ends_in(chains[at], tip) {
                lemma_some_chain_is_first(chains, tip, at);
            }
        }
        assert forall|i: int, j: int|
            0 <= i < j < later.len() && later[i].blocks.len() > 0 && later[j].blocks.len()
                > 0 implies later[i].blocks.last() != later[j].blocks.last() by {
            if later[i].blocks.last() == later[j].blocks.last() {
                if i < chains.len() {
                    assert(!ends_in(chains[i], tip));
                }
                if j < chains.len() {
                    assert(!ends_in(chains[j], tip));
                }
            }
        }
    }
}

proof fn lemma_some_chain_is_first(chains: Seq<ChainModel>, tip: u64, at: int)
    requires
        0 <= at < chains.len(),
        ends_in(chains[at], tip),
    ensures
        exists|first: int| is_first_ending_in(chains, tip, first),
    decreases at,
{
    if exists|before: int| 0 <= before < at && ends_in(#[trigger] chains[before], tip) {
        let before = choose|before: int| 0 <= before < at && ends_in(#[trigger] chains[before], tip);
        lemma_some_chain_is_first(chains, tip, before);
    } else {
        assert(is_first_ending_in(chains, tip, at));
    }
}

/// A chain that the GHOST rule follows.
pub struct TrackedChain {
    weight: u64,
    blocks: Vec<u64>,
}

impl View for TrackedChain {
    type V = ChainModel;

    closed spec fn view(&self) -> ChainModel {
        ChainModel { weight: self.weight, blocks: self.blocks@ }
    }
}

/// The rule of the greedy heaviest observed subtree, over the chains that
/// the imported blocks form: the tip of the chain with the most accumulated
/// work is the best block.
pub struct GhostRule {
    chains: Vec<TrackedChain>,
}

impl View for GhostRule {
    type V = Seq<ChainModel>;

    closed spec fn view(&self) -> Seq<ChainModel> {
        self.chains@.map_values(|chain: TrackedChain| chain@)
    }
}

impl Default for GhostRule {
    fn default() -> (rule: Self)
        ensures
            rule@ == Seq::<ChainModel>::empty(),
    {
        let rule = GhostRule { chains: Vec::new() };
        rule
    }
}

impl GhostRule {
    /// The place of the first chain that ends in a block.
    fn chain_ending_in(&self, tip: u64) -> (found: Option<usize>)
        ensures
            match found {
                Some(at) => first_ending_in(self@, tip) == Some(at as int) && at
                    < self.chains@.len(),
                None => first_ending_in(self@, tip) is None,
            },
    {
        let mut i: usize = 0;
        while i < self.chains.len()
            invariant
                i <= self.chains.len(),
                forall|before: int| 0 <= before < i ==> !ends_in(#[trigger] self@[before], tip),
            decreases self.chains.len() - i,
        {
            let chain = &self.chains[i];
            let n = chain.blocks.len();
            if n > 0 && chain.blocks[n - 1] == tip {
                proof {
                    assert(is_first_ending_in(self@, tip, i as int));
                    let chosen = choose|at: int| is_first_ending_in(self@, tip, at);
                }
                return Some(i);
            }
            i += 1;
        }
        None
    }

    /// The place of the heaviest chain: the first of them where several weigh the same.
    fn heaviest(&self) -> (found: Option<usize>)
        ensures
            match found {
                Some(at) => is_first_heaviest(self@, at as int) && at < self.chains@.len(),
                None => self@.len() == 0,
            },
    {
        if self.chains.len() == 0 {
            return None;
        }
        let mut best: usize = 0;
        let mut i: usize = 1;
        while i < self.chains.len()
            invariant
                1 <= i <= self.chains.len(),
                best < i,
                forall|other: int|
                    0 <= other < i ==> (#[trigger] self@[other]).weight <= self@[best as int].weight,
                forall|before: int|
                    0 <= before < best ==> (#[trigger] self@[before]).weight
                        < self@[best as int].weight,
            decreases self.chains.len() - i,
        {
            if self.chains[i].weight > self.chains[best].weight {
                best = i;
            }
            i += 1;
        }
        Some(best)
    }

    /// Takes a block into the chains: `tip` is its hash, `parent` the hash
    /// of its parent, `work` the work in it.
    fn follow(&mut self, parent: u64, tip: u64, work: u64)
        ensures
            final(self)@ == ghost_after(old(self)@, parent, tip, work),
    {
        if self.chain_ending_in(tip).is_some() {
            return ;
        }
        match self.chain_ending_in(parent) {
            Some(at) => {
                let weight = self.chains[at].weight;
                let grown = if work > u64::MAX - weight {
                    u64::MAX
                } else {
                    weight + work
                };
                let mut blocks = self.chains[at].blocks.clone();
                blocks.push(tip);
                self.chains.set(at, TrackedChain { weight: grown, blocks });
            },
            None => {
                let mut blocks: Vec<u64> = Vec::new();
                blocks.push(tip);
                self.chains.push(TrackedChain { weight: work, blocks });
            },
        }
    }
}

impl<SM: StateMachine> ForkChoice<Pow, SM> for GhostRule {
    open spec fn best(model: Seq<ChainModel>) -> Option<u64> {
        ghost_best(model)
    }

    open spec fn after_import(model: Seq<ChainModel>, header: Header<u64>) -> Seq<ChainModel> {
        ghost_after(model, header.parent, header.hash_spec(), header.consensus_digest)
    }

    proof fn lemma_import_is_idempotent(model: Seq<ChainModel>, header: Header<u64>) {
        let tip = header.hash_spec();
        let once = ghost_after(model, header.parent, tip, header.consensus_digest);
        if first_ending_in(model, tip) is None {
            match first_ending_in(model, header.parent) {
                Some(at) => {
                    assert(is_first_ending_in(model, header.parent, at));
                    assert(ends_in(once[at], tip));
                    lemma_some_chain_is_first(once, tip, at);
                },
                None => {
                    let at = model.len() as int;
                    assert(ends_in(once[at], tip));
                    lemma_some_chain_is_first(once, tip, at);
                },
            }
        }
    }

    fn best_block(&self) -> (best: Option<u64>) {
        match self.heaviest() {
            Some(at) => {
                let chain = &self.chains[at];
                let n = chain.blocks.len();
                if n > 0 {
                    Some(chain.blocks[n - 1])
                } else {
                    None
                }
            },
            None => None,
        }
    }

    fn import_hook(&mut self, block: Block<Pow, SM>) {
        let tip = block.hash();
        self.follow(block.header.parent, tip, block.header.consensus_digest);
    }
}

impl<C, SM, FC, P, S> FullClient<C, SM, FC, P, S> where
    C: Consensus,
    SM: StateMachine,
    FC: ForkChoice<C, SM>,
 {
    /// The hash of the best block known to the client: 0 where none is known.
    pub fn best_block(&self) -> (best: u64)
        ensures
            best == (match FC::best(self.fork_choice@) {
                Some(hash) => hash,
                None => 0,
            }),
    {
        match self.fork_choice.best_block() {
            Some(hash) => hash,
            None => 0,
        }
    }
}

} // verus!
