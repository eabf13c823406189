//! Blocks and headers that are generic over the consensus digest and the
//! state machine.

use crate::client::{genesis_of, Block, BlockModel, FullClient, Storage};
use crate::consensus::{Consensus, Digest, Header};
use crate::hashing::{
    empty_sequence_root, hash_empty_sequence, hash_sequence, lemma_empty_sequence_root, sequence_root,
    Canonical,
};
use crate::state_machine::{apply_all, hash_state, replay, state_root_of, Snapshot, StateMachine};
use vstd::prelude::*;

verus! {

/// Whether `child` follows `parent`: it names the parent's hash and stands one higher.
pub open spec fn is_child_of<D: Digest>(parent: Header<D>, child: Header<D>) -> bool {
    child.parent == parent.hash_spec() && child.height == parent.height + 1
}

/// Whether the headers form a chain that starts as a child of `parent`.
pub open spec fn is_sub_chain_of<D: Digest>(parent: Header<D>, chain: Seq<Header<D>>) -> bool
    decreases chain.len(),
{
    chain.len() == 0 || (is_child_of(parent, chain[0]) && is_sub_chain_of(
        chain[0],
        chain.drop_first(),
    ))
}

impl<D: Digest> Header<D> {
    /// A genesis header.
    pub fn genesis(genesis_state_root: u64) -> (genesis: Self)
        ensures
            genesis == (Header::<D> {
                parent: 0,
                height: 0,
                state_root: genesis_state_root,
                extrinsics_root: empty_sequence_root(),
                consensus_digest: D::unsealed(),
            }),
    {
        Header {
            parent: 0,
            height: 0,
            state_root: genesis_state_root,
            extrinsics_root: hash_empty_sequence(),
            consensus_digest: D::blank(),
        }
    }

    /// An unsealed child of this header.
    pub fn child(&self, state_root: u64, extrinsics_root: u64) -> (child: Self)
        requires
            self.height < u64::MAX,
        ensures
            child == (Header::<D> {
                parent: self.hash_spec(),
                height: (self.height + 1) as u64,
                state_root,
                extrinsics_root,
                consensus_digest: D::unsealed(),
            }),
            is_child_of(*self, child),
    {
        Header {
            parent: self.hash(),
            height: self.height + 1,
            state_root,
            extrinsics_root,
            consensus_digest: D::blank(),
        }
    }

    /// Whether a header follows this one.
    pub fn verify_child(&self, child: &Self) -> (ok: bool)
        ensures
            ok == is_child_of(*self, *child),
    {
        if child.parent != self.hash() {
            return false;
        }
        if self.height == u64::MAX || child.height != self.height + 1 {
            return false;
        }
        true
    }

    /// Whether the headers form a chain from this header to the tip.
    pub fn verify_sub_chain(&self, chain: &[Self]) -> (ok: bool)
        ensures
            ok == is_sub_chain_of(*self, chain@),
    {
        let mut i: usize = 0;
        let mut parent: &Self = self;
        proof {
            assert(chain@.skip(0) =~= chain@);
        }
        while i < chain.len()
            invariant
                i <= chain.len(),
                is_sub_chain_of(*self, chain@) == is_sub_chain_of(*parent, chain@.skip(i as int)),
            decreases chain.len() - i,
        {
            let next_header = &chain[i];
            proof {
                let rest = chain@.skip(i as int);
                assert(rest.drop_first() =~= chain@.skip(i + 1));
            }
            if !parent.verify_child(next_header) {
                return false;
            }
            parent = next_header;
            i += 1;
        }
        true
    }
}

/// Whether the blocks form a chain after `parent`, given the state that the
/// parent leads to: each block names its predecessor, stands one higher, and
/// bears the root of its body and the root of the state that its body leads to.
pub open spec fn is_block_chain_after<C: Consensus, SM: StateMachine>(
    parent: Header<C::Digest>,
    pre_state: <SM::State as View>::V,
    chain: Seq<BlockModel<C, SM>>,
) -> bool
    decreases chain.len(),
{
    chain.len() == 0 || {
        let block = chain[0];
        let post_state = replay::<SM>(pre_state, block.body);
        &&& is_child_of(parent, block.header)
        &&& state_root_of::<SM>(post_state) == block.header.state_root
        &&& sequence_root(block.body) == block.header.extrinsics_root
        &&& is_block_chain_after::<C, SM>(block.header, post_state, chain.drop_first())
    }
}

/// A genesis block bears the root of its body and of its state, as every
/// block of a chain does.
pub proof fn lemma_genesis_bears_its_roots<C: Consensus, SM: StateMachine>(
    genesis_state: <SM::State as View>::V,
)
    ensures
        genesis_of::<C, SM>(genesis_state).header.extrinsics_root == sequence_root(
            genesis_of::<C, SM>(genesis_state).body,
        ),
        genesis_of::<C, SM>(genesis_state).header.state_root == state_root_of::<SM>(
            replay::<SM>(genesis_state, genesis_of::<C, SM>(genesis_state).body),
        ),
{
    lemma_empty_sequence_root(genesis_of::<C, SM>(genesis_state).body);
}

impl<C: Consensus, SM: StateMachine> Block<C, SM> {
    /// The genesis block of a state. By convention it has no extrinsics.
    pub fn genesis(genesis_state: &SM::State) -> (genesis: Self)
        ensures
            genesis@ == genesis_of::<C, SM>(genesis_state@),
    {
        let genesis = Block {
            header: Header::genesis(hash_state::<SM>(genesis_state)),
            body: Vec::<SM::Transition>::new(),
        };
        genesis
    }

    /// An unsealed child of this block: it makes the given transitions from
    /// the given state.
    pub fn child(&self, pre_state: &SM::State, extrinsics: Vec<SM::Transition>) -> (child: Self)
        requires
            self.header.height < u64::MAX,
        ensures
            child@.body == extrinsics@,
            child@.header == (Header::<C::Digest> {
                parent: self@.hash(),
                height: (self.header.height + 1) as u64,
                state_root: state_root_of::<SM>(replay::<SM>(pre_state@, extrinsics@)),
                extrinsics_root: sequence_root(extrinsics@),
                consensus_digest: <C::Digest as Digest>::unsealed(),
            }),
    {
        let new_state = apply_all::<SM>(pre_state, &extrinsics);
        let header = self.header.child(hash_state::<SM>(&new_state), hash_sequence(&extrinsics));
        Block { header, body: extrinsics }
    }

    /// Whether the blocks form a chain from this block to the tip, given the
    /// state that this block leads to.
    pub fn verify_sub_chain(&self, pre_state: &SM::State, chain: &[Self]) -> (ok: bool)
        ensures
            ok == is_block_chain_after::<C, SM>(
                self.header,
                pre_state@,
                chain@.map_values(|block: Self| block@),
            ),
    {
        let ghost blocks = chain@.map_values(|block: Self| block@);
        let mut curr_state = pre_state.duplicate();
        let mut parent: &Header<C::Digest> = &self.header;
        let mut i: usize = 0;
        proof {
            assert(blocks.skip(0) =~= blocks);
        }
        while i < chain.len()
            invariant
                i <= chain.len(),
                blocks == chain@.map_values(|block: Self| block@),
                is_block_chain_after::<C, SM>(self.header, pre_state@, blocks)
                    == is_block_chain_after::<C, SM>(*parent, curr_state@, blocks.skip(i as int)),
            decreases chain.len() - i,
        {
            let next_block = &chain[i];
            proof {
                let rest = blocks.skip(i as int);
                assert(rest.drop_first() =~= blocks.skip(i + 1));
            }
            curr_state = apply_all::<SM>(&curr_state, &next_block.body);
            if !parent.verify_child(&next_block.header) {
                return false;
            }
            if hash_state::<SM>(&curr_state) != next_block.header.state_root {
                return false;
            }
            if hash_sequence(&next_block.body) != next_block.header.extrinsics_root {
                return false;
            }
            parent = &next_block.header;
            i += 1;
        }
        true
    }
}

/// A genesis block and, where `n` is more than one, `n - 1` children of it
/// that make no transition. No block is sealed.
pub fn create_empty_chain<C: Consensus, SM: StateMachine>(n: u64, genesis_state: &SM::State) -> (chain:
    Vec<Block<C, SM>>)
    ensures
        chain@.len() == (if n == 0 {
            1
        } else {
            n as int
        }),
        chain@[0]@ == genesis_of::<C, SM>(genesis_state@),
        forall|at: int|
            1 <= at < chain@.len() ==> {
                &&& (#[trigger] chain@[at])@.body.len() == 0
                &&& is_child_of(chain@[0].header, chain@[at].header)
                &&& chain@[at].header.state_root == state_root_of::<SM>(genesis_state@)
                &&& chain@[at].header.extrinsics_root == empty_sequence_root()
            },
{
    let mut chain: Vec<Block<C, SM>> = Vec::new();
    let g = Block::<C, SM>::genesis(genesis_state);
    chain.push(g.duplicate());
    let mut i: u64 = 1;
    while i < n
        invariant
            1 <= i,
            i <= n || i == 1,
            g@ == genesis_of::<C, SM>(genesis_state@),
            chain@.len() == i,
            chain@[0]@ == g@,
            forall|at: int|
                1 <= at < chain@.len() ==> {
                    &&& (#[trigger] chain@[at])@.body.len() == 0
                    &&& is_child_of(chain@[0].header, chain@[at].header)
                    &&& chain@[at].header.state_root == state_root_of::<SM>(genesis_state@)
                    &&& chain@[at].header.extrinsics_root == empty_sequence_root()
                },
        decreases n - i,
    {
        let new_block = g.child(genesis_state, Vec::new());
        chain.push(new_block);
        i += 1;
    }
    chain
}

impl<C, SM, FC, P, S> FullClient<C, SM, FC, P, S> where
    C: Consensus,
    SM: StateMachine,
    S: Storage<C, SM>,
 {
    /// A client that starts from a genesis state: the storage is handed the
    /// genesis block of that state, and the state itself, and its cursors are
    /// set to them.
    pub fn new(
        genesis_state: SM::State,
        state_machine: SM,
        consensus_engine: C,
        fork_choice: FC,
        transaction_pool: P,
        storage: S,
    ) -> (client: Self)
        ensures
            client.storage@ == storage@.committed(
                genesis_of::<C, SM>(genesis_state@),
                genesis_state@,
            ),
            client.state_machine == state_machine,
            client.consensus_engine == consensus_engine,
            client.fork_choice == fork_choice,
            client.transaction_pool == transaction_pool,
    {
        let mut storage = storage;
        let genesis_block = Block::<C, SM>::genesis(&genesis_state);
        storage.set_state(genesis_state.duplicate());
        storage.add_block(genesis_block.duplicate());
        storage.set_last_block(genesis_block);
        storage.set_current_state(genesis_state);
        FullClient { consensus_engine, state_machine, fork_choice, transaction_pool, storage }
    }
}

} // verus!
