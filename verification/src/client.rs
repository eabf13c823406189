//! The client: it follows a chain as it grows. It imports blocks, keeps the
//! best tip, queues transactions and authors blocks of its own.

use crate::consensus::{Consensus, Header};
use crate::hashing::{duplicate_all, empty_sequence_root, Canonical};
use crate::state_machine::{hash_state, state_root_of, Snapshot, StateMachine};
use std::collections::HashMap;
use vstd::prelude::*;

pub mod authoring_blocks;
pub mod data_structure;
pub mod fork_choice;
pub mod tip_weights;
pub mod importing_blocks;
pub mod transaction_pool;

verus! {

broadcast use vstd::std_specs::hash::group_hash_axioms;

/// A block: a header, and the transitions that the block makes.
pub struct Block<C: Consensus, SM: StateMachine> {
    pub header: Header<C::Digest>,
    pub body: Vec<SM::Transition>,
}

/// What a block is: its header and the sequence of its transitions.
pub struct BlockModel<C: Consensus, SM: StateMachine> {
    pub header: Header<C::Digest>,
    pub body: Seq<SM::Transition>,
}

impl<C: Consensus, SM: StateMachine> BlockModel<C, SM> {
    /// The hash of a block is the hash of its header, which holds the root of its body.
    pub open spec fn hash(self) -> u64 {
        self.header.hash_spec()
    }
}

impl<C: Consensus, SM: StateMachine> View for Block<C, SM> {
    type V = BlockModel<C, SM>;

    open spec fn view(&self) -> BlockModel<C, SM> {
        BlockModel { header: self.header, body: self.body@ }
    }
}

impl<C: Consensus, SM: StateMachine> Block<C, SM> {
    /// The hash of the block: that of its header.
    pub fn hash(&self) -> (h: u64)
        ensures
            h == self@.hash(),
    {
        self.header.hash()
    }

    /// A copy of the block.
    pub fn duplicate(&self) -> (copy: Self)
        ensures
            copy@ == self@,
    {
        Block { header: self.header.duplicate(), body: duplicate_all(&self.body) }
    }
}

impl<C: Consensus, SM: StateMachine> Default for Block<C, SM> {
    /// A block without transitions, whose header holds zeros and no seal.
    fn default() -> (block: Self)
        ensures
            block@.body == Seq::<SM::Transition>::empty(),
            block@.header == (Header::<C::Digest> {
                parent: 0,
                height: 0,
                state_root: 0,
                extrinsics_root: 0,
                consensus_digest: <C::Digest as crate::consensus::Digest>::unsealed(),
            }),
    {
        Block {
            header: Header {
                parent: 0,
                height: 0,
                state_root: 0,
                extrinsics_root: 0,
                consensus_digest: <C::Digest as crate::consensus::Digest>::blank(),
            },
            body: Vec::new(),
        }
    }
}

impl<C: Consensus, SM: StateMachine> Clone for Block<C, SM> {
    fn clone(&self) -> (copy: Self)
        ensures
            copy@ == self@,
    {
        self.duplicate()
    }
}

/// What a storage holds: the blocks by their hash, the states by their root,
/// and the two cursors of the authoring path.
pub struct StorageModel<C: Consensus, SM: StateMachine> {
    pub blocks: Map<u64, BlockModel<C, SM>>,
    pub states: Map<u64, <SM::State as View>::V>,
    pub last_block: BlockModel<C, SM>,
    pub current_state: <SM::State as View>::V,
}

impl<C: Consensus, SM: StateMachine> StorageModel<C, SM> {
    /// Every block is found under its own hash, and every state under its own root.
    pub open spec fn coherent(self) -> bool {
        &&& forall|h: u64| #[trigger] self.blocks.contains_key(h) ==> self.blocks[h].hash() == h
        &&& forall|root: u64| #[trigger]
            self.states.contains_key(root) ==> state_root_of::<SM>(self.states[root]) == root
    }

    pub open spec fn with_block(self, block: BlockModel<C, SM>) -> Self {
        StorageModel { blocks: self.blocks.insert(block.hash(), block), ..self }
    }

    pub open spec fn with_state(self, state: <SM::State as View>::V) -> Self {
        StorageModel { states: self.states.insert(state_root_of::<SM>(state), state), ..self }
    }

    pub open spec fn with_last_block(self, block: BlockModel<C, SM>) -> Self {
        StorageModel { last_block: block, ..self }
    }

    pub open spec fn with_current_state(self, state: <SM::State as View>::V) -> Self {
        StorageModel { current_state: state, ..self }
    }

    /// The storage with a block and the state it leads to added.
    pub open spec fn holding(self, block: BlockModel<C, SM>, state: <SM::State as View>::V) -> Self {
        self.with_state(state).with_block(block)
    }

    /// The storage after a block was accepted together with the state it
    /// leads to: both are added, and the cursors are set to them.
    pub open spec fn committed(self, block: BlockModel<C, SM>, state: <SM::State as View>::V) -> Self {
        self.holding(block, state).with_last_block(block).with_current_state(state)
    }
}

/// The genesis block of a state: no parent, height 0, no transitions, no seal.
pub open spec fn genesis_of<C: Consensus, SM: StateMachine>(
    genesis_state: <SM::State as View>::V,
) -> BlockModel<C, SM> {
    BlockModel {
        header: Header {
            parent: 0,
            height: 0,
            state_root: state_root_of::<SM>(genesis_state),
            extrinsics_root: empty_sequence_root(),
            consensus_digest: <C::Digest as crate::consensus::Digest>::unsealed(),
        },
        body: Seq::empty(),
    }
}

/// A storage that holds the genesis block of a state, and that state.
pub open spec fn seeded<C: Consensus, SM: StateMachine>(
    genesis_state: <SM::State as View>::V,
) -> StorageModel<C, SM> {
    StorageModel {
        blocks: Map::empty().insert(genesis_of::<C, SM>(genesis_state).hash(), genesis_of::<C, SM>(genesis_state)),
        states: Map::empty().insert(state_root_of::<SM>(genesis_state), genesis_state),
        last_block: genesis_of::<C, SM>(genesis_state),
        current_state: genesis_state,
    }
}

/// A storage of blocks and states. Nothing is ever deleted from it.
pub trait Storage<C: Consensus, SM: StateMachine>: View<V = StorageModel<C, SM>> + Sized {
    /// A storage seeded with the genesis block of a state.
    fn new(genesis_state: SM::State) -> (storage: Self)
        ensures
            storage@ == seeded::<C, SM>(genesis_state@),
    ;

    fn add_block(&mut self, block: Block<C, SM>)
        ensures
            final(self)@ == old(self)@.with_block(block@),
    ;

    fn get_block(&self, block_hash: u64) -> (found: Option<Block<C, SM>>)
        ensures
            match found {
                Some(block) => self@.blocks.contains_key(block_hash) && block@
                    == self@.blocks[block_hash],
                None => !self@.blocks.contains_key(block_hash),
            },
    ;

    fn get_last_block(&self) -> (block: Block<C, SM>)
        ensures
            block@ == self@.last_block,
    ;

    fn set_last_block(&mut self, block: Block<C, SM>)
        ensures
            final(self)@ == old(self)@.with_last_block(block@),
    ;

    fn get_state(&self, state_root: u64) -> (found: Option<SM::State>)
        ensures
            match found {
                Some(state) => self@.states.contains_key(state_root) && state@
                    == self@.states[state_root],
                None => !self@.states.contains_key(state_root),
            },
    ;

    /// Stores a state under its root.
    fn set_state(&mut self, state: SM::State)
        ensures
            final(self)@ == old(self)@.with_state(state@),
    ;

    fn current_state(&self) -> (state: SM::State)
        ensures
            state@ == self@.current_state,
    ;

    fn set_current_state(&mut self, state: SM::State)
        ensures
            final(self)@ == old(self)@.with_current_state(state@),
    ;

    /// The number of blocks held.
    fn block_count(&self) -> (n: usize)
        ensures
            n == self@.blocks.len(),
    ;

    /// The number of states held.
    fn state_count(&self) -> (n: usize)
        ensures
            n == self@.states.len(),
    ;
}

/// A storage in memory.
pub struct BasicStorage<C: Consensus, SM: StateMachine> {
    last_block: Block<C, SM>,
    state: SM::State,
    blocks_map: HashMap<u64, Block<C, SM>>,
    states_map: HashMap<u64, SM::State>,
}

impl<C: Consensus, SM: StateMachine> View for BasicStorage<C, SM> {
    type V = StorageModel<C, SM>;

    closed spec fn view(&self) -> StorageModel<C, SM> {
        StorageModel {
            blocks: self.blocks_map@.map_values(|block: Block<C, SM>| block@),
            states: self.states_map@.map_values(|state: SM::State| state@),
            last_block: self.last_block@,
            current_state: self.state@,
        }
    }
}

impl<C: Consensus, SM: StateMachine> Storage<C, SM> for BasicStorage<C, SM> {
    fn new(genesis_state: SM::State) -> (storage: Self) {
        let genesis_block = Block::<C, SM>::genesis(&genesis_state);
        let mut blocks_map: HashMap<u64, Block<C, SM>> = HashMap::new();
        blocks_map.insert(genesis_block.hash(), genesis_block.duplicate());
        let mut states_map: HashMap<u64, SM::State> = HashMap::new();
        states_map.insert(hash_state::<SM>(&genesis_state), genesis_state.duplicate());
        let storage = BasicStorage { last_block: genesis_block, state: genesis_state, blocks_map, states_map };
        proof {
            assert(storage@.blocks =~= seeded::<C, SM>(genesis_state@).blocks);
            assert(storage@.states =~= seeded::<C, SM>(genesis_state@).states);
        }
        storage
    }

    fn add_block(&mut self, block: Block<C, SM>) {
        let key = block.hash();
        self.blocks_map.insert(key, block);
        proof {
            assert(self@.blocks =~= old(self)@.with_block(block@).blocks);
        }
    }

    fn get_block(&self, block_hash: u64) -> (found: Option<Block<C, SM>>) {
        match self.blocks_map.get(&block_hash) {
            Some(block) => Some(block.duplicate()),
            None => None,
        }
    }

    fn get_last_block(&self) -> (block: Block<C, SM>) {
        self.last_block.duplicate()
    }

    fn set_last_block(&mut self, block: Block<C, SM>) {
        self.last_block = block;
    }

    fn get_state(&self, state_root: u64) -> (found: Option<SM::State>) {
        match self.states_map.get(&state_root) {
            Some(state) => Some(state.duplicate()),
            None => None,
        }
    }

    fn set_state(&mut self, state: SM::State) {
        let key = hash_state::<SM>(&state);
        self.states_map.insert(key, state);
        proof {
            assert(self@.states =~= old(self)@.with_state(state@).states);
        }
    }

    fn current_state(&self) -> (state: SM::State) {
        self.state.duplicate()
    }

    fn set_current_state(&mut self, state: SM::State) {
        self.state = state;
    }

    fn block_count(&self) -> (n: usize) {
        proof {
            lemma_same_size(self.blocks_map@, |block: Block<C, SM>| block@);
        }
        self.blocks_map.len()
    }

    fn state_count(&self) -> (n: usize) {
        proof {
            lemma_same_size(self.states_map@, |state: SM::State| state@);
        }
        self.states_map.len()
    }
}

proof fn lemma_same_size<K, V, W>(m: Map<K, V>, f: spec_fn(V) -> W)
    ensures
        m.map_values(f).len() == m.len(),
{
    assert(m.map_values(f).dom() =~= m.dom());
}

/// A client of a chain. It owns its parts and is the only one to change them:
/// the consensus engine, the state machine, the fork-choice rule, the pool of
/// transactions and the storage.
pub struct FullClient<C, SM, FC, P, S> {
    /// The consensus engine used by this client.
    pub consensus_engine: C,
    /// The state machine used by this client.
    pub state_machine: SM,
    /// The fork choice strategy used by this client.
    pub fork_choice: FC,
    /// The transaction pool used by this client.
    pub transaction_pool: P,
    /// Where the blocks and states are kept.
    pub storage: S,
}

} // verus!
