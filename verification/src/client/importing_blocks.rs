//! Importing blocks: the most fundamental task of a client.

use crate::client::fork_choice::ForkChoice;
use crate::client::{Block, BlockModel, FullClient, Storage, StorageModel};
use crate::consensus::Consensus;
use crate::hashing::{hash_sequence, sequence_root};
use crate::state_machine::{apply_all, hash_state, replay, state_root_of, Snapshot, StateMachine};
use vstd::prelude::*;

verus! {

/// The state that a block leads to: the state of its parent with the
/// transitions of the block applied from left to right.
pub open spec fn state_after<C: Consensus, SM: StateMachine>(
    storage: StorageModel<C, SM>,
    block: BlockModel<C, SM>,
) -> <SM::State as View>::V {
    replay::<SM>(
        storage.states[storage.blocks[block.header.parent].header.state_root],
        block.body,
    )
}

/// Whether a block can be imported: its parent is known, it stands one
/// higher than its parent, the consensus engine accepts its seal, the state
/// of its parent is known and leads through the body of the block to the
/// state root that the block bears, and the block bears the root of its body.
pub open spec fn importable<C: Consensus, SM: StateMachine>(
    engine: C,
    storage: StorageModel<C, SM>,
    block: BlockModel<C, SM>,
) -> bool {
    &&& storage.blocks.contains_key(block.header.parent)
    &&& block.header.height == storage.blocks[block.header.parent].header.height + 1
    &&& engine.valid(storage.blocks[block.header.parent].header.consensus_digest, block.header)
    &&& storage.states.contains_key(storage.blocks[block.header.parent].header.state_root)
    &&& state_root_of::<SM>(state_after(storage, block)) == block.header.state_root
    &&& sequence_root(block.body) == block.header.extrinsics_root
}

/// An imported block names the hash of the header of its parent, and stands
/// one higher than its parent.
pub proof fn lemma_parent_linkage<C: Consensus, SM: StateMachine>(
    engine: C,
    storage: StorageModel<C, SM>,
    block: BlockModel<C, SM>,
)
    requires
        storage.coherent(),
        importable(engine, storage, block),
    ensures
        block.header.parent == storage.blocks[block.header.parent].header.hash_spec(),
        block.header.height == storage.blocks[block.header.parent].header.height + 1,
{
}

/// A block that was accepted is found again under its hash, as it was.
pub proof fn lemma_round_trip<C: Consensus, SM: StateMachine>(
    storage: StorageModel<C, SM>,
    block: BlockModel<C, SM>,
    state: <SM::State as View>::V,
)
    ensures
        storage.committed(block, state).blocks.contains_key(block.hash()),
        storage.committed(block, state).blocks[block.hash()] == block,
        storage.committed(block, state).states.contains_key(state_root_of::<SM>(state)),
        storage.committed(block, state).states[state_root_of::<SM>(state)] == state,
{
}

/// A storage in which every block stands under its hash and every state
/// under its root stays so when a block is accepted, and nothing leaves it.
pub proof fn lemma_commit_keeps_coherence<C: Consensus, SM: StateMachine>(
    storage: StorageModel<C, SM>,
    block: BlockModel<C, SM>,
    state: <SM::State as View>::V,
)
    requires
        storage.coherent(),
    ensures
        storage.committed(block, state).coherent(),
        forall|h: u64|
            storage.blocks.contains_key(h) ==> #[trigger] storage.committed(
                block,
                state,
            ).blocks.contains_key(h),
        forall|root: u64|
            storage.states.contains_key(root) ==> #[trigger] storage.committed(
                block,
                state,
            ).states.contains_key(root),
{
}

/// A storage that was seeded with a genesis state holds every block under
/// its hash and every state under its root.
pub proof fn lemma_seeded_is_coherent<C: Consensus, SM: StateMachine>(
    genesis_state: <SM::State as View>::V,
)
    ensures
        crate::client::seeded::<C, SM>(genesis_state).coherent(),
{
}

/// Importing a block a second time, right after the first, succeeds again
/// and leaves the storage as the first import left it. This needs the block
/// and the state it leads to not to stand in the places of the parent and of
/// its state: they would only by a collision of hashes.
pub proof fn lemma_import_is_idempotent<C: Consensus, SM: StateMachine>(
    engine: C,
    storage: StorageModel<C, SM>,
    block: BlockModel<C, SM>,
)
    requires
        importable(engine, storage, block),
        block.hash() != block.header.parent,
        state_root_of::<SM>(state_after(storage, block))
            != storage.blocks[block.header.parent].header.state_root,
    ensures
        ({
            let once = storage.committed(block, state_after(storage, block));
            &&& importable(engine, once, block)
            &&& state_after(once, block) == state_after(storage, block)
            &&& once.committed(block, state_after(once, block)) == once
        }),
{
    let state = state_after(storage, block);
    let once = storage.committed(block, state);
    assert(once.blocks[block.header.parent] == storage.blocks[block.header.parent]);
    let twice = once.committed(block, state);
    assert(twice.blocks =~= once.blocks);
    assert(twice.states =~= once.states);
}

/// The ability to import complete blocks of the chain, and to read what was imported.
pub trait ImportBlock<C: Consensus, SM: StateMachine>: Sized {
    /// The blocks and states that were imported.
    spec fn imported(&self) -> StorageModel<C, SM>;

    /// Whether a block would be imported.
    spec fn accepts(&self, block: BlockModel<C, SM>) -> bool;

    /// Attempts to import a block. Returns whether the import succeeded.
    /// Nothing that was imported changes where it failed.
    fn import_block(&mut self, block: Block<C, SM>) -> (imported: bool)
        ensures
            imported == old(self).accepts(block@),
            final(self).imported() == (if imported {
                old(self).imported().committed(block@, state_after(old(self).imported(), block@))
            } else {
                old(self).imported()
            }),
    ;

    fn get_last_block(&self) -> (block: Block<C, SM>)
        ensures
            block@ == self.imported().last_block,
    ;

    fn current_state(&self) -> (state: SM::State)
        ensures
            state@ == self.imported().current_state,
    ;

    /// An imported block by its hash: `None` where the block is not known.
    fn get_block(&self, block_hash: u64) -> (found: Option<Block<C, SM>>)
        ensures
            match found {
                Some(block) => self.imported().blocks.contains_key(block_hash) && block@
                    == self.imported().blocks[block_hash],
                None => !self.imported().blocks.contains_key(block_hash),
            },
    ;
}

impl<C, SM, FC, P, S> ImportBlock<C, SM> for FullClient<C, SM, FC, P, S> where
    C: Consensus,
    SM: StateMachine,
    FC: ForkChoice<C, SM>,
    S: Storage<C, SM>,
 {
    open spec fn imported(&self) -> StorageModel<C, SM> {
        self.storage@
    }

    open spec fn accepts(&self, block: BlockModel<C, SM>) -> bool {
        importable(self.consensus_engine, self.storage@, block)
    }

    fn import_block(&mut self, block: Block<C, SM>) -> (imported: bool)
        ensures
            final(self).fork_choice@ == (if imported {
                FC::after_import(old(self).fork_choice@, block@.header)
            } else {
                old(self).fork_choice@
            }),
            final(self).consensus_engine == old(self).consensus_engine,
            final(self).state_machine == old(self).state_machine,
            final(self).transaction_pool == old(self).transaction_pool,
    {
        let parent = match self.storage.get_block(block.header.parent) {
            Some(parent) => parent,
            None => {
                return false;
            },
        };
        if parent.header.height == u64::MAX || block.header.height != parent.header.height + 1 {
            return false;
        }
        if !self.consensus_engine.validate(&parent.header.consensus_digest, &block.header) {
            return false;
        }
        let parent_state = match self.storage.get_state(parent.header.state_root) {
            Some(state) => state,
            None => {
                return false;
            },
        };
        let post_state = apply_all::<SM>(&parent_state, &block.body);
        if hash_state::<SM>(&post_state) != block.header.state_root {
            return false;
        }
        if hash_sequence(&block.body) != block.header.extrinsics_root {
            return false;
        }
        self.storage.set_state(post_state.duplicate());
        self.storage.add_block(block.duplicate());
        self.storage.set_last_block(block.duplicate());
        self.storage.set_current_state(post_state);
        self.fork_choice.import_hook(block);
        true
    }

    fn get_last_block(&self) -> (block: Block<C, SM>) {
        self.storage.get_last_block()
    }

    fn current_state(&self) -> (state: SM::State) {
        self.storage.current_state()
    }

    fn get_block(&self, block_hash: u64) -> (found: Option<Block<C, SM>>) {
        self.storage.get_block(block_hash)
    }
}

} // verus!
