//! Authoring blocks: the client makes blocks of its own and imports them.

use crate::client::fork_choice::ForkChoice;
use crate::client::transaction_pool::{without, TransactionPool};
use crate::client::{Block, BlockModel, FullClient, Storage, StorageModel};
use crate::consensus::{Consensus, Digest, Header, SealRule};
use crate::hashing::{duplicate_all, hash_sequence, sequence_root, Canonical};
use crate::state_machine::{apply_all, hash_state, replay, state_root_of, Snapshot, StateMachine};
use vstd::prelude::*;

verus! {

/// The greatest number of transitions that `author_and_import_automatic_block`
/// takes out of the pool for one block.
pub const DEFAULT_BATCH_CAP: usize = 10;

/// Whether a block can be authored on a parent: the parent is known, the
/// state that it leads to is known, and there is a height above it.
pub open spec fn authorable<C: Consensus, SM: StateMachine>(
    storage: StorageModel<C, SM>,
    parent_hash: u64,
) -> bool {
    &&& storage.blocks.contains_key(parent_hash)
    &&& storage.states.contains_key(storage.blocks[parent_hash].header.state_root)
    &&& storage.blocks[parent_hash].header.height < u64::MAX
}

/// The state that the transitions lead to from the state of the parent.
pub open spec fn authored_state<C: Consensus, SM: StateMachine>(
    storage: StorageModel<C, SM>,
    parent_hash: u64,
    transactions: Seq<SM::Transition>,
) -> <SM::State as View>::V {
    replay::<SM>(storage.states[storage.blocks[parent_hash].header.state_root], transactions)
}

/// The header of the block before it is sealed.
pub open spec fn drafted_header<C: Consensus, SM: StateMachine>(
    storage: StorageModel<C, SM>,
    parent_hash: u64,
    transactions: Seq<SM::Transition>,
) -> Header<C::Digest> {
    Header {
        parent: parent_hash,
        height: (storage.blocks[parent_hash].header.height + 1) as u64,
        state_root: state_root_of::<SM>(authored_state(storage, parent_hash, transactions)),
        extrinsics_root: sequence_root(transactions),
        consensus_digest: <C::Digest as Digest>::unsealed(),
    }
}

/// The block that is authored where the engine seals the draft with `digest`.
pub open spec fn authored_block<C: Consensus, SM: StateMachine>(
    storage: StorageModel<C, SM>,
    parent_hash: u64,
    transactions: Seq<SM::Transition>,
    digest: C::Digest,
) -> BlockModel<C, SM> {
    BlockModel {
        header: drafted_header(storage, parent_hash, transactions).sealed_with(digest),
        body: transactions,
    }
}

/// Whether a storage and a fork choice are what they are after the block
/// that the engine sealed with `digest` was authored on a parent and taken
/// in: the seal is one that the engine accepts, the storage holds the block
/// and the state it leads to, with its cursors set to them where `advance`
/// says so, and the fork choice was told of the block.
pub open spec fn authored_with<C: Consensus, SM: StateMachine, FC: ForkChoice<C, SM>>(
    engine: C,
    storage_before: StorageModel<C, SM>,
    storage_after: StorageModel<C, SM>,
    fork_choice_before: FC::V,
    fork_choice_after: FC::V,
    parent_hash: u64,
    transactions: Seq<SM::Transition>,
    digest: C::Digest,
    advance: bool,
) -> bool {
    let block = authored_block(storage_before, parent_hash, transactions, digest);
    let state = authored_state(storage_before, parent_hash, transactions);
    &&& engine.valid(storage_before.blocks[parent_hash].header.consensus_digest, block.header)
    &&& storage_after == (if advance {
        storage_before.committed(block, state)
    } else {
        storage_before.holding(block, state)
    })
    &&& fork_choice_after == FC::after_import(fork_choice_before, block.header)
}

/// A block that was authored on a parent, under a seal that the engine
/// accepts, is a block that the import accepts: it leads to the same state.
pub proof fn lemma_authored_block_is_importable<C: Consensus, SM: StateMachine>(
    engine: C,
    storage: StorageModel<C, SM>,
    parent_hash: u64,
    transactions: Seq<SM::Transition>,
    digest: C::Digest,
)
    requires
        authorable(storage, parent_hash),
        engine.valid(
            storage.blocks[parent_hash].header.consensus_digest,
            authored_block(storage, parent_hash, transactions, digest).header,
        ),
    ensures
        crate::client::importing_blocks::importable(
            engine,
            storage,
            authored_block(storage, parent_hash, transactions, digest),
        ),
        crate::client::importing_blocks::state_after(
            storage,
            authored_block(storage, parent_hash, transactions, digest),
        ) == authored_state(storage, parent_hash, transactions),
{
}

/// What the engine does with the draft of a block.
pub open spec fn sealing_of<C: Consensus, SM: StateMachine>(
    engine: C,
    storage: StorageModel<C, SM>,
    parent_hash: u64,
    transactions: Seq<SM::Transition>,
) -> SealRule<C::Digest> {
    engine.seal_rule(
        storage.blocks[parent_hash].header.consensus_digest,
        drafted_header(storage, parent_hash, transactions),
    )
}

/// A queue without the transitions equal to any of the given ones.
pub open spec fn without_all<T>(queue: Seq<T>, removed: Seq<T>) -> Seq<T>
    decreases removed.len(),
{
    if removed.len() == 0 {
        queue
    } else {
        without(without_all(queue, removed.drop_last()), removed.last())
    }
}

/// The number of transitions that leave a queue for one block.
pub open spec fn batch_size(queued: nat, cap: usize) -> int {
    if queued < cap {
        queued as int
    } else {
        cap as int
    }
}

/// Takes transitions out of a pool, from the front, until it is empty or
/// `cap` of them were taken.
pub fn drain<SM: StateMachine, P: TransactionPool<SM>>(pool: &mut P, cap: usize) -> (drained: Vec<
    SM::Transition,
>)
    requires
        old(pool).wf(),
    ensures
        final(pool).wf(),
        final(pool).same_rules(old(pool)),
        drained@ == old(pool)@.take(batch_size(old(pool)@.len(), cap)),
        final(pool)@ == old(pool)@.skip(batch_size(old(pool)@.len(), cap)),
{
    let mut drained: Vec<SM::Transition> = Vec::new();
    let mut done = false;
    proof {
        P::lemma_same_rules(&*pool, &*pool, &*pool);
    }
    while !done && drained.len() < cap
        invariant
            pool.wf(),
            drained@.len() <= cap,
            drained@.len() <= old(pool)@.len(),
            drained@ == old(pool)@.take(drained@.len() as int),
            pool@ == old(pool)@.skip(drained@.len() as int),
            done ==> pool@.len() == 0,
            pool.same_rules(old(pool)),
        decreases cap - drained@.len() + (if done { 0int } else { 1int }),
    {
        let ghost before = *pool;
        let next = pool.next_from_pool();
        proof {
            P::lemma_same_rules(&*pool, &before, &*old(pool));
        }
        match next {
            Some(t) => {
                drained.push(t);
            },
            None => {
                done = true;
            },
        }
    }
    drained
}

impl<C, SM, FC, P, S> FullClient<C, SM, FC, P, S> where
    C: Consensus,
    SM: StateMachine,
    FC: ForkChoice<C, SM>,
    P: TransactionPool<SM>,
    S: Storage<C, SM>,
 {
    /// Drafts a block on a parent: the unsealed header, the state that the
    /// transitions lead to, and the digest of the parent. `None` where no
    /// block can be authored on that parent.
    pub fn draft_block(&self, transactions: &Vec<SM::Transition>, parent_hash: u64) -> (draft:
        Option<(Header<C::Digest>, SM::State, C::Digest)>)
        ensures
            match draft {
                Some((header, state, parent_digest)) => {
                    &&& authorable(self.storage@, parent_hash)
                    &&& header == drafted_header(self.storage@, parent_hash, transactions@)
                    &&& state@ == authored_state(self.storage@, parent_hash, transactions@)
                    &&& parent_digest
                        == self.storage@.blocks[parent_hash].header.consensus_digest
                },
                None => !authorable(self.storage@, parent_hash),
            },
    {
        let parent_block = match self.storage.get_block(parent_hash) {
            Some(block) => block,
            None => {
                return None;
            },
        };
        let parent_state = match self.storage.get_state(parent_block.header.state_root) {
            Some(state) => state,
            None => {
                return None;
            },
        };
        if parent_block.header.height == u64::MAX {
            return None;
        }
        let new_state = apply_all::<SM>(&parent_state, transactions);
        let header = Header {
            parent: parent_hash,
            height: parent_block.header.height + 1,
            state_root: hash_state::<SM>(&new_state),
            extrinsics_root: hash_sequence(transactions),
            consensus_digest: <C::Digest as Digest>::blank(),
        };
        let Block { header: parent_header, body: _ } = parent_block;
        Some((header, new_state, parent_header.consensus_digest))
    }

    /// Takes an authored block, and the state it leads to, into the storage
    /// and tells the fork choice of it. The cursors of the storage are set
    /// to the block and the state where `advance` says so.
    pub fn adopt_block(&mut self, block: Block<C, SM>, state: SM::State, advance: bool)
        ensures
            final(self).storage@ == (if advance {
                old(self).storage@.committed(block@, state@)
            } else {
                old(self).storage@.holding(block@, state@)
            }),
            final(self).fork_choice@ == FC::after_import(old(self).fork_choice@, block@.header),
            final(self).consensus_engine == old(self).consensus_engine,
            final(self).state_machine == old(self).state_machine,
            final(self).transaction_pool == old(self).transaction_pool,
    {
        self.storage.set_state(state.duplicate());
        self.storage.add_block(block.duplicate());
        if advance {
            self.storage.set_last_block(block.duplicate());
            self.storage.set_current_state(state);
        }
        self.fork_choice.import_hook(block);
    }

    /// Authors a block with the given transactions on the given parent, and
    /// imports it. Fails, and changes nothing, where the parent or its state
    /// is not known, where there is no height above the parent, or where the
    /// consensus engine gives no seal.
    pub fn author_and_import_manual_block(
        &mut self,
        transactions: Vec<SM::Transition>,
        parent_hash: u64,
    ) -> (outcome: Result<(), ()>)
        ensures
            !authorable(old(self).storage@, parent_hash) ==> outcome is Err,
            authorable(old(self).storage@, parent_hash) ==> match sealing_of(
                old(self).consensus_engine,
                old(self).storage@,
                parent_hash,
                transactions@,
            ) {
                SealRule::Refuses => outcome is Err,
                SealRule::Stamps(digest) => outcome is Ok && final(self).storage@ == old(self).storage@.holding(
                    authored_block(old(self).storage@, parent_hash, transactions@, digest),
                    authored_state(old(self).storage@, parent_hash, transactions@),
                ),
                SealRule::Searches => true,
            },
            outcome is Ok ==> authorable(old(self).storage@, parent_hash) && exists|
                digest: C::Digest,
            |
                authored_with::<C, SM, FC>(
                    old(self).consensus_engine,
                    old(self).storage@,
                    final(self).storage@,
                    old(self).fork_choice@,
                    final(self).fork_choice@,
                    parent_hash,
                    transactions@,
                    digest,
                    false,
                ),
            outcome is Err ==> final(self).storage@ == old(self).storage@ && final(self).fork_choice@ == old(self).fork_choice@,
            final(self).consensus_engine == old(self).consensus_engine,
            final(self).state_machine == old(self).state_machine,
            final(self).transaction_pool == old(self).transaction_pool,
    {
        let (header, new_state, parent_digest) = match self.draft_block(
            &transactions,
            parent_hash,
        ) {
            Some(draft) => draft,
            None => {
                return Err(());
            },
        };
        let sealed_header = match self.consensus_engine.seal(&parent_digest, header) {
            Some(sealed) => sealed,
            None => {
                return Err(());
            },
        };
        let block = Block::<C, SM> { header: sealed_header, body: transactions };
        self.adopt_block(block, new_state, false);
        proof {
            assert(authored_with::<C, SM, FC>(
                old(self).consensus_engine,
                old(self).storage@,
                self.storage@,
                old(self).fork_choice@,
                self.fork_choice@,
                parent_hash,
                transactions@,
                sealed_header.consensus_digest,
                false,
            ));
        }
        Ok(())
    }

    /// Authors a block on the best block, with the transitions at the front
    /// of the pool, and imports it: `author_and_import_automatic_block_with_cap`
    /// with the cap `DEFAULT_BATCH_CAP`.
    pub fn author_and_import_automatic_block(&mut self) -> (outcome: Result<(), ()>)
        requires
            old(self).transaction_pool.wf(),
        ensures
            automatic_outcome(*old(self), *final(self), DEFAULT_BATCH_CAP, outcome),
    {
        self.author_and_import_automatic_block_with_cap(DEFAULT_BATCH_CAP)
    }

    /// Authors a block on the best block of the fork choice, with up to `cap`
    /// transitions from the front of the pool, and imports it. Fails, and
    /// changes nothing, where there is no best block or nothing can be
    /// authored on it. Succeeds, and changes nothing, where the pool is
    /// empty. Fails where the consensus engine gives no seal: the
    /// transitions taken out of the pool are then lost. Where it succeeds,
    /// every transition equal to an included one has left the pool, and the
    /// cursors of the storage are set to the new block and its state.
    pub fn author_and_import_automatic_block_with_cap(&mut self, cap: usize) -> (outcome: Result<
        (),
        (),
    >)
        requires
            old(self).transaction_pool.wf(),
        ensures
            automatic_outcome(*old(self), *final(self), cap, outcome),
    {
        let parent_block_hash = match self.fork_choice.best_block() {
            Some(hash) => hash,
            None => {
                proof {
                    P::lemma_same_rules(
                        &self.transaction_pool,
                        &self.transaction_pool,
                        &self.transaction_pool,
                    );
                }
                return Err(());
            },
        };
        let no_transactions: Vec<SM::Transition> = Vec::new();
        if self.draft_block(&no_transactions, parent_block_hash).is_none() {
            proof {
                P::lemma_same_rules(
                    &self.transaction_pool,
                    &self.transaction_pool,
                    &self.transaction_pool,
                );
            }
            return Err(());
        }
        let used_transactions = drain::<SM, P>(&mut self.transaction_pool, cap);
        let ghost drained_pool = self.transaction_pool;
        if used_transactions.len() == 0 {
            proof {
                assert(self.transaction_pool@ =~= old(self).transaction_pool@);
            }
            return Ok(());
        }
        let (header, new_state, parent_digest) = match self.draft_block(
            &used_transactions,
            parent_block_hash,
        ) {
            Some(draft) => draft,
            None => {
                return Err(());
            },
        };
        let sealed_header = match self.consensus_engine.seal(&parent_digest, header) {
            Some(sealed) => sealed,
            None => {
                return Err(());
            },
        };
        let block = Block::<C, SM> {
            header: sealed_header,
            body: duplicate_all(&used_transactions),
        };
        remove_all::<SM, P>(&mut self.transaction_pool, &used_transactions);
        proof {
            P::lemma_same_rules(
                &self.transaction_pool,
                &drained_pool,
                &old(self).transaction_pool,
            );
        }
        self.adopt_block(block, new_state, true);
        proof {
            assert(authored_with::<C, SM, FC>(
                old(self).consensus_engine,
                old(self).storage@,
                self.storage@,
                old(self).fork_choice@,
                self.fork_choice@,
                parent_block_hash,
                used_transactions@,
                sealed_header.consensus_digest,
                true,
            ));
        }
        Ok(())
    }
}

/// Removes each of the given transitions from a pool.
pub fn remove_all<SM: StateMachine, P: TransactionPool<SM>>(
    pool: &mut P,
    removed: &Vec<SM::Transition>,
)
    requires
        old(pool).wf(),
    ensures
        final(pool).wf(),
        final(pool).same_rules(old(pool)),
        final(pool)@ == without_all(old(pool)@, removed@),
{
    let mut i: usize = 0;
    proof {
        P::lemma_same_rules(&*pool, &*pool, &*pool);
    }
    while i < removed.len()
        invariant
            i <= removed.len(),
            pool.wf(),
            pool.same_rules(old(pool)),
            pool@ == without_all(old(pool)@, removed@.take(i as int)),
        decreases removed.len() - i,
    {
        let ghost before = *pool;
        pool.remove(removed[i].duplicate());
        proof {
            P::lemma_same_rules(&*pool, &before, &*old(pool));
            let upto = removed@.take(i + 1);
            assert(upto.drop_last() =~= removed@.take(i as int));
        }
        i += 1;
    }
    proof {
        assert(removed@.take(i as int) =~= removed@);
    }
}

/// What `author_and_import_automatic_block_with_cap` does to a client.
pub open spec fn automatic_outcome<C, SM, FC, P, S>(
    before: FullClient<C, SM, FC, P, S>,
    after: FullClient<C, SM, FC, P, S>,
    cap: usize,
    outcome: Result<(), ()>,
) -> bool where
    C: Consensus,
    SM: StateMachine,
    FC: ForkChoice<C, SM>,
    P: TransactionPool<SM>,
    S: Storage<C, SM>,
 {
    let taken = batch_size(before.transaction_pool@.len(), cap);
    let transactions = before.transaction_pool@.take(taken);
    let left = before.transaction_pool@.skip(taken);
    &&& after.consensus_engine == before.consensus_engine
    &&& after.state_machine == before.state_machine
    &&& after.transaction_pool.wf()
    &&& after.transaction_pool.same_rules(&before.transaction_pool)
    &&& match FC::best(before.fork_choice@) {
        None => {
            &&& outcome is Err
            &&& after.storage@ == before.storage@
            &&& after.fork_choice@ == before.fork_choice@
            &&& after.transaction_pool@ == before.transaction_pool@
        },
        Some(parent_hash) => if !authorable(before.storage@, parent_hash) {
            &&& outcome is Err
            &&& after.storage@ == before.storage@
            &&& after.fork_choice@ == before.fork_choice@
            &&& after.transaction_pool@ == before.transaction_pool@
        } else if taken == 0 {
            &&& outcome is Ok
            &&& after.storage@ == before.storage@
            &&& after.fork_choice@ == before.fork_choice@
            &&& after.transaction_pool@ == before.transaction_pool@
        } else {
            &&& match sealing_of(
                before.consensus_engine,
                before.storage@,
                parent_hash,
                transactions,
            ) {
                SealRule::Refuses => outcome is Err,
                SealRule::Stamps(digest) => outcome is Ok && after.storage@
                    == before.storage@.committed(
                    authored_block(before.storage@, parent_hash, transactions, digest),
                    authored_state(before.storage@, parent_hash, transactions),
                ),
                SealRule::Searches => true,
            }
            &&& outcome is Err ==> {
                &&& after.storage@ == before.storage@
                &&& after.fork_choice@ == before.fork_choice@
                &&& after.transaction_pool@ == left
            }
            &&& outcome is Ok ==> after.transaction_pool@ == without_all(left, transactions)
                && exists|digest: C::Digest|
                authored_with::<C, SM, FC>(
                    before.consensus_engine,
                    before.storage@,
                    after.storage@,
                    before.fork_choice@,
                    after.fork_choice@,
                    parent_hash,
                    transactions,
                    digest,
                    true,
                )
        },
    }
}

} // verus!
