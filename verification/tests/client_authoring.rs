use chain_client::client::fork_choice::{ForkChoice, GhostRule, LongestChain};
use chain_client::client::importing_blocks::ImportBlock;
use chain_client::client::transaction_pool::{PriorityPool, TransactionPool};
use chain_client::client::{BasicStorage, Block, FullClient, Storage};
use chain_client::consensus::even_only::EvenOnly;
use chain_client::consensus::pow::Pow;
use chain_client::consensus::Consensus;
use chain_client::state_machine::accounted_currency::{
    AccountedCurrency, AccountingTransaction, BalancesB,
};
use chain_client::state_machine::User;

fn prioritizer(t: AccountingTransaction) -> u64 {
    match t {
        AccountingTransaction::Mint { .. } => return 5,
        AccountingTransaction::Burn { .. } => return 4,
        AccountingTransaction::Transfer { .. } => return 6,
    }
}

fn prioritizer_same_prio(t: AccountingTransaction) -> u64 {
    match t {
        AccountingTransaction::Mint { .. } => return 5,
        AccountingTransaction::Burn { .. } => return 5,
        AccountingTransaction::Transfer { .. } => return 5,
    }
}

type AccountingTransactionPrioritizer = fn(t: AccountingTransaction) -> u64;

fn init_client_for_test(
    prioritizer: fn(AccountingTransaction) -> u64,
) -> FullClient<
    Pow,
    AccountedCurrency,
    GhostRule,
    PriorityPool<AccountedCurrency, AccountingTransactionPrioritizer>,
    BasicStorage<Pow, AccountedCurrency>,
> {
    let consensus_engine = Pow {
        threshold: u64::MAX / 10,
    };
    let state_machine = AccountedCurrency {};
    let fork_choice = GhostRule::default();
    let transaction_pool: PriorityPool<AccountedCurrency, AccountingTransactionPrioritizer> =
        PriorityPool::new(prioritizer, 4);
    let storage: BasicStorage<Pow, AccountedCurrency> =
        BasicStorage::<Pow, AccountedCurrency>::new(BalancesB::default());

    FullClient {
        consensus_engine,
        state_machine,
        fork_choice,
        transaction_pool,
        storage,
    }
}

fn four_transactions() -> Vec<AccountingTransaction> {
    vec![
        AccountingTransaction::Mint {
            minter: User::Alice,
            amount: 10,
        },
        AccountingTransaction::Mint {
            minter: User::Bob,
            amount: 20,
        },
        AccountingTransaction::Burn {
            burner: User::Bob,
            amount: 2,
        },
        AccountingTransaction::Transfer {
            sender: User::Bob,
            receiver: User::Alice,
            amount: 2,
        },
    ]
}

#[test]
fn adds_the_block_and_adds_new_state() {
    // given
    let mut client = init_client_for_test(prioritizer);

    let transactions = four_transactions();

    let genesis_state = BalancesB::from_entries(&vec![(User::Charlie, 1)]);
    let previous_block = Block::<Pow, AccountedCurrency>::genesis(&genesis_state);

    client.storage.add_block(previous_block.clone());
    client.storage.set_state(genesis_state);

    // when
    assert!(client
        .author_and_import_manual_block(transactions.clone(), previous_block.hash())
        .is_ok());

    // then
    assert_eq!(client.storage.block_count(), 2 + 1);
    assert_eq!(client.storage.state_count(), 2 + 1);

    // the fork choice was told of the new block only
    let block = client.storage.get_block(client.best_block()).unwrap();
    assert_ne!(block.hash(), previous_block.hash());
    assert_eq!(block.body, transactions);
    assert_eq!(block.header.parent, previous_block.hash());
    assert_eq!(block.header.height, 1);

    let state_hash = block.header.state_root;

    let state = client.storage.get_state(state_hash);
    assert!(state.is_some());
    let state = state.unwrap();

    let user_alice = User::Alice;
    assert!(state
        .get(user_alice)
        .is_some_and(|alices_balance| alices_balance == 12));

    let user_bob = User::Bob;
    assert!(state
        .get(user_bob)
        .is_some_and(|bobs_balance| bobs_balance == 16));
}

#[test]
fn fails_if_state_not_in_storage() {
    // given
    let mut client = init_client_for_test(prioritizer);

    let transactions = four_transactions();

    let genesis_state = BalancesB::from_entries(&vec![(User::Charlie, 1)]);
    let previous_block = Block::<Pow, AccountedCurrency>::genesis(&genesis_state);

    client.storage.add_block(previous_block.clone());

    // when + then
    assert!(client
        .author_and_import_manual_block(transactions.clone(), previous_block.hash())
        .is_err());
}

#[test]
fn fails_if_block_not_in_storage() {
    // given
    let mut client = init_client_for_test(prioritizer);

    let transactions = four_transactions();

    let genesis_state = BalancesB::from_entries(&vec![(User::Charlie, 1)]);
    let previous_block = Block::<Pow, AccountedCurrency>::genesis(&genesis_state);

    client.storage.set_state(genesis_state);

    // when + then
    assert!(client
        .author_and_import_manual_block(transactions.clone(), previous_block.hash())
        .is_err());
}

#[test]
fn uses_internal_transactions_and_best_block_then_sets_current_state_and_block() {
    // --- GIVEN
    let mut client = init_client_for_test(prioritizer_same_prio);

    // adding transactions to the pool
    let transactions = four_transactions();
    for tx in &transactions {
        assert!(client.transaction_pool.try_insert(tx.clone()));
    }
    assert_eq!(client.transaction_pool.size(), transactions.len());

    // adding block and state to storage
    let genesis_state = BalancesB::from_entries(&vec![(User::Charlie, 1)]);
    let previous_block = Block::<Pow, AccountedCurrency>::genesis(&genesis_state);

    client.storage.add_block(previous_block.clone());
    client.storage.set_state(genesis_state.clone());
    client.storage.set_current_state(genesis_state.clone());
    client.storage.set_last_block(previous_block.clone());

    // adding block to fork choice
    client.fork_choice.import_hook(previous_block.clone());

    // --- WHEN
    let res = client.author_and_import_automatic_block();

    // --- THEN
    assert!(res.is_ok());

    // storage was updated
    // storage is initialized with one genesis block, then one more was added in the "given" step, then one was added during block authoring
    assert_eq!(client.storage.block_count(), 3);
    assert_eq!(client.storage.state_count(), 3);

    let last_block = client.storage.get_last_block();
    assert_eq!(last_block.body, transactions);
    assert_eq!(last_block.header.parent, previous_block.hash());
    assert_eq!(last_block.header.height, 1);

    let state = client.current_state();
    let user_alice = User::Alice;
    assert!(state
        .get(user_alice)
        .is_some_and(|alices_balance| alices_balance == 12));

    let user_bob = User::Bob;
    assert!(state
        .get(user_bob)
        .is_some_and(|bobs_balance| bobs_balance == 16));

    // fork choice best block is the new one
    assert!(
        <GhostRule as ForkChoice<Pow, AccountedCurrency>>::best_block(&client.fork_choice)
            .is_some_and(|b| b == last_block.hash())
    );

    // transactions were removed from the pool
    assert_eq!(client.transaction_pool.size(), 0);
}

#[test]
fn no_best_block_from_fork_choice() {
    // --- GIVEN
    let mut client = init_client_for_test(prioritizer_same_prio);

    // adding transactions to the pool
    let transactions = four_transactions();
    for tx in &transactions {
        assert!(client.transaction_pool.try_insert(tx.clone()));
    }
    assert_eq!(client.transaction_pool.size(), transactions.len());

    // adding block and state to storage
    let genesis_state = BalancesB::from_entries(&vec![(User::Charlie, 1)]);
    let previous_block = Block::<Pow, AccountedCurrency>::genesis(&genesis_state);

    client.storage.add_block(previous_block.clone());
    client.storage.set_state(genesis_state.clone());
    client.storage.set_current_state(genesis_state.clone());
    client.storage.set_last_block(previous_block.clone());

    // no block in fork choice

    // --- WHEN
    let res = client.author_and_import_automatic_block();

    // --- THEN
    assert!(res.is_err());

    // storage not updated
    assert_eq!(client.storage.block_count(), 2);
    assert_eq!(client.storage.state_count(), 2);

    let state = client.current_state();
    assert_eq!(state.entries(), genesis_state.entries())
}

#[test]
fn no_parent_block_in_storage() {
    // --- GIVEN
    let mut client = init_client_for_test(prioritizer_same_prio);

    // adding transactions to the pool
    let transactions = four_transactions();
    for tx in &transactions {
        assert!(client.transaction_pool.try_insert(tx.clone()));
    }
    assert_eq!(client.transaction_pool.size(), transactions.len());

    // adding block and state to storage
    let genesis_state = BalancesB::from_entries(&vec![(User::Charlie, 1)]);
    let previous_block = Block::<Pow, AccountedCurrency>::genesis(&genesis_state);

    client.storage.set_state(genesis_state.clone());
    client.storage.set_current_state(genesis_state.clone());

    // adding block to fork choice
    client.fork_choice.import_hook(previous_block.clone());

    // --- WHEN
    let res = client.author_and_import_automatic_block();

    // --- THEN
    assert!(res.is_err());

    // storage not updated
    assert_eq!(client.storage.block_count(), 1);
    assert_eq!(client.storage.state_count(), 2);

    let state = client.current_state();
    assert_eq!(state.entries(), genesis_state.entries())
}

#[test]
fn no_state_for_parent_block_in_storage() {
    // --- GIVEN
    let mut client = init_client_for_test(prioritizer_same_prio);

    // adding transactions to the pool
    let transactions = four_transactions();
    for tx in &transactions {
        assert!(client.transaction_pool.try_insert(tx.clone()));
    }
    assert_eq!(client.transaction_pool.size(), transactions.len());

    // adding block and state to storage
    let genesis_state = BalancesB::from_entries(&vec![(User::Charlie, 1)]);
    let previous_block = Block::<Pow, AccountedCurrency>::genesis(&genesis_state);

    client.storage.add_block(previous_block.clone());
    client.storage.set_last_block(previous_block.clone());

    // adding block to fork choice
    client.fork_choice.import_hook(previous_block.clone());

    // --- WHEN
    let res = client.author_and_import_automatic_block();

    // --- THEN
    assert!(res.is_err());

    // storage not updated
    assert_eq!(client.storage.block_count(), 2);
    assert_eq!(client.storage.state_count(), 1);
}

#[test]
fn no_transactions_in_tx_pool() {
    // --- GIVEN
    let mut client = init_client_for_test(prioritizer_same_prio);

    // no transactions in the pool
    assert_eq!(client.transaction_pool.size(), 0);

    // adding block and state to storage
    let genesis_state = BalancesB::from_entries(&vec![(User::Charlie, 1)]);
    let previous_block = Block::<Pow, AccountedCurrency>::genesis(&genesis_state);

    client.storage.add_block(previous_block.clone());
    client.storage.set_state(genesis_state.clone());
    client.storage.set_current_state(genesis_state.clone());
    client.storage.set_last_block(previous_block.clone());

    // adding block to fork choice
    client.fork_choice.import_hook(previous_block.clone());

    // --- WHEN
    let res = client.author_and_import_automatic_block();

    // --- THEN
    assert!(res.is_ok());

    // storage not updated
    assert_eq!(client.storage.block_count(), 2);
    assert_eq!(client.storage.state_count(), 2);

    let state = client.current_state();
    assert_eq!(state.entries(), genesis_state.entries())
}

#[test]
fn automatic_authoring_takes_at_most_the_cap() {
    let mut client = init_client_for_test(prioritizer_same_prio);
    let genesis = client.get_last_block();
    client.fork_choice.import_hook(genesis.clone());
    for amount in 1..=12 {
        client.submit_transaction(AccountingTransaction::Mint {
            minter: User::Alice,
            amount,
        });
    }
    assert_eq!(client.pool_size(), 12);
    assert!(client.author_and_import_automatic_block().is_ok());
    // ten of the twelve were taken: 1 + 2 + ... + 10
    assert_eq!(client.pool_size(), 2);
    assert_eq!(client.get_last_block().body.len(), 10);
    assert_eq!(client.current_state().entries(), vec![(User::Alice, 55)]);
    assert!(client.pool_contains(AccountingTransaction::Mint {
        minter: User::Alice,
        amount: 11,
    }));

    assert!(client
        .author_and_import_automatic_block_with_cap(1)
        .is_ok());
    assert_eq!(client.pool_size(), 1);
    assert_eq!(client.get_last_block().header.height, 2);
    assert_eq!(client.current_state().entries(), vec![(User::Alice, 66)]);
    assert_eq!(client.best_block(), client.get_last_block().hash());
}

#[test]
fn authored_block_can_be_imported_by_another_client() {
    let mut author = init_client_for_test(prioritizer);
    let mut follower = init_client_for_test(prioritizer);
    let genesis = author.get_last_block();
    assert!(author
        .author_and_import_manual_block(four_transactions(), genesis.hash())
        .is_ok());
    let block = author.storage.get_block(author.best_block()).unwrap();
    assert!(author
        .consensus_engine
        .validate(&genesis.header.consensus_digest, &block.header));
    assert!(follower.import_block(block.clone()));
    assert_eq!(follower.best_block(), block.hash());
    assert_eq!(
        follower.current_state().entries(),
        vec![(User::Alice, 12), (User::Bob, 16)]
    );
    assert!(genesis.verify_sub_chain(&BalancesB::default(), &[block.clone()]));
    assert!(!genesis.verify_sub_chain(
        &BalancesB::from_entries(&vec![(User::Alice, 1)]),
        &[block]
    ));
}

#[test]
fn refusal_to_seal_fails_and_loses_the_drained_transactions() {
    let mut client = FullClient {
        consensus_engine: EvenOnly {
            inner: Pow {
                threshold: u64::MAX / 10,
            },
        },
        state_machine: AccountedCurrency {},
        fork_choice: LongestChain::default(),
        transaction_pool: PriorityPool::<AccountedCurrency, AccountingTransactionPrioritizer>::new(
            prioritizer,
            4,
        ),
        storage: BasicStorage::<EvenOnly<Pow>, AccountedCurrency>::new(BalancesB::default()),
    };
    let genesis = client.storage.get_last_block();
    // look for a mint whose state root is odd: the engine refuses to seal it
    let mut amount = 1;
    let refused = loop {
        let t = AccountingTransaction::Mint {
            minter: User::Alice,
            amount,
        };
        let child = genesis.child(&BalancesB::default(), vec![t]);
        if child.header.state_root % 2 == 1 {
            break t;
        }
        amount += 1;
    };
    assert!(client
        .author_and_import_manual_block(vec![refused], genesis.hash())
        .is_err());
    assert_eq!(client.storage.block_count(), 1);
    assert_eq!(client.storage.state_count(), 1);
}

#[test]
fn authoring_fails_where_no_seal_can_be_found() {
    let mut client = init_client_for_test(prioritizer);
    client.consensus_engine = Pow { threshold: 0 };
    let genesis = client.get_last_block();
    client.fork_choice.import_hook(genesis.clone());
    assert!(client
        .author_and_import_manual_block(four_transactions(), genesis.hash())
        .is_err());
    assert_eq!(client.storage.block_count(), 1);
    assert_eq!(client.storage.state_count(), 1);

    for tx in four_transactions() {
        client.submit_transaction(tx);
    }
    assert_eq!(client.pool_size(), 4);
    assert!(client.author_and_import_automatic_block().is_err());
    // the transactions taken out of the pool are lost
    assert_eq!(client.pool_size(), 0);
    assert_eq!(client.storage.block_count(), 1);
    assert_eq!(client.best_block(), genesis.hash());
    assert_eq!(client.get_last_block().header, genesis.header);
}
