use chain_client::client::data_structure::create_empty_chain;
use chain_client::client::fork_choice::LongestChain;
use chain_client::client::transaction_pool::SimplePool;
use chain_client::client::{BasicStorage, Block, FullClient, Storage};
use chain_client::consensus::poa::SimplePoa;
use chain_client::consensus::pow::Pow;
use chain_client::consensus::{ConsensusAuthority, Header};
use chain_client::hashing::{hash_empty_sequence, hash_sequence};
use chain_client::state_machine::accounted_currency::{
    AccountedCurrency, AccountingTransaction, BalancesB,
};
use chain_client::state_machine::{apply_all, hash_state, User};

fn some_state() -> BalancesB {
    BalancesB::from_entries(&vec![(User::Alice, 10), (User::Bob, 4)])
}

#[test]
fn genesis_block_bears_the_root_of_its_state() {
    let state = some_state();
    let genesis = Block::<Pow, AccountedCurrency>::genesis(&state);
    assert_eq!(genesis.header.parent, 0);
    assert_eq!(genesis.header.height, 0);
    assert_eq!(genesis.header.consensus_digest, 0);
    assert_eq!(
        genesis.header.state_root,
        hash_state::<AccountedCurrency>(&state)
    );
    assert_eq!(genesis.header.extrinsics_root, hash_empty_sequence());
    assert!(genesis.body.is_empty());
    assert_eq!(
        genesis.header,
        Header::genesis(hash_state::<AccountedCurrency>(&state))
    );

    let signed = Block::<SimplePoa, AccountedCurrency>::genesis(&state);
    assert_eq!(signed.header.consensus_digest, ConsensusAuthority::Alice);
}

#[test]
fn child_block_bears_the_roots_of_its_body_and_state() {
    let state = some_state();
    let genesis = Block::<Pow, AccountedCurrency>::genesis(&state);
    let body = vec![
        AccountingTransaction::Transfer {
            sender: User::Alice,
            receiver: User::Charlie,
            amount: 3,
        },
        AccountingTransaction::Burn {
            burner: User::Bob,
            amount: 4,
        },
    ];
    let child = genesis.child(&state, body.clone());
    let after = apply_all::<AccountedCurrency>(&state, &body);
    assert_eq!(after.entries(), vec![(User::Alice, 7), (User::Charlie, 3)]);
    assert_eq!(child.body, body);
    assert_eq!(child.header.parent, genesis.hash());
    assert_eq!(child.header.height, 1);
    assert_eq!(child.header.state_root, hash_state::<AccountedCurrency>(&after));
    assert_eq!(child.header.extrinsics_root, hash_sequence(&body));
    assert_eq!(child.header.consensus_digest, 0);

    let grandchild = child.child(&after, vec![]);
    assert!(genesis.verify_sub_chain(&state, &[child.clone(), grandchild.clone()]));
    assert!(genesis.verify_sub_chain(&state, &[]));
    assert!(!genesis.verify_sub_chain(&state, &[grandchild.clone(), child.clone()]));
    assert!(!genesis.verify_sub_chain(&state, &[grandchild.clone()]));

    let mut wrong_body = child.clone();
    wrong_body.body.pop();
    assert!(!genesis.verify_sub_chain(&state, &[wrong_body]));
    let mut wrong_state = child.clone();
    wrong_state.header.state_root += 1;
    assert!(!genesis.verify_sub_chain(&state, &[wrong_state]));
    let mut wrong_height = child.clone();
    wrong_height.header.height = 2;
    assert!(!genesis.verify_sub_chain(&state, &[wrong_height]));
    let mut wrong_parent = child.clone();
    wrong_parent.header.parent += 1;
    assert!(!genesis.verify_sub_chain(&state, &[wrong_parent]));
}

#[test]
fn header_at_the_greatest_height_has_no_child() {
    let top = Header::<u64> {
        parent: 0,
        height: u64::MAX,
        state_root: 0,
        extrinsics_root: 0,
        consensus_digest: 0,
    };
    let claimed = Header {
        parent: top.hash(),
        height: 0,
        ..top
    };
    assert!(!top.verify_child(&claimed));
}

#[test]
fn empty_chain_is_a_genesis_block_and_its_children() {
    let state = some_state();
    let chain = create_empty_chain::<Pow, AccountedCurrency>(4, &state);
    assert_eq!(chain.len(), 4);
    let genesis = Block::<Pow, AccountedCurrency>::genesis(&state);
    assert_eq!(chain[0].header, genesis.header);
    for block in &chain[1..] {
        assert!(block.body.is_empty());
        assert_eq!(block.header.parent, genesis.hash());
        assert_eq!(block.header.height, 1);
        assert!(genesis.verify_sub_chain(&state, &[block.clone()]));
    }
    assert_eq!(create_empty_chain::<Pow, AccountedCurrency>(0, &state).len(), 1);
    assert_eq!(create_empty_chain::<Pow, AccountedCurrency>(1, &state).len(), 1);
}

#[test]
fn storage_keeps_blocks_by_hash_and_states_by_root() {
    let mut storage = BasicStorage::<Pow, AccountedCurrency>::new(BalancesB::default());
    let genesis = Block::<Pow, AccountedCurrency>::genesis(&BalancesB::default());
    assert_eq!(storage.block_count(), 1);
    assert_eq!(storage.state_count(), 1);
    assert_eq!(storage.get_last_block().header, genesis.header);
    assert!(storage.current_state().entries().is_empty());
    assert_eq!(
        storage.get_block(genesis.hash()).unwrap().header,
        genesis.header
    );
    assert!(storage
        .get_state(hash_state::<AccountedCurrency>(&BalancesB::default()))
        .is_some());

    let state = some_state();
    let block = genesis.child(&state, vec![]);
    storage.set_state(state.clone());
    storage.add_block(block.clone());
    // a second insert writes the same over the first
    storage.set_state(state.clone());
    storage.add_block(block.clone());
    assert_eq!(storage.block_count(), 2);
    assert_eq!(storage.state_count(), 2);
    assert_eq!(
        storage
            .get_state(hash_state::<AccountedCurrency>(&state))
            .unwrap()
            .entries(),
        state.entries()
    );
    assert!(storage.get_state(1).is_none());
    assert!(storage.get_block(1).is_none());
    // the cursors move only when they are set
    assert_eq!(storage.get_last_block().header, genesis.header);
    storage.set_last_block(block.clone());
    storage.set_current_state(state.clone());
    assert_eq!(storage.get_last_block().header, block.header);
    assert_eq!(storage.current_state().entries(), state.entries());
}

#[test]
fn new_client_starts_from_the_genesis_state() {
    let state = some_state();
    let client = FullClient::new(
        state.clone(),
        AccountedCurrency,
        Pow {
            threshold: u64::MAX / 10,
        },
        LongestChain::default(),
        SimplePool::<AccountedCurrency>::new(),
        BasicStorage::<Pow, AccountedCurrency>::new(BalancesB::default()),
    );
    let genesis = Block::<Pow, AccountedCurrency>::genesis(&state);
    // the genesis block of the default state, and that of the given state
    assert_eq!(client.storage.block_count(), 2);
    assert_eq!(client.storage.state_count(), 2);
    assert_eq!(client.storage.get_last_block().header, genesis.header);
    assert_eq!(client.storage.current_state().entries(), state.entries());
    assert_eq!(client.best_block(), 0);
    assert_eq!(client.pool_size(), 0);
}
