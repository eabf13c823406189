use chain_client::client::Block;
use chain_client::consensus::pow::{mine, mine_within, try_nonce, Pow};
use chain_client::consensus::{Consensus, ConsensusAuthority, Header};
use chain_client::hashing::{
    hash_empty_sequence, hash_sequence, hash_value, hash_words, same, same_words, Canonical,
};
use chain_client::state_machine::accounted_currency::{
    AccountedCurrency, AccountingTransaction, BalancesB,
};
use chain_client::state_machine::{hash_state, Snapshot, User};

#[test]
fn hash_is_a_function_of_the_words() {
    assert_eq!(hash_words(&vec![1, 2, 3]), hash_words(&vec![1, 2, 3]));
    assert_ne!(hash_words(&vec![1, 2, 3]), hash_words(&vec![1, 2, 4]));
    assert_ne!(hash_words(&vec![1, 2, 3]), hash_words(&vec![3, 2, 1]));
    assert_ne!(hash_words(&vec![]), hash_words(&vec![0]));
    assert_eq!(hash_value(&5u64), hash_words(&vec![5]));
    assert_eq!(hash_empty_sequence(), hash_words(&vec![0]));
    assert_eq!(hash_sequence::<u64>(&vec![]), hash_empty_sequence());
    assert_eq!(hash_sequence(&vec![7u64, 8]), hash_words(&vec![2, 7, 8]));
}

#[test]
fn header_hash_reads_every_field() {
    let header = Header::<u64> {
        parent: 1,
        height: 2,
        state_root: 3,
        extrinsics_root: 4,
        consensus_digest: 5,
    };
    assert_eq!(header.encode(), vec![1, 2, 3, 4, 5]);
    assert_eq!(header.hash(), hash_words(&vec![1, 2, 3, 4, 5]));
    assert_eq!(header.hash(), header.clone().hash());
    let changed = [
        Header { parent: 9, ..header },
        Header { height: 9, ..header },
        Header {
            state_root: 9,
            ..header
        },
        Header {
            extrinsics_root: 9,
            ..header
        },
        Header {
            consensus_digest: 9,
            ..header
        },
    ];
    for other in changed {
        assert_ne!(other.hash(), header.hash());
        assert!(!same(&other, &header));
    }
    assert!(same(&header, &header.duplicate()));
    let signed = header.with_digest(ConsensusAuthority::Bob);
    assert_eq!(signed.encode(), vec![1, 2, 3, 4, 1]);
}

#[test]
fn state_hash_does_not_depend_on_the_order_of_insertion() {
    let one = BalancesB::from_entries(&vec![(User::Bob, 5), (User::Alice, 7)]);
    let other = BalancesB::from_entries(&vec![(User::Alice, 7), (User::Bob, 1), (User::Bob, 5)]);
    assert_eq!(one.encode(), vec![1, 7, 1, 5, 0, 0]);
    assert_eq!(one.encode(), other.encode());
    assert_eq!(
        hash_state::<AccountedCurrency>(&one),
        hash_state::<AccountedCurrency>(&other)
    );
    assert_eq!(
        hash_state::<AccountedCurrency>(&one),
        hash_words(&vec![1, 7, 1, 5, 0, 0])
    );
    let third = BalancesB::from_entries(&vec![(User::Alice, 7), (User::Charlie, 5)]);
    assert_ne!(
        hash_state::<AccountedCurrency>(&one),
        hash_state::<AccountedCurrency>(&third)
    );
    assert_eq!(BalancesB::default().encode(), vec![0, 0, 0, 0, 0, 0]);
}

#[test]
fn transitions_are_told_apart_by_their_words() {
    let mint = AccountingTransaction::Mint {
        minter: User::Bob,
        amount: 3,
    };
    let burn = AccountingTransaction::Burn {
        burner: User::Bob,
        amount: 3,
    };
    let transfer = AccountingTransaction::Transfer {
        sender: User::Bob,
        receiver: User::Charlie,
        amount: 3,
    };
    assert_eq!(mint.encode(), vec![0, 1, 0, 3]);
    assert_eq!(burn.encode(), vec![1, 1, 0, 3]);
    assert_eq!(transfer.encode(), vec![2, 1, 2, 3]);
    assert!(same(&mint, &mint.duplicate()));
    assert!(!same(&mint, &burn));
    assert!(same_words(&vec![1, 2], &vec![1, 2]));
    assert!(!same_words(&vec![1, 2], &vec![1]));
    assert!(!same_words(&vec![1, 2], &vec![1, 3]));
    // the root of a body is the hash of its length and its transitions
    assert_eq!(
        hash_sequence(&vec![mint, transfer]),
        hash_words(&vec![2, 0, 1, 0, 3, 2, 1, 2, 3])
    );
}

#[test]
fn block_hash_is_the_hash_of_the_header() {
    let block = Block::<Pow, AccountedCurrency> {
        header: Header {
            parent: 1,
            height: 2,
            state_root: 3,
            extrinsics_root: 4,
            consensus_digest: 5,
        },
        body: vec![AccountingTransaction::Mint {
            minter: User::Alice,
            amount: 1,
        }],
    };
    assert_eq!(block.hash(), block.header.hash());
    let copy = block.duplicate();
    assert_eq!(copy.header, block.header);
    assert_eq!(copy.body, block.body);
}

#[test]
fn a_nonce_is_taken_only_if_the_header_then_meets_the_threshold() {
    let header = Header::<u64> {
        parent: 1,
        height: 2,
        state_root: 3,
        extrinsics_root: 4,
        consensus_digest: 0,
    };
    let threshold = u64::MAX / 4;
    for nonce in 0..64 {
        let candidate = Header {
            consensus_digest: nonce,
            ..header
        };
        let expected = if candidate.hash() < threshold {
            Some(candidate)
        } else {
            None
        };
        assert_eq!(try_nonce(&header, threshold, nonce), expected);
    }
    // a header that meets the threshold already is returned as it is
    let mined = mine(header, threshold).expect("a nonce is found");
    assert_eq!(mine(mined, threshold), Some(mined));
    assert_eq!(mined.parent, 1);
    assert_eq!(mined.height, 2);
    assert_eq!(mined.state_root, 3);
    assert_eq!(mined.extrinsics_root, 4);
    // nothing is below the threshold 0
    assert_eq!(try_nonce(&header, 0, 1), None);
    assert_eq!(mine_within(header, 0, 1000), None);
    assert_eq!(mine(header, 0), None);
    assert!(Pow { threshold: 0 }.seal(&0, header).is_none());
    assert!(!Pow { threshold: 0 }.validate(&0, &header));
    // without a draw only a header that meets the threshold is returned
    assert_eq!(mine_within(mined, threshold, 0), Some(mined));
    let unmined = (0..64)
        .map(|nonce| Header {
            consensus_digest: nonce,
            ..header
        })
        .find(|candidate| candidate.hash() >= threshold)
        .unwrap();
    assert_eq!(mine_within(unmined, threshold, 0), None);
    assert!(mine_within(unmined, threshold, 1000).is_some());
}
