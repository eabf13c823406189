use chain_client::state_machine::accounted_currency::{
    AccountedCurrency, AccountingTransaction, BalancesB,
};
use chain_client::state_machine::{StateMachine, User};

#[test]
fn sm_4_mint_creates_account() {
    let start: BalancesB = BalancesB::default();
    let end = AccountedCurrency::next_state(
        &start,
        &AccountingTransaction::Mint {
            minter: User::Alice,
            amount: 100,
        },
    );
    let expected = vec![(User::Alice, 100)];

    assert_eq!(end.entries(), expected);
}

#[test]
fn sm_4_mint_creates_second_account() {
    let start = BalancesB::from_entries(&vec![(User::Alice, 100)]);
    let end = AccountedCurrency::next_state(
        &start,
        &AccountingTransaction::Mint {
            minter: User::Bob,
            amount: 50,
        },
    );
    let expected = vec![(User::Alice, 100), (User::Bob, 50)];

    assert_eq!(end.entries(), expected);
}

#[test]
fn sm_4_mint_increases_balance() {
    let start = BalancesB::from_entries(&vec![(User::Alice, 100)]);
    let end = AccountedCurrency::next_state(
        &start,
        &AccountingTransaction::Mint {
            minter: User::Alice,
            amount: 50,
        },
    );
    let expected = vec![(User::Alice, 150)];

    assert_eq!(end.entries(), expected);
}

#[test]
fn sm_4_empty_mint() {
    let start: BalancesB = BalancesB::default();

    let end = AccountedCurrency::next_state(
        &start,
        &AccountingTransaction::Mint {
            minter: User::Alice,
            amount: 0,
        },
    );
    let expected: Vec<(User, u64)> = Vec::new();

    assert_eq!(end.entries(), expected);
}

#[test]
fn sm_4_simple_burn() {
    let start = BalancesB::from_entries(&vec![(User::Alice, 100)]);
    let end = AccountedCurrency::next_state(
        &start,
        &AccountingTransaction::Burn {
            burner: User::Alice,
            amount: 50,
        },
    );
    let expected = vec![(User::Alice, 50)];

    assert_eq!(end.entries(), expected);
}

#[test]
fn sm_4_burn_no_existential_deposit_left() {
    let start = BalancesB::from_entries(&vec![(User::Alice, 100), (User::Bob, 50)]);
    let end = AccountedCurrency::next_state(
        &start,
        &AccountingTransaction::Burn {
            burner: User::Bob,
            amount: 50,
        },
    );
    let expected = vec![(User::Alice, 100)];

    assert_eq!(end.entries(), expected);
}

#[test]
fn sm_4_non_registered_burner() {
    let start = BalancesB::from_entries(&vec![(User::Alice, 100)]);
    let end = AccountedCurrency::next_state(
        &start,
        &AccountingTransaction::Burn {
            burner: User::Bob,
            amount: 50,
        },
    );
    let expected = vec![(User::Alice, 100)];

    assert_eq!(end.entries(), expected);
}

#[test]
fn sm_4_burn_more_than_balance() {
    let start = BalancesB::from_entries(&vec![(User::Alice, 100), (User::Bob, 50)]);
    let end2 = AccountedCurrency::next_state(
        &start,
        &AccountingTransaction::Burn {
            burner: User::Bob,
            amount: 100,
        },
    );
    let expected2 = vec![(User::Alice, 100)];

    assert_eq!(end2.entries(), expected2);
}

#[test]
fn sm_4_empty_burn() {
    let start = BalancesB::from_entries(&vec![(User::Alice, 100)]);
    let end = AccountedCurrency::next_state(
        &start,
        &AccountingTransaction::Burn {
            burner: User::Alice,
            amount: 0,
        },
    );
    let expected = vec![(User::Alice, 100)];

    assert_eq!(end.entries(), expected);
}

#[test]
fn sm_4_burner_does_not_exist() {
    let start = BalancesB::from_entries(&vec![(User::Alice, 100)]);
    let end = AccountedCurrency::next_state(
        &start,
        &AccountingTransaction::Burn {
            burner: User::Bob,
            amount: 50,
        },
    );
    let expected = vec![(User::Alice, 100)];

    assert_eq!(end.entries(), expected);
}

#[test]
fn sm_4_simple_transfer() {
    let start = BalancesB::from_entries(&vec![(User::Alice, 100), (User::Bob, 50)]);
    let end = AccountedCurrency::next_state(
        &start,
        &AccountingTransaction::Transfer {
            sender: User::Alice,
            receiver: User::Bob,
            amount: 10,
        },
    );
    let expected = vec![(User::Alice, 90), (User::Bob, 60)];

    assert_eq!(end.entries(), expected);

    let start = BalancesB::from_entries(&vec![(User::Alice, 90), (User::Bob, 60)]);

    let end1 = AccountedCurrency::next_state(
        &start,
        &AccountingTransaction::Transfer {
            sender: User::Bob,
            receiver: User::Alice,
            amount: 50,
        },
    );
    let expected1 = vec![(User::Alice, 140), (User::Bob, 10)];

    assert_eq!(end1.entries(), expected1);
}

#[test]
fn sm_4_send_to_same_user() {
    let start = BalancesB::from_entries(&vec![(User::Alice, 100), (User::Bob, 50)]);
    let end = AccountedCurrency::next_state(
        &start,
        &AccountingTransaction::Transfer {
            sender: User::Bob,
            receiver: User::Bob,
            amount: 10,
        },
    );
    let expected = vec![(User::Alice, 100), (User::Bob, 50)];

    assert_eq!(end.entries(), expected);
}

#[test]
fn sm_4_insufficient_balance_transfer() {
    let start = BalancesB::from_entries(&vec![(User::Alice, 100), (User::Bob, 50)]);
    let end = AccountedCurrency::next_state(
        &start,
        &AccountingTransaction::Transfer {
            sender: User::Bob,
            receiver: User::Alice,
            amount: 60,
        },
    );
    let expected = vec![(User::Alice, 100), (User::Bob, 50)];

    assert_eq!(end.entries(), expected);
}

#[test]
fn sm_4_sender_not_registered() {
    let start = BalancesB::from_entries(&vec![(User::Alice, 100), (User::Bob, 50)]);
    let end = AccountedCurrency::next_state(
        &start,
        &AccountingTransaction::Transfer {
            sender: User::Charlie,
            receiver: User::Alice,
            amount: 50,
        },
    );
    let expected = vec![(User::Alice, 100), (User::Bob, 50)];

    assert_eq!(end.entries(), expected);
}

#[test]
fn sm_4_receiver_not_registered() {
    let start = BalancesB::from_entries(&vec![(User::Alice, 100), (User::Bob, 50)]);
    let end = AccountedCurrency::next_state(
        &start,
        &AccountingTransaction::Transfer {
            sender: User::Alice,
            receiver: User::Charlie,
            amount: 50,
        },
    );
    let expected = vec![(User::Alice, 50), (User::Bob, 50), (User::Charlie, 50)];

    assert_eq!(end.entries(), expected);
}

#[test]
fn sm_4_sender_to_empty_balance() {
    let start = BalancesB::from_entries(&vec![(User::Alice, 100), (User::Bob, 50)]);
    let end = AccountedCurrency::next_state(
        &start,
        &AccountingTransaction::Transfer {
            sender: User::Bob,
            receiver: User::Alice,
            amount: 50,
        },
    );
    let expected = vec![(User::Alice, 150)];

    assert_eq!(end.entries(), expected);
}

#[test]
fn sm_4_transfer() {
    let start = BalancesB::from_entries(&vec![(User::Alice, 100), (User::Bob, 50)]);
    let end = AccountedCurrency::next_state(
        &start,
        &AccountingTransaction::Transfer {
            sender: User::Bob,
            receiver: User::Charlie,
            amount: 50,
        },
    );
    let expected = vec![(User::Alice, 100), (User::Charlie, 50)];

    assert_eq!(end.entries(), expected);
}

#[test]
fn mint_beyond_the_greatest_balance_changes_nothing() {
    let start = BalancesB::from_entries(&vec![(User::Alice, u64::MAX - 1)]);
    let end = AccountedCurrency::next_state(
        &start,
        &AccountingTransaction::Mint {
            minter: User::Alice,
            amount: 2,
        },
    );
    assert_eq!(end.entries(), vec![(User::Alice, u64::MAX - 1)]);

    let end = AccountedCurrency::next_state(
        &start,
        &AccountingTransaction::Mint {
            minter: User::Alice,
            amount: 1,
        },
    );
    assert_eq!(end.entries(), vec![(User::Alice, u64::MAX)]);
}

#[test]
fn transfer_beyond_the_greatest_balance_changes_nothing() {
    let start = BalancesB::from_entries(&vec![(User::Alice, 5), (User::Bob, u64::MAX - 1)]);
    let end = AccountedCurrency::next_state(
        &start,
        &AccountingTransaction::Transfer {
            sender: User::Alice,
            receiver: User::Bob,
            amount: 2,
        },
    );
    assert_eq!(end.entries(), start.entries());

    // to oneself the whole balance can be sent, however large
    let rich = BalancesB::from_entries(&vec![(User::Bob, u64::MAX)]);
    let end = AccountedCurrency::next_state(
        &rich,
        &AccountingTransaction::Transfer {
            sender: User::Bob,
            receiver: User::Bob,
            amount: u64::MAX,
        },
    );
    assert_eq!(end.entries(), rich.entries());
}

#[test]
fn transfer_of_nothing_opens_no_account() {
    let start = BalancesB::from_entries(&vec![(User::Alice, 5)]);
    let end = AccountedCurrency::next_state(
        &start,
        &AccountingTransaction::Transfer {
            sender: User::Alice,
            receiver: User::Charlie,
            amount: 0,
        },
    );
    assert_eq!(end.entries(), vec![(User::Alice, 5)]);
    assert_eq!(end.get(User::Charlie), None);
    assert_eq!(end.len(), 1);
}

#[test]
fn transfer_conserves_the_supply_and_no_account_is_empty() {
    let start = BalancesB::from_entries(&vec![(User::Alice, 100), (User::Bob, 50)]);
    let supply = |state: &BalancesB| -> u64 { state.entries().iter().map(|(_, held)| held).sum() };
    let users = [User::Alice, User::Bob, User::Charlie];
    for sender in users {
        for receiver in users {
            for amount in [0, 1, 49, 50, 51, 100, 101] {
                let end = AccountedCurrency::next_state(
                    &start,
                    &AccountingTransaction::Transfer {
                        sender,
                        receiver,
                        amount,
                    },
                );
                assert_eq!(supply(&end), 150);
                assert!(end.entries().iter().all(|(_, held)| *held > 0));
            }
        }
    }
}

#[test]
fn next_state_gives_the_same_state_every_time() {
    let start = BalancesB::from_entries(&vec![(User::Alice, 100), (User::Bob, 50)]);
    let t = AccountingTransaction::Transfer {
        sender: User::Alice,
        receiver: User::Charlie,
        amount: 30,
    };
    let first = AccountedCurrency::next_state(&start, &t);
    let second = AccountedCurrency::next_state(&start, &t);
    assert_eq!(first.entries(), second.entries());
    assert_eq!(
        first.entries(),
        vec![(User::Alice, 70), (User::Bob, 50), (User::Charlie, 30)]
    );
    // the starting state is as it was
    assert_eq!(start.entries(), vec![(User::Alice, 100), (User::Bob, 50)]);
    assert_eq!(start.clone().entries(), start.entries());
}

#[test]
fn balances_are_written_entry_by_entry() {
    let state = BalancesB::from_entries(&vec![
        (User::Charlie, 3),
        (User::Alice, 0),
        (User::Bob, 2),
        (User::Charlie, 0),
        (User::Bob, 9),
    ]);
    assert_eq!(state.entries(), vec![(User::Bob, 9)]);
    assert_eq!(state.get(User::Bob), Some(9));
    assert_eq!(state.balance(User::Alice), 0);
    assert_eq!(state.balance(User::Bob), 9);
    assert_eq!(BalancesB::new().len(), 0);
    assert_eq!(User::from_index(User::Charlie.index()), Some(User::Charlie));
    assert_eq!(User::from_index(3), None);
}
