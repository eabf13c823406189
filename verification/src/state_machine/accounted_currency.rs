//! A multi-user currency: the balance of each user, and the minting, burning
//! and sending of funds.

use crate::hashing::Canonical;
use crate::state_machine::{replay, Snapshot, StateMachine, User};
use std::collections::HashMap;
use vstd::prelude::*;

verus! {

broadcast use vstd::std_specs::hash::group_hash_axioms;

/// The state machine of the currency.
#[derive(Clone, Copy, Debug, Hash)]
pub struct AccountedCurrency;

/// The state transitions that users can make.
#[derive(Clone, Copy, Debug, PartialEq, Eq, Hash, Structural)]
pub enum AccountingTransaction {
    /// Create new money for the minter.
    Mint { minter: User, amount: u64 },
    /// Destroy money of the burner. Burning the whole balance or more removes the account.
    Burn { burner: User, amount: u64 },
    /// Send money from one account to another.
    Transfer { sender: User, receiver: User, amount: u64 },
}

/// What an account holds; nothing where there is no account.
pub open spec fn balance_of(balances: Map<User, u64>, who: User) -> int {
    if balances.contains_key(who) {
        balances[who] as int
    } else {
        0
    }
}

/// The existential deposit: no account holds zero.
pub open spec fn no_empty_account(balances: Map<User, u64>) -> bool {
    forall|who: User| balances.contains_key(who) ==> balances[who] > 0
}

/// All the money there is.
pub open spec fn total_supply(balances: Map<User, u64>) -> int {
    balance_of(balances, User::Alice) + balance_of(balances, User::Bob) + balance_of(
        balances,
        User::Charlie,
    )
}

/// The balances with `amount` taken from an account that holds at least as much;
/// an account left with nothing is removed.
pub open spec fn debited(balances: Map<User, u64>, who: User, amount: u64) -> Map<User, u64> {
    if balance_of(balances, who) == amount {
        balances.remove(who)
    } else {
        balances.insert(who, (balance_of(balances, who) - amount) as u64)
    }
}

/// The balances with `amount` added to an account, which is opened if need be.
/// Nothing is opened for nothing.
pub open spec fn credited(balances: Map<User, u64>, who: User, amount: u64) -> Map<User, u64> {
    if balance_of(balances, who) + amount == 0 {
        balances
    } else {
        balances.insert(who, (balance_of(balances, who) + amount) as u64)
    }
}

/// The balances after a transition. A transition that cannot be made leaves
/// the balances as they are: a mint of nothing, a burn of nothing or from no
/// account, a transfer from no account or of more than it holds, and a mint
/// or transfer that would take a balance beyond `u64::MAX`.
pub open spec fn balances_after(pre: Map<User, u64>, t: AccountingTransaction) -> Map<User, u64> {
    match t {
        AccountingTransaction::Mint { minter, amount } => {
            if amount == 0 || balance_of(pre, minter) + amount > u64::MAX {
                pre
            } else {
                credited(pre, minter, amount)
            }
        },
        AccountingTransaction::Burn { burner, amount } => {
            if !pre.contains_key(burner) || amount == 0 {
                pre
            } else if pre[burner] <= amount {
                pre.remove(burner)
            } else {
                pre.insert(burner, (pre[burner] - amount) as u64)
            }
        },
        AccountingTransaction::Transfer { sender, receiver, amount } => {
            if !pre.contains_key(sender) || pre[sender] < amount {
                pre
            } else if balance_of(debited(pre, sender, amount), receiver) + amount > u64::MAX {
                pre
            } else {
                credited(debited(pre, sender, amount), receiver, amount)
            }
        },
    }
}

/// A state that holds no empty account is followed by one that holds none.
pub proof fn lemma_deposit_preserved(pre: Map<User, u64>, t: AccountingTransaction)
    requires
        no_empty_account(pre),
    ensures
        no_empty_account(balances_after(pre, t)),
{
}

/// A transfer neither makes nor destroys money.
pub proof fn lemma_transfer_conserves_supply(
    pre: Map<User, u64>,
    sender: User,
    receiver: User,
    amount: u64,
)
    ensures
        total_supply(
            balances_after(pre, AccountingTransaction::Transfer { sender, receiver, amount }),
        ) == total_supply(pre),
{
}

/// The balances of the users. An account that holds nothing does not exist.
pub struct BalancesB {
    /// The balance of each user who has an account, by the user's rank.
    balances: HashMap<u64, u64>,
}

impl View for BalancesB {
    type V = Map<User, u64>;

    closed spec fn view(&self) -> Map<User, u64> {
        Map::new(
            |who: User| self.balances@.contains_key(who.rank()),
            |who: User| self.balances@[who.rank()],
        )
    }
}

/// The balances after a list of accounts was written into them, one after the
/// other: a later entry for a user replaces an earlier one, and an entry of
/// nothing closes the account.
pub open spec fn with_entries(balances: Map<User, u64>, entries: Seq<(User, u64)>) -> Map<User, u64>
    decreases entries.len(),
{
    if entries.len() == 0 {
        balances
    } else {
        let before = with_entries(balances, entries.drop_last());
        let (who, amount) = entries.last();
        if amount == 0 {
            before.remove(who)
        } else {
            before.insert(who, amount)
        }
    }
}

/// The account of one user as a list: empty where there is none.
pub open spec fn account_listing(balances: Map<User, u64>, who: User) -> Seq<(User, u64)> {
    if balances.contains_key(who) {
        seq![(who, balances[who])]
    } else {
        Seq::empty()
    }
}

/// The accounts in the order of the users.
pub open spec fn listing(balances: Map<User, u64>) -> Seq<(User, u64)> {
    account_listing(balances, User::Alice) + account_listing(balances, User::Bob)
        + account_listing(balances, User::Charlie)
}

/// The two words that stand for one user's account.
pub open spec fn account_words(balances: Map<User, u64>, who: User) -> Seq<u64> {
    if balances.contains_key(who) {
        seq![1u64, balances[who]]
    } else {
        seq![0u64, 0u64]
    }
}

/// The serialisation of the balances: the accounts in the order of the users,
/// whatever the order in which they were opened.
pub open spec fn balances_words(balances: Map<User, u64>) -> Seq<u64> {
    account_words(balances, User::Alice) + account_words(balances, User::Bob) + account_words(
        balances,
        User::Charlie,
    )
}

/// The serialisation tells the balances: two states share it only where
/// they hold the same accounts.
pub proof fn lemma_balances_words_injective(a: Map<User, u64>, b: Map<User, u64>)
    requires
        balances_words(a) == balances_words(b),
    ensures
        a == b,
{
    let wa = balances_words(a);
    let wb = balances_words(b);
    assert(wa[0] == account_words(a, User::Alice)[0] && wa[1] == account_words(a, User::Alice)[1]);
    assert(wa[2] == account_words(a, User::Bob)[0] && wa[3] == account_words(a, User::Bob)[1]);
    assert(wa[4] == account_words(a, User::Charlie)[0] && wa[5] == account_words(
        a,
        User::Charlie,
    )[1]);
    assert(wb[0] == account_words(b, User::Alice)[0] && wb[1] == account_words(b, User::Alice)[1]);
    assert(wb[2] == account_words(b, User::Bob)[0] && wb[3] == account_words(b, User::Bob)[1]);
    assert(wb[4] == account_words(b, User::Charlie)[0] && wb[5] == account_words(
        b,
        User::Charlie,
    )[1]);
    assert forall|who: User| a.contains_key(who) == b.contains_key(who) && (a.contains_key(who)
        ==> a[who] == b[who]) by {
        match who {
            User::Alice => {},
            User::Bob => {},
            User::Charlie => {},
        }
    }
    assert(a =~= b);
}

impl BalancesB {
    #[verifier::type_invariant]
    spec fn deposits_held(&self) -> bool {
        forall|k: u64| self.balances@.contains_key(k) ==> self.balances@[k] > 0
    }

    /// Balances without any account.
    pub fn new() -> (empty: Self)
        ensures
            empty@ == Map::<User, u64>::empty(),
    {
        let empty = BalancesB { balances: HashMap::new() };
        empty
    }

    /// Balances that hold the given accounts.
    pub fn from_entries(entries: &Vec<(User, u64)>) -> (filled: Self)
        ensures
            filled@ == with_entries(Map::<User, u64>::empty(), entries@),
            no_empty_account(filled@),
    {
        let mut filled = BalancesB::new();
        let mut i: usize = 0;
        while i < entries.len()
            invariant
                i <= entries.len(),
                filled@ == with_entries(Map::<User, u64>::empty(), entries@.take(i as int)),
            decreases entries.len() - i,
        {
            let (who, amount) = entries[i];
            filled = filled.updated(who, amount);
            proof {
                let upto = entries@.take(i + 1);
                assert(upto.drop_last() =~= entries@.take(i as int));
            }
            i += 1;
        }
        proof {
            assert(entries@.take(i as int) =~= entries@);
            use_type_invariant(&filled);
        }
        filled
    }

    /// The balance of a user's account, if there is one.
    pub fn get(&self, who: User) -> (held: Option<u64>)
        ensures
            held == (if self@.contains_key(who) {
                Some(self@[who])
            } else {
                None
            }),
            held matches Some(amount) ==> amount > 0,
    {
        proof {
            use_type_invariant(self);
        }
        let key = who.index();
        match self.balances.get(&key) {
            Some(amount) => Some(*amount),
            None => None,
        }
    }

    /// What a user holds: nothing where there is no account.
    pub fn balance(&self, who: User) -> (held: u64)
        ensures
            held == balance_of(self@, who),
    {
        match self.get(who) {
            Some(amount) => amount,
            None => 0,
        }
    }

    /// These balances with one account written: nothing closes it.
    fn updated(self, who: User, amount: u64) -> (written: Self)
        ensures
            written@ == (if amount == 0 {
                self@.remove(who)
            } else {
                self@.insert(who, amount)
            }),
    {
        proof {
            use_type_invariant(&self);
        }
        let key = who.index();
        let mut balances = self.balances;
        if amount == 0 {
            balances.remove(&key);
        } else {
            balances.insert(key, amount);
        }
        let written = BalancesB { balances };
        written
    }

    /// The number of accounts.
    pub fn len(&self) -> (n: usize)
        ensures
            n == listing(self@).len(),
    {
        let entries = self.entries();
        entries.len()
    }

    /// The accounts in the order of the users.
    pub fn entries(&self) -> (accounts: Vec<(User, u64)>)
        ensures
            accounts@ == listing(self@),
    {
        let mut accounts: Vec<(User, u64)> = Vec::new();
        if let Some(amount) = self.get(User::Alice) {
            accounts.push((User::Alice, amount));
        }
        if let Some(amount) = self.get(User::Bob) {
            accounts.push((User::Bob, amount));
        }
        if let Some(amount) = self.get(User::Charlie) {
            accounts.push((User::Charlie, amount));
        }
        accounts
    }

    fn push_account_words(&self, who: User, words: &mut Vec<u64>)
        ensures
            final(words)@ == old(words)@ + account_words(self@, who),
    {
        match self.get(who) {
            Some(amount) => {
                words.push(1);
                words.push(amount);
            },
            None => {
                words.push(0);
                words.push(0);
            },
        }
    }
}

impl Default for BalancesB {
    fn default() -> (empty: Self)
        ensures
            empty@ == Map::<User, u64>::empty(),
    {
        BalancesB::new()
    }
}

impl Clone for BalancesB {
    fn clone(&self) -> (copy: Self)
        ensures
            copy@ == self@,
    {
        proof {
            use_type_invariant(self);
        }
        BalancesB { balances: self.balances.clone() }
    }
}

impl Snapshot for BalancesB {
    open spec fn encoding(state: Map<User, u64>) -> Seq<u64> {
        balances_words(state)
    }

    fn encode(&self) -> (words: Vec<u64>) {
        let mut words: Vec<u64> = Vec::new();
        self.push_account_words(User::Alice, &mut words);
        self.push_account_words(User::Bob, &mut words);
        self.push_account_words(User::Charlie, &mut words);
        words
    }

    fn duplicate(&self) -> (copy: Self) {
        self.clone()
    }
}

impl Canonical for AccountingTransaction {
    open spec fn encoding(&self) -> Seq<u64> {
        match *self {
            AccountingTransaction::Mint { minter, amount } => seq![0u64, minter.rank(), 0u64, amount],
            AccountingTransaction::Burn { burner, amount } => seq![1u64, burner.rank(), 0u64, amount],
            AccountingTransaction::Transfer { sender, receiver, amount } => seq![
                2u64,
                sender.rank(),
                receiver.rank(),
                amount,
            ],
        }
    }

    proof fn lemma_encoding_injective(a: Self, b: Self) {
        let wa = a.encoding();
        let wb = b.encoding();
        assert(wa[0] == wb[0] && wa[1] == wb[1] && wa[2] == wb[2] && wa[3] == wb[3]);
    }

    fn encode(&self) -> (words: Vec<u64>) {
        let mut words: Vec<u64> = Vec::new();
        match *self {
            AccountingTransaction::Mint { minter, amount } => {
                words.push(0);
                words.push(minter.index());
                words.push(0);
                words.push(amount);
            },
            AccountingTransaction::Burn { burner, amount } => {
                words.push(1);
                words.push(burner.index());
                words.push(0);
                words.push(amount);
            },
            AccountingTransaction::Transfer { sender, receiver, amount } => {
                words.push(2);
                words.push(sender.index());
                words.push(receiver.index());
                words.push(amount);
            },
        }
        words
    }

    fn duplicate(&self) -> (copy: Self) {
        *self
    }
}

impl StateMachine for AccountedCurrency {
    type State = BalancesB;

    type Transition = AccountingTransaction;

    open spec fn next(pre: Map<User, u64>, t: AccountingTransaction) -> Map<User, u64> {
        balances_after(pre, t)
    }

    fn next_state(starting_state: &BalancesB, t: &AccountingTransaction) -> (post: BalancesB)
        ensures
            no_empty_account(post@),
    {
        let mut state = starting_state.clone();
        proof {
            use_type_invariant(starting_state);
        }
        match *t {
            AccountingTransaction::Mint { minter, amount } => {
                let held = state.balance(minter);
                if amount != 0 && amount <= u64::MAX - held {
                    state = state.updated(minter, held + amount);
                }
            },
            AccountingTransaction::Burn { burner, amount } => {
                if let Some(held) = state.get(burner) {
                    if amount != 0 {
                        if held <= amount {
                            state = state.updated(burner, 0);
                        } else {
                            state = state.updated(burner, held - amount);
                        }
                    }
                }
            },
            AccountingTransaction::Transfer { sender, receiver, amount } => {
                if let Some(held) = state.get(sender) {
                    if held >= amount {
                        let left = held - amount;
                        let receiver_held = if receiver == sender {
                            left
                        } else {
                            state.balance(receiver)
                        };
                        if amount <= u64::MAX - receiver_held {
                            state = state.updated(sender, left);
                            state = state.updated(receiver, receiver_held + amount);
                        }
                    }
                }
            },
        }
        proof {
            assert(state@ =~= balances_after(starting_state@, *t));
            use_type_invariant(&state);
        }
        state
    }
}

/// Every state that is reached from a state without an empty account holds
/// none, and so does every state reached from balances without any account.
pub proof fn lemma_deposit_preserved_by_replay(pre: Map<User, u64>, body: Seq<AccountingTransaction>)
    requires
        no_empty_account(pre),
    ensures
        no_empty_account(replay::<AccountedCurrency>(pre, body)),
        no_empty_account(Map::<User, u64>::empty()),
    decreases body.len(),
{
    if body.len() > 0 {
        lemma_deposit_preserved_by_replay(pre, body.drop_last());
        lemma_deposit_preserved(replay::<AccountedCurrency>(pre, body.drop_last()), body.last());
    }
}

} // verus!
