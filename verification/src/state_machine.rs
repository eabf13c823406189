//! State machines: a state, a kind of transition, and a pure function that
//! gives the state after a transition.

use crate::hashing::{hash_words, hash_of, Canonical};
use vstd::prelude::*;

pub mod accounted_currency;

verus! {

/// The users of the multi-user state machines.
#[derive(Clone, Copy, Debug, PartialEq, Eq, Hash, Structural)]
pub enum User {
    Alice,
    Bob,
    Charlie,
}

impl User {
    /// The place of a user in the total order of users.
    pub open spec fn rank(self) -> u64 {
        match self {
            User::Alice => 0,
            User::Bob => 1,
            User::Charlie => 2,
        }
    }

    pub fn index(&self) -> (i: u64)
        ensures
            i == self.rank(),
    {
        match self {
            User::Alice => 0,
            User::Bob => 1,
            User::Charlie => 2,
        }
    }

    /// The user at a place of the total order, if there is one.
    pub fn from_index(i: u64) -> (user: Option<User>)
        ensures
            match user {
                Some(u) => u.rank() == i,
                None => i >= 3,
            },
    {
        if i == 0 {
            Some(User::Alice)
        } else if i == 1 {
            Some(User::Bob)
        } else if i == 2 {
            Some(User::Charlie)
        } else {
            None
        }
    }
}

/// A state that can be copied and hashed. Its view is what the state is;
/// the serialisation, and so the hash, depends on the view alone.
pub trait Snapshot: View + Sized {
    /// The words that stand for a state.
    spec fn encoding(state: Self::V) -> Seq<u64>;

    fn encode(&self) -> (words: Vec<u64>)
        ensures
            words@ == Self::encoding(self@),
    ;

    fn duplicate(&self) -> (copy: Self)
        ensures
            copy@ == self@,
    ;
}

/// A state machine: `next_state` is total and its result is a function of
/// the starting state and the transition alone.
pub trait StateMachine {
    type State: Snapshot;

    type Transition: Canonical;

    /// The state after a transition.
    spec fn next(pre: <Self::State as View>::V, t: Self::Transition) -> <Self::State as View>::V;

    fn next_state(starting_state: &Self::State, t: &Self::Transition) -> (post: Self::State)
        ensures
            post@ == Self::next(starting_state@, *t),
    ;
}

/// The state after a sequence of transitions, applied left to right.
pub open spec fn replay<SM: StateMachine>(
    pre: <SM::State as View>::V,
    body: Seq<SM::Transition>,
) -> <SM::State as View>::V
    decreases body.len(),
{
    if body.len() == 0 {
        pre
    } else {
        SM::next(replay::<SM>(pre, body.drop_last()), body.last())
    }
}

/// The root of a state: the hash of its serialisation.
pub open spec fn state_root_of<SM: StateMachine>(state: <SM::State as View>::V) -> u64 {
    hash_of(<SM::State as Snapshot>::encoding(state))
}

/// Applies the transitions of a body to a state, left to right.
pub fn apply_all<SM: StateMachine>(pre: &SM::State, body: &Vec<SM::Transition>) -> (post: SM::State)
    ensures
        post@ == replay::<SM>(pre@, body@),
{
    let mut state = pre.duplicate();
    let mut i: usize = 0;
    while i < body.len()
        invariant
            i <= body.len(),
            state@ == replay::<SM>(pre@, body@.take(i as int)),
        decreases body.len() - i,
    {
        state = SM::next_state(&state, &body[i]);
        proof {
            let upto = body@.take(i + 1);
            assert(upto.drop_last() =~= body@.take(i as int));
        }
        i += 1;
    }
    proof {
        assert(body@.take(i as int) =~= body@);
    }
    state
}

/// Hashes a state.
pub fn hash_state<SM: StateMachine>(state: &SM::State) -> (root: u64)
    ensures
        root == state_root_of::<SM>(state@),
{
    let words = state.encode();
    hash_words(&words)
}

} // verus!
