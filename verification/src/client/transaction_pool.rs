//! The transaction pool: where transitions wait until a block includes them.

use crate::client::FullClient;
use crate::hashing::{same, Canonical};
use crate::state_machine::StateMachine;
use std::collections::VecDeque;
use vstd::prelude::*;

verus! {

/// A queue without the transitions equal to a given one.
pub open spec fn without<T>(queue: Seq<T>, t: T) -> Seq<T> {
    queue.filter(|queued: T| queued != t)
}

/// A pool of transitions that wait for a block. Its view is the queue, in
/// the order in which the transitions will leave it.
pub trait TransactionPool<SM: StateMachine>: View<V = Seq<SM::Transition>> + Sized {
    /// Whether the pool is in order.
    spec fn wf(&self) -> bool;

    /// Whether the pool takes a transition.
    spec fn admits(&self, t: SM::Transition) -> bool;

    /// The place in the queue that a transition is given when it is taken.
    spec fn place(&self, t: SM::Transition) -> int;

    /// Whether two pools take and order transitions by the same rules.
    spec fn same_rules(&self, other: &Self) -> bool;

    /// Pools of the same rules take the same transitions, and to be of the
    /// same rules is reflexive and transitive.
    proof fn lemma_same_rules(a: &Self, b: &Self, c: &Self)
        ensures
            a.same_rules(a),
            a.same_rules(b) && b.same_rules(c) ==> a.same_rules(c),
            a.same_rules(b) ==> forall|t: SM::Transition| a.admits(t) == b.admits(t),
    ;

    /// Tries to add a transition to the pool. Returns whether it was taken.
    fn try_insert(&mut self, t: SM::Transition) -> (taken: bool)
        requires
            old(self).wf(),
        ensures
            final(self).wf(),
            final(self).same_rules(old(self)),
            taken == old(self).admits(t),
            0 <= old(self).place(t) <= old(self)@.len(),
            final(self)@ == (if taken {
                old(self)@.insert(old(self).place(t), t)
            } else {
                old(self)@
            }),
    ;

    /// Removes a transition from the pool, wherever it stands in it.
    fn remove(&mut self, t: SM::Transition)
        requires
            old(self).wf(),
        ensures
            final(self).wf(),
            final(self).same_rules(old(self)),
            final(self)@ == without(old(self)@, t),
    ;

    /// The number of transitions in the pool.
    fn size(&self) -> (n: usize)
        ensures
            n == self@.len(),
    ;

    /// Whether a transition is in the pool.
    fn contains(&self, t: SM::Transition) -> (held: bool)
        ensures
            held == self@.contains(t),
    ;

    /// Takes the next transition out of the pool: the one at the front.
    fn next_from_pool(&mut self) -> (next: Option<SM::Transition>)
        requires
            old(self).wf(),
        ensures
            final(self).wf(),
            final(self).same_rules(old(self)),
            match next {
                Some(t) => old(self)@.len() > 0 && t == old(self)@[0] && final(self)@ == old(self)@.drop_first(),
                None => old(self)@.len() == 0 && final(self)@ == old(self)@,
            },
    ;

    /// The transitions of the pool, in the order in which they will leave it.
    fn transitions(&self) -> (listing: Vec<SM::Transition>)
        ensures
            listing@ == self@,
    ;
}

/// Whether a queue holds a transition.
pub fn queue_contains<T: Canonical>(queue: &VecDeque<T>, t: &T) -> (held: bool)
    ensures
        held == queue@.contains(*t),
{
    let mut i: usize = 0;
    while i < queue.len()
        invariant
            i <= queue.len(),
            forall|at: int| 0 <= at < i ==> queue@[at] != *t,
        decreases queue.len() - i,
    {
        if same(&queue[i], t) {
            return true;
        }
        i += 1;
    }
    false
}

/// A copy of a queue without the transitions equal to a given one.
pub fn queue_without<T: Canonical>(queue: &VecDeque<T>, t: &T) -> (kept: VecDeque<T>)
    ensures
        kept@ == without(queue@, *t),
{
    let mut kept: VecDeque<T> = VecDeque::new();
    let mut i: usize = 0;
    while i < queue.len()
        invariant
            i <= queue.len(),
            kept@ == without(queue@.take(i as int), *t),
        decreases queue.len() - i,
    {
        proof {
            reveal(Seq::filter);
            let upto = queue@.take(i + 1);
            assert(upto.drop_last() =~= queue@.take(i as int));
        }
        if !same(&queue[i], t) {
            kept.push_back(queue[i].duplicate());
        }
        i += 1;
    }
    proof {
        assert(queue@.take(i as int) =~= queue@);
    }
    kept
}

/// A copy of the transitions of a queue, in their order.
pub fn queue_listing<T: Canonical>(queue: &VecDeque<T>) -> (listing: Vec<T>)
    ensures
        listing@ == queue@,
{
    let mut listing: Vec<T> = Vec::new();
    let mut i: usize = 0;
    while i < queue.len()
        invariant
            i <= queue.len(),
            listing@ == queue@.take(i as int),
        decreases queue.len() - i,
    {
        listing.push(queue[i].duplicate());
        i += 1;
    }
    listing
}

/// Takes the transition at the front out of a queue.
pub fn queue_pop<T>(queue: &mut VecDeque<T>) -> (next: Option<T>)
    ensures
        match next {
            Some(t) => old(queue)@.len() > 0 && t == old(queue)@[0] && final(queue)@ == old(queue)@.drop_first(),
            None => old(queue)@.len() == 0 && final(queue)@ == old(queue)@,
        },
{
    let next = queue.pop_front();
    next
}

impl<C, SM, FC, P, S> FullClient<C, SM, FC, P, S> where SM: StateMachine, P: TransactionPool<SM> {
    /// Hands a transition to the pool, in the hope that a later block includes it.
    pub fn submit_transaction(&mut self, t: SM::Transition)
        requires
            old(self).transaction_pool.wf(),
        ensures
            final(self).transaction_pool.wf(),
            final(self).transaction_pool.same_rules(&old(self).transaction_pool),
            final(self).transaction_pool@ == (if old(self).transaction_pool.admits(t) {
                old(self).transaction_pool@.insert(old(self).transaction_pool.place(t), t)
            } else {
                old(self).transaction_pool@
            }),
            final(self).consensus_engine == old(self).consensus_engine,
            final(self).state_machine == old(self).state_machine,
            final(self).fork_choice == old(self).fork_choice,
            final(self).storage == old(self).storage,
    {
        self.transaction_pool.try_insert(t);
    }

    /// The number of transitions in the pool of the client.
    pub fn pool_size(&self) -> (n: usize)
        ensures
            n == self.transaction_pool@.len(),
    {
        self.transaction_pool.size()
    }

    /// Whether a transition is in the pool of the client.
    pub fn pool_contains(&self, t: SM::Transition) -> (held: bool)
        ensures
            held == self.transaction_pool@.contains(t),
    {
        self.transaction_pool.contains(t)
    }
}

/// A pool that hands the transitions out in the order in which they came.
pub struct SimplePool<SM: StateMachine>(VecDeque<SM::Transition>);

impl<SM: StateMachine> View for SimplePool<SM> {
    type V = Seq<SM::Transition>;

    closed spec fn view(&self) -> Seq<SM::Transition> {
        self.0@
    }
}

impl<SM: StateMachine> SimplePool<SM> {
    /// An empty pool.
    pub fn new() -> (pool: Self)
        ensures
            pool@ == Seq::<SM::Transition>::empty(),
    {
        SimplePool(VecDeque::new())
    }
}

impl<SM: StateMachine> TransactionPool<SM> for SimplePool<SM> {
    open spec fn wf(&self) -> bool {
        true
    }

    open spec fn admits(&self, t: SM::Transition) -> bool {
        true
    }

    open spec fn place(&self, t: SM::Transition) -> int {
        self@.len() as int
    }

    open spec fn same_rules(&self, other: &Self) -> bool {
        true
    }

    proof fn lemma_same_rules(a: &Self, b: &Self, c: &Self) {
    }

    fn try_insert(&mut self, t: SM::Transition) -> (taken: bool) {
        self.0.push_back(t);
        true
    }

    fn remove(&mut self, t: SM::Transition) {
        self.0 = queue_without(&self.0, &t);
    }

    fn size(&self) -> (n: usize) {
        self.0.len()
    }

    fn contains(&self, t: SM::Transition) -> (held: bool) {
        queue_contains(&self.0, &t)
    }

    fn next_from_pool(&mut self) -> (next: Option<SM::Transition>) {
        queue_pop(&mut self.0)
    }

    fn transitions(&self) -> (listing: Vec<SM::Transition>) {
        queue_listing(&self.0)
    }
}

/// A pool that refuses the transitions that a predicate finds suspicious,
/// and hands the others out in the order in which they came.
pub struct CensoringPool<SM: StateMachine, P: Fn(SM::Transition) -> bool> {
    /// Tells whether a transition is suspicious.
    might_be_terrorist: P,
    queue: VecDeque<SM::Transition>,
}

impl<SM: StateMachine, P: Fn(SM::Transition) -> bool> View for CensoringPool<SM, P> {
    type V = Seq<SM::Transition>;

    closed spec fn view(&self) -> Seq<SM::Transition> {
        self.queue@
    }
}

/// Whether a function answers for every transition, and always the same.
pub open spec fn is_pure<T, R, F: Fn(T) -> R>(f: F) -> bool {
    &&& forall|t: T| call_requires(f, (t,))
    &&& forall|t: T, a: R, b: R|
        #![trigger call_ensures(f, (t,), a), call_ensures(f, (t,), b)]
        call_ensures(f, (t,), a) && call_ensures(f, (t,), b) ==> a == b
}

/// What a pure function answers for a transition.
pub open spec fn answer_of<T, R, F: Fn(T) -> R>(f: F, t: T) -> R {
    choose|answer: R| call_ensures(f, (t,), answer)
}

impl<SM: StateMachine, P: Fn(SM::Transition) -> bool> CensoringPool<SM, P> {
    /// An empty pool that censors by the given predicate.
    pub fn new(might_be_terrorist: P) -> (pool: Self)
        requires
            is_pure::<SM::Transition, bool, P>(might_be_terrorist),
        ensures
            pool@ == Seq::<SM::Transition>::empty(),
            pool.wf(),
            forall|t: SM::Transition, verdict: bool|
                pool.judges(t, verdict) == call_ensures(might_be_terrorist, (t,), verdict),
    {
        CensoringPool { might_be_terrorist, queue: VecDeque::new() }
    }

    /// Whether the predicate finds a transition suspicious: its answer.
    pub closed spec fn suspects(&self, t: SM::Transition) -> bool {
        answer_of::<SM::Transition, bool, P>(self.might_be_terrorist, t)
    }

    /// Whether the predicate may answer `verdict` for a transition. It
    /// answers the same every time, so at most one verdict is its answer.
    pub closed spec fn judges(&self, t: SM::Transition, verdict: bool) -> bool {
        call_ensures(self.might_be_terrorist, (t,), verdict)
    }

    /// What the pool takes, and where: it takes the transitions that the
    /// predicate does not suspect, each at the back of the queue.
    pub proof fn lemma_rules(pool: &Self, t: SM::Transition)
        ensures
            pool.admits(t) == !pool.suspects(t),
            pool.place(t) == pool@.len(),
    {
    }

    /// Pools of the same rules suspect the same transitions.
    pub proof fn lemma_same_verdicts(a: &Self, b: &Self)
        requires
            a.same_rules(b),
        ensures
            forall|t: SM::Transition| a.suspects(t) == b.suspects(t),
            forall|t: SM::Transition, verdict: bool| a.judges(t, verdict) == b.judges(t, verdict),
    {
    }
}

impl<SM: StateMachine, P: Fn(SM::Transition) -> bool> TransactionPool<SM> for CensoringPool<SM, P> {
    closed spec fn wf(&self) -> bool {
        is_pure::<SM::Transition, bool, P>(self.might_be_terrorist)
    }

    open spec fn admits(&self, t: SM::Transition) -> bool {
        !self.suspects(t)
    }

    open spec fn place(&self, t: SM::Transition) -> int {
        self@.len() as int
    }

    closed spec fn same_rules(&self, other: &Self) -> bool {
        self.might_be_terrorist == other.might_be_terrorist
    }

    proof fn lemma_same_rules(a: &Self, b: &Self, c: &Self) {
    }

    fn try_insert(&mut self, t: SM::Transition) -> (taken: bool)
        ensures
            old(self).judges(t, old(self).suspects(t)),
    {
        let suspicious = (self.might_be_terrorist)(t.duplicate());
        if suspicious {
            return false;
        }
        self.queue.push_back(t);
        true
    }

    fn remove(&mut self, t: SM::Transition) {
        self.queue = queue_without(&self.queue, &t);
    }

    fn size(&self) -> (n: usize) {
        self.queue.len()
    }

    fn contains(&self, t: SM::Transition) -> (held: bool) {
        queue_contains(&self.queue, &t)
    }

    fn next_from_pool(&mut self) -> (next: Option<SM::Transition>) {
        queue_pop(&mut self.queue)
    }

    fn transitions(&self) -> (listing: Vec<SM::Transition>) {
        queue_listing(&self.queue)
    }
}

/// Whether the priorities of a queue never rise from the front to the back.
pub open spec fn never_rising<T>(queue: Seq<T>, priority: spec_fn(T) -> u64) -> bool {
    forall|i: int, j: int| 0 <= i < j < queue.len() ==> priority(queue[i]) >= priority(queue[j])
}

/// Whether `at` is the place of the first transition of a queue whose
/// priority is below a given one, or the end of the queue where there is none.
pub open spec fn is_place_before_lower<T>(
    queue: Seq<T>,
    priority: spec_fn(T) -> u64,
    given: u64,
    at: int,
) -> bool {
    &&& 0 <= at <= queue.len()
    &&& at < queue.len() ==> priority(queue[at]) < given
    &&& forall|before: int| 0 <= before < at ==> priority(#[trigger] queue[before]) >= given
}

/// The place of the first transition of a queue whose priority is below a
/// given one, or the end of the queue where there is none.
pub open spec fn place_before_lower<T>(queue: Seq<T>, priority: spec_fn(T) -> u64, given: u64) -> int {
    choose|at: int| is_place_before_lower(queue, priority, given, at)
}

/// There is one place before the first transition of lower priority.
pub proof fn lemma_place_is_unique<T>(
    queue: Seq<T>,
    priority: spec_fn(T) -> u64,
    given: u64,
    at: int,
)
    requires
        is_place_before_lower(queue, priority, given, at),
    ensures
        place_before_lower(queue, priority, given) == at,
{
    let chosen = place_before_lower(queue, priority, given);
    assert(is_place_before_lower(queue, priority, given, chosen));
    if chosen < at {
        assert(priority(queue[chosen]) >= given);
    }
    if at < chosen {
        assert(priority(queue[at]) >= given);
    }
}

/// A queue in which the priorities never rise stays so when a transition is
/// put before the first one of lower priority.
pub proof fn lemma_insert_keeps_order<T>(
    queue: Seq<T>,
    priority: spec_fn(T) -> u64,
    t: T,
    at: int,
)
    requires
        never_rising(queue, priority),
        is_place_before_lower(queue, priority, priority(t), at),
    ensures
        never_rising(queue.insert(at, t), priority),
{
    let longer = queue.insert(at, t);
    assert forall|i: int, j: int| 0 <= i < j < longer.len() implies priority(longer[i])
        >= priority(longer[j]) by {
        if j < at {
            assert(longer[i] == queue[i] && longer[j] == queue[j]);
        } else if j == at {
            assert(longer[i] == queue[i]);
        } else if i < at {
            assert(longer[i] == queue[i] && longer[j] == queue[j - 1]);
            if at < queue.len() && at < j - 1 {
                assert(priority(queue[at]) >= priority(queue[j - 1]));
            }
        } else if i == at {
            assert(longer[j] == queue[j - 1]);
            if at < j - 1 {
                assert(priority(queue[at]) >= priority(queue[j - 1]));
            }
        } else {
            assert(longer[i] == queue[i - 1] && longer[j] == queue[j - 1]);
        }
    }
}

/// A queue in which the priorities never rise stays so when transitions leave it.
pub proof fn lemma_filter_keeps_order<T>(
    queue: Seq<T>,
    priority: spec_fn(T) -> u64,
    stays: spec_fn(T) -> bool,
)
    requires
        never_rising(queue, priority),
    ensures
        never_rising(queue.filter(stays), priority),
        forall|t: T| queue.filter(stays).contains(t) ==> queue.contains(t),
    decreases queue.len(),
{
    reveal(Seq::filter);
    if queue.len() > 0 {
        let shorter = queue.drop_last();
        assert(forall|i: int| 0 <= i < shorter.len() ==> shorter[i] == queue[i]);
        lemma_filter_keeps_order(shorter, priority, stays);
        let kept = shorter.filter(stays);
        assert forall|t: T| queue.filter(stays).contains(t) implies queue.contains(t) by {
            if kept.contains(t) {
                assert(shorter.contains(t));
                let at = choose|at: int| 0 <= at < shorter.len() && shorter[at] == t;
                assert(queue[at] == t);
            } else {
                assert(t == queue.last());
                assert(queue[queue.len() - 1] == t);
            }
        }
        if stays(queue.last()) {
            let longer = kept.push(queue.last());
            assert forall|i: int, j: int| 0 <= i < j < longer.len() implies priority(longer[i])
                >= priority(longer[j]) by {
                if j < kept.len() {
                    assert(longer[i] == kept[i] && longer[j] == kept[j]);
                } else {
                    assert(kept.contains(kept[i]));
                    assert(shorter.contains(kept[i]));
                    let at = choose|at: int| 0 <= at < shorter.len() && shorter[at] == kept[i];
                    assert(priority(queue[at]) >= priority(queue[queue.len() - 1]));
                }
            }
        }
    }
}

/// A pool that hands the transitions out by priority, the highest first, and
/// those of one priority in the order in which they came. It refuses the
/// transitions whose priority is below a minimum.
pub struct PriorityPool<SM: StateMachine, P: Fn(SM::Transition) -> u64> {
    /// Tells the priority of a transition.
    prioritizer: P,
    /// The least priority that is taken.
    minimum_priority: u64,
    queue: VecDeque<SM::Transition>,
}

impl<SM: StateMachine, P: Fn(SM::Transition) -> u64> View for PriorityPool<SM, P> {
    type V = Seq<SM::Transition>;

    closed spec fn view(&self) -> Seq<SM::Transition> {
        self.queue@
    }
}

impl<SM: StateMachine, P: Fn(SM::Transition) -> u64> PriorityPool<SM, P> {
    /// An empty pool that orders by the given priorities.
    pub fn new(prioritizer: P, minimum_priority: u64) -> (pool: Self)
        requires
            is_pure::<SM::Transition, u64, P>(prioritizer),
        ensures
            pool@ == Seq::<SM::Transition>::empty(),
            pool.wf(),
            pool.minimum() == minimum_priority,
            forall|t: SM::Transition, priority: u64|
                pool.ranks(t, priority) == call_ensures(prioritizer, (t,), priority),
    {
        PriorityPool { prioritizer, minimum_priority, queue: VecDeque::new() }
    }

    /// Whether the prioritizer may answer `priority` for a transition. It
    /// answers the same every time, so at most one priority is its answer.
    pub closed spec fn ranks(&self, t: SM::Transition, priority: u64) -> bool {
        call_ensures(self.prioritizer, (t,), priority)
    }

    /// What the pool takes, and where: it takes the transitions whose
    /// priority is no less than the minimum, each before the first
    /// transition of lower priority.
    pub proof fn lemma_rules(pool: &Self, t: SM::Transition)
        ensures
            pool.admits(t) == (pool.priority(t) >= pool.minimum()),
            pool.place(t) == place_before_lower(pool@, pool.priorities(), pool.priority(t)),
    {
    }

    /// Pools of the same rules give the same priorities and have the same minimum.
    pub proof fn lemma_same_priorities(a: &Self, b: &Self)
        requires
            a.same_rules(b),
        ensures
            a.minimum() == b.minimum(),
            forall|t: SM::Transition| a.priority(t) == b.priority(t),
            forall|t: SM::Transition, priority: u64| a.ranks(t, priority) == b.ranks(t, priority),
    {
    }

    /// The priority of a transition: the answer of the prioritizer.
    pub closed spec fn priority(&self, t: SM::Transition) -> u64 {
        answer_of::<SM::Transition, u64, P>(self.prioritizer, t)
    }

    /// The least priority that is taken.
    pub closed spec fn minimum(&self) -> u64 {
        self.minimum_priority
    }

    /// The priorities as a function.
    pub open spec fn priorities(&self) -> spec_fn(SM::Transition) -> u64 {
        |t: SM::Transition| self.priority(t)
    }

    /// The priority of a transition.
    fn priority_of(&self, t: &SM::Transition) -> (priority: u64)
        requires
            self.wf(),
        ensures
            priority == self.priority(*t),
            self.ranks(*t, priority),
    {
        (self.prioritizer)(t.duplicate())
    }

    /// The place at which a transition of a given priority enters the queue.
    fn place_for(&self, given: u64) -> (at: usize)
        requires
            self.wf(),
        ensures
            is_place_before_lower(self@, self.priorities(), given, at as int),
            at == place_before_lower(self@, self.priorities(), given),
    {
        let mut i: usize = 0;
        let mut found = false;
        while !found && i < self.queue.len()
            invariant
                i <= self.queue.len(),
                self.wf(),
                found ==> i < self.queue.len() && (self.priorities())(self@[i as int]) < given,
                forall|before: int|
                    0 <= before < i ==> (self.priorities())(#[trigger] self@[before]) >= given,
            decreases self.queue.len() - i + (if found { 0int } else { 1int }),
        {
            if self.priority_of(&self.queue[i]) < given {
                found = true;
            } else {
                i += 1;
            }
        }
        i
    }
}

impl<SM: StateMachine, P: Fn(SM::Transition) -> u64> TransactionPool<SM> for PriorityPool<SM, P> {
    closed spec fn wf(&self) -> bool {
        &&& is_pure::<SM::Transition, u64, P>(self.prioritizer)
        &&& never_rising(self@, self.priorities())
        &&& forall|at: int| 0 <= at < self@.len() ==> self.priority(#[trigger] self@[at]) >= self.minimum()
    }

    open spec fn admits(&self, t: SM::Transition) -> bool {
        self.priority(t) >= self.minimum()
    }

    open spec fn place(&self, t: SM::Transition) -> int {
        place_before_lower(self@, self.priorities(), self.priority(t))
    }

    closed spec fn same_rules(&self, other: &Self) -> bool {
        self.prioritizer == other.prioritizer && self.minimum_priority == other.minimum_priority
    }

    proof fn lemma_same_rules(a: &Self, b: &Self, c: &Self) {
    }

    fn try_insert(&mut self, t: SM::Transition) -> (taken: bool)
        ensures
            old(self).ranks(t, old(self).priority(t)),
    {
        let prio = self.priority_of(&t);
        let at = self.place_for(prio);
        if prio < self.minimum_priority {
            return false;
        }
        self.queue.insert(at, t);
        true
    }

    fn remove(&mut self, t: SM::Transition) {
        proof {
            lemma_filter_keeps_order(self@, self.priorities(), |queued: SM::Transition| queued != t);
        }
        self.queue = queue_without(&self.queue, &t);
        proof {
            assert forall|i: int| 0 <= i < self@.len() implies self.priority(#[trigger] self@[i])
                >= self.minimum() by {
                assert(self@.contains(self@[i]));
                assert(old(self)@.contains(self@[i]));
            }
        }
    }

    fn size(&self) -> (n: usize) {
        self.queue.len()
    }

    fn contains(&self, t: SM::Transition) -> (held: bool) {
        queue_contains(&self.queue, &t)
    }

    fn next_from_pool(&mut self) -> (next: Option<SM::Transition>)
        ensures
            next matches Some(t) ==> forall|at: int|
                0 <= at < final(self)@.len() ==> old(self).priority(#[trigger] final(self)@[at])
                    <= old(self).priority(t),
    {
        let next = queue_pop(&mut self.queue);
        next
    }

    fn transitions(&self) -> (listing: Vec<SM::Transition>) {
        queue_listing(&self.queue)
    }
}

/// The priority for a pool that ranks nothing: every transition has priority 0.
pub fn default_prioritizer<T>(t: T) -> (priority: u64)
    ensures
        priority == 0,
{
    0
}

/// An empty pool that ranks nothing and takes everything: the pool of
/// `default_prioritizer` and the minimum 0.
pub fn default_priority_pool<SM: StateMachine>() -> (pool: PriorityPool<
    SM,
    impl Fn(SM::Transition) -> u64,
>)
    ensures
        pool@ == Seq::<SM::Transition>::empty(),
        pool.wf(),
        pool.minimum() == 0,
        forall|t: SM::Transition, priority: u64| pool.ranks(t, priority) ==> priority == 0,
{
    PriorityPool::new(default_prioritizer::<SM::Transition>, 0)
}

} // verus!
