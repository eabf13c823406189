//! A table from the weight of a chain to the hash of its tip, kept in the
//! order of the weights.

use std::collections::BTreeMap;
use vstd::prelude::*;
use vstd::std_specs::btree::axiom_increasing_seq_meaning;
use vstd::std_specs::cmp::OrdSpec;
use vstd::std_specs::iter::IteratorSpec;

verus! {

broadcast use {vstd::std_specs::btree::group_btree_axioms, vstd::laws_cmp::group_laws_cmp};

/// Whether some chain of the table ends in `tip`.
pub open spec fn tracks(table: Map<u64, u64>, tip: u64) -> bool {
    exists|weight: u64| table.contains_key(weight) && table[weight] == tip
}

/// Whether `weight` is the least weight under which `tip` stands.
pub open spec fn is_lightest_of(table: Map<u64, u64>, tip: u64, weight: u64) -> bool {
    &&& table.contains_key(weight)
    &&& table[weight] == tip
    &&& forall|other: u64| table.contains_key(other) && table[other] == tip ==> weight <= other
}

/// The least weight under which `tip` stands.
pub open spec fn lightest_of(table: Map<u64, u64>, tip: u64) -> u64 {
    choose|weight: u64| is_lightest_of(table, tip, weight)
}

/// Whether `weight` is the greatest weight of the table.
pub open spec fn is_top(table: Map<u64, u64>, weight: u64) -> bool {
    &&& table.contains_key(weight)
    &&& forall|other: u64| table.contains_key(other) ==> other <= weight
}

/// The tip of the heaviest chain, if the table holds a chain.
pub open spec fn best_tip(table: Map<u64, u64>) -> Option<u64> {
    if exists|weight: u64| is_top(table, weight) {
        Some(table[choose|weight: u64| is_top(table, weight)])
    } else {
        None
    }
}

/// A weight with a gain added, which stays at `u64::MAX` once it is there.
pub open spec fn capped_sum(weight: u64, gain: u64) -> u64 {
    if weight + gain > u64::MAX {
        u64::MAX
    } else {
        (weight + gain) as u64
    }
}

/// The table after a block was imported. A block that is a tip already
/// changes nothing. A block whose parent is a tip takes the place of that
/// tip, under the weight of the parent and what the block adds to it. Any
/// other block starts a chain of its own. An entry that meets another under
/// one weight takes its place.
pub open spec fn advanced(table: Map<u64, u64>, parent: u64, tip: u64, gain: u64) -> Map<u64, u64> {
    if tracks(table, tip) {
        table
    } else if tracks(table, parent) {
        let weight = lightest_of(table, parent);
        table.remove(weight).insert(capped_sum(weight, gain), tip)
    } else {
        table.insert(gain, tip)
    }
}

/// Importing a block a second time changes nothing.
pub proof fn lemma_advanced_idempotent(table: Map<u64, u64>, parent: u64, tip: u64, gain: u64)
    ensures
        advanced(advanced(table, parent, tip, gain), parent, tip, gain) == advanced(
            table,
            parent,
            tip,
            gain,
        ),
{
    let once = advanced(table, parent, tip, gain);
    if !tracks(table, tip) {
        if tracks(table, parent) {
            let weight = lightest_of(table, parent);
            assert(once.contains_key(capped_sum(weight, gain)) && once[capped_sum(weight, gain)]
                == tip);
        } else {
            assert(once.contains_key(gain) && once[gain] == tip);
        }
    }
    assert(tracks(once, tip));
}

/// Whether no tip stands under two weights.
pub open spec fn tips_distinct(table: Map<u64, u64>) -> bool {
    forall|one: u64, other: u64|
        table.contains_key(one) && table.contains_key(other) && table[one] == table[other]
            ==> one == other
}

/// A table in which no tip stands under two weights stays so by an import:
/// the tip of a chain tells the chain.
pub proof fn lemma_advanced_keeps_tips_distinct(
    table: Map<u64, u64>,
    parent: u64,
    tip: u64,
    gain: u64,
)
    requires
        tips_distinct(table),
    ensures
        tips_distinct(advanced(table, parent, tip, gain)),
{
    let after = advanced(table, parent, tip, gain);
    assert forall|one: u64, other: u64|
        after.contains_key(one) && after.contains_key(other) && after[one]
            == after[other] implies one == other by {
        if !tracks(table, tip) {
            if tracks(table, parent) {
                let moved = lightest_of(table, parent);
                let grown = capped_sum(moved, gain);
                if one != grown {
                    assert(table.contains_key(one) && table[one] == after[one]);
                }
                if other != grown {
                    assert(table.contains_key(other) && table[other] == after[other]);
                }
            } else {
                if one != gain {
                    assert(table.contains_key(one) && table[one] == after[one]);
                }
                if other != gain {
                    assert(table.contains_key(other) && table[other] == after[other]);
                }
            }
        }
    }
}

/// No import takes weight away: under every weight of the table there is,
/// after an import, a weight that is no less.
pub proof fn lemma_advanced_keeps_weight(
    table: Map<u64, u64>,
    parent: u64,
    tip: u64,
    gain: u64,
    weight: u64,
)
    requires
        table.contains_key(weight),
    ensures
        exists|later: u64|
            weight <= later && #[trigger] advanced(table, parent, tip, gain).contains_key(later),
{
    let after = advanced(table, parent, tip, gain);
    if !tracks(table, tip) && tracks(table, parent) {
        let moved = lightest_of(table, parent);
        if weight == moved {
            assert(after.contains_key(capped_sum(moved, gain)));
        } else {
            assert(after.contains_key(weight));
        }
    } else {
        assert(after.contains_key(weight));
    }
}

/// The greatest weight of the table never falls by an import.
pub proof fn lemma_top_weight_monotonic(
    table: Map<u64, u64>,
    parent: u64,
    tip: u64,
    gain: u64,
    before: u64,
    after: u64,
)
    requires
        is_top(table, before),
        is_top(advanced(table, parent, tip, gain), after),
    ensures
        before <= after,
{
    lemma_advanced_keeps_weight(table, parent, tip, gain, before);
}

/// The weights of the chains that a node follows, each with the tip of its chain.
pub struct TipWeights {
    tips: BTreeMap<u64, u64>,
}

impl View for TipWeights {
    type V = Map<u64, u64>;

    closed spec fn view(&self) -> Map<u64, u64> {
        self.tips@
    }
}

impl TipWeights {
    /// A table without chains.
    pub fn new() -> (table: Self)
        ensures
            table@ == Map::<u64, u64>::empty(),
    {
        TipWeights { tips: BTreeMap::new() }
    }

    /// The tip of the heaviest chain.
    pub fn best(&self) -> (best: Option<u64>)
        ensures
            best == best_tip(self@),
    {
        let mut best: Option<(u64, u64)> = None;
        let it = self.tips.iter();
        let ghost entries = IteratorSpec::remaining(&it);
        let ghost weights = entries.map_values(|entry: (&u64, &u64)| *entry.0);
        proof {
            axiom_increasing_seq_meaning::<u64>(weights);
            assert forall|i: int, j: int| 0 <= i < j < weights.len() implies weights[i]
                < weights[j] by {
                assert(weights[i].cmp_spec(&weights[j]) is Less);
            }
        }
        for entry in iter: it
            invariant
                iter.seq() == entries,
                best is None <==> iter.index() == 0,
                best matches Some((weight, tip)) ==> weight == *entries[iter.index() - 1].0 && tip
                    == *entries[iter.index() - 1].1,
        {
            let (weight, tip) = entry;
            best = Some((*weight, *tip));
        }
        match best {
            Some((weight, tip)) => {
                proof {
                    assert(weights[entries.len() - 1] == weight);
                    assert forall|other: u64| self@.contains_key(other) implies other <= weight by {
                        assert(entries.contains((&other, &self@[other])));
                        let at = choose|at: int|
                            0 <= at < entries.len() && entries[at] == (&other, &self@[other]);
                        assert(weights[at] == other);
                    }
                    assert(is_top(self@, weight));
                }
                Some(tip)
            },
            None => {
                None
            },
        }
    }

    /// The least weight under which a tip stands, if it stands in the table.
    pub fn weight_of(&self, tip: u64) -> (found: Option<u64>)
        ensures
            match found {
                Some(weight) => is_lightest_of(self@, tip, weight) && lightest_of(self@, tip)
                    == weight,
                None => !tracks(self@, tip),
            },
    {
        let mut found: Option<u64> = None;
        let ghost mut first: int = 0;
        let it = self.tips.iter();
        let ghost entries = IteratorSpec::remaining(&it);
        let ghost weights = entries.map_values(|entry: (&u64, &u64)| *entry.0);
        proof {
            axiom_increasing_seq_meaning::<u64>(weights);
            assert forall|i: int, j: int| 0 <= i < j < weights.len() implies weights[i]
                < weights[j] by {
                assert(weights[i].cmp_spec(&weights[j]) is Less);
            }
        }
        for entry in iter: it
            invariant
                iter.seq() == entries,
                weights == entries.map_values(|entry: (&u64, &u64)| *entry.0),
                forall|i: int, j: int| 0 <= i < j < weights.len() ==> weights[i] < weights[j],
                forall|at: int|
                    0 <= at < entries.len() ==> self@.contains_key(*(#[trigger] entries[at]).0)
                        && self@[*entries[at].0] == *entries[at].1,
                found is None ==> forall|at: int|
                    0 <= at < iter.index() ==> *(#[trigger] entries[at]).1 != tip,
                found matches Some(weight) ==> 0 <= first < iter.index() && weights[first]
                    == weight && *entries[first].1 == tip && forall|at: int|
                    0 <= at < first ==> *(#[trigger] entries[at]).1 != tip,
        {
            let (weight, held) = entry;
            if found.is_none() && *held == tip {
                found = Some(*weight);
                proof {
                    first = iter.index();
                }
            }
        }
        proof {
            match found {
                Some(weight) => {
                    assert(*entries[first].0 == weight);
                    assert forall|other: u64|
                        self@.contains_key(other) && self@[other] == tip implies weight
                        <= other by {
                        assert(entries.contains((&other, &self@[other])));
                        let at = choose|at: int|
                            0 <= at < entries.len() && entries[at] == (&other, &self@[other]);
                        assert(weights[at] == other);
                        if at < first {
                            assert(*entries[at].1 != tip);
                        }
                    }
                    assert(is_lightest_of(self@, tip, weight));
                    let chosen = lightest_of(self@, tip);
                    assert(is_lightest_of(self@, tip, chosen));
                },
                None => {
                    if tracks(self@, tip) {
                        let other = choose|other: u64|
                            self@.contains_key(other) && self@[other] == tip;
                        assert(entries.contains((&other, &self@[other])));
                        let at = choose|at: int|
                            0 <= at < entries.len() && entries[at] == (&other, &self@[other]);
                        assert(*entries[at].1 != tip);
                    }
                },
            }
        }
        found
    }

    /// Takes a block into the table: `tip` is its hash, `parent` the hash of
    /// its parent, `gain` what it adds to the weight of its chain.
    pub fn advance(&mut self, parent: u64, tip: u64, gain: u64)
        ensures
            final(self)@ == advanced(old(self)@, parent, tip, gain),
    {
        if self.weight_of(tip).is_some() {
            return ;
        }
        match self.weight_of(parent) {
            Some(weight) => {
                let grown = if gain > u64::MAX - weight {
                    u64::MAX
                } else {
                    weight + gain
                };
                self.tips.remove(&weight);
                self.tips.insert(grown, tip);
            },
            None => {
                self.tips.insert(gain, tip);
            },
        }
    }
}

} // verus!
