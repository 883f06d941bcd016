//! The operation-mix model: a declared distribution over operation
//! kinds, and its expansion into a concrete shuffled sequence of tags
//! that every worker cycles through.

use vstd::prelude::*;
use rand::seq::SliceRandom;

verus! {

broadcast use vstd::seq_lib::group_to_multiset_ensures, vstd::multiset::group_multiset_axioms;

/// One benchmark operation against the collection under test.
#[derive(Clone, Copy, Debug, PartialEq, Eq, Structural)]
pub enum Operation {
    Read,
    Insert,
    Remove,
    Update,
    Upsert,
}

/// Target proportions of operation kinds, expressed as parts of the
/// whole (the named presets sum to 100).
#[derive(Clone, Copy, Debug)]
pub struct Mix {
    pub read: usize,
    pub insert: usize,
    pub remove: usize,
    pub update: usize,
    pub upsert: usize,
}

impl Mix {
    /// The weight this mix gives to one operation kind.
    pub open spec fn spec_weight(self, op: Operation) -> usize {
        match op {
            Operation::Read => self.read,
            Operation::Insert => self.insert,
            Operation::Remove => self.remove,
            Operation::Update => self.update,
            Operation::Upsert => self.upsert,
        }
    }

    /// Total of the five weights: the length of the expanded sequence.
    pub open spec fn spec_total(self) -> int {
        self.read + self.insert + self.remove + self.update + self.upsert
    }

    /// A very read-heavy workload (~95% reads) with limited
    /// concurrent modification.
    pub fn read_heavy() -> (r: Self)
        ensures
            r == (Mix { read: 95, insert: 2, remove: 1, update: 1, upsert: 1 }),
    {
        Mix { read: 95, insert: 2, remove: 1, update: 1, upsert: 1 }
    }

    /// A workload of 99% reads and 1% inserts.
    pub fn read_99() -> (r: Self)
        ensures
            r == (Mix { read: 99, insert: 1, remove: 0, update: 0, upsert: 0 }),
    {
        Mix { read: 99, insert: 1, remove: 0, update: 0, upsert: 0 }
    }

    /// A read-only workload.
    pub fn read_100() -> (r: Self)
        ensures
            r == (Mix { read: 100, insert: 0, remove: 0, update: 0, upsert: 0 }),
    {
        Mix { read: 100, insert: 0, remove: 0, update: 0, upsert: 0 }
    }

    /// Expands the mix into a concrete operation sequence: each kind
    /// appears exactly as often as its weight says, in a uniformly
    /// shuffled order.
    pub fn to_ops(&self) -> (r: Vec<Operation>)
        ensures
            r@.len() == self.spec_total(),
            forall|op: Operation| #[trigger] r@.to_multiset().count(op) == self.spec_weight(op),
    {
        let mut list: Vec<Operation> = Vec::new();
        push_repeated(&mut list, Operation::Read, self.read);
        push_repeated(&mut list, Operation::Insert, self.insert);
        push_repeated(&mut list, Operation::Remove, self.remove);
        push_repeated(&mut list, Operation::Update, self.update);
        push_repeated(&mut list, Operation::Upsert, self.upsert);
        shuffle_ops(&mut list);
        list
    }
}

/// Appends `n` copies of `op`, leaving every other kind's count as it
/// was.
fn push_repeated(list: &mut Vec<Operation>, op: Operation, n: usize)
    ensures
        final(list)@.len() == old(list)@.len() + n,
        final(list)@.to_multiset().count(op) == old(list)@.to_multiset().count(op) + n,
        forall|other: Operation|
            other != op ==> final(list)@.to_multiset().count(other) == old(
                list,
            )@.to_multiset().count(other),
{
    let mut k: usize = 0;
    while k < n
        invariant
            k <= n,
            list@.len() == old(list)@.len() + k,
            list@.to_multiset().count(op) == old(list)@.to_multiset().count(op) + k,
            forall|other: Operation|
                other != op ==> list@.to_multiset().count(other) == old(
                    list,
                )@.to_multiset().count(other),
        decreases n - k,
    {
        list.push(op);
        k = k + 1;
    }
}

/// Law: shuffling is a permutation, not a resample. An operation
/// sequence carries nothing beyond the count of each kind, so any two
/// sequences that give every kind the same count — as the expansion
/// before and after its shuffle does — hold identical multisets of
/// tags.
pub proof fn lemma_same_counts_same_multiset(a: Seq<Operation>, b: Seq<Operation>)
    requires
        forall|op: Operation| a.to_multiset().count(op) == b.to_multiset().count(op),
    ensures
        a.to_multiset() == b.to_multiset(),
{
    assert(a.to_multiset() =~= b.to_multiset());
}

/// Relies on rand's `SliceRandom::shuffle`: it permutes the slice in
/// place, so the multiset of elements (and hence the length) is
/// unchanged.
#[verifier::external_body]
fn shuffle_ops(list: &mut Vec<Operation>)
    ensures
        final(list)@.to_multiset() == old(list)@.to_multiset(),
        final(list)@.len() == old(list)@.len(),
{
    list.shuffle(&mut rand::thread_rng());
}

} // verus!
