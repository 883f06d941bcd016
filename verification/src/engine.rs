//! The execution engine's verified core: the capability interface of
//! the collection under test, the per-worker hot loop, the prefill
//! phase, and the run arithmetic (each worker's share of the total
//! operation count and the count the run really executes).

use vstd::prelude::*;
use vstd::string::StringExecFns;
use crate::keys::{FromU64, Keys, PoolError};
use crate::mix::Operation;
use rand::Rng;

verus! {

/// A collection that the engine can benchmark. Any thread performing
/// operations first calls `pin` and then works through the returned
/// handle; `pin` is never called in the hot loop.
pub trait Collection: Send + Sync + Sized {
    type Handle: CollectionHandle;

    fn pin(&self) -> Self::Handle;

    /// Lifecycle hook, called exactly once after the prefill phase
    /// and before any worker starts its timed loop.
    fn prefill_complete(&self);
}

/// A per-thread handle to a key-value collection. Every call reports
/// bare success or failure; what failure means (key absent, already
/// present) is the collection's business, not the engine's.
pub trait CollectionHandle {
    type Key: Clone + Send + Sync + FromU64;

    fn get(&self, key: &Self::Key) -> bool;

    fn insert(&self, key: Self::Key) -> bool;

    fn remove(&self, key: &Self::Key) -> bool;

    fn update(&self, key: &Self::Key) -> bool;
}

/// A benchmark value that can be modified in place.
pub trait ValueModifier: Sized {
    /// Whether the value can take one more modification.
    spec fn can_modify(&self) -> bool;

    /// Whether `r` is the value after one modification of `self`.
    spec fn modifies_to(&self, r: Self) -> bool;

    fn modify(&mut self)
        requires
            old(self).can_modify(),
        ensures
            old(self).modifies_to(*final(self)),
    ;
}

impl ValueModifier for u64 {
    open spec fn can_modify(&self) -> bool {
        *self < u64::MAX
    }

    open spec fn modifies_to(&self, r: Self) -> bool {
        r == *self + 1
    }

    fn modify(&mut self) {
        *self = *self + 1;
    }
}

impl ValueModifier for String {
    open spec fn can_modify(&self) -> bool {
        true
    }

    open spec fn modifies_to(&self, r: Self) -> bool {
        r@ == self@ + seq!['X']
    }

    fn modify(&mut self) {
        proof {
            reveal_strlit("X");
            assert("X"@ =~= seq!['X']);
        }
        self.append("X");
    }
}

/// Parameters of one benchmark run, read-only while it executes.
#[derive(Debug, Clone)]
pub struct SharedMapTestConfig {
    pub thread_count: usize,
    pub total_ops: usize,
    pub prefill: usize,
    pub operations: Vec<Operation>,
    pub keys_needed_per_thread: usize,
}

/// The operation dispatched at hot-loop step `i`: workers cycle
/// through the expanded mix.
pub open spec fn op_at(ops: Seq<Operation>, i: int) -> Operation
    recommends
        ops.len() > 0,
{
    ops[i % (ops.len() as int)]
}

/// Whether some step before `n` dispatches `op`.
pub open spec fn dispatches(ops: Seq<Operation>, n: int, op: Operation) -> bool {
    exists|i: int| 0 <= i < n && #[trigger] op_at(ops, i) == op
}

/// Whether some step before `n` looks a key up at a random index:
/// everything but an insert does.
pub open spec fn dispatches_lookup(ops: Seq<Operation>, n: int) -> bool {
    ||| dispatches(ops, n, Operation::Read)
    ||| dispatches(ops, n, Operation::Remove)
    ||| dispatches(ops, n, Operation::Update)
    ||| dispatches(ops, n, Operation::Upsert)
}

/// Relies on rand's `Rng::gen` for `usize`: a fresh random index; no
/// property of the value itself is assumed.
#[verifier::external_body]
fn random_usize() -> usize {
    rand::thread_rng().gen::<usize>()
}

/// One worker's timed hot loop. The worker's insert quota `new_keys`
/// is allocated beforehand — untimed setup, before the rendezvous
/// barrier — and the loop itself only reads the shared pool, so any
/// number of workers run it concurrently. It performs
/// `ops_per_thread` operations, cycling through the expanded mix: a
/// read, remove, update or upsert goes to a random already-allocated
/// key (an upsert is dispatched to `update`, exactly like an update);
/// an insert takes the next key of the quota, cycling back to its
/// start when the loop needs more inserts than were allocated.
/// Returns how many operations reported failure — failures are
/// expected under contention and never abort the run.
pub fn run_ops<H: CollectionHandle>(
    dict: &H,
    keys: &Keys<H::Key>,
    op_mix: &Vec<Operation>,
    ops_per_thread: usize,
    new_keys: &Vec<H::Key>,
) -> (failures: usize)
    requires
        keys.wf(),
        op_mix@.len() > 0,
        dispatches(op_mix@, ops_per_thread as int, Operation::Insert) ==> new_keys@.len() > 0,
        dispatches_lookup(op_mix@, ops_per_thread as int) ==> keys.cursor() > 0,
    ensures
        failures <= ops_per_thread,
{
    let op_mix_count = op_mix.len();
    let quota = new_keys.len();
    let mut failures: usize = 0;
    let mut next_insert: usize = 0;
    let mut i: usize = 0;
    while i < ops_per_thread
        invariant
            keys.wf(),
            op_mix@.len() == op_mix_count,
            op_mix_count > 0,
            new_keys@.len() == quota,
            dispatches(op_mix@, ops_per_thread as int, Operation::Insert) ==> quota > 0,
            dispatches_lookup(op_mix@, ops_per_thread as int) ==> keys.cursor() > 0,
            failures <= i,
            next_insert <= i,
            i <= ops_per_thread,
        decreases ops_per_thread - i,
    {
        let op = op_mix[i % op_mix_count];
        proof {
            assert(op_at(op_mix@, i as int) == op);
        }
        let r = random_usize();
        let success = match op {
            Operation::Read => dict.get(&keys.random(r)),
            Operation::Insert => {
                let key = new_keys[next_insert % quota].clone_key();
                next_insert = next_insert + 1;
                dict.insert(key)
            },
            Operation::Remove => dict.remove(&keys.random(r)),
            Operation::Update => dict.update(&keys.random(r)),
            Operation::Upsert => dict.update(&keys.random(r)),
        };
        if !success {
            failures = failures + 1;
        }
        i = i + 1;
    }
    failures
}

/// The prefill phase: allocates `prefill` keys from the pool and
/// inserts each into the collection through the given handle,
/// establishing baseline occupancy before any timed loop starts.
pub fn prefill_collection<H: CollectionHandle>(
    handle: &H,
    keys: &mut Keys<H::Key>,
    prefill: usize,
) -> (r: Result<(), PoolError>)
    requires
        old(keys).wf(),
    ensures
        final(keys).wf(),
        final(keys).keys_seq() == old(keys).keys_seq(),
        old(keys).cursor() + prefill <= old(keys).keys_seq().len() ==> r is Ok && final(keys).cursor()
            == old(keys).cursor() + prefill,
        old(keys).cursor() + prefill > old(keys).keys_seq().len() ==> r == Result::<
            (),
            PoolError,
        >::Err(PoolError::Exhausted) && final(keys).cursor() == old(keys).cursor(),
{
    let new_keys = match keys.alloc_n(prefill) {
        Ok(v) => v,
        Err(e) => {
            return Err(e);
        },
    };
    let mut i: usize = 0;
    while i < new_keys.len()
        invariant
            i <= new_keys@.len(),
        decreases new_keys@.len() - i,
    {
        handle.insert(new_keys[i].clone_key());
        i = i + 1;
    }
    Ok(())
}

/// Each worker's share of the run: integer division truncates, so
/// remainder operations are dropped by design, never executed.
pub fn ops_per_thread(total_ops: usize, thread_count: usize) -> (r: usize)
    requires
        thread_count > 0,
    ensures
        r == total_ops / thread_count,
{
    total_ops / thread_count
}

/// The number of operations the run really executes:
/// `(total_ops / thread_count) * thread_count` exactly — the
/// documented truncation, never a rounding up.
pub fn real_total_ops(total_ops: usize, thread_count: usize) -> (r: usize)
    requires
        thread_count > 0,
    ensures
        r == (total_ops / thread_count) * thread_count,
        r <= total_ops,
{
    let per = total_ops / thread_count;
    proof {
        vstd::arithmetic::div_mod::lemma_fundamental_div_mod(total_ops as int, thread_count as int);
        vstd::arithmetic::div_mod::lemma_mod_bound(total_ops as int, thread_count as int);
    }
    per * thread_count
}

} // verus!
