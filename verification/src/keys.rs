//! The key pool: a fixed universe of pairwise-distinct keys produced
//! from random 64-bit values, with a cursor that hands out contiguous,
//! never-overlapping ranges, plus random-access lookup into the
//! already-allocated prefix.

use vstd::prelude::*;
use vstd::string::StringExecFns;
use std::collections::HashSet;
use rand::Rng;

verus! {

broadcast use vstd::std_specs::hash::group_hash_axioms, vstd::seq_lib::lemma_seq_contains_after_push, vstd::seq_lib::seq_to_set_is_finite;

/// The lowercase hexadecimal digit character for a value below
/// sixteen.
pub open spec fn hex_digit(d: u64) -> char {
    if d == 0 {
        '0'
    } else if d == 1 {
        '1'
    } else if d == 2 {
        '2'
    } else if d == 3 {
        '3'
    } else if d == 4 {
        '4'
    } else if d == 5 {
        '5'
    } else if d == 6 {
        '6'
    } else if d == 7 {
        '7'
    } else if d == 8 {
        '8'
    } else if d == 9 {
        '9'
    } else if d == 10 {
        'a'
    } else if d == 11 {
        'b'
    } else if d == 12 {
        'c'
    } else if d == 13 {
        'd'
    } else if d == 14 {
        'e'
    } else {
        'f'
    }
}

/// The lowercase hexadecimal representation of `v`: most significant
/// digit first, no leading zeros, a single `'0'` for zero.
pub open spec fn hex_chars(v: u64) -> Seq<char>
    decreases v,
{
    if v < 16 {
        seq![hex_digit(v)]
    } else {
        hex_chars(v / 16).push(hex_digit(v % 16))
    }
}

proof fn lemma_hex_digit_injective(a: u64, b: u64)
    requires
        a < 16,
        b < 16,
        hex_digit(a) == hex_digit(b),
    ensures
        a == b,
{
}

proof fn lemma_hex_chars_nonempty(v: u64)
    ensures
        hex_chars(v).len() >= 1,
    decreases v,
{
    if v >= 16 {
        lemma_hex_chars_nonempty(v / 16);
    }
}

/// Two distinct values never share a hexadecimal representation.
pub proof fn lemma_hex_chars_injective(a: u64, b: u64)
    requires
        hex_chars(a) == hex_chars(b),
    ensures
        a == b,
    decreases a,
{
    if a < 16 && b < 16 {
        assert(hex_chars(a)[0] == hex_digit(a));
        assert(hex_chars(b)[0] == hex_digit(b));
        lemma_hex_digit_injective(a, b);
    } else if a < 16 {
        lemma_hex_chars_nonempty(b / 16);
        assert(hex_chars(b).len() >= 2);
    } else if b < 16 {
        lemma_hex_chars_nonempty(a / 16);
        assert(hex_chars(a).len() >= 2);
    } else {
        let s1 = hex_chars(a / 16);
        let s2 = hex_chars(b / 16);
        let d1 = hex_digit(a % 16);
        let d2 = hex_digit(b % 16);
        assert(s1.push(d1).len() == s2.push(d2).len());
        assert(s1.push(d1)[s1.len() as int] == d1);
        assert(s2.push(d2)[s2.len() as int] == d2);
        lemma_hex_digit_injective(a % 16, b % 16);
        assert(s1 =~= s2) by {
            assert forall|i: int| 0 <= i < s1.len() implies s1[i] == s2[i] by {
                assert(s1.push(d1)[i] == s1[i]);
                assert(s2.push(d2)[i] == s2[i]);
            }
        }
        lemma_hex_chars_injective(a / 16, b / 16);
        assert(a == 16 * (a / 16) + (a % 16)) by {
            vstd::arithmetic::div_mod::lemma_fundamental_div_mod(a as int, 16);
        }
        assert(b == 16 * (b / 16) + (b % 16)) by {
            vstd::arithmetic::div_mod::lemma_fundamental_div_mod(b as int, 16);
        }
    }
}

fn hex_digit_str(d: u64) -> (r: &'static str)
    requires
        d < 16,
    ensures
        r@ == seq![hex_digit(d)],
{
    if d == 0 {
        proof {
            reveal_strlit("0");
            assert("0"@ =~= seq![hex_digit(d)]);
        }
        "0"
    } else if d == 1 {
        proof {
            reveal_strlit("1");
            assert("1"@ =~= seq![hex_digit(d)]);
        }
        "1"
    } else if d == 2 {
        proof {
            reveal_strlit("2");
            assert("2"@ =~= seq![hex_digit(d)]);
        }
        "2"
    } else if d == 3 {
        proof {
            reveal_strlit("3");
            assert("3"@ =~= seq![hex_digit(d)]);
        }
        "3"
    } else if d == 4 {
        proof {
            reveal_strlit("4");
            assert("4"@ =~= seq![hex_digit(d)]);
        }
        "4"
    } else if d == 5 {
        proof {
            reveal_strlit("5");
            assert("5"@ =~= seq![hex_digit(d)]);
        }
        "5"
    } else if d == 6 {
        proof {
            reveal_strlit("6");
            assert("6"@ =~= seq![hex_digit(d)]);
        }
        "6"
    } else if d == 7 {
        proof {
            reveal_strlit("7");
            assert("7"@ =~= seq![hex_digit(d)]);
        }
        "7"
    } else if d == 8 {
        proof {
            reveal_strlit("8");
            assert("8"@ =~= seq![hex_digit(d)]);
        }
        "8"
    } else if d == 9 {
        proof {
            reveal_strlit("9");
            assert("9"@ =~= seq![hex_digit(d)]);
        }
        "9"
    } else if d == 10 {
        proof {
            reveal_strlit("a");
            assert("a"@ =~= seq![hex_digit(d)]);
        }
        "a"
    } else if d == 11 {
        proof {
            reveal_strlit("b");
            assert("b"@ =~= seq![hex_digit(d)]);
        }
        "b"
    } else if d == 12 {
        proof {
            reveal_strlit("c");
            assert("c"@ =~= seq![hex_digit(d)]);
        }
        "c"
    } else if d == 13 {
        proof {
            reveal_strlit("d");
            assert("d"@ =~= seq![hex_digit(d)]);
        }
        "d"
    } else if d == 14 {
        proof {
            reveal_strlit("e");
            assert("e"@ =~= seq![hex_digit(d)]);
        }
        "e"
    } else {
        proof {
            reveal_strlit("f");
            assert("f"@ =~= seq![hex_digit(d)]);
        }
        "f"
    }
}

/// Lowercase hexadecimal encoding of `value`.
pub fn hex_string(value: u64) -> (r: String)
    ensures
        r@ == hex_chars(value),
    decreases value,
{
    if value < 16 {
        String::from_str(hex_digit_str(value))
    } else {
        let mut s = hex_string(value / 16);
        s.append(hex_digit_str(value % 16));
        proof {
            assert(s@ =~= hex_chars(value));
        }
        s
    }
}

/// A key type constructible from a raw 64-bit value so that distinct
/// raw values give distinct keys. New key types need only this one
/// conversion.
pub trait FromU64: Sized {
    /// Whether `self` is the key that encodes the raw value `raw`.
    spec fn encodes(&self, raw: u64) -> bool;

    /// Keys encoding distinct raw values are themselves distinct.
    proof fn lemma_encodes_injective(k1: Self, k2: Self, r1: u64, r2: u64)
        requires
            k1.encodes(r1),
            k2.encodes(r2),
            r1 != r2,
        ensures
            k1 != k2,
    ;

    fn from_u64(value: u64) -> (r: Self)
        ensures
            r.encodes(value),
    ;

    /// An exact copy of the key, for handing pool entries out.
    fn clone_key(&self) -> (r: Self)
        ensures
            r == *self,
    ;
}

impl FromU64 for u64 {
    open spec fn encodes(&self, raw: u64) -> bool {
        *self == raw
    }

    proof fn lemma_encodes_injective(k1: Self, k2: Self, r1: u64, r2: u64) {
    }

    fn from_u64(value: u64) -> (r: Self) {
        value
    }

    fn clone_key(&self) -> (r: Self) {
        *self
    }
}

impl FromU64 for String {
    open spec fn encodes(&self, raw: u64) -> bool {
        self@ == hex_chars(raw)
    }

    proof fn lemma_encodes_injective(k1: Self, k2: Self, r1: u64, r2: u64) {
        if k1 == k2 {
            lemma_hex_chars_injective(r1, r2);
        }
    }

    fn from_u64(value: u64) -> (r: Self) {
        hex_string(value)
    }

    fn clone_key(&self) -> (r: Self) {
        self.clone()
    }
}

/// Raised when an allocation asks for more keys than the pool still
/// holds: a configuration error, the pool was sized too small for the
/// prefill plus the per-thread insert quotas.
#[derive(Clone, Copy, Debug, PartialEq, Eq, Structural)]
pub enum PoolError {
    Exhausted,
}

/// All elements of `s` are pairwise distinct.
pub open spec fn pairwise_distinct<TK>(s: Seq<TK>) -> bool {
    forall|i: int, j: int| 0 <= i < j < s.len() ==> s[i] != s[j]
}

/// Whether `k` is the conversion of some raw 64-bit value.
pub open spec fn encodes_some_raw<TK: FromU64>(k: TK) -> bool {
    exists|raw: u64| k.encodes(raw)
}

/// Relies on rand's `Rng::gen` for `u64`: a fresh random value; no
/// property of the value itself is assumed.
#[verifier::external_body]
fn random_u64() -> u64 {
    rand::thread_rng().gen::<u64>()
}

/// Pigeonhole step for the duplicate-draw fallback: if every value
/// below `c` lies in the finite set `s`, the set has at least `c`
/// elements.
proof fn lemma_all_below_in_set(s: Set<u64>, c: int)
    requires
        s.finite(),
        0 <= c <= u64::MAX as int + 1,
        forall|x: u64| (x as int) < c ==> s.contains(x),
    ensures
        s.len() >= c,
    decreases c,
{
    if c > 0 {
        let p = (c - 1) as u64;
        let s2 = s.remove(p);
        assert(s.contains(p));
        assert(forall|x: u64| (x as int) < c - 1 ==> s2.contains(x));
        lemma_all_below_in_set(s2, c - 1);
        assert(s.len() == s2.len() + 1);
    }
}

/// A fixed universe of pairwise-distinct benchmark keys. The cursor
/// counts the keys already handed out; it never exceeds the store and
/// only `reset` moves it back.
#[derive(Clone)]
pub struct Keys<TK: Clone + Send + Sync + FromU64> {
    keys: Vec<TK>,
    cursor: usize,
}

impl<TK: Clone + Send + Sync + FromU64> Keys<TK> {
    /// The backing store of keys, fixed at construction.
    pub closed spec fn keys_seq(&self) -> Seq<TK> {
        self.keys@
    }

    /// How many keys have been handed out so far.
    pub closed spec fn cursor(&self) -> int {
        self.cursor as int
    }

    /// The keys are pairwise distinct and the cursor stays inside the
    /// store.
    pub open spec fn wf(&self) -> bool {
        &&& 0 <= self.cursor() <= self.keys_seq().len()
        &&& pairwise_distinct(self.keys_seq())
    }

    /// Builds a pool of `total_keys` pairwise-distinct keys from
    /// random 64-bit draws: each draw is kept when it is new; a
    /// duplicate draw (vanishingly rare over 64-bit values) falls back
    /// to the smallest value not yet taken, so construction provably
    /// terminates.
    pub fn new(total_keys: usize) -> (r: Self)
        ensures
            r.wf(),
            r.keys_seq().len() == total_keys,
            r.cursor() == 0,
            forall|i: int|
                0 <= i < r.keys_seq().len() ==> encodes_some_raw(#[trigger] r.keys_seq()[i]),
    {
        let mut seen: HashSet<u64> = HashSet::new();
        let mut raws: Vec<u64> = Vec::new();
        while raws.len() < total_keys
            invariant
                raws@.no_duplicates(),
                forall|x: u64| seen@.contains(x) <==> raws@.contains(x),
                raws@.len() <= total_keys,
            decreases total_keys - raws.len(),
        {
            let drawn = random_u64();
            let fresh: u64 = if !seen.contains(&drawn) {
                drawn
            } else {
                let mut c: u64 = 0;
                while seen.contains(&c)
                    invariant
                        raws@.no_duplicates(),
                        forall|x: u64| seen@.contains(x) <==> raws@.contains(x),
                        raws@.len() < total_keys,
                        forall|x: u64| x < c ==> seen@.contains(x),
                    decreases total_keys - c,
                {
                    proof {
                        raws@.unique_seq_to_set();
                        assert(forall|x: u64| (x as int) < c + 1 ==> raws@.to_set().contains(x));
                        lemma_all_below_in_set(raws@.to_set(), c + 1);
                    }
                    c = c + 1;
                }
                c
            };
            seen.insert(fresh);
            proof {
                assert(!raws@.contains(fresh));
                assert(raws@.push(fresh).no_duplicates()) by {
                    assert(forall|i: int|
                        0 <= i < raws@.len() ==> raws@.push(fresh)[i] == raws@[i]);
                    assert(raws@.push(fresh)[raws@.len() as int] == fresh);
                }
            }
            raws.push(fresh);
        }
        let mut keys: Vec<TK> = Vec::new();
        let mut idx: usize = 0;
        while idx < raws.len()
            invariant
                keys@.len() == idx,
                idx <= raws@.len(),
                forall|i: int| 0 <= i < idx ==> #[trigger] keys@[i].encodes(raws@[i]),
                raws@.no_duplicates(),
                raws@.len() == total_keys,
            decreases raws.len() - idx,
        {
            keys.push(TK::from_u64(raws[idx]));
            idx = idx + 1;
        }
        proof {
            assert forall|i: int, j: int| 0 <= i < j < keys@.len() implies keys@[i] != keys@[j] by {
                TK::lemma_encodes_injective(keys@[i], keys@[j], raws@[i], raws@[j]);
            }
            assert forall|i: int| 0 <= i < keys@.len() implies encodes_some_raw(keys@[i]) by {
                assert(keys@[i].encodes(raws@[i]));
            }
        }
        Keys { keys, cursor: 0 }
    }

    /// Rewinds the cursor to zero for reuse across successive runs;
    /// ranges handed out before lose their claim to exclusivity.
    pub fn reset(&mut self)
        ensures
            final(self).cursor() == 0,
            final(self).keys_seq() == old(self).keys_seq(),
            old(self).wf() ==> final(self).wf(),
    {
        self.cursor = 0;
    }

    /// A copy of the key at position `i`, reduced modulo the number of
    /// keys already handed out, so only the allocated prefix is ever
    /// read.
    pub fn random(&self, i: usize) -> (r: TK)
        requires
            self.wf(),
            self.cursor() > 0,
        ensures
            r == self.keys_seq()[i as int % self.cursor()],
    {
        let allocated = self.cursor;
        self.keys[i % allocated].clone_key()
    }

    /// Hands out the next `count` keys as the half-open range starting
    /// at the old cursor. A request past the end of the store fails
    /// fast and leaves the pool unchanged.
    pub fn alloc_n(&mut self, count: usize) -> (r: Result<Vec<TK>, PoolError>)
        requires
            old(self).wf(),
        ensures
            final(self).wf(),
            final(self).keys_seq() == old(self).keys_seq(),
            old(self).cursor() + count <= old(self).keys_seq().len() ==> {
                &&& r is Ok
                &&& final(self).cursor() == old(self).cursor() + count
                &&& r->Ok_0@ == old(self).keys_seq().subrange(
                    old(self).cursor(),
                    old(self).cursor() + count,
                )
            },
            old(self).cursor() + count > old(self).keys_seq().len() ==> {
                &&& r == Result::<Vec<TK>, PoolError>::Err(PoolError::Exhausted)
                &&& final(self).cursor() == old(self).cursor()
            },
    {
        if count > self.keys.len() - self.cursor {
            return Err(PoolError::Exhausted);
        }
        let start = self.cursor;
        self.cursor = self.cursor + count;
        let mut out: Vec<TK> = Vec::new();
        let mut k: usize = 0;
        while k < count
            invariant
                k <= count,
                start == old(self).cursor(),
                self.keys@ == old(self).keys_seq(),
                self.cursor() == old(self).cursor() + count,
                start + count <= self.keys@.len(),
                out@.len() == k,
                forall|i: int| 0 <= i < k ==> out@[i] == self.keys@[start + i],
            decreases count - k,
        {
            out.push(self.keys[start + k].clone_key());
            k = k + 1;
        }
        proof {
            assert(out@ =~= self.keys@.subrange(start as int, start as int + count));
        }
        Ok(out)
    }
}

/// The cursor after the first `i` of the allocation requests in
/// `counts`, when the pool starts at cursor zero: request `i` receives
/// the range `[partial_sum(counts, i), partial_sum(counts, i) + counts[i])`,
/// and `partial_sum(counts, counts.len())` — the sum of all requested
/// counts — is the cursor once every request is served.
pub open spec fn partial_sum(counts: Seq<int>, i: int) -> int
    decreases i,
{
    if i <= 0 {
        0
    } else {
        partial_sum(counts, i - 1) + counts[i - 1]
    }
}

/// Law of disjoint allocation: over any sequence of `alloc_n` requests
/// on one pool, the range handed to an earlier request ends no later
/// than the range of any later request begins, so no two returned
/// ranges ever overlap.
pub proof fn lemma_alloc_ranges_disjoint(counts: Seq<int>, i: int, j: int)
    requires
        forall|k: int| 0 <= k < counts.len() ==> counts[k] >= 0,
        0 <= i < j < counts.len(),
    ensures
        partial_sum(counts, i) + counts[i] <= partial_sum(counts, j),
    decreases j,
{
    if i + 1 < j {
        lemma_alloc_ranges_disjoint(counts, i, j - 1);
    }
}

/// How one run draws on the pool: the prefill range first, then one
/// insert quota of `per_thread` keys for each of `threads` workers.
pub open spec fn run_counts(prefill: int, per_thread: int, threads: int) -> Seq<int> {
    seq![prefill].add(Seq::new(threads as nat, |t: int| per_thread))
}

/// In a run's allocation order, the quota of worker `t` (counting from
/// zero, served as request `t + 1`) starts at `prefill + t * per_thread`.
pub proof fn lemma_run_allocation_layout(prefill: int, per_thread: int, threads: int, i: int)
    requires
        0 <= prefill,
        0 <= per_thread,
        1 <= i <= threads + 1,
    ensures
        partial_sum(run_counts(prefill, per_thread, threads), i) == prefill + (i - 1) * per_thread,
    decreases i,
{
    let c = run_counts(prefill, per_thread, threads);
    assert(c[0] == prefill);
    if i == 1 {
        assert(partial_sum(c, 1) == partial_sum(c, 0) + c[0]);
    } else {
        lemma_run_allocation_layout(prefill, per_thread, threads, i - 1);
        assert(c[i - 1] == per_thread);
        vstd::arithmetic::mul::lemma_mul_is_distributive_add_other_way(per_thread, i - 2, 1);
    }
}

/// Law of disjoint per-thread insert quotas: with a prefill of `p`
/// keys and one quota of `k` keys per worker, worker `t1`'s range
/// `[p + t1*k, p + (t1+1)*k)` ends no later than worker `t2`'s begins,
/// and every worker's range lies entirely above the prefill range
/// `[0, p)`.
pub proof fn lemma_thread_quotas_disjoint(p: int, k: int, t1: int, t2: int)
    requires
        0 <= p,
        0 <= k,
        0 <= t1 < t2,
    ensures
        p <= p + t1 * k,
        p + (t1 + 1) * k <= p + t2 * k,
{
    vstd::arithmetic::mul::lemma_mul_nonnegative(t1, k);
    vstd::arithmetic::mul::lemma_mul_inequality(t1 + 1, t2, k);
}

} // verus!
