use vstd::prelude::*;

use crate::types::Agg;

verus! {

/// The abstract contents of an [`AggMap`]: its entries in storage order,
/// each a key (an item id) and that item's aggregate.
pub type Entries = Seq<(Seq<char>, Agg)>;

/// No key occurs twice.
pub open spec fn distinct_keys(s: Entries) -> bool {
    forall|i: int, j: int| 0 <= i < j < s.len() ==> #[trigger] s[i].0 != #[trigger] s[j].0
}

/// Some entry has key `k`.
pub open spec fn has_key(s: Entries, k: Seq<char>) -> bool {
    exists|i: int| 0 <= i < s.len() && #[trigger] s[i].0 == k
}

/// The position of an entry with key `k` (meaningful when `has_key(s, k)`).
pub open spec fn key_index(s: Entries, k: Seq<char>) -> int {
    choose|i: int| 0 <= i < s.len() && #[trigger] s[i].0 == k
}

/// The aggregate stored under `k`, if any.
pub open spec fn lookup(s: Entries, k: Seq<char>) -> Option<Agg> {
    if has_key(s, k) {
        Some(s[key_index(s, k)].1)
    } else {
        None
    }
}

/// The entries after storing `v` under `k`: an existing entry for `k` is
/// overwritten in place, otherwise the pair is appended.
pub open spec fn inserted(s: Entries, k: Seq<char>, v: Agg) -> Entries {
    if has_key(s, k) {
        s.update(key_index(s, k), (k, v))
    } else {
        s.push((k, v))
    }
}

/// The sum of the red counts.
pub open spec fn sum_red(s: Entries) -> nat
    decreases s.len(),
{
    if s.len() == 0 {
        0
    } else {
        sum_red(s.drop_last()) + s.last().1.red as nat
    }
}

/// The sum of the blue counts.
pub open spec fn sum_blue(s: Entries) -> nat
    decreases s.len(),
{
    if s.len() == 0 {
        0
    } else {
        sum_blue(s.drop_last()) + s.last().1.blue as nat
    }
}

/// The sum of the abstain counts.
pub open spec fn sum_abstain(s: Entries) -> nat
    decreases s.len(),
{
    if s.len() == 0 {
        0
    } else {
        sum_abstain(s.drop_last()) + s.last().1.abstain as nat
    }
}

/// The sum of the reported totals.
pub open spec fn sum_total(s: Entries) -> nat
    decreases s.len(),
{
    if s.len() == 0 {
        0
    } else {
        sum_total(s.drop_last()) + s.last().1.total as nat
    }
}

/// Every column sum fits in a `u64`, so that adding the counts up never
/// overflows.
pub open spec fn totals_fit(s: Entries) -> bool {
    &&& sum_red(s) <= u64::MAX
    &&& sum_blue(s) <= u64::MAX
    &&& sum_abstain(s) <= u64::MAX
    &&& sum_total(s) <= u64::MAX
}

/// `x` reduced to a `u64` the way wrapping addition does: modulo 2^64.
pub open spec fn wrap_u64(x: int) -> u64 {
    (x % 0x1_0000_0000_0000_0000) as u64
}

/// `x` reduced to an `i64` the way wrapping arithmetic does: the value in
/// `i64::MIN..=i64::MAX` congruent to `x` modulo 2^64.
pub open spec fn wrap_i64(x: int) -> i64 {
    let r = x % 0x1_0000_0000_0000_0000;
    if r > i64::MAX {
        (r - 0x1_0000_0000_0000_0000) as i64
    } else {
        r as i64
    }
}

/// The column sums as an aggregate, each reduced modulo 2^64 as the
/// addition of `u64` counts does; exact when `totals_fit(s)`.
pub open spec fn totals_of(s: Entries) -> Agg {
    Agg {
        red: wrap_u64(sum_red(s) as int),
        blue: wrap_u64(sum_blue(s) as int),
        abstain: wrap_u64(sum_abstain(s) as int),
        total: wrap_u64(sum_total(s) as int),
    }
}

/// The sum of the net scores (blue minus red) of all entries.
pub open spec fn net_sum(s: Entries) -> int
    decreases s.len(),
{
    if s.len() == 0 {
        0
    } else {
        net_sum(s.drop_last()) + s.last().1.net()
    }
}

/// The net score that adding up the items' net scores as `i64` values
/// yields: the exact sum reduced into `i64` the way wrapping arithmetic
/// does; exact when the sum fits in an `i64`.
pub open spec fn net_score(s: Entries) -> i64 {
    wrap_i64(net_sum(s))
}

/// Adding a count to a running total kept modulo 2^64 gives the new total
/// modulo 2^64.
pub proof fn lemma_wrap_u64_add(x: int, y: u64)
    requires
        x >= 0,
    ensures
        vstd::wrapping::u64_specs::wrapping_add(wrap_u64(x), y) == wrap_u64(x + y),
{
    vstd::arithmetic::div_mod::lemma_add_mod_noop(x, y as int, 0x1_0000_0000_0000_0000);
    vstd::arithmetic::div_mod::lemma_small_mod(y as nat, 0x1_0000_0000_0000_0000);
    vstd::arithmetic::div_mod::lemma_mod_bound(x, 0x1_0000_0000_0000_0000);
    let w = x % 0x1_0000_0000_0000_0000;
    if w + y >= 0x1_0000_0000_0000_0000 {
        vstd::arithmetic::div_mod::lemma_mod_sub_multiples_vanish((w + y) as int, 0x1_0000_0000_0000_0000);
        vstd::arithmetic::div_mod::lemma_small_mod((w + y - 0x1_0000_0000_0000_0000) as nat, 0x1_0000_0000_0000_0000);
    } else {
        vstd::arithmetic::div_mod::lemma_small_mod((w + y) as nat, 0x1_0000_0000_0000_0000);
    }
}

/// Per-item aggregates keyed by item id, with at most one entry per id.
pub struct AggMap {
    entries: Vec<(String, Agg)>,
}

impl View for AggMap {
    type V = Entries;

    closed spec fn view(&self) -> Entries {
        self.entries@.map_values(|e: (String, Agg)| (e.0@, e.1))
    }
}

impl AggMap {
    /// No item id occurs twice; every `AggMap` keeps this (callers learn it
    /// with `use_type_invariant`, or from the `ensures` of `len` and `get`).
    #[verifier::type_invariant]
    pub open spec fn keys_distinct(self) -> bool {
        distinct_keys(self@)
    }

    /// An empty map.
    pub fn new() -> (m: AggMap)
        ensures
            m@ == Seq::<(Seq<char>, Agg)>::empty(),
            distinct_keys(m@),
    {
        let m = AggMap { entries: Vec::new() };
        assert(m@ =~= Seq::<(Seq<char>, Agg)>::empty());
        m
    }

    /// The number of items with an aggregate.
    pub fn len(&self) -> (n: usize)
        ensures
            n == self@.len(),
            distinct_keys(self@),
    {
        proof {
            use_type_invariant(self);
        }
        self.entries.len()
    }

    /// Finds the entry for `key` by scanning in storage order.
    fn find(&self, key: &String) -> (r: Option<usize>)
        ensures
            distinct_keys(self@),
            match r {
                Some(i) => i < self@.len() && has_key(self@, key@) && key_index(self@, key@) == i,
                None => !has_key(self@, key@),
            },
    {
        proof {
            use_type_invariant(self);
        }
        let n = self.entries.len();
        let mut i: usize = 0;
        while i < n
            invariant
                n == self.entries.len() == self@.len(),
                distinct_keys(self@),
                0 <= i <= n,
                forall|j: int| 0 <= j < i ==> #[trigger] self@[j].0 != key@,
            decreases n - i,
        {
            if self.entries[i].0 == *key {
                assert(self@[i as int].0 == key@);
                let ghost c = key_index(self@, key@);
                assert(self@[c].0 == key@);
                return Some(i);
            }
            i = i + 1;
        }
        None
    }

    /// The aggregate stored for `key`, if any.
    pub fn get(&self, key: &str) -> (r: Option<&Agg>)
        ensures
            match r {
                Some(a) => lookup(self@, key@) == Some(*a),
                None => lookup(self@, key@) is None,
            },
            distinct_keys(self@),
    {
        let k = key.to_owned();
        match self.find(&k) {
            Some(i) => Some(&self.entries[i].1),
            None => None,
        }
    }

    /// Stores `agg` under `key`, replacing what was stored there before.
    pub fn insert(&mut self, key: String, agg: Agg)
        ensures
            final(self)@ == inserted(old(self)@, key@, agg),
            distinct_keys(old(self)@),
            distinct_keys(final(self)@),
    {
        let found = self.find(&key);
        let ghost k = key@;
        let ghost before = self@;
        let mut entries: Vec<(String, Agg)> = Vec::new();
        std::mem::swap(&mut entries, &mut self.entries);
        assert(entries@.map_values(|e: (String, Agg)| (e.0@, e.1)) == before);
        match found {
            Some(i) => {
                entries.set(i, (key, agg));
            },
            None => {
                entries.push((key, agg));
            },
        }
        assert(entries@.map_values(|e: (String, Agg)| (e.0@, e.1)) =~= inserted(before, k, agg));
        self.entries = entries;
    }
    /// Adds up each count over all items (wrapping modulo 2^64, as `u64`
    /// addition does in a release build).
    pub fn totals(&self) -> (t: Agg)
        ensures
            t == totals_of(self@),
    {
        let mut t = Agg { red: 0, blue: 0, abstain: 0, total: 0 };
        let n = self.entries.len();
        for i in 0..n
            invariant
                n == self@.len(),
                t == totals_of(self@.take(i as int)),
        {
            let a = self.entries[i].1;
            proof {
                assert(self@.take(i + 1).drop_last() =~= self@.take(i as int));
                assert(a == self@[i as int].1);
                let p = self@.take(i as int);
                lemma_wrap_u64_add(sum_red(p) as int, a.red);
                lemma_wrap_u64_add(sum_blue(p) as int, a.blue);
                lemma_wrap_u64_add(sum_abstain(p) as int, a.abstain);
                lemma_wrap_u64_add(sum_total(p) as int, a.total);
            }
            t.red = t.red.wrapping_add(a.red);
            t.blue = t.blue.wrapping_add(a.blue);
            t.abstain = t.abstain.wrapping_add(a.abstain);
            t.total = t.total.wrapping_add(a.total);
        }
        assert(self@.take(n as int) =~= self@);
        t
    }

    /// Adds up the net scores (blue minus red) of all items as `i64`
    /// values (wrapping, as `i64` arithmetic does in a release build).
    pub fn net_total(&self) -> (r: i64)
        ensures
            r == net_score(self@),
    {
        let mut acc: i64 = 0;
        let n = self.entries.len();
        assert(self@.take(0) =~= Seq::<(Seq<char>, Agg)>::empty());
        for i in 0..n
            invariant
                n == self@.len(),
                acc == net_score(self@.take(i as int)),
        {
            let a = self.entries[i].1;
            assert(a == self@[i as int].1);
            assert(self@.take(i + 1).drop_last() =~= self@.take(i as int));
            let d = (a.blue as i64).wrapping_sub(a.red as i64);
            acc = acc.wrapping_add(d);
        }
        assert(self@.take(n as int) =~= self@);
        acc
    }
}

} // verus!
