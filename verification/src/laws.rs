use vstd::prelude::*;

use crate::app::{clamped, next_index, prev_index, AppView};
use crate::bins::{bin_indices, members_total};
use crate::input::{action_of, Action, Key};
use crate::history::{recorded, HISTORY_CAP};
use crate::tally::{
    distinct_keys, has_key, inserted, key_index, lookup, net_score, net_sum, sum_abstain, sum_blue,
    sum_red, sum_total, totals_fit, totals_of, wrap_i64, Entries,
};
use crate::trit::gf3_of;
use crate::types::{Agg, Item};

verus! {

/// Moving the cursor up undoes moving it down, and moving it down undoes
/// moving it up, on any non-empty list.
pub proof fn lemma_next_prev_inverse(sel: usize, len: nat)
    requires
        0 < len <= usize::MAX,
        sel < len,
    ensures
        0 <= next_index(sel, len) < len,
        0 <= prev_index(sel, len) < len,
        prev_index(next_index(sel, len) as usize, len) == sel,
        next_index(prev_index(sel, len) as usize, len) == sel,
{
    let l = len as int;
    if sel + 1 < l {
        vstd::arithmetic::div_mod::lemma_small_mod((sel + 1) as nat, len);
    } else {
        vstd::arithmetic::div_mod::lemma_mod_self_0(l);
    }
    if sel == 0 {
        vstd::arithmetic::div_mod::lemma_mod_self_0(l);
    } else {
        vstd::arithmetic::div_mod::lemma_small_mod(sel as nat, len);
    }
}

/// Pulling the cursor back onto a list is idempotent and leaves it on the
/// list whenever the list is not empty.
pub proof fn lemma_clamp_idempotent(sel: usize, len: nat)
    requires
        len <= usize::MAX,
    ensures
        clamped(clamped(sel, len) as usize, len) == clamped(sel, len),
        len > 0 ==> 0 <= clamped(sel, len) < len,
{
}

/// Reading an aggregate back gives what was last stored under that id, and
/// storing under one id leaves every other id as it was; the map keeps one
/// entry per id and grows only when the id is new.
pub proof fn lemma_lookup_after_insert(s: Entries, k: Seq<char>, v: Agg, other: Seq<char>)
    requires
        distinct_keys(s),
    ensures
        lookup(inserted(s, k, v), k) == Some(v),
        other != k ==> lookup(inserted(s, k, v), other) == lookup(s, other),
        distinct_keys(inserted(s, k, v)),
        inserted(s, k, v).len() == if has_key(s, k) { s.len() } else { s.len() + 1 },
{
    let t = inserted(s, k, v);
    if has_key(s, k) {
        let i = key_index(s, k);
        assert(t[i].0 == k);
        assert forall|a: int, b: int| 0 <= a < b < t.len() implies #[trigger] t[a].0 != #[trigger] t[b].0 by {
            if a != i && b != i {
                assert(t[a] == s[a] && t[b] == s[b]);
            } else if a == i {
                assert(s[a].0 == k && t[b] == s[b]);
            } else {
                assert(s[b].0 == k && t[a] == s[a]);
            }
        }
        assert(has_key(t, k));
        let j = key_index(t, k);
        assert(t[j].0 == k);
        assert(j == i);
        if other != k {
            if has_key(s, other) {
                let p = key_index(s, other);
                assert(t[p] == s[p]);
                assert(has_key(t, other));
                let q = key_index(t, other);
                assert(t[q].0 == other);
                assert(q == p);
            } else {
                if has_key(t, other) {
                    let q = key_index(t, other);
                    assert(t[q].0 == other);
                    assert(s[q].0 == other);
                }
            }
        }
    } else {
        let n = s.len() as int;
        assert(t[n].0 == k);
        assert forall|a: int, b: int| 0 <= a < b < t.len() implies #[trigger] t[a].0 != #[trigger] t[b].0 by {
            if b == n {
                assert(t[a] == s[a]);
                assert(s[a].0 != k);
            } else {
                assert(t[a] == s[a] && t[b] == s[b]);
            }
        }
        assert(has_key(t, k));
        let j = key_index(t, k);
        assert(t[j].0 == k);
        assert(j == n);
        if other != k {
            if has_key(s, other) {
                let p = key_index(s, other);
                assert(t[p] == s[p]);
                assert(has_key(t, other));
                let q = key_index(t, other);
                assert(t[q].0 == other);
                assert(q == p);
            } else {
                if has_key(t, other) {
                    let q = key_index(t, other);
                    assert(t[q].0 == other);
                    assert(s[q].0 == other);
                }
            }
        }
    }
}

/// Overwriting one entry changes every column sum and the net sum by the
/// difference between the new and the old entry.
proof fn lemma_sums_update(s: Entries, i: int, x: (Seq<char>, Agg))
    requires
        0 <= i < s.len(),
    ensures
        sum_red(s.update(i, x)) == sum_red(s) - s[i].1.red + x.1.red,
        sum_blue(s.update(i, x)) == sum_blue(s) - s[i].1.blue + x.1.blue,
        sum_abstain(s.update(i, x)) == sum_abstain(s) - s[i].1.abstain + x.1.abstain,
        sum_total(s.update(i, x)) == sum_total(s) - s[i].1.total + x.1.total,
        net_sum(s.update(i, x)) == net_sum(s) - s[i].1.net() + x.1.net(),
    decreases s.len(),
{
    let u = s.update(i, x);
    if i == s.len() - 1 {
        assert(u.drop_last() =~= s.drop_last());
    } else {
        lemma_sums_update(s.drop_last(), i, x);
        assert(u.drop_last() =~= s.drop_last().update(i, x));
    }
}

/// After storing an item's aggregate, each total is the previous total with
/// that item's old counts (none if it was new) replaced by the new ones; the
/// same holds for the net score that the history records.
pub proof fn lemma_totals_after_insert(s: Entries, k: Seq<char>, v: Agg)
    requires
        distinct_keys(s),
    ensures
        ({
            let t = inserted(s, k, v);
            let old_agg = match lookup(s, k) {
                Some(a) => a,
                None => Agg { red: 0, blue: 0, abstain: 0, total: 0 },
            };
            &&& sum_red(t) == sum_red(s) - old_agg.red + v.red
            &&& sum_blue(t) == sum_blue(s) - old_agg.blue + v.blue
            &&& sum_abstain(t) == sum_abstain(s) - old_agg.abstain + v.abstain
            &&& sum_total(t) == sum_total(s) - old_agg.total + v.total
            &&& net_sum(t) == net_sum(s) - old_agg.net() + v.net()
        }),
{
    let t = inserted(s, k, v);
    if has_key(s, k) {
        lemma_sums_update(s, key_index(s, k), (k, v));
    } else {
        assert(t.drop_last() =~= s);
        assert(Agg { red: 0, blue: 0, abstain: 0, total: 0 }.net() == 0);
    }
}

/// The history never holds more than `HISTORY_CAP` samples, its newest
/// sample is the one just recorded, it grows by one until it is full, and a
/// full history drops exactly its oldest sample.
pub proof fn lemma_history_window(h: Seq<i64>, net: i64)
    ensures
        recorded(h, net).len() == if h.len() < HISTORY_CAP { h.len() + 1 } else { HISTORY_CAP as nat },
        recorded(h, net).last() == net,
        h.len() < HISTORY_CAP ==> recorded(h, net) == h.push(net),
        h.len() == HISTORY_CAP ==> recorded(h, net) == h.drop_first().push(net),
{
    if h.len() == HISTORY_CAP {
        assert(recorded(h, net) =~= h.drop_first().push(net));
    }
}

/// The GF(3) class of a sum depends only on the classes of its parts.
pub proof fn lemma_gf3_additive(a: int, b: int)
    ensures
        gf3_of(a + b) == gf3_of(gf3_of(a) + gf3_of(b)),
        0 <= gf3_of(a) < 3,
{
    vstd::arithmetic::div_mod::lemma_add_mod_noop(a, b, 3);
}

/// A balanced triad of votes (one red, one abstain, one blue, in any order)
/// leaves the GF(3) balance where it was.
pub proof fn lemma_gf3_balanced_triad(net: int, a: int, b: int, c: int)
    requires
        a == -1 || a == 0 || a == 1,
        b == -1 || b == 0 || b == 1,
        c == -1 || c == 0 || c == 1,
        a != b && b != c && a != c,
    ensures
        gf3_of(net + a + b + c) == gf3_of(net),
{
    assert(a + b + c == 0);
}

/// A value that already fits is left alone by the wrapping reduction.
proof fn lemma_wrap_i64_exact(x: int)
    requires
        i64::MIN <= x <= i64::MAX,
    ensures
        wrap_i64(x) == x,
{
    if x >= 0 {
        vstd::arithmetic::div_mod::lemma_small_mod(x as nat, 0x1_0000_0000_0000_0000);
    } else {
        vstd::arithmetic::div_mod::lemma_mod_add_multiples_vanish(x, 0x1_0000_0000_0000_0000);
        vstd::arithmetic::div_mod::lemma_small_mod(
            (x + 0x1_0000_0000_0000_0000) as nat,
            0x1_0000_0000_0000_0000,
        );
    }
}

/// When no column sum exceeds `u64::MAX` the totals are the exact sums, and
/// when the net sum fits in an `i64` the recorded net score is exact.
pub proof fn lemma_sums_exact_in_range(s: Entries)
    ensures
        totals_fit(s) ==> totals_of(s).red == sum_red(s) && totals_of(s).blue == sum_blue(s)
            && totals_of(s).abstain == sum_abstain(s) && totals_of(s).total == sum_total(s),
        i64::MIN <= net_sum(s) <= i64::MAX ==> net_score(s) == net_sum(s),
{
    if totals_fit(s) {
        vstd::arithmetic::div_mod::lemma_small_mod(sum_red(s), 0x1_0000_0000_0000_0000);
        vstd::arithmetic::div_mod::lemma_small_mod(sum_blue(s), 0x1_0000_0000_0000_0000);
        vstd::arithmetic::div_mod::lemma_small_mod(sum_abstain(s), 0x1_0000_0000_0000_0000);
        vstd::arithmetic::div_mod::lemma_small_mod(sum_total(s), 0x1_0000_0000_0000_0000);
    }
    if i64::MIN <= net_sum(s) <= i64::MAX {
        lemma_wrap_i64_exact(net_sum(s));
    }
}

/// The GF(3) balance that the view shows is the class of total blue minus
/// total red whenever both totals fit in an `i64`.
pub proof fn lemma_gf3_of_totals(s: Entries)
    requires
        sum_blue(s) <= i64::MAX,
        sum_red(s) <= i64::MAX,
    ensures
        gf3_of(wrap_i64(totals_of(s).net()) as int) == gf3_of(sum_blue(s) - sum_red(s)),
{
    vstd::arithmetic::div_mod::lemma_small_mod(sum_red(s), 0x1_0000_0000_0000_0000);
    vstd::arithmetic::div_mod::lemma_small_mod(sum_blue(s), 0x1_0000_0000_0000_0000);
    let t = totals_of(s);
    assert(t.blue == sum_blue(s) && t.red == sum_red(s));
    assert((t.blue as i64) as int == t.blue as int);
    assert((t.red as i64) as int == t.red as int);
    lemma_wrap_i64_exact(t.net());
}

/// In a map with one entry per id, the entry at position `i` is what a
/// lookup of its id finds.
proof fn lemma_lookup_at(s: Entries, i: int)
    requires
        distinct_keys(s),
        0 <= i < s.len(),
    ensures
        has_key(s, s[i].0),
        lookup(s, s[i].0) == Some(s[i].1),
{
    assert(has_key(s, s[i].0));
    let j = key_index(s, s[i].0);
    assert(s[j].0 == s[i].0);
}

/// Dropping one entry lowers every column sum and the net sum by that
/// entry's counts.
proof fn lemma_sums_remove(s: Entries, j: int)
    requires
        0 <= j < s.len(),
    ensures
        sum_red(s.remove(j)) == sum_red(s) - s[j].1.red,
        sum_blue(s.remove(j)) == sum_blue(s) - s[j].1.blue,
        sum_abstain(s.remove(j)) == sum_abstain(s) - s[j].1.abstain,
        sum_total(s.remove(j)) == sum_total(s) - s[j].1.total,
        net_sum(s.remove(j)) == net_sum(s) - s[j].1.net(),
    decreases s.len(),
{
    let r = s.remove(j);
    if j == s.len() - 1 {
        assert(r =~= s.drop_last());
    } else {
        lemma_sums_remove(s.drop_last(), j);
        assert(r.drop_last() =~= s.drop_last().remove(j));
        assert(r.last() == s.last());
    }
}

/// The sums over two sequences laid end to end are the sums of the parts.
proof fn lemma_sums_concat(a: Entries, b: Entries)
    ensures
        sum_red(a + b) == sum_red(a) + sum_red(b),
        sum_blue(a + b) == sum_blue(a) + sum_blue(b),
        sum_abstain(a + b) == sum_abstain(a) + sum_abstain(b),
        sum_total(a + b) == sum_total(a) + sum_total(b),
        net_sum(a + b) == net_sum(a) + net_sum(b),
    decreases b.len(),
{
    if b.len() == 0 {
        assert(a + b =~= a);
    } else {
        lemma_sums_concat(a, b.drop_last());
        assert((a + b).drop_last() =~= a + b.drop_last());
        assert((a + b).last() == b.last());
    }
}

/// Two maps that hold the same aggregate under every id have the same
/// column sums and net sum, whatever order they store their entries in.
pub proof fn lemma_sums_ignore_order(s: Entries, t: Entries)
    requires
        distinct_keys(s),
        distinct_keys(t),
        forall|k: Seq<char>| #[trigger] lookup(s, k) == lookup(t, k),
    ensures
        sum_red(s) == sum_red(t),
        sum_blue(s) == sum_blue(t),
        sum_abstain(s) == sum_abstain(t),
        sum_total(s) == sum_total(t),
        net_sum(s) == net_sum(t),
    decreases s.len(),
{
    if s.len() == 0 {
        if t.len() > 0 {
            lemma_lookup_at(t, 0);
            assert(lookup(s, t[0].0) == lookup(t, t[0].0));
        }
    } else {
        let n = s.len() - 1;
        let k = s[n].0;
        lemma_lookup_at(s, n);
        assert(lookup(t, k) == lookup(s, k));
        let j = key_index(t, k);
        assert(t[j].0 == k);
        lemma_lookup_at(t, j);
        let s2 = s.drop_last();
        let t2 = t.remove(j);
        assert(distinct_keys(s2));
        assert forall|a: int, b: int| 0 <= a < b < t2.len() implies #[trigger] t2[a].0
            != #[trigger] t2[b].0 by {
            let a1 = if a < j { a } else { a + 1 };
            let b1 = if b < j { b } else { b + 1 };
            assert(t2[a] == t[a1] && t2[b] == t[b1]);
        }
        assert forall|q: Seq<char>| #[trigger] lookup(s2, q) == lookup(t2, q) by {
            if q == k {
                if has_key(s2, q) {
                    let i = key_index(s2, q);
                    assert(s2[i] == s[i]);
                }
                if has_key(t2, q) {
                    let i = key_index(t2, q);
                    let i1 = if i < j { i } else { i + 1 };
                    assert(t2[i] == t[i1]);
                }
            } else {
                assert(lookup(s, q) == lookup(t, q));
                if has_key(s2, q) {
                    let i = key_index(s2, q);
                    assert(s2[i] == s[i]);
                    lemma_lookup_at(s2, i);
                    lemma_lookup_at(s, i);
                } else {
                    if has_key(s, q) {
                        let i = key_index(s, q);
                        assert(s[i].0 == q);
                        assert(i != n);
                        assert(s2[i] == s[i]);
                    }
                }
                if has_key(t2, q) {
                    let i = key_index(t2, q);
                    let i1 = if i < j { i } else { i + 1 };
                    assert(t2[i] == t[i1]);
                    lemma_lookup_at(t2, i);
                    lemma_lookup_at(t, i1);
                } else {
                    if has_key(t, q) {
                        let i = key_index(t, q);
                        assert(t[i].0 == q);
                        assert(i != j);
                        let i2 = if i < j { i } else { i - 1 };
                        assert(t2[i2] == t[i]);
                    }
                }
            }
        }
        lemma_sums_ignore_order(s2, t2);
        lemma_sums_remove(t, j);
    }
}

/// When a map holds exactly the aggregates of two maps with no id in
/// common, its column sums and net sum are the sums of the two; so are its
/// totals when they do not overflow.
pub proof fn lemma_sums_of_disjoint_union(s1: Entries, s2: Entries, s3: Entries)
    requires
        distinct_keys(s1),
        distinct_keys(s2),
        distinct_keys(s3),
        forall|k: Seq<char>| !(#[trigger] has_key(s1, k) && has_key(s2, k)),
        forall|k: Seq<char>|
            #[trigger] lookup(s3, k) == if has_key(s1, k) { lookup(s1, k) } else { lookup(s2, k) },
    ensures
        sum_red(s3) == sum_red(s1) + sum_red(s2),
        sum_blue(s3) == sum_blue(s1) + sum_blue(s2),
        sum_abstain(s3) == sum_abstain(s1) + sum_abstain(s2),
        sum_total(s3) == sum_total(s1) + sum_total(s2),
        net_sum(s3) == net_sum(s1) + net_sum(s2),
        totals_fit(s3) ==> totals_of(s3) == (Agg {
            red: (totals_of(s1).red + totals_of(s2).red) as u64,
            blue: (totals_of(s1).blue + totals_of(s2).blue) as u64,
            abstain: (totals_of(s1).abstain + totals_of(s2).abstain) as u64,
            total: (totals_of(s1).total + totals_of(s2).total) as u64,
        }),
{
    let c = s1 + s2;
    let n1 = s1.len() as int;
    assert forall|a: int, b: int| 0 <= a < b < c.len() implies #[trigger] c[a].0 != #[trigger] c[b].0 by {
        if b < n1 {
            assert(c[a] == s1[a] && c[b] == s1[b]);
        } else if a >= n1 {
            assert(c[a] == s2[a - n1] && c[b] == s2[b - n1]);
        } else {
            assert(c[a] == s1[a] && c[b] == s2[b - n1]);
            lemma_lookup_at(s1, a);
            lemma_lookup_at(s2, b - n1);
        }
    }
    assert forall|k: Seq<char>| #[trigger] lookup(s3, k) == lookup(c, k) by {
        if has_key(s1, k) {
            let i = key_index(s1, k);
            assert(s1[i].0 == k);
            assert(c[i] == s1[i]);
            lemma_lookup_at(s1, i);
            lemma_lookup_at(c, i);
        } else if has_key(s2, k) {
            let i = key_index(s2, k);
            assert(s2[i].0 == k);
            assert(c[n1 + i] == s2[i]);
            lemma_lookup_at(s2, i);
            lemma_lookup_at(c, n1 + i);
        } else {
            if has_key(c, k) {
                let i = key_index(c, k);
                assert(c[i].0 == k);
                if i < n1 {
                    assert(s1[i] == c[i]);
                } else {
                    assert(s2[i - n1] == c[i]);
                }
            }
        }
    }
    lemma_sums_ignore_order(s3, c);
    lemma_sums_concat(s1, s2);
    if totals_fit(s3) {
        lemma_sums_exact_in_range(s1);
        lemma_sums_exact_in_range(s2);
        lemma_sums_exact_in_range(s3);
    }
}

/// While no column sum leaves `i64`, the net sum is total blue minus total
/// red.
proof fn lemma_net_sum_is_difference(s: Entries)
    requires
        sum_blue(s) <= i64::MAX,
        sum_red(s) <= i64::MAX,
    ensures
        net_sum(s) == sum_blue(s) - sum_red(s),
    decreases s.len(),
{
    if s.len() > 0 {
        lemma_net_sum_is_difference(s.drop_last());
        let a = s.last().1;
        assert(a.blue <= i64::MAX && a.red <= i64::MAX);
        assert((a.blue as i64) as int == a.blue as int);
        assert((a.red as i64) as int == a.red as int);
    }
}

/// Adding an item with as many red as blue votes (any number of abstains)
/// leaves the GF(3) balance of the whole view unchanged, as long as the
/// blue and red totals fit in an `i64`.
pub proof fn lemma_balanced_item_keeps_gf3(s: Entries, k: Seq<char>, v: Agg)
    requires
        distinct_keys(s),
        !has_key(s, k),
        v.red == v.blue,
        sum_blue(inserted(s, k, v)) <= i64::MAX,
        sum_red(inserted(s, k, v)) <= i64::MAX,
    ensures
        gf3_of(wrap_i64(totals_of(inserted(s, k, v)).net()) as int) == gf3_of(
            wrap_i64(totals_of(s).net()) as int,
        ),
{
    lemma_totals_after_insert(s, k, v);
    let t = inserted(s, k, v);
    assert(sum_blue(t) == sum_blue(s) + v.blue);
    assert(sum_red(t) == sum_red(s) + v.red);
    lemma_gf3_of_totals(s);
    lemma_gf3_of_totals(t);
}

/// Right after the aggregates change (`set_aggs`, `apply_vote`), the GF(3)
/// balance the view shows is the newest history sample reduced mod 3, as
/// long as the blue and red totals fit in an `i64`.
pub proof fn lemma_gf3_matches_newest_sample(v: AppView, h: Seq<i64>)
    requires
        v.history == recorded(h, net_score(v.aggs)),
        sum_blue(v.aggs) <= i64::MAX,
        sum_red(v.aggs) <= i64::MAX,
    ensures
        gf3_of(wrap_i64(totals_of(v.aggs).net()) as int) == gf3_of(v.history.last() as int),
{
    lemma_history_window(h, net_score(v.aggs));
    lemma_net_sum_is_difference(v.aggs);
    lemma_sums_exact_in_range(v.aggs);
    lemma_gf3_of_totals(v.aggs);
}

/// Moving down goes to the next item and moving up to the previous one;
/// only at the ends do they wrap, down from the last item to the first and
/// up from the first to the last. Equivalently, on a list of `len` items,
/// down is `(sel + 1) % len` and up is `(sel + len - 1) % len`.
pub proof fn lemma_cursor_direction(sel: usize, len: nat)
    requires
        0 < len <= usize::MAX,
        sel < len,
    ensures
        sel + 1 < len ==> next_index(sel, len) == sel + 1,
        sel + 1 == len ==> next_index(sel, len) == 0,
        sel > 0 ==> prev_index(sel, len) == sel - 1,
        sel == 0 ==> prev_index(sel, len) == len - 1,
        next_index(sel, len) == (sel + 1) % (len as int),
        prev_index(sel, len) == (sel + len - 1) % (len as int),
{
    let l = len as int;
    if sel + 1 < l {
        vstd::arithmetic::div_mod::lemma_small_mod((sel + 1) as nat, len);
    } else {
        vstd::arithmetic::div_mod::lemma_mod_self_0(l);
    }
    if sel == 0 {
        vstd::arithmetic::div_mod::lemma_small_mod((l - 1) as nat, len);
    } else {
        vstd::arithmetic::div_mod::lemma_mod_add_multiples_vanish(sel - 1, l);
        vstd::arithmetic::div_mod::lemma_small_mod((sel - 1) as nat, len);
    }
}

/// When the catalogue changes to `len` items, a cursor already on the list
/// stays where it is, a cursor past the end of a non-empty list lands on the
/// last item, and with no items the cursor is left alone.
pub proof fn lemma_clamp_moves_only_past_the_end(sel: usize, len: nat)
    ensures
        sel < len ==> clamped(sel, len) == sel,
        0 < len <= sel ==> clamped(sel, len) == len - 1,
        len == 0 ==> clamped(sel, len) == sel,
{
}

/// A bin lists position `i` exactly when item `i` is in that bin, and lists
/// the positions in increasing catalogue order, each once.
pub proof fn lemma_bin_membership(items: Seq<Item>, bin: Seq<char>)
    requires
        items.len() <= usize::MAX,
    ensures
        forall|i: int|
            0 <= i < items.len() && #[trigger] items[i].bin@ == bin ==> exists|j: int|
                0 <= j < bin_indices(items, bin).len() && bin_indices(items, bin)[j] == i,
        forall|j: int|
            0 <= j < bin_indices(items, bin).len() ==> {
                &&& #[trigger] bin_indices(items, bin)[j] < items.len()
                &&& items[bin_indices(items, bin)[j] as int].bin@ == bin
            },
        forall|j: int, q: int|
            0 <= j < q < bin_indices(items, bin).len() ==> #[trigger] bin_indices(items, bin)[j]
                < #[trigger] bin_indices(items, bin)[q],
    decreases items.len(),
{
    if items.len() > 0 {
        let d = items.drop_last();
        let rest = bin_indices(d, bin);
        let r = bin_indices(items, bin);
        let n = items.len() - 1;
        lemma_bin_membership(d, bin);
        let pushed = items.last().bin@ == bin;
        if pushed {
            assert(r == rest.push(n as usize));
        } else {
            assert(r == rest);
        }
        assert forall|i: int| 0 <= i < items.len() && #[trigger] items[i].bin@ == bin implies exists|
            j: int,
        | 0 <= j < r.len() && r[j] == i by {
            if i < n {
                assert(d[i] == items[i]);
                let w = choose|w: int| 0 <= w < rest.len() && rest[w] == i;
                assert(r[w] == rest[w]);
            } else {
                assert(r[r.len() - 1] == n);
            }
        }
        assert forall|j: int| 0 <= j < r.len() implies {
            &&& #[trigger] r[j] < items.len()
            &&& items[r[j] as int].bin@ == bin
        } by {
            if j < rest.len() {
                assert(r[j] == rest[j]);
                assert(d[rest[j] as int] == items[rest[j] as int]);
            } else {
                assert(r[j] == n);
            }
        }
        assert forall|j: int, q: int| 0 <= j < q < r.len() implies #[trigger] r[j] < #[trigger] r[q] by {
            if q < rest.len() {
                assert(r[j] == rest[j] && r[q] == rest[q]);
            } else {
                assert(r[j] == rest[j]);
                assert(r[q] == n);
            }
        }
    }
}

/// The votes of a bin made of two runs of members are the votes of the two
/// runs added up; an empty bin has none.
pub proof fn lemma_members_total_additive(
    aggs: Entries,
    items: Seq<Item>,
    m1: Seq<usize>,
    m2: Seq<usize>,
)
    ensures
        members_total(aggs, items, Seq::empty()) == 0,
        members_total(aggs, items, m1 + m2) == members_total(aggs, items, m1) + members_total(
            aggs,
            items,
            m2,
        ),
    decreases m2.len(),
{
    if m2.len() == 0 {
        assert(m1 + m2 =~= m1);
    } else {
        lemma_members_total_additive(aggs, items, m1, m2.drop_last());
        assert((m1 + m2).drop_last() =~= m1 + m2.drop_last());
        assert((m1 + m2).last() == m2.last());
    }
}

/// A bin's votes grow by exactly the reported total of each member added
/// (nothing for an item without an aggregate).
pub proof fn lemma_members_total_step(aggs: Entries, items: Seq<Item>, m: Seq<usize>, x: usize)
    ensures
        members_total(aggs, items, m.push(x)) == members_total(aggs, items, m) + match lookup(
            aggs,
            items[x as int].id@,
        ) {
            Some(a) => a.total as nat,
            None => 0nat,
        },
{
    lemma_members_total_additive(aggs, items, m, seq![x]);
    assert(m + seq![x] =~= m.push(x));
    assert(seq![x].drop_last() =~= Seq::<usize>::empty());
}

/// Only key presses act: a release or repeat of any key is skipped. Only
/// `q` and Esc quit, and only `r`, `b` and space vote, red, blue and
/// abstain respectively.
pub proof fn lemma_only_presses_act(key: Key, pressed: bool)
    ensures
        !pressed ==> action_of(key, pressed) == Action::Skip,
        action_of(key, pressed) == Action::Quit <==> pressed && (key == Key::Esc || key == Key::Char(
            'q',
        )),
        action_of(key, pressed) == Action::Vote(-1i8) <==> pressed && key == Key::Char('r'),
        action_of(key, pressed) == Action::Vote(1i8) <==> pressed && key == Key::Char('b'),
        action_of(key, pressed) == Action::Vote(0i8) <==> pressed && key == Key::Char(' '),
        action_of(key, pressed) == Action::Next <==> pressed && (key == Key::Down || key == Key::Char(
            'j',
        )),
        action_of(key, pressed) == Action::Prev <==> pressed && (key == Key::Up || key == Key::Char(
            'k',
        )),
        action_of(key, pressed) == Action::Refresh <==> pressed && key == Key::Char('R'),
        forall|c: i8| action_of(key, pressed) == Action::Vote(c) ==> -1 <= c <= 1,
{
}

} // verus!
