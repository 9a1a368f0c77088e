use vstd::prelude::*;

use crate::tally::{lookup, wrap_i64, wrap_u64, AggMap};
use crate::types::{Agg, Item};

verus! {

/// The positions, in catalogue order, of the items listed in bin `bin`.
pub open spec fn bin_indices(items: Seq<Item>, bin: Seq<char>) -> Seq<usize>
    decreases items.len(),
{
    if items.len() == 0 {
        Seq::empty()
    } else {
        let rest = bin_indices(items.drop_last(), bin);
        if items.last().bin@ == bin {
            rest.push((items.len() - 1) as usize)
        } else {
            rest
        }
    }
}

/// Every position a bin lists is a position in the catalogue.
proof fn lemma_bin_indices_in_range(items: Seq<Item>, bin: Seq<char>)
    ensures
        forall|i: int|
            0 <= i < bin_indices(items, bin).len() ==> #[trigger] bin_indices(items, bin)[i]
                < items.len(),
    decreases items.len(),
{
    if items.len() > 0 {
        let rest = bin_indices(items.drop_last(), bin);
        lemma_bin_indices_in_range(items.drop_last(), bin);
        assert forall|i: int| 0 <= i < bin_indices(items, bin).len() implies #[trigger] bin_indices(
            items,
            bin,
        )[i] < items.len() by {
            if i < rest.len() {
                assert(bin_indices(items, bin)[i] == rest[i]);
            }
        }
    }
}

/// The reported vote total of the item at each of `members`, or zero for
/// an item without an aggregate, added up.
pub open spec fn members_total(aggs: crate::tally::Entries, items: Seq<Item>, members: Seq<usize>) -> nat
    decreases members.len(),
{
    if members.len() == 0 {
        0
    } else {
        members_total(aggs, items, members.drop_last()) + match lookup(
            aggs,
            items[members.last() as int].id@,
        ) {
            Some(a) => a.total as nat,
            None => 0,
        }
    }
}

/// The items listed in bin `bin`, as positions in the catalogue.
pub fn bin_members(items: &Vec<Item>, bin: &str) -> (r: Vec<usize>)
    ensures
        r@ == bin_indices(items@, bin@),
        forall|i: int| 0 <= i < r@.len() ==> #[trigger] r@[i] < items@.len(),
        forall|i: int| 0 <= i < r@.len() ==> items@[#[trigger] r@[i] as int].bin@ == bin@,
        forall|i: int|
            0 <= i < items@.len() && #[trigger] items@[i].bin@ == bin@ ==> exists|j: int|
                0 <= j < r@.len() && r@[j] == i,
        forall|j: int, q: int| 0 <= j < q < r@.len() ==> #[trigger] r@[j] < #[trigger] r@[q],
{
    let b = bin.to_owned();
    let mut r: Vec<usize> = Vec::new();
    let n = items.len();
    assert(items@.take(0) =~= Seq::<Item>::empty());
    for i in 0..n
        invariant
            n == items@.len(),
            b@ == bin@,
            r@ == bin_indices(items@.take(i as int), bin@),
    {
        assert(items@.take(i + 1).drop_last() =~= items@.take(i as int));
        if items[i].bin == b {
            r.push(i);
        }
    }
    assert(items@.take(n as int) =~= items@);
    proof {
        lemma_bin_indices_in_range(items@, bin@);
        crate::laws::lemma_bin_membership(items@, bin@);
    }
    r
}

/// The position of the first item with id `id`, or `0` when there is none.
pub fn position_of(items: &Vec<Item>, id: &str) -> (r: usize)
    ensures
        (exists|i: int| 0 <= i < items@.len() && #[trigger] items@[i].id@ == id@) ==> {
            &&& r < items@.len()
            &&& items@[r as int].id@ == id@
            &&& forall|j: int| 0 <= j < r ==> #[trigger] items@[j].id@ != id@
        },
        !(exists|i: int| 0 <= i < items@.len() && #[trigger] items@[i].id@ == id@) ==> r == 0,
{
    let k = id.to_owned();
    let n = items.len();
    for i in 0..n
        invariant
            n == items@.len(),
            k@ == id@,
            forall|j: int| 0 <= j < i ==> #[trigger] items@[j].id@ != id@,
    {
        if items[i].id == k {
            return i;
        }
    }
    0
}

/// Whether the row for the item with id `id` carries the cursor: the first
/// item with that id is the selected one.
pub fn is_cursor_row(items: &Vec<Item>, selected: usize, id: &str) -> (b: bool)
    ensures
        (exists|i: int| 0 <= i < items@.len() && #[trigger] items@[i].id@ == id@) ==> (b <==> (
        selected < items@.len() && items@[selected as int].id@ == id@ && forall|j: int|
            0 <= j < selected ==> #[trigger] items@[j].id@ != id@)),
        !(exists|i: int| 0 <= i < items@.len() && #[trigger] items@[i].id@ == id@) ==> (b <==> selected == 0),
{
    position_of(items, id) == selected
}

/// Blue minus red of one aggregate as an `i64` (wrapping, as `i64`
/// arithmetic does in a release build).
pub fn item_net(a: &Agg) -> (r: i64)
    ensures
        r == wrap_i64(a.net()),
{
    (a.blue as i64).wrapping_sub(a.red as i64)
}

/// The votes cast on a bin: the reported totals of its members added up
/// (wrapping modulo 2^64, as `u64` addition does in a release build).
pub fn bin_vote_total(aggs: &AggMap, items: &Vec<Item>, members: &Vec<usize>) -> (t: u64)
    requires
        forall|i: int| 0 <= i < members@.len() ==> #[trigger] members@[i] < items@.len(),
    ensures
        t == wrap_u64(members_total(aggs@, items@, members@) as int),
{
    let mut t: u64 = 0;
    let n = members.len();
    assert(members@.take(0) =~= Seq::<usize>::empty());
    for i in 0..n
        invariant
            n == members@.len(),
            forall|q: int| 0 <= q < members@.len() ==> #[trigger] members@[q] < items@.len(),
            t == wrap_u64(members_total(aggs@, items@, members@.take(i as int)) as int),
    {
        assert(members@.take(i + 1).drop_last() =~= members@.take(i as int));
        assert(members@.take(i + 1).last() == members@[i as int]);
        let m = members[i];
        let x: u64 = match aggs.get(items[m].id.as_str()) {
            Some(a) => a.total,
            None => 0,
        };
        proof {
            crate::tally::lemma_wrap_u64_add(
                members_total(aggs@, items@, members@.take(i as int)) as int,
                x,
            );
        }
        t = t.wrapping_add(x);
    }
    assert(members@.take(n as int) =~= members@);
    t
}

} // verus!
