use vstd::prelude::*;
use vstd::string::*;

use crate::history::{initial_history, new_history, record, recorded, HISTORY_CAP, HISTORY_START};
use crate::tally::{distinct_keys, inserted, lookup, net_score, totals_of, wrap_i64, AggMap, Entries};
use crate::trit::{gf3_of, gf3_residue, label, label_view};
use crate::types::{Agg, Item};

verus! {

/// The cursor position after moving down: the next item, wrapping to the
/// first after the last; unchanged when there are no items.
pub open spec fn next_index(sel: usize, len: nat) -> int {
    if len == 0 {
        sel as int
    } else {
        (sel + 1) % (len as int)
    }
}

/// The cursor position after moving up: the previous item, wrapping to the
/// last before the first; unchanged when there are no items.
pub open spec fn prev_index(sel: usize, len: nat) -> int {
    if len == 0 {
        sel as int
    } else if sel == 0 {
        len - 1
    } else {
        sel - 1
    }
}

/// The cursor position after the item list changes to `len` items: pulled
/// back onto the last item when it points past the end of a non-empty list.
pub open spec fn clamped(sel: usize, len: nat) -> int {
    if sel >= len && len > 0 {
        len - 1
    } else {
        sel as int
    }
}

/// The message shown after a vote went through.
pub open spec fn voted_message(choice: i8, item: Seq<char>) -> Seq<char> {
    "voted "@ + label_view(choice) + " on "@ + item
}

/// The abstract state of an [`App`].
pub struct AppView {
    pub items: Seq<Item>,
    pub aggs: Entries,
    pub selected: usize,
    pub history: Seq<i64>,
    pub last_msg: Seq<char>,
}

/// The state behind the voting view: the catalogue, the aggregates per item,
/// the cursor, the recent net scores and the last status message.
pub struct App {
    pub items: Vec<Item>,
    pub aggs: AggMap,
    pub selected: usize,
    pub history: Vec<i64>,
    pub last_msg: String,
}

impl View for App {
    type V = AppView;

    open spec fn view(&self) -> AppView {
        AppView {
            items: self.items@,
            aggs: self.aggs@,
            selected: self.selected,
            history: self.history@,
            last_msg: self.last_msg@,
        }
    }
}

impl AppView {
    /// The cursor is on an item whenever there is one, no item id has two
    /// aggregates, and the history holds between `HISTORY_START` and
    /// `HISTORY_CAP` samples.
    pub open spec fn wf(self) -> bool {
        &&& self.items.len() > 0 ==> self.selected < self.items.len()
        &&& distinct_keys(self.aggs)
        &&& HISTORY_START <= self.history.len() <= HISTORY_CAP
    }

    /// The state of a fresh view.
    pub open spec fn initial() -> AppView {
        AppView {
            items: Seq::empty(),
            aggs: Seq::empty(),
            selected: 0,
            history: initial_history(),
            last_msg: Seq::empty(),
        }
    }
}

impl Default for App {
    fn default() -> (a: App)
        ensures
            a@ == AppView::initial(),
    {
        App::new()
    }
}

impl App {
    /// A fresh view: no items, no aggregates, the cursor at the top and a
    /// history of `HISTORY_START` zeros.
    pub fn new() -> (a: App)
        ensures
            a@ == AppView::initial(),
            a@.wf(),
    {
        App {
            items: Vec::new(),
            aggs: AggMap::new(),
            selected: 0,
            history: new_history(),
            last_msg: String::new(),
        }
    }

    /// Replaces the catalogue and pulls the cursor back onto the list.
    pub fn set_items(&mut self, items: Vec<Item>)
        ensures
            final(self)@ == (AppView {
                items: items@,
                selected: clamped(old(self).selected, items@.len()) as usize,
                ..old(self)@
            }),
            old(self)@.wf() ==> final(self)@.wf(),
            old(self).selected < items@.len() ==> final(self).selected == old(self).selected,
            0 < items@.len() <= old(self).selected ==> final(self).selected == items@.len() - 1,
    {
        self.items = items;
        if self.selected >= self.items.len() && !self.items.is_empty() {
            self.selected = self.items.len() - 1;
        }
    }

    /// Replaces all aggregates and records the new net score.
    pub fn set_aggs(&mut self, aggs: AggMap)
        ensures
            final(self)@ == (AppView {
                aggs: aggs@,
                history: recorded(old(self)@.history, net_score(aggs@)),
                ..old(self)@
            }),
            old(self)@.wf() ==> final(self)@.wf(),
            distinct_keys(final(self)@.aggs),
    {
        proof {
            use_type_invariant(&aggs);
        }
        self.aggs = aggs;
        self.push_history();
    }

    /// Stores the aggregate the server returned for a vote on `item`, records
    /// the new net score and reports the vote.
    pub fn apply_vote(&mut self, item: &str, agg: Agg, choice: i8)
        ensures
            final(self)@ == (AppView {
                aggs: inserted(old(self)@.aggs, item@, agg),
                history: recorded(
                    old(self)@.history,
                    net_score(inserted(old(self)@.aggs, item@, agg)),
                ),
                last_msg: voted_message(choice, item@),
                ..old(self)@
            }),
            old(self)@.wf() ==> final(self)@.wf(),
            distinct_keys(old(self)@.aggs),
            distinct_keys(final(self)@.aggs),
            lookup(final(self)@.aggs, item@) == Some(agg),
            forall|k: Seq<char>|
                k != item@ ==> #[trigger] lookup(final(self)@.aggs, k) == lookup(old(self)@.aggs, k),
    {
        proof {
            use_type_invariant(&self.aggs);
            crate::laws::lemma_lookup_after_insert(self.aggs@, item@, agg, item@);
            assert forall|k: Seq<char>| k != item@ implies #[trigger] lookup(
                inserted(old(self)@.aggs, item@, agg),
                k,
            ) == lookup(old(self)@.aggs, k) by {
                crate::laws::lemma_lookup_after_insert(old(self)@.aggs, item@, agg, k);
            }
        }
        self.aggs.insert(item.to_owned(), agg);
        self.push_history();
        let mut msg = "voted ".to_owned();
        msg.append(label(choice));
        msg.append(" on ");
        msg.append(item);
        self.last_msg = msg;
    }

    /// Shows `msg` as the status message.
    pub fn err(&mut self, msg: String)
        ensures
            final(self)@ == (AppView { last_msg: msg@, ..old(self)@ }),
            old(self)@.wf() ==> final(self)@.wf(),
    {
        self.last_msg = msg;
    }

    /// Moves the cursor down one item, wrapping around.
    pub fn next(&mut self)
        requires
            old(self).items.len() > 0 ==> old(self).selected < usize::MAX,
        ensures
            final(self)@ == (AppView {
                selected: next_index(old(self).selected, old(self)@.items.len()) as usize,
                ..old(self)@
            }),
            old(self)@.wf() ==> final(self)@.wf(),
            old(self).selected + 1 < old(self).items.len() ==> final(self).selected == old(self).selected + 1,
            old(self).selected + 1 == old(self).items.len() ==> final(self).selected == 0,
    {
        if !self.items.is_empty() {
            proof {
                if old(self).selected < old(self).items.len() {
                    crate::laws::lemma_cursor_direction(old(self).selected, old(self)@.items.len());
                }
            }
            self.selected = (self.selected + 1) % self.items.len();
        }
    }

    /// Moves the cursor up one item, wrapping around.
    pub fn prev(&mut self)
        ensures
            final(self)@ == (AppView {
                selected: prev_index(old(self).selected, old(self)@.items.len()) as usize,
                ..old(self)@
            }),
            old(self)@.wf() ==> final(self)@.wf(),
            0 < old(self).selected < old(self).items.len() ==> final(self).selected == old(self).selected - 1,
            old(self).selected == 0 < old(self).items.len() ==> final(self).selected == old(self).items.len() - 1,
    {
        if !self.items.is_empty() {
            self.selected = if self.selected == 0 {
                self.items.len() - 1
            } else {
                self.selected - 1
            };
        }
    }

    /// The item under the cursor, if the cursor is on one.
    pub fn selected_item(&self) -> (r: Option<&Item>)
        ensures
            match r {
                Some(it) => self.selected < self.items.len() && *it == self.items@[self.selected as int],
                None => self.selected >= self.items.len(),
            },
    {
        if self.selected < self.items.len() {
            Some(&self.items[self.selected])
        } else {
            None
        }
    }

    /// Each count summed over all items.
    pub fn totals(&self) -> (t: Agg)
        ensures
            t == totals_of(self.aggs@),
    {
        self.aggs.totals()
    }

    /// The GF(3) class (in `0..3`) of total blue minus total red.
    pub fn gf3(&self) -> (r: i64)
        ensures
            r == gf3_of(wrap_i64(totals_of(self.aggs@).net()) as int),
            0 <= r < 3,
    {
        let t = self.totals();
        let net = (t.blue as i64).wrapping_sub(t.red as i64);
        gf3_residue(net)
    }

    /// Appends the current net score (blue minus red over all items) to the
    /// history.
    fn push_history(&mut self)
        ensures
            final(self)@ == (AppView {
                history: recorded(old(self)@.history, net_score(old(self)@.aggs)),
                ..old(self)@
            }),
    {
        let net = self.aggs.net_total();
        record(&mut self.history, net);
    }
}

} // verus!
