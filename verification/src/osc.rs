use vstd::prelude::*;
use vstd::string::*;

use crate::app::{clamped, App as Board, AppView};
use crate::history::recorded;
use crate::tally::{distinct_keys, inserted, lookup, net_score, totals_of, wrap_i64, AggMap, Entries};
use crate::trit::gf3_of;
use crate::types::{Agg, Item};

verus! {

/// A fetch result as plain values: the payload, or the error's message.
pub open spec fn items_outcome(r: Result<Vec<Item>, String>) -> Result<Seq<Item>, Seq<char>> {
    match r {
        Ok(v) => Ok(v@),
        Err(e) => Err(e@),
    }
}

/// A fetch result as plain values: the payload, or the error's message.
pub open spec fn aggs_outcome(r: Result<AggMap, String>) -> Result<Entries, Seq<char>> {
    match r {
        Ok(m) => Ok(m@),
        Err(e) => Err(e@),
    }
}

/// The state after a refresh: the catalogue is replaced or its error is
/// reported, then the aggregates are replaced (recording the new net score)
/// or their error is reported, and finally the cursor is pulled back onto
/// the list.
pub open spec fn refreshed(
    v: AppView,
    catalog: Result<Seq<Item>, Seq<char>>,
    aggs: Result<Entries, Seq<char>>,
) -> AppView {
    let v1 = match catalog {
        Ok(items) => AppView { items: items, ..v },
        Err(e) => AppView { last_msg: "catalog err: "@ + e, ..v },
    };
    let v2 = match aggs {
        Ok(a) => AppView { aggs: a, history: recorded(v1.history, net_score(a)), ..v1 },
        Err(e) => AppView { last_msg: "agg err: "@ + e, ..v1 },
    };
    AppView { selected: clamped(v2.selected, v2.items.len()) as usize, ..v2 }
}

/// The state after the server answered a vote on `item`: the returned
/// aggregate is stored and the vote reported, or the error is reported.
pub open spec fn voted(v: AppView, item: Seq<char>, choice: i8, outcome: Result<Agg, Seq<char>>) -> AppView {
    match outcome {
        Ok(agg) => AppView {
            aggs: inserted(v.aggs, item, agg),
            history: recorded(v.history, net_score(inserted(v.aggs, item, agg))),
            last_msg: crate::app::voted_message(choice, item),
            ..v
        },
        Err(e) => AppView { last_msg: "vote err: "@ + e, ..v },
    }
}

/// The oscilloscope view: the voting state bound to the server it talks to.
pub struct App {
    pub endpoint: String,
    pub state: Board,
}

impl App {
    /// A fresh view of the server at `endpoint`.
    pub fn new(endpoint: String) -> (a: App)
        ensures
            a.endpoint@ == endpoint@,
            a.state@ == AppView::initial(),
            a.state@.wf(),
    {
        App { endpoint, state: Board::new() }
    }

    /// Takes in what a refresh fetched: the catalogue and the aggregates,
    /// each either the payload or the message of the error that stopped it.
    pub fn apply_refresh(&mut self, catalog: Result<Vec<Item>, String>, aggs: Result<AggMap, String>)
        ensures
            final(self).endpoint == old(self).endpoint,
            final(self).state@ == refreshed(
                old(self).state@,
                items_outcome(catalog),
                aggs_outcome(aggs),
            ),
            old(self).state@.wf() ==> final(self).state@.wf(),
    {
        match catalog {
            Ok(items) => {
                self.state.items = items;
            },
            Err(e) => {
                let mut msg = "catalog err: ".to_owned();
                msg.append(e.as_str());
                self.state.last_msg = msg;
            },
        }
        match aggs {
            Ok(a) => {
                self.state.set_aggs(a);
            },
            Err(e) => {
                let mut msg = "agg err: ".to_owned();
                msg.append(e.as_str());
                self.state.last_msg = msg;
            },
        }
        if self.state.selected >= self.state.items.len() && !self.state.items.is_empty() {
            self.state.selected = self.state.items.len() - 1;
        }
    }

    /// Takes in the server's answer to a vote of `choice` on `item`.
    pub fn apply_vote_outcome(&mut self, item: &str, choice: i8, outcome: Result<Agg, String>)
        ensures
            final(self).endpoint == old(self).endpoint,
            final(self).state@ == voted(
                old(self).state@,
                item@,
                choice,
                match outcome {
                    Ok(a) => Ok(a),
                    Err(e) => Err(e@),
                },
            ),
            old(self).state@.wf() ==> final(self).state@.wf(),
            distinct_keys(final(self).state@.aggs),
            outcome matches Ok(a) ==> lookup(final(self).state@.aggs, item@) == Some(a),
            outcome matches Ok(a) ==> forall|k: Seq<char>|
                k != item@ ==> #[trigger] lookup(final(self).state@.aggs, k) == lookup(
                    old(self).state@.aggs,
                    k,
                ),
    {
        proof {
            use_type_invariant(&self.state.aggs);
        }
        match outcome {
            Ok(agg) => {
                self.state.apply_vote(item, agg, choice);
            },
            Err(e) => {
                let mut msg = "vote err: ".to_owned();
                msg.append(e.as_str());
                self.state.last_msg = msg;
            },
        }
    }

    /// Moves the cursor down one item, wrapping around.
    pub fn next(&mut self)
        requires
            old(self).state.items.len() > 0 ==> old(self).state.selected < usize::MAX,
        ensures
            final(self).endpoint == old(self).endpoint,
            final(self).state@ == (AppView {
                selected: crate::app::next_index(old(self).state.selected, old(self).state@.items.len()) as usize,
                ..old(self).state@
            }),
            old(self).state@.wf() ==> final(self).state@.wf(),
    {
        self.state.next();
    }

    /// Moves the cursor up one item, wrapping around.
    pub fn prev(&mut self)
        ensures
            final(self).endpoint == old(self).endpoint,
            final(self).state@ == (AppView {
                selected: crate::app::prev_index(old(self).state.selected, old(self).state@.items.len()) as usize,
                ..old(self).state@
            }),
            old(self).state@.wf() ==> final(self).state@.wf(),
    {
        self.state.prev();
    }

    /// Each count summed over all items.
    pub fn totals(&self) -> (t: Agg)
        ensures
            t == totals_of(self.state.aggs@),
    {
        self.state.totals()
    }

    /// The GF(3) class (in `0..3`) of total blue minus total red.
    pub fn gf3(&self) -> (r: i64)
        ensures
            r == gf3_of(wrap_i64(totals_of(self.state.aggs@).net()) as int),
            0 <= r < 3,
    {
        self.state.gf3()
    }
}

} // verus!
