use vstd::prelude::*;

pub use crate::trit::label;

verus! {

/// A catalogue entry that voters can vote on.
#[derive(Clone, Debug)]
pub struct Item {
    pub id: String,
    pub title: String,
    /// The bin the item is listed in (`"red"` or `"blue"`).
    pub bin: String,
    pub source: String,
}

/// The vote counts of one item. `total` is reported by the server and is not
/// derived from the other three counts here.
#[derive(Clone, Copy, Debug, PartialEq, Eq)]
pub struct Agg {
    pub red: u64,
    pub blue: u64,
    pub abstain: u64,
    pub total: u64,
}

impl Agg {
    /// The aggregate with every count at zero.
    pub open spec fn zero() -> Agg {
        Agg { red: 0, blue: 0, abstain: 0, total: 0 }
    }

    /// Blue minus red, each count first read as an `i64` the way the
    /// history computes it.
    pub open spec fn net(self) -> int {
        (self.blue as i64) as int - (self.red as i64) as int
    }
}

impl Default for Agg {
    fn default() -> (a: Agg)
        ensures
            a == Agg::zero(),
    {
        Agg { red: 0, blue: 0, abstain: 0, total: 0 }
    }
}

} // verus!
