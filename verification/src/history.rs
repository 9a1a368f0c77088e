use vstd::prelude::*;

verus! {

/// The most net scores the history keeps.
pub const HISTORY_CAP: usize = 120;

/// The number of zero samples a fresh history starts with.
pub const HISTORY_START: usize = 60;

/// The history after recording `net`: the sample is appended and, while the
/// history holds more than `HISTORY_CAP` samples, the oldest are dropped.
pub open spec fn recorded(h: Seq<i64>, net: i64) -> Seq<i64> {
    let p = h.push(net);
    if p.len() > HISTORY_CAP {
        p.subrange(p.len() - HISTORY_CAP, p.len() as int)
    } else {
        p
    }
}

/// The history a fresh view starts with: `HISTORY_START` zero samples.
pub open spec fn initial_history() -> Seq<i64> {
    Seq::new(HISTORY_START as nat, |i: int| 0i64)
}

/// A fresh history of `HISTORY_START` zeros.
pub(crate) fn new_history() -> (h: Vec<i64>)
    ensures
        h@ == initial_history(),
{
    let h = vec![0i64; HISTORY_START];
    assert(h@ =~= initial_history());
    h
}

/// Appends `net` to the history and drops the oldest samples beyond
/// `HISTORY_CAP`.
pub(crate) fn record(history: &mut Vec<i64>, net: i64)
    ensures
        final(history)@ == recorded(old(history)@, net),
{
    history.push(net);
    let ghost p = old(history)@.push(net);
    while history.len() > HISTORY_CAP
        invariant
            history@ == p.subrange(p.len() - history@.len(), p.len() as int),
            history@.len() <= p.len(),
            p.len() > HISTORY_CAP ==> history@.len() >= HISTORY_CAP,
            p.len() <= HISTORY_CAP ==> history@.len() == p.len(),
        decreases history.len(),
    {
        history.remove(0);
    }
    assert(history@ =~= recorded(old(history)@, net));
}

} // verus!
