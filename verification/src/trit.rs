use vstd::prelude::*;

verus! {

/// The name of a trit as shown to a voter.
pub open spec fn label_view(c: i8) -> Seq<char> {
    if c == -1 {
        "red"@
    } else if c == 0 {
        "abstain"@
    } else if c == 1 {
        "blue"@
    } else {
        "?"@
    }
}

/// Names a vote choice: `-1` is red, `0` abstain, `1` blue; any other
/// value is shown as `?`.
pub fn label(c: i8) -> (r: &'static str)
    ensures
        r@ == label_view(c),
{
    match c {
        -1 => "red",
        0 => "abstain",
        1 => "blue",
        _ => "?",
    }
}

/// The residue of a net score in GF(3): the representative in `0..3`.
pub open spec fn gf3_of(net: int) -> int {
    net % 3
}

/// Reduces a net score to its GF(3) class in `0..3`, also for negative
/// scores (`((net % 3) + 3) % 3` with Rust's truncating remainder).
pub fn gf3_residue(net: i64) -> (r: i64)
    ensures
        r == gf3_of(net as int),
        0 <= r < 3,
{
    let t = net % 3;
    ((t + 3) % 3)
}

} // verus!
