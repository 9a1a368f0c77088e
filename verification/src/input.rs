use vstd::prelude::*;

verus! {

/// A key press, reduced to what the view reacts to.
#[derive(Clone, Copy, Debug, PartialEq, Eq)]
pub enum Key {
    Char(char),
    Esc,
    Up,
    Down,
    Other,
}

/// What the event loop does next.
#[derive(Clone, Copy, Debug, PartialEq, Eq)]
pub enum Action {
    /// Leave the loop.
    Quit,
    /// Vote the given trit on the selected item.
    Vote(i8),
    /// Move the cursor down.
    Next,
    /// Move the cursor up.
    Prev,
    /// Fetch the catalogue and the aggregates again.
    Refresh,
    /// Do nothing for this key, then check whether a refresh is due.
    Idle,
    /// Ignore the event (a key release or repeat) and draw the next frame
    /// straight away.
    Skip,
}

/// How long the view waits between automatic refreshes, in nanoseconds.
pub const REFRESH_INTERVAL_NANOS: u128 = 15_000_000_000;

/// The key bindings: `q`/Esc quit, `r`/`b`/space vote red/blue/abstain,
/// Down/`j` and Up/`k` move, `R` refreshes; other keys do nothing, and
/// anything but a press is skipped.
pub open spec fn action_of(key: Key, pressed: bool) -> Action {
    if !pressed {
        Action::Skip
    } else {
        match key {
            Key::Char(c) => if c == 'q' {
                Action::Quit
            } else if c == 'r' {
                Action::Vote(-1i8)
            } else if c == 'b' {
                Action::Vote(1i8)
            } else if c == ' ' {
                Action::Vote(0i8)
            } else if c == 'j' {
                Action::Next
            } else if c == 'k' {
                Action::Prev
            } else if c == 'R' {
                Action::Refresh
            } else {
                Action::Idle
            },
            Key::Esc => Action::Quit,
            Key::Down => Action::Next,
            Key::Up => Action::Prev,
            Key::Other => Action::Idle,
        }
    }
}

/// What the event loop does for a key event; `pressed` is false for key
/// releases and repeats.
pub fn action_for(key: Key, pressed: bool) -> (a: Action)
    ensures
        a == action_of(key, pressed),
        !pressed ==> a == Action::Skip,
{
    if !pressed {
        return Action::Skip;
    }
    match key {
        Key::Char('q') | Key::Esc => Action::Quit,
        Key::Char('r') => Action::Vote(-1),
        Key::Char('b') => Action::Vote(1),
        Key::Char(' ') => Action::Vote(0),
        Key::Down | Key::Char('j') => Action::Next,
        Key::Up | Key::Char('k') => Action::Prev,
        Key::Char('R') => Action::Refresh,
        _ => Action::Idle,
    }
}

/// Whether an automatic refresh is due after `elapsed_nanos` since the
/// last one: strictly more than `REFRESH_INTERVAL_NANOS`.
pub fn refresh_due(elapsed_nanos: u128) -> (due: bool)
    ensures
        due == (elapsed_nanos > REFRESH_INTERVAL_NANOS),
{
    elapsed_nanos > REFRESH_INTERVAL_NANOS
}

} // verus!
