//! The life of a game session: when it goes on and when it ends.

use vstd::prelude::*;

verus! {

/// What the session does after an event.
#[derive(Clone, Copy, Debug, PartialEq, Eq, Structural)]
pub enum Transition {
    /// The session goes on.
    Continue,
    /// The session ends.
    Quit,
}

/// Decides what follows a window event. The session ends when the window is
/// asked to close or the escape key goes down; every other event leaves it
/// running.
pub fn handle_event(close_requested: bool, escape_down: bool) -> (transition: Transition)
    ensures
        transition == (if close_requested || escape_down {
            Transition::Quit
        } else {
            Transition::Continue
        }),
{
    if close_requested || escape_down {
        Transition::Quit
    } else {
        Transition::Continue
    }
}

} // verus!
