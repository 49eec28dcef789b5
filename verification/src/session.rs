//! The decisions of the interactive loop: which stored state and which
//! action each debounced key press produces. The host loop only polls
//! keys and the cursor, performs the returned action, and repeats.

use vstd::prelude::*;
use crate::model::{Mode, Point2D};

verus! {

/// Rising-edge detection for one polled key, so a held key fires once.
#[derive(Clone, Copy, PartialEq, Eq, Structural, Debug)]
pub struct KeyEdge {
    pub was_down: bool,
}

impl KeyEdge {
    /// A fresh tracker; the first poll of a held key counts as a press.
    pub fn new() -> (k: KeyEdge)
        ensures
            k.was_down == false,
    {
        KeyEdge { was_down: false }
    }

    /// Feeds one poll; true exactly on the transition from up to down.
    pub fn update(&mut self, down: bool) -> (pressed: bool)
        ensures
            pressed == (down && !old(self).was_down),
            final(self).was_down == down,
    {
        let pressed = down && !self.was_down;
        self.was_down = down;
        pressed
    }
}

/// What the operator has entered so far, owned by the host loop and
/// passed by value into each decision.
#[derive(Clone, Copy, PartialEq, Eq, Structural, Debug)]
pub struct Session {
    pub source: Option<Point2D>,
    pub target: Option<Point2D>,
    pub mode: Mode,
}

/// What the host loop must do after a key decision.
#[derive(Clone, Copy, PartialEq, Eq, Structural, Debug)]
pub enum Action {
    /// Redraw the banner and the stored state.
    Redraw,
    /// Solve for the stored points and show the results.
    Calculate,
    /// Nothing: the key is unbound or the state is not ready.
    Idle,
}

impl Session {
    /// The starting state: no points stored, speed-solving mode.
    pub fn new() -> (s: Session)
        ensures
            s.source is None,
            s.target is None,
            s.mode == Mode::Velocity,
    {
        Session { source: None, target: None, mode: Mode::Velocity }
    }

    /// One debounced key press: keys one and two store the cursor as
    /// origin and target, three asks for a calculation once both
    /// points are set, four clears the points, five switches the mode,
    /// six only redraws; any other key does nothing.
    pub fn on_key(self, key: u8, cursor: Point2D) -> (r: (Session, Action))
        ensures
            key == 1 ==> r.0 == (Session { source: Some(cursor), target: self.target, mode: self.mode })
                && r.1 == Action::Redraw,
            key == 2 ==> r.0 == (Session { source: self.source, target: Some(cursor), mode: self.mode })
                && r.1 == Action::Redraw,
            key == 3 ==> r.0 == self && r.1 == (if self.source is Some && self.target is Some {
                Action::Calculate
            } else {
                Action::Idle
            }),
            key == 4 ==> r.0 == (Session { source: None, target: None, mode: self.mode })
                && r.1 == Action::Redraw,
            key == 5 ==> r.0 == (Session {
                source: self.source,
                target: self.target,
                mode: if self.mode == Mode::Angle {
                    Mode::Velocity
                } else {
                    Mode::Angle
                },
            }) && r.1 == Action::Redraw,
            key == 6 ==> r.0 == self && r.1 == Action::Redraw,
            key == 0 || key > 6 ==> r.0 == self && r.1 == Action::Idle,
    {
        if key == 1 {
            (
                Session { source: Some(cursor), target: self.target, mode: self.mode },
                Action::Redraw,
            )
        } else if key == 2 {
            (
                Session { source: self.source, target: Some(cursor), mode: self.mode },
                Action::Redraw,
            )
        } else if key == 3 {
            if self.source.is_some() && self.target.is_some() {
                (self, Action::Calculate)
            } else {
                (self, Action::Idle)
            }
        } else if key == 4 {
            (Session { source: None, target: None, mode: self.mode }, Action::Redraw)
        } else if key == 5 {
            (
                Session { source: self.source, target: self.target, mode: self.mode.toggled() },
                Action::Redraw,
            )
        } else if key == 6 {
            (self, Action::Redraw)
        } else {
            (self, Action::Idle)
        }
    }
}

} // verus!
