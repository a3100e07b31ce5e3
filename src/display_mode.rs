//! How many events a day cell shows, and in which style.

use vstd::prelude::*;

verus! {

/// Display style of the events in a day cell.
#[derive(Clone, Copy, Debug, PartialEq, Eq, Structural)]
pub enum EventDisplayMode {
    /// Chips with text.
    Full { max_visible: usize, show_overflow: bool },
    /// Thin colored lines without text.
    Compact { max_visible: usize, show_overflow: bool },
}

impl EventDisplayMode {
    /// Whether this is the compact style.
    pub fn is_compact(&self) -> (r: bool)
        ensures
            r == (*self is Compact),
    {
        match self {
            EventDisplayMode::Compact { .. } => true,
            EventDisplayMode::Full { .. } => false,
        }
    }

    /// Most events the cell shows.
    pub fn max_visible(&self) -> (r: usize)
        ensures
            r == match *self {
                EventDisplayMode::Full { max_visible, .. } => max_visible,
                EventDisplayMode::Compact { max_visible, .. } => max_visible,
            },
    {
        match self {
            EventDisplayMode::Full { max_visible, .. } => *max_visible,
            EventDisplayMode::Compact { max_visible, .. } => *max_visible,
        }
    }

    /// Whether the cell shows how many events did not fit.
    pub fn show_overflow(&self) -> (r: bool)
        ensures
            r == match *self {
                EventDisplayMode::Full { show_overflow, .. } => show_overflow,
                EventDisplayMode::Compact { show_overflow, .. } => show_overflow,
            },
    {
        match self {
            EventDisplayMode::Full { show_overflow, .. } => *show_overflow,
            EventDisplayMode::Compact { show_overflow, .. } => *show_overflow,
        }
    }
}

} // verus!
