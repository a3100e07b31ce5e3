//! Entries of the application menu.

use vstd::prelude::*;
use crate::views::CalendarView;

verus! {

/// An entry of the application menu.
#[derive(Clone, Copy, Debug, PartialEq, Eq, Structural)]
pub enum MenuAction {
    NewEvent,
    Settings,
    ViewMonth,
    ViewWeek,
    ViewDay,
    About,
}

impl MenuAction {
    /// The view an entry switches to, if it switches views.
    pub fn target_view(&self) -> (r: Option<CalendarView>)
        ensures
            r == match *self {
                MenuAction::ViewMonth => Some(CalendarView::Month),
                MenuAction::ViewWeek => Some(CalendarView::Week),
                MenuAction::ViewDay => Some(CalendarView::Day),
                _ => None,
            },
    {
        match self {
            MenuAction::ViewMonth => Some(CalendarView::Month),
            MenuAction::ViewWeek => Some(CalendarView::Week),
            MenuAction::ViewDay => Some(CalendarView::Day),
            _ => None,
        }
    }
}

} // verus!
