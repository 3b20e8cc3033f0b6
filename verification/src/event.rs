//! Events to mark in the calendar.

use vstd::prelude::*;
use vstd::string::StringExecFns;
use crate::date::Date;

verus! {

/// How often an event comes back.
#[derive(Clone, Copy, Debug, PartialEq, Eq, Structural)]
pub enum Repeat {
    Never,
    Weekly,
    Monthly,
    Yearly,
}

impl Default for Repeat {
    fn default() -> (repeat: Repeat)
        ensures
            repeat == Repeat::Never,
    {
        Repeat::Never
    }
}

/// Something to mark in the calendar: the day it starts on, and the style
/// class that the day's cell gets.
#[derive(Clone, Debug)]
pub struct Event {
    pub active: bool,
    pub class: String,
    pub start: Date,
    pub end: Option<Date>,
    pub repeat: Repeat,
}

impl Default for Event {
    fn default() -> (event: Event)
        ensures
            event.active,
            event.class@ == "event"@,
            event.start.spec_year() == 1970,
            event.start.spec_month() == 1,
            event.start.spec_day() == 1,
            event.end is None,
            event.repeat == Repeat::Never,
    {
        Event {
            active: true,
            class: String::from_str("event"),
            start: Date::unix_epoch(),
            end: None,
            repeat: Repeat::Never,
        }
    }
}

/// The event that marks `date` as the present day.
pub fn today(date: Date) -> (event: Event)
    ensures
        event.active,
        event.class@ == "today"@,
        event.start == date,
        event.end is None,
        event.repeat == Repeat::Never,
{
    Event {
        active: true,
        class: String::from_str("today"),
        start: date,
        end: None,
        repeat: Repeat::Never,
    }
}

} // verus!
