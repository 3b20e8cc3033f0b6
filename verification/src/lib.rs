//! Calendar arithmetic for a month view: Gregorian date rules, the order of
//! weekdays, the classification of the cells of a six-week grid, and the way
//! back from a date to the cell that shows it.

pub mod anilabel;
pub mod cal;
pub mod date;
pub mod event;
pub mod grid;
pub mod month;
pub mod yeargrid;
