//! A month as a grid of day cells: what each cell shows, where the month
//! begins and ends in the grid, and which cell shows a given date.

use vstd::prelude::*;
use crate::cal::{
    abbreviate, filler, first_day, grid_day, spec_abbreviate, spec_days_in_month, spec_first_day,
    spec_padding, valid_month, weekdays_with_first, CalendarDay, REFORM_YEAR,
};
use crate::date::Date;
use crate::event::Event;
use crate::grid::{GridCell, Range, COLUMNS, ROWS};

verus! {

/// The number of day cells in a month's grid.
pub const CELLS: usize = 42;

/// One day cell of a month's grid: the day it shows, and whether it is
/// styled as a weekend day.
#[derive(Clone, Copy, Debug, PartialEq, Eq, Structural)]
pub struct DayLabel {
    pub day: CalendarDay,
    pub weekend: bool,
}

/// A style class put on the cell of a day of the displayed month.
#[derive(Clone, Debug)]
pub struct Mark {
    pub cell: GridCell,
    pub class: String,
}

/// Whether a day cell counts as a day of the displayed month.
pub open spec fn is_current() -> spec_fn(CalendarDay) -> bool {
    |day: CalendarDay| day is Current
}

/// The day cells of a month, row by row.
pub open spec fn spec_days(year: int, month: int, selector: Seq<char>) -> Seq<CalendarDay> {
    Seq::new(
        CELLS as nat,
        |index: int| grid_day(year, month, selector, index % (COLUMNS as int), index / (COLUMNS as int)),
    )
}

/// The place in the grid of the day cell with the row-major index `index`:
/// the day cells begin in row 1, below the header.
pub open spec fn cell_of_index(index: int) -> GridCell {
    GridCell { column: (index % (COLUMNS as int)) as u8, row: (index / (COLUMNS as int) + 1) as u8 }
}

/// The span of a month in its grid: from the cell of its first day to the
/// cell of the first day of the month after.
pub open spec fn spec_range(year: int, month: int, selector: Seq<char>) -> Range {
    let padding = spec_padding(year, month, spec_first_day(selector));
    Range {
        start: cell_of_index(padding),
        end: cell_of_index(padding + spec_days_in_month(year, month)),
    }
}

/// The cell that shows the day `day` of the displayed month, found from the
/// place where the month starts.
pub open spec fn date_to_cell(range: Range, day: int) -> GridCell {
    let index = (range.start.row - 1) * COLUMNS + range.start.column + (day - 1);
    GridCell { column: (index % (COLUMNS as int)) as u8, row: (index / (COLUMNS as int) + 1) as u8 }
}

/// Whether the cells of `column` are styled as weekend days in a week that
/// begins with the weekday `first`: the sum of the two is a multiple of six or
/// of seven.
pub open spec fn spec_weekend(column: int, first: int) -> bool {
    (column + first) % 6 == 0 || (column + first) % 7 == 0
}

/// The day cell with the row-major index `index`.
pub open spec fn spec_label(year: int, month: int, selector: Seq<char>, index: int) -> DayLabel {
    DayLabel {
        day: spec_days(year, month, selector)[index],
        weekend: spec_weekend(index % (COLUMNS as int), spec_first_day(selector)),
    }
}

proof fn lemma_count_current(days: Seq<CalendarDay>, from: int, to: int, seen: int)
    requires
        0 <= from <= to <= days.len(),
        0 <= seen <= days.len(),
        forall|i: int| 0 <= i < days.len() ==> (#[trigger] days[i] is Current <==> from <= i < to),
    ensures
        days.take(seen).filter(is_current()).len() == if seen <= from {
            0
        } else if seen <= to {
            seen - from
        } else {
            to - from
        },
    decreases seen,
{
    reveal(Seq::filter);
    if seen > 0 {
        lemma_count_current(days, from, to, seen - 1);
        assert(days.take(seen).drop_last() =~= days.take(seen - 1));
        assert(days.take(seen).last() == days[seen - 1]);
    }
}

/// In the grid of every month the cells that show the month before come
/// first, without a gap; then come the cells of the month itself, as many as
/// the month has days, numbered from 1 on; the cells of the month after fill
/// the rest. At most six cells show the month before, and at least one shows
/// the month after.
pub proof fn lemma_grid_partition(year: int, month: int, selector: Seq<char>)
    requires
        valid_month(year, month),
    ensures
        ({
            let grid = spec_days(year, month, selector);
            let padding = spec_padding(year, month, spec_first_day(selector));
            let days = spec_days_in_month(year, month);
            &&& grid.len() == CELLS
            &&& 0 <= padding <= 6
            &&& padding + days < CELLS
            &&& forall|i: int| 0 <= i < padding ==> #[trigger] grid[i] is Previous
            &&& forall|i: int|
                padding <= i < padding + days ==> #[trigger] grid[i] == CalendarDay::Current(
                    (i - padding + 1) as u8,
                )
            &&& forall|i: int| padding + days <= i < CELLS ==> #[trigger] grid[i] is Next
            &&& grid.filter(is_current()).len() == days
        }),
{
    let grid = spec_days(year, month, selector);
    let padding = spec_padding(year, month, spec_first_day(selector));
    let days = spec_days_in_month(year, month);
    assert forall|i: int| 0 <= i < grid.len() implies (#[trigger] grid[i] is Current <==> padding
        <= i < padding + days) by {
        assert(i / 7 * 7 + i % 7 == i);
    }
    assert forall|i: int| padding <= i < padding + days implies #[trigger] grid[i]
        == CalendarDay::Current((i - padding + 1) as u8) by {
        assert(i / 7 * 7 + i % 7 == i);
    }
    assert forall|i: int| 0 <= i < padding implies #[trigger] grid[i] is Previous by {
        assert(i / 7 * 7 + i % 7 == i);
    }
    assert forall|i: int| padding + days <= i < CELLS implies #[trigger] grid[i] is Next by {
        assert(i / 7 * 7 + i % 7 == i);
    }
    lemma_count_current(grid, padding, padding + days, grid.len() as int);
    assert(grid.take(grid.len() as int) =~= grid);
}

/// The span of a month begins at the first of its cells, in row-major order,
/// that shows the month itself, and ends at the first that shows the month
/// after. Both lie in the rows of days.
pub proof fn lemma_range_bounds_month(year: int, month: int, selector: Seq<char>)
    requires
        valid_month(year, month),
    ensures
        ({
            let grid = spec_days(year, month, selector);
            let range = spec_range(year, month, selector);
            let start = range.start.index() - COLUMNS;
            let end = range.end.index() - COLUMNS;
            &&& range.start.column < COLUMNS && 1 <= range.start.row <= ROWS
            &&& range.end.column < COLUMNS && 1 <= range.end.row <= ROWS
            &&& 0 <= start < end < CELLS
            &&& grid[start] is Current
            &&& forall|i: int| 0 <= i < start ==> !(#[trigger] grid[i] is Current)
            &&& grid[end] is Next
            &&& forall|i: int| 0 <= i < end ==> !(#[trigger] grid[i] is Next)
        }),
{
    lemma_grid_partition(year, month, selector);
}

/// Looking up a day of the displayed month leads to the cell that shows it,
/// and looking up the day that a cell of the displayed month shows leads back
/// to that cell.
pub proof fn lemma_date_round_trip(year: int, month: int, selector: Seq<char>)
    requires
        valid_month(year, month),
    ensures
        forall|day: int|
            1 <= day <= spec_days_in_month(year, month) ==> {
                let cell = #[trigger] date_to_cell(spec_range(year, month, selector), day);
                &&& cell.column < COLUMNS
                &&& 1 <= cell.row <= ROWS
                &&& grid_day(year, month, selector, cell.column as int, cell.row - 1)
                    == CalendarDay::Current(day as u8)
            },
        forall|column: int, row: int|
            0 <= column < COLUMNS && 0 <= row < ROWS && (#[trigger] grid_day(
                year,
                month,
                selector,
                column,
                row,
            )) is Current ==> date_to_cell(
                spec_range(year, month, selector),
                grid_day(year, month, selector, column, row).spec_number() as int,
            ) == (GridCell { column: column as u8, row: (row + 1) as u8 }),
{
}

/// A month laid out as a grid of seven columns and six rows of days, for a
/// week that begins with a chosen weekday.
pub struct MonthGrid {
    first: String,
    year: u16,
    month: u8,
    max_weekday_chars: u8,
    month_range: Range,
    days: Vec<DayLabel>,
    marks: Vec<Mark>,
}

/// What a `MonthGrid` holds.
pub struct MonthGridView {
    /// The selector of the weekday that the week begins with.
    pub first: Seq<char>,
    pub year: int,
    pub month: int,
    /// The most characters of a weekday's name that the header shows.
    pub max_weekday_chars: int,
    /// The span of the month in the grid.
    pub month_range: Range,
    /// The day cells, row by row.
    pub days: Seq<DayLabel>,
    /// The marked cells with their style classes, in the order in which they
    /// were marked.
    pub marks: Seq<(GridCell, Seq<char>)>,
}

impl View for MonthGrid {
    type V = MonthGridView;

    closed spec fn view(&self) -> MonthGridView {
        MonthGridView {
            first: self.first@,
            year: self.year as int,
            month: self.month as int,
            max_weekday_chars: self.max_weekday_chars as int,
            month_range: self.month_range,
            days: self.days@,
            marks: Seq::new(self.marks@.len(), |i: int| (self.marks@[i].cell, self.marks@[i].class@)),
        }
    }
}

impl MonthGridView {
    /// The grid is laid out for its month: the day cells and the span are
    /// those of the month, and every mark stands on a cell that shows a day
    /// of the month.
    pub open spec fn wf(self) -> bool {
        &&& valid_month(self.year, self.month)
        &&& self.month_range == spec_range(self.year, self.month, self.first)
        &&& self.days.len() == CELLS
        &&& forall|i: int|
            0 <= i < CELLS ==> #[trigger] self.days[i] == spec_label(
                self.year,
                self.month,
                self.first,
                i,
            )
        &&& forall|i: int|
            0 <= i < self.marks.len() ==> {
                let cell = (#[trigger] self.marks[i]).0;
                &&& cell.column < COLUMNS
                &&& 1 <= cell.row <= ROWS
                &&& self.days[cell.index() - COLUMNS].day is Current
            }
    }

    /// The cell that shows `date`: one of the displayed month for a date of
    /// that month, and none for any other date.
    pub open spec fn cell_of_date(self, date: Date) -> Option<GridCell> {
        if date.spec_year() == self.year && date.spec_month() == self.month {
            Some(date_to_cell(self.month_range, date.spec_day() as int))
        } else {
            None
        }
    }
}

/// The first of the grid's labels, in the order in which they were put in,
/// that is not visible yet: the one that the next frame of the display brings
/// in. `visible` tells of each label whether it is visible.
pub fn first_hidden(visible: &Vec<bool>) -> (hidden: Option<usize>)
    ensures
        match hidden {
            Some(i) => i < visible@.len() && !visible@[i as int] && forall|j: int|
                0 <= j < i ==> visible@[j],
            None => forall|j: int| 0 <= j < visible@.len() ==> visible@[j],
        },
{
    let mut i: usize = 0;
    while i < visible.len()
        invariant
            i <= visible@.len(),
            forall|j: int| 0 <= j < i ==> visible@[j],
        decreases visible@.len() - i,
    {
        if !visible[i] {
            return Some(i);
        }
        i += 1;
    }
    None
}

impl MonthGrid {
    /// The grid is laid out for its month. Every grid that this library
    /// hands out is.
    pub open spec fn wf(&self) -> bool {
        self@.wf()
    }

    /// The day cells and the span of a month. The cells are visited in row-major
    /// order; the span starts at the first cell met that shows the month itself
    /// and ends at the first that shows the month after.
    fn fill(year: u16, month: u8, first: &str) -> (filled: (Vec<DayLabel>, Range))
        requires
            year > REFORM_YEAR,
            1 <= month <= 12,
        ensures
            filled.0@.len() == CELLS,
            forall|i: int|
                0 <= i < CELLS ==> #[trigger] filled.0@[i] == spec_label(
                    year as int,
                    month as int,
                    first@,
                    i,
                ),
            filled.1 == spec_range(year as int, month as int, first@),
    {
        let day_for = filler(year, month, first);
        let offset = first_day(first);
        let ghost padding = spec_padding(year as int, month as int, spec_first_day(first@));
        let ghost length = spec_days_in_month(year as int, month as int);
        proof {
            lemma_grid_partition(year as int, month as int, first@);
        }
        let mut days: Vec<DayLabel> = Vec::with_capacity(CELLS);
        let mut start: Option<GridCell> = None;
        let mut end: Option<GridCell> = None;
        let mut cell = GridCell { column: 0, row: 0 };
        while cell.row < ROWS
            invariant
                valid_month(year as int, month as int),
                cell.column < COLUMNS,
                cell.row <= ROWS,
                cell.row == ROWS ==> cell.column == 0,
                offset == spec_first_day(first@),
                padding == spec_padding(year as int, month as int, spec_first_day(first@)),
                length == spec_days_in_month(year as int, month as int),
                0 <= padding <= 6,
                padding + length < CELLS,
                days@.len() == cell.index(),
                forall|i: int|
                    0 <= i < days@.len() ==> #[trigger] days@[i] == spec_label(
                        year as int,
                        month as int,
                        first@,
                        i,
                    ),
                start == (if cell.index() > padding {
                    Some(cell_of_index(padding))
                } else {
                    None
                }),
                end == (if cell.index() > padding + length {
                    Some(cell_of_index(padding + length))
                } else {
                    None
                }),
                forall|column: u8, row: u8|
                    column < 7 && row < 6 ==> #[trigger] day_for.requires((column, row)),
                forall|column: u8, row: u8, shown: CalendarDay|
                    column < 7 && row < 6 && #[trigger] day_for.ensures((column, row), shown) ==> shown
                        == grid_day(year as int, month as int, first@, column as int, row as int),
            decreases CELLS - cell.index(),
        {
            let day = day_for(cell.column, cell.row);
            let ghost index = cell.index();
            proof {
                lemma_grid_partition(year as int, month as int, first@);
                assert(index / 7 == cell.row && index % 7 == cell.column);
                assert(day == spec_days(year as int, month as int, first@)[index]);
            }
            match day {
                CalendarDay::Previous(_) => {},
                CalendarDay::Current(_) => {
                    if start.is_none() {
                        start = Some(GridCell { column: cell.column, row: cell.row + 1 });
                    }
                },
                CalendarDay::Next(_) => {
                    if end.is_none() {
                        end = Some(GridCell { column: cell.column, row: cell.row + 1 });
                    }
                },
            }
            let weekend = (cell.column + offset) % 6 == 0 || (cell.column + offset) % 7 == 0;
            days.push(DayLabel { day, weekend });
            cell = cell.next();
        }
        (days, Range { start: start.unwrap(), end: end.unwrap() })
    }

    /// The grid of `month` in `year` for a week that begins with the weekday
    /// that `first` selects. Nothing is marked in it.
    pub fn new(first: String, max_weekday_chars: u8, year: u16, month: u8) -> (grid: MonthGrid)
        requires
            year > REFORM_YEAR,
            1 <= month <= 12,
        ensures
            grid.wf(),
            grid@.first == first@,
            grid@.max_weekday_chars == max_weekday_chars,
            grid@.year == year,
            grid@.month == month,
            grid@.marks.len() == 0,
    {
        let (days, month_range) = MonthGrid::fill(year, month, first.as_str());
        MonthGrid { first, year, month, max_weekday_chars, month_range, days, marks: Vec::new() }
    }

    /// The grid of `month` in `year` for a week that begins on Sunday, with a
    /// header that shows nothing of the weekdays' names.
    pub fn from_date(year: u16, month: u8) -> (grid: MonthGrid)
        requires
            year > REFORM_YEAR,
            1 <= month <= 12,
        ensures
            grid.wf(),
            grid@.first.len() == 0,
            grid@.max_weekday_chars == 0,
            grid@.year == year,
            grid@.month == month,
            grid@.marks.len() == 0,
    {
        MonthGrid::new(String::new(), 0, year, month)
    }

    /// Displays `month` of `year` in place of the month displayed so far,
    /// with the same first weekday. The marks are gone.
    pub fn set_date(&mut self, year: u16, month: u8)
        requires
            year > REFORM_YEAR,
            1 <= month <= 12,
        ensures
            final(self).wf(),
            final(self)@.first == old(self)@.first,
            final(self)@.max_weekday_chars == old(self)@.max_weekday_chars,
            final(self)@.year == year,
            final(self)@.month == month,
            final(self)@.marks.len() == 0,
    {
        let first = self.first.clone();
        *self = MonthGrid::new(first, self.max_weekday_chars, year, month);
    }

    /// The cell that shows `date`. A date of the displayed month has one. No
    /// other date has: the days of the months before and after that the grid
    /// shows are not looked up.
    pub fn child_by_date(&self, date: Date) -> (cell: Option<GridCell>)
        requires
            self.wf(),
        ensures
            cell == self@.cell_of_date(date),
            cell matches Some(found) ==> {
                &&& found.column < COLUMNS
                &&& 1 <= found.row <= ROWS
                &&& self@.days[found.index() - COLUMNS].day == CalendarDay::Current(date.spec_day())
            },
    {
        proof {
            use_type_invariant(date);
            lemma_grid_partition(self@.year, self@.month, self@.first);
        }
        if date.year() != self.year || date.month() != self.month {
            return None;
        }
        let start = self.month_range.start;
        let index = (start.row - 1) * COLUMNS + start.column + (date.day() - 1);
        let found = GridCell { column: index % COLUMNS, row: index / COLUMNS + 1 };
        proof {
            assert(self@.days[found.index() - COLUMNS] == spec_label(
                self@.year,
                self@.month,
                self@.first,
                found.index() - COLUMNS,
            ));
        }
        Some(found)
    }

    /// Marks the day on which `event` starts with the event's style class,
    /// where that day belongs to the displayed month; otherwise nothing
    /// changes.
    pub fn set_event(&mut self, event: Event)
        requires
            old(self).wf(),
        ensures
            final(self).wf(),
            final(self)@.first == old(self)@.first,
            final(self)@.max_weekday_chars == old(self)@.max_weekday_chars,
            final(self)@.year == old(self)@.year,
            final(self)@.month == old(self)@.month,
            final(self)@.month_range == old(self)@.month_range,
            final(self)@.days == old(self)@.days,
            final(self)@.marks == (match old(self)@.cell_of_date(event.start) {
                Some(cell) => old(self)@.marks.push((cell, event.class@)),
                None => old(self)@.marks,
            }),
    {
        match self.child_by_date(event.start) {
            Some(cell) => {
                self.marks.push(Mark { cell, class: event.class });
                proof {
                    assert(final(self)@.marks =~= old(self)@.marks.push((cell, event.class@)));
                }
            },
            None => {},
        }
    }

    /// The header of the grid, column by column: the weekday `names`, given
    /// Sunday first, in the order of the grid's week, each cut down to the
    /// number of characters that the header shows.
    pub fn weekdays(&self, names: &[String; 7]) -> (header: [String; 7])
        ensures
            forall|i: int|
                0 <= i < 7 ==> (#[trigger] header[i])@ == spec_abbreviate(
                    names[(i + spec_first_day(self@.first)) % 7]@,
                    self@.max_weekday_chars,
                ),
    {
        let week = weekdays_with_first(self.first.as_str(), names);
        let max = self.max_weekday_chars as usize;
        [
            abbreviate(week[0].as_str(), max),
            abbreviate(week[1].as_str(), max),
            abbreviate(week[2].as_str(), max),
            abbreviate(week[3].as_str(), max),
            abbreviate(week[4].as_str(), max),
            abbreviate(week[5].as_str(), max),
            abbreviate(week[6].as_str(), max),
        ]
    }

    /// The marks, in the order in which they were set.
    pub fn marks(&self) -> (marks: &Vec<Mark>)
        ensures
            marks@.len() == self@.marks.len(),
            forall|i: int|
                0 <= i < marks@.len() ==> self@.marks[i] == (
                    (#[trigger] marks@[i]).cell,
                    marks@[i].class@,
                ),
    {
        &self.marks
    }

    /// The year of the displayed month.
    pub fn year(&self) -> (year: u16)
        ensures
            year == self@.year,
    {
        self.year
    }

    /// The displayed month, 1 for January to 12 for December.
    pub fn month(&self) -> (month: u8)
        ensures
            month == self@.month,
    {
        self.month
    }

    /// The selector of the weekday that the week begins with.
    pub fn first(&self) -> (first: &str)
        ensures
            first@ == self@.first,
    {
        self.first.as_str()
    }

    /// The most characters of a weekday's name that the header shows.
    pub fn max_weekday_chars(&self) -> (max: u8)
        ensures
            max == self@.max_weekday_chars,
    {
        self.max_weekday_chars
    }

    /// The span of the month in the grid.
    pub fn month_range(&self) -> (range: Range)
        ensures
            range == self@.month_range,
    {
        self.month_range
    }

    /// The day cell in `column` of the row `row` of days, counted from 0.
    pub fn day(&self, column: u8, row: u8) -> (label: DayLabel)
        requires
            self.wf(),
            column < COLUMNS,
            row < ROWS,
        ensures
            label == self@.days[row * COLUMNS + column],
            label.day == grid_day(self@.year, self@.month, self@.first, column as int, row as int),
            label.weekend == spec_weekend(column as int, spec_first_day(self@.first)),
    {
        let index = (row * COLUMNS + column) as usize;
        proof {
            assert(index / 7 == row && index % 7 == column);
            assert(self@.days[index as int] == spec_label(
                self@.year,
                self@.month,
                self@.first,
                index as int,
            ));
        }
        self.days[index]
    }
}

} // verus!
