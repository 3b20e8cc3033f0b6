//! The months of a year side by side.

use vstd::prelude::*;
use crate::cal::REFORM_YEAR;
use crate::month::MonthGrid;

verus! {

/// The rows of months in a year's grid.
pub const ROWS: u8 = 4;

/// The columns of months in a year's grid.
pub const COLUMNS: u8 = 3;

/// The month whose grid stands in `column` and `row` of a year's grid.
pub open spec fn spec_month_at(column: int, row: int) -> int {
    column * row + column + 1
}

/// The month whose grid stands in `column` and `row` of a year's grid.
pub fn month_at(column: u8, row: u8) -> (month: u8)
    requires
        column < COLUMNS,
        row < ROWS,
    ensures
        month == spec_month_at(column as int, row as int),
        1 <= month <= 12,
{
    assert(column * row <= 6) by (nonlinear_arith)
        requires
            column <= 2,
            row <= 3,
    ;
    column * row + column + 1
}

/// The grids of the months of one year, column by column.
pub struct YearGrid {
    year: u16,
    months: Vec<MonthGrid>,
}

/// What a `YearGrid` holds.
pub struct YearGridView {
    pub year: int,
    /// The months' grids: first those of the first column from the top down,
    /// then those of the next.
    pub months: Seq<MonthGrid>,
}

impl View for YearGrid {
    type V = YearGridView;

    closed spec fn view(&self) -> YearGridView {
        YearGridView { year: self.year as int, months: self.months@ }
    }
}

impl YearGridView {
    /// Every place of the grid holds the grid of its month of the year, for
    /// a week that begins on Sunday.
    pub open spec fn wf(self) -> bool {
        &&& self.year > REFORM_YEAR
        &&& self.months.len() == ROWS * COLUMNS
        &&& forall|i: int|
            0 <= i < self.months.len() ==> {
                let grid = #[trigger] self.months[i];
                &&& grid.wf()
                &&& grid@.year == self.year
                &&& grid@.month == spec_month_at(i / (ROWS as int), i % (ROWS as int))
                &&& grid@.first.len() == 0
                &&& grid@.max_weekday_chars == 0
                &&& grid@.marks.len() == 0
            }
    }
}

impl YearGrid {
    /// Every place of the grid holds the grid of its month. Every grid that
    /// this library hands out is so.
    pub open spec fn wf(&self) -> bool {
        self@.wf()
    }

    /// The grids of the months of `year`.
    pub fn from_date(year: u16) -> (grid: YearGrid)
        requires
            year > REFORM_YEAR,
        ensures
            grid.wf(),
            grid@.year == year,
    {
        let mut months: Vec<MonthGrid> = Vec::new();
        let mut column: u8 = 0;
        while column < COLUMNS
            invariant
                year > REFORM_YEAR,
                column <= COLUMNS,
                months@.len() == column * ROWS,
                forall|i: int|
                    0 <= i < months@.len() ==> {
                        let grid = #[trigger] months@[i];
                        &&& grid.wf()
                        &&& grid@.year == year
                        &&& grid@.month == spec_month_at(i / (ROWS as int), i % (ROWS as int))
                        &&& grid@.first.len() == 0
                        &&& grid@.max_weekday_chars == 0
                        &&& grid@.marks.len() == 0
                    },
            decreases COLUMNS - column,
        {
            let mut row: u8 = 0;
            while row < ROWS
                invariant
                    year > REFORM_YEAR,
                    column < COLUMNS,
                    row <= ROWS,
                    months@.len() == column * ROWS + row,
                    forall|i: int|
                        0 <= i < months@.len() ==> {
                            let grid = #[trigger] months@[i];
                            &&& grid.wf()
                            &&& grid@.year == year
                            &&& grid@.month == spec_month_at(
                                i / (ROWS as int),
                                i % (ROWS as int),
                            )
                            &&& grid@.first.len() == 0
                            &&& grid@.max_weekday_chars == 0
                            &&& grid@.marks.len() == 0
                        },
                decreases ROWS - row,
            {
                let ghost place = months@.len() as int;
                proof {
                    assert(place / 4 == column && place % 4 == row);
                }
                months.push(MonthGrid::from_date(year, month_at(column, row)));
                row += 1;
            }
            column += 1;
        }
        YearGrid { year, months }
    }

    /// The year whose months the grid holds.
    pub fn year(&self) -> (year: u16)
        ensures
            year == self@.year,
    {
        self.year
    }

    /// The grid of the month in `column` and `row`.
    pub fn month(&self, column: u8, row: u8) -> (grid: &MonthGrid)
        requires
            self.wf(),
            column < COLUMNS,
            row < ROWS,
        ensures
            *grid == self@.months[column * ROWS + row],
            grid.wf(),
            grid@.year == self@.year,
            grid@.month == spec_month_at(column as int, row as int),
    {
        let place = (column * ROWS + row) as usize;
        proof {
            assert(place / 4 == column && place % 4 == row);
        }
        &self.months[place]
    }
}

} // verus!
