//! The places of a month's grid and the span of a month in it.

use vstd::prelude::*;
use vstd::std_specs::convert::FromSpecImpl;
use crate::cal::WEEK;

verus! {

/// The rows of days in a month's grid. The grid has the same six rows for
/// every month, whether or not the month needs them all.
pub const ROWS: u8 = 6;

/// The columns of a month's grid, one for each weekday.
pub const COLUMNS: u8 = WEEK;

/// A place in a month's grid. Row 0 is the header with the weekday names; the
/// days stand in the rows 1 to 6.
#[derive(Clone, Copy, Debug, PartialEq, Eq, Structural)]
pub struct GridCell {
    pub column: u8,
    pub row: u8,
}

impl GridCell {
    /// The cell's place in the row-major order of the cells.
    pub open spec fn index(self) -> int {
        self.row * COLUMNS + self.column
    }

    /// The cell that follows in the row-major order: the next one to the
    /// right, or the first one of the next row after the last column.
    pub open spec fn spec_next(&self) -> GridCell {
        GridCell {
            column: ((self.column + 1) % (COLUMNS as int)) as u8,
            row: (self.row + (self.column + 1) / (COLUMNS as int)) as u8,
        }
    }

    /// The cell reached from `self` by `steps` steps in the row-major order.
    pub open spec fn spec_next_n(self, steps: nat) -> GridCell
        decreases steps,
    {
        if steps == 0 {
            self
        } else {
            self.spec_next_n((steps - 1) as nat).spec_next()
        }
    }

    /// The cell that follows in the row-major order.
    #[verifier::when_used_as_spec(spec_next)]
    pub fn next(&self) -> (following: GridCell)
        requires
            self.column < COLUMNS,
            self.row + (self.column + 1) / (COLUMNS as int) <= u8::MAX,
        ensures
            following == self.spec_next(),
            following.column < COLUMNS,
            following.index() == self.index() + 1,
    {
        let column = (self.column + 1) % COLUMNS;
        let row = self.row + (self.column + 1) / COLUMNS;
        GridCell { column, row }
    }

    /// Any number of steps through the grid in row-major order end in the
    /// cell whose place in that order is as many places further on. So seven
    /// steps lead to the same column of the next row, and forty-two steps
    /// from the first cell of the first row to the first cell of row 6.
    pub proof fn lemma_next_n(self, steps: nat)
        requires
            self.column < COLUMNS,
            self.row + (self.column + steps) / (COLUMNS as int) <= u8::MAX,
        ensures
            self.spec_next_n(steps).column == (self.column + steps) % (COLUMNS as int),
            self.spec_next_n(steps).row == self.row + (self.column + steps) / (COLUMNS as int),
            self.spec_next_n(steps).index() == self.index() + steps,
            steps == COLUMNS ==> self.spec_next_n(steps) == (GridCell {
                column: self.column,
                row: (self.row + 1) as u8,
            }),
        decreases steps,
    {
        if steps > 0 {
            self.lemma_next_n((steps - 1) as nat);
        }
    }
}

impl Default for GridCell {
    fn default() -> (cell: GridCell)
        ensures
            cell == (GridCell { column: 0, row: 0 }),
    {
        GridCell { column: 0, row: 0 }
    }
}

/// The cell that the low sixteen bits of `n` hold: the column in the higher
/// byte, the row in the lower.
pub open spec fn unpack_cell(n: u32) -> GridCell {
    GridCell { column: ((n >> 8) & 0xff) as u8, row: (n & 0xff) as u8 }
}

/// The cell in sixteen bits: the column in the higher byte, the row in the
/// lower.
pub open spec fn pack_cell(cell: GridCell) -> u32 {
    (cell.column as u32) << 8 | cell.row as u32
}

impl From<u32> for GridCell {
    /// The cell that the low sixteen bits of `n` hold: the column in the
    /// higher byte, the row in the lower.
    fn from(n: u32) -> (cell: GridCell) {
        GridCell { column: ((n >> 8) & 0xff) as u8, row: (n & 0xff) as u8 }
    }
}

impl FromSpecImpl<u32> for GridCell {
    open spec fn obeys_from_spec() -> bool {
        true
    }

    open spec fn from_spec(n: u32) -> GridCell {
        unpack_cell(n)
    }
}

impl From<GridCell> for u32 {
    /// The cell in sixteen bits: the column in the higher byte, the row in
    /// the lower.
    fn from(cell: GridCell) -> (n: u32) {
        (cell.column as u32) << 8 | cell.row as u32
    }
}

impl FromSpecImpl<GridCell> for u32 {
    open spec fn obeys_from_spec() -> bool {
        true
    }

    open spec fn from_spec(cell: GridCell) -> u32 {
        pack_cell(cell)
    }
}

/// The span of the displayed month in its grid: where the month's first day
/// stands, and where the first day of the month after stands.
#[derive(Clone, Copy, Debug, PartialEq, Eq, Structural)]
pub struct Range {
    pub start: GridCell,
    pub end: GridCell,
}

impl Default for Range {
    fn default() -> (range: Range)
        ensures
            range == (Range {
                start: GridCell { column: 0, row: 0 },
                end: GridCell { column: 0, row: 0 },
            }),
    {
        Range { start: GridCell { column: 0, row: 0 }, end: GridCell { column: 0, row: 0 } }
    }
}

/// The range that `n` holds: the start in the higher sixteen bits, the end
/// in the lower.
pub open spec fn unpack_range(n: u32) -> Range {
    Range { start: unpack_cell(n >> 16), end: unpack_cell(n & 0xffff) }
}

/// The range in thirty-two bits: the start in the higher sixteen, the end in
/// the lower.
pub open spec fn pack_range(range: Range) -> u32 {
    pack_cell(range.start) << 16 | pack_cell(range.end)
}

impl From<u32> for Range {
    /// The range that `n` holds: the start in the higher sixteen bits, the
    /// end in the lower.
    fn from(n: u32) -> (range: Range) {
        Range { start: GridCell::from(n >> 16), end: GridCell::from(n & 0xffff) }
    }
}

impl FromSpecImpl<u32> for Range {
    open spec fn obeys_from_spec() -> bool {
        true
    }

    open spec fn from_spec(n: u32) -> Range {
        unpack_range(n)
    }
}

impl From<Range> for u32 {
    /// The range in thirty-two bits: the start in the higher sixteen, the end
    /// in the lower.
    fn from(range: Range) -> (n: u32) {
        u32::from(range.start) << 16 | u32::from(range.end)
    }
}

impl FromSpecImpl<Range> for u32 {
    open spec fn obeys_from_spec() -> bool {
        true
    }

    open spec fn from_spec(range: Range) -> u32 {
        pack_range(range)
    }
}

/// A cell packed into an integer and unpacked again is the same cell.
pub proof fn lemma_cell_unpacks(cell: GridCell)
    ensures
        unpack_cell(pack_cell(cell)) == cell,
{
    let c = cell.column;
    let r = cell.row;
    assert((((c as u32) << 8 | r as u32) >> 8) & 0xff == c as u32) by (bit_vector);
    assert(((c as u32) << 8 | r as u32) & 0xff == r as u32) by (bit_vector);
}

/// A range packed into an integer and unpacked again is the same range.
pub proof fn lemma_range_unpacks(range: Range)
    ensures
        unpack_range(pack_range(range)) == range,
{
    let a = range.start.column;
    let b = range.start.row;
    let c = range.end.column;
    let d = range.end.row;
    let s = (a as u32) << 8 | b as u32;
    let e = (c as u32) << 8 | d as u32;
    assert((s << 16 | e) >> 16 == s && (s << 16 | e) & 0xffff == e) by (bit_vector)
        requires
            s == (a as u32) << 8 | b as u32,
            e == (c as u32) << 8 | d as u32,
    ;
    lemma_cell_unpacks(range.start);
    lemma_cell_unpacks(range.end);
}

} // verus!
