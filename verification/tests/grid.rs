use caffi::grid::{GridCell, Range, COLUMNS, ROWS};

#[test]
fn grid_has_seven_columns_and_six_rows() {
    assert_eq!(COLUMNS, 7);
    assert_eq!(ROWS, 6);
}

#[test]
fn next_goes_right_and_then_to_the_next_row() {
    assert_eq!(GridCell { column: 0, row: 0 }.next(), GridCell { column: 1, row: 0 });
    assert_eq!(GridCell { column: 5, row: 2 }.next(), GridCell { column: 6, row: 2 });
    assert_eq!(GridCell { column: 6, row: 2 }.next(), GridCell { column: 0, row: 3 });
    assert_eq!(GridCell { column: 6, row: 6 }.next(), GridCell { column: 0, row: 7 });
    assert_eq!(GridCell { column: 3, row: 255 }.next(), GridCell { column: 4, row: 255 });
}

#[test]
fn seven_steps_lead_to_the_same_column_of_the_next_row() {
    for row in 0..6u8 {
        for column in 0..7u8 {
            let mut cell = GridCell { column, row };
            for _ in 0..7 {
                cell = cell.next();
            }
            assert_eq!(cell, GridCell { column, row: row + 1 });
        }
    }
}

#[test]
fn forty_two_steps_cross_the_grid() {
    let mut cell = GridCell { column: 0, row: 0 };
    for step in 0..42u8 {
        assert_eq!(cell, GridCell { column: step % 7, row: step / 7 });
        cell = cell.next();
    }
    assert_eq!(cell, GridCell { column: 0, row: 6 });
}

#[test]
fn default_cell_is_the_first() {
    assert_eq!(GridCell::default(), GridCell { column: 0, row: 0 });
    assert_eq!(
        Range::default(),
        Range { start: GridCell { column: 0, row: 0 }, end: GridCell { column: 0, row: 0 } }
    );
}

#[test]
fn cell_is_packed_column_above_row() {
    assert_eq!(u32::from(GridCell { column: 3, row: 1 }), 0x0301);
    assert_eq!(u32::from(GridCell { column: 0, row: 6 }), 0x0006);
    assert_eq!(u32::from(GridCell { column: 255, row: 255 }), 0xffff);
    assert_eq!(GridCell::from(0x0405), GridCell { column: 4, row: 5 });
    assert_eq!(GridCell::from(0xabcd_0405), GridCell { column: 4, row: 5 });
}

#[test]
fn range_is_packed_start_above_end() {
    let range = Range { start: GridCell { column: 3, row: 1 }, end: GridCell { column: 4, row: 5 } };
    assert_eq!(u32::from(range), 0x0301_0405);
    assert_eq!(Range::from(0x0301_0405), range);
    assert_eq!(Range::from(0), Range::default());
}

#[test]
fn packed_cells_and_ranges_unpack_to_themselves() {
    for column in [0u8, 1, 6, 7, 128, 255] {
        for row in [0u8, 1, 6, 7, 128, 255] {
            let cell = GridCell { column, row };
            assert_eq!(GridCell::from(u32::from(cell)), cell);
            let forth = Range { start: cell, end: GridCell { column: row, row: column } };
            assert_eq!(Range::from(u32::from(forth)), forth);
            let back = Range { start: GridCell { column: 6, row: 1 }, end: cell };
            assert_eq!(Range::from(u32::from(back)), back);
        }
    }
}
