use caffi::cal::CalendarDay;
use caffi::yeargrid::{month_at, YearGrid, COLUMNS, ROWS};

#[test]
fn year_grid_has_three_columns_and_four_rows() {
    assert_eq!(COLUMNS, 3);
    assert_eq!(ROWS, 4);
}

#[test]
fn months_of_the_places() {
    let months: Vec<u8> = (0..3u8).flat_map(|column| (0..4u8).map(move |row| month_at(column, row))).collect();
    assert_eq!(months, [1, 1, 1, 1, 2, 3, 4, 5, 3, 5, 7, 9]);
}

#[test]
fn year_grid_holds_the_grid_of_each_place() {
    let grid = YearGrid::from_date(2024);
    assert_eq!(grid.year(), 2024);
    for column in 0..3u8 {
        for row in 0..4u8 {
            let month = grid.month(column, row);
            assert_eq!(month.year(), 2024);
            assert_eq!(month.month(), column * row + column + 1);
            assert_eq!(month.first(), "");
            assert_eq!(month.max_weekday_chars(), 0);
            assert!(month.marks().is_empty());
        }
    }
    assert_eq!(grid.month(1, 0).day(3, 0).day, CalendarDay::Current(1));
}
