//! The rules of the Gregorian calendar after the reform, the order of the
//! weekdays in a week with a chosen first day, and what each cell of a
//! month's grid shows.

use vstd::prelude::*;
use vstd::string::StringExecFns;
use crate::grid::ROWS;

verus! {

/// The last year of the Julian calendar: every year after it is Gregorian
/// throughout.
pub const REFORM_YEAR: u16 = 1752;

/// The number of days in a week, and of columns in a month's grid.
pub const WEEK: u8 = 7;

/// The canonical weekday names, Sunday first.
pub const WEEKDAYS: [&'static str; 7] = [
    "Sunday",
    "Monday",
    "Tuesday",
    "Wednesday",
    "Thursday",
    "Friday",
    "Saturday",
];

/// Days of each month of a common year, January first.
pub const DAYS: [u8; 12] = [31, 28, 31, 30, 31, 30, 31, 31, 30, 31, 30, 31];

/// Days of each month of a leap year, January first.
pub const DAYS_LEAP: [u8; 12] = [31, 29, 31, 30, 31, 30, 31, 31, 30, 31, 30, 31];

/// The per-month term of the day-of-week congruence, January first.
pub const OFFSETS: [u8; 12] = [0, 3, 2, 5, 0, 3, 5, 1, 4, 6, 2, 4];

/// A year and a month that the calendar rules accept.
pub open spec fn valid_month(year: int, month: int) -> bool {
    year > REFORM_YEAR && 1 <= month <= 12
}

/// The Gregorian leap-year rule.
pub open spec fn spec_is_leap_year(year: int) -> bool {
    (year % 4 == 0 && year % 100 != 0) || year % 400 == 0
}

/// The length of `month` in `year`; 0 where `month` is no month.
pub open spec fn spec_days_in_month(year: int, month: int) -> int {
    if month == 2 {
        if spec_is_leap_year(year) {
            29
        } else {
            28
        }
    } else if month == 4 || month == 6 || month == 9 || month == 11 {
        30
    } else if 1 <= month <= 12 {
        31
    } else {
        0
    }
}

/// The term that `month` adds to the day-of-week congruence; 0 where `month`
/// is no month.
pub open spec fn spec_month_offset(month: int) -> int {
    if 1 <= month <= 12 {
        OFFSETS[month - 1] as int
    } else {
        0
    }
}

/// What the year adds to the day-of-week congruence: one day for each year,
/// and one more for each leap year.
pub open spec fn year_term(year: int) -> int {
    year + year / 4 - year / 100 + year / 400
}

/// The weekday of a date, 0 for Sunday to 6 for Saturday. January and
/// February count as the last months of the year before.
pub open spec fn spec_day_of_week(year: int, month: int, day: int) -> int {
    let y = if month < 3 {
        year - 1
    } else {
        year
    };
    (year_term(y) + spec_month_offset(month) + day) % 7
}

/// The weekdays follow one another without a gap: the day after a date falls
/// on the next weekday, within a month as well as from the last day of a
/// month to the first day of the month after.
pub proof fn lemma_weekdays_follow(year: int, month: int, day: int)
    requires
        valid_month(year, month),
        1 <= day <= spec_days_in_month(year, month),
    ensures
        day < spec_days_in_month(year, month) ==> spec_day_of_week(year, month, day + 1) == (
        spec_day_of_week(year, month, day) + 1) % 7,
        day == spec_days_in_month(year, month) && month < 12 ==> spec_day_of_week(
            year,
            month + 1,
            1,
        ) == (spec_day_of_week(year, month, day) + 1) % 7,
        day == spec_days_in_month(year, month) && month == 12 ==> spec_day_of_week(year + 1, 1, 1)
            == (spec_day_of_week(year, month, day) + 1) % 7,
{
    let before = if month < 3 {
        year - 1
    } else {
        year
    };
    let after = if month == 2 {
        year
    } else {
        before
    };
    lemma_year_term_grows(year);
    lemma_weekday_after(
        year_term(before),
        year_term(after),
        month,
        day,
        spec_days_in_month(year, month),
    );
}

/// The step of `lemma_weekdays_follow`, with the years' terms as plain
/// numbers: `before` for the month itself and `after` for the month that
/// follows it.
proof fn lemma_weekday_after(before: int, after: int, month: int, day: int, length: int)
    requires
        1 <= month <= 12,
        1 <= day <= length,
        month != 2 ==> after == before && length == spec_days_in_month(1, month),
        month == 2 ==> after - before == length - 27 && 28 <= length <= 29,
    ensures
        day < length ==> (before + spec_month_offset(month) + day + 1) % 7 == ((before
            + spec_month_offset(month) + day) % 7 + 1) % 7,
        day == length ==> (after + spec_month_offset(if month == 12 {
            1
        } else {
            month + 1
        }) + 1) % 7 == ((before + spec_month_offset(month) + day) % 7 + 1) % 7,
{
}

proof fn lemma_year_term_grows(year: int)
    requires
        year > 0,
    ensures
        year_term(year) - year_term(year - 1) == if spec_is_leap_year(year) {
            2int
        } else {
            1int
        },
{
}

/// Whether `year` lies after the Gregorian reform.
pub fn is_after_reform(year: u16) -> (after: bool)
    ensures
        after == (year > REFORM_YEAR),
{
    year > REFORM_YEAR
}

/// Whether `year` is a leap year.
pub fn is_leap_year(year: u16) -> (leap: bool)
    requires
        year > REFORM_YEAR,
    ensures
        leap == spec_is_leap_year(year as int),
{
    (year % 4 == 0) && (year % 100 != 0) || (year % 400 == 0)
}

/// The number of days of `month` in `year`.
pub fn days_in_month(year: u16, month: u8) -> (days: u8)
    requires
        year > REFORM_YEAR,
        1 <= month <= 12,
    ensures
        days == spec_days_in_month(year as int, month as int),
        28 <= days <= 31,
{
    if is_leap_year(year) {
        DAYS_LEAP[month as usize - 1]
    } else {
        DAYS[month as usize - 1]
    }
}

/// The weekday on which a date falls, 0 for Sunday to 6 for Saturday.
pub fn day_of_week(year: u16, month: u8, day: u8) -> (weekday: u8)
    requires
        year > REFORM_YEAR,
        1 <= month <= 12,
        day >= 1,
    ensures
        weekday == spec_day_of_week(year as int, month as int, day as int),
        weekday < 7,
{
    let y: u32 = if month < 3 {
        year as u32 - 1
    } else {
        year as u32
    };
    let offset: u32 = OFFSETS[month as usize - 1] as u32;
    ((y + y / 4 - y / 100 + y / 400 + offset + day as u32) % 7) as u8
}

/// A letter A to Z as its lower-case code, any other character as its own.
pub open spec fn fold_case(c: char) -> int {
    if 'A' <= c <= 'Z' {
        c as int + 32
    } else {
        c as int
    }
}

/// Whether `selector` is a prefix of `name`, the case of the letters A to Z
/// set aside. The empty selector is a prefix of every name.
pub open spec fn is_prefix_ignoring_case(selector: Seq<char>, name: Seq<char>) -> bool {
    &&& selector.len() <= name.len()
    &&& forall|i: int| 0 <= i < selector.len() ==> fold_case(selector[i]) == fold_case(name[i])
}

/// Whether `selector` picks the weekday `weekday` (0 for Sunday).
pub open spec fn selects(selector: Seq<char>, weekday: int) -> bool {
    is_prefix_ignoring_case(selector, WEEKDAYS[weekday]@)
}

/// The first weekday, from Sunday on, that `selector` picks; Sunday where it
/// picks none.
pub open spec fn spec_first_day(selector: Seq<char>) -> int {
    if selects(selector, 0) {
        0
    } else if selects(selector, 1) {
        1
    } else if selects(selector, 2) {
        2
    } else if selects(selector, 3) {
        3
    } else if selects(selector, 4) {
        4
    } else if selects(selector, 5) {
        5
    } else if selects(selector, 6) {
        6
    } else {
        0
    }
}

fn fold(c: char) -> (code: u32)
    ensures
        code == fold_case(c),
{
    if 'A' <= c && c <= 'Z' {
        c as u32 + 32
    } else {
        c as u32
    }
}

fn starts_with_ignoring_case(name: &str, selector: &str) -> (found: bool)
    ensures
        found == is_prefix_ignoring_case(selector@, name@),
{
    let wanted = selector.unicode_len();
    if wanted > name.unicode_len() {
        return false;
    }
    let mut i: usize = 0;
    while i < wanted
        invariant
            i <= wanted,
            wanted == selector@.len(),
            wanted <= name@.len(),
            forall|j: int| 0 <= j < i ==> fold_case(selector@[j]) == fold_case(name@[j]),
        decreases wanted - i,
    {
        if fold(selector.get_char(i)) != fold(name.get_char(i)) {
            return false;
        }
        i += 1;
    }
    true
}

/// The weekday that `day` selects as the first of the week, 0 for Sunday to
/// 6 for Saturday. `day` selects a weekday when it is a prefix of the
/// weekday's name, whatever the case of its letters; of several such weekdays
/// the one nearest to Sunday is taken, and Sunday where there is none.
pub fn first_day(day: &str) -> (first: u8)
    ensures
        first == spec_first_day(day@),
        first < 7,
{
    let mut i: u8 = 0;
    while i < 7
        invariant
            i <= 7,
            forall|j: int| 0 <= j < i ==> !selects(day@, j),
        decreases 7 - i,
    {
        if starts_with_ignoring_case(WEEKDAYS[i as usize], day) {
            return i;
        }
        i += 1;
    }
    0
}

/// The seven `names`, given Sunday first, in the order of a week that begins
/// with the weekday that `day` selects.
pub fn weekdays_with_first(day: &str, names: &[String; 7]) -> (week: [String; 7])
    ensures
        forall|i: int| 0 <= i < 7 ==> week[i]@ == names[(i + spec_first_day(day@)) % 7]@,
{
    let first = first_day(day) as usize;
    [
        names[first].clone(),
        names[(first + 1) % 7].clone(),
        names[(first + 2) % 7].clone(),
        names[(first + 3) % 7].clone(),
        names[(first + 4) % 7].clone(),
        names[(first + 5) % 7].clone(),
        names[(first + 6) % 7].clone(),
    ]
}

/// The first `max` characters of `name`, or all of it where it has no more.
pub open spec fn spec_abbreviate(name: Seq<char>, max: int) -> Seq<char> {
    if max < name.len() {
        name.take(max)
    } else {
        name
    }
}

/// `name` cut down to its first `max` characters.
pub fn abbreviate(name: &str, max: usize) -> (short: String)
    ensures
        short@ == spec_abbreviate(name@, max as int),
{
    let length = name.unicode_len();
    let kept = if max < length {
        max
    } else {
        length
    };
    let short = String::from_str(name.substring_char(0, kept));
    proof {
        assert(name@.subrange(0, kept as int) =~= spec_abbreviate(name@, max as int));
    }
    short
}

/// What one cell of a month's grid shows: a day of the month before, of the
/// month itself, or of the month after, with its number in that month.
#[derive(Clone, Copy, Debug, PartialEq, Eq, Structural)]
pub enum CalendarDay {
    Previous(u8),
    Current(u8),
    Next(u8),
}

impl CalendarDay {
    /// The day's number in its own month.
    pub open spec fn spec_number(self) -> u8 {
        match self {
            CalendarDay::Previous(n) => n,
            CalendarDay::Current(n) => n,
            CalendarDay::Next(n) => n,
        }
    }

    /// The day's number in its own month.
    #[verifier::when_used_as_spec(spec_number)]
    pub fn number(self) -> (n: u8)
        ensures
            n == self.spec_number(),
    {
        match self {
            CalendarDay::Previous(n) => n,
            CalendarDay::Current(n) => n,
            CalendarDay::Next(n) => n,
        }
    }
}

/// How many cells at the start of the grid show the month before, for a week
/// that begins with the weekday `first`.
pub open spec fn spec_padding(year: int, month: int, first: int) -> int {
    (WEEK - first - spec_day_of_week(year, month, 1)) % (WEEK as int)
}

/// The length of the month before `month` of `year`.
pub open spec fn spec_days_before(year: int, month: int) -> int {
    if month == 1 {
        spec_days_in_month(year - 1, 12)
    } else {
        spec_days_in_month(year, month - 1)
    }
}

/// What the cell with the row-major index `index` shows, in a grid with
/// `padding` leading cells for a month of `days` days that follows one of
/// `days_before` days.
pub open spec fn day_at(padding: int, days: int, days_before: int, index: int) -> CalendarDay {
    if index < padding {
        CalendarDay::Previous((days_before + index - padding + 1) as u8)
    } else if index >= days + padding {
        CalendarDay::Next((index - padding - days + 1) as u8)
    } else {
        CalendarDay::Current((index - padding + 1) as u8)
    }
}

/// What the cell in `column` and `row` shows when `month` of `year` is laid
/// out for a week that begins with the weekday that `selector` selects.
pub open spec fn grid_day(
    year: int,
    month: int,
    selector: Seq<char>,
    column: int,
    row: int,
) -> CalendarDay {
    day_at(
        spec_padding(year, month, spec_first_day(selector)),
        spec_days_in_month(year, month),
        spec_days_before(year, month),
        row * WEEK + column,
    )
}

/// The classification of the cells of a month's grid: the function returned
/// takes a column, 0 to 6, and a row, 0 to 5, in any order and any number of
/// times, and tells what that cell shows.
pub fn filler(year: u16, month: u8, day: &str) -> (cell: impl Fn(u8, u8) -> CalendarDay)
    requires
        year > REFORM_YEAR,
        1 <= month <= 12,
    ensures
        forall|column: u8, row: u8|
            column < WEEK && row < ROWS ==> #[trigger] cell.requires((column, row)),
        forall|column: u8, row: u8, shown: CalendarDay|
            column < WEEK && row < ROWS && #[trigger] cell.ensures((column, row), shown) ==> shown
                == grid_day(year as int, month as int, day@, column as int, row as int),
{
    let days = days_in_month(year, month);
    let padding = (2 * WEEK - first_day(day) - day_of_week(year, month, 1)) % WEEK;
    let days_prev = if month == 1 {
        // December, which is as long in every year
        DAYS[11]
    } else {
        days_in_month(year, month - 1)
    };
    move |column: u8, row: u8| -> (shown: CalendarDay)
        requires
            column < WEEK,
            row < ROWS,
        ensures
            shown == grid_day(year as int, month as int, day@, column as int, row as int),
        {
            let index = row * WEEK + column;
            if index < padding {
                CalendarDay::Previous(days_prev + index - padding + 1)
            } else if index >= days + padding {
                CalendarDay::Next(index - padding - days + 1)
            } else {
                CalendarDay::Current(index - padding + 1)
            }
        }
}

} // verus!
