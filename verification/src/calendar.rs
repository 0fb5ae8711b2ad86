//! The Today view's calendar: month navigation, the six-week month grid
//! and the labels of its cells.
use vstd::prelude::*;
use crate::date::{
    CalendarDate, days_in_month, first_ordinal, is_valid_ymd, last_ordinal, lemma_ordinal_strictly_increasing,
    ordinal_of, weekday_of_ordinal,
};
use crate::text::{decimal_digits, decimal_text, push_decimal_i64};

verus! {

/// The English name of a month number, "Unknown" outside 1..=12.
pub open spec fn month_name_spec(month: u32) -> Seq<char> {
    if month == 1 {
        "January"@
    } else if month == 2 {
        "February"@
    } else if month == 3 {
        "March"@
    } else if month == 4 {
        "April"@
    } else if month == 5 {
        "May"@
    } else if month == 6 {
        "June"@
    } else if month == 7 {
        "July"@
    } else if month == 8 {
        "August"@
    } else if month == 9 {
        "September"@
    } else if month == 10 {
        "October"@
    } else if month == 11 {
        "November"@
    } else if month == 12 {
        "December"@
    } else {
        "Unknown"@
    }
}

/// Returns the English name of the given month number (1..=12).
pub fn month_name(month: u32) -> (name: &'static str)
    ensures
        name@ == month_name_spec(month),
{
    match month {
        1 => "January",
        2 => "February",
        3 => "March",
        4 => "April",
        5 => "May",
        6 => "June",
        7 => "July",
        8 => "August",
        9 => "September",
        10 => "October",
        11 => "November",
        12 => "December",
        _ => "Unknown",
    }
}

/// In-memory view state for the calendar view: the month shown and the
/// selected day.
#[derive(Debug, Clone, Copy, PartialEq, Eq, Structural)]
pub struct CalendarState {
    pub view_year: i32,
    pub view_month: u32,
    pub selected_date: CalendarDate,
}

/// The state after moving the view one month forward.
pub open spec fn spec_next_month(s: CalendarState) -> CalendarState {
    if s.view_month == 12 {
        CalendarState { view_year: (s.view_year + 1) as i32, view_month: 1, ..s }
    } else {
        CalendarState { view_month: (s.view_month + 1) as u32, ..s }
    }
}

/// The state after moving the view one month back.
pub open spec fn spec_prev_month(s: CalendarState) -> CalendarState {
    if s.view_month == 1 {
        CalendarState { view_year: (s.view_year - 1) as i32, view_month: 12, ..s }
    } else {
        CalendarState { view_month: (s.view_month - 1) as u32, ..s }
    }
}

/// The state showing and selecting `date`.
pub open spec fn spec_focus_on(date: CalendarDate) -> CalendarState {
    CalendarState { view_year: date.year, view_month: date.month, selected_date: date }
}

impl CalendarState {
    /// The view shows a real month (1..=12).
    pub open spec fn shows_real_month(self) -> bool {
        1 <= self.view_month <= 12
    }

    /// Creates calendar state initialized to the given date (typically today).
    pub fn new(date: CalendarDate) -> (state: CalendarState)
        ensures
            state == spec_focus_on(date),
    {
        CalendarState { view_year: date.year, view_month: date.month, selected_date: date }
    }

    /// Advances the calendar view to the next month.
    pub fn next_month(&mut self)
        requires
            old(self).view_month == 12 ==> old(self).view_year < i32::MAX,
            old(self).view_month < u32::MAX,
        ensures
            *final(self) == spec_next_month(*old(self)),
    {
        if self.view_month == 12 {
            self.view_year = self.view_year + 1;
            self.view_month = 1;
        } else {
            self.view_month = self.view_month + 1;
        }
    }

    /// Moves the calendar view to the previous month.
    pub fn prev_month(&mut self)
        requires
            old(self).view_month == 1 ==> old(self).view_year > i32::MIN,
            old(self).view_month > 0,
        ensures
            *final(self) == spec_prev_month(*old(self)),
    {
        if self.view_month == 1 {
            self.view_year = self.view_year - 1;
            self.view_month = 12;
        } else {
            self.view_month = self.view_month - 1;
        }
    }

    /// Resets the calendar view and selection to the provided today's date.
    pub fn go_to_today(&mut self, today: CalendarDate)
        ensures
            *final(self) == spec_focus_on(today),
    {
        self.view_year = today.year;
        self.view_month = today.month;
        self.selected_date = today;
    }

    /// Selects a specific date, moving the view to its month and year.
    pub fn select_date(&mut self, date: CalendarDate)
        ensures
            *final(self) == spec_focus_on(date),
    {
        self.selected_date = date;
        self.view_year = date.year;
        self.view_month = date.month;
    }
}

/// Month navigation keeps the view on a real month, and moving forward then
/// back (or back then forward) returns to the same state.
pub proof fn lemma_month_navigation_round_trip(s: CalendarState)
    requires
        s.shows_real_month(),
    ensures
        spec_next_month(s).shows_real_month(),
        spec_prev_month(s).shows_real_month(),
        s.view_year < i32::MAX ==> spec_prev_month(spec_next_month(s)) == s,
        s.view_year > i32::MIN ==> spec_next_month(spec_prev_month(s)) == s,
{
}

/// Twelve steps forward show the same month one year later.
pub proof fn lemma_twelve_months_make_a_year(s: CalendarState)
    requires
        s.shows_real_month(),
        s.view_year < i32::MAX,
    ensures
        ({
            let t = spec_next_month(spec_next_month(spec_next_month(spec_next_month(spec_next_month(spec_next_month(
                spec_next_month(spec_next_month(spec_next_month(spec_next_month(spec_next_month(spec_next_month(s))))))))))));
            t.view_year == s.view_year + 1 && t.view_month == s.view_month && t.selected_date == s.selected_date
        }),
{
}

/// Focusing on a valid date shows a real month, namely the date's.
pub proof fn lemma_focus_shows_date_month(date: CalendarDate)
    requires
        date.is_valid(),
    ensures
        spec_focus_on(date).shows_real_month(),
        spec_focus_on(date).view_month == date.month,
        spec_focus_on(date).view_year == date.year,
{
}

/// Returns the English weekday abbreviation for columns (Mon..Sun).
pub fn weekday_short_names() -> (names: [&'static str; 7])
    ensures
        names[0]@ == "Mon"@,
        names[1]@ == "Tue"@,
        names[2]@ == "Wed"@,
        names[3]@ == "Thu"@,
        names[4]@ == "Fri"@,
        names[5]@ == "Sat"@,
        names[6]@ == "Sun"@,
{
    ["Mon", "Tue", "Wed", "Thu", "Fri", "Sat", "Sun"]
}

/// An individual day cell in a calendar month grid.
#[derive(Debug, Clone)]
pub struct DayCell {
    pub date: CalendarDate,
    pub day_number: u32,
    pub is_current_month: bool,
    pub is_today: bool,
    pub is_selected: bool,
    pub has_daily_note: bool,
    pub is_future: bool,
    pub aria_label: String,
}

/// A single week (row) in a calendar grid.
#[derive(Debug, Clone)]
pub struct CalendarWeek {
    pub days: Vec<DayCell>,
}

/// A full monthly calendar grid.
#[derive(Debug, Clone)]
pub struct CalendarMonth {
    pub year: i32,
    pub month: u32,
    pub month_name: String,
    pub weeks: Vec<CalendarWeek>,
}

/// The accessible label of a day cell: "<Month> <day>, <year>", followed by
/// one ", "-separated part for each flag that holds.
pub open spec fn aria_label_spec(
    date: CalendarDate,
    has_note: bool,
    is_today: bool,
    is_selected: bool,
    is_future: bool,
) -> Seq<char> {
    month_name_spec(date.month) + " "@ + decimal_text(date.day as int) + ", "@ + decimal_text(date.year as int)
        + (if has_note { ", daily note exists"@ } else { Seq::empty() })
        + (if is_today { ", today"@ } else { Seq::empty() })
        + (if is_selected { ", selected"@ } else { Seq::empty() })
        + (if is_future { ", future date"@ } else { Seq::empty() })
}

/// Builds the accessible label of a day cell.
pub fn day_aria_label(
    date: CalendarDate,
    has_note: bool,
    is_today: bool,
    is_selected: bool,
    is_future: bool,
) -> (label: String)
    ensures
        label@ == aria_label_spec(date, has_note, is_today, is_selected, is_future),
{
    let mut label = String::new();
    label.append(month_name(date.month));
    label.append(" ");
    push_decimal_i64(&mut label, date.day as i64);
    label.append(", ");
    push_decimal_i64(&mut label, date.year as i64);
    let ghost base = label@;
    if has_note {
        label.append(", daily note exists");
    }
    let ghost with_note = label@;
    if is_today {
        label.append(", today");
    }
    let ghost with_today = label@;
    if is_selected {
        label.append(", selected");
    }
    let ghost with_selected = label@;
    if is_future {
        label.append(", future date");
    }
    proof {
        assert(with_note =~= base + (if has_note { ", daily note exists"@ } else { Seq::empty() }));
        assert(with_today =~= with_note + (if is_today { ", today"@ } else { Seq::empty() }));
        assert(with_selected =~= with_today + (if is_selected { ", selected"@ } else { Seq::empty() }));
        assert(label@ =~= with_selected + (if is_future { ", future date"@ } else { Seq::empty() }));
    }
    label
}

/// Day number of the first of the month shown, January 2026 when
/// `year`/`month` name no date.
pub open spec fn grid_first_ordinal(year: i32, month: u32) -> int {
    if is_valid_ymd(year as int, month as int, 1) {
        ordinal_of(year as int, month as int, 1)
    } else {
        ordinal_of(2026, 1, 1)
    }
}

/// Day number of the first cell: the Monday on or before the first of the month.
pub open spec fn grid_start_ordinal(year: i32, month: u32) -> int {
    grid_first_ordinal(year, month) - weekday_of_ordinal(grid_first_ordinal(year, month))
}

/// The grid's 42 days, and the day after them, lie in chrono's range.
pub open spec fn grid_fits_in_range(year: i32, month: u32) -> bool {
    &&& first_ordinal() <= grid_start_ordinal(year, month)
    &&& grid_start_ordinal(year, month) + 42 <= last_ordinal()
}

/// What the cell at day number `ordinal` of the grid holds.
pub open spec fn is_grid_cell<F: Fn(CalendarDate) -> bool>(
    cell: DayCell,
    ordinal: int,
    year: i32,
    month: u32,
    selected_date: CalendarDate,
    today: CalendarDate,
    has_note: F,
) -> bool {
    &&& cell.date.is_valid()
    &&& cell.date.ordinal() == ordinal
    &&& cell.day_number == cell.date.day
    &&& cell.is_current_month == (cell.date.year == year && cell.date.month == month)
    &&& cell.is_today == (cell.date == today)
    &&& cell.is_selected == (cell.date == selected_date)
    &&& call_ensures(has_note, (cell.date,), cell.has_daily_note)
    &&& cell.is_future == today.is_before(cell.date)
    &&& cell.aria_label@ == aria_label_spec(
        cell.date,
        cell.has_daily_note,
        cell.is_today,
        cell.is_selected,
        cell.is_future,
    )
}

/// Generates a complete 42-day (6-week) calendar grid starting on Monday
/// for the given year and month.
pub fn generate_calendar_month(
    year: i32,
    month: u32,
    selected_date: CalendarDate,
    today: CalendarDate,
    has_note: impl Fn(CalendarDate) -> bool,
) -> (grid: CalendarMonth)
    requires
        grid_fits_in_range(year, month),
        forall|d: CalendarDate| has_note.requires((d,)),
    ensures
        grid.year == year,
        grid.month == month,
        grid.month_name@ == month_name_spec(month),
        grid.weeks.len() == 6,
        forall|w: int| 0 <= w < 6 ==> #[trigger] grid.weeks[w].days.len() == 7,
        forall|w: int, d: int|
            0 <= w < 6 && 0 <= d < 7 ==> is_grid_cell(
                #[trigger] grid.weeks[w].days[d],
                grid_start_ordinal(year, month) + 7 * w + d,
                year,
                month,
                selected_date,
                today,
                has_note,
            ),
{
    let first_of_month = match CalendarDate::from_ymd_opt(year, month, 1) {
        Some(date) => date,
        None => {
            let fallback = CalendarDate::from_ymd_opt(2026, 1, 1);
            match fallback {
                Some(date) => date,
                None => {
                    assert(false);
                    CalendarDate { year: 2026, month: 1, day: 1 }
                },
            }
        },
    };
    let leading_days_needed = first_of_month.num_days_from_monday();
    let grid_start_date = first_of_month.add_days(-(leading_days_needed as i64));
    let ghost start = grid_start_ordinal(year, month);

    let mut weeks: Vec<CalendarWeek> = Vec::with_capacity(6);
    let mut current_date = grid_start_date;
    let mut week_idx: usize = 0;
    while week_idx < 6
        invariant
            0 <= week_idx <= 6,
            grid_fits_in_range(year, month),
            forall|d: CalendarDate| has_note.requires((d,)),
            start == grid_start_ordinal(year, month),
            current_date.is_valid(),
            current_date.ordinal() == start + 7 * week_idx,
            weeks.len() == week_idx,
            forall|w: int| 0 <= w < week_idx ==> #[trigger] weeks[w].days.len() == 7,
            forall|w: int, d: int|
                0 <= w < week_idx && 0 <= d < 7 ==> is_grid_cell(
                    #[trigger] weeks[w].days[d],
                    start + 7 * w + d,
                    year,
                    month,
                    selected_date,
                    today,
                    has_note,
                ),
        decreases 6 - week_idx,
    {
        let mut days: Vec<DayCell> = Vec::with_capacity(7);
        let mut day_idx: usize = 0;
        while day_idx < 7
            invariant
                0 <= week_idx < 6,
                0 <= day_idx <= 7,
                grid_fits_in_range(year, month),
                forall|d: CalendarDate| has_note.requires((d,)),
                start == grid_start_ordinal(year, month),
                current_date.is_valid(),
                current_date.ordinal() == start + 7 * week_idx + day_idx,
                days.len() == day_idx,
                forall|d: int|
                    0 <= d < day_idx ==> is_grid_cell(
                        #[trigger] days[d],
                        start + 7 * week_idx + d,
                        year,
                        month,
                        selected_date,
                        today,
                        has_note,
                    ),
            decreases 7 - day_idx,
        {
            let is_current_month = current_date.year == year && current_date.month == month;
            let is_today = current_date == today;
            let is_selected = current_date == selected_date;
            let has_daily_note = has_note(current_date);
            let is_future = today.comes_before(&current_date);
            let aria_label = day_aria_label(current_date, has_daily_note, is_today, is_selected, is_future);
            days.push(DayCell {
                date: current_date,
                day_number: current_date.day,
                is_current_month,
                is_today,
                is_selected,
                has_daily_note,
                is_future,
                aria_label,
            });
            current_date = current_date.add_days(1);
            day_idx = day_idx + 1;
        }
        weeks.push(CalendarWeek { days });
        week_idx = week_idx + 1;
    }
    let mut name = String::new();
    name.append(month_name(month));
    CalendarMonth { year, month, month_name: name, weeks }
}

/// Every row of the grid starts on a Monday.
pub proof fn lemma_grid_rows_start_on_monday(year: i32, month: u32, week: int)
    ensures
        weekday_of_ordinal(grid_start_ordinal(year, month) + 7 * week) == 0,
{
    let f = grid_first_ordinal(year, month);
    assert((f - (f + 6) % 7 + 7 * week + 6) % 7 == 0) by (nonlinear_arith);
}

/// For a month that exists, the grid cells of that month are exactly the
/// `days_in_month` cells that follow the leading days (one per weekday
/// before the 1st), and they run from the 1st in order.
pub proof fn lemma_grid_covers_month(year: i32, month: u32, k: int, date: CalendarDate)
    requires
        is_valid_ymd(year as int, month as int, 1),
        0 <= k < 42,
        date.is_valid(),
        date.ordinal() == grid_start_ordinal(year, month) + k,
    ensures
        ({
            let lead = weekday_of_ordinal(ordinal_of(year as int, month as int, 1));
            &&& (date.year == year && date.month == month) <==> (lead <= k < lead + days_in_month(
                year as int,
                month as int,
            ))
            &&& (date.year == year && date.month == month) ==> date.day == k - lead + 1
        }),
{
    let first = CalendarDate { year, month, day: 1 };
    let last = CalendarDate { year, month, day: days_in_month(year as int, month as int) as u32 };
    if !(date.year == year && date.month == month) {
        if date.year < year || (date.year == year && date.month < month) {
            assert(date.is_before(first));
            lemma_ordinal_strictly_increasing(date, first);
        } else {
            assert(last.is_before(date));
            lemma_ordinal_strictly_increasing(last, date);
        }
    }
}

/// The English name of a weekday, Monday = 0 .. Sunday = 6.
pub open spec fn weekday_name_spec(weekday: int) -> Seq<char> {
    if weekday == 0 {
        "Monday"@
    } else if weekday == 1 {
        "Tuesday"@
    } else if weekday == 2 {
        "Wednesday"@
    } else if weekday == 3 {
        "Thursday"@
    } else if weekday == 4 {
        "Friday"@
    } else if weekday == 5 {
        "Saturday"@
    } else {
        "Sunday"@
    }
}

/// Digits with zeros in front up to `width` characters.
pub open spec fn zero_padded(digits: Seq<char>, width: nat) -> Seq<char> {
    if digits.len() >= width {
        digits
    } else {
        Seq::new((width - digits.len()) as nat, |i: int| '0') + digits
    }
}

/// A year as `%Y` writes it: four digits at least, zero-padded, with a
/// sign outside 0..=9999.
pub open spec fn year_text(year: int) -> Seq<char> {
    let body = zero_padded(decimal_digits(if year < 0 { (-year) as nat } else { year as nat }), 4);
    if 0 <= year <= 9999 {
        body
    } else if year < 0 {
        "-"@ + body
    } else {
        "+"@ + body
    }
}

/// The long form of a date in the Today view's header, as the format
/// `%A, %B %d, %Y` writes it: "Monday, January 05, 2026".
pub open spec fn long_date_text(date: CalendarDate) -> Seq<char> {
    weekday_name_spec(date.weekday()) + ", "@ + month_name_spec(date.month) + " "@ + zero_padded(
        decimal_digits(date.day as nat),
        2,
    ) + ", "@ + year_text(date.year as int)
}

/// `chrono::NaiveDate::format` with `%A, %B %d, %Y`, written out. By
/// chrono's source the English full weekday name, the full month name,
/// the day zero-padded to two digits and the year as `year_text` states.
#[verifier::external_body]
fn chrono_long_date(date: CalendarDate) -> (text: String)
    requires
        date.is_valid(),
    ensures
        text@ == long_date_text(date),
{
    chrono::NaiveDate::from_ymd_opt(date.year, date.month, date.day).unwrap().format("%A, %B %d, %Y").to_string()
}

/// The long label of a date shown at the top of the Today view (for today
/// and for the selected day).
pub fn long_date_label(date: &CalendarDate) -> (label: String)
    requires
        date.is_valid(),
    ensures
        label@ == long_date_text(*date),
{
    chrono_long_date(*date)
}

} // verus!
