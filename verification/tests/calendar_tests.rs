use nodera_desktop::calendar::{
    day_aria_label, generate_calendar_month, long_date_label, month_name, weekday_short_names,
    CalendarState,
};
use nodera_desktop::date::{CalendarDate, MAX_YEAR, MIN_YEAR};

fn date(y: i32, m: u32, d: u32) -> CalendarDate {
    CalendarDate::from_ymd_opt(y, m, d).unwrap()
}

#[test]
fn test_calendar_month_structure_and_cell_count() {
    let today = CalendarDate::from_ymd_opt(2026, 9, 21).unwrap();
    let selected = today;
    let month = generate_calendar_month(2026, 9, selected, today, |_| false);

    assert_eq!(month.year, 2026);
    assert_eq!(month.month, 9);
    assert_eq!(month.month_name, "September");
    assert_eq!(month.weeks.len(), 6);

    let total_cells: usize = month.weeks.iter().map(|w| w.days.len()).sum();
    assert_eq!(total_cells, 42);

    // First cell for September 2026 (Sept 1 is Tuesday, so first cell is Monday Aug 31)
    let first_cell = &month.weeks[0].days[0];
    assert_eq!(first_cell.date, CalendarDate::from_ymd_opt(2026, 8, 31).unwrap());
    assert!(!first_cell.is_current_month);
    assert_eq!(first_cell.day_number, 31);

    // Sept 1 is Tuesday (index 1)
    let sept_1 = &month.weeks[0].days[1];
    assert_eq!(sept_1.date, CalendarDate::from_ymd_opt(2026, 9, 1).unwrap());
    assert!(sept_1.is_current_month);
    assert_eq!(sept_1.day_number, 1);
}

#[test]
fn test_leap_year_february_2024_vs_2026() {
    let today = CalendarDate::from_ymd_opt(2026, 9, 21).unwrap();

    // 2024 is a leap year (29 days in Feb)
    let feb_2024 = generate_calendar_month(2024, 2, today, today, |_| false);
    let feb_2024_days: Vec<_> = feb_2024
        .weeks
        .iter()
        .flat_map(|w| &w.days)
        .filter(|d| d.is_current_month)
        .collect();
    assert_eq!(feb_2024_days.len(), 29);
    assert_eq!(feb_2024_days.last().unwrap().day_number, 29);

    // 2026 is NOT a leap year (28 days in Feb)
    let feb_2026 = generate_calendar_month(2026, 2, today, today, |_| false);
    let feb_2026_days: Vec<_> = feb_2026
        .weeks
        .iter()
        .flat_map(|w| &w.days)
        .filter(|d| d.is_current_month)
        .collect();
    assert_eq!(feb_2026_days.len(), 28);
    assert_eq!(feb_2026_days.last().unwrap().day_number, 28);
}

#[test]
fn test_month_navigation_and_year_wraparound() {
    let today = CalendarDate::from_ymd_opt(2026, 12, 15).unwrap();
    let mut state = CalendarState::new(today);

    assert_eq!(state.view_year, 2026);
    assert_eq!(state.view_month, 12);

    // Next month wraps around to Jan 2027
    state.next_month();
    assert_eq!(state.view_year, 2027);
    assert_eq!(state.view_month, 1);

    // Previous month wraps back to Dec 2026
    state.prev_month();
    assert_eq!(state.view_year, 2026);
    assert_eq!(state.view_month, 12);

    // Go to today
    let oct_date = CalendarDate::from_ymd_opt(2026, 10, 5).unwrap();
    state.go_to_today(oct_date);
    assert_eq!(state.view_year, 2026);
    assert_eq!(state.view_month, 10);
    assert_eq!(state.selected_date, oct_date);
}

#[test]
fn test_daily_note_and_today_indicators_and_aria_labels() {
    let today = CalendarDate::from_ymd_opt(2026, 9, 21).unwrap();
    let selected = today;
    let note_dates = [CalendarDate::from_ymd_opt(2026, 9, 21).unwrap()];

    let month = generate_calendar_month(2026, 9, selected, today, |d| note_dates.contains(&d));

    let cell_21 = month
        .weeks
        .iter()
        .flat_map(|w| &w.days)
        .find(|d| d.date == today)
        .expect("September 21 must be present");

    assert!(cell_21.is_today);
    assert!(cell_21.is_selected);
    assert!(cell_21.has_daily_note);
    assert!(!cell_21.is_future);
    assert!(cell_21.aria_label.contains("September 21, 2026"));
    assert!(cell_21.aria_label.contains("daily note exists"));
    assert!(cell_21.aria_label.contains("today"));
    assert!(cell_21.aria_label.contains("selected"));
}

#[test]
fn month_names_and_weekday_headers() {
    let expected = [
        "January", "February", "March", "April", "May", "June", "July", "August", "September",
        "October", "November", "December",
    ];
    for (i, name) in expected.iter().enumerate() {
        assert_eq!(month_name(i as u32 + 1), *name);
    }
    assert_eq!(month_name(0), "Unknown");
    assert_eq!(month_name(13), "Unknown");
    assert_eq!(weekday_short_names(), ["Mon", "Tue", "Wed", "Thu", "Fri", "Sat", "Sun"]);
}

#[test]
fn dates_exist_only_in_the_calendar_and_chrono_range() {
    assert!(CalendarDate::from_ymd_opt(2024, 2, 29).is_some());
    assert!(CalendarDate::from_ymd_opt(2026, 2, 29).is_none());
    assert!(CalendarDate::from_ymd_opt(1900, 2, 29).is_none());
    assert!(CalendarDate::from_ymd_opt(2000, 2, 29).is_some());
    assert!(CalendarDate::from_ymd_opt(-4, 2, 29).is_some());
    assert!(CalendarDate::from_ymd_opt(2023, 4, 31).is_none());
    assert!(CalendarDate::from_ymd_opt(2023, 0, 1).is_none());
    assert!(CalendarDate::from_ymd_opt(2023, 13, 1).is_none());
    assert!(CalendarDate::from_ymd_opt(2023, 1, 0).is_none());
    assert!(CalendarDate::from_ymd_opt(MAX_YEAR, 12, 31).is_some());
    assert!(CalendarDate::from_ymd_opt(MAX_YEAR + 1, 1, 1).is_none());
    assert!(CalendarDate::from_ymd_opt(MIN_YEAR, 1, 1).is_some());
    assert!(CalendarDate::from_ymd_opt(MIN_YEAR - 1, 12, 31).is_none());
    let d = date(2015, 3, 14);
    assert_eq!((d.year, d.month, d.day), (2015, 3, 14));
}

#[test]
fn weekdays_count_from_monday() {
    assert_eq!(date(1, 1, 1).num_days_from_monday(), 0);
    assert_eq!(date(2026, 9, 1).num_days_from_monday(), 1);
    assert_eq!(date(2026, 9, 21).num_days_from_monday(), 0);
    assert_eq!(date(1970, 1, 1).num_days_from_monday(), 3);
    assert_eq!(date(2024, 2, 29).num_days_from_monday(), 3);
    assert_eq!(date(2000, 1, 2).num_days_from_monday(), 6);
}

#[test]
fn adding_days_crosses_months_and_years() {
    assert_eq!(date(2026, 12, 31).add_days(1), date(2027, 1, 1));
    assert_eq!(date(2027, 1, 1).add_days(-1), date(2026, 12, 31));
    assert_eq!(date(2024, 2, 28).add_days(1), date(2024, 2, 29));
    assert_eq!(date(2024, 2, 29).add_days(7), date(2024, 3, 7));
    assert_eq!(date(2014, 1, 1).add_days(365 * 4 + 1), date(2018, 1, 1));
    assert_eq!(date(2015, 9, 5).add_days(-40), date(2015, 7, 27));
    assert_eq!(date(2026, 9, 1).add_days(0), date(2026, 9, 1));
}

#[test]
fn chronological_order_of_dates() {
    assert!(date(2026, 9, 20).comes_before(&date(2026, 9, 21)));
    assert!(date(2025, 12, 31).comes_before(&date(2026, 1, 1)));
    assert!(date(2026, 8, 31).comes_before(&date(2026, 9, 1)));
    assert!(!date(2026, 9, 21).comes_before(&date(2026, 9, 21)));
    assert!(!date(2027, 1, 1).comes_before(&date(2026, 12, 31)));
}

#[test]
fn every_month_of_a_year_fills_its_grid() {
    let today = date(2026, 9, 21);
    for year in [2024, 2025, 2026, 1900, 2000] {
        for month in 1..=12u32 {
            let grid = generate_calendar_month(year, month, today, today, |_| false);
            let cells: Vec<_> = grid.weeks.iter().flat_map(|w| &w.days).collect();
            assert_eq!(cells.len(), 42);
            assert_eq!(cells[0].date.num_days_from_monday(), 0);
            let current: Vec<_> = cells.iter().filter(|c| c.is_current_month).collect();
            let days_in_month = (1..=31u32).filter(|d| CalendarDate::from_ymd_opt(year, month, *d).is_some()).count();
            assert_eq!(current.len(), days_in_month);
            for (i, c) in current.iter().enumerate() {
                assert_eq!(c.day_number as usize, i + 1);
            }
            let lead = date(year, month, 1).num_days_from_monday() as usize;
            assert!(cells[lead].is_current_month);
            assert_eq!(cells[lead].day_number, 1);
            for k in 1..42 {
                assert_eq!(cells[k - 1].date.add_days(1), cells[k].date);
            }
        }
    }
}

#[test]
fn invalid_month_falls_back_to_january_2026() {
    let today = date(2026, 9, 21);
    let grid = generate_calendar_month(2026, 13, today, today, |_| false);
    assert_eq!(grid.month, 13);
    assert_eq!(grid.month_name, "Unknown");
    let first = &grid.weeks[0].days[0];
    assert_eq!(first.date, date(2025, 12, 29));
    assert!(grid.weeks.iter().flat_map(|w| &w.days).all(|c| !c.is_current_month));
}

#[test]
fn aria_labels_list_every_flag_in_order() {
    let today = date(2026, 9, 21);
    let selected = date(2026, 9, 25);
    let grid = generate_calendar_month(2026, 9, selected, today, |d| d == selected);
    let cells: Vec<_> = grid.weeks.iter().flat_map(|w| &w.days).collect();
    let sel = cells.iter().find(|c| c.date == selected).unwrap();
    assert_eq!(sel.aria_label, "September 25, 2026, daily note exists, selected, future date");
    assert!(sel.is_future && sel.is_selected && sel.has_daily_note && !sel.is_today);
    let tod = cells.iter().find(|c| c.date == today).unwrap();
    assert_eq!(tod.aria_label, "September 21, 2026, today");
    let past = cells.iter().find(|c| c.date == date(2026, 8, 31)).unwrap();
    assert_eq!(past.aria_label, "August 31, 2026");
    assert_eq!(
        day_aria_label(date(-5, 1, 1), false, false, false, false),
        "January 1, -5"
    );
    assert_eq!(
        day_aria_label(date(2026, 12, 9), true, true, true, true),
        "December 9, 2026, daily note exists, today, selected, future date"
    );
}

#[test]
fn month_navigation_round_trips() {
    let mut state = CalendarState::new(date(2026, 1, 10));
    state.prev_month();
    assert_eq!((state.view_year, state.view_month), (2025, 12));
    state.next_month();
    assert_eq!((state.view_year, state.view_month), (2026, 1));
    for _ in 0..12 {
        state.next_month();
    }
    assert_eq!((state.view_year, state.view_month), (2027, 1));
    assert_eq!(state.selected_date, date(2026, 1, 10));
    state.select_date(date(2030, 6, 1));
    assert_eq!(state, CalendarState { view_year: 2030, view_month: 6, selected_date: date(2030, 6, 1) });
}

#[test]
fn long_date_labels_spell_out_the_date() {
    assert_eq!(long_date_label(&date(2026, 1, 5)), "Monday, January 05, 2026");
    assert_eq!(long_date_label(&date(2024, 2, 29)), "Thursday, February 29, 2024");
    assert_eq!(long_date_label(&date(1, 1, 1)), "Monday, January 01, 0001");
    assert_eq!(long_date_label(&date(12345, 6, 7)).split(", ").last(), Some("+12345"));
    assert_eq!(long_date_label(&date(-44, 3, 15)).split(", ").last(), Some("-0044"));
}
