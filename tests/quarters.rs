use leaderboard::calendar::{get_current_quarter_range, quarter_window, DateRange, Timestamp};

fn at(year: i32, month: u32, day: u32) -> Timestamp {
    Timestamp { year, month, day, hour: 13, minute: 45, second: 10 }
}

fn midnight(year: i32, month: u32) -> Timestamp {
    Timestamp { year, month, day: 1, hour: 0, minute: 0, second: 0 }
}

#[test]
fn december_rolls_into_next_year() {
    let r = get_current_quarter_range(&at(2023, 12, 31));
    assert_eq!(r, DateRange { start: midnight(2023, 10), end: midnight(2024, 1) });
    assert_eq!(r.end.month, 1);
    assert_eq!(r.end.year, 2024);
}

#[test]
fn every_month_maps_to_its_quarter() {
    let starts = [1, 1, 1, 4, 4, 4, 7, 7, 7, 10, 10, 10];
    for month in 1..=12u32 {
        let r = get_current_quarter_range(&at(2024, month, 15));
        let start = starts[month as usize - 1];
        assert_eq!(r.start, midnight(2024, start));
        if start == 10 {
            assert_eq!(r.end, midnight(2025, 1));
        } else {
            assert_eq!(r.end, midnight(2024, start + 3));
        }
        let span = (r.end.year * 12 + r.end.month as i32) - (r.start.year * 12 + r.start.month as i32);
        assert_eq!(span, 3);
    }
}

#[test]
fn leap_day_is_in_first_quarter() {
    let r = get_current_quarter_range(&at(2024, 2, 29));
    assert_eq!(r, DateRange { start: midnight(2024, 1), end: midnight(2024, 4) });
}

#[test]
fn window_only_when_flag_is_set() {
    let now = at(2024, 5, 2);
    assert_eq!(quarter_window(None, &now), None);
    assert_eq!(quarter_window(Some(false), &now), None);
    assert_eq!(quarter_window(Some(true), &now), Some(DateRange { start: midnight(2024, 4), end: midnight(2024, 7) }));
}
