use work_time_visualizer::config::{Config, ScheduleConfig};
use work_time_visualizer::time_calc::{calculate_progress, format_mins, Fraction, LocalTime};

fn at(day_of_week: u16, hour: u16, minute: u16) -> LocalTime {
    LocalTime { day_of_week, hour, minute }
}

fn value(f: Fraction) -> f64 {
    f.num as f64 / f.den as f64
}

#[test]
fn total_minutes_counts_from_midnight() {
    assert_eq!(at(1, 0, 0).total_minutes(), 0);
    assert_eq!(at(1, 8, 30).total_minutes(), 510);
    assert_eq!(at(1, 23, 59).total_minutes(), 1439);
}

#[test]
fn day_bar_is_empty_before_work_starts() {
    let p = calculate_progress(&Config::default(), at(2, 7, 0));
    assert_eq!(p.daily_pct, Fraction { num: 0, den: 480 });
    assert_eq!(p.daily_remaining_mins, Some(540));
    assert!(!p.is_weekend);
}

#[test]
fn day_bar_is_full_after_work_ends() {
    let p = calculate_progress(&Config::default(), at(2, 16, 0));
    assert_eq!(p.daily_pct, Fraction { num: 480, den: 480 });
    assert_eq!(p.daily_remaining_mins, None);
    let p = calculate_progress(&Config::default(), at(2, 22, 15));
    assert_eq!(value(p.daily_pct), 1.0);
}

#[test]
fn day_bar_midday_is_half() {
    let p = calculate_progress(&Config::default(), at(3, 12, 0));
    assert_eq!(p.daily_pct, Fraction { num: 240, den: 480 });
    assert_eq!(value(p.daily_pct), 0.5);
    assert_eq!(p.daily_remaining_mins, Some(240));
}

#[test]
fn weekend_fills_both_bars() {
    for day in [0u16, 6u16] {
        let p = calculate_progress(&Config::default(), at(day, 10, 0));
        assert!(p.is_weekend);
        assert_eq!(value(p.daily_pct), 1.0);
        assert_eq!(value(p.weekly_pct), 1.0);
        assert_eq!(p.daily_remaining_mins, None);
        assert_eq!(p.weekly_remaining_mins, None);
    }
}

#[test]
fn week_bar_runs_from_monday_start_to_friday_end() {
    let cfg = Config::default();
    let week = 4 * 1440 + 480;
    let p = calculate_progress(&cfg, at(1, 8, 0));
    assert_eq!(p.weekly_pct, Fraction { num: 0, den: week });
    assert_eq!(p.weekly_remaining_mins, Some(week));
    let p = calculate_progress(&cfg, at(1, 6, 0));
    assert_eq!(p.weekly_pct.num, 0);
    let p = calculate_progress(&cfg, at(5, 16, 0));
    assert_eq!(p.weekly_pct, Fraction { num: week, den: week });
    assert_eq!(p.weekly_remaining_mins, Some(0));
    let p = calculate_progress(&cfg, at(3, 12, 0));
    assert_eq!(p.weekly_pct.num, 2 * 1440 + 240);
    assert_eq!(p.weekly_remaining_mins, Some(week - 2 * 1440 - 240));
}

#[test]
fn week_bar_never_goes_back_during_the_week() {
    let cfg = Config::default();
    let mut last = -1;
    for day in 1u16..=6 {
        for hour in 0u16..24 {
            let p = calculate_progress(&cfg, at(day, hour, 30));
            assert!(p.weekly_pct.num >= last);
            last = p.weekly_pct.num;
        }
    }
}

#[test]
fn day_bar_never_goes_back_during_a_day() {
    let cfg = Config::default();
    let mut last = -1;
    for hour in 0u16..24 {
        for minute in [0u16, 20, 40] {
            let p = calculate_progress(&cfg, at(4, hour, minute));
            assert!(p.daily_pct.num >= last);
            assert!(0 <= p.daily_pct.num && p.daily_pct.num <= p.daily_pct.den);
            last = p.daily_pct.num;
        }
    }
}

#[test]
fn done_and_remaining_make_the_whole_week() {
    let cfg = Config::default();
    for day in 1u16..=5 {
        let p = calculate_progress(&cfg, at(day, 13, 5));
        assert_eq!(p.weekly_pct.num + p.weekly_remaining_mins.unwrap(), p.weekly_pct.den);
    }
}

#[test]
fn inverted_schedule_keeps_a_one_minute_day() {
    let mut cfg = Config::default();
    cfg.schedule = ScheduleConfig { start_hour: 16, start_minute: 0, end_hour: 8, end_minute: 0 };
    let p = calculate_progress(&cfg, at(2, 12, 0));
    assert_eq!(p.daily_pct, Fraction { num: 0, den: 1 });
    assert_eq!(p.daily_remaining_mins, Some(480 - 720));
    let p = calculate_progress(&cfg, at(2, 17, 0));
    assert_eq!(p.daily_pct, Fraction { num: 1, den: 1 });
    assert_eq!(p.daily_remaining_mins, None);
}

#[test]
fn format_mins_with_hours() {
    assert_eq!(format_mins(150), "2h 30m");
    assert_eq!(format_mins(60), "1h 00m");
    assert_eq!(format_mins(605), "10h 05m");
}

#[test]
fn format_mins_under_an_hour() {
    assert_eq!(format_mins(45), "45m");
    assert_eq!(format_mins(0), "0m");
    assert_eq!(format_mins(7), "7m");
}

#[test]
fn format_mins_negative_reads_as_zero() {
    assert_eq!(format_mins(-30), "0m");
}

#[test]
fn format_mins_large() {
    assert_eq!(format_mins(i32::MAX), "35791394h 07m");
}
