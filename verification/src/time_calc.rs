use vstd::prelude::*;
use crate::config::{Config, ScheduleConfig};

verus! {

/// Minutes in a day.
pub const MINUTES_PER_DAY: i32 = 1440;

// ── Local time snapshot ────────────────────────────────────────────────────

/// A time of day on a given weekday, as read from the local clock.
#[derive(Clone, Copy, Debug, PartialEq, Eq)]
pub struct LocalTime {
    /// 0 = Sunday … 6 = Saturday
    pub day_of_week: u16,
    pub hour: u16,
    pub minute: u16,
}

impl LocalTime {
    pub open spec fn spec_total_minutes(self) -> int {
        self.hour * 60 + self.minute
    }

    /// A time that a clock can show: hour 0–23, minute 0–59.
    pub open spec fn is_clock_time(self) -> bool {
        self.hour < 24 && self.minute < 60
    }

    /// Minutes since midnight.
    pub fn total_minutes(&self) -> (m: i32)
        ensures
            m == self.spec_total_minutes(),
    {
        self.hour as i32 * 60 + self.minute as i32
    }
}

// ── Progress result ────────────────────────────────────────────────────────

/// A share of a span of time: `num` minutes done out of `den`.
/// Its value is `num / den`.
#[derive(Clone, Copy, Debug, PartialEq, Eq)]
pub struct Fraction {
    pub num: i32,
    pub den: i32,
}

impl Fraction {
    /// A share between 0 and 1 inclusive.
    pub open spec fn wf(self) -> bool {
        0 <= self.num <= self.den && self.den > 0
    }

    /// The share is all of the span.
    pub open spec fn is_full(self) -> bool {
        self.num == self.den
    }
}

/// Progress through the work day and the work week.
#[derive(Clone, Copy, Debug, PartialEq, Eq)]
pub struct TimeProgress {
    /// 0 (not started) … 1 (done/weekend)
    pub daily_pct: Fraction,
    /// 0 (Monday start) … 1 (Friday end/weekend)
    pub weekly_pct: Fraction,
    /// true on Saturday (6) and Sunday (0)
    pub is_weekend: bool,
    /// Minutes remaining today
    pub daily_remaining_mins: Option<i32>,
    /// Minutes remaining this week
    pub weekly_remaining_mins: Option<i32>,
}

// ── The model ──────────────────────────────────────────────────────────────

pub open spec fn is_weekend_day(day_of_week: u16) -> bool {
    day_of_week == 0 || day_of_week == 6
}

/// Start of the work day, in minutes since midnight.
pub open spec fn start_minutes(s: ScheduleConfig) -> int {
    s.start_hour * 60 + s.start_minute
}

/// End of the work day, in minutes since midnight.
pub open spec fn end_minutes(s: ScheduleConfig) -> int {
    s.end_hour * 60 + s.end_minute
}

/// Length of the work day, at least one minute.
pub open spec fn day_span(s: ScheduleConfig) -> int {
    if end_minutes(s) - start_minutes(s) < 1 {
        1
    } else {
        end_minutes(s) - start_minutes(s)
    }
}

/// From Monday's start to Friday's end: four whole days and one work day.
pub open spec fn week_span(s: ScheduleConfig) -> int {
    4 * 1440 + day_span(s)
}

/// Minutes of the work day done at `now` (on a weekday).
pub open spec fn day_done(s: ScheduleConfig, now: LocalTime) -> int {
    let cur = now.spec_total_minutes();
    if is_weekend_day(now.day_of_week) {
        day_span(s)
    } else if cur < start_minutes(s) {
        0
    } else if cur >= end_minutes(s) {
        day_span(s)
    } else {
        cur - start_minutes(s)
    }
}

/// Minutes since Monday's start, not below zero.
pub open spec fn week_offset(s: ScheduleConfig, now: LocalTime) -> int {
    let days_since_monday: int = if now.day_of_week >= 1 { now.day_of_week - 1 } else { 0 };
    let off = days_since_monday * 1440 + (now.spec_total_minutes() - start_minutes(s));
    if off < 0 {
        0
    } else {
        off
    }
}

/// Minutes of the work week done at `now`.
pub open spec fn week_done(s: ScheduleConfig, now: LocalTime) -> int {
    if is_weekend_day(now.day_of_week) {
        week_span(s)
    } else if week_offset(s, now) > week_span(s) {
        week_span(s)
    } else {
        week_offset(s, now)
    }
}

/// Minutes of the work week still to go at `now` (on a weekday), not below zero.
pub open spec fn week_remaining(s: ScheduleConfig, now: LocalTime) -> int {
    if week_span(s) - week_offset(s, now) < 0 {
        0
    } else {
        week_span(s) - week_offset(s, now)
    }
}

/// `v` held within `0 ..= hi`.
pub open spec fn clamp(v: int, hi: int) -> int {
    if v < 0 {
        0
    } else if v > hi {
        hi
    } else {
        v
    }
}

// ── Core calculation ───────────────────────────────────────────────────────

/// Progress through the work day and the work week at the local time `now`.
pub fn calculate_progress(cfg: &Config, now: LocalTime) -> (p: TimeProgress)
    ensures
        p.is_weekend == is_weekend_day(now.day_of_week),
        p.daily_pct.wf(),
        p.weekly_pct.wf(),
        p.daily_pct.den == day_span(cfg.schedule),
        p.daily_pct.num == day_done(cfg.schedule, now),
        p.weekly_pct.den == week_span(cfg.schedule),
        p.weekly_pct.num == week_done(cfg.schedule, now),
        match p.daily_remaining_mins {
            None => is_weekend_day(now.day_of_week) || (now.spec_total_minutes() >= start_minutes(
                cfg.schedule,
            ) && now.spec_total_minutes() >= end_minutes(cfg.schedule)),
            Some(m) => !is_weekend_day(now.day_of_week) && (now.spec_total_minutes()
                < start_minutes(cfg.schedule) || now.spec_total_minutes() < end_minutes(
                cfg.schedule,
            )) && m == end_minutes(cfg.schedule) - now.spec_total_minutes(),
        },
        match p.weekly_remaining_mins {
            None => is_weekend_day(now.day_of_week),
            Some(m) => !is_weekend_day(now.day_of_week) && m == week_remaining(cfg.schedule, now),
        },
        // The same, read directly off the schedule and the clock.
        p.is_weekend <==> (now.day_of_week == 0 || now.day_of_week == 6),
        p.daily_pct.den == (if (cfg.schedule.end_hour * 60 + cfg.schedule.end_minute) - (
        cfg.schedule.start_hour * 60 + cfg.schedule.start_minute) >= 1 {
            (cfg.schedule.end_hour * 60 + cfg.schedule.end_minute) - (cfg.schedule.start_hour * 60
                + cfg.schedule.start_minute)
        } else {
            1
        }),
        p.weekly_pct.den == 4 * 1440 + p.daily_pct.den,
        now.day_of_week != 0 && now.day_of_week != 6 && cfg.schedule.start_hour * 60
            + cfg.schedule.start_minute <= now.hour * 60 + now.minute < cfg.schedule.end_hour * 60
            + cfg.schedule.end_minute ==> p.daily_pct.num == (now.hour * 60 + now.minute) - (
        cfg.schedule.start_hour * 60 + cfg.schedule.start_minute) && p.daily_remaining_mins
            == Some(
            ((cfg.schedule.end_hour * 60 + cfg.schedule.end_minute) - (now.hour * 60
                + now.minute)) as i32,
        ),
        now.day_of_week != 0 && now.day_of_week != 6 && now.hour * 60 + now.minute
            < cfg.schedule.start_hour * 60 + cfg.schedule.start_minute ==> p.daily_pct.num == 0,
        now.day_of_week != 0 && now.day_of_week != 6 && now.hour * 60 + now.minute
            >= cfg.schedule.start_hour * 60 + cfg.schedule.start_minute && now.hour * 60
            + now.minute >= cfg.schedule.end_hour * 60 + cfg.schedule.end_minute
            ==> p.daily_pct.num == p.daily_pct.den && p.daily_remaining_mins is None,
        (now.day_of_week == 0 || now.day_of_week == 6) ==> p.daily_pct.num == p.daily_pct.den
            && p.weekly_pct.num == p.weekly_pct.den && p.daily_remaining_mins is None
            && p.weekly_remaining_mins is None,
        1 <= now.day_of_week <= 5 ==> p.weekly_pct.num == clamp(
            (now.day_of_week - 1) * 1440 + (now.hour * 60 + now.minute) - (cfg.schedule.start_hour
                * 60 + cfg.schedule.start_minute),
            p.weekly_pct.den as int,
        ) && p.weekly_remaining_mins == Some(
            (p.weekly_pct.den - clamp(
                (now.day_of_week - 1) * 1440 + (now.hour * 60 + now.minute) - (
                cfg.schedule.start_hour * 60 + cfg.schedule.start_minute),
                p.weekly_pct.den as int,
            )) as i32,
        ),
{
    let s = &cfg.schedule;
    let is_weekend = now.day_of_week == 0 || now.day_of_week == 6;

    let start_mins = s.start_hour as i32 * 60 + s.start_minute as i32;
    let end_mins = s.end_hour as i32 * 60 + s.end_minute as i32;
    let day_total = if end_mins - start_mins < 1 { 1 } else { end_mins - start_mins };
    let cur_mins = now.total_minutes();

    // ── Daily ──────────────────────────────────────────────────────────────
    let (daily_done, daily_remaining_mins) = if is_weekend {
        (day_total, None)
    } else if cur_mins < start_mins {
        // Before work starts → 0 %
        (0, Some(end_mins - cur_mins))
    } else if cur_mins >= end_mins {
        // After work ends → 100 %
        (day_total, None)
    } else {
        (cur_mins - start_mins, Some(end_mins - cur_mins))
    };

    // ── Weekly ─────────────────────────────────────────────────────────────
    //
    // Full work-week span: Monday start_time → Friday end_time
    //   Total minutes = 4 * 1440 + day_total
    // Current offset = days_since_monday * 1440 + (cur_mins - start_mins),
    //   clamped 0 … total
    let week_total = 4 * MINUTES_PER_DAY + day_total;
    let (weekly_done, weekly_remaining_mins) = if is_weekend {
        (week_total, None)
    } else {
        let days_since_monday: i32 = if now.day_of_week >= 1 {
            now.day_of_week as i32 - 1
        } else {
            0
        };
        let raw_offset = days_since_monday * MINUTES_PER_DAY + (cur_mins - start_mins);
        let week_offset = if raw_offset < 0 { 0 } else { raw_offset };
        let done = if week_offset > week_total { week_total } else { week_offset };
        let left = if week_total - week_offset < 0 { 0 } else { week_total - week_offset };
        (done, Some(left))
    };

    TimeProgress {
        daily_pct: Fraction { num: daily_done, den: day_total },
        weekly_pct: Fraction { num: weekly_done, den: week_total },
        is_weekend,
        daily_remaining_mins,
        weekly_remaining_mins,
    }
}

// ── Formatting ─────────────────────────────────────────────────────────────

/// The character of a decimal digit.
pub open spec fn digit_char(d: int) -> char {
    (d + 48) as char
}

/// Decimal digits of `n`, most significant first, without leading zeros.
pub open spec fn decimal(n: nat) -> Seq<char>
    decreases n,
{
    if n < 10 {
        seq![digit_char(n as int)]
    } else {
        decimal(n / 10).push(digit_char((n % 10) as int))
    }
}

/// The value of a decimal digit character.
pub open spec fn digit_value(c: char) -> int {
    c as u32 - 48
}

/// A character `'0'` … `'9'`.
pub open spec fn is_digit(c: char) -> bool {
    48 <= c as u32 <= 57
}

/// The number that a string of decimal digits reads as.
pub open spec fn decimal_value(s: Seq<char>) -> int
    decreases s.len(),
{
    if s.len() == 0 {
        0
    } else {
        10 * decimal_value(s.drop_last()) + digit_value(s.last())
    }
}

/// `decimal(n)` is a non-empty string of decimal digits, without a leading
/// zero, that reads back as `n`.
pub proof fn lemma_decimal_reads_back(n: nat)
    ensures
        decimal(n).len() >= 1,
        forall|i: int| 0 <= i < decimal(n).len() ==> is_digit(#[trigger] decimal(n)[i]),
        decimal_value(decimal(n)) == n,
        n >= 10 ==> decimal(n)[0] != '0',
    decreases n,
{
    let d = (n % 10) as int;
    assert(((d + 48) as char) as u32 == d + 48);
    if n >= 10 {
        lemma_decimal_reads_back(n / 10);
        let p = decimal(n / 10);
        assert(decimal(n) == p.push(digit_char(d)));
        assert(decimal(n).drop_last() =~= p);
        assert(decimal(n).last() == digit_char(d));
        assert(digit_value(digit_char(d)) == d);
        assert(decimal_value(decimal(n)) == 10 * decimal_value(p) + d);
        assert(n == 10 * (n / 10) + n % 10);
        assert forall|i: int| 0 <= i < decimal(n).len() implies is_digit(#[trigger] decimal(n)[i]) by {
            if i < p.len() {
                assert(decimal(n)[i] == p[i]);
            }
        }
        assert(decimal(n)[0] == p[0]);
        if n / 10 < 10 {
            let e = (n / 10) as int;
            assert(((e + 48) as char) as u32 == e + 48);
            assert(p[0] == digit_char(e));
        }
    } else {
        assert(decimal(n).drop_last() =~= Seq::<char>::empty());
        assert(decimal_value(Seq::<char>::empty()) == 0);
        assert(digit_value(digit_char(d)) == d);
        assert(decimal_value(decimal(n)) == 10 * decimal_value(decimal(n).drop_last()) + d);
    }
}

/// "Xh YYm" when there is at least one hour, "Ym" otherwise; negative counts
/// read as zero.
pub open spec fn minutes_text(total_mins: int) -> Seq<char> {
    let total = if total_mins < 0 { 0 } else { total_mins };
    let h = total / 60;
    let m = total % 60;
    if h > 0 {
        decimal(h as nat) + seq!['h', ' ', digit_char(m / 10), digit_char(m % 10), 'm']
    } else {
        decimal(m as nat).push('m')
    }
}

/// Appends one character to a string (`String::push`).
#[verifier::external_body]
fn push_char(s: &mut String, c: char)
    ensures
        final(s)@ == old(s)@.push(c),
{
    s.push(c);
}

fn digit(d: u32) -> (c: char)
    requires
        d < 10,
    ensures
        c == digit_char(d as int),
{
    (d as u8 + 48) as char
}

fn push_decimal(s: &mut String, n: u32)
    ensures
        final(s)@ == old(s)@ + decimal(n as nat),
    decreases n,
{
    if n >= 10 {
        push_decimal(s, n / 10);
    }
    push_char(s, digit(n % 10));
}

/// Format a minute count as "Xh Ym" (e.g. "2h 30m" or "45m").
pub fn format_mins(total_mins: i32) -> (text: String)
    ensures
        text@ == minutes_text(total_mins as int),
        // The same, read back: the text ends in 'm'; under an hour it is the
        // minutes in decimal; otherwise it is the hours in decimal (no leading
        // zero), "h ", two digits of minutes and "m".
        text@.len() >= 2,
        text@.last() == 'm',
        (if total_mins < 0 { 0 } else { total_mins as int }) < 60 ==> {
            &&& forall|i: int| 0 <= i < text@.len() - 1 ==> is_digit(#[trigger] text@[i])
            &&& decimal_value(text@.drop_last()) == (if total_mins < 0 {
                0
            } else {
                total_mins as int
            })
        },
        (if total_mins < 0 { 0 } else { total_mins as int }) >= 60 ==> {
            let k = text@.len() as int;
            &&& k >= 6
            &&& text@[k - 5] == 'h'
            &&& text@[k - 4] == ' '
            &&& is_digit(text@[k - 3]) && is_digit(text@[k - 2])
            &&& 10 * digit_value(text@[k - 3]) + digit_value(text@[k - 2]) == total_mins % 60
            &&& forall|i: int| 0 <= i < k - 5 ==> is_digit(#[trigger] text@[i])
            &&& text@[0] != '0'
            &&& decimal_value(text@.take(k - 5)) == total_mins / 60
        },
{
    let total: u32 = if total_mins < 0 { 0 } else { total_mins as u32 };
    let h = total / 60;
    let m = total % 60;
    let mut text = String::new();
    if h > 0 {
        push_decimal(&mut text, h);
        push_char(&mut text, 'h');
        push_char(&mut text, ' ');
        push_char(&mut text, digit(m / 10));
        push_char(&mut text, digit(m % 10));
        push_char(&mut text, 'm');
    } else {
        push_decimal(&mut text, m);
        push_char(&mut text, 'm');
    }
    proof {
        let t = text@;
        let k = t.len() as int;
        if h > 0 {
            lemma_decimal_reads_back(h as nat);
            let p = decimal(h as nat);
            assert(t == p + seq!['h', ' ', digit_char((m / 10) as int), digit_char((m % 10) as int), 'm']);
            let a = (m / 10) as int;
            let b = (m % 10) as int;
            assert(((a + 48) as char) as u32 == a + 48);
            assert(((b + 48) as char) as u32 == b + 48);
            assert(t.take(k - 5) =~= p);
            assert forall|i: int| 0 <= i < k - 5 implies is_digit(#[trigger] t[i]) by {
                assert(t[i] == p[i]);
            }
            if h < 10 {
                let e = h as int;
                assert(((e + 48) as char) as u32 == e + 48);
                assert(p[0] == digit_char(e));
            }
            assert(t[0] == p[0]);
        } else {
            lemma_decimal_reads_back(m as nat);
            let p = decimal(m as nat);
            assert(t == p.push('m'));
            assert(t.drop_last() =~= p);
            assert forall|i: int| 0 <= i < k - 1 implies is_digit(#[trigger] t[i]) by {
                assert(t[i] == p[i]);
            }
        }
    }
    text
}

// ── Laws ───────────────────────────────────────────────────────────────────

/// On Saturday and Sunday both bars are full.
pub proof fn lemma_weekend_is_full(s: ScheduleConfig, now: LocalTime)
    requires
        is_weekend_day(now.day_of_week),
    ensures
        day_done(s, now) == day_span(s),
        week_done(s, now) == week_span(s),
{
}

/// On a weekday the day bar is empty before the work day starts and full
/// once it has ended.
pub proof fn lemma_day_empty_before_start_full_after_end(s: ScheduleConfig, now: LocalTime)
    requires
        !is_weekend_day(now.day_of_week),
    ensures
        now.spec_total_minutes() < start_minutes(s) ==> day_done(s, now) == 0,
        now.spec_total_minutes() >= start_minutes(s) && now.spec_total_minutes() >= end_minutes(s)
            ==> day_done(s, now) == day_span(s),
{
}

/// Within one day, the day bar never goes back as the clock moves on.
pub proof fn lemma_day_progress_monotone(s: ScheduleConfig, a: LocalTime, b: LocalTime)
    requires
        a.day_of_week == b.day_of_week,
        a.spec_total_minutes() <= b.spec_total_minutes(),
    ensures
        day_done(s, a) <= day_done(s, b),
{
}

/// From Monday to Saturday, the week bar never goes back as time moves on.
pub proof fn lemma_week_progress_monotone(s: ScheduleConfig, a: LocalTime, b: LocalTime)
    requires
        1 <= a.day_of_week <= b.day_of_week <= 6,
        a.is_clock_time(),
        b.is_clock_time(),
        a.day_of_week == b.day_of_week ==> a.spec_total_minutes() <= b.spec_total_minutes(),
    ensures
        week_done(s, a) <= week_done(s, b),
{
    if !is_weekend_day(b.day_of_week) {
        assert((a.day_of_week - 1) * 1440 + a.spec_total_minutes() <= (b.day_of_week - 1) * 1440
            + b.spec_total_minutes()) by (nonlinear_arith)
            requires
                a.day_of_week <= b.day_of_week,
                a.day_of_week == b.day_of_week ==> a.spec_total_minutes()
                    <= b.spec_total_minutes(),
                0 <= a.spec_total_minutes() < 1440,
                0 <= b.spec_total_minutes() < 1440,
        ;
    }
}

/// The week bar is empty on Monday until the work day starts, and full on
/// Friday once the work day has ended.
pub proof fn lemma_week_spans_monday_start_to_friday_end(s: ScheduleConfig, now: LocalTime)
    requires
        end_minutes(s) > start_minutes(s),
    ensures
        now.day_of_week == 1 && now.spec_total_minutes() <= start_minutes(s) ==> week_done(s, now)
            == 0,
        now.day_of_week == 5 && now.spec_total_minutes() >= end_minutes(s) ==> week_done(s, now)
            == week_span(s),
{
}

/// On a weekday, what is done of the week and what remains add up to the
/// whole week; during working hours the same holds of the day.
pub proof fn lemma_done_and_remaining_make_the_whole(s: ScheduleConfig, now: LocalTime)
    requires
        !is_weekend_day(now.day_of_week),
    ensures
        week_done(s, now) + week_remaining(s, now) == week_span(s),
        start_minutes(s) <= now.spec_total_minutes() < end_minutes(s) ==> day_done(s, now) + (
        end_minutes(s) - now.spec_total_minutes()) == day_span(s),
{
}

/// During working hours on a weekday, the day's share is the minutes since
/// the configured start (hour and minute) out of the minutes from start to
/// end.
pub proof fn lemma_day_share_in_working_hours(s: ScheduleConfig, now: LocalTime)
    requires
        now.day_of_week != 0 && now.day_of_week != 6,
        s.start_hour * 60 + s.start_minute <= now.hour * 60 + now.minute < s.end_hour * 60
            + s.end_minute,
    ensures
        day_done(s, now) == (now.hour * 60 + now.minute) - (s.start_hour * 60 + s.start_minute),
        day_span(s) == (s.end_hour * 60 + s.end_minute) - (s.start_hour * 60 + s.start_minute),
{
}

/// From Monday to Friday the week's share is the minutes since Monday's
/// configured start, held between none and the whole week, which is four
/// days and one work day.
pub proof fn lemma_week_share_on_weekdays(s: ScheduleConfig, now: LocalTime)
    requires
        1 <= now.day_of_week <= 5,
    ensures
        week_span(s) == 4 * 1440 + (if (s.end_hour * 60 + s.end_minute) - (s.start_hour * 60
            + s.start_minute) >= 1 {
            (s.end_hour * 60 + s.end_minute) - (s.start_hour * 60 + s.start_minute)
        } else {
            1
        }),
        week_done(s, now) == clamp(
            (now.day_of_week - 1) * 1440 + (now.hour * 60 + now.minute) - (s.start_hour * 60
                + s.start_minute),
            week_span(s),
        ),
        week_remaining(s, now) == week_span(s) - week_done(s, now),
{
}

} // verus!
