//! When a schedule's next run falls: never before now, at its time of day, within a day
//! of now for a daily schedule and within a week on its weekday for a weekly one.
use crate::retention::lemma_next_year_start;
use crate::scheduler::{
    days_from_civil, days_in_month, local_now_ok, next_run, scheduled_clock, weekday_from_sunday, LocalNow,
    ScheduleFrequency,
};
use vstd::arithmetic::div_mod::lemma_fundamental_div_mod_converse;
use vstd::prelude::*;

verus! {

/// The moment `now`, its local date and time read as UTC, in nanoseconds since the epoch.
pub open spec fn now_nanos(now: LocalNow) -> int {
    (days_from_civil(now.year as int, now.month as int, now.day as int) * 86400 + now.seconds_of_day)
        * 1000000000 + now.nanos
}

/// The time of day a schedule's `HH:MM` names, in seconds.
pub open spec fn clock_seconds(time: Seq<char>) -> int {
    match scheduled_clock(time) {
        Some((h, m)) => (h * 3600 + m * 60) as int,
        None => 0,
    }
}

/// The first day of the month after month `mo` of year `y` comes `days_in_month(y, mo)`
/// days after the first day of that month.
proof fn lemma_next_month_start(y: int, mo: int)
    requires
        1 <= mo <= 12,
    ensures
        days_from_civil(if mo == 12 { y + 1 } else { y }, if mo == 12 { 1 } else { mo + 1 }, 1)
            == days_from_civil(y, mo, 1) + days_in_month(y, mo),
{
    if mo == 2 {
        lemma_next_year_start(y);
        assert(days_from_civil(y + 1, 1, 1) == days_from_civil(y, 3, 1) + 306);
        assert(days_from_civil(y, 2, 1) == days_from_civil(y, 1, 1) + 31);
    }
}

/// A day later in the same month is that many days later.
proof fn lemma_same_month(y: int, mo: int, d: int)
    ensures
        days_from_civil(y, mo, d) == days_from_civil(y, mo, 1) + d - 1,
{
}

/// The next run of a schedule, computed at `now`, is never before `now`: a time of day
/// that has already passed moves the run to a later day. It falls at the schedule's time
/// of day. (A monthly schedule for a day after the 28th runs on the 28th of the month
/// whenever today is not past that day, so from the 28th on it can fall before now;
/// those inputs are left out.)
pub proof fn law_next_run_is_not_in_the_past(
    frequency: ScheduleFrequency,
    time: Seq<char>,
    day_of_week: Option<u8>,
    day_of_month: Option<u8>,
    now: LocalNow,
)
    requires
        local_now_ok(now),
        next_run(frequency, time, day_of_week, day_of_month, now) is Some,
        frequency == ScheduleFrequency::Monthly && day_of_month is Some && day_of_month->0 > 28 ==> now.day < 28,
    ensures
        next_run(frequency, time, day_of_week, day_of_month, now)->0 * 1000000000 >= now_nanos(now),
        next_run(frequency, time, day_of_week, day_of_month, now)->0 % 86400 == clock_seconds(time),
{
    let (h, m) = scheduled_clock(time)->0;
    let y = now.year as int;
    let mo = now.month as int;
    let d0 = now.day as int;
    let today = days_from_civil(y, mo, d0);
    let clock: int = (h * 3600 + m * 60) as int;
    let t = next_run(frequency, time, day_of_week, day_of_month, now)->0;
    assert(0 <= clock < 86400);
    let days = (t - clock) / 86400;
    assert(t == days * 86400 + clock);
    lemma_fundamental_div_mod_converse(t, 86400, days, clock);
    let passed = crate::scheduler::passed(now, h, m);
    if frequency == ScheduleFrequency::Monthly {
        let k = day_of_month->0 as int;
        lemma_same_month(y, mo, d0);
        let next_month = k < d0 || (k == d0 && passed);
        let day = if k <= 28 { k } else { 28 };
        if next_month {
            lemma_next_month_start(y, mo);
            let (ty, tm) = if mo == 12 { (y + 1, 1int) } else { (y, mo + 1) };
            lemma_same_month(ty, tm, day);
            assert(days == days_from_civil(ty, tm, day));
            assert(days >= today + 1);
        } else {
            lemma_same_month(y, mo, day);
            assert(days == days_from_civil(y, mo, day));
            assert(days >= today);
            assert(days == today ==> !passed);
        }
    } else if frequency == ScheduleFrequency::Weekly {
        assert(days >= today);
        assert(days == today ==> !passed);
    } else {
        assert(days >= today);
        assert(days == today ==> !passed);
    }
    assert(days >= today && (days == today ==> !passed));
    assert(t >= today * 86400 + now.seconds_of_day);
    assert(t == today * 86400 + now.seconds_of_day ==> now.nanos == 0);
}

/// A daily (or one-off) schedule next runs less than a day after now.
pub proof fn law_daily_run_is_within_a_day(
    frequency: ScheduleFrequency,
    time: Seq<char>,
    day_of_week: Option<u8>,
    day_of_month: Option<u8>,
    now: LocalNow,
)
    requires
        local_now_ok(now),
        frequency == ScheduleFrequency::Daily || frequency == ScheduleFrequency::Once,
        next_run(frequency, time, day_of_week, day_of_month, now) is Some,
    ensures
        next_run(frequency, time, day_of_week, day_of_month, now)->0 * 1000000000 < now_nanos(now) + 86400
            * 1000000000,
{
}

/// A weekly schedule for weekday `w` (0 for Sunday) next runs on that weekday, less than
/// a week after now.
pub proof fn law_weekly_run_is_on_its_day(time: Seq<char>, w: u8, day_of_month: Option<u8>, now: LocalNow)
    requires
        local_now_ok(now),
        w < 7,
        next_run(ScheduleFrequency::Weekly, time, Some(w), day_of_month, now) is Some,
    ensures
        weekday_from_sunday(next_run(ScheduleFrequency::Weekly, time, Some(w), day_of_month, now)->0 / 86400) == w,
        next_run(ScheduleFrequency::Weekly, time, Some(w), day_of_month, now)->0 * 1000000000 < now_nanos(now) + 7
            * 86400 * 1000000000,
{
    let (h, m) = scheduled_clock(time)->0;
    let today = days_from_civil(now.year as int, now.month as int, now.day as int);
    let clock: int = (h * 3600 + m * 60) as int;
    let t = next_run(ScheduleFrequency::Weekly, time, Some(w), day_of_month, now)->0;
    let current = weekday_from_sunday(today);
    let q = (today + 719471) / 7;
    lemma_fundamental_div_mod_converse(today + 719471, 7, q, current);
    let until = if w >= current { w - current } else { 7 - current + w };
    let days = if until == 0 && crate::scheduler::passed(now, h, m) { today + 7 } else { today + until };
    assert(t == days * 86400 + clock);
    lemma_fundamental_div_mod_converse(t, 86400, days, clock);
    if until == 0 && crate::scheduler::passed(now, h, m) {
        lemma_fundamental_div_mod_converse(days + 719471, 7, q + 1, w as int);
    } else if w >= current {
        lemma_fundamental_div_mod_converse(days + 719471, 7, q, w as int);
    } else {
        lemma_fundamental_div_mod_converse(days + 719471, 7, q + 1, w as int);
    }
}

} // verus!
