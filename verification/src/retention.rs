//! How long collected metrics are kept, and when the daily cleanup runs.
use crate::confirmation::{MAX_UTC_SECS, MIN_UTC_SECS};
use crate::error::AppError;
use crate::scheduler::days_from_civil;
use chrono::{Datelike, Timelike};
use vstd::prelude::*;

verus! {

/// Seconds in a day.
pub const SECS_PER_DAY: i64 = 86400;

/// The retention policy: whether old metrics are removed, after how many days, at which
/// hour of the day (UTC), and when that last happened.
#[derive(Clone, Copy, Debug, PartialEq, Eq, Structural)]
pub struct RetentionPolicy {
    pub enabled: bool,
    pub retention_days: i64,
    pub cleanup_hour: u32,
    pub last_cleanup: Option<i64>,
}

impl Default for RetentionPolicy {
    /// Enabled, thirty days, at two in the morning, never run.
    fn default() -> (r: Self)
        ensures
            r == (RetentionPolicy { enabled: true, retention_days: 30, cleanup_hour: 2, last_cleanup: None }),
    {
        RetentionPolicy { enabled: true, retention_days: 30, cleanup_hour: 2, last_cleanup: None }
    }
}

/// The hour of the day (UTC) of an instant: its seconds within the day, in hours.
pub open spec fn utc_hour(secs: i64) -> int {
    (secs % SECS_PER_DAY) / 3600
}

/// The day (UTC) of an instant, counted from 1970-01-01.
pub open spec fn utc_day(secs: i64) -> int {
    secs / SECS_PER_DAY
}

/// A leap year of the Gregorian calendar.
pub open spec fn leap_year(y: int) -> bool {
    (y % 4 == 0 && y % 100 != 0) || y % 400 == 0
}

pub open spec fn days_in_year(y: int) -> int {
    if leap_year(y) {
        366
    } else {
        365
    }
}

/// The day counted from 1970-01-01 that is day `d` (from 1) of year `y`.
pub open spec fn civil_day(y: int, d: int) -> int {
    days_from_civil(y, 1, 1) + d - 1
}

/// `DateTime::<Utc>::from_timestamp(secs, 0)` read with `hour()`, `year()` and
/// `ordinal()`. The source splits the seconds into whole days (`div_euclid(86400)`) and
/// seconds of the day (`rem_euclid(86400)`), whose hour is `hour()`, takes the date of
/// the proleptic Gregorian calendar that lies that many days from 1970-01-01, and returns
/// `None` exactly where that date lies outside the dates `chrono` represents, which are
/// the seconds from `MIN_UTC_SECS` to `MAX_UTC_SECS`. `ordinal()` is the day of that
/// date within its year, from 1.
#[verifier::external_body]
fn utc_hour_and_date_of(secs: i64) -> (r: Option<(u32, i32, u32)>)
    ensures
        match r {
            Some((h, y, d)) => h == utc_hour(secs) && 1 <= d <= days_in_year(y as int) && civil_day(y as int, d as int)
                == utc_day(secs),
            None => true,
        },
        r is Some <==> MIN_UTC_SECS <= secs <= MAX_UTC_SECS,
{
    chrono::DateTime::from_timestamp(secs, 0).map(|t| (t.hour(), t.year(), t.ordinal()))
}

/// Stepping `x` (with `x / d == q` and `x % d == r`) to `x + 1` steps its quotient by
/// one exactly when the remainder wraps to 0.
proof fn lemma_div_step(x: int, d: int)
    requires
        d > 1,
    ensures
        (x % d == d - 1) ==> ((x + 1) / d == x / d + 1 && (x + 1) % d == 0),
        (x % d != d - 1) ==> ((x + 1) / d == x / d && (x + 1) % d == x % d + 1),
{
    vstd::arithmetic::div_mod::lemma_fundamental_div_mod(x, d);
    let q = x / d;
    let r = x % d;
    assert(0 <= r < d) by {
        vstd::arithmetic::div_mod::lemma_mod_bound(x, d);
    }
    if r == d - 1 {
        assert(x + 1 == (q + 1) * d + 0) by (nonlinear_arith)
            requires
                x == d * q + r,
                r == d - 1,
        ;
        vstd::arithmetic::div_mod::lemma_fundamental_div_mod_converse(x + 1, d, q + 1, 0);
    } else {
        assert(x + 1 == q * d + (r + 1)) by (nonlinear_arith)
            requires
                x == d * q + r,
        ;
        vstd::arithmetic::div_mod::lemma_fundamental_div_mod_converse(x + 1, d, q, r + 1);
    }
}

/// The start of year `y` in closed form: `e` is the era (400 years) of the year before
/// it and `k` that year's place in its era.
proof fn lemma_year_start_form(y: int, e: int, k: int)
    requires
        0 <= k < 400,
        y - 1 == e * 400 + k,
    ensures
        days_from_civil(y, 1, 1) == e * 146097 + k * 365 + k / 4 - k / 100 + 306 - 719468,
{
    vstd::arithmetic::div_mod::lemma_fundamental_div_mod_converse(y - 1, 400, e, k);
}

/// A year starts a year's worth of days after the one before it.
pub(crate) proof fn lemma_next_year_start(y: int)
    ensures
        days_from_civil(y + 1, 1, 1) == days_from_civil(y, 1, 1) + days_in_year(y),
{
    let a = y - 1;
    vstd::arithmetic::div_mod::lemma_fundamental_div_mod(a, 400);
    vstd::arithmetic::div_mod::lemma_mod_bound(a, 400);
    let e = a / 400;
    let k = a % 400;
    assert(a == e * 400 + k) by (nonlinear_arith)
        requires
            a == 400 * e + k,
    ;
    lemma_year_start_form(y, e, k);
    lemma_div_step(k, 4);
    lemma_div_step(k, 100);
    if k < 399 {
        assert(y == e * 400 + (k + 1));
        lemma_year_start_form(y + 1, e, k + 1);
        assert(y == (e * 100 + (k + 1) / 4) * 4 + (k + 1) % 4) by (nonlinear_arith)
            requires
                y == e * 400 + (k + 1),
                k + 1 == 4 * ((k + 1) / 4) + (k + 1) % 4,
        {
        }
        vstd::arithmetic::div_mod::lemma_fundamental_div_mod(k + 1, 4);
        vstd::arithmetic::div_mod::lemma_mod_bound(k + 1, 4);
        vstd::arithmetic::div_mod::lemma_fundamental_div_mod_converse(y, 4, e * 100 + (k + 1) / 4, (k + 1) % 4);
        vstd::arithmetic::div_mod::lemma_fundamental_div_mod(k + 1, 100);
        vstd::arithmetic::div_mod::lemma_mod_bound(k + 1, 100);
        assert(y == (e * 4 + (k + 1) / 100) * 100 + (k + 1) % 100) by (nonlinear_arith)
            requires
                y == e * 400 + (k + 1),
                k + 1 == 100 * ((k + 1) / 100) + (k + 1) % 100,
        {
        }
        vstd::arithmetic::div_mod::lemma_fundamental_div_mod_converse(y, 100, e * 4 + (k + 1) / 100, (k + 1) % 100);
        vstd::arithmetic::div_mod::lemma_fundamental_div_mod_converse(y, 400, e, k + 1);
    } else {
        assert(y == (e + 1) * 400 + 0);
        lemma_year_start_form(y + 1, e + 1, 0);
        vstd::arithmetic::div_mod::lemma_fundamental_div_mod_converse(y, 400, e + 1, 0);
        vstd::arithmetic::div_mod::lemma_fundamental_div_mod_converse(y, 4, (e + 1) * 100, 0);
        vstd::arithmetic::div_mod::lemma_fundamental_div_mod_converse(y, 100, (e + 1) * 4, 0);
    }
}

proof fn lemma_later_year_starts_later(y1: int, y2: int)
    requires
        y1 < y2,
    ensures
        days_from_civil(y1, 1, 1) + days_in_year(y1) <= days_from_civil(y2, 1, 1),
    decreases y2 - y1,
{
    lemma_next_year_start(y1);
    if y1 + 1 < y2 {
        lemma_later_year_starts_later(y1 + 1, y2);
        lemma_next_year_start(y1 + 1);
    }
}

/// Two dates given as year and day of the year are the same day exactly when they are
/// the same date.
proof fn lemma_civil_day_injective(y1: int, d1: int, y2: int, d2: int)
    requires
        1 <= d1 <= days_in_year(y1),
        1 <= d2 <= days_in_year(y2),
        civil_day(y1, d1) == civil_day(y2, d2),
    ensures
        y1 == y2 && d1 == d2,
{
    if y1 < y2 {
        lemma_later_year_starts_later(y1, y2);
    } else if y2 < y1 {
        lemma_later_year_starts_later(y2, y1);
    }
}

/// The instant before which metrics are removed when cleanup runs at `now`.
pub open spec fn cutoff(p: RetentionPolicy, now: i64) -> int {
    now - p.retention_days * SECS_PER_DAY
}

/// Whether cleanup is due at `now`: never while disabled; at once if it never ran;
/// otherwise only during the configured hour (UTC) and not twice on the same UTC date.
/// `None` where the last cleanup is no instant `chrono` represents.
pub open spec fn cleanup_due(p: RetentionPolicy, now: i64) -> Option<bool> {
    if !p.enabled {
        Some(false)
    } else {
        match p.last_cleanup {
            None => Some(true),
            Some(last) => if !(MIN_UTC_SECS <= now <= MAX_UTC_SECS) || utc_hour(now) != p.cleanup_hour {
                Some(false)
            } else if !(MIN_UTC_SECS <= last <= MAX_UTC_SECS) {
                None
            } else {
                Some(utc_day(last) != utc_day(now))
            },
        }
    }
}

/// Keeps the retention policy and decides when the metrics cleanup runs.
pub struct RetentionService {
    policy: RetentionPolicy,
}

impl RetentionService {
    pub closed spec fn policy(&self) -> RetentionPolicy {
        self.policy
    }

    /// A service that starts from `policy` (as read from the settings).
    pub fn new(policy: RetentionPolicy) -> (r: Self)
        ensures
            r.policy() == policy,
    {
        RetentionService { policy }
    }

    /// The current policy.
    pub fn load_policy(&self) -> (r: RetentionPolicy)
        ensures
            r == self.policy(),
    {
        self.policy
    }

    /// Replaces the policy and returns it.
    pub fn update_policy(&mut self, policy: RetentionPolicy) -> (r: RetentionPolicy)
        ensures
            r == policy,
            final(self).policy() == policy,
    {
        self.policy = policy;
        policy
    }

    /// Where a cleanup at `now` starts: `None` while the policy is disabled, else the
    /// instant before which metrics are removed.
    pub fn cleanup_cutoff(&self, now: i64) -> (r: Option<i64>)
        requires
            self.policy().enabled ==> i64::MIN <= self.policy().retention_days * SECS_PER_DAY <= i64::MAX,
            self.policy().enabled ==> i64::MIN <= cutoff(self.policy(), now) <= i64::MAX,
        ensures
            !self.policy().enabled ==> r is None,
            self.policy().enabled ==> r == Some(cutoff(self.policy(), now) as i64),
    {
        if !self.policy.enabled {
            return None;
        }
        let span = self.policy.retention_days * SECS_PER_DAY;
        Some(now - span)
    }

    /// Records a cleanup that ran at `now`.
    pub fn record_cleanup(&mut self, now: i64)
        ensures
            final(self).policy() == (RetentionPolicy { last_cleanup: Some(now), ..old(self).policy() }),
    {
        self.policy.last_cleanup = Some(now);
    }

    /// Whether cleanup should run at `now`.
    pub fn should_run_cleanup(&self, now: i64) -> (r: Result<bool, AppError>)
        requires
            MIN_UTC_SECS <= now <= MAX_UTC_SECS,
        ensures
            match r {
                Ok(b) => cleanup_due(self.policy(), now) == Some(b),
                Err(e) => cleanup_due(self.policy(), now) is None && e is InvalidConfig,
            },
    {
        let p = self.policy;
        if !p.enabled {
            return Ok(false);
        }
        let last = match p.last_cleanup {
            None => return Ok(true),
            Some(last) => last,
        };
        let (hour, year, day) = match utc_hour_and_date_of(now) {
            Some(x) => x,
            None => return Ok(false),
        };
        if hour != p.cleanup_hour {
            return Ok(false);
        }
        match utc_hour_and_date_of(last) {
            Some((_, last_year, last_day)) => {
                proof {
                    if utc_day(last) == utc_day(now) {
                        lemma_civil_day_injective(last_year as int, last_day as int, year as int, day as int);
                    }
                }
                Ok(last_year != year || last_day != day)
            },
            None => Err(AppError::invalid("Invalid last_cleanup timestamp")),
        }
    }
}

/// Once a cleanup ran at some instant, it is not due again at that same instant.
pub proof fn law_cleanup_not_due_right_after_running(p: RetentionPolicy, now: i64)
    ensures
        cleanup_due(RetentionPolicy { last_cleanup: Some(now), ..p }, now) == Some(false),
{
}

/// Once a cleanup ran, it is not due again on the same UTC date.
pub proof fn law_cleanup_at_most_once_a_day(p: RetentionPolicy, last: i64, now: i64)
    requires
        utc_day(last) == utc_day(now),
    ensures
        cleanup_due(RetentionPolicy { last_cleanup: Some(last), ..p }, now) != Some(true),
{
}

/// An enabled policy asks for a cleanup during its hour on any later UTC date than the
/// last cleanup's.
pub proof fn law_cleanup_due_in_its_hour_on_a_new_day(p: RetentionPolicy, last: i64, now: i64)
    requires
        p.enabled,
        MIN_UTC_SECS <= last <= MAX_UTC_SECS,
        MIN_UTC_SECS <= now <= MAX_UTC_SECS,
        utc_hour(now) == p.cleanup_hour,
        utc_day(last) != utc_day(now),
    ensures
        cleanup_due(RetentionPolicy { last_cleanup: Some(last), ..p }, now) == Some(true),
{
}

/// A disabled policy never asks for a cleanup.
pub proof fn law_disabled_policy_never_cleans(p: RetentionPolicy, now: i64)
    requires
        !p.enabled,
    ensures
        cleanup_due(p, now) == Some(false),
{
}

} // verus!
