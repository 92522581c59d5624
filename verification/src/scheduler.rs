//! Scheduled VM operations: when a schedule runs next, and the store of schedules.
use crate::error::AppError;
use crate::ids::{canonical_uuid, new_uuid};
use crate::text::{chars_of, find, find_str, parse_unsigned, parse_unsigned_range, str_eq};
use chrono::{Datelike, Timelike};
use vstd::prelude::*;

verus! {

#[derive(Clone, Copy, Debug, PartialEq, Eq, Structural)]
pub enum ScheduleFrequency {
    Once,
    Daily,
    Weekly,
    Monthly,
}

#[derive(Clone, Copy, Debug, PartialEq, Eq, Structural)]
pub enum OperationType {
    Start,
    Stop,
    Reboot,
    Snapshot,
}

/// A scheduled operation on a VM.
#[derive(Debug)]
pub struct ScheduledOperation {
    pub id: String,
    pub name: String,
    pub vm_id: String,
    pub operation: OperationType,
    pub frequency: ScheduleFrequency,
    pub scheduled_time: String,
    pub day_of_week: Option<u8>,
    pub day_of_month: Option<u8>,
    pub enabled: bool,
    pub last_run: Option<i64>,
    pub next_run: i64,
    pub created_at: i64,
}

/// A schedule to create.
#[derive(Debug)]
pub struct CreateScheduleRequest {
    pub name: String,
    pub vm_id: String,
    pub operation: OperationType,
    pub frequency: ScheduleFrequency,
    pub scheduled_time: String,
    pub day_of_week: Option<u8>,
    pub day_of_month: Option<u8>,
}

pub struct ScheduleView {
    pub id: Seq<char>,
    pub name: Seq<char>,
    pub vm_id: Seq<char>,
    pub operation: OperationType,
    pub frequency: ScheduleFrequency,
    pub scheduled_time: Seq<char>,
    pub day_of_week: Option<u8>,
    pub day_of_month: Option<u8>,
    pub enabled: bool,
    pub last_run: Option<i64>,
    pub next_run: i64,
    pub created_at: i64,
}

impl View for ScheduledOperation {
    type V = ScheduleView;

    open spec fn view(&self) -> ScheduleView {
        ScheduleView {
            id: self.id@,
            name: self.name@,
            vm_id: self.vm_id@,
            operation: self.operation,
            frequency: self.frequency,
            scheduled_time: self.scheduled_time@,
            day_of_week: self.day_of_week,
            day_of_month: self.day_of_month,
            enabled: self.enabled,
            last_run: self.last_run,
            next_run: self.next_run,
            created_at: self.created_at,
        }
    }
}

impl ScheduledOperation {
    pub fn copy(&self) -> (r: Self)
        ensures
            r@ == self@,
    {
        ScheduledOperation {
            id: self.id.clone(),
            name: self.name.clone(),
            vm_id: self.vm_id.clone(),
            operation: self.operation,
            frequency: self.frequency,
            scheduled_time: self.scheduled_time.clone(),
            day_of_week: self.day_of_week,
            day_of_month: self.day_of_month,
            enabled: self.enabled,
            last_run: self.last_run,
            next_run: self.next_run,
            created_at: self.created_at,
        }
    }
}

// ---------------------------------------------------------------------------
// Calendar
// ---------------------------------------------------------------------------

/// The local date and time of day.
#[derive(Clone, Copy, Debug)]
pub struct LocalNow {
    pub year: i32,
    pub month: u32,
    pub day: u32,
    pub seconds_of_day: u32,
    pub nanos: u32,
}

pub open spec fn is_leap(y: int) -> bool {
    (y % 4 == 0 && y % 100 != 0) || y % 400 == 0
}

pub open spec fn days_in_month(y: int, m: int) -> int {
    if m == 2 {
        if is_leap(y) {
            29
        } else {
            28
        }
    } else if m == 4 || m == 6 || m == 9 || m == 11 {
        30
    } else {
        31
    }
}

/// A calendar date of the proleptic Gregorian calendar.
pub open spec fn date_ok(y: int, m: int, d: int) -> bool {
    1 <= m <= 12 && 1 <= d <= days_in_month(y, m)
}

/// A local date and time from which the next run can be computed.
pub open spec fn local_now_ok(n: LocalNow) -> bool {
    1 <= n.year <= 262142 && date_ok(n.year as int, n.month as int, n.day as int) && n.seconds_of_day < 86400
        && n.nanos < 1000000000
}

/// Days from 1970-01-01 to a date (for years from 1 on).
pub open spec fn days_from_civil(y: int, m: int, d: int) -> int {
    let y2 = if m <= 2 {
        y - 1
    } else {
        y
    };
    let era = y2 / 400;
    let yoe = y2 - era * 400;
    let mp = if m > 2 {
        m - 3
    } else {
        m + 9
    };
    let doy = (153 * mp + 2) / 5 + d - 1;
    let doe = yoe * 365 + yoe / 4 - yoe / 100 + doy;
    era * 146097 + doe - 719468
}

/// Day of the week counted from Sunday (1970-01-01 was a Thursday).
pub open spec fn weekday_from_sunday(days: int) -> int {
    (days + 719471) % 7
}

/// `HH:MM` as hours and minutes within a day.
pub open spec fn scheduled_clock(t: Seq<char>) -> Option<(nat, nat)> {
    match find(t, ":"@) {
        Some(i) => {
            let rest = t.subrange(i + 1, t.len() as int);
            if find(rest, ":"@) is Some {
                None
            } else {
                match (parse_unsigned(t.subrange(0, i), 4294967295), parse_unsigned(rest, 4294967295)) {
                    (Some(h), Some(m)) => if h < 24 && m < 60 {
                        Some((h, m))
                    } else {
                        None
                    },
                    _ => None,
                }
            }
        },
        None => None,
    }
}

/// The local time of day has passed `h:m`.
pub open spec fn passed(now: LocalNow, h: nat, m: nat) -> bool {
    now.seconds_of_day > h * 3600 + m * 60 || (now.seconds_of_day == h * 3600 + m * 60 && now.nanos > 0)
}

/// The date a monthly schedule runs on, as days since 1970-01-01; `None` when the month
/// that follows has no day of today's number, or the day is zero.
pub open spec fn monthly_target(now: LocalNow, target_day: u8, h: nat, m: nat) -> Option<int> {
    let y = now.year as int;
    let mo = now.month as int;
    let d = now.day as int;
    let next_month = target_day < d || (target_day == d && passed(now, h, m));
    let (ty, tm) = if !next_month {
        (y, mo)
    } else if mo == 12 {
        (y + 1, 1int)
    } else {
        (y, mo + 1)
    };
    let day = if target_day <= 28 {
        target_day as int
    } else {
        28
    };
    if next_month && mo != 12 && d > days_in_month(y, mo + 1) {
        None
    } else if day == 0 {
        None
    } else {
        Some(days_from_civil(ty, tm, day))
    }
}

/// The next run of a schedule, as seconds since the epoch with the local date and time
/// read as UTC; `None` when the time is not `HH:MM`, or a weekly or monthly schedule
/// lacks its day, or the monthly date does not exist.
pub open spec fn next_run(
    frequency: ScheduleFrequency,
    time: Seq<char>,
    day_of_week: Option<u8>,
    day_of_month: Option<u8>,
    now: LocalNow,
) -> Option<int> {
    match scheduled_clock(time) {
        Some((h, m)) => {
            let today = days_from_civil(now.year as int, now.month as int, now.day as int);
            let clock = h * 3600 + m * 60;
            let target = match frequency {
                ScheduleFrequency::Once | ScheduleFrequency::Daily => Some(
                    if passed(now, h, m) {
                        today + 1
                    } else {
                        today
                    },
                ),
                ScheduleFrequency::Weekly => match day_of_week {
                    Some(w) => {
                        let current = weekday_from_sunday(today);
                        let until = if w >= current {
                            w - current
                        } else {
                            7 - current + w
                        };
                        Some(
                            if until == 0 && passed(now, h, m) {
                                today + 7
                            } else {
                                today + until
                            },
                        )
                    },
                    None => None,
                },
                ScheduleFrequency::Monthly => match day_of_month {
                    Some(d) => monthly_target(now, d, h, m),
                    None => None,
                },
            };
            match target {
                Some(days) => Some(days * 86400 + clock),
                None => None,
            }
        },
        None => None,
    }
}

/// The local date and time, from `chrono::Local::now`: its source converts
/// `Utc::now()`, which starts at the Unix epoch and has no leap seconds, so the year is at
/// least 1969; `chrono` represents no year after 262142; the date and time of day are
/// valid and the nanoseconds below one second. Which instant comes back is left open.
#[verifier::external_body]
pub(crate) fn local_now() -> (r: LocalNow)
    ensures
        1969 <= r.year <= 262142,
        date_ok(r.year as int, r.month as int, r.day as int),
        r.seconds_of_day < 86400,
        r.nanos < 1000000000,
{
    let now = chrono::Local::now();
    LocalNow {
        year: now.year(),
        month: now.month(),
        day: now.day(),
        seconds_of_day: now.num_seconds_from_midnight(),
        nanos: now.nanosecond(),
    }
}

fn is_leap_exec(y: i64) -> (r: bool)
    requires
        y >= 0,
    ensures
        r == is_leap(y as int),
{
    (y % 4 == 0 && y % 100 != 0) || y % 400 == 0
}

fn days_in_month_exec(y: i64, m: i64) -> (r: i64)
    requires
        y >= 0,
    ensures
        r == days_in_month(y as int, m as int),
{
    if m == 2 {
        if is_leap_exec(y) {
            29
        } else {
            28
        }
    } else if m == 4 || m == 6 || m == 9 || m == 11 {
        30
    } else {
        31
    }
}

fn days_from_civil_exec(y: i64, m: i64, d: i64) -> (r: i64)
    requires
        1 <= y <= 262143,
        1 <= m <= 12,
        1 <= d <= 31,
    ensures
        r == days_from_civil(y as int, m as int, d as int),
{
    let y2 = if m <= 2 {
        y - 1
    } else {
        y
    };
    let era = y2 / 400;
    let yoe = y2 - era * 400;
    let mp = if m > 2 {
        m - 3
    } else {
        m + 9
    };
    let doy = (153 * mp + 2) / 5 + d - 1;
    let doe = yoe * 365 + yoe / 4 - yoe / 100 + doy;
    era * 146097 + doe - 719468
}

/// Hours and minutes of an `HH:MM` time.
fn parse_clock(time: &str) -> (r: Option<(u32, u32)>)
    ensures
        match r {
            Some((h, m)) => scheduled_clock(time@) == Some((h as nat, m as nat)),
            None => scheduled_clock(time@) is None,
        },
{
    let v = chars_of(time);
    let n = v.len();
    let i = match find_str(v.as_slice(), ":") {
        Some(i) => i,
        None => {
            return None;
        },
    };
    proof {
        reveal_strlit(":");
    }
    let rest = crate::text::copy_range(v.as_slice(), i + 1, n);
    if find_str(rest.as_slice(), ":").is_some() {
        return None;
    }
    let h = parse_unsigned_range(v.as_slice(), 0, i, 4294967295);
    let m = parse_unsigned_range(v.as_slice(), i + 1, n, 4294967295);
    match (h, m) {
        (Some(h), Some(m)) => {
            if h < 24 && m < 60 {
                Some((h as u32, m as u32))
            } else {
                None
            }
        },
        _ => None,
    }
}

fn passed_exec(now: LocalNow, h: u32, m: u32) -> (r: bool)
    requires
        h < 24,
        m < 60,
    ensures
        r == passed(now, h as nat, m as nat),
{
    let clock = h * 3600 + m * 60;
    now.seconds_of_day > clock || (now.seconds_of_day == clock && now.nanos > 0)
}

/// Schedule operations over the schedules read from the configuration directory.
pub struct SchedulerService {
    schedules: Vec<ScheduledOperation>,
}

impl SchedulerService {
    /// The next run of a schedule from the local date and time `now`.
    pub fn calculate_next_run(
        frequency: ScheduleFrequency,
        scheduled_time: &str,
        day_of_week: Option<u8>,
        day_of_month: Option<u8>,
        now: LocalNow,
    ) -> (r: Result<i64, AppError>)
        requires
            local_now_ok(now),
        ensures
            match r {
                Ok(t) => next_run(frequency, scheduled_time@, day_of_week, day_of_month, now) == Some(t as int),
                Err(e) => next_run(frequency, scheduled_time@, day_of_week, day_of_month, now) is None
                    && e is ScheduleError,
            },
    {
        let (h, m) = match parse_clock(scheduled_time) {
            Some(c) => c,
            None => {
                return Err(AppError::ScheduleError(String::from_str("Invalid time format. Use HH:MM")));
            },
        };
        let y = now.year as i64;
        let mo = now.month as i64;
        let d = now.day as i64;
        let today = days_from_civil_exec(y, mo, d);
        let clock = (h as i64) * 3600 + (m as i64) * 60;
        let is_passed = passed_exec(now, h, m);
        let target: i64 = match frequency {
            ScheduleFrequency::Once | ScheduleFrequency::Daily => {
                if is_passed {
                    today + 1
                } else {
                    today
                }
            },
            ScheduleFrequency::Weekly => {
                let w = match day_of_week {
                    Some(w) => w as i64,
                    None => {
                        return Err(
                            AppError::ScheduleError(String::from_str("day_of_week required for weekly schedules")),
                        );
                    },
                };
                let current = (today + 719471) % 7;
                let until = if w >= current {
                    w - current
                } else {
                    7 - current + w
                };
                if until == 0 && is_passed {
                    today + 7
                } else {
                    today + until
                }
            },
            ScheduleFrequency::Monthly => {
                let td = match day_of_month {
                    Some(td) => td,
                    None => {
                        return Err(
                            AppError::ScheduleError(String::from_str("day_of_month required for monthly schedules")),
                        );
                    },
                };
                let tdi = td as i64;
                let next_month = tdi < d || (tdi == d && is_passed);
                if next_month && mo != 12 && d > days_in_month_exec(y, mo + 1) {
                    return Err(AppError::ScheduleError(String::from_str("Failed to calculate next month")));
                }
                let day = if tdi <= 28 {
                    tdi
                } else {
                    28
                };
                if day == 0 {
                    return Err(AppError::ScheduleError(String::from_str("Invalid day of month")));
                }
                let (ty, tm) = if !next_month {
                    (y, mo)
                } else if mo == 12 {
                    (y + 1, 1)
                } else {
                    (y, mo + 1)
                };
                days_from_civil_exec(ty, tm, day)
            },
        };
        proof {
            assert(target * 86400 + clock <= 0x7fff_ffff_ffff_ffff) by (nonlinear_arith)
                requires
                    target <= 100_000_000,
                    clock < 86400,
            ;
        }
        Ok(target * 86400 + clock)
    }
}

pub open spec fn schedules_view(s: Seq<ScheduledOperation>) -> Seq<ScheduleView> {
    s.map_values(|x: ScheduledOperation| x@)
}

/// Schedules in ascending order of their next run.
pub open spec fn sorted_by_next_run(s: Seq<ScheduleView>) -> bool {
    forall|i: int, j: int| 0 <= i < j < s.len() ==> (#[trigger] s[i]).next_run <= (#[trigger] s[j]).next_run
}

/// The schedules of VM `vm_id`, in stored order.
pub open spec fn schedules_of_vm(s: Seq<ScheduleView>, vm_id: Seq<char>) -> Seq<ScheduleView>
    decreases s.len(),
{
    if s.len() == 0 {
        Seq::empty()
    } else {
        let rest = schedules_of_vm(s.drop_last(), vm_id);
        if s.last().vm_id == vm_id {
            rest.push(s.last())
        } else {
            rest
        }
    }
}

/// Index of the first schedule with id `id`.
pub open spec fn schedule_index(s: Seq<ScheduleView>, id: Seq<char>, k: int) -> Option<int>
    decreases s.len() - k,
{
    if k < 0 || k >= s.len() {
        None
    } else if s[k].id == id {
        Some(k)
    } else {
        schedule_index(s, id, k + 1)
    }
}

proof fn lemma_schedule_index(s: Seq<ScheduleView>, id: Seq<char>, k: int)
    requires
        0 <= k,
    ensures
        schedule_index(s, id, k) matches Some(i) ==> k <= i < s.len() && s[i].id == id,
    decreases s.len() - k,
{
    if k < s.len() && s[k].id != id {
        lemma_schedule_index(s, id, k + 1);
    }
}

/// Returns a copy of the schedules sorted by next run.
fn sort_by_next_run(v: &Vec<ScheduledOperation>) -> (r: Vec<ScheduledOperation>)
    ensures
        sorted_by_next_run(schedules_view(r@)),
        schedules_view(r@).to_multiset() == schedules_view(v@).to_multiset(),
{
    let mut out: Vec<ScheduledOperation> = Vec::new();
    let n = v.len();
    let mut i: usize = 0;
    proof {
        assert(schedules_view(v@.subrange(0, 0)) =~= Seq::<ScheduleView>::empty());
        assert(schedules_view(out@) =~= Seq::<ScheduleView>::empty());
    }
    while i < n
        invariant
            n == v@.len(),
            i <= n,
            sorted_by_next_run(schedules_view(out@)),
            schedules_view(out@).to_multiset() == schedules_view(v@.subrange(0, i as int)).to_multiset(),
        decreases n - i,
    {
        let x = v[i].copy();
        let key = x.next_run;
        let m = out.len();
        let mut p: usize = 0;
        while p < m && out[p].next_run <= key
            invariant
                m == out@.len(),
                p <= m,
                forall|k: int| 0 <= k < p ==> (#[trigger] out@[k]).next_run <= key,
            decreases m - p,
        {
            p = p + 1;
        }
        let ghost before = schedules_view(out@);
        out.insert(p, x);
        proof {
            assert(schedules_view(out@) =~= before.insert(p as int, x@));
            assert(schedules_view(v@.subrange(0, i as int + 1)) =~= schedules_view(v@.subrange(0, i as int)).push(
                v@[i as int]@,
            ));
            assert(x@ == v@[i as int]@);
            vstd::seq_lib::to_multiset_insert(before, p as int, x@);
            vstd::seq_lib::to_multiset_build(schedules_view(v@.subrange(0, i as int)), v@[i as int]@);
            assert(schedules_view(v@.subrange(0, i as int)).push(v@[i as int]@).to_multiset() == schedules_view(
                v@.subrange(0, i as int),
            ).to_multiset().insert(v@[i as int]@));
            let after = schedules_view(out@);
            assert forall|a: int, b: int| 0 <= a < b < after.len() implies (#[trigger] after[a]).next_run <= (
            #[trigger] after[b]).next_run by {
                if b < p {
                    assert(after[a] == before[a] && after[b] == before[b]);
                } else if b == p {
                    assert(after[a] == before[a]);
                    assert(out@[a].next_run <= key);
                } else if a < p {
                    assert(after[a] == before[a] && after[b] == before[b - 1]);
                } else if a == p {
                    assert(after[b] == before[b - 1]);
                    if p < m {
                        assert(before[p as int].next_run > key);
                    }
                } else {
                    assert(after[a] == before[a - 1] && after[b] == before[b - 1]);
                }
            }
        }
        i = i + 1;
    }
    proof {
        assert(v@.subrange(0, n as int) =~= v@);
    }
    out
}

impl SchedulerService {
    /// A scheduler over the schedules read from the configuration directory.
    pub fn from_schedules(schedules: Vec<ScheduledOperation>) -> (r: Self)
        ensures
            r@ == schedules_view(schedules@),
    {
        SchedulerService { schedules }
    }

    /// The stored schedules.
    pub closed spec fn view(&self) -> Seq<ScheduleView> {
        schedules_view(self.schedules@)
    }

    /// The schedules, sorted by next run.
    pub fn list_schedules(&self) -> (r: Vec<ScheduledOperation>)
        ensures
            sorted_by_next_run(schedules_view(r@)),
            schedules_view(r@).to_multiset() == self@.to_multiset(),
    {
        sort_by_next_run(&self.schedules)
    }

    /// The schedule with id `id`.
    pub fn get_schedule(&self, id: &str) -> (r: Result<ScheduledOperation, AppError>)
        ensures
            match r {
                Ok(s) => schedule_index(self@, id@, 0) matches Some(i) && s@ == self@[i],
                Err(e) => schedule_index(self@, id@, 0) is None && e is ScheduleError,
            },
    {
        match self.position(id) {
            Some(i) => Ok(self.schedules[i].copy()),
            None => {
                let mut m = String::from_str("Schedule not found: ");
                m.append(id);
                Err(AppError::ScheduleError(m))
            },
        }
    }

    fn position(&self, id: &str) -> (r: Option<usize>)
        ensures
            opt_index(r) == schedule_index(self@, id@, 0),
            r matches Some(i) ==> i < self@.len(),
    {
        let n = self.schedules.len();
        let mut i: usize = 0;
        while i < n
            invariant
                n == self.schedules@.len(),
                i <= n,
                schedule_index(self@, id@, 0) == schedule_index(self@, id@, i as int),
            decreases n - i,
        {
            proof {
                assert(self@[i as int] == self.schedules@[i as int]@);
            }
            if str_eq(self.schedules[i].id.as_str(), id) {
                return Some(i);
            }
            i = i + 1;
        }
        None
    }

    /// Enables or disables a schedule; enabling it computes its next run from `now`.
    pub fn update_schedule_status(&mut self, id: &str, enabled: bool, now: LocalNow) -> (r: Result<
        ScheduledOperation,
        AppError,
    >)
        requires
            local_now_ok(now),
        ensures
            match r {
                Ok(s) => schedule_index(old(self)@, id@, 0) matches Some(i) && s@ == (ScheduleView {
                    enabled,
                    next_run: if enabled {
                        next_run(
                            old(self)@[i].frequency,
                            old(self)@[i].scheduled_time,
                            old(self)@[i].day_of_week,
                            old(self)@[i].day_of_month,
                            now,
                        )->0 as i64
                    } else {
                        old(self)@[i].next_run
                    },
                    ..old(self)@[i]
                }) && final(self)@ == old(self)@.update(i, s@) && (enabled ==> next_run(
                    old(self)@[i].frequency,
                    old(self)@[i].scheduled_time,
                    old(self)@[i].day_of_week,
                    old(self)@[i].day_of_month,
                    now,
                ) is Some),
                Err(e) => e is ScheduleError && final(self)@ == old(self)@ && (schedule_index(old(self)@, id@, 0) is None
                    || (enabled && (schedule_index(old(self)@, id@, 0) matches Some(i) && next_run(
                    old(self)@[i].frequency,
                    old(self)@[i].scheduled_time,
                    old(self)@[i].day_of_week,
                    old(self)@[i].day_of_month,
                    now,
                ) is None))),
            },
    {
        let i = match self.position(id) {
            Some(i) => i,
            None => {
                let mut m = String::from_str("Schedule not found: ");
                m.append(id);
                return Err(AppError::ScheduleError(m));
            },
        };
        let mut s = self.schedules[i].copy();
        s.enabled = enabled;
        if enabled {
            s.next_run = Self::calculate_next_run(
                s.frequency,
                s.scheduled_time.as_str(),
                s.day_of_week,
                s.day_of_month,
                now,
            )?;
        }
        let stored = s.copy();
        self.schedules.set(i, stored);
        proof {
            assert(schedules_view(self.schedules@) =~= old(self)@.update(i as int, s@));
        }
        Ok(s)
    }

    /// Creates a schedule now: its next run from the local date and time, its creation
    /// time the current second.
    pub fn create_schedule(&mut self, request: CreateScheduleRequest) -> (r: Result<ScheduledOperation, AppError>)
        ensures
            match r {
                Ok(s) => canonical_uuid(s.id@) && s.name@ == request.name@ && s.vm_id@ == request.vm_id@
                    && s.operation == request.operation && s.frequency == request.frequency
                    && s.scheduled_time@ == request.scheduled_time@ && s.day_of_week == request.day_of_week
                    && s.day_of_month == request.day_of_month && s.enabled && s.last_run is None
                    && final(self)@ == old(self)@.push(s@) && exists|now: LocalNow|
                    local_now_ok(now) && #[trigger] next_run(
                        request.frequency,
                        request.scheduled_time@,
                        request.day_of_week,
                        request.day_of_month,
                        now,
                    ) is Some && s.next_run == next_run(
                        request.frequency,
                        request.scheduled_time@,
                        request.day_of_week,
                        request.day_of_month,
                        now,
                    )->0 as i64,
                Err(e) => e is ScheduleError && final(self)@ == old(self)@ && exists|now: LocalNow|
                    local_now_ok(now) && #[trigger] next_run(
                        request.frequency,
                        request.scheduled_time@,
                        request.day_of_week,
                        request.day_of_month,
                        now,
                    ) is None,
            },
    {
        let now = local_now();
        let created_at = crate::confirmation::utc_now().secs;
        let ghost freq = request.frequency;
        let ghost time = request.scheduled_time@;
        let ghost dw = request.day_of_week;
        let ghost dm = request.day_of_month;
        let r = self.create_schedule_at(request, now, created_at);
        proof {
            let n = next_run(freq, time, dw, dm, now);
            assert(local_now_ok(now));
            if r is Ok {
                assert(n is Some);
            }
        }
        r
    }

    /// Creates a schedule, enabled, with a fresh id, its next run computed from `now`.
    pub fn create_schedule_at(&mut self, request: CreateScheduleRequest, now: LocalNow, created_at: i64) -> (r: Result<
        ScheduledOperation,
        AppError,
    >)
        requires
            local_now_ok(now),
        ensures
            match r {
                Ok(s) => canonical_uuid(s.id@) && s@ == (ScheduleView {
                    id: s.id@,
                    name: request.name@,
                    vm_id: request.vm_id@,
                    operation: request.operation,
                    frequency: request.frequency,
                    scheduled_time: request.scheduled_time@,
                    day_of_week: request.day_of_week,
                    day_of_month: request.day_of_month,
                    enabled: true,
                    last_run: None,
                    next_run: next_run(
                        request.frequency,
                        request.scheduled_time@,
                        request.day_of_week,
                        request.day_of_month,
                        now,
                    )->0 as i64,
                    created_at,
                }) && final(self)@ == old(self)@.push(s@) && next_run(
                    request.frequency,
                    request.scheduled_time@,
                    request.day_of_week,
                    request.day_of_month,
                    now,
                ) is Some,
                Err(e) => e is ScheduleError && final(self)@ == old(self)@ && next_run(
                    request.frequency,
                    request.scheduled_time@,
                    request.day_of_week,
                    request.day_of_month,
                    now,
                ) is None,
            },
    {
        let next = Self::calculate_next_run(
            request.frequency,
            request.scheduled_time.as_str(),
            request.day_of_week,
            request.day_of_month,
            now,
        )?;
        let s = ScheduledOperation {
            id: new_uuid(),
            name: request.name,
            vm_id: request.vm_id,
            operation: request.operation,
            frequency: request.frequency,
            scheduled_time: request.scheduled_time,
            day_of_week: request.day_of_week,
            day_of_month: request.day_of_month,
            enabled: true,
            last_run: None,
            next_run: next,
            created_at,
        };
        self.schedules.push(s.copy());
        proof {
            assert(schedules_view(self.schedules@) =~= old(self)@.push(s@));
        }
        Ok(s)
    }

    /// Deletes the schedule with id `id`.
    pub fn delete_schedule(&mut self, id: &str) -> (r: Result<(), AppError>)
        ensures
            match r {
                Ok(()) => schedule_index(old(self)@, id@, 0) matches Some(i) && final(self)@ == old(self)@.remove(i),
                Err(e) => schedule_index(old(self)@, id@, 0) is None && e is ScheduleError && final(self)@ == old(self)@,
            },
    {
        match self.position(id) {
            Some(i) => {
                self.schedules.remove(i);
                proof {
                    assert(schedules_view(self.schedules@) =~= old(self)@.remove(i as int));
                }
                Ok(())
            },
            None => {
                let mut m = String::from_str("Schedule not found: ");
                m.append(id);
                Err(AppError::ScheduleError(m))
            },
        }
    }

    /// The schedules of VM `vm_id`, sorted by next run.
    pub fn get_vm_schedules(&self, vm_id: &str) -> (r: Vec<ScheduledOperation>)
        ensures
            sorted_by_next_run(schedules_view(r@)),
            schedules_view(r@).to_multiset() == schedules_of_vm(self@, vm_id@).to_multiset(),
    {
        let mut mine: Vec<ScheduledOperation> = Vec::new();
        let n = self.schedules.len();
        let mut i: usize = 0;
        while i < n
            invariant
                n == self.schedules@.len(),
                i <= n,
                schedules_view(mine@) == schedules_of_vm(self@.subrange(0, i as int), vm_id@),
            decreases n - i,
        {
            proof {
                assert(self@.subrange(0, i + 1).drop_last() =~= self@.subrange(0, i as int));
                assert(self@.subrange(0, i + 1).last() == self.schedules@[i as int]@);
            }
            if str_eq(self.schedules[i].vm_id.as_str(), vm_id) {
                let ghost before = mine@;
                mine.push(self.schedules[i].copy());
                proof {
                    assert(schedules_view(mine@) =~= schedules_view(before).push(self.schedules@[i as int]@));
                }
            }
            i = i + 1;
        }
        proof {
            assert(self@.subrange(0, n as int) =~= self@);
        }
        sort_by_next_run(&mine)
    }
}

pub open spec fn opt_index(o: Option<usize>) -> Option<int> {
    match o {
        Some(i) => Some(i as int),
        None => None,
    }
}

} // verus!
