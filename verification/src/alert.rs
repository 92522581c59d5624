//! Resource alerts: an alert fires once its threshold has been exceeded on a number of
//! consecutive checks, and its count starts again after it fires or after a check within
//! the threshold.
use vstd::prelude::*;

verus! {

#[derive(Clone, Copy, Debug, PartialEq, Eq, Structural)]
pub enum ThresholdType {
    Cpu,
    Memory,
    Disk,
    Network,
}

#[derive(Clone, Copy, Debug, PartialEq, Eq, Structural)]
pub enum AlertSeverity {
    Info,
    Warning,
    Critical,
}

/// Alert operations.
pub struct AlertService;

/// The counting state of an alert.
#[derive(Clone, Copy, Debug, PartialEq, Eq, Structural)]
pub struct AlertCounter {
    pub enabled: bool,
    pub consecutive_checks: u32,
    pub current_trigger_count: u32,
}

/// What one check does to an alert: its new count, whether it fires, and whether the
/// alert must be saved.
#[derive(Clone, Copy, Debug, PartialEq, Eq, Structural)]
pub struct CheckOutcome {
    pub counter: AlertCounter,
    pub fired: bool,
    pub changed: bool,
}

/// One check of an alert whose threshold was (or was not) exceeded.
pub open spec fn check_step(a: AlertCounter, exceeded: bool) -> CheckOutcome {
    if !a.enabled {
        CheckOutcome { counter: a, fired: false, changed: false }
    } else if exceeded {
        let count = a.current_trigger_count + 1;
        if count >= a.consecutive_checks {
            CheckOutcome { counter: AlertCounter { current_trigger_count: 0, ..a }, fired: true, changed: true }
        } else {
            CheckOutcome {
                counter: AlertCounter { current_trigger_count: count as u32, ..a },
                fired: false,
                changed: true,
            }
        }
    } else if a.current_trigger_count > 0 {
        CheckOutcome { counter: AlertCounter { current_trigger_count: 0, ..a }, fired: false, changed: true }
    } else {
        CheckOutcome { counter: a, fired: false, changed: false }
    }
}

/// The counter after `k` exceeded checks in a row.
pub open spec fn after_exceeded(a: AlertCounter, k: nat) -> AlertCounter
    decreases k,
{
    if k == 0 {
        a
    } else {
        check_step(after_exceeded(a, (k - 1) as nat), true).counter
    }
}

impl AlertService {
    /// The number of consecutive checks an alert waits for: at least one.
    pub fn consecutive_checks(requested: u32) -> (r: u32)
        ensures
            r == (if requested >= 1 { requested } else { 1 }),
    {
        if requested >= 1 {
            requested
        } else {
            1
        }
    }

    /// Enables or disables an alert; a disabled alert forgets its count.
    pub fn set_enabled(a: AlertCounter, enabled: bool) -> (r: AlertCounter)
        ensures
            r.enabled == enabled,
            r.consecutive_checks == a.consecutive_checks,
            r.current_trigger_count == (if enabled { a.current_trigger_count } else { 0 }),
    {
        AlertCounter {
            enabled,
            consecutive_checks: a.consecutive_checks,
            current_trigger_count: if enabled {
                a.current_trigger_count
            } else {
                0
            },
        }
    }

    /// One check of an alert: whether its threshold was exceeded decides its new count and
    /// whether it fires.
    pub fn check(a: AlertCounter, exceeded: bool) -> (r: CheckOutcome)
        requires
            a.enabled && exceeded ==> a.current_trigger_count < u32::MAX,
        ensures
            r == check_step(a, exceeded),
    {
        if !a.enabled {
            return CheckOutcome { counter: a, fired: false, changed: false };
        }
        if exceeded {
            let count = a.current_trigger_count + 1;
            if count >= a.consecutive_checks {
                CheckOutcome {
                    counter: AlertCounter { enabled: a.enabled, consecutive_checks: a.consecutive_checks, current_trigger_count: 0 },
                    fired: true,
                    changed: true,
                }
            } else {
                CheckOutcome {
                    counter: AlertCounter {
                        enabled: a.enabled,
                        consecutive_checks: a.consecutive_checks,
                        current_trigger_count: count,
                    },
                    fired: false,
                    changed: true,
                }
            }
        } else if a.current_trigger_count > 0 {
            CheckOutcome {
                counter: AlertCounter { enabled: a.enabled, consecutive_checks: a.consecutive_checks, current_trigger_count: 0 },
                fired: false,
                changed: true,
            }
        } else {
            CheckOutcome { counter: a, fired: false, changed: false }
        }
    }
}

/// An enabled alert with a fresh count fires on exactly the `consecutive_checks`-th
/// exceeded check in a row: the checks before it only count, and it starts counting again
/// afterwards.
pub proof fn law_alert_fires_after_consecutive_exceedances(a: AlertCounter, k: nat)
    requires
        a.enabled,
        a.current_trigger_count == 0,
        a.consecutive_checks >= 1,
        k < a.consecutive_checks,
    ensures
        after_exceeded(a, k).current_trigger_count == k,
        after_exceeded(a, k).enabled,
        after_exceeded(a, k).consecutive_checks == a.consecutive_checks,
        check_step(after_exceeded(a, k), true).fired == (k + 1 == a.consecutive_checks),
        k + 1 == a.consecutive_checks ==> check_step(after_exceeded(a, k), true).counter == a,
    decreases k,
{
    if k > 0 {
        law_alert_fires_after_consecutive_exceedances(a, (k - 1) as nat);
    }
}

/// A check within the threshold leaves an enabled alert with no count.
pub proof fn law_alert_count_resets_below_threshold(a: AlertCounter)
    requires
        a.enabled,
    ensures
        check_step(a, false).counter.current_trigger_count == 0,
        !check_step(a, false).fired,
{
}

} // verus!
