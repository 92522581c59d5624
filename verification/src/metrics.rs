//! Historical metrics: how a time range is thinned out to a number of points, and the
//! query that reads it.
use crate::text::{dec, fmt_u64};
use vstd::prelude::*;

verus! {

/// Stores and reads VM metrics.
pub struct MetricsService;

/// Every how many rows one is kept so that `count` rows give at most about `max_points`.
pub open spec fn interval_of(count: i64, max_points: usize) -> i64 {
    if count > max_points as i64 {
        (count / (max_points as i64)) as i64
    } else {
        1
    }
}

pub open spec fn history_query_of(interval: Option<i64>) -> Seq<char> {
    match interval {
        Some(i) => "SELECT timestamp, cpu_usage, memory_usage_mb, memory_total_mb,\n                        disk_read_bytes, disk_write_bytes, network_rx_bytes, network_tx_bytes\n                 FROM vm_metrics\n                 WHERE vm_id = ?1 AND timestamp >= ?2 AND timestamp <= ?3\n                 AND id % "@
            + dec(i as nat) + " = 0\n                 ORDER BY timestamp ASC"@,
        None => "SELECT timestamp, cpu_usage, memory_usage_mb, memory_total_mb,\n                    disk_read_bytes, disk_write_bytes, network_rx_bytes, network_tx_bytes\n             FROM vm_metrics\n             WHERE vm_id = ?1 AND timestamp >= ?2 AND timestamp <= ?3\n             ORDER BY timestamp ASC"@,
    }
}

impl MetricsService {
    /// The sampling interval for `count` stored rows (a row count, never negative) and at
    /// most `max_points` points; a positive `max_points` is needed once there are rows
    /// to divide.
    pub fn sampling_interval(count: i64, max_points: usize) -> (r: i64)
        requires
            count >= 0,
            max_points <= i64::MAX,
            count > 0 ==> max_points > 0,
        ensures
            r == interval_of(count, max_points),
            r >= 1,
    {
        let m = max_points as i64;
        if count > m {
            assert(count / m >= 1) by (nonlinear_arith)
                requires
                    count > m,
                    m >= 1,
            ;
            count / m
        } else {
            1
        }
    }

    /// The query that reads a VM's metrics in a time range, oldest first, keeping every
    /// `interval`-th row when sampling.
    pub fn history_query(interval: Option<i64>) -> (r: String)
        requires
            interval matches Some(i) ==> i >= 0,
        ensures
            r@ == history_query_of(interval),
    {
        match interval {
            Some(i) => {
                let mut q = String::from_str(
                    "SELECT timestamp, cpu_usage, memory_usage_mb, memory_total_mb,\n                        disk_read_bytes, disk_write_bytes, network_rx_bytes, network_tx_bytes\n                 FROM vm_metrics\n                 WHERE vm_id = ?1 AND timestamp >= ?2 AND timestamp <= ?3\n                 AND id % ",
                );
                q.append(fmt_u64(i as u64).as_str());
                q.append(" = 0\n                 ORDER BY timestamp ASC");
                q
            },
            None => String::from_str(
                "SELECT timestamp, cpu_usage, memory_usage_mb, memory_total_mb,\n                    disk_read_bytes, disk_write_bytes, network_rx_bytes, network_tx_bytes\n             FROM vm_metrics\n             WHERE vm_id = ?1 AND timestamp >= ?2 AND timestamp <= ?3\n             ORDER BY timestamp ASC",
            ),
        }
    }
}

} // verus!
