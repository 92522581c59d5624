//! Backup configurations: each one is a snapshot schedule of a VM with a retention count.
use crate::error::AppError;
use crate::ids::{canonical_uuid, new_uuid};
use crate::scheduler::{
    local_now_ok, next_run, schedule_index, CreateScheduleRequest, LocalNow, OperationType, ScheduleFrequency,
    ScheduleView, SchedulerService,
};
use crate::text::str_eq;
use vstd::prelude::*;

verus! {

/// A backup configuration.
#[derive(Debug)]
pub struct BackupConfig {
    pub id: String,
    pub name: String,
    pub vm_id: String,
    pub schedule_id: String,
    pub retention_count: u32,
    pub enabled: bool,
    pub last_backup: Option<i64>,
    pub backup_count: u32,
    pub created_at: i64,
}

/// A backup configuration to create.
#[derive(Debug)]
pub struct CreateBackupRequest {
    pub name: String,
    pub vm_id: String,
    pub frequency: ScheduleFrequency,
    pub scheduled_time: String,
    pub day_of_week: Option<u8>,
    pub day_of_month: Option<u8>,
    pub retention_count: u32,
}

pub struct BackupView {
    pub id: Seq<char>,
    pub name: Seq<char>,
    pub vm_id: Seq<char>,
    pub schedule_id: Seq<char>,
    pub retention_count: u32,
    pub enabled: bool,
    pub last_backup: Option<i64>,
    pub backup_count: u32,
    pub created_at: i64,
}

impl View for BackupConfig {
    type V = BackupView;

    open spec fn view(&self) -> BackupView {
        BackupView {
            id: self.id@,
            name: self.name@,
            vm_id: self.vm_id@,
            schedule_id: self.schedule_id@,
            retention_count: self.retention_count,
            enabled: self.enabled,
            last_backup: self.last_backup,
            backup_count: self.backup_count,
            created_at: self.created_at,
        }
    }
}

impl BackupConfig {
    pub fn copy(&self) -> (r: Self)
        ensures
            r@ == self@,
    {
        BackupConfig {
            id: self.id.clone(),
            name: self.name.clone(),
            vm_id: self.vm_id.clone(),
            schedule_id: self.schedule_id.clone(),
            retention_count: self.retention_count,
            enabled: self.enabled,
            last_backup: self.last_backup,
            backup_count: self.backup_count,
            created_at: self.created_at,
        }
    }
}

pub open spec fn backups_view(s: Seq<BackupConfig>) -> Seq<BackupView> {
    s.map_values(|b: BackupConfig| b@)
}

/// Newest first.
pub open spec fn newest_first(s: Seq<BackupView>) -> bool {
    forall|i: int, j: int| 0 <= i < j < s.len() ==> (#[trigger] s[i]).created_at >= (#[trigger] s[j]).created_at
}

pub open spec fn backup_index(s: Seq<BackupView>, id: Seq<char>, k: int) -> Option<int>
    decreases s.len() - k,
{
    if k < 0 || k >= s.len() {
        None
    } else if s[k].id == id {
        Some(k)
    } else {
        backup_index(s, id, k + 1)
    }
}

pub open spec fn backups_of_vm(s: Seq<BackupView>, vm_id: Seq<char>) -> Seq<BackupView>
    decreases s.len(),
{
    if s.len() == 0 {
        Seq::empty()
    } else {
        let rest = backups_of_vm(s.drop_last(), vm_id);
        if s.last().vm_id == vm_id {
            rest.push(s.last())
        } else {
            rest
        }
    }
}

fn sort_newest_first(v: &Vec<BackupConfig>) -> (r: Vec<BackupConfig>)
    ensures
        newest_first(backups_view(r@)),
        backups_view(r@).to_multiset() == backups_view(v@).to_multiset(),
{
    let mut out: Vec<BackupConfig> = Vec::new();
    let n = v.len();
    let mut i: usize = 0;
    proof {
        assert(backups_view(v@.subrange(0, 0)) =~= Seq::<BackupView>::empty());
        assert(backups_view(out@) =~= Seq::<BackupView>::empty());
    }
    while i < n
        invariant
            n == v@.len(),
            i <= n,
            newest_first(backups_view(out@)),
            backups_view(out@).to_multiset() == backups_view(v@.subrange(0, i as int)).to_multiset(),
        decreases n - i,
    {
        let x = v[i].copy();
        let key = x.created_at;
        let m = out.len();
        let mut p: usize = 0;
        while p < m && out[p].created_at >= key
            invariant
                m == out@.len(),
                p <= m,
                forall|k: int| 0 <= k < p ==> (#[trigger] out@[k]).created_at >= key,
            decreases m - p,
        {
            p = p + 1;
        }
        let ghost before = backups_view(out@);
        out.insert(p, x);
        proof {
            assert(backups_view(out@) =~= before.insert(p as int, x@));
            assert(backups_view(v@.subrange(0, i as int + 1)) =~= backups_view(v@.subrange(0, i as int)).push(
                v@[i as int]@,
            ));
            vstd::seq_lib::to_multiset_insert(before, p as int, x@);
            vstd::seq_lib::to_multiset_build(backups_view(v@.subrange(0, i as int)), v@[i as int]@);
            let after = backups_view(out@);
            assert forall|a: int, b: int| 0 <= a < b < after.len() implies (#[trigger] after[a]).created_at >= (
            #[trigger] after[b]).created_at by {
                if b < p {
                    assert(after[a] == before[a] && after[b] == before[b]);
                } else if b == p {
                    assert(after[a] == before[a]);
                    assert(out@[a].created_at >= key);
                } else if a < p {
                    assert(after[a] == before[a] && after[b] == before[b - 1]);
                } else if a == p {
                    assert(after[b] == before[b - 1]);
                    if p < m {
                        assert(before[p as int].created_at < key);
                    }
                } else {
                    assert(after[a] == before[a - 1] && after[b] == before[b - 1]);
                }
            }
        }
        i = i + 1;
    }
    proof {
        assert(v@.subrange(0, n as int) =~= v@);
    }
    out
}

/// Whether a schedule can take the status `enabled` at `now`: enabling it needs a next
/// run.
pub open spec fn schedule_status_ok(s: ScheduleView, enabled: bool, now: LocalNow) -> bool {
    !enabled || next_run(s.frequency, s.scheduled_time, s.day_of_week, s.day_of_month, now) is Some
}

/// A schedule after taking the status `enabled` at `now`: enabling it computes its next
/// run afresh.
pub open spec fn schedule_with_status(s: ScheduleView, enabled: bool, now: LocalNow) -> ScheduleView {
    ScheduleView {
        enabled,
        next_run: if enabled {
            next_run(s.frequency, s.scheduled_time, s.day_of_week, s.day_of_month, now)->0 as i64
        } else {
            s.next_run
        },
        ..s
    }
}

/// Backup operations over the configurations read from the configuration directory.
pub struct BackupService {
    configs: Vec<BackupConfig>,
}

impl BackupService {
    /// A service over the backup configurations read from the configuration directory.
    pub fn from_configs(configs: Vec<BackupConfig>) -> (r: Self)
        ensures
            r@ == backups_view(configs@),
    {
        BackupService { configs }
    }

    pub closed spec fn view(&self) -> Seq<BackupView> {
        backups_view(self.configs@)
    }

    fn position(&self, id: &str) -> (r: Option<usize>)
        ensures
            match r {
                Some(i) => backup_index(self@, id@, 0) == Some(i as int) && i < self@.len(),
                None => backup_index(self@, id@, 0) is None,
            },
    {
        let n = self.configs.len();
        let mut i: usize = 0;
        while i < n
            invariant
                n == self.configs@.len(),
                i <= n,
                backup_index(self@, id@, 0) == backup_index(self@, id@, i as int),
            decreases n - i,
        {
            proof {
                assert(self@[i as int] == self.configs@[i as int]@);
            }
            if str_eq(self.configs[i].id.as_str(), id) {
                return Some(i);
            }
            i = i + 1;
        }
        None
    }

    /// The backup configurations, newest first.
    pub fn list_backup_configs(&self) -> (r: Vec<BackupConfig>)
        ensures
            newest_first(backups_view(r@)),
            backups_view(r@).to_multiset() == self@.to_multiset(),
    {
        sort_newest_first(&self.configs)
    }

    /// The backup configuration with id `id`.
    pub fn get_backup_config(&self, id: &str) -> (r: Result<BackupConfig, AppError>)
        ensures
            match r {
                Ok(b) => backup_index(self@, id@, 0) matches Some(i) && b@ == self@[i],
                Err(e) => backup_index(self@, id@, 0) is None && e is Other,
            },
    {
        match self.position(id) {
            Some(i) => Ok(self.configs[i].copy()),
            None => {
                let mut m = String::from_str("Backup config not found: ");
                m.append(id);
                Err(AppError::Other(m))
            },
        }
    }

    /// Creates a backup configuration and the snapshot schedule that drives it.
    pub fn create_backup_config(
        &mut self,
        request: CreateBackupRequest,
        scheduler: &mut SchedulerService,
        now: LocalNow,
        created_at: i64,
    ) -> (r: Result<BackupConfig, AppError>)
        requires
            local_now_ok(now),
        ensures
            match r {
                Ok(b) => {
                    &&& request.retention_count >= 1
                    &&& canonical_uuid(b.id@)
                    &&& final(scheduler)@.len() == old(scheduler)@.len() + 1
                    &&& final(scheduler)@.last().id == b.schedule_id@
                    &&& final(scheduler)@.last().name == "Backup: "@ + request.name@
                    &&& final(scheduler)@.last().operation == OperationType::Snapshot
                    &&& final(scheduler)@.drop_last() == old(scheduler)@
                    &&& b@ == (BackupView {
                        id: b.id@,
                        name: request.name@,
                        vm_id: request.vm_id@,
                        schedule_id: b.schedule_id@,
                        retention_count: request.retention_count,
                        enabled: true,
                        last_backup: None,
                        backup_count: 0,
                        created_at,
                    })
                    &&& final(self)@ == old(self)@.push(b@)
                },
                Err(_) => final(self)@ == old(self)@ && final(scheduler)@ == old(scheduler)@ && (
                request.retention_count == 0 || next_run(
                    request.frequency,
                    request.scheduled_time@,
                    request.day_of_week,
                    request.day_of_month,
                    now,
                ) is None),
            },
    {
        if request.retention_count == 0 {
            return Err(AppError::Other(String::from_str("Retention count must be at least 1")));
        }
        let mut schedule_name = String::from_str("Backup: ");
        schedule_name.append(request.name.as_str());
        let schedule = scheduler.create_schedule_at(
            CreateScheduleRequest {
                name: schedule_name,
                vm_id: request.vm_id.clone(),
                operation: OperationType::Snapshot,
                frequency: request.frequency,
                scheduled_time: request.scheduled_time,
                day_of_week: request.day_of_week,
                day_of_month: request.day_of_month,
            },
            now,
            created_at,
        )?;
        let config = BackupConfig {
            id: new_uuid(),
            name: request.name,
            vm_id: request.vm_id,
            schedule_id: schedule.id,
            retention_count: request.retention_count,
            enabled: true,
            last_backup: None,
            backup_count: 0,
            created_at,
        };
        self.configs.push(config.copy());
        proof {
            assert(backups_view(self.configs@) =~= old(self)@.push(config@));
            assert(scheduler@.drop_last() =~= old(scheduler)@);
        }
        Ok(config)
    }

    /// Enables or disables a backup configuration and its schedule; nothing changes when
    /// the schedule cannot be updated.
    pub fn update_backup_status(
        &mut self,
        id: &str,
        enabled: bool,
        scheduler: &mut SchedulerService,
        now: LocalNow,
    ) -> (r: Result<BackupConfig, AppError>)
        requires
            local_now_ok(now),
        ensures
            match r {
                Ok(b) => backup_index(old(self)@, id@, 0) matches Some(i) && b@ == (BackupView { enabled, ..old(self)@[i] })
                    && final(self)@ == old(self)@.update(i, b@) && (schedule_index(old(scheduler)@, b.schedule_id@, 0)
                    matches Some(j) && schedule_status_ok(old(scheduler)@[j], enabled, now) && final(scheduler)@
                    == old(scheduler)@.update(j, schedule_with_status(old(scheduler)@[j], enabled, now))),
                Err(e) => final(self)@ == old(self)@ && final(scheduler)@ == old(scheduler)@ && match backup_index(
                    old(self)@,
                    id@,
                    0,
                ) {
                    None => e matches AppError::Other(m) && m@ == "Backup config not found: "@ + id@,
                    Some(i) => e is ScheduleError && match schedule_index(old(scheduler)@, old(self)@[i].schedule_id, 0) {
                        None => true,
                        Some(j) => !schedule_status_ok(old(scheduler)@[j], enabled, now),
                    },
                },
            },
    {
        let i = match self.position(id) {
            Some(i) => i,
            None => {
                let mut m = String::from_str("Backup config not found: ");
                m.append(id);
                return Err(AppError::Other(m));
            },
        };
        let mut config = self.configs[i].copy();
        config.enabled = enabled;
        scheduler.update_schedule_status(config.schedule_id.as_str(), enabled, now)?;
        self.configs.set(i, config.copy());
        proof {
            assert(backups_view(self.configs@) =~= old(self)@.update(i as int, config@));
        }
        Ok(config)
    }

    /// Deletes a backup configuration and its schedule; nothing is deleted when the
    /// schedule cannot be.
    pub fn delete_backup_config(&mut self, id: &str, scheduler: &mut SchedulerService) -> (r: Result<(), AppError>)
        ensures
            match r {
                Ok(()) => backup_index(old(self)@, id@, 0) matches Some(i) && final(self)@ == old(self)@.remove(i)
                    && (schedule_index(old(scheduler)@, old(self)@[i].schedule_id, 0) matches Some(j)
                    && final(scheduler)@ == old(scheduler)@.remove(j)),
                Err(e) => final(self)@ == old(self)@ && final(scheduler)@ == old(scheduler)@ && match backup_index(
                    old(self)@,
                    id@,
                    0,
                ) {
                    None => e matches AppError::Other(m) && m@ == "Backup config not found: "@ + id@,
                    Some(i) => e is ScheduleError && schedule_index(old(scheduler)@, old(self)@[i].schedule_id, 0) is None,
                },
            },
    {
        let i = match self.position(id) {
            Some(i) => i,
            None => {
                let mut m = String::from_str("Backup config not found: ");
                m.append(id);
                return Err(AppError::Other(m));
            },
        };
        scheduler.delete_schedule(self.configs[i].schedule_id.as_str())?;
        self.configs.remove(i);
        proof {
            assert(backups_view(self.configs@) =~= old(self)@.remove(i as int));
        }
        Ok(())
    }

    /// The backup configurations of VM `vm_id`, newest first.
    pub fn get_vm_backup_configs(&self, vm_id: &str) -> (r: Vec<BackupConfig>)
        ensures
            newest_first(backups_view(r@)),
            backups_view(r@).to_multiset() == backups_of_vm(self@, vm_id@).to_multiset(),
    {
        let mut mine: Vec<BackupConfig> = Vec::new();
        let n = self.configs.len();
        let mut i: usize = 0;
        while i < n
            invariant
                n == self.configs@.len(),
                i <= n,
                backups_view(mine@) == backups_of_vm(self@.subrange(0, i as int), vm_id@),
            decreases n - i,
        {
            proof {
                assert(self@.subrange(0, i + 1).drop_last() =~= self@.subrange(0, i as int));
                assert(self@.subrange(0, i + 1).last() == self.configs@[i as int]@);
            }
            if str_eq(self.configs[i].vm_id.as_str(), vm_id) {
                let ghost before = mine@;
                mine.push(self.configs[i].copy());
                proof {
                    assert(backups_view(mine@) =~= backups_view(before).push(self.configs@[i as int]@));
                }
            }
            i = i + 1;
        }
        proof {
            assert(self@.subrange(0, n as int) =~= self@);
        }
        sort_newest_first(&mine)
    }

    /// Records a backup taken at `now`: the time, and one more in the count (a count that
    /// cannot grow further is refused).
    pub fn record_backup(&mut self, id: &str, now: i64) -> (r: Result<BackupConfig, AppError>)
        ensures
            match r {
                Ok(b) => backup_index(old(self)@, id@, 0) matches Some(i) && old(self)@[i].backup_count < u32::MAX
                    && b@ == (BackupView {
                    last_backup: Some(now),
                    backup_count: (old(self)@[i].backup_count + 1) as u32,
                    ..old(self)@[i]
                }) && final(self)@ == old(self)@.update(i, b@),
                Err(e) => final(self)@ == old(self)@ && match backup_index(old(self)@, id@, 0) {
                    None => e matches AppError::Other(m) && m@ == "Backup config not found: "@ + id@,
                    Some(i) => old(self)@[i].backup_count == u32::MAX && (e matches AppError::Other(m) && m@
                        == "Backup count cannot grow further"@),
                },
            },
    {
        let i = match self.position(id) {
            Some(i) => i,
            None => {
                let mut m = String::from_str("Backup config not found: ");
                m.append(id);
                return Err(AppError::Other(m));
            },
        };
        let mut config = self.configs[i].copy();
        if config.backup_count == u32::MAX {
            return Err(AppError::Other(String::from_str("Backup count cannot grow further")));
        }
        config.last_backup = Some(now);
        config.backup_count = config.backup_count + 1;
        self.configs.set(i, config.copy());
        proof {
            assert(backups_view(self.configs@) =~= old(self)@.update(i as int, config@));
        }
        Ok(config)
    }
}

} // verus!
