use kvm_manager::alert::{AlertCounter, AlertService};
use kvm_manager::backup::{BackupService, CreateBackupRequest};
use kvm_manager::error::AppError;
use kvm_manager::retention::{RetentionPolicy, RetentionService};
use kvm_manager::scheduler::{
    CreateScheduleRequest, LocalNow, OperationType, ScheduleFrequency, SchedulerService,
};
use kvm_manager::serial_console::SerialConsoleService;
use kvm_manager::snapshot::{Snapshot, SnapshotConfig, SnapshotService, SnapshotState};

fn monday_morning() -> LocalNow {
    LocalNow { year: 2024, month: 1, day: 15, seconds_of_day: 9 * 3600, nanos: 0 }
}

fn request(frequency: ScheduleFrequency, time: &str, dom: Option<u8>) -> CreateScheduleRequest {
    CreateScheduleRequest {
        name: "nightly".to_string(),
        vm_id: "vm-1".to_string(),
        operation: OperationType::Snapshot,
        frequency,
        scheduled_time: time.to_string(),
        day_of_week: None,
        day_of_month: dom,
    }
}

#[test]
fn alert_fires_on_the_configured_consecutive_check() {
    let mut counter = AlertCounter { enabled: true, consecutive_checks: 3, current_trigger_count: 0 };
    let first = AlertService::check(counter, true);
    assert!(!first.fired);
    assert_eq!(first.counter.current_trigger_count, 1);
    counter = first.counter;
    let second = AlertService::check(counter, true);
    assert!(!second.fired);
    counter = second.counter;
    let third = AlertService::check(counter, true);
    assert!(third.fired);
    assert_eq!(third.counter.current_trigger_count, 0);
}

#[test]
fn alert_count_resets_when_the_value_falls_back() {
    let counter = AlertCounter { enabled: true, consecutive_checks: 3, current_trigger_count: 2 };
    let outcome = AlertService::check(counter, false);
    assert!(!outcome.fired);
    assert!(outcome.changed);
    assert_eq!(outcome.counter.current_trigger_count, 0);
    let idle = AlertService::check(outcome.counter, false);
    assert!(!idle.changed);
}

#[test]
fn disabled_alert_never_fires_and_forgets_its_count() {
    let counter = AlertCounter { enabled: true, consecutive_checks: 1, current_trigger_count: 0 };
    let off = AlertService::set_enabled(counter, false);
    assert_eq!(off.current_trigger_count, 0);
    let outcome = AlertService::check(off, true);
    assert!(!outcome.fired);
    assert_eq!(AlertService::consecutive_checks(0), 1);
    assert_eq!(AlertService::consecutive_checks(5), 5);
}

#[test]
fn daily_schedule_runs_later_today_or_tomorrow() {
    let later = SchedulerService::calculate_next_run(ScheduleFrequency::Daily, "10:30", None, None, monday_morning());
    assert_eq!(later.unwrap(), 1705314600);
    let passed = SchedulerService::calculate_next_run(ScheduleFrequency::Daily, "08:00", None, None, monday_morning());
    assert_eq!(passed.unwrap(), 1705305600 + 86400);
}

#[test]
fn monthly_schedule_uses_the_requested_day() {
    let next =
        SchedulerService::calculate_next_run(ScheduleFrequency::Monthly, "08:00", None, Some(20), monday_morning());
    assert_eq!(next.unwrap(), 1705737600);
    let missing = SchedulerService::calculate_next_run(ScheduleFrequency::Monthly, "08:00", None, None, monday_morning());
    assert!(matches!(missing, Err(AppError::ScheduleError(_))));
}

#[test]
fn schedule_time_must_be_hours_and_minutes() {
    for bad in ["abc", "25:00", "10:60", "10:30:00"] {
        let r = SchedulerService::calculate_next_run(ScheduleFrequency::Daily, bad, None, None, monday_morning());
        assert!(matches!(r, Err(AppError::ScheduleError(_))), "{bad}");
    }
}

#[test]
fn created_schedule_is_listed_and_can_be_disabled() {
    let mut scheduler = SchedulerService::from_schedules(Vec::new());
    let created = scheduler
        .create_schedule_at(request(ScheduleFrequency::Daily, "10:30", None), monday_morning(), 100)
        .unwrap();
    assert!(created.enabled);
    assert_eq!(created.next_run, 1705314600);
    assert_eq!(created.created_at, 100);
    assert_eq!(scheduler.list_schedules().len(), 1);
    assert_eq!(scheduler.get_vm_schedules("vm-1").len(), 1);
    let disabled = scheduler.update_schedule_status(&created.id, false, monday_morning()).unwrap();
    assert!(!disabled.enabled);
    assert!(scheduler.delete_schedule(&created.id).is_ok());
    assert!(scheduler.get_schedule(&created.id).is_err());
}

#[test]
fn backup_configuration_creates_its_snapshot_schedule() {
    let mut scheduler = SchedulerService::from_schedules(Vec::new());
    let mut backups = BackupService::from_configs(Vec::new());
    let config = backups
        .create_backup_config(
            CreateBackupRequest {
                name: "nightly".to_string(),
                vm_id: "vm-1".to_string(),
                frequency: ScheduleFrequency::Daily,
                scheduled_time: "10:30".to_string(),
                day_of_week: None,
                day_of_month: None,
                retention_count: 3,
            },
            &mut scheduler,
            monday_morning(),
            42,
        )
        .unwrap();
    let schedules = scheduler.list_schedules();
    assert_eq!(schedules.len(), 1);
    assert_eq!(schedules[0].name, "Backup: nightly");
    assert_eq!(schedules[0].id, config.schedule_id);
    let recorded = backups.record_backup(&config.id, 500).unwrap();
    assert_eq!(recorded.backup_count, 1);
    assert_eq!(recorded.last_backup, Some(500));
    let disabled = backups.update_backup_status(&config.id, false, &mut scheduler, monday_morning()).unwrap();
    assert!(!disabled.enabled);
    assert!(!scheduler.list_schedules()[0].enabled);
    match backups.record_backup("missing", 600) {
        Err(AppError::Other(m)) => assert_eq!(m, "Backup config not found: missing"),
        _ => panic!("a missing backup must be refused"),
    }
    // Without its schedule a backup configuration can be neither updated nor deleted.
    assert!(scheduler.delete_schedule(&config.schedule_id).is_ok());
    assert!(matches!(
        backups.update_backup_status(&config.id, true, &mut scheduler, monday_morning()),
        Err(AppError::ScheduleError(_))
    ));
    assert!(matches!(backups.delete_backup_config(&config.id, &mut scheduler), Err(AppError::ScheduleError(_))));
    assert_eq!(backups.list_backup_configs().len(), 1);
}

#[test]
fn backup_retention_must_keep_at_least_one() {
    let mut scheduler = SchedulerService::from_schedules(Vec::new());
    let mut backups = BackupService::from_configs(Vec::new());
    let r = backups.create_backup_config(
        CreateBackupRequest {
            name: "none".to_string(),
            vm_id: "vm-1".to_string(),
            frequency: ScheduleFrequency::Daily,
            scheduled_time: "10:30".to_string(),
            day_of_week: None,
            day_of_month: None,
            retention_count: 0,
        },
        &mut scheduler,
        monday_morning(),
        42,
    );
    assert!(r.is_err());
    assert!(scheduler.list_schedules().is_empty());
}

#[test]
fn retention_defaults_and_cutoff() {
    let policy = RetentionPolicy::default();
    assert!(policy.enabled);
    assert_eq!(policy.retention_days, 30);
    assert_eq!(policy.cleanup_hour, 2);
    let service = RetentionService::new(policy);
    assert_eq!(service.cleanup_cutoff(10_000_000), Some(10_000_000 - 30 * 86400));
    let mut off = RetentionService::new(RetentionPolicy { enabled: false, ..policy });
    assert_eq!(off.cleanup_cutoff(10_000_000), None);
    assert_eq!(off.should_run_cleanup(10_000_000).unwrap(), false);
    off.update_policy(policy);
    assert!(off.load_policy().enabled);
}

#[test]
fn retention_cleanup_runs_once_per_day_in_its_hour() {
    // 2024-01-15 02:10:00 UTC
    let at_two = 1705284600;
    let mut service = RetentionService::new(RetentionPolicy::default());
    assert_eq!(service.should_run_cleanup(at_two).unwrap(), true);
    service.record_cleanup(at_two);
    assert_eq!(service.load_policy().last_cleanup, Some(at_two));
    assert_eq!(service.should_run_cleanup(at_two + 600).unwrap(), false);
    assert_eq!(service.should_run_cleanup(at_two + 3600).unwrap(), false);
    assert_eq!(service.should_run_cleanup(at_two + 86400).unwrap(), true);
}

#[test]
fn retention_cleanup_a_year_ago_on_the_same_day_number_is_due() {
    // Last run 2023-06-01 02:10:00 UTC (day 152); now 2024-05-31 02:30:00 UTC (day 152).
    let service = RetentionService::new(RetentionPolicy { last_cleanup: Some(1685585400), ..RetentionPolicy::default() });
    assert_eq!(service.should_run_cleanup(1717122600).unwrap(), true);
}

#[test]
fn retention_cleanup_checks_the_last_second_chrono_represents() {
    // 262142-12-31 23:59:59 UTC
    let service = RetentionService::new(RetentionPolicy { last_cleanup: Some(0), ..RetentionPolicy::default() });
    assert_eq!(service.should_run_cleanup(8210266876799).unwrap(), false);
}

#[test]
fn snapshot_definition_names_the_memory_mode() {
    let with_memory = SnapshotService::snapshot_definition(&SnapshotConfig {
        name: "before-upgrade".to_string(),
        description: Some("pre".to_string()),
        include_memory: true,
    });
    assert_eq!(
        with_memory,
        "<domainsnapshot>\n  <name>before-upgrade</name>\n  <description>pre</description>\n  <memory snapshot='internal'/>\n</domainsnapshot>"
    );
    let disk_only = SnapshotService::snapshot_definition(&SnapshotConfig {
        name: "s".to_string(),
        description: None,
        include_memory: false,
    });
    assert_eq!(
        disk_only,
        "<domainsnapshot>\n  <name>s</name>\n  <description></description>\n  <memory snapshot='no'/>\n</domainsnapshot>"
    );
}

#[test]
fn snapshot_fields_are_read_from_its_definition() {
    let xml = "<domainsnapshot>\n  <name>s2</name>\n  <description>  after  </description>\n  <state>running</state>\n  <parent>\n    <name>s1</name>\n  </parent>\n  <creationTime>1700000000</creationTime>\n</domainsnapshot>";
    assert_eq!(SnapshotService::parse_creation_time(xml), 1700000000);
    assert_eq!(SnapshotService::parse_description(xml), Some("after".to_string()));
    assert_eq!(SnapshotService::parse_parent(xml), Some("s1".to_string()));
    assert_eq!(SnapshotService::parse_state(xml), SnapshotState::Running);
    assert_eq!(SnapshotService::parse_creation_time("<creationTime>x</creationTime>"), 0);
    assert_eq!(SnapshotService::parse_description("<description>  </description>"), None);
    assert_eq!(SnapshotService::parse_state("<state>shut off</state>"), SnapshotState::Shutoff);
    assert_eq!(SnapshotService::parse_state("<memory snapshot='no'/>"), SnapshotState::DiskSnapshot);
    let model = SnapshotService::snapshot_to_model("s2".to_string(), xml, true);
    assert!(model.is_current);
    assert_eq!(model.name, "s2");
}

#[test]
fn snapshots_are_listed_newest_first() {
    let snap = |name: &str, t: i64| Snapshot {
        name: name.to_string(),
        description: None,
        creation_time: t,
        state: SnapshotState::Shutoff,
        parent: None,
        is_current: false,
    };
    let listed = SnapshotService::list_snapshots(vec![snap("a", 10), snap("b", 30), snap("c", 20), snap("d", 30)]);
    let names: Vec<&str> = listed.iter().map(|s| s.name.as_str()).collect();
    assert_eq!(names, vec!["b", "d", "c", "a"]);
}

#[test]
fn serial_console_prefers_the_serial_terminal() {
    let xml = "<devices>\n<console type='pty' tty='/dev/pts/9'>\n<source path='/dev/pts/9'/>\n</console>\n<serial type='pty'>\n<source path='/dev/pts/3'/>\n</serial>\n</devices>";
    assert_eq!(SerialConsoleService::extract_serial_pty(xml).unwrap(), "/dev/pts/3");
    let console_only = "<console type='pty'>\n<source path='/dev/pts/5'/>\n</console>";
    assert_eq!(SerialConsoleService::extract_serial_pty(console_only).unwrap(), "/dev/pts/5");
    assert!(matches!(SerialConsoleService::extract_serial_pty("<domain/>"), Err(AppError::Other(_))));
    let info = SerialConsoleService::get_serial_console_info("id", "web".to_string(), true, xml).unwrap();
    assert_eq!(info.pty_path, "/dev/pts/3");
    assert!(info.active);
}
