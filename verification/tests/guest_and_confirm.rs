use kvm_manager::confirmation::{ConfirmationService, UtcInstant};
use kvm_manager::error::AppError;
use kvm_manager::guest_agent::{
    decode_base64, decode_base64_bytes, CpuStats, DiskStatsFields, GuestAgentService, GuestOsFields,
};
use kvm_manager::operation::{OperationContext, OperationKind, TargetIdentity, ConnectionScope};

fn context(target: Option<&str>) -> OperationContext {
    OperationContext {
        operation_id: "op-1".to_string(),
        operation_kind: OperationKind::Destructive,
        connection_id: "conn-a".to_string(),
        connection_label: "Local".to_string(),
        connection_scope: ConnectionScope::LocalSystem,
        capabilities: Vec::new(),
        target: target.map(|id| TargetIdentity {
            resource_kind: "vm".to_string(),
            id: id.to_string(),
            name: "web".to_string(),
        }),
        captured_at: "2024-01-01T00:00:00Z".to_string(),
    }
}

const DIGEST: &str = "0123456789abcdef0123";

fn at(secs: i64) -> UtcInstant {
    UtcInstant { secs, nanos: 0 }
}

#[test]
fn issued_confirmation_verifies_once_for_the_same_operation() {
    let mut service = ConfirmationService::new();
    let preview = service.issue_at(&context(Some("vm-1")), DIGEST, at(1000), 120).unwrap();
    assert_eq!(preview.token.len(), 36);
    assert_eq!(preview.confirmation.connection_id, "conn-a");
    assert_eq!(preview.confirmation.expires_at, "1970-01-01T00:18:40+00:00");
    assert!(service
        .verify_and_consume_at(&preview.token, &context(Some("vm-1")), DIGEST, at(1100))
        .is_ok());
    assert!(service
        .verify_and_consume_at(&preview.token, &context(Some("vm-1")), DIGEST, at(1100))
        .is_err());
}

#[test]
fn confirmation_is_refused_for_another_target_or_after_expiry() {
    let mut service = ConfirmationService::new();
    let preview = service.issue_at(&context(Some("vm-1")), DIGEST, at(1000), 120).unwrap();
    assert!(matches!(
        service.verify_and_consume_at(&preview.token, &context(Some("vm-2")), DIGEST, at(1001)),
        Err(AppError::InvalidConfig(_))
    ));
    assert!(service
        .verify_and_consume_at(&preview.token, &context(Some("vm-1")), DIGEST, at(1001))
        .is_err());

    let preview = service.issue_at(&context(Some("vm-1")), DIGEST, at(1000), 120).unwrap();
    assert!(service
        .verify_and_consume_at(&preview.token, &context(Some("vm-1")), DIGEST, at(1120))
        .is_err());
}

#[test]
fn confirmation_requests_are_validated() {
    let mut service = ConfirmationService::new();
    assert!(service.issue_at(&context(None), DIGEST, at(0), 120).is_err());
    assert!(service.issue_at(&context(Some("vm")), "xyz", at(0), 120).is_err());
    assert!(service.issue_at(&context(Some("vm")), "0123456789abcde", at(0), 120).is_err());
    assert!(service.issue_at(&context(Some("vm")), DIGEST, at(0), 0).is_err());
    let preview = service.issue_at(&context(Some("vm")), DIGEST, at(0), 60).unwrap();
    assert!(service
        .verify_and_consume_at(&preview.token, &context(Some("vm")), "not-hex-digest-!!", at(1))
        .is_err());
    assert!(service
        .verify_and_consume_at(&preview.token, &context(Some("vm")), DIGEST, at(1))
        .is_ok());
}

#[test]
fn confirmation_with_the_current_time() {
    let mut service = ConfirmationService::default();
    let preview = service.issue(&context(Some("vm")), DIGEST).unwrap();
    assert!(service.verify_and_consume(&preview.token, &context(Some("vm")), DIGEST).is_ok());
}

#[test]
fn base64_output_is_decoded() {
    assert_eq!(decode_base64("aGVsbG8=").as_deref(), Some("hello"));
    assert_eq!(decode_base64("aGk=").as_deref(), Some("hi"));
    assert_eq!(decode_base64("").as_deref(), Some(""));
    assert_eq!(decode_base64("a*"), None);
    assert_eq!(decode_base64_bytes("//8="), Some(vec![255, 255]));
    assert_eq!(decode_base64("//8="), None);
}

#[test]
fn agent_info_lists_enabled_commands() {
    let info = GuestAgentService::agent_info(
        None,
        vec![
            (Some("guest-ping".to_string()), Some(true)),
            (Some("guest-exec".to_string()), Some(false)),
            (None, Some(true)),
            (Some("guest-info".to_string()), None),
        ],
    );
    assert_eq!(info.version, "unknown");
    assert_eq!(info.capabilities, vec!["guest-ping".to_string()]);
    assert_eq!(info.platform, "qemu-ga");
}

#[test]
fn system_info_defaults_and_windows_detection() {
    let os = GuestOsFields {
        pretty_name: Some(Some("Microsoft Windows Server".to_string())),
        name: Some(Some("ignored".to_string())),
        version_id: None,
        version: Some(Some("2022".to_string())),
        kernel_release: None,
        machine: Some("x86_64".to_string()),
        id: Some("mswindows".to_string()),
    };
    let info = GuestAgentService::system_info(os, None, Some(4));
    assert_eq!(info.os_type, "windows");
    assert_eq!(info.os_name, "Microsoft Windows Server");
    assert_eq!(info.os_version, "2022");
    assert_eq!(info.hostname, "unknown");
    assert_eq!(info.cpu_count, 4);

    let os = GuestOsFields {
        pretty_name: Some(None),
        name: Some(Some("Debian".to_string())),
        version_id: None,
        version: None,
        kernel_release: Some("6.1".to_string()),
        machine: None,
        id: None,
    };
    let info = GuestAgentService::system_info(os, Some("vm1".to_string()), None);
    assert_eq!(info.os_name, "Unknown");
    assert_eq!(info.os_type, "linux");
    assert_eq!(info.cpu_count, 1);
    assert_eq!(info.architecture, "unknown");
}

#[test]
fn interfaces_disks_users_and_time_zone() {
    let iface = GuestAgentService::network_interface(
        None,
        Some("52:54:00:00:00:01".to_string()),
        vec![
            (Some("10.0.0.2".to_string()), Some("ipv4".to_string())),
            (Some("fe80::1".to_string()), Some("ipv6".to_string())),
            (Some("x".to_string()), Some("other".to_string())),
        ],
    );
    assert_eq!(iface.name, "unknown");
    assert_eq!(iface.ipv4_addresses, vec!["10.0.0.2".to_string()]);
    assert_eq!(iface.ipv6_addresses, vec!["fe80::1".to_string()]);

    let disk = GuestAgentService::disk_info("/".to_string(), None, Some("ext4".to_string()), Some(10), Some(30));
    assert_eq!(disk.free_bytes, 0);
    assert_eq!(disk.device, "unknown");

    let user = GuestAgentService::guest_user(None, 5);
    assert_eq!(user.username, "unknown");
    let tz = GuestAgentService::timezone(None, Some(3600));
    assert_eq!(tz.zone, "UTC");
    assert_eq!(tz.offset, 3600);
}

#[test]
fn exec_results_and_disk_statistics() {
    let r = GuestAgentService::exec_result(None, Some("b2s="), Some("!!"));
    assert_eq!(r.exit_code, -1);
    assert_eq!(r.stdout, "ok");
    assert_eq!(r.stderr, "");

    let stats = GuestAgentService::disk_stats(vec![
        DiskStatsFields { name: Some("vda".to_string()), read_sectors: Some(2), write_sectors: None, read_ios: Some(1), write_ios: Some(2) },
        DiskStatsFields { name: Some("loop0".to_string()), read_sectors: Some(2), write_sectors: None, read_ios: None, write_ios: None },
        DiskStatsFields { name: Some("dm-1".to_string()), read_sectors: None, write_sectors: None, read_ios: None, write_ios: None },
    ]);
    assert_eq!(stats.disks.len(), 1);
    assert_eq!(stats.disks[0].read_bytes, 1024);

    let cpu = |user, idle| CpuStats { cpu: 0, user, system: 1, idle, iowait: 0, steal: 0, nice: 0, irq: 0, softirq: 0, guest: 9 };
    let totals = GuestAgentService::cpu_totals(&vec![cpu(10, 5), cpu(20, 5)]);
    assert_eq!(totals, (30, 2, 10, 42));
}

#[test]
fn issuing_checks_the_inputs_before_the_clock() {
    let mut service = ConfirmationService::default();
    assert!(matches!(service.issue(&context(None), DIGEST), Err(AppError::InvalidConfig(_))));
    assert!(matches!(service.issue(&context(Some("vm")), "xyz"), Err(AppError::InvalidConfig(_))));
    let late = at(8210266876799 - 60);
    assert!(matches!(service.issue_default_at(&context(None), DIGEST, late), Err(AppError::InvalidConfig(_))));
    assert!(matches!(
        service.issue_default_at(&context(Some("vm")), DIGEST, late),
        Err(AppError::Other(m)) if m == "The current time is outside the supported range"
    ));
    let preview = service.issue_default_at(&context(Some("vm")), DIGEST, at(1000)).unwrap();
    assert_eq!(preview.token.len(), 36);
    assert_eq!(preview.confirmation.expires_at, "1970-01-01T00:18:40+00:00");
}
