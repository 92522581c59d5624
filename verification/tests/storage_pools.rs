use kvm_manager::error::AppError;
use kvm_manager::operation::RecoveryActionKind;
use kvm_manager::storage::{
    PoolState, PoolType, StoragePool, StoragePoolConfig, StorageReadinessState, StorageService,
    VolumeConfig,
};

fn pool(id: &str, state: PoolState, available: u64) -> StoragePool {
    StoragePool {
        id: id.to_string(),
        name: format!("pool-{id}"),
        state,
        pool_type: PoolType::Dir,
        capacity_bytes: 100,
        allocation_bytes: 10,
        available_bytes: available,
        path: "/var/lib/libvirt/images".to_string(),
        autostart: true,
    }
}

fn pool_config(pool_type: &str) -> StoragePoolConfig {
    StoragePoolConfig {
        name: "images".to_string(),
        pool_type: pool_type.to_string(),
        target_path: "/srv/images".to_string(),
        autostart: false,
        source_devices: Vec::new(),
        source_host: None,
        source_path: None,
        iscsi_target: None,
        initiator_iqn: None,
        gluster_volume: None,
        rbd_pool: None,
        ceph_monitors: Vec::new(),
        ceph_auth_user: None,
        ceph_auth_secret: None,
    }
}

#[test]
fn disk_bytes_converts_gibibytes_and_refuses_zero_and_overflow() {
    assert_eq!(StorageService::disk_bytes(20).unwrap(), 20 * 1024 * 1024 * 1024);
    assert!(matches!(StorageService::disk_bytes(0), Err(AppError::InvalidConfig(_))));
    assert!(matches!(
        StorageService::disk_bytes(u64::MAX / 1024),
        Err(AppError::InvalidConfig(_))
    ));
}

#[test]
fn pool_choice_explains_why_a_pool_is_not_eligible() {
    let inactive = StorageService::pool_choice(&pool("a", PoolState::Inactive, 500), Some(10));
    assert!(!inactive.eligible);
    assert_eq!(inactive.reason.as_deref(), Some("This storage pool is inactive."));
    let small = StorageService::pool_choice(&pool("b", PoolState::Active, 5), Some(10));
    assert!(!small.eligible);
    assert_eq!(
        small.reason.as_deref(),
        Some("This storage pool does not have enough available capacity.")
    );
    let fine = StorageService::pool_choice(&pool("c", PoolState::Active, 5), None);
    assert!(fine.eligible);
    assert_eq!(fine.reason, None);
}

#[test]
fn assess_pools_walks_through_every_readiness_state() {
    let pools = vec![pool("a", PoolState::Active, 100), pool("b", PoolState::Inactive, 900)];
    let ready = StorageService::assess_pools("conn", &pools, Some(50), Some("a"));
    assert_eq!(ready.state, StorageReadinessState::Ready);
    assert!(ready.recovery_action.is_none());
    assert_eq!(ready.pools.len(), 2);

    let select = StorageService::assess_pools("conn", &pools, Some(50), Some("b"));
    assert_eq!(select.state, StorageReadinessState::SelectionRequired);
    let action = select.recovery_action.unwrap();
    assert_eq!(action.kind, RecoveryActionKind::Reselect);
    assert_eq!(action.label, "Select an eligible storage pool.");
    assert_eq!(action.expected_connection_id.as_deref(), Some("conn"));

    let full = StorageService::assess_pools("conn", &pools, Some(500), None);
    assert_eq!(full.state, StorageReadinessState::InsufficientCapacity);
    assert_eq!(full.recovery_action.unwrap().kind, RecoveryActionKind::Inspect);

    let none = StorageService::assess_pools("conn", &pools[1..], None, None);
    assert_eq!(none.state, StorageReadinessState::Unavailable);
}

#[test]
fn pool_type_and_path_are_read_from_the_definition() {
    let xml = "<pool type='netfs'><name>n</name><target><path>/mnt/n</path></target></pool>";
    assert_eq!(StorageService::extract_pool_type(xml).unwrap(), PoolType::Netfs);
    assert_eq!(StorageService::extract_pool_path(xml).unwrap(), "/mnt/n");
    assert_eq!(
        StorageService::extract_pool_type("<pool type='weird'/>").unwrap(),
        PoolType::Dir
    );
    assert!(StorageService::extract_pool_type("<volume/>").is_err());
    let model = StorageService::pool_to_model(
        "id".to_string(),
        "n".to_string(),
        false,
        1,
        2,
        3,
        xml,
        true,
    )
    .unwrap();
    assert_eq!(model.state, PoolState::Inactive);
    assert_eq!(model.path, "/mnt/n");
}

#[test]
fn volume_format_and_encryption_are_read_from_the_definition() {
    let xml = "<volume><name>v</name><target><format type='qcow2'/><encryption format='luks'><secret type='passphrase' uuid='a1a2a3a4-b1b2-c1c2-d1d2-e1e2e3e4e5e6'/></encryption></target></volume>";
    assert_eq!(StorageService::extract_volume_format(xml).unwrap(), "qcow2");
    let info = StorageService::encryption_info(xml).unwrap();
    assert!(info.encrypted);
    assert_eq!(info.format.as_deref(), Some("luks"));
    assert_eq!(
        info.secret_uuid.as_deref(),
        Some("a1a2a3a4-b1b2-c1c2-d1d2-e1e2e3e4e5e6")
    );
    let plain = StorageService::encryption_info("<volume><name>v</name></volume>").unwrap();
    assert!(!plain.encrypted);
    assert_eq!(
        StorageService::extract_volume_format("<volume><name>v</name></volume>").unwrap(),
        "raw"
    );
}

#[test]
fn volume_definition_escapes_nothing_it_has_not_validated() {
    let config = VolumeConfig {
        name: "disk0".to_string(),
        capacity_gb: 1,
        format: "qcow2".to_string(),
        encrypted: false,
        passphrase: None,
    };
    let xml = StorageService::volume_definition(&config, 1024, None).unwrap();
    assert_eq!(
        xml,
        "<volume>\n  <name>disk0</name>\n  <capacity unit='bytes'>1024</capacity>\n  <target>\n    <format type='qcow2'/>\n  </target>\n</volume>"
    );
    let secret = "0123456789abcdef0123456789ABCDEF";
    let xml = StorageService::volume_definition(&config, 1, Some(secret)).unwrap();
    assert!(xml.contains("<secret type='passphrase' uuid='0123456789abcdef0123456789ABCDEF'/>"));
    assert!(StorageService::volume_definition(&config, 1, Some("not-a-uuid")).is_err());
    let mut bad = config;
    bad.format = "iso".to_string();
    assert!(StorageService::volume_definition(&bad, 1, None).is_err());
}

#[test]
fn volume_secret_definition_names_the_volume() {
    let xml = StorageService::volume_secret_definition(
        "disk0",
        "{a1a2a3a4-b1b2-c1c2-d1d2-e1e2e3e4e5e6}",
    )
    .unwrap();
    assert_eq!(
        xml,
        "<secret ephemeral='no' private='yes'><uuid>{a1a2a3a4-b1b2-c1c2-d1d2-e1e2e3e4e5e6}</uuid><description>LUKS passphrase for volume disk0</description><usage type='volume'><volume>disk0</volume></usage></secret>"
    );
    assert!(StorageService::volume_secret_definition("disk 0", "a1a2a3a4-b1b2-c1c2-d1d2-e1e2e3e4e5e6").is_err());
    assert!(StorageService::volume_secret_definition(
        "disk0",
        "URN:UUID:a1a2a3a4-b1b2-c1c2-d1d2-e1e2e3e4e5e6"
    )
    .is_ok());
}

#[test]
fn volume_requests_need_a_passphrase_of_eight_bytes_when_encrypted() {
    let mut config = VolumeConfig {
        name: "v".to_string(),
        capacity_gb: 2,
        format: "raw".to_string(),
        encrypted: true,
        passphrase: None,
    };
    assert!(StorageService::check_volume_request(&config).is_err());
    config.passphrase = Some("short".to_string());
    assert!(StorageService::check_volume_request(&config).is_err());
    config.passphrase = Some("ééééé".to_string());
    assert_eq!(StorageService::check_volume_request(&config).unwrap(), 2 << 30);
    config.encrypted = false;
    config.capacity_gb = u64::MAX;
    assert!(StorageService::check_volume_request(&config).is_err());
}

#[test]
fn failed_creation_reports_partial_state_when_cleanup_fails() {
    assert!(matches!(StorageService::creation_failure(true), AppError::LibvirtError(_)));
    assert!(matches!(StorageService::creation_failure(false), AppError::Partial(_)));
    assert!(matches!(StorageService::finalization_failure(true, true), AppError::LibvirtError(_)));
    assert!(matches!(StorageService::finalization_failure(true, false), AppError::Partial(_)));
    assert!(matches!(StorageService::finalization_failure(false, true), AppError::Partial(_)));
}

#[test]
fn resize_target_must_grow_the_volume() {
    let gib = 1u64 << 30;
    assert_eq!(StorageService::resize_target(10 * gib, 11).unwrap(), 11 * gib);
    assert!(StorageService::resize_target(10 * gib + 5, 10).is_err());
}

#[test]
fn upload_format_follows_the_extension() {
    assert_eq!(StorageService::upload_format(None, "/tmp/a.qcow2"), "qcow2");
    assert_eq!(StorageService::upload_format(None, "/tmp/a.vhd"), "vpc");
    assert_eq!(StorageService::upload_format(None, "/tmp/a.iso"), "raw");
    assert_eq!(StorageService::upload_format(None, "/tmp/noext"), "raw");
    assert_eq!(StorageService::upload_format(Some("vmdk"), "/tmp/a.qcow2"), "vmdk");
}

#[test]
fn directory_pool_definition() {
    let xml = StorageService::pool_definition(&pool_config("dir")).unwrap();
    assert_eq!(
        xml,
        "<pool type='dir'><name>images</name><target><path>/srv/images</path></target></pool>"
    );
    let mut config = pool_config("dir");
    config.target_path = "   ".to_string();
    assert!(StorageService::pool_definition(&config).is_err());
    assert!(StorageService::pool_definition(&pool_config("zfs")).is_err());
}

#[test]
fn logical_netfs_and_iscsi_pool_definitions() {
    let mut logical = pool_config("logical");
    assert!(StorageService::pool_definition(&logical).is_err());
    logical.source_devices = vec!["/dev/sdb".to_string(), "/dev/sdc".to_string()];
    assert_eq!(
        StorageService::pool_definition(&logical).unwrap(),
        "<pool type='logical'><name>images</name><source><device path='/dev/sdb'/><device path='/dev/sdc'/></source><target><path>/srv/images</path></target></pool>"
    );

    let mut netfs = pool_config("netfs");
    netfs.source_host = Some("nas".to_string());
    assert!(StorageService::pool_definition(&netfs).is_err());
    netfs.source_path = Some("/export/vm's".to_string());
    assert_eq!(
        StorageService::pool_definition(&netfs).unwrap(),
        "<pool type='netfs'><name>images</name><source><host name='nas'/><dir path='/export/vm&apos;s'/><format type='nfs'/></source><target><path>/srv/images</path></target></pool>"
    );

    let mut iscsi = pool_config("iscsi");
    iscsi.source_host = Some("san".to_string());
    iscsi.iscsi_target = Some("iqn.2024-01.example:disk".to_string());
    iscsi.initiator_iqn = Some("iqn.2024-01.example:host".to_string());
    assert_eq!(
        StorageService::pool_definition(&iscsi).unwrap(),
        "<pool type='iscsi'><name>images</name><source><host name='san'/><device path='iqn.2024-01.example:disk'/><initiator><iqn name='iqn.2024-01.example:host'/></initiator></source><target><path>/srv/images</path></target></pool>"
    );
}

#[test]
fn gluster_and_rbd_pool_definitions() {
    let mut gluster = pool_config("gluster");
    gluster.source_host = Some("gl".to_string());
    gluster.gluster_volume = Some("vol0".to_string());
    gluster.source_path = Some(String::new());
    assert_eq!(
        StorageService::pool_definition(&gluster).unwrap(),
        "<pool type='gluster'><name>images</name><source><host name='gl'/><name>vol0</name></source></pool>"
    );

    let mut rbd = pool_config("rbd");
    rbd.rbd_pool = Some("rbd".to_string());
    assert!(StorageService::pool_definition(&rbd).is_err());
    rbd.ceph_monitors = vec!["mon1".to_string(), "mon2".to_string()];
    rbd.ceph_auth_user = Some("admin".to_string());
    rbd.ceph_auth_secret = Some("a1a2a3a4-b1b2-c1c2-d1d2-e1e2e3e4e5e6".to_string());
    assert_eq!(
        StorageService::pool_definition(&rbd).unwrap(),
        "<pool type='rbd'><name>images</name><source><host name='mon1'/><host name='mon2'/><name>rbd</name></source><auth type='ceph' username='admin'><secret uuid='a1a2a3a4-b1b2-c1c2-d1d2-e1e2e3e4e5e6'/></auth></pool>"
    );
    rbd.ceph_auth_user = None;
    assert!(StorageService::pool_definition(&rbd).is_err());
}

#[test]
fn upload_admission_reports_each_cause() {
    assert!(matches!(StorageService::upload_admission(false, 0, 50, true),
        Err(AppError::Unavailable(m)) if m == "The selected storage pool is inactive"));
    assert!(matches!(StorageService::upload_admission(true, 10, 50, true),
        Err(AppError::InvalidConfig(m)) if m == "The selected storage pool does not have enough available capacity"));
    assert!(matches!(StorageService::upload_admission(true, 100, 50, true),
        Err(AppError::InvalidConfig(m)) if m == "A volume with that name already exists in the selected pool"));
}
