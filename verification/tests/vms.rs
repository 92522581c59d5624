use kvm_manager::template::{CreateTemplateRequest, TemplateService, VmTemplate};
use kvm_manager::connection::{ConnectionType, SavedConnection};
use kvm_manager::error::AppError;
use kvm_manager::vm::{
    fmt_hex, VmConfig, VmService, LIBVIRT_TPM_UNDEFINE_MIN_VERSION, UNDEFINE_MANAGED_SAVE,
    UNDEFINE_NVRAM, UNDEFINE_SNAPSHOTS_METADATA, UNDEFINE_TPM,
};

fn config() -> VmConfig {
    VmConfig {
        name: "web01".to_string(),
        os_type: "linux".to_string(),
        cpu_count: 4,
        cpu_sockets: 1,
        cpu_cores: 2,
        cpu_threads: 2,
        memory_mb: 2048,
        disk_size_gb: 20,
        disk_format: "qcow2".to_string(),
        network: "default".to_string(),
        firmware: "bios".to_string(),
        chipset: "pc".to_string(),
        tpm_enabled: false,
        installation_type: "iso".to_string(),
        iso_path: None,
        existing_disk_path: None,
        network_install_url: None,
        storage_pool_id: Some("pool".to_string()),
        boot_order: Vec::new(),
        boot_menu: false,
        graphics_type: "vnc".to_string(),
        video_model: "virtio".to_string(),
        direct_kernel_boot: false,
        kernel_path: None,
        initrd_path: None,
        kernel_args: None,
        dtb_path: None,
        pci_devices: Vec::new(),
        rng_enabled: false,
        watchdog_model: None,
        watchdog_action: "reset".to_string(),
        hugepages_enabled: false,
        hugepage_size: None,
        cloud_init: None,
    }
}

#[test]
fn deletion_flags_remove_uefi_and_managed_save_state_on_supported_libvirt_versions() {
    let flags = VmService::deletion_undefine_flags(LIBVIRT_TPM_UNDEFINE_MIN_VERSION - 1);

    assert_ne!(flags & UNDEFINE_NVRAM, 0);
    assert_ne!(flags & UNDEFINE_MANAGED_SAVE, 0);
    assert_eq!(flags & UNDEFINE_TPM, 0);
    assert_eq!(flags & UNDEFINE_SNAPSHOTS_METADATA, 0);
}

#[test]
fn deletion_flags_remove_tpm_state_when_the_daemon_supports_it() {
    let flags = VmService::deletion_undefine_flags(LIBVIRT_TPM_UNDEFINE_MIN_VERSION);

    assert_ne!(flags & UNDEFINE_NVRAM, 0);
    assert_ne!(flags & UNDEFINE_TPM, 0);
    assert_eq!(flags & UNDEFINE_SNAPSHOTS_METADATA, 0);
}

#[test]
fn deletion_disk_discovery_excludes_attached_iso_media() {
    let xml = r#"
            <domain type='kvm'>
              <name>windows-test</name>
              <devices>
                <disk type='file' device='disk'>
                  <source file='/var/lib/libvirt/images/windows-test.qcow2'/>
                  <target dev='vda' bus='virtio'/>
                </disk>
                <disk type='file' device='cdrom'>
                  <source file='/home/user/Downloads/windows.iso'/>
                  <target dev='sda' bus='sata'/>
                  <readonly/>
                </disk>
              </devices>
            </domain>
        "#;

    assert_eq!(
        VmService::extract_disk_paths(xml),
        vec!["/var/lib/libvirt/images/windows-test.qcow2"]
    );
}

#[test]
fn vm_names_are_limited_to_a_safe_alphabet() {
    assert!(VmService::validate_vm_name("web-01.example_a").is_ok());
    assert!(VmService::validate_vm_name("").is_err());
    assert!(VmService::validate_vm_name("web 01").is_err());
    assert!(VmService::validate_vm_name(&"a".repeat(129)).is_err());
    assert!(VmService::validate_vm_name(&"a".repeat(128)).is_ok());
}

#[test]
fn choice_accepts_only_listed_values() {
    assert_eq!(VmService::choice("q35", "Chipset", &["pc", "q35"]).unwrap(), "q35");
    assert!(matches!(
        VmService::choice("isapc", "Chipset", &["pc", "q35"]),
        Err(AppError::InvalidConfig(m)) if m == "Chipset is not supported"
    ));
}

#[test]
fn vm_requests_are_validated_before_anything_is_created() {
    assert!(VmService::validate_vm_request(&config()).is_ok());
    let mut c = config();
    c.cpu_count = 3;
    assert!(VmService::validate_vm_request(&c).is_err());
    let mut c = config();
    c.firmware = "coreboot".to_string();
    assert!(VmService::validate_vm_request(&c).is_err());
    let mut c = config();
    c.installation_type = "network".to_string();
    c.network_install_url = Some("file:///srv".to_string());
    assert!(VmService::validate_vm_request(&c).is_err());
    c.network_install_url = Some("https://mirror/".to_string());
    assert!(VmService::validate_vm_request(&c).is_ok());
}

#[test]
fn pci_addresses_are_parsed_strictly() {
    assert_eq!(
        VmService::parse_pci_address("0000:01:00.1").unwrap(),
        (0, 1, 0, 1)
    );
    assert_eq!(
        VmService::parse_pci_address("abcd:ef:1f.7").unwrap(),
        (0xabcd, 0xef, 0x1f, 7)
    );
    assert!(VmService::parse_pci_address("0000:01:00.8").is_err());
    assert!(VmService::parse_pci_address("0000:01:00").is_err());
    assert!(VmService::parse_pci_address("000g:01:00.1").is_err());
    assert!(VmService::parse_pci_address("00:0:01:00.1").is_err());
}

#[test]
fn hexadecimal_is_zero_padded_and_lower_case() {
    assert_eq!(fmt_hex(0xab, 4), "00ab");
    assert_eq!(fmt_hex(255, 2), "ff");
    assert_eq!(fmt_hex(7, 1), "7");
}

#[test]
fn domain_definition_of_a_plain_bios_vm() {
    let xml = VmService::domain_definition(&config(), "qcow2", "/images/web01.qcow2", "").unwrap();
    assert!(xml.starts_with("<domain type='kvm'>\n  <name>web01</name>\n  <memory unit='MiB'>4096</memory>\n  <currentMemory unit='MiB'>2048</currentMemory>\n\n  <vcpu>4</vcpu>\n  <cpu>\n    <topology sockets='1' cores='2' threads='2'/>\n  </cpu>\n  <os>\n    <type arch='x86_64' machine='pc'>hvm</type>\n\n    <boot dev='hd'/>\n"));
    assert!(xml.contains("<source file='/images/web01.qcow2'/>"));
    assert!(xml.contains("<graphics type='vnc' port='-1' autoport='yes'/>"));
    assert!(!xml.contains("<features>"));
    assert!(xml.ends_with("  </devices>\n</domain>"));
}

#[test]
fn domain_definition_of_a_uefi_q35_vm_with_devices() {
    let mut c = config();
    c.firmware = "uefi-secure".to_string();
    c.chipset = "q35".to_string();
    c.iso_path = Some("/isos/install & go.iso".to_string());
    c.tpm_enabled = true;
    c.pci_devices = vec!["0000:0a:00.1".to_string()];
    c.watchdog_model = Some("i6300esb".to_string());
    c.hugepages_enabled = true;
    c.hugepage_size = Some(2048);
    c.memory_mb = 100000;
    c.graphics_type = "spice".to_string();
    let xml = VmService::domain_definition(&c, "raw", "/dev/vg/web", "").unwrap();
    assert!(xml.contains("<memory unit='MiB'>131072</memory>"));
    assert!(xml.contains("<page size='2048' unit='KiB'/>"));
    assert!(xml.contains("  <os firmware='efi'>\n    <type arch='x86_64' machine='q35'>hvm</type>\n    <firmware><feature enabled='yes' name='secure-boot'/><feature enabled='yes' name='enrolled-keys'/></firmware>\n    <boot dev='cdrom'/>\n    <boot dev='hd'/>\n"));
    assert!(xml.contains("<source file='/isos/install &amp; go.iso'/>\n      <target dev='sda' bus='sata'/>"));
    assert!(xml.contains("<address domain='0x0000' bus='0x0a' slot='0x00' function='0x1'/>"));
    assert!(xml.contains("<tpm model='tpm-tis'>"));
    assert!(xml.contains("<watchdog model='i6300esb' action='reset'/>"));
    assert!(xml.contains("<features>\n    <acpi/>\n    <apic/>\n  </features>"));
}

#[test]
fn domain_definition_rejects_bad_devices() {
    let mut c = config();
    c.boot_order = vec!["usb".to_string()];
    assert!(VmService::domain_definition(&c, "qcow2", "/d", "").is_err());
    let mut c = config();
    c.pci_devices = vec!["bogus".to_string()];
    assert!(VmService::domain_definition(&c, "qcow2", "/d", "").is_err());
    let mut c = config();
    c.watchdog_model = Some("i6300esb".to_string());
    c.watchdog_action = "explode".to_string();
    assert!(VmService::domain_definition(&c, "qcow2", "/d", "").is_err());
}

#[test]
fn direct_kernel_boot_lines_skip_empty_values() {
    let mut c = config();
    c.direct_kernel_boot = true;
    c.kernel_path = Some("/boot/vmlinuz".to_string());
    c.initrd_path = Some(String::new());
    c.kernel_args = Some("console=ttyS0 root=/dev/vda1".to_string());
    let xml = VmService::domain_definition(&c, "qcow2", "/d", "").unwrap();
    assert!(xml.contains("\n    <kernel>/boot/vmlinuz</kernel>\n    <cmdline>console=ttyS0 root=/dev/vda1</cmdline>\n  </os>"));
}

#[test]
fn system_disk_volume_is_named_after_the_vm() {
    let (name, bytes, xml) = VmService::disk_volume(&config()).unwrap();
    assert_eq!(name, "web01.qcow2");
    assert_eq!(bytes, 20 << 30);
    assert!(xml.contains("<name>web01.qcow2</name>"));
    let mut c = config();
    c.disk_size_gb = 0;
    assert!(VmService::disk_volume(&c).is_err());
}

#[test]
fn imported_disk_format_follows_the_extension() {
    assert_eq!(VmService::import_disk_format("/a/b.img", "qcow2"), "raw");
    assert_eq!(VmService::import_disk_format("/a/b.qed", "raw"), "qed");
    assert_eq!(VmService::import_disk_format("/a/b", "vmdk"), "vmdk");
}

#[test]
fn attribute_values_are_read_in_either_quote_style() {
    assert_eq!(
        VmService::extract_xml_attribute("<mac address='52:54:00:00:00:01'/>", "address").as_deref(),
        Some("52:54:00:00:00:01")
    );
    assert_eq!(
        VmService::extract_xml_attribute("<target dev=\"vnet0\"/>", "dev").as_deref(),
        Some("vnet0")
    );
    assert_eq!(VmService::extract_xml_attribute("<target/>", "dev"), None);
}

#[test]
fn pool_path_and_source_file_lookups() {
    assert_eq!(
        VmService::extract_pool_path("<pool><target><path>/p</path></target></pool>").as_deref(),
        Some("/p")
    );
    assert_eq!(VmService::extract_pool_path("<pool/>"), None);
    assert_eq!(
        VmService::extract_source_file("<disk><source file=\"/x.img\"/></disk>").as_deref(),
        Some("/x.img")
    );
}

#[test]
fn size_labels_and_migration_values() {
    assert_eq!(VmService::format_size_kb(2048), "2 MB");
    assert_eq!(VmService::format_size_kb(1048576), "1 GB");
    assert_eq!(VmService::format_size_kb(512), "512 KB");
    assert_eq!(VmService::live_migration_flags(false), 25);
    assert_eq!(VmService::live_migration_flags(true), 537);
    let info = VmService::migration_info(4 * 1024 * 1024, true, 10);
    assert_eq!(info.memory_mb, 4096);
    assert_eq!(info.estimated_downtime_ms, 100);
}

#[test]
fn migration_targets_are_the_remote_saved_connections() {
    let saved = vec![
        SavedConnection::local(),
        SavedConnection {
            id: "r1".to_string(),
            name: "Remote".to_string(),
            connection_type: ConnectionType::Tcp,
            hypervisor: "qemu".to_string(),
            host: Some("host1".to_string()),
            username: None,
            ssh_port: None,
            tls_port: None,
            auto_connect: false,
            path: "system".to_string(),
        },
    ];
    let targets = VmService::get_migration_targets(&saved);
    assert_eq!(targets.len(), 1);
    assert_eq!(targets[0].0, "r1");
    assert_eq!(targets[0].1, saved[1].build_uri());
}

// ---------------------------------------------------------------------------
// Creation readiness
// ---------------------------------------------------------------------------

use kvm_manager::creation_readiness::GuestCapabilityReview;
use kvm_manager::host_readiness::HostReadinessService;
use kvm_manager::operation::{CapabilityState, ConnectionScope, OperationContext, OperationKind};
use kvm_manager::storage::{PoolState, PoolType, StoragePool, StorageReadinessState};

const KVM_CAPS: &str = "<domainCapabilities><domain>kvm</domain><os><loader supported='yes'><value>efi</value><enum name='secureBoot'><value>yes</value></enum><enum name='enrolledKeys'><value>yes</value></enum></loader></os><devices><tpm supported='yes'/></devices></domainCapabilities>";

fn remote_context() -> OperationContext {
    OperationContext {
        operation_id: "op".to_string(),
        operation_kind: OperationKind::Query,
        connection_id: "lab".to_string(),
        connection_label: "Lab".to_string(),
        connection_scope: ConnectionScope::Remote,
        capabilities: Vec::new(),
        target: None,
        captured_at: "t".to_string(),
    }
}

fn pool(id: &str, active: bool, available: u64) -> StoragePool {
    StoragePool {
        id: id.to_string(),
        name: id.to_string(),
        state: if active { PoolState::Active } else { PoolState::Inactive },
        pool_type: PoolType::Dir,
        capacity_bytes: available * 2,
        allocation_bytes: available,
        available_bytes: available,
        path: "/var/lib/libvirt/images".to_string(),
        autostart: true,
    }
}

fn kinds(review: &GuestCapabilityReview) -> Vec<String> {
    review.capabilities.iter().map(|c| c.kind.clone()).collect()
}

#[test]
fn a_remote_connection_with_kvm_and_storage_is_ready() {
    let pools = vec![pool("pool", true, 100 * 1073741824)];
    let r = HostReadinessService::connection_report(
        &remote_context(),
        None,
        KVM_CAPS,
        &pools,
        Some(20 * 1073741824),
        Some("pool"),
        false,
        "2024-01-01T00:00:00+00:00".to_string(),
    );
    assert_eq!(r.overall_state, "ready");
    assert_eq!(r.distribution.display_name, "Remote connection");
    let ks: Vec<&str> = r.capabilities.iter().map(|c| c.kind.as_str()).collect();
    assert_eq!(ks, vec!["libvirt_access", "virtualization", "uefi", "secure_boot", "tpm", "storage"]);
    assert_eq!(r.storage.state, StorageReadinessState::Ready);
}

#[test]
fn missing_storage_degrades_the_report_and_gets_an_action() {
    let pools = vec![pool("small", true, 1073741824)];
    let r = HostReadinessService::connection_report(
        &remote_context(),
        None,
        "<domainCapabilities/>",
        &pools,
        Some(20 * 1073741824),
        None,
        false,
        "t".to_string(),
    );
    assert_eq!(r.overall_state, "degraded");
    let storage = r.capabilities.iter().find(|c| c.kind == "storage").unwrap();
    assert_eq!(storage.state, CapabilityState::Unavailable);
    assert!(storage.repair_action.is_some());
    let virt = r.capabilities.iter().find(|c| c.kind == "virtualization").unwrap();
    assert_eq!(virt.state, CapabilityState::Unavailable);
}

#[test]
fn a_guest_review_redoes_firmware_checks_and_adds_the_network() {
    let mut c = config();
    c.firmware = "uefi".to_string();
    c.tpm_enabled = true;
    let pools = vec![pool("pool", true, 100 * 1073741824)];
    let review = HostReadinessService::preflight(
        &remote_context(),
        &c,
        None,
        KVM_CAPS,
        &pools,
        "<domainCapabilities/>",
        true,
        false,
        "t".to_string(),
    )
    .unwrap();
    assert_eq!(
        kinds(&review),
        vec!["libvirt_access", "virtualization", "storage", "uefi", "secure_boot", "tpm", "network"]
    );
    let uefi = review.capabilities.iter().find(|c| c.kind == "uefi").unwrap();
    assert_eq!(uefi.details.as_deref(), Some("Required by the selected guest configuration."));
    assert!(!review.can_create);
    assert_eq!(review.requirements.network.as_deref(), Some("default"));

    c.firmware = "bios".to_string();
    c.tpm_enabled = false;
    let ok = HostReadinessService::preflight(
        &remote_context(),
        &c,
        None,
        KVM_CAPS,
        &pools,
        KVM_CAPS,
        true,
        false,
        "t".to_string(),
    )
    .unwrap();
    assert!(ok.can_create);
}

#[test]
fn a_guest_without_a_network_or_storage_cannot_be_created() {
    let mut c = config();
    c.network = "  ".to_string();
    let review = HostReadinessService::preflight(
        &remote_context(),
        &c,
        None,
        KVM_CAPS,
        &[],
        KVM_CAPS,
        false,
        false,
        "t".to_string(),
    )
    .unwrap();
    assert!(review.requirements.network.is_none());
    assert!(!kinds(&review).contains(&"network".to_string()));
    assert!(!review.can_create);

    c.installation_type = "import".to_string();
    let import = HostReadinessService::preflight(
        &remote_context(),
        &c,
        None,
        KVM_CAPS,
        &[],
        KVM_CAPS,
        false,
        false,
        "t".to_string(),
    )
    .unwrap();
    assert!(import.can_create);

    c.installation_type = "iso".to_string();
    c.disk_size_gb = 0;
    assert!(HostReadinessService::preflight(
        &remote_context(),
        &c,
        None,
        KVM_CAPS,
        &[],
        KVM_CAPS,
        false,
        false,
        "t".to_string(),
    )
    .is_err());
}


#[test]
fn templates_are_read_back_after_creation_and_gone_after_deletion() {
    let mut svc = TemplateService::from_templates(Vec::new());
    let id = svc
        .create_template(
            CreateTemplateRequest { name: "base".to_string(), description: "d".to_string(), config: config() },
            100,
        )
        .id
        .clone();
    let t = svc.get_template(&id).unwrap();
    assert_eq!(t.name, "base");
    assert_eq!(t.created_at, 100);
    assert_eq!(t.updated_at, 100);
    assert!(svc.delete_template(&id).is_ok());
    assert!(matches!(svc.get_template(&id), Err(AppError::TemplateError(_))));
}

fn template(id: &str, name: &str) -> VmTemplate {
    VmTemplate {
        id: id.to_string(),
        name: name.to_string(),
        description: String::new(),
        config: config(),
        created_at: 1,
        updated_at: 1,
    }
}

#[test]
fn a_later_template_with_the_same_id_replaces_the_earlier_one() {
    let mut svc = TemplateService::from_templates(vec![template("a", "first"), template("b", "other"), template("a", "second")]);
    assert_eq!(svc.get_template("a").unwrap().name, "second");
    assert_eq!(svc.list_templates().len(), 2);
    svc.delete_template("a").unwrap();
    assert!(svc.get_template("a").is_err());
    assert_eq!(svc.get_template("b").unwrap().name, "other");
}

#[test]
fn the_system_disk_of_a_new_vm() {
    let e = VmService::creation_disk_source("import", None, false, None).unwrap_err();
    assert_eq!(e.message(), "Import installation type requires existing_disk_path");
    let e = VmService::creation_disk_source("import", Some("/x.qcow2".to_string()), false, None).unwrap_err();
    assert_eq!(e.message(), "Existing disk image not found: /x.qcow2");
    assert!(matches!(
        VmService::creation_disk_source("import", Some("/x.qcow2".to_string()), true, None),
        Ok(kvm_manager::vm_create::DiskSource::Existing(p)) if p == "/x.qcow2"
    ));
    let e = VmService::creation_disk_source("iso", None, false, None).unwrap_err();
    assert_eq!(e.message(), "Select an active storage pool with enough available capacity");
    assert!(matches!(
        VmService::creation_disk_source("iso", None, false, Some("p1".to_string())),
        Ok(kvm_manager::vm_create::DiskSource::NewVolume(p)) if p == "p1"
    ));
    assert_eq!(
        VmService::creation_pool_state(false, false).unwrap_err().message(),
        "The selected storage pool is no longer available on this connection"
    );
    assert!(matches!(VmService::creation_pool_state(true, false), Err(AppError::Unavailable(_))));
    assert!(VmService::creation_pool_state(true, true).is_ok());
    assert_eq!(
        VmService::creation_capacity(10, 20).unwrap_err().message(),
        "The selected storage pool no longer has enough available capacity"
    );
    assert!(VmService::creation_capacity(20, 20).is_ok());
}
