use kvm_manager::clone::{CloneStep};
use kvm_manager::disk_settings::{DiskSettingsUpdate, DiskUpdatePlan};
use kvm_manager::error::AppError;
use kvm_manager::nic::affect_flags;
use kvm_manager::vm::VmService;

const DOMAIN: &str = "<domain type='kvm'>
  <name>web</name>
  <devices>
    <disk type='file' device='disk'>
      <driver name='qemu' type='qcow2' cache='none' io='native' discard='unmap'/>
      <source file='/var/lib/libvirt/images/web.qcow2'/>
      <target dev='vda' bus='virtio'/>
      <iotune>
        <read_iops_sec>500</read_iops_sec>
        <write_bytes_sec>1048576</write_bytes_sec>
      </iotune>
    </disk>
    <disk type='file' device='cdrom'>
      <source file='/iso/install.iso'/>
      <target dev='sda' bus='sata'/>
    </disk>
    <interface type='network'>
      <mac address='52:54:00:AA:bb:cc'/>
      <source network='default'/>
      <target dev='vnet0'/>
      <model type='virtio'/>
      <bandwidth>
        <inbound average='1000' peak='2000' burst='512'/>
        <outbound average='800'/>
      </bandwidth>
    </interface>
    <interface type='bridge'>
      <mac address='52:54:00:11:22:33'/>
      <source bridge='br0'/>
    </interface>
  </devices>
</domain>";

const DOMIFADDR: &str = " Name       MAC address          Protocol     Address
-------------------------------------------------------------------------------
 vnet0      52:54:00:AA:BB:CC    ipv4         192.168.122.35/24
";

fn no_changes() -> DiskSettingsUpdate {
    DiskSettingsUpdate {
        cache: None,
        io: None,
        discard: None,
        detect_zeroes: None,
        read_iops_sec: None,
        write_iops_sec: None,
        read_bytes_sec: None,
        write_bytes_sec: None,
    }
}

#[test]
fn domifaddr_pairs_lower_case_the_mac_and_drop_the_prefix() {
    let ips = VmService::parse_interface_ips(DOMIFADDR);
    assert_eq!(ips, vec![("52:54:00:aa:bb:cc".to_string(), "192.168.122.35".to_string())]);
    assert!(VmService::parse_interface_ips("header\n----\n").is_empty());
}

#[test]
fn interfaces_are_read_with_addresses_and_limits() {
    let ips = VmService::parse_interface_ips(DOMIFADDR);
    let nics = VmService::get_vm_network_interfaces(DOMAIN, &ips);
    assert_eq!(nics.len(), 2);
    assert_eq!(nics[0].name, "vnet0");
    assert_eq!(nics[0].mac_address, "52:54:00:AA:bb:cc");
    assert_eq!(nics[0].mac, nics[0].mac_address);
    assert_eq!(nics[0].network, "default");
    assert_eq!(nics[0].ip_address.as_deref(), Some("192.168.122.35"));
    assert_eq!(nics[0].model_type.as_deref(), Some("virtio"));
    assert_eq!(nics[0].inbound_average, Some(1000));
    assert_eq!(nics[0].inbound_peak, Some(2000));
    assert_eq!(nics[0].inbound_burst, Some(512));
    assert_eq!(nics[0].outbound_average, Some(800));
    assert_eq!(nics[0].outbound_peak, None);
    assert_eq!(nics[1].name, "nic2");
    assert_eq!(nics[1].network, "bridge:br0");
    assert_eq!(nics[1].ip_address, None);
    assert_eq!(nics[1].model_type, None);
}

#[test]
fn disks_skip_cdroms_and_read_driver_and_iotune() {
    let disks = VmService::get_vm_disks(DOMAIN);
    assert_eq!(disks.len(), 1);
    let d = &disks[0];
    assert_eq!(d.device, "vda");
    assert_eq!(d.path, "/var/lib/libvirt/images/web.qcow2");
    assert_eq!(d.disk_type, "file");
    assert_eq!(d.bus, "virtio");
    assert_eq!(d.cache.as_deref(), Some("none"));
    assert_eq!(d.io.as_deref(), Some("native"));
    assert_eq!(d.discard.as_deref(), Some("unmap"));
    assert_eq!(d.detect_zeroes, None);
    assert_eq!(d.read_iops_sec, Some(500));
    assert_eq!(d.write_iops_sec, None);
    assert_eq!(d.write_bytes_sec, Some(1048576));
}

#[test]
fn disk_settings_reject_unknown_modes() {
    let mut u = no_changes();
    u.cache = Some("bogus".to_string());
    match VmService::validate_disk_settings(&u) {
        Err(AppError::InvalidConfig(m)) => assert_eq!(
            m,
            "Invalid cache mode 'bogus'. Must be one of: [\"none\", \"writeback\", \"writethrough\", \"directsync\", \"unsafe\"]"
        ),
        other => panic!("unexpected {other:?}"),
    }
    let mut ok = no_changes();
    ok.cache = Some("writeback".to_string());
    ok.io = Some("io_uring".to_string());
    ok.discard = Some("ignore".to_string());
    assert!(VmService::validate_disk_settings(&ok).is_ok());
    let mut bad_io = no_changes();
    bad_io.io = Some("aio".to_string());
    assert!(VmService::validate_disk_settings(&bad_io).is_err());
}

#[test]
fn running_vm_only_takes_throttling() {
    let mut throttle = no_changes();
    throttle.read_iops_sec = Some(100);
    throttle.write_bytes_sec = Some(2048);
    match VmService::disk_update_plan("web", "vda", &throttle, true).unwrap() {
        DiskUpdatePlan::Throttle(args) => assert_eq!(
            args,
            vec!["blkdeviotune", "web", "vda", "--read-iops-sec", "100", "--write-bytes-sec", "2048", "--live", "--config"]
        ),
        other => panic!("unexpected {other:?}"),
    }
    let mut cache = no_changes();
    cache.cache = Some("none".to_string());
    assert!(matches!(VmService::disk_update_plan("web", "vda", &cache, true), Err(AppError::InvalidConfig(_))));
    assert!(matches!(VmService::disk_update_plan("web", "vda", &cache, false), Ok(DiskUpdatePlan::Redefine)));
    assert!(matches!(VmService::disk_update_plan("web", "vda", &no_changes(), true), Ok(DiskUpdatePlan::Nothing)));
}

#[test]
fn tags_round_trip_through_the_metadata() {
    let xml = "<domain>\n  <name>web</name>\n</domain>";
    assert!(VmService::get_vm_tags(xml).is_empty());
    let tagged = VmService::add_vm_tags(xml, vec!["prod".to_string(), "db".to_string(), "prod".to_string()]);
    assert_eq!(VmService::get_vm_tags(&tagged), vec!["prod".to_string(), "db".to_string()]);
    let more = VmService::add_vm_tags(&tagged, vec!["db".to_string(), "eu".to_string()]);
    assert_eq!(VmService::get_vm_tags(&more), vec!["prod".to_string(), "db".to_string(), "eu".to_string()]);
    let cleared = VmService::remove_vm_tags(&more, &vec!["prod".to_string(), "db".to_string(), "eu".to_string()]);
    assert!(!cleared.contains("<metadata>"));
    assert!(VmService::get_vm_tags(&cleared).is_empty());
}

#[test]
fn tags_read_back_from_an_existing_metadata_element() {
    let xml = "<domain>\n  <metadata>\n    <other/>\n  </metadata>\n  <name>web</name>\n</domain>";
    assert!(VmService::get_vm_tags(xml).is_empty());
    let tagged = VmService::add_vm_tags(xml, vec!["a b".to_string(), "<x>".to_string()]);
    assert_eq!(VmService::get_vm_tags(&tagged), vec!["a b".to_string(), "<x>".to_string()]);
    assert!(tagged.ends_with("</metadata>\n  <name>web</name>\n</domain>"));
    // With tags left over, the remaining ones are merged into the current ones.
    let partly = VmService::remove_vm_tags(&tagged, &vec!["a b".to_string()]);
    assert_eq!(VmService::get_vm_tags(&partly), vec!["a b".to_string(), "<x>".to_string()]);
}

#[test]
fn clone_disk_names_and_commands() {
    assert_eq!(VmService::clone_disk_filename("copy", 0, 1, Some("qcow2".to_string())), "copy.qcow2");
    assert_eq!(VmService::clone_disk_filename("copy", 1, 2, Some("img".to_string())), "copy-disk1.img");
    assert_eq!(VmService::clone_disk_filename("copy", 0, 1, None), "copy.qcow2");
    assert_eq!(
        VmService::clone_disk_target("copy", 0, 1, "/var/lib/libvirt/images/web.raw", None),
        "/var/lib/libvirt/images/copy.raw"
    );
    assert_eq!(
        VmService::clone_disk_target(
            "copy",
            0,
            1,
            "/var/lib/libvirt/images/web.qcow2",
            Some("<pool><target><path>/data</path></target></pool>".to_string())
        ),
        "/data/copy.qcow2"
    );
    let (backing, full) = VmService::clone_disk_commands("/a.qcow2", "/b.qcow2");
    assert_eq!(backing, vec!["create", "-f", "qcow2", "-F", "qcow2", "-b", "/a.qcow2", "/b.qcow2"]);
    assert_eq!(full, vec!["convert", "-O", "qcow2", "/a.qcow2", "/b.qcow2"]);
}

#[test]
fn clone_failures_ask_for_inspection_when_cleanup_fails() {
    assert!(VmService::clone_precheck(true).is_err());
    assert!(VmService::clone_precheck(false).is_ok());
    assert!(matches!(VmService::clone_failure(CloneStep::Copy, true), AppError::Other(m) if m == "Disk clone failed"));
    assert!(matches!(VmService::clone_failure(CloneStep::Copy, false), AppError::Partial(_)));
    assert!(matches!(VmService::clone_failure(CloneStep::Define, true), AppError::LibvirtError(_)));
    assert!(matches!(VmService::clone_failure(CloneStep::Snapshots, true), AppError::Partial(_)));
    assert_eq!(
        VmService::clone_snapshot_description(Some("<description>kept</description>".to_string()), "src"),
        "kept"
    );
    assert_eq!(VmService::clone_snapshot_description(None, "src"), "Cloned from src");
    let plain = VmService::plain_clone_config("copy");
    assert!(!plain.clone_disks && !plain.clone_snapshots);
}

#[test]
fn interface_devices_follow_their_type() {
    assert_eq!(VmService::mac_from_nanos(0x0a123456), "52:54:00:12:34:56");
    assert_eq!(
        VmService::interface_definition("default", "virtio", "52:54:00:12:34:56").unwrap(),
        "<interface type='network'>\n  <mac address='52:54:00:12:34:56'/>\n  <source network='default'/>\n  <model type='virtio'/>\n</interface>"
    );
    assert!(VmService::interface_definition("default", "pcnet", "52:54:00:12:34:56").is_err());
    let ovs = VmService::advanced_interface_definition(
        "ovs", "ovsbr0", "virtio", "52:54:00:12:34:56", None, Some(10), None, Some(9000),
    )
    .unwrap();
    assert_eq!(
        ovs,
        "<interface type='bridge'>\n  <mac address='52:54:00:12:34:56'/>\n  <source bridge='ovsbr0'/>\n  <virtualport type='openvswitch'/>\n  <model type='virtio'/>\n  <vlan>\n    <tag id='10'/>\n  </vlan>\n  <mtu size='9000'/>\n</interface>"
    );
    let direct = VmService::advanced_interface_definition(
        "direct", "eth0", "e1000", "52:54:00:12:34:56", None, None, None, None,
    )
    .unwrap();
    assert!(direct.contains("<source dev='eth0' mode='bridge'/>"));
    assert!(VmService::advanced_interface_definition(
        "direct", "eth0", "e1000", "52:54:00:12:34:56", Some("loop"), None, None, None
    )
    .is_err());
    assert!(VmService::advanced_interface_definition(
        "tap", "eth0", "e1000", "52:54:00:12:34:56", None, None, None, None
    )
    .is_err());
    let named = VmService::advanced_interface_definition(
        "network", "lan & dmz", "virtio", "52:54:00:12:34:56", None, None, Some("vlan10"), None,
    )
    .unwrap();
    assert!(named.contains("<source network='lan &amp; dmz' portgroup='vlan10'/>"));
    let (mac, _) = VmService::attach_interface_advanced(
        "bridge", "br0", "virtio", None, None, None, None, None,
    )
    .unwrap();
    assert!(mac.starts_with("52:54:00:"));
    assert_eq!(mac.len(), 17);
    assert!(VmService::attach_interface_advanced("tap", "br0", "virtio", None, None, None, None, None).is_err());
    assert_eq!(affect_flags(true), 3);
    assert_eq!(affect_flags(false), 2);
}
