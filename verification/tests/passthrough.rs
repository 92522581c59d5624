use kvm_manager::error::AppError;
use kvm_manager::host_readiness::HostReadinessService;
use kvm_manager::mdev::MdevService;
use kvm_manager::metrics::MetricsService;
use kvm_manager::ova::{OvaService, OvaSourceKind};
use kvm_manager::pci::{PciDeviceType, PciService};
use kvm_manager::sriov::{SriovService, SriovVfConfig};
use kvm_manager::storage::StorageService;
use kvm_manager::usb::UsbService;

const OVF: &str = r#"<?xml version="1.0"?>
<Envelope>
  <References>
    <File ovf:id="file1" ovf:href="appliance-disk1.vmdk"/>
  </References>
  <DiskSection>
    <Disk ovf:capacity="17179869184" ovf:diskId="vmdisk1" ovf:fileRef="file1" ovf:format="http://www.vmware.com/interfaces/specifications/vmdk.html#streamOptimized"/>
  </DiskSection>
  <NetworkSection>
    <Network ovf:name="VM Network">
      <Description>The VM Network network</Description>
    </Network>
  </NetworkSection>
  <VirtualSystem ovf:id="appliance">
    <Name>Appliance</Name>
    <OperatingSystemSection ovf:id="94">
      <Description>Ubuntu Linux (64-bit)</Description>
    </OperatingSystemSection>
    <VirtualHardwareSection>
      <Item>
        <rasd:ElementName>2 virtual CPU(s)</rasd:ElementName>
        <rasd:ResourceType>3</rasd:ResourceType>
        <rasd:VirtualQuantity>2</rasd:VirtualQuantity>
      </Item>
      <Item>
        <rasd:ElementName>4096MB of memory</rasd:ElementName>
        <rasd:ResourceType>4</rasd:ResourceType>
        <rasd:VirtualQuantity>4096</rasd:VirtualQuantity>
      </Item>
    </VirtualHardwareSection>
  </VirtualSystem>
</Envelope>"#;

#[test]
fn iommu_status_needs_the_kernel_flag_and_the_groups() {
    let intel = PciService::iommu_status("BOOT_IMAGE=/vmlinuz quiet intel_iommu=on", true);
    assert!(intel.enabled);
    assert_eq!(intel.iommu_type.as_deref(), Some("Intel VT-d"));
    assert_eq!(intel.warning, None);
    let amd = PciService::iommu_status("amd_iommu=on", true);
    assert_eq!(amd.iommu_type.as_deref(), Some("AMD-Vi"));
    let no_groups = PciService::iommu_status("intel_iommu=on", false);
    assert!(!no_groups.enabled);
    assert!(no_groups.warning.is_some());
    assert!(!PciService::iommu_status("quiet", true).enabled);
}

#[test]
fn pci_devices_are_classified_by_class_code() {
    assert_eq!(PciService::classify_device("0x030000"), PciDeviceType::Gpu);
    assert_eq!(PciService::classify_device("0x040300"), PciDeviceType::Audio);
    assert_eq!(PciService::classify_device("0x0c0330"), PciDeviceType::UsbController);
    assert_eq!(PciService::classify_device("0x0c0500"), PciDeviceType::Other);
    assert_eq!(PciService::classify_device("0x020000"), PciDeviceType::NetworkAdapter);
    assert_eq!(PciService::classify_device("0x010802"), PciDeviceType::StorageController);
    assert_eq!(PciService::classify_device("0x1"), PciDeviceType::Other);
    assert_eq!(PciService::get_device_class("0x030200"), "3D controller");
    assert_eq!(PciService::get_device_class("0x0c0330"), "USB controller");
    assert_eq!(PciService::get_device_class("0x0200"), "Ethernet controller");
    assert_eq!(PciService::get_device_class("0x010802"), "NVMe controller");
    assert_eq!(PciService::get_device_class("0xff0000"), "PCI device (class 0xff0000)");
    assert_eq!(PciService::get_device_class("0x"), "Unknown PCI device");
    assert!(PciService::is_passthrough_safe(&PciDeviceType::Gpu, &None));
    assert!(!PciService::is_passthrough_safe(&PciDeviceType::StorageController, &Some("nvme".to_string())));
    assert!(PciService::is_passthrough_safe(&PciDeviceType::StorageController, &Some("vfio-pci".to_string())));
    assert!(!PciService::is_passthrough_safe(&PciDeviceType::Other, &Some("vfio-pci".to_string())));
}

#[test]
fn pci_hostdev_is_found_and_built_from_the_address() {
    let xml = PciService::hostdev_definition("0000:01:00.0", true).unwrap();
    assert_eq!(
        xml,
        "<hostdev mode='subsystem' type='pci' managed='yes'>\n  <source>\n    <address domain='0x0000' bus='0x01' slot='0x00' function='0x0'/>\n  </source>\n</hostdev>"
    );
    assert!(matches!(PciService::hostdev_definition("01:00.0", true), Err(AppError::InvalidConfig(_))));
    let domain = format!("<domain><devices><hostdev mode='subsystem' type='usb'></hostdev>{xml}</devices></domain>");
    assert_eq!(PciService::find_hostdev(&domain, "0000:01:00.0").unwrap(), xml);
    assert!(PciService::find_hostdev(&domain, "0000:02:00.0").is_err());
    let domains = vec![("other".to_string(), "<domain/>".to_string()), ("gpu-vm".to_string(), domain)];
    assert_eq!(PciService::get_attached_vm(&domains, "0000:01:00.0"), Some("gpu-vm".to_string()));
    assert_eq!(PciService::nodedev_name("0000:01:00.0"), "pci_0000_01_00_0");
    assert_eq!(
        PciService::extract_xml_value("<device><vendor> NVIDIA </vendor></device>", "<vendor>"),
        Some("NVIDIA".to_string())
    );
    assert_eq!(PciService::vfio_new_id("0x10de\n", "0x1b80\n"), "10de 1b80");
    let status = PciService::get_vfio_status("0000:01:00.0", Some("vfio-pci".to_string()), true);
    assert!(status.bound_to_vfio && status.can_bind);
    let group = PciService::iommu_group(7, vec!["0000:01:00.0".to_string()]);
    assert!(group.passthrough_safe);
    assert!(!PciService::iommu_group(8, Vec::new()).passthrough_safe);
}

#[test]
fn pci_device_falls_back_to_ids_without_names() {
    let d = PciService::parse_pci_device(
        "0000:01:00.0",
        "0x10de".to_string(),
        "0x1b80".to_string(),
        "0x030000",
        Some("nouveau".to_string()),
        Some(1),
        None,
        None,
    );
    assert_eq!(d.vendor, "Vendor 0x10de");
    assert_eq!(d.device_name, "Device 0x1b80");
    assert_eq!(d.device_class, "VGA compatible controller");
    assert!(d.in_use);
    assert!(d.passthrough_safe);
}

#[test]
fn mdev_status_names_the_vendors() {
    let s = MdevService::mdev_status(true, true, false, true, true);
    assert!(s.supported);
    assert_eq!(s.message, "MDEV supported with: Intel GVT-g, AMD SR-IOV");
    assert_eq!(s.supported_vendors, vec!["Intel GVT-g".to_string(), "AMD SR-IOV".to_string()]);
    let unknown = MdevService::mdev_status(true, false, false, false, true);
    assert_eq!(unknown.supported_vendors, vec!["Unknown".to_string()]);
    assert!(!MdevService::mdev_status(true, false, false, false, false).supported);
    assert!(!MdevService::mdev_status(false, true, true, true, true).supported);
}

#[test]
fn mdev_types_and_devices() {
    let t = MdevService::mdev_type(
        "i915-GVTg_V5_4".to_string(),
        "0000:00:02.0".to_string(),
        "0x8086 0x3e92".to_string(),
        Some("low_gm_size: 128MB\n".to_string()),
        Some("2\n".to_string()),
        None,
        None,
    );
    assert_eq!(t.description.as_deref(), Some("low_gm_size: 128MB"));
    assert_eq!(t.available_instances, 2);
    assert_eq!(t.max_instances, 2);
    assert_eq!(t.device_api, "vfio-pci");
    assert_eq!(MdevService::device_name("0x8086\n", "0x3e92\n"), "0x8086 0x3e92");
    let uuid = "4b20d080-1b54-4048-85b3-a6a62d165c01";
    let x = MdevService::hostdev_definition(uuid);
    assert!(x.contains("<address uuid='4b20d080-1b54-4048-85b3-a6a62d165c01'/>"));
    assert!(MdevService::check_attached(&x, uuid).is_ok());
    assert!(MdevService::check_attached("<domain/>", uuid).is_err());
    let domains = vec![("vm1".to_string(), x.clone())];
    assert_eq!(MdevService::mdev_in_use(&domains, uuid), (true, Some("vm1".to_string())));
    assert_eq!(MdevService::mdev_in_use(&Vec::new(), uuid), (false, None));
    assert_eq!(
        MdevService::create_path("0000:00:02.0", "i915-GVTg_V5_4"),
        "/sys/class/mdev_bus/0000:00:02.0/mdev_supported_types/i915-GVTg_V5_4/create"
    );
    assert_eq!(MdevService::remove_path(uuid), format!("/sys/bus/mdev/devices/{uuid}/remove"));
    assert_eq!(MdevService::new_instance_uuid().len(), 36);
}

#[test]
fn sriov_text_is_read_from_tools_output() {
    assert_eq!(SriovService::link_speed("10000\n").as_deref(), Some("10 Gb/s"));
    assert_eq!(SriovService::link_speed("100").as_deref(), Some("100 Mb/s"));
    assert_eq!(SriovService::link_speed("-1"), None);
    assert_eq!(SriovService::read_count(&Some("8\n".to_string())), 8);
    assert_eq!(SriovService::read_count(&None), 0);
    let lspci = "01:00.0 Ethernet controller: Intel Corporation I350 Gigabit\n\tSubsystem: Intel\n";
    assert_eq!(
        SriovService::get_pci_names(lspci),
        (Some("Intel".to_string()), Some("Corporation I350 Gigabit".to_string()))
    );
    assert_eq!(SriovService::get_pci_names(""), (None, None));
    let ip = "2: eth0: <BROADCAST> mtu 1500\n    vf 0 MAC 52:54:00:12:34:56, vlan 100, spoof checking on, link-state auto\n    vf 1 MAC 52:54:00:aa:bb:cc, spoof checking on\n";
    assert_eq!(SriovService::get_vf_config(ip, 0), (Some("52:54:00:12:34:56".to_string()), Some(100)));
    assert_eq!(SriovService::get_vf_config(ip, 1), (Some("52:54:00:aa:bb:cc".to_string()), None));
}

#[test]
fn sriov_configuration_and_attachment() {
    let args = SriovService::configure_vf_args(&SriovVfConfig {
        pf_interface: "eth0".to_string(),
        vf_index: 3,
        mac_address: Some("52:54:00:12:34:56".to_string()),
        vlan_id: Some(10),
        spoof_check: true,
        trust: false,
    });
    assert_eq!(
        args,
        vec!["link", "set", "eth0", "vf", "3", "mac", "52:54:00:12:34:56", "vlan", "10", "spoofchk", "on", "trust", "off"]
    );
    let x = SriovService::vf_hostdev_definition("0000:03:10.1").unwrap();
    assert_eq!(
        x,
        "<hostdev mode='subsystem' type='pci' managed='yes'>\n  <source>\n    <address domain='0x0000' bus='0x03' slot='0x10' function='0x1'/>\n  </source>\n</hostdev>"
    );
    assert!(SriovService::vf_hostdev_definition("03:10.1").is_err());
    let domains = vec![("net-vm".to_string(), "<hostdev>0000:03:10.1</hostdev>".to_string())];
    assert_eq!(SriovService::get_vf_attachment(&domains, "0000:03:10.1"), (true, Some("net-vm".to_string())));
    let pf = SriovService::physical_function(
        "0000:03:00.0".to_string(),
        7,
        4,
        Some("0x8086\n".to_string()),
        None,
        (None, None),
        Some("eth0".to_string()),
        Some("igb".to_string()),
        None,
        5,
    );
    assert_eq!(pf.vendor, "Vendor 0x8086");
    assert_eq!(pf.device_name, "Device 0x0000");
    assert_eq!(pf.available_vfs, 0);
}

#[test]
fn usb_descriptions_speeds_and_classes() {
    assert_eq!(
        UsbService::parse_description("Logitech, Inc. Unifying Receiver"),
        ("Logitech".to_string(), "Unifying Receiver".to_string())
    );
    assert_eq!(UsbService::parse_description("Generic USB Hub"), ("Generic".to_string(), "USB Hub".to_string()));
    assert_eq!(UsbService::parse_description(""), ("Unknown".to_string(), "Unknown".to_string()));
    assert_eq!(
        UsbService::parse_description("Realtek Semiconductor Corp. RTL8153"),
        ("Realtek Semiconductor".to_string(), "RTL8153".to_string())
    );
    assert_eq!(UsbService::speed_label("480\n"), "480 Mbps (USB 2.0 High Speed)");
    assert_eq!(UsbService::speed_label("42"), "42 Mbps");
    assert_eq!(UsbService::class_label("09\n"), "Hub");
    assert_eq!(UsbService::class_label("42"), "Class 42");
}

#[test]
fn usb_devices_in_use_are_found_in_definitions() {
    let xml = "<devices><hostdev mode='subsystem' type='usb' managed='yes'><source><vendor id='0x046D'/><product id='0xc52b'/></source></hostdev><hostdev type='pci'></hostdev></devices>";
    let used = UsbService::parse_usb_devices_from_xml(xml, "win10");
    assert_eq!(used, vec!["046d:c52b=win10".to_string()]);
    assert_eq!(UsbService::device_usage(&used, "046d", "c52b"), (true, Some("win10".to_string())));
    assert_eq!(UsbService::device_usage(&used, "1234", "5678"), (false, None));
    assert_eq!(UsbService::extract_id_from_xml("<vendor id=\"0x12zz\"/>", "vendor"), None);
    assert!(UsbService::is_valid_hex_id("046d"));
    assert!(!UsbService::is_valid_hex_id("46d"));
    assert!(UsbService::usb_device_definition("046d", "c52b").unwrap().contains("<vendor id='0x046d'/>"));
    assert_eq!(UsbService::usb_device_definition("zzzz", "c52b").unwrap_err(), "Invalid vendor or product ID format");
    assert!(UsbService::attach_precheck(false).is_err());
}

#[test]
fn ovf_descriptor_is_read() {
    let m = OvaService::parse_ovf(OVF);
    assert_eq!(m.name, "Appliance");
    assert_eq!(m.os_type.as_deref(), Some("Ubuntu Linux (64-bit)"));
    assert_eq!(m.cpu_count, 2);
    assert_eq!(m.memory_mb, 4096);
    assert_eq!(m.disks.len(), 1);
    assert_eq!(m.disks[0].id, "vmdisk1");
    assert_eq!(m.disks[0].file_name, "appliance-disk1.vmdk");
    assert_eq!(m.disks[0].capacity_bytes, 17179869184);
    assert_eq!(m.networks.len(), 1);
    assert_eq!(m.networks[0].name, "VM Network");
    assert_eq!(m.networks[0].description.as_deref(), Some("The VM Network network"));
    let bare = OvaService::parse_ovf("<Envelope/>");
    assert_eq!(bare.name, "Imported VM");
    assert_eq!(bare.cpu_count, 1);
    assert_eq!(bare.memory_mb, 1024);
}

#[test]
fn ova_import_steps() {
    assert_eq!(OvaService::source_kind("/tmp/a.OVA").unwrap(), OvaSourceKind::Ova);
    assert_eq!(OvaService::source_kind("/tmp/a.ovf").unwrap(), OvaSourceKind::Ovf);
    assert!(matches!(OvaService::source_kind("/tmp/a.zip"), Err(AppError::InvalidConfig(_))));
    assert_eq!(OvaService::converted_disk_name("web", 0), "web.qcow2");
    assert_eq!(OvaService::converted_disk_name("web", 2), "web-2.qcow2");
    assert!(OvaService::is_disk_member(&vec!["disk1.vmdk".to_string()], "disk1.vmdk"));
    assert!(!OvaService::is_disk_member(&vec!["disk1.vmdk".to_string()], "disk.ovf"));
    assert!(OvaService::is_disk_image_extension("vhdx"));
    assert!(!OvaService::is_disk_image_extension("ovf"));
    assert_eq!(
        OvaService::conversion_args("/in.vmdk", "/out.qcow2"),
        vec!["convert", "-f", "vmdk", "-O", "qcow2", "-o", "compat=1.1", "/in.vmdk", "/out.qcow2"]
    );
    assert!(matches!(OvaService::main_disk(Vec::new()), Err(AppError::NotFound(_))));
    assert_eq!(OvaService::main_disk(vec!["/a".to_string(), "/b".to_string()]).unwrap(), "/a");
}

#[test]
fn metrics_sampling_interval() {
    assert_eq!(MetricsService::sampling_interval(1000, 100), 10);
    assert_eq!(MetricsService::sampling_interval(50, 100), 1);
    assert!(MetricsService::history_query(Some(10)).contains("AND id % 10 = 0"));
    assert!(!MetricsService::history_query(None).contains("id %"));
}

#[test]
fn upload_needs_an_active_pool_with_room() {
    assert!(StorageService::upload_admission(true, 100, 50, false).is_ok());
    assert!(matches!(StorageService::upload_admission(false, 100, 50, false), Err(AppError::Unavailable(_))));
    assert!(matches!(StorageService::upload_admission(true, 10, 50, false), Err(AppError::InvalidConfig(_))));
    assert!(matches!(StorageService::upload_admission(true, 100, 50, true), Err(AppError::InvalidConfig(_))));
    assert!(matches!(StorageService::upload_failure(None, true), AppError::LibvirtError(_)));
    assert!(matches!(StorageService::upload_failure(Some(AppError::Other("x".to_string())), true), AppError::Other(_)));
    assert!(matches!(StorageService::upload_failure(None, false), AppError::Partial(_)));
}

#[test]
fn local_probe_keeps_the_command_results() {
    let probe = HostReadinessService::probe_local(true, false, true, true, false);
    assert!(probe.libvirt_access);
    assert!(!probe.qemu_emulator);
    assert!(probe.kvm && probe.uefi && probe.secure_boot);
    assert!(!probe.forwarding_privilege);
    let report = HostReadinessService::local_report(None, probe);
    assert_eq!(report.connection_uri, "qemu:///system");
    assert_eq!(report.overall_state, "degraded");
    assert_eq!(report.capabilities.len(), 6);
    let ready = HostReadinessService::local_report(None, HostReadinessService::probe_local(true, true, true, true, false));
    assert_eq!(ready.overall_state, "ready");
}

#[test]
fn lsusb_lines_are_read_at_their_fixed_offsets() {
    let f = UsbService::parse_lsusb_line("Bus 001 Device 002: ID 046d:c52b Logitech, Inc. Unifying Receiver").unwrap();
    assert_eq!(f.bus, "001");
    assert_eq!(f.device, "002");
    assert_eq!(f.vendor_id, "046d");
    assert_eq!(f.product_id, "c52b");
    assert_eq!(f.description, "Logitech, Inc. Unifying Receiver");
    let g = UsbService::parse_lsusb_line("Bus 003 Device 004: ID 0bda:5411 Réaltek Hub").unwrap();
    assert_eq!(g.description, "Réaltek Hub");
    let bare = UsbService::parse_lsusb_line("Bus 002 Device 001: ID 1d6b:0003").unwrap();
    assert_eq!(bare.description, "");
}

#[test]
fn malformed_lsusb_lines_are_skipped() {
    assert!(UsbService::parse_lsusb_line("").is_none());
    assert!(UsbService::parse_lsusb_line("Port 001 Device 002: ID 046d:c52b X").is_none());
    assert!(UsbService::parse_lsusb_line("Bus 0€1 Device 002: ID 046d:c52b X").is_none());
    assert!(UsbService::parse_lsusb_line("Bus 001 Device 002: ID 04zd:c52b X").is_none());
    assert!(UsbService::parse_lsusb_line("Bus 001 Device 002: ID 046d:c5").is_none());
    assert!(UsbService::parse_lsusb_line("Bus 001 Dev 002: ID 046d:c52b X").is_none());
}

#[test]
fn usb_devices_are_assembled_from_lsusb_and_sysfs() {
    assert_eq!(UsbService::sysfs_device_path("001", "002"), "/sys/bus/usb/devices/1-002");
    assert_eq!(UsbService::sysfs_device_path("010", "005"), "/sys/bus/usb/devices/10-005");
    let f = UsbService::parse_lsusb_line("Bus 001 Device 002: ID 046d:c52b Logitech, Inc. Unifying Receiver").unwrap();
    let used = vec!["046d:c52b=desktop".to_string()];
    let d = UsbService::usb_device_from(f, Some("12\n".to_string()), Some("03\n".to_string()), &used);
    assert_eq!(d.vendor_name, "Logitech");
    assert_eq!(d.product_name, "Unifying Receiver");
    assert_eq!(d.speed.as_deref(), Some("12 Mbps (USB 1.1 Full Speed)"));
    assert_eq!(d.device_class.as_deref(), Some("Human Interface Device"));
    assert!(d.in_use);
    assert_eq!(d.used_by_vm.as_deref(), Some("desktop"));
    assert!(UsbService::listed_device(&d));
    let hub = UsbService::parse_lsusb_line("Bus 002 Device 001: ID 1d6b:0003 Linux Foundation 3.0 root hub").unwrap();
    let h = UsbService::usb_device_from(hub, None, Some("09".to_string()), &vec![]);
    assert!(!h.in_use);
    assert!(!UsbService::listed_device(&h));
}
