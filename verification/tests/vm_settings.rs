use kvm_manager::error::AppError;
use kvm_manager::listing::{HostNetworkInterface, HostNumaNode};
use kvm_manager::vm::{EvdevDevice, HugepageInfo, KernelBootSettings, VmService};
use kvm_manager::vm_record::VmState;

fn message(e: &AppError) -> String {
    e.message()
}

// ---------------------------------------------------------------------------
// VM records
// ---------------------------------------------------------------------------

#[test]
fn domain_states_map_to_the_four_shown_states() {
    assert_eq!(VmService::get_domain_state(1), VmState::Running);
    assert_eq!(VmService::get_domain_state(3), VmState::Paused);
    assert_eq!(VmService::get_domain_state(7), VmState::Suspended);
    assert_eq!(VmService::get_domain_state(5), VmState::Stopped);
    assert_eq!(VmService::get_domain_state(0), VmState::Stopped);
}

#[test]
fn hardware_config_reads_firmware_tpm_and_chipset() {
    let xml = "<domain>\n  <os>\n    <type arch='x86_64' machine='pc-q35-8.2'>hvm</type>\n    <loader readonly='yes' secure='yes' type='pflash'>/usr/share/OVMF/OVMF_CODE.secboot.fd</loader>\n  </os>\n  <devices>\n    <tpm model='tpm-crb'/>\n  </devices>\n</domain>";
    let (firmware, tpm, chipset) = VmService::get_vm_hardware_config(xml);
    assert_eq!(firmware, "uefi-secure");
    assert!(tpm);
    assert_eq!(chipset, "q35");

    let plain = "<domain>\n  <os>\n    <type arch='x86_64' machine='pc-i440fx-8.2'>hvm</type>\n  </os>\n</domain>";
    assert_eq!(
        VmService::get_vm_hardware_config(plain),
        ("bios".to_string(), false, "pc".to_string())
    );
}

#[test]
fn cpu_topology_defaults_to_one_of_each() {
    let xml = "<domain>\n  <cpu mode='host-passthrough'>\n    <topology sockets='2' cores='4' threads='2'/>\n  </cpu>\n</domain>";
    assert_eq!(VmService::get_cpu_topology(xml), (2, 4, 2));
    assert_eq!(VmService::get_cpu_topology("<domain/>"), (1, 1, 1));
}

#[test]
fn block_list_and_capacity_are_read_from_virsh_output() {
    let list = " Type   Device   Target   Source\n------------------------------------------------\n file   disk     vda      /var/lib/libvirt/images/a.qcow2\n file   cdrom    sda      -\n block  disk     vdb      /dev/sdb\n";
    assert_eq!(VmService::disk_targets(list), vec!["vda", "sda", "vdb"]);
    let info = "Capacity:       21474836480\nAllocation:     1048576\nPhysical:       1048576\n";
    assert_eq!(VmService::disk_capacity(info), Some(21474836480));
    assert_eq!(VmService::disk_capacity("Allocation: 5\n"), None);
    assert_eq!(VmService::disk_size_gb(&vec![21474836480, 10737418240]), 30);
}

#[test]
fn a_vm_without_a_definition_gets_default_hardware() {
    let vm = VmService::domain_to_vm(
        "id-1".to_string(),
        "web".to_string(),
        1,
        4,
        8388608,
        4194304,
        20,
        None,
        &[],
    );
    assert_eq!(vm.state, VmState::Running);
    assert_eq!(vm.memory_mb, 4096);
    assert_eq!(vm.max_memory_mb, 8192);
    assert_eq!(vm.firmware, "bios");
    assert_eq!(vm.chipset, "pc");
    assert_eq!((vm.cpu_sockets, vm.cpu_cores, vm.cpu_threads), (1, 4, 1));
    assert!(vm.disks.is_empty());
}

// ---------------------------------------------------------------------------
// Devices
// ---------------------------------------------------------------------------

#[test]
fn disk_and_cdrom_definitions_escape_the_path() {
    let disk = VmService::disk_definition("/images/a&b.qcow2", "vdb", "virtio").unwrap();
    assert!(disk.contains("<source file='/images/a&amp;b.qcow2'/>"));
    assert!(disk.contains("<target dev='vdb' bus='virtio'/>"));
    assert!(VmService::disk_definition("/images/a.qcow2", "vdb", "floppy").is_err());
    assert!(VmService::disk_definition("/images/a.qcow2", "vd b", "virtio").is_err());
    let cdrom = VmService::cdrom_definition("/iso/install.iso", "sdb", "sata").unwrap();
    assert!(cdrom.contains("device='cdrom'"));
    assert!(cdrom.contains("<readonly/>"));
}

#[test]
fn fixed_choice_devices_reject_unknown_models() {
    assert_eq!(
        VmService::sound_definition("ich9").unwrap(),
        "<sound model='ich9'>\n  <audio id='1'/>\n</sound>"
    );
    assert!(VmService::sound_definition("pcspk").is_err());
    assert!(VmService::input_definition("tablet", "usb").is_ok());
    assert!(VmService::input_definition("tablet", "serial").is_err());
    assert_eq!(
        message(&VmService::input_definition("tablet", "serial").unwrap_err()),
        "Invalid bus type 'serial'. Valid options: [\"usb\", \"virtio\", \"ps2\"]"
    );
    assert!(VmService::rng_definition("/dev/urandom").is_ok());
    assert!(VmService::watchdog_definition("i6300esb", "reset").is_ok());
    assert!(VmService::watchdog_definition("i6300esb", "explode").is_err());
}

#[test]
fn stopped_only_devices_are_refused_while_running() {
    let e = VmService::tpm_definition("tpm-crb", "2.0", true).unwrap_err();
    assert_eq!(message(&e), "Cannot add TPM to running VM. Please stop the VM first.");
    let tpm = VmService::tpm_definition("tpm-crb", "2.0", false).unwrap();
    assert_eq!(
        tpm,
        "<tpm model='tpm-crb'>\n  <backend type='emulator' version='2.0'/>\n</tpm>"
    );
    assert!(VmService::usb_controller_definition("qemu-xhci", true).is_err());
    assert!(VmService::scsi_controller_definition("virtio-scsi", true).is_err());
}

#[test]
fn usb_redirection_is_read_from_the_definition() {
    let xml = "<domain>\n  <devices>\n    <graphics type='spice' autoport='yes'/>\n    <redirdev bus='usb' type='spicevmc'/>\n    <redirdev bus='usb' type='spicevmc'/>\n  </devices>\n</domain>";
    let info = VmService::get_usb_redirection(xml);
    assert!(info.enabled);
    assert_eq!(info.channel_count, 2);
    assert!(info.has_spice_graphics);
    let none = VmService::get_usb_redirection("<domain><devices/></domain>");
    assert!(!none.enabled);
    assert_eq!(none.channel_count, 0);
}

#[test]
fn renaming_moves_disk_files_named_after_the_vm() {
    assert_eq!(
        VmService::renamed_disk_path("/var/lib/libvirt/images/web.qcow2", "web", "api"),
        Some("/var/lib/libvirt/images/api.qcow2".to_string())
    );
    assert!(VmService::rename_precheck("api", true, false).is_err());
    assert!(VmService::rename_precheck("api", false, true).is_err());
    assert!(VmService::rename_precheck("api", false, false).is_ok());
}

// ---------------------------------------------------------------------------
// CPU lists and pinning
// ---------------------------------------------------------------------------

#[test]
fn cpu_lists_expand_ranges_in_the_order_written() {
    assert_eq!(VmService::parse_cpu_list("0-3,8-11"), vec![0, 1, 2, 3, 8, 9, 10, 11]);
    assert_eq!(VmService::parse_cpu_list("5, 2-3 ,x,7-6"), vec![5, 2, 3]);
    assert_eq!(VmService::parse_cpu_list(""), Vec::<u32>::new());
}

#[test]
fn cpusets_are_sorted_and_deduplicated() {
    assert_eq!(VmService::parse_cpuset("7-9,0-3,5,2"), vec![0, 1, 2, 3, 5, 7, 8, 9]);
    assert_eq!(VmService::parse_cpuset("1-2-3,4"), vec![4]);
}

#[test]
fn cpusets_are_written_as_ranges() {
    assert_eq!(VmService::format_cpuset(&[9, 0, 1, 2, 3, 5, 7, 8, 3]), "0-3,5,7-9");
    assert_eq!(VmService::format_cpuset(&[4]), "4");
    assert_eq!(VmService::format_cpuset(&[]), "");
}

#[test]
fn a_written_cpuset_reads_back_as_the_sorted_cpus() {
    let cpus = vec![12, 3, 4, 5, 0, 12, 7];
    let text = VmService::format_cpuset(&cpus);
    assert_eq!(VmService::parse_cpu_list(&text), vec![0, 3, 4, 5, 7, 12]);
    assert_eq!(VmService::parse_cpuset(&text), vec![0, 3, 4, 5, 7, 12]);
}

#[test]
fn cpu_pinning_is_read_from_cputune() {
    let xml = "<domain>\n  <cputune>\n    <vcpupin vcpu='0' cpuset='0-1'/>\n    <vcpupin vcpu='1' cpuset='3,2'/>\n    <vcpupin vcpu='x' cpuset='4'/>\n  </cputune>\n</domain>";
    assert_eq!(
        VmService::get_cpu_pinning(xml),
        vec![(0, vec![0, 1]), (1, vec![2, 3])]
    );
    assert!(VmService::get_cpu_pinning("<domain/>").is_empty());
}

// ---------------------------------------------------------------------------
// Display and platform devices
// ---------------------------------------------------------------------------

#[test]
fn vnc_graphics_default_to_loopback_and_an_automatic_port() {
    let x = VmService::graphics_definition("vnc", None, None).unwrap();
    assert_eq!(
        x,
        "<graphics type='vnc' port='-1' autoport='yes' listen='127.0.0.1'>\n  <listen type='address' address='127.0.0.1'/>\n</graphics>"
    );
    let s = VmService::graphics_definition("spice", Some("0.0.0.0"), Some(5901)).unwrap();
    assert!(s.starts_with("<graphics type='spice' port='5901' listen='0.0.0.0'>"));
    assert!(s.contains("<mouse mode='client'/>"));
    let e = VmService::graphics_definition("rdp", None, None).unwrap_err();
    assert_eq!(message(&e), "Invalid graphics type 'rdp'. Valid options: [\"vnc\", \"spice\"]");
}

#[test]
fn video_devices_follow_their_model() {
    let qxl = VmService::video_definition("qxl", None, None, false).unwrap();
    assert_eq!(
        qxl,
        "<video>\n  <model type='qxl' ram='131072' vram='65536' vgamem='16384' heads='1' primary='yes'/>\n</video>"
    );
    let virtio = VmService::video_definition("virtio", None, Some(2), true).unwrap();
    assert_eq!(
        virtio,
        "<video>\n  <model type='virtio' heads='2' primary='yes' accel3d='yes'>\n    <acceleration accel3d='yes'/>\n  </model>\n</video>"
    );
    assert_eq!(
        VmService::video_definition("ramfb", Some(1), Some(1), false).unwrap(),
        "<video>\n  <model type='ramfb' primary='yes'/>\n</video>"
    );
    assert!(VmService::video_definition("vga", Some(16384), None, false).unwrap().contains("vram='16384'"));
    assert!(VmService::video_definition("matrox", None, None, false).is_err());
}

#[test]
fn vsock_refuses_reserved_context_ids() {
    assert_eq!(
        VmService::vsock_definition(3).unwrap(),
        "<vsock model='virtio'>\n  <cid auto='no' value='3'/>\n</vsock>"
    );
    let e = VmService::vsock_definition(2).unwrap_err();
    assert_eq!(message(&e), "Invalid VSOCK CID 2. CID must be >= 3 (0, 1, 2 are reserved)");
}

#[test]
fn panic_parallel_and_smartcard_need_a_stopped_vm() {
    assert_eq!(VmService::panic_notifier_definition("isa", false).unwrap(), "<panic model='isa'/>\n");
    assert_eq!(
        message(&VmService::panic_notifier_definition("isa", true).unwrap_err()),
        "Cannot add panic notifier to running VM. Please stop the VM first."
    );
    assert_eq!(
        message(&VmService::panic_notifier_definition("pvpanic", false).unwrap_err()),
        "Invalid panic notifier model 'pvpanic'. Valid options: isa, hyperv, pseries"
    );
    assert_eq!(
        VmService::parallel_definition(0, false).unwrap(),
        "<parallel type='pty'>\n  <target port='0'/>\n</parallel>"
    );
    assert!(VmService::parallel_definition(0, true).is_err());
    assert!(VmService::smartcard_definition("passthrough", false).unwrap().contains("type='spicevmc'"));
    assert!(VmService::smartcard_definition("emulated", false).unwrap().contains("/etc/pki/nssdb"));
    assert_eq!(
        message(&VmService::smartcard_definition("virtual", false).unwrap_err()),
        "Invalid smartcard mode 'virtual'. Valid options: passthrough, emulated"
    );
}

// ---------------------------------------------------------------------------
// Memory, vCPUs and CPU model
// ---------------------------------------------------------------------------

#[test]
fn cpu_topology_products_that_overflow_are_refused() {
    assert_eq!(VmService::topology_vcpus(2, 4, 2).unwrap(), 16);
    let e = VmService::topology_vcpus(65536, 65536, 1).unwrap_err();
    assert_eq!(message(&e), "CPU topology is too large");
    assert!(VmService::topology_vcpus(65536, 65536, 0).is_err());
}

#[test]
fn memory_is_written_in_the_unit_of_the_definition() {
    let kib = "<domain type='kvm'><memory unit='KiB'>1048576</memory></domain>";
    assert_eq!(VmService::memory_setting(kib, 2048).unwrap(), 2097152);
    let mib = "<domain type='kvm'><memory unit='MiB'>1024</memory></domain>";
    assert_eq!(VmService::memory_setting(mib, 2048).unwrap(), 2048);
    let gib = "<domain type='kvm'><memory unit='GiB'>1</memory></domain>";
    assert_eq!(VmService::memory_setting(gib, 2048).unwrap(), 2);
    let e = VmService::memory_setting(gib, 1500).unwrap_err();
    assert_eq!(message(&e), "VM memory unit is not supported");
    let none = "<domain type='kvm'><memory>1048576</memory></domain>";
    assert_eq!(VmService::memory_setting(none, 1).unwrap(), 1024);
}

#[test]
fn cpu_model_defaults_to_host_passthrough() {
    let custom = "<domain type='kvm'><cpu mode='custom' match='exact'><model fallback='allow'> Skylake-Client </model></cpu></domain>";
    let c = VmService::cpu_model_config(custom).unwrap();
    assert_eq!(c.mode, "custom");
    assert_eq!(c.model, Some("Skylake-Client".to_string()));
    let plain = VmService::cpu_model_config("<domain type='kvm'><vcpu>2</vcpu></domain>").unwrap();
    assert_eq!(plain.mode, "host-passthrough");
    assert_eq!(plain.model, None);
    assert!(VmService::cpu_model_config("<network/>").is_err());
}

#[test]
fn cpu_models_come_from_virsh_or_a_fixed_list() {
    let models = VmService::available_cpu_models(true, "qemu64\n\n  Haswell  \nEPYC\n");
    assert_eq!(models, vec!["qemu64", "Haswell", "EPYC"]);
    let fallback = VmService::available_cpu_models(false, "ignored");
    assert_eq!(fallback.len(), 17);
    assert_eq!(fallback[0], "qemu64");
    assert_eq!(fallback[16], "EPYC-Milan");
}

// ---------------------------------------------------------------------------
// Kernel boot, migration, hugepages, evdev, NUMA, interfaces
// ---------------------------------------------------------------------------

#[test]
fn kernel_boot_settings_are_read_and_written() {
    let xml = "<domain type='kvm'><os><type>hvm</type><kernel>/boot/vmlinuz</kernel><cmdline>console=ttyS0</cmdline></os></domain>";
    let k = VmService::kernel_boot_settings(xml).unwrap();
    assert!(k.enabled);
    assert_eq!(k.kernel_path, Some("/boot/vmlinuz".to_string()));
    assert_eq!(k.initrd_path, None);
    assert_eq!(k.kernel_args, Some("console=ttyS0".to_string()));

    let settings = KernelBootSettings {
        enabled: true,
        kernel_path: Some("/boot/a&b".to_string()),
        initrd_path: Some(String::new()),
        kernel_args: Some("quiet".to_string()),
        dtb_path: None,
    };
    let (kernel, initrd, cmdline, dtb) = VmService::kernel_boot_elements(&settings).unwrap();
    assert_eq!(kernel, Some("<kernel>/boot/a&amp;b</kernel>".to_string()));
    assert_eq!(initrd, None);
    assert_eq!(cmdline, Some("<cmdline>quiet</cmdline>".to_string()));
    assert_eq!(dtb, None);

    let disabled = KernelBootSettings { enabled: false, ..settings };
    assert_eq!(VmService::kernel_boot_elements(&disabled).unwrap(), (None, None, None, None));
}

#[test]
fn migration_blockers_and_warnings_are_found_line_by_line() {
    let xml = "<domain>\n  <devices>\n    <disk type='file'>\n      <source file='/var/lib/libvirt/images/a.qcow2'/>\n    </disk>\n    <disk type='network'>\n      <source file='nbd://host/x'/>\n    </disk>\n    <hostdev mode='subsystem' type='pci' managed='yes'>\n    </hostdev>\n    <tpm model='tpm-crb'>\n    </tpm>\n  </devices>\n</domain>";
    let (can, warnings) = VmService::check_migration_compatibility(xml);
    assert!(!can);
    assert_eq!(
        warnings,
        vec![
            "A local disk may require shared storage before migration",
            "PCI passthrough device detected - prevents live migration",
            "TPM device detected - state may not transfer correctly",
        ]
    );
    let (ok, none) = VmService::check_migration_compatibility("<domain>\n</domain>");
    assert!(ok);
    assert!(none.is_empty());
}

#[test]
fn hugepage_settings_read_the_page_size_in_kib() {
    let xml = "<domain><memoryBacking><hugepages><page size='2' unit='MiB'/></hugepages></memoryBacking></domain>";
    let h = VmService::get_hugepages_settings(xml);
    assert!(h.enabled);
    assert_eq!(h.size, Some(2048));
    let plain = VmService::get_hugepages_settings("<domain><memoryBacking><hugepages/></memoryBacking></domain>");
    assert!(plain.enabled);
    assert_eq!(plain.size, None);
    assert!(!VmService::get_hugepages_settings("<domain/>").enabled);
    let huge = "<domain><hugepages><page size='18446744073709551615' unit='GiB'/></hugepages></domain>";
    assert!(VmService::read_hugepages_settings(huge).is_none());
}

#[test]
fn hugepage_backing_and_host_sizes() {
    assert_eq!(
        VmService::hugepages_backing(true, Some(2048), false).unwrap(),
        Some("<memoryBacking><hugepages><page size='2048' unit='KiB'/></hugepages></memoryBacking>".to_string())
    );
    assert_eq!(
        VmService::hugepages_backing(true, None, false).unwrap(),
        Some("<memoryBacking><hugepages/></memoryBacking>".to_string())
    );
    assert_eq!(VmService::hugepages_backing(false, Some(2048), false).unwrap(), None);
    assert!(VmService::hugepages_backing(true, None, true).is_err());
    assert_eq!(VmService::hugepage_dir_size("hugepages-1048576kB"), Some(1048576));
    assert_eq!(VmService::hugepage_dir_size("hugepages-kB"), None);
    assert_eq!(VmService::hugepage_dir_size("nr_hugepages"), None);
    let info = VmService::hugepage_info(2048, " 16\n", "");
    assert_eq!(info.total, 16);
    assert_eq!(info.free, 0);
    assert_eq!(info.size_human, "2 MB");
}

#[test]
fn evdev_devices_get_a_kind_and_a_friendly_name() {
    let d = VmService::evdev_device("usb-Logitech_USB_Receiver-if02-event-mouse", "/dev/input/event5");
    assert_eq!(d.device_type, "mouse");
    assert_eq!(d.name, "Logitech USB Receiver-if02");
    let k = VmService::evdev_device("usb-Keychron_K2-event-kbd", "/dev/input/event3");
    assert_eq!(k.device_type, "keyboard");
    assert_eq!(k.name, "Keychron K2");
    assert_eq!(VmService::evdev_device("platform-pcspkr", "/dev/input/event1").device_type, "other");
}

#[test]
fn evdev_attachment_requires_an_existing_device() {
    let e = VmService::evdev_definition_for("/dev/input/by-id/no-such-device-event-kbd", false, false, false).unwrap_err();
    assert_eq!(message(&e), "Evdev device not found: /dev/input/by-id/no-such-device-event-kbd");
    let x = VmService::evdev_definition_for("/", true, false, true).unwrap();
    assert_eq!(x, "<input type='passthrough' bus='virtio'>\n  <source dev='/' grab='all'/>\n</input>");
    assert!(VmService::evdev_definition_for("/", true, true, true).is_err());
}

#[test]
fn evdev_and_filesystem_definitions_once_existence_is_known() {
    let e = VmService::evdev_definition_for("/dev/input/event3", false, false, false).unwrap_err();
    assert_eq!(message(&e), "Evdev device not found: /dev/input/event3");
    let e = VmService::evdev_definition_for("/dev/input/event3", false, true, true).unwrap_err();
    assert_eq!(message(&e), "Cannot attach evdev device to running VM. Please stop the VM first.");
    let e = VmService::evdev_definition_for("/dev/input/\u{1}kbd", false, false, true).unwrap_err();
    assert_eq!(message(&e), "evdev device path contains characters that are not allowed");
    assert_eq!(
        VmService::evdev_definition_for("/dev/input/usb-kbd", false, false, true).unwrap(),
        "<input type='keyboard' bus='virtio'>\n  <source dev='/dev/input/usb-kbd'/>\n</input>"
    );
    let e = VmService::filesystem_definition_for("/srv/share", "share", "virtio-9p", false, false).unwrap_err();
    assert_eq!(message(&e), "Source path '/srv/share' does not exist");
    let e = VmService::filesystem_definition_for("/srv/share", "share", "nfs", false, true).unwrap_err();
    assert_eq!(message(&e), "Invalid filesystem type 'nfs'. Valid options: virtio-9p, virtiofs");
    assert_eq!(
        VmService::filesystem_definition_for("/srv/share", "share", "virtiofs", true, true).unwrap(),
        "<filesystem type='mount'>\n  <driver type='virtiofs' readonly='yes' queue='1024'/>\n  <source dir='/srv/share'/>\n  <target dir='share'/>\n</filesystem>"
    );
    assert!(VmService::filesystem_definition_for("/", "root", "virtio-9p", false, true).is_ok());
}

#[test]
fn numatune_binds_memory_to_the_given_nodes() {
    assert_eq!(
        VmService::numatune_definition("strict", Some("0-1"), false).unwrap(),
        "<numatune><memory mode='strict' nodeset='0-1'/></numatune>"
    );
    assert_eq!(
        VmService::numatune_definition("interleave", None, false).unwrap(),
        "<numatune><memory mode='interleave' nodeset='0'/></numatune>"
    );
    assert_eq!(
        message(&VmService::numatune_definition("random", None, false).unwrap_err()),
        "Invalid NUMA mode 'random'. Valid options: strict, preferred, interleave"
    );
    assert!(VmService::numatune_definition("strict", None, true).is_err());
}

#[test]
fn numa_cells_and_node_memory_are_read_from_the_host() {
    let caps = "<capabilities>\n  <topology>\n    <cells num='2'>\n      <cell id='0'>\n      </cell>\n      <cell id='1'>\n      </cell>\n    </cells>\n  </topology>\n</capabilities>";
    assert_eq!(VmService::numa_cell_ids(caps), vec![0, 1]);
    let meminfo = "Node 0 MemTotal:       16318408 kB\nNode 0 MemFree:         1234 kB\n";
    assert_eq!(VmService::node_memory_mb(meminfo), 15935);
    assert_eq!(VmService::node_memory_mb("Node 0 MemFree: 5 kB\n"), 0);
}

#[test]
fn numa_node_directories_name_their_node() {
    assert_eq!(VmService::numa_node_dir_id("node0"), Some(0));
    assert_eq!(VmService::numa_node_dir_id("node12"), Some(12));
    assert_eq!(VmService::numa_node_dir_id("node"), None);
    assert_eq!(VmService::numa_node_dir_id("nodex"), None);
    assert_eq!(VmService::numa_node_dir_id("possible"), None);
}

#[test]
fn bandwidth_arguments_fill_in_peak_and_burst() {
    let args = VmService::domiftune_args("web", "vnet0", Some(1000), None, None, Some(500), Some(800), Some(100));
    assert_eq!(
        args,
        vec!["domiftune", "web", "vnet0", "--inbound", "1000,2000,1000", "--outbound", "500,800,100"]
    );
    assert_eq!(
        VmService::domiftune_args("web", "vnet0", None, None, None, None, None, None).len(),
        3
    );
    assert_eq!(VmService::interface_target_dev(None, "52:54:00:aa:bb:cc"), "525400aabbcc");
    assert_eq!(VmService::interface_target_dev(Some("vnet3"), "52:54:00:aa:bb:cc"), "vnet3");
}

#[test]
fn link_state_prefers_the_live_answer() {
    assert!(!VmService::link_is_up(Some("vnet0 down\n"), Some("up")));
    assert!(VmService::link_is_up(Some("vnet0 up\n"), Some("down")));
    assert!(!VmService::link_is_up(None, Some("down")));
    assert!(VmService::link_is_up(None, None));
}

#[test]
fn only_direct_attachable_host_interfaces_are_listed() {
    assert!(VmService::host_interface_listed("enp3s0"));
    assert!(VmService::host_interface_listed("wlan0"));
    for name in ["lo", "virbr0", "veth12ab", "docker0", "br-1234", "vnet3"] {
        assert!(!VmService::host_interface_listed(name));
    }
}

fn iface(name: &str, physical: bool) -> HostNetworkInterface {
    HostNetworkInterface {
        name: name.to_string(),
        mac_address: String::new(),
        state: "up".to_string(),
        speed: None,
        mtu: Some(1500),
        is_physical: physical,
        driver: None,
    }
}

#[test]
fn host_interfaces_list_physical_ones_first() {
    let v = vec![iface("wlan0", false), iface("eno1", true), iface("bond0", false), iface("enp3s0", true)];
    let names: Vec<String> = VmService::order_host_interfaces(v).into_iter().map(|i| i.name).collect();
    assert_eq!(names, vec!["eno1", "enp3s0", "bond0", "wlan0"]);
}

#[test]
fn evdev_devices_are_listed_by_kind_then_name() {
    let dev = |t: &str, n: &str| EvdevDevice {
        id: n.to_string(),
        path: String::new(),
        name: n.to_string(),
        device_type: t.to_string(),
    };
    let v = vec![dev("mouse", "b"), dev("keyboard", "z"), dev("mouse", "a"), dev("keyboard", "c")];
    let order: Vec<(String, String)> = VmService::order_evdev_devices(v)
        .into_iter()
        .map(|d| (d.device_type, d.name))
        .collect();
    assert_eq!(
        order,
        vec![
            ("keyboard".to_string(), "c".to_string()),
            ("keyboard".to_string(), "z".to_string()),
            ("mouse".to_string(), "a".to_string()),
            ("mouse".to_string(), "b".to_string()),
        ]
    );
}

#[test]
fn hugepage_sizes_and_numa_nodes_are_listed_ascending() {
    let page = |s: u64| HugepageInfo { size_kb: s, total: 0, free: 0, size_human: String::new() };
    let sizes: Vec<u64> = VmService::order_hugepage_info(vec![page(1048576), page(2048), page(64)])
        .into_iter()
        .map(|p| p.size_kb)
        .collect();
    assert_eq!(sizes, vec![64, 2048, 1048576]);
    let node = |id: u32, mem: u64| HostNumaNode { id, cpus: vec![], memory_mb: mem };
    let nodes: Vec<(u32, u64)> = VmService::order_numa_nodes(vec![node(1, 10), node(0, 20), node(1, 30)])
        .into_iter()
        .map(|n| (n.id, n.memory_mb))
        .collect();
    assert_eq!(nodes, vec![(0, 20), (1, 10), (1, 30)]);
}

// ---------------------------------------------------------------------------
// Lifecycle and usage figures
// ---------------------------------------------------------------------------

#[test]
fn lifecycle_changes_check_the_current_state() {
    assert_eq!(message(&VmService::start_precheck(1).unwrap_err()), "running");
    assert!(VmService::start_precheck(5).is_ok());
    assert_eq!(message(&VmService::stop_precheck(5).unwrap_err()), "not running");
    assert!(VmService::stop_precheck(1).is_ok());
    assert!(matches!(
        VmService::hibernate_precheck(false),
        Err(AppError::InvalidVmState(_))
    ));
    assert!(VmService::hibernate_precheck(true).is_ok());
    assert_eq!(
        message(&VmService::managed_save_removal_precheck(false).unwrap_err()),
        "no hibernated state to remove"
    );
    assert_eq!(
        message(&VmService::delete_precheck(1).unwrap_err()),
        "Cannot delete a running VM. Stop it first."
    );
    assert!(VmService::delete_precheck(5).is_ok());
}

#[test]
fn disk_bytes_come_from_domblkstat() {
    let text = "number of read operations:      1234\nnumber of bytes read:           5242880\nnumber of write operations:     55\nnumber of bytes written:        1048576\n";
    assert_eq!(VmService::domblkstat_bytes(text), (5242880, 1048576));
    assert_eq!(VmService::domblkstat_bytes("number of bytes read: many\n"), (0, 0));
}

#[test]
fn memory_in_use_is_available_less_usable() {
    let text = "actual 4194304\nswap_in 0\navailable 4030180\nusable 3000000\nrss 1000\n";
    assert_eq!(VmService::dommemstat_usage(text), (1006, 3935));
    assert_eq!(VmService::dommemstat_usage("actual 2097152\n"), (2048, 2048));
}

#[test]
fn interfaces_come_from_domiflist_or_default_to_vnet0() {
    let text = " Interface   Type      Source    Model    MAC\n-------------------------------------------------------\n vnet0       network   default   virtio   52:54:00:aa:bb:cc\n\n vnet1       bridge    br0       e1000    52:54:00:aa:bb:cd\n";
    assert_eq!(VmService::domiflist_interfaces(true, text), vec!["vnet0", "vnet1"]);
    assert_eq!(VmService::domiflist_interfaces(false, ""), vec!["vnet0"]);
    assert!(VmService::domiflist_interfaces(true, "header\n----\n").is_empty());
}

#[test]
fn network_bytes_add_up_over_interfaces() {
    let a = "vnet0 rx_bytes 1000\nvnet0 rx_packets 10\nvnet0 tx_bytes 300\n".to_string();
    let b = "vnet1 rx_bytes 24\nvnet1 tx_bytes 700\n".to_string();
    assert_eq!(VmService::domifstat_bytes(&vec![a, b]), Some((1024, 1000)));
    let big = "vnet0 rx_bytes 18446744073709551615\n".to_string();
    let one = "vnet1 rx_bytes 1\n".to_string();
    assert_eq!(VmService::domifstat_bytes(&vec![big, one]), None);
}
