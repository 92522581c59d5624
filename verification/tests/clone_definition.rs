use kvm_manager::error::AppError;
use kvm_manager::vm::VmService;

const SOURCE: &str = "<domain type='kvm'>\n  <name>web</name>\n  <uuid>1b4e28ba-2fa1-11d2-883f-0016d3cca427</uuid>\n  <devices>\n    <disk type='file' device='disk'>\n      <source file='/images/web.qcow2'/>\n    </disk>\n    <interface type='network'>\n      <mac address='52:54:00:11:22:33'/>\n    </interface>\n    <interface type='network'>\n      <mac address='52:54:00:44:55:66'/>\n    </interface>\n  </devices>\n</domain>";

#[test]
fn clone_definition_renames_drops_uuid_and_remaps_disks() {
    let maps = vec![("/images/web.qcow2".to_string(), "/images/copy.qcow2".to_string())];
    let x = VmService::clone_definition(SOURCE, "copy", &maps, None, &[(0xab, 0x01, 0xff), (0, 0, 0)]).unwrap();
    let expected = "<domain type='kvm'>\n  <name>copy</name>\n  \n  <devices>\n    <disk type='file' device='disk'>\n      <source file='/images/copy.qcow2'/>\n    </disk>\n    <interface type='network'>\n      <mac address='52:54:00:ab:01:ff'/>\n    </interface>\n    <interface type='network'>\n      <mac address='52:54:00:00:00:00'/>\n    </interface>\n  </devices>\n</domain>";
    assert_eq!(x, expected);
}

#[test]
fn clone_definition_inserts_an_escaped_description_after_the_name() {
    let x = VmService::clone_definition(SOURCE, "copy", &[], Some("a <b> & c"), &[]).unwrap();
    assert!(x.starts_with("<domain type='kvm'>\n  <name>copy</name>\n  <description>a &lt;b&gt; &amp; c</description>\n"));
    assert!(x.contains("<mac address='52:54:00:11:22:33'/>"));
}

#[test]
fn clone_definition_replaces_an_existing_description() {
    let src = "<domain type='kvm'><name>web</name><description>old</description></domain>";
    let x = VmService::clone_definition(src, "copy", &[], Some("new"), &[]).unwrap();
    assert_eq!(x, "<domain type='kvm'><name>copy</name><description>new</description></domain>");
}

#[test]
fn clone_definition_refuses_bad_names_and_missing_names() {
    assert!(matches!(VmService::clone_definition(SOURCE, "bad name", &[], None, &[]), Err(AppError::InvalidConfig(_))));
    assert!(matches!(
        VmService::clone_definition("<domain type='kvm'></domain>", "copy", &[], None, &[]),
        Err(AppError::InvalidConfig(_))
    ));
    assert!(matches!(
        VmService::clone_definition("<domain><uuid>x</domain>", "copy", &[], None, &[]),
        Err(AppError::InvalidConfig(_))
    ));
}

#[test]
fn regenerated_macs_are_in_qemu_range_and_keep_their_count() {
    assert_eq!(VmService::count_mac_addresses(SOURCE), 2);
    let x = VmService::regenerate_mac_addresses(SOURCE);
    assert_eq!(VmService::count_mac_addresses(&x), 2);
    assert_eq!(x.matches("<mac address='52:54:00:").count(), 2);
    assert_eq!(x.len(), SOURCE.len());
    assert!(x.starts_with("<domain type='kvm'>\n  <name>web</name>"));
}

#[test]
fn modified_clone_definition_has_fresh_macs() {
    let maps = vec![("/images/web.qcow2".to_string(), "/images/copy.qcow2".to_string())];
    let x = VmService::modify_xml_for_clone_extended(SOURCE, "copy", &maps, &Some("copied".to_string())).unwrap();
    assert!(x.contains("<name>copy</name>\n  <description>copied</description>"));
    assert!(!x.contains("<uuid>"));
    assert!(x.contains("<source file='/images/copy.qcow2'/>"));
    assert_eq!(VmService::count_mac_addresses(&x), 2);
}

#[test]
fn replacing_macs_stops_when_suffixes_run_out() {
    let x = VmService::replace_mac_addresses(SOURCE, &[(1, 2, 3)]);
    assert!(x.contains("<mac address='52:54:00:01:02:03'/>"));
    assert!(x.contains("<mac address='52:54:00:44:55:66'/>"));
}

#[test]
fn replaced_macs_are_the_suffixes_in_order() {
    let x = VmService::replace_mac_addresses(SOURCE, &[(0x0a, 0x0b, 0x0c), (0xde, 0xad, 0x01), (9, 9, 9)]);
    let first = x.find("52:54:00:0a:0b:0c").unwrap();
    let second = x.find("52:54:00:de:ad:01").unwrap();
    assert!(first < second);
    assert!(!x.contains("09:09:09"));
    assert_eq!(VmService::count_mac_addresses(&x), 2);
}
