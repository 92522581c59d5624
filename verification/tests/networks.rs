use kvm_manager::net::parse_ip;
use kvm_manager::error::AppError;
use kvm_manager::network::{Network, NetworkConfig, NetworkService};

fn nat_config() -> NetworkConfig {
    NetworkConfig {
        name: "lab".to_string(),
        bridge_name: "virbr7".to_string(),
        forward_mode: "nat".to_string(),
        ip_address: "192.168.100.1".to_string(),
        netmask: "255.255.255.0".to_string(),
        dhcp_start: "192.168.100.10".to_string(),
        dhcp_end: "192.168.100.99".to_string(),
        autostart: true,
        ipv6_enabled: false,
        ipv6_address: None,
        ipv6_prefix: None,
        ipv6_dhcp_start: None,
        ipv6_dhcp_end: None,
    }
}

#[test]
fn nat_network_definition_has_bridge_forward_and_dhcp() {
    let xml = NetworkService::network_definition(&nat_config()).unwrap();
    assert_eq!(
        xml,
        "<network>\n  <name>lab</name>\n  <bridge name='virbr7' stp='on' delay='0'/>\n  <forward mode='nat'/>\n  <ip address='192.168.100.1' netmask='255.255.255.0'><dhcp><range start='192.168.100.10' end='192.168.100.99'/></dhcp></ip>\n</network>"
    );
}

#[test]
fn bridged_network_has_no_addressing_and_no_spanning_tree() {
    let mut config = nat_config();
    config.forward_mode = "bridge".to_string();
    config.ip_address = "not an address".to_string();
    let xml = NetworkService::network_definition(&config).unwrap();
    assert_eq!(
        xml,
        "<network>\n  <name>lab</name>\n  <bridge name='virbr7'/>\n  <forward mode='bridge'/>\n</network>"
    );
}

#[test]
fn isolated_network_has_no_forward_element() {
    let mut config = nat_config();
    config.forward_mode = "isolated".to_string();
    let xml = NetworkService::network_definition(&config).unwrap();
    assert!(!xml.contains("<forward"));
    assert!(xml.contains("<ip address='192.168.100.1'"));
}

#[test]
fn network_definition_rejects_bad_values() {
    let mut config = nat_config();
    config.name = "lab</name>".to_string();
    assert!(matches!(
        NetworkService::network_definition(&config),
        Err(AppError::InvalidConfig(_))
    ));

    let mut config = nat_config();
    config.forward_mode = "open".to_string();
    assert!(matches!(
        NetworkService::network_definition(&config),
        Err(AppError::InvalidConfig(_))
    ));

    let mut config = nat_config();
    config.dhcp_start = "192.168.100.200".to_string();
    assert!(matches!(
        NetworkService::network_definition(&config),
        Err(AppError::InvalidConfig(_))
    ));

    let mut config = nat_config();
    config.netmask = "255.255.255.256".to_string();
    assert!(NetworkService::network_definition(&config).is_err());
}

#[test]
fn ipv6_network_needs_address_prefix_and_both_range_bounds() {
    let mut config = nat_config();
    config.ipv6_enabled = true;
    assert!(NetworkService::network_definition(&config).is_err());

    config.ipv6_address = Some("fd00:0:0:0::1".to_string());
    config.ipv6_prefix = Some(64);
    let xml = NetworkService::network_definition(&config).unwrap();
    assert!(xml.contains("  <ip family='ipv6' address='fd00::1' prefix='64'/>\n</network>"));

    config.ipv6_dhcp_start = Some("fd00::100".to_string());
    assert!(NetworkService::network_definition(&config).is_err());

    config.ipv6_dhcp_end = Some("fd00::1ff".to_string());
    let xml = NetworkService::network_definition(&config).unwrap();
    assert!(xml.contains(
        "prefix='64'><dhcp><range start='fd00::100' end='fd00::1ff'/></dhcp></ip>\n"
    ));

    config.ipv6_prefix = Some(129);
    assert!(NetworkService::network_definition(&config).is_err());
}

#[test]
fn network_summary_reads_bridge_and_range() {
    let xml = "<network><name>lab</name><bridge name='virbr7'/><ip address='10.0.0.1' netmask='255.0.0.0'/></network>";
    let net: Network = NetworkService::network_to_model(
        "lab".to_string(),
        "uuid-1".to_string(),
        true,
        false,
        xml,
    )
    .unwrap();
    assert_eq!(net.bridge, "virbr7");
    assert_eq!(net.ip_range.as_deref(), Some("10.0.0.1/255.0.0.0"));

    let (bridge, range) =
        NetworkService::parse_network_xml("<network><name>x</name></network>").unwrap();
    assert_eq!(bridge, "virbr0");
    assert_eq!(range, None);

    assert!(NetworkService::parse_network_xml("<pool/>").is_err());
}

#[test]
fn dhcp_lease_lines_are_parsed() {
    let content = "1700000000 52:54:00:aa:bb:cc 192.168.122.10 web *\n\
                   bad line\n\
                   notanumber 52:54:00:aa:bb:cd 192.168.122.11 * 01:52:54:00:aa:bb:cd\r\n";
    let leases = NetworkService::parse_dhcp_leases(content);
    assert_eq!(leases.len(), 2);
    assert_eq!(leases[0].expiry_time, 1700000000);
    assert_eq!(leases[0].mac, "52:54:00:aa:bb:cc");
    assert_eq!(leases[0].ip_address, "192.168.122.10");
    assert_eq!(leases[0].hostname.as_deref(), Some("web"));
    assert_eq!(leases[0].client_id, None);
    assert_eq!(leases[1].expiry_time, 0);
    assert_eq!(leases[1].hostname, None);
    assert_eq!(leases[1].client_id.as_deref(), Some("01:52:54:00:aa:bb:cd"));
}

#[test]
fn lease_file_is_named_after_the_network() {
    assert_eq!(
        NetworkService::lease_file_path("default"),
        "/var/lib/libvirt/dnsmasq/default.leases"
    );
}

#[test]
fn port_forward_rules_name_protocol_ports_and_guest() {
    let (dnat, accept) =
        NetworkService::port_forward_commands(8080, "192.168.122.10", 80, "tcp", true).unwrap();
    assert_eq!(
        dnat,
        "iptables -t nat -A PREROUTING -p tcp --dport 8080 -j DNAT --to-destination 192.168.122.10:80"
    );
    assert_eq!(
        accept,
        "iptables -A FORWARD -p tcp -d 192.168.122.10 --dport 80 -j ACCEPT"
    );
    let (dnat, _) =
        NetworkService::port_forward_commands(53, "10.0.0.2", 53, "udp", false).unwrap();
    assert!(dnat.starts_with("iptables -t nat -D PREROUTING -p udp"));
    assert!(matches!(
        NetworkService::port_forward_commands(1, "10.0.0.2", 1, "icmp", true),
        Err(AppError::InvalidConfig(_))
    ));
}

#[test]
fn network_details_read_forward_mode_and_dhcp_range() {
    let xml = "<network><name>lab</name><forward mode='route'/><ip address='10.0.0.1' netmask='255.0.0.0'><dhcp><range start='10.0.0.5' end='10.0.0.9'/></dhcp></ip></network>";
    let basic = NetworkService::network_to_model(
        "lab".to_string(),
        "u".to_string(),
        true,
        true,
        xml,
    )
    .unwrap();
    let details = NetworkService::network_details(basic, xml, Vec::new()).unwrap();
    assert_eq!(details.forward_mode, "route");
    assert_eq!(details.dhcp_start.as_deref(), Some("10.0.0.5"));
    assert_eq!(details.dhcp_end.as_deref(), Some("10.0.0.9"));

    let plain = "<network><name>lab</name></network>";
    let basic = NetworkService::network_to_model(
        "lab".to_string(),
        "u".to_string(),
        false,
        false,
        plain,
    )
    .unwrap();
    let details = NetworkService::network_details(basic, plain, Vec::new()).unwrap();
    assert_eq!(details.forward_mode, "isolated");
}

#[test]
fn ip_addresses_parse_in_dot_decimal_or_ipv6_notation() {
    assert_eq!(parse_ip("192.168.1.10"), Some(("192.168.1.10".to_string(), true)));
    assert_eq!(parse_ip("0.0.0.0"), Some(("0.0.0.0".to_string(), true)));
    assert_eq!(parse_ip("192.168.1.010"), None);
    assert_eq!(parse_ip("256.1.1.1"), None);
    assert_eq!(parse_ip("1.2.3"), None);
    assert_eq!(parse_ip("::1"), Some(("::1".to_string(), false)));
}
