use kvm_manager::ws_proxy::WsProxyService;

#[test]
fn a_new_registry_offers_the_whole_port_range() {
    let proxies = WsProxyService::new();
    let ports = proxies.candidate_ports();
    assert_eq!(ports.len(), 100);
    assert_eq!(ports[0], 6080);
    assert_eq!(ports[99], 6179);
    assert_eq!(proxies.get_proxy_port("vm-1"), None);
}

#[test]
fn registered_proxies_are_found_and_their_ports_are_taken() {
    let mut proxies = WsProxyService::new();
    proxies.register("vm-1", 6080, 5900);
    proxies.register("vm-2", 6081, 5901);
    assert_eq!(proxies.get_proxy_port("vm-1"), Some(6080));
    assert_eq!(proxies.reusable_port("vm-1", 5900), Some(6080));
    assert_eq!(proxies.reusable_port("vm-1", 5902), None);
    let ports = proxies.candidate_ports();
    assert_eq!(ports.len(), 98);
    assert_eq!(ports[0], 6082);
    assert!(!ports.contains(&6080) && !ports.contains(&6081));
}

#[test]
fn re_registering_a_vm_replaces_its_proxy() {
    let mut proxies = WsProxyService::new();
    proxies.register("vm-1", 6080, 5900);
    proxies.register("vm-1", 6085, 5910);
    assert_eq!(proxies.get_proxy_port("vm-1"), Some(6085));
    assert_eq!(proxies.candidate_ports().len(), 99);
    assert!(proxies.candidate_ports().contains(&6080));
}

#[test]
fn stopping_forgets_proxies() {
    let mut proxies = WsProxyService::new();
    proxies.register("vm-1", 6080, 5900);
    proxies.register("vm-2", 6081, 5901);
    assert_eq!(proxies.stop_proxy("vm-1").unwrap(), true);
    assert_eq!(proxies.stop_proxy("vm-1").unwrap(), false);
    assert_eq!(proxies.get_proxy_port("vm-1"), None);
    assert_eq!(proxies.get_proxy_port("vm-2"), Some(6081));
    assert_eq!(proxies.stop_all(), vec!["vm-2".to_string()]);
    assert_eq!(proxies.get_proxy_port("vm-2"), None);
}
