use kvm_manager::cloud_init::CloudInitService;
use kvm_manager::connection::{
    connection_capabilities, connection_scope, credential_answer, ConnectionService, ConnectionType,
    ResolvedOperation, SavedConnection,
};
use kvm_manager::operation::{CapabilityState, ConnectionScope, OperationContext, OperationKind};
use kvm_manager::xml::validate_document_root;

fn ssh_connection() -> SavedConnection {
    SavedConnection {
        id: "remote".to_string(),
        name: "Remote host".to_string(),
        connection_type: ConnectionType::Ssh,
        hypervisor: "qemu".to_string(),
        host: Some("192.0.2.10".to_string()),
        username: Some("admin".to_string()),
        ssh_port: Some(2222),
        tls_port: None,
        auto_connect: false,
        path: "system".to_string(),
    }
}

#[test]
fn agent_ssh_uri_never_requests_a_terminal_password() {
    assert_eq!(
        ssh_connection().build_uri(),
        "qemu+ssh://admin@192.0.2.10:2222/system?no_tty=1"
    );
}

#[test]
fn password_auth_uri_uses_libvirt_callback_transport_without_embedding_a_secret() {
    let uri = ssh_connection().password_auth_uri();
    assert_eq!(
        uri,
        "qemu+libssh2://admin@192.0.2.10:2222/system?sshauth=password,keyboard-interactive"
    );
    assert!(!uri.contains("password="));
}

#[test]
fn uris_of_each_transport_use_defaults_for_missing_parts() {
    let local = SavedConnection::local();
    assert_eq!(local.build_uri(), "qemu:///system");
    assert_eq!(connection_scope(&local), ConnectionScope::LocalSystem);

    let mut c = ssh_connection();
    c.ssh_port = None;
    c.username = None;
    assert_eq!(c.build_uri(), "qemu+ssh://root@192.0.2.10/system?no_tty=1");

    c.connection_type = ConnectionType::Tls;
    assert_eq!(c.build_uri(), "qemu+tls://192.0.2.10/system");
    c.tls_port = Some(16600);
    assert_eq!(c.build_uri(), "qemu+tls://192.0.2.10:16600/system");
    c.host = None;
    c.connection_type = ConnectionType::Tcp;
    assert_eq!(c.build_uri(), "qemu+tcp://localhost/system");
    assert_eq!(connection_scope(&c), ConnectionScope::Remote);

    let mut session = SavedConnection::local();
    session.path = "session".to_string();
    assert_eq!(connection_scope(&session), ConnectionScope::LocalSession);
}

#[test]
fn cloud_init_attachment_escapes_the_iso_path() {
    let definition =
        CloudInitService::attachment_definition("/images/cloud-init & data.iso", "sdb", "sata")
            .unwrap();

    validate_document_root(
        &format!("<domain><devices>{definition}</devices></domain>"),
        "domain",
    )
    .unwrap();
    assert!(definition.contains("cloud-init &amp; data.iso"));
}

#[test]
fn cloud_init_filename_rejects_structure_like_vm_names() {
    assert!(CloudInitService::iso_path_for_vm("name</name><disk").is_err());
}

#[test]
fn cloud_init_cleanup_cannot_target_an_arbitrary_file() {
    assert!(CloudInitService::check_deletable_iso("/tmp/not-a-cloud-init.iso").is_err());
}

#[test]
fn cloud_init_paths_stay_in_the_managed_directory() {
    assert_eq!(
        CloudInitService::iso_path_for_vm("web-01").unwrap(),
        "/var/lib/libvirt/images/web-01-cloud-init.iso"
    );
    assert!(CloudInitService::check_deletable_iso("/var/lib/libvirt/images/web-01-cloud-init.iso").is_ok());
    assert!(CloudInitService::check_deletable_iso("/var/lib/libvirt/images/a/b-cloud-init.iso").is_err());
    assert!(CloudInitService::check_deletable_iso("/var/lib/libvirt/images//web-01-cloud-init.iso").is_ok());
    assert!(CloudInitService::check_deletable_iso("/var/lib/libvirt/images/web-01-cloud-init.iso/").is_ok());
    assert!(CloudInitService::check_deletable_iso("/var/lib/libvirt/images/web-01.iso").is_err());
    assert!(CloudInitService::check_deletable_iso("/etc/web-01-cloud-init.iso").is_err());
    assert!(CloudInitService::iso_path_for_vm("").is_err());
    assert!(CloudInitService::attachment_definition("/x.iso", "sd\u{1}b", "sata").is_err());
}

fn saved(id: &str, kind: ConnectionType) -> SavedConnection {
    SavedConnection {
        id: id.to_string(),
        name: format!("{id} host"),
        connection_type: kind,
        hypervisor: "qemu".to_string(),
        host: Some("192.0.2.20".to_string()),
        username: None,
        ssh_port: None,
        tls_port: None,
        auto_connect: false,
        path: "system".to_string(),
    }
}

#[test]
fn remote_connections_explicitly_gate_local_console_and_host_devices() {
    let capabilities = connection_capabilities(ConnectionScope::Remote, &"now".to_string());

    for kind in ["console", "guestAgent", "hostDevice"] {
        let capability = capabilities
            .iter()
            .find(|capability| capability.kind == kind)
            .unwrap();
        assert_eq!(capability.state, CapabilityState::Unavailable);
        assert_eq!(capability.reason_code.as_deref(), Some("requiresLocalHost"));
    }
    assert_eq!(
        capabilities
            .iter()
            .find(|capability| capability.kind == "migration")
            .unwrap()
            .state,
        CapabilityState::Available
    );
}

#[test]
fn unavailable_capability_is_rejected_before_a_host_local_operation() {
    let operation = ResolvedOperation {
        context: OperationContext {
            operation_id: "operation".to_string(),
            operation_kind: OperationKind::HostLocal,
            connection_id: "remote".to_string(),
            connection_label: "Remote".to_string(),
            connection_scope: ConnectionScope::Remote,
            capabilities: connection_capabilities(ConnectionScope::Remote, &"now".to_string()),
            target: None,
            captured_at: "now".to_string(),
        },
    };

    assert!(operation.require_capability("hostDevice").is_err());
    assert!(operation.require_capability("resourceManagement").is_ok());
}

#[test]
fn the_local_system_connection_offers_every_capability() {
    let caps = connection_capabilities(ConnectionScope::LocalSystem, &"t".to_string());
    assert_eq!(caps.len(), 5);
    assert!(caps.iter().all(|c| c.state == CapabilityState::Available && c.reason_code.is_none()));
    let session = connection_capabilities(ConnectionScope::LocalSession, &"t".to_string());
    assert_eq!(
        session.iter().filter(|c| c.state == CapabilityState::Unavailable).count(),
        3
    );
}

#[test]
fn a_new_registry_knows_only_the_local_connection() {
    let service = ConnectionService::new();
    let all = service.get_saved_connections().unwrap();
    assert_eq!(all.len(), 1);
    assert_eq!(all[0].id, "local");
    assert!(service.get_active_connection_info().is_none());
    assert!(!service.is_connected(true));
}

#[test]
fn saved_connections_are_added_updated_and_removed_by_id() {
    let mut service = ConnectionService::new();
    service.add_connection(saved("lab", ConnectionType::Ssh)).unwrap();
    let dup = service.add_connection(saved("lab", ConnectionType::Tls)).unwrap_err();
    assert_eq!(dup.message(), "Connection 'lab' already exists");
    assert_eq!(service.saved_connection("lab").unwrap().connection_type, ConnectionType::Ssh);

    let mut changed = saved("lab", ConnectionType::Tcp);
    changed.name = "Lab".to_string();
    service.update_connection(changed).unwrap();
    let lab = service.saved_connection("lab").unwrap();
    assert_eq!(lab.name, "Lab");
    assert_eq!(lab.connection_type, ConnectionType::Tcp);
    assert_eq!(
        service.update_connection(saved("nowhere", ConnectionType::Ssh)).unwrap_err().message(),
        "Connection 'nowhere' not found"
    );

    assert_eq!(
        service.remove_connection("local").unwrap_err().message(),
        "Cannot remove local connection"
    );
    service.remove_connection("lab").unwrap();
    assert!(service.saved_connection("lab").is_err());
    assert_eq!(service.get_saved_connections().unwrap().len(), 1);
}

#[test]
fn selecting_and_closing_connections() {
    let mut service = ConnectionService::new();
    service.add_connection(saved("lab", ConnectionType::Ssh)).unwrap();
    let local = service.saved_connection("local").unwrap();
    service.activate_connection("local", local);
    let lab = service.saved_connection("lab").unwrap();
    service.activate_connection("lab", lab);
    assert_eq!(service.active_connection_id(), Some("lab".to_string()));
    assert_eq!(service.get_active_connection_info().unwrap().id, "lab");

    service.disconnect("local").unwrap();
    assert_eq!(service.active_connection_id(), Some("lab".to_string()));
    service.disconnect("lab").unwrap();
    assert_eq!(service.active_connection_id(), None);
    assert!(service.get_active_connection_info().is_none());
}

#[test]
fn operations_resolve_against_the_selected_connection() {
    let mut service = ConnectionService::new();
    let none = service
        .resolve_operation_at(OperationKind::Query, None, true, "op".to_string(), "t".to_string())
        .unwrap_err();
    assert_eq!(none.message(), "No selected connection is active");

    service.add_connection(saved("lab", ConnectionType::Ssh)).unwrap();
    let lab = service.saved_connection("lab").unwrap();
    service.activate_connection("lab", lab);
    let dead = service
        .resolve_operation_at(OperationKind::Query, None, false, "op".to_string(), "t".to_string())
        .unwrap_err();
    assert_eq!(dead.message(), "The selected connection is unavailable");

    let resolved = service
        .resolve_operation_at(OperationKind::Mutation, None, true, "op-1".to_string(), "t0".to_string())
        .unwrap();
    assert_eq!(resolved.context.connection_id, "lab");
    assert_eq!(resolved.context.connection_label, "lab host");
    assert_eq!(resolved.context.connection_scope, ConnectionScope::Remote);
    assert_eq!(resolved.context.operation_id, "op-1");
    assert!(resolved.require_capability("console").is_err());
    assert!(resolved.require_capability("migration").is_ok());

    let fresh = service.resolve_operation(OperationKind::Query, None, true).unwrap();
    assert_eq!(fresh.context.operation_id.len(), 36);
}

#[test]
fn password_logins_are_for_ssh_connections_only() {
    let mut service = ConnectionService::new();
    service.add_connection(saved("lab", ConnectionType::Ssh)).unwrap();
    service.add_connection(saved("tls", ConnectionType::Tls)).unwrap();
    assert_eq!(
        service.password_connection("lab", "").unwrap_err().message(),
        "An SSH password is required"
    );
    assert_eq!(
        service.password_connection("tls", "secret").unwrap_err().message(),
        "Password authentication is only available for SSH connections"
    );
    assert_eq!(service.password_connection("lab", "secret").unwrap().id, "lab");
    assert!(service.password_connection("missing", "secret").is_err());
    assert_eq!(credential_answer(2, "admin", "pw"), Some("admin".to_string()));
    assert_eq!(credential_answer(5, "admin", "pw"), Some("pw".to_string()));
    assert_eq!(credential_answer(6, "admin", "pw"), Some("pw".to_string()));
    assert_eq!(credential_answer(7, "admin", "pw"), Some("pw".to_string()));
    assert_eq!(credential_answer(1, "admin", "pw"), None);
}

#[test]
fn libvirt_versions_are_written_as_three_numbers() {
    assert_eq!(ConnectionService::version_text(8009000), "8.9.0");
    assert_eq!(ConnectionService::version_text(10000012), "10.0.12");
}

#[test]
fn gated_operations_need_the_local_system_connection() {
    let mut service = ConnectionService::new();
    service.add_connection(saved("lab", ConnectionType::Ssh)).unwrap();
    let lab = service.saved_connection("lab").unwrap();
    service.activate_connection("lab", lab);
    let e = service.resolve_console_operation(None, true).unwrap_err();
    assert_eq!(e.message(), "The selected connection does not support console operations");
    let e = service.resolve_host_local_operation(None, true).unwrap_err();
    assert_eq!(e.message(), "The selected connection does not support hostDevice operations");
    let e = service.resolve_guest_agent_operation(None, false).unwrap_err();
    assert_eq!(e.message(), "The selected connection is unavailable");

    let local = service.saved_connection("local").unwrap();
    service.activate_connection("local", local);
    let op = service.resolve_console_operation(None, true).unwrap();
    assert_eq!(op.context.operation_kind, OperationKind::Console);
    assert_eq!(op.context.connection_scope, ConnectionScope::LocalSystem);
    let op = service.resolve_guest_agent_operation(None, true).unwrap();
    assert_eq!(op.context.operation_kind, OperationKind::Query);
    let op = service.resolve_host_local_operation(None, true).unwrap();
    assert_eq!(op.context.operation_kind, OperationKind::HostLocal);
}

#[test]
fn removing_a_connection_keeps_another_selection() {
    let mut service = ConnectionService::new();
    service.add_connection(saved("lab", ConnectionType::Ssh)).unwrap();
    service.add_connection(saved("lab2", ConnectionType::Tls)).unwrap();
    let lab = service.saved_connection("lab").unwrap();
    service.activate_connection("lab", lab);
    let lab2 = service.saved_connection("lab2").unwrap();
    service.activate_connection("lab2", lab2);
    service.remove_connection("lab").unwrap();
    assert_eq!(service.active_connection_id(), Some("lab2".to_string()));
    service.remove_connection("lab2").unwrap();
    assert_eq!(service.active_connection_id(), None);
}

#[test]
fn cloud_init_image_plan() {
    let config = kvm_manager::vm::CloudInitConfig {
        enabled: true,
        user_data: "#cloud-config\nhostname: web\n".to_string(),
        network_config: Some("version: 2\n".to_string()),
    };
    let id = "1b4e28ba-2fa1-11d2-883f-0016d3cca427";
    let plan = CloudInitService::cloud_init_plan(&config, "web01", id).unwrap();
    assert_eq!(plan.iso_path, "/var/lib/libvirt/images/web01-cloud-init.iso");
    assert_eq!(plan.work_dir_name, format!("cloud-init-{id}"));
    assert_eq!(plan.user_data, "#cloud-config\nhostname: web\n");
    assert_eq!(plan.meta_data, format!("instance-id: {id}\n"));
    assert_eq!(plan.network_config.as_deref(), Some("version: 2\n"));
    let e = CloudInitService::cloud_init_plan(&config, "web01", "not-a-uuid").unwrap_err();
    assert_eq!(e.message(), "Cloud-init instance ID must be a UUID");
    assert!(CloudInitService::cloud_init_plan(&config, "../web", id).is_err());
    assert_eq!(CloudInitService::cloud_init_target("q35"), ("sdb".to_string(), "sata".to_string()));
    assert_eq!(CloudInitService::cloud_init_target("pc"), ("hdd".to_string(), "ide".to_string()));
    assert_eq!(
        CloudInitService::iso_tool_args("/x.iso", "/tmp/d"),
        vec!["-output", "/x.iso", "-volid", "cidata", "-joliet", "-rock", "/tmp/d"]
    );
}
