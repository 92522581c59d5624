use kvm_manager::distribution::{DistributionFamily, DistributionProfileService};
use kvm_manager::graphics::GraphicsWorkaroundService;
use kvm_manager::operation::ConnectionScope;
use kvm_manager::readiness_repair::{ReadinessRepairOutcome, ReadinessRepairService};

#[test]
fn enables_workaround_only_for_unconfigured_linux_nvidia_hosts() {
    assert!(GraphicsWorkaroundService::should_disable_dmabuf(true, true, false));
    assert!(!GraphicsWorkaroundService::should_disable_dmabuf(true, true, true));
    assert!(!GraphicsWorkaroundService::should_disable_dmabuf(true, false, false));
    assert!(!GraphicsWorkaroundService::should_disable_dmabuf(false, true, false));
}

#[test]
fn allowlist_rejects_unknown_and_best_effort_actions() {
    let arch = DistributionProfileService::classify_os_release("ID=arch\nNAME=Arch");
    let unknown = DistributionProfileService::classify_os_release("ID=unknown\nNAME=Other");
    assert!(ReadinessRepairService::is_automated_action("install_firmware", &arch));
    assert!(!ReadinessRepairService::is_automated_action("run_anything", &arch));
    assert!(!ReadinessRepairService::is_known_action("../../bin/sh"));
    assert!(!ReadinessRepairService::is_automated_action("install_firmware", &unknown));
}

#[test]
fn every_executable_and_argument_is_backend_owned() {
    for release in ["ID=arch", "ID=ubuntu", "ID=fedora", "ID=opensuse-tumbleweed"] {
        let profile = DistributionProfileService::classify_os_release(release);
        for action in ["install_firmware", "install_tpm"] {
            let plan = ReadinessRepairService::plan(action, &profile).unwrap();
            assert!(plan.program.starts_with("/usr/bin/"));
            assert!(plan.args.iter().all(|arg| !arg.contains(';') && !arg.contains("$(")));
        }
    }
}

#[test]
fn os_release_is_parsed_with_quotes_comments_and_later_keys_winning() {
    let entries = DistributionProfileService::parse_os_release(
        "# comment\n  name = \"Fedora Linux\"  \r\nID='fedora'\n\nbroken line\nID=rhel\n",
    );
    let pairs: Vec<(String, String)> = entries;
    assert_eq!(
        pairs,
        vec![("ID".to_string(), "rhel".to_string()), ("NAME".to_string(), "Fedora Linux".to_string())]
    );
}

#[test]
fn classification_covers_each_family_and_display_name_fallbacks() {
    let p = DistributionProfileService::classify_os_release(
        "ID=linuxmint\nPRETTY_NAME=\"Linux Mint 22\"\nNAME=Mint",
    );
    assert_eq!(p.family, DistributionFamily::DebianUbuntu);
    assert_eq!(p.display_name, "Linux Mint 22");
    assert_eq!(p.package_manager, "apt");
    assert!(p.supported);
    assert_eq!(p.packages, vec!["libvirt-daemon-system", "qemu-system-x86", "ovmf", "swtpm-tools"]);

    let p = DistributionProfileService::classify_os_release("ID=Rocky\nID_LIKE=\"rhel centos fedora\"");
    assert_eq!(p.family, DistributionFamily::FedoraRhel);
    assert_eq!(p.display_name, "Unknown Linux");

    let p = DistributionProfileService::classify_os_release("ID=sles\nNAME=SLES");
    assert_eq!(p.family, DistributionFamily::Opensuse);
    assert_eq!(p.package_manager, "zypper");

    let p = DistributionProfileService::classify_os_release("ID=garuda\nID_LIKE=arch");
    assert_eq!(p.family, DistributionFamily::ArchCachyos);

    let p = DistributionProfileService::classify_os_release("ID=nixos\nNAME=NixOS");
    assert_eq!(p.family, DistributionFamily::BestEffort);
    assert!(!p.supported);
    assert_eq!(p.package_manager, "unknown");
    assert_eq!(p.limitations, vec!["This distribution is not in the verified support matrix."]);
}

#[test]
fn scoped_unknown_profile_never_suggests_local_setup() {
    let p = DistributionProfileService::scoped_unknown("Remote connection");
    assert_eq!(p.family, DistributionFamily::BestEffort);
    assert_eq!(p.display_name, "Remote connection");
    assert_eq!(
        p.service,
        "Inspect this connection with its administrator; local setup commands are not applicable."
    );
    assert!(p.packages.is_empty());
}

#[test]
fn repairs_are_allowed_only_on_the_local_system() {
    let fedora = DistributionProfileService::classify_os_release("ID=fedora");
    assert!(ReadinessRepairService::is_allowed(&ConnectionScope::LocalSystem, "install_tpm", &fedora));
    assert!(!ReadinessRepairService::is_allowed(&ConnectionScope::Remote, "install_tpm", &fedora));
    assert!(!ReadinessRepairService::is_allowed(&ConnectionScope::LocalSession, "install_tpm", &fedora));
    let plan = ReadinessRepairService::plan("install_tpm", &fedora).unwrap();
    assert_eq!(plan.program, "/usr/bin/dnf");
    assert_eq!(plan.args, vec!["install", "-y", "swtpm"]);
}

#[test]
fn exit_statuses_map_to_repair_outcomes() {
    let r = ReadinessRepairService::repair_result("install_tpm", "local", None);
    assert_eq!(r.outcome, ReadinessRepairOutcome::InspectionRequired);
    let r = ReadinessRepairService::repair_result("install_tpm", "local", Some((true, Some(0))));
    assert_eq!(r.outcome, ReadinessRepairOutcome::Applied);
    assert_eq!(r.summary, "The repair completed. Readiness will now be checked again.");
    let r = ReadinessRepairService::repair_result("install_tpm", "local", Some((false, Some(126))));
    assert_eq!(r.outcome, ReadinessRepairOutcome::Cancelled);
    let r = ReadinessRepairService::repair_result("install_tpm", "local", Some((false, Some(127))));
    assert_eq!(r.outcome, ReadinessRepairOutcome::Rejected);
    let r = ReadinessRepairService::repair_result("install_tpm", "local", Some((false, None)));
    assert_eq!(r.outcome, ReadinessRepairOutcome::Failed);
    assert_eq!(r.action_id, "install_tpm");
    assert_eq!(r.connection_id, "local");
}

#[test]
fn domain_capabilities_are_uefi_secure_boot_and_tpm_in_any_letter_case() {
    let xml = "<domainCapabilities><os supported='yes'><enum name='firmware'><value>efi</value></enum></os><devices><tpm supported='yes'/></devices></domainCapabilities>";
    let lower = kvm_manager::host_readiness::HostReadinessService::domain_capabilities(xml);
    let upper = kvm_manager::host_readiness::HostReadinessService::domain_capabilities(&xml.to_ascii_uppercase());
    let kinds: Vec<&str> = lower.iter().map(|c| c.kind.as_str()).collect();
    assert_eq!(kinds, vec!["uefi", "secure_boot", "tpm"]);
    assert_eq!(lower.len(), upper.len());
    for (a, b) in lower.iter().zip(upper.iter()) {
        assert_eq!(a.state, b.state);
        assert_eq!(a.remediation.is_some(), a.state == kvm_manager::operation::CapabilityState::Unavailable);
    }
    assert_eq!(lower[0].state, kvm_manager::operation::CapabilityState::Available);
    assert_eq!(lower[1].state, kvm_manager::operation::CapabilityState::Unavailable);
    assert_eq!(lower[2].state, kvm_manager::operation::CapabilityState::Available);
}
