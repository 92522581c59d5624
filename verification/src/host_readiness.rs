//! Host capability diagnostics: each probe maps independently to an actionable result, and
//! every unavailable capability receives a repair or guidance action.
use crate::distribution::{DistributionFamily, DistributionProfile, ProfileView, strings_view};
use crate::operation::{CapabilityState, ConnectionScope, OperationContext, opt_view};
use crate::text::{
    chars_of, contains, contains_chars, contains_str, find, find_from, find_str, find_str_from,
    lower, lower_chars, starts_with, starts_with_str, str_eq,
};
use vstd::prelude::*;

verus! {

/// How a repair action is carried out.
#[derive(Clone, Copy, Debug, PartialEq, Eq, Structural)]
pub enum ReadinessRepairMode {
    Automated,
    Navigate,
    Manual,
}

#[derive(Debug)]
pub struct ReadinessRepairAction {
    pub id: String,
    pub mode: ReadinessRepairMode,
    pub title: String,
    pub effect: String,
    pub requires_privilege: bool,
    pub requires_confirmation: bool,
    pub expected_connection_id: String,
    pub steps: Vec<String>,
}

/// The outcome of one capability check.
#[derive(Debug)]
pub struct CapabilityResult {
    pub kind: String,
    pub state: CapabilityState,
    pub summary: String,
    pub remediation: Option<String>,
    pub details: Option<String>,
    pub repair_action: Option<ReadinessRepairAction>,
}

/// What the local host probes found.
#[derive(Clone, Copy, Debug)]
pub struct HostProbe {
    pub libvirt_access: bool,
    pub qemu_emulator: bool,
    pub kvm: bool,
    pub uefi: bool,
    pub secure_boot: bool,
    pub forwarding_privilege: bool,
}

#[derive(Debug)]
pub struct HostReadinessReport {
    pub checked_at: String,
    pub connection_uri: String,
    pub distribution: DistributionProfile,
    pub overall_state: String,
    pub capabilities: Vec<CapabilityResult>,
}

pub struct RepairActionView {
    pub id: Seq<char>,
    pub mode: ReadinessRepairMode,
    pub title: Seq<char>,
    pub effect: Seq<char>,
    pub requires_privilege: bool,
    pub requires_confirmation: bool,
    pub expected_connection_id: Seq<char>,
    pub steps: Seq<Seq<char>>,
}

pub struct CapabilityView {
    pub kind: Seq<char>,
    pub state: CapabilityState,
    pub summary: Seq<char>,
    pub remediation: Option<Seq<char>>,
    pub details: Option<Seq<char>>,
    pub repair_action: Option<RepairActionView>,
}

impl View for ReadinessRepairAction {
    type V = RepairActionView;

    open spec fn view(&self) -> RepairActionView {
        RepairActionView {
            id: self.id@,
            mode: self.mode,
            title: self.title@,
            effect: self.effect@,
            requires_privilege: self.requires_privilege,
            requires_confirmation: self.requires_confirmation,
            expected_connection_id: self.expected_connection_id@,
            steps: strings_view(self.steps@),
        }
    }
}

pub open spec fn action_opt_view(a: Option<ReadinessRepairAction>) -> Option<RepairActionView> {
    match a {
        Some(x) => Some(x@),
        None => None,
    }
}

impl View for CapabilityResult {
    type V = CapabilityView;

    open spec fn view(&self) -> CapabilityView {
        CapabilityView {
            kind: self.kind@,
            state: self.state,
            summary: self.summary@,
            remediation: opt_view(self.remediation),
            details: opt_view(self.details),
            repair_action: action_opt_view(self.repair_action),
        }
    }
}

pub open spec fn caps_view(v: Seq<CapabilityResult>) -> Seq<CapabilityView> {
    v.map_values(|c: CapabilityResult| c@)
}

/// `kind` with each `_` replaced by a space.
pub open spec fn spaced(kind: Seq<char>) -> Seq<char> {
    kind.map_values(|c: char| if c == '_' { ' ' } else { c })
}

/// The result of a check that found `available`.
pub open spec fn capability_view(
    kind: Seq<char>,
    available: bool,
    available_summary: Seq<char>,
    remediation: Seq<char>,
) -> CapabilityView {
    CapabilityView {
        kind,
        state: if available {
            CapabilityState::Available
        } else {
            CapabilityState::Unavailable
        },
        summary: if available {
            available_summary
        } else {
            spaced(kind) + " is unavailable."@
        },
        remediation: if available {
            None
        } else {
            Some(remediation)
        },
        details: None,
        repair_action: None,
    }
}

/// An `<enum name='X'>` section (either quote style) that lists `<value>yes</value>` before
/// its first `</enum>`.
pub open spec fn enum_has_yes_spec(xml: Seq<char>, name: Seq<char>) -> bool {
    let single = "name='"@ + name + "'"@;
    let double = "name=\""@ + name + "\""@;
    let start = match find(xml, single) {
        Some(s) => Some(s),
        None => find(xml, double),
    };
    match start {
        None => false,
        Some(s) => match find(xml.subrange(s, xml.len() as int), "</enum>"@) {
            None => false,
            Some(e) => contains(xml.subrange(s, s + e), "<value>yes</value>"@),
        },
    }
}

/// Firmware and TPM support advertised by a domain-capabilities document.
pub open spec fn domain_flags(xml: Seq<char>) -> (bool, bool, bool, bool) {
    let l = lower(xml);
    let uefi = contains(l, "<value>efi</value>"@) || contains(l, "firmware='efi'"@) || contains(
        l,
        "firmware=\"efi\""@,
    );
    let secure_boot = uefi && (enum_has_yes_spec(l, "secureboot"@) || contains(l, "secure-boot"@));
    let enrolled = enum_has_yes_spec(l, "enrolledkeys"@) || contains(l, "enrolled-keys"@);
    let tpm = (contains(l, "<tpm"@) && !contains(l, "<tpm supported='no'"@)) || contains(
        l,
        "<value>tpm-tis</value>"@,
    );
    (uefi, secure_boot, enrolled, tpm)
}

pub open spec fn domain_capabilities_spec(xml: Seq<char>) -> Seq<CapabilityView> {
    let (uefi, secure_boot, enrolled, tpm) = domain_flags(xml);
    seq![
        capability_view(
            "uefi"@,
            uefi,
            "UEFI firmware is available through libvirt."@,
            "Install firmware supported by this connection and refresh capabilities."@,
        ),
        capability_view(
            "secure_boot"@,
            secure_boot && enrolled,
            "Secure Boot firmware with enrolled keys is available through libvirt."@,
            if secure_boot && !enrolled {
                "Secure Boot firmware is installed, but its variable-store template does not contain enrolled signing keys."@
            } else {
                "Install Secure Boot firmware with an enrolled-key template supported by this connection."@
            },
        ),
        capability_view(
            "tpm"@,
            tpm,
            "A TPM emulator is available through libvirt."@,
            "Install and configure a libvirt-supported TPM emulator on this connection."@,
        ),
    ]
}

/// The capabilities read from domain capabilities are always UEFI, Secure Boot and TPM,
/// in that order; Secure Boot is available only where UEFI is; a capability carries a
/// remediation exactly when it is unavailable; and letter case in the document does not
/// matter.
pub proof fn law_domain_capabilities_shape(xml: Seq<char>, other: Seq<char>)
    ensures
        domain_capabilities_spec(xml).len() == 3,
        domain_capabilities_spec(xml)[0].kind == "uefi"@,
        domain_capabilities_spec(xml)[1].kind == "secure_boot"@,
        domain_capabilities_spec(xml)[2].kind == "tpm"@,
        domain_capabilities_spec(xml)[1].state == CapabilityState::Available ==> domain_capabilities_spec(xml)[0].state
            == CapabilityState::Available,
        forall|i: int|
            0 <= i < 3 ==> ((#[trigger] domain_capabilities_spec(xml)[i]).state == CapabilityState::Unavailable
                <==> domain_capabilities_spec(xml)[i].remediation is Some),
        lower(xml) == lower(other) ==> domain_capabilities_spec(xml) == domain_capabilities_spec(other),
{
    assert forall|i: int|
        0 <= i < 3 implies ((#[trigger] domain_capabilities_spec(xml)[i]).state == CapabilityState::Unavailable
            <==> domain_capabilities_spec(xml)[i].remediation is Some) by {
        if i == 0 {
        } else if i == 1 {
        } else {
        }
    }
}

/// The capabilities of a host report, in order; the first four are required.
pub open spec fn report_capabilities(probe: HostProbe) -> Seq<CapabilityView> {
    seq![
        capability_view(
            "libvirt_access"@,
            probe.libvirt_access,
            "Libvirt connection tools are available."@,
            "Install and enable libvirt, then verify access to qemu:///system."@,
        ),
        capability_view(
            "qemu_emulator"@,
            probe.qemu_emulator,
            "A QEMU system emulator is available."@,
            "Install the QEMU system emulator package for this distribution."@,
        ),
        capability_view(
            "kvm"@,
            probe.kvm,
            "KVM device access is available."@,
            "Enable virtualization in firmware and ensure /dev/kvm is accessible."@,
        ),
        capability_view(
            "uefi"@,
            probe.uefi,
            "UEFI firmware was found."@,
            "Install the distribution's UEFI firmware package."@,
        ),
        capability_view(
            "secure_boot"@,
            probe.secure_boot,
            "Secure Boot capable firmware was found."@,
            "Install Secure Boot capable UEFI firmware for this distribution."@,
        ),
        capability_view(
            "forwarding_privilege"@,
            probe.forwarding_privilege,
            "The native forwarding helper is installed."@,
            "Install a supported native KVM Manager package to use port forwarding."@,
        ),
    ]
}

/// The first package whose name contains `pat`.
pub open spec fn first_containing(pkgs: Seq<Seq<char>>, pat: Seq<char>, from: int) -> Option<
    Seq<char>,
>
    decreases pkgs.len() - from,
{
    if from < 0 || from >= pkgs.len() {
        None
    } else if contains(pkgs[from], pat) {
        Some(pkgs[from])
    } else {
        first_containing(pkgs, pat, from + 1)
    }
}

/// The first package whose name starts with `pat`.
pub open spec fn first_starting(pkgs: Seq<Seq<char>>, pat: Seq<char>, from: int) -> Option<
    Seq<char>,
>
    decreases pkgs.len() - from,
{
    if from < 0 || from >= pkgs.len() {
        None
    } else if starts_with(pkgs[from], pat) {
        Some(pkgs[from])
    } else {
        first_starting(pkgs, pat, from + 1)
    }
}

pub open spec fn install_effect(package: Option<Seq<char>>, fallback: Seq<char>, display: Seq<char>) -> Seq<char> {
    "Install package "@ + (match package {
        Some(p) => p,
        None => fallback,
    }) + " for "@ + display + "."@
}

/// Steps of the Secure Boot guidance on an Arch-family host.
pub open spec fn arch_secure_boot_steps(fw_vars_installed: bool) -> Seq<Seq<char>> {
    seq![
        "The edk2-ovmf package is already detected; reinstalling it will not add enrolled keys."@,
        "Option 1 \u{2014} continue without Secure Boot enforcement: Return to the VM wizard and select UEFI. TPM 2.0 can remain enabled. This does not satisfy the Windows 11 Secure Boot requirement."@,
        "Option 2 \u{2014} prepare for Windows 11 Secure Boot: An administrator must provide an enrolled-key firmware template to libvirt, or create and import the VM with its own enrolled NVRAM."@,
        if fw_vars_installed {
            "The virt-firmware key-enrollment utility is already installed on this host."@
        } else {
            "Run: sudo pacman -S --needed virt-firmware"@
        },
        "Do not overwrite the system OVMF_VARS template. KVM Manager does not currently automate the remaining Arch/CachyOS key-template setup because changing a shared template could affect other VMs."@,
        "Reference: https://wiki.archlinux.org/title/KVM#Enabling_Secure_Boot"@,
        "Use Recheck readiness only after libvirt advertises an enrolled-key firmware template. A VM-specific NVRAM change will not change this host-wide check."@,
    ]
}

pub open spec fn action_view(
    id: Seq<char>,
    mode: ReadinessRepairMode,
    title: Seq<char>,
    effect: Seq<char>,
    privileged: bool,
    connection_id: Seq<char>,
    steps: Seq<Seq<char>>,
) -> RepairActionView {
    RepairActionView {
        id,
        mode,
        title,
        effect,
        requires_privilege: privileged,
        requires_confirmation: mode == ReadinessRepairMode::Automated,
        expected_connection_id: connection_id,
        steps,
    }
}

/// The repair or guidance action attached to an unavailable capability.
pub open spec fn repair_action_for(
    cap: CapabilityView,
    scope: ConnectionScope,
    connection_id: Seq<char>,
    profile: ProfileView,
    fw_vars_installed: bool,
) -> RepairActionView {
    let local_supported = scope == ConnectionScope::LocalSystem && profile.supported;
    if cap.kind == "uefi"@ && local_supported {
        action_view(
            "install_firmware"@,
            ReadinessRepairMode::Automated,
            "Install virtualization firmware"@,
            install_effect(
                first_containing(profile.packages, "ovmf"@, 0),
                "the verified UEFI firmware package"@,
                profile.display_name,
            ),
            true,
            connection_id,
            seq![
                "Authorize the package installation when prompted."@,
                "Refresh libvirt capabilities after installation."@,
            ],
        )
    } else if cap.kind == "tpm"@ && local_supported {
        action_view(
            "install_tpm"@,
            ReadinessRepairMode::Automated,
            "Install TPM emulation support"@,
            install_effect(
                first_starting(profile.packages, "swtpm"@, 0),
                "the verified TPM emulator package"@,
                profile.display_name,
            ),
            true,
            connection_id,
            seq![
                "Authorize the package installation when prompted."@,
                "Refresh readiness after installation."@,
            ],
        )
    } else if cap.kind == "storage"@ {
        action_view(
            "open_storage"@,
            ReadinessRepairMode::Navigate,
            "Configure storage"@,
            "Open storage management for the selected connection."@,
            false,
            connection_id,
            seq!["Create or activate a storage pool, then return and refresh readiness."@],
        )
    } else if cap.kind == "virtualization"@ {
        action_view(
            "firmware_virtualization"@,
            ReadinessRepairMode::Manual,
            "Enable hardware virtualization"@,
            "Review firmware virtualization and KVM access for this host."@,
            false,
            connection_id,
            seq![
                "Enable Intel VT-x or AMD-V in system firmware."@,
                "Restart the host and verify KVM access."@,
            ],
        )
    } else if cap.kind == "secure_boot"@ {
        let arch = profile.family == DistributionFamily::ArchCachyos;
        action_view(
            "secure_boot_guidance"@,
            ReadinessRepairMode::Manual,
            "Configure Secure Boot firmware"@,
            if arch {
                "CachyOS has Secure Boot-capable OVMF installed, but Arch-family edk2-ovmf does not provide a variable-store template with Microsoft keys already enrolled."@
            } else {
                "Secure Boot firmware and an enrolled-key variable-store template must both be advertised by the selected libvirt connection."@
            },
            false,
            connection_id,
            if arch {
                arch_secure_boot_steps(fw_vars_installed)
            } else {
                seq![
                    "Verify the Secure Boot/enrolled-key firmware package for "@ + profile.display_name
                        + " is installed."@,
                    "Restart or refresh the libvirt service after changing firmware packages."@,
                    "Select Recheck readiness and confirm that both Secure Boot and enrolled keys are available."@,
                ]
            },
        )
    } else {
        action_view(
            "manual_review"@,
            ReadinessRepairMode::Manual,
            "Review setup guidance"@,
            match cap.remediation {
                Some(r) => r,
                None => "Review this requirement with the host administrator."@,
            },
            false,
            connection_id,
            seq![
                match cap.remediation {
                    Some(r) => r,
                    None => "Contact the selected host administrator."@,
                },
            ],
        )
    }
}

/// `cap` with `action` attached.
pub open spec fn with_action(cap: CapabilityView, action: RepairActionView) -> CapabilityView {
    CapabilityView { repair_action: Some(action), ..cap }
}

pub struct HostReadinessService;

fn replace_underscores(kind: &str) -> (r: String)
    ensures
        r@ == spaced(kind@),
{
    let v = chars_of(kind);
    let mut r = String::new();
    let mut i: usize = 0;
    while i < v.len()
        invariant
            v@ == kind@,
            i <= v@.len(),
            r@ == spaced(kind@.subrange(0, i as int)),
        decreases v@.len() - i,
    {
        let c = v[i];
        crate::text::push_char(&mut r, if c == '_' { ' ' } else { c });
        proof {
            assert(spaced(kind@.subrange(0, i + 1)) =~= spaced(kind@.subrange(0, i as int)).push(
                if c == '_' { ' ' } else { c },
            ));
        }
        i = i + 1;
    }
    proof {
        assert(kind@.subrange(0, kind@.len() as int) =~= kind@);
    }
    r
}

impl HostReadinessService {
    /// The result of one check.
    pub fn capability(kind: &str, available: bool, available_summary: &str, remediation: &str) -> (r:
        CapabilityResult)
        ensures
            r@ == capability_view(kind@, available, available_summary@, remediation@),
    {
        let summary = if available {
            String::from_str(available_summary)
        } else {
            let mut s = replace_underscores(kind);
            s.append(" is unavailable.");
            s
        };
        CapabilityResult {
            kind: String::from_str(kind),
            state: if available {
                CapabilityState::Available
            } else {
                CapabilityState::Unavailable
            },
            summary,
            remediation: if available {
                None
            } else {
                Some(String::from_str(remediation))
            },
            details: None,
            repair_action: None,
        }
    }

    /// Whether the `enum_name` enumeration of a lower-case capabilities document offers `yes`.
    pub fn enum_has_yes(xml: &str, enum_name: &str) -> (r: bool)
        ensures
            r == enum_has_yes_spec(xml@, enum_name@),
    {
        let v = chars_of(xml);
        let mut single = String::from_str("name='");
        single.append(enum_name);
        single.append("'");
        let mut double = String::from_str("name=\"");
        double.append(enum_name);
        double.append("\"");
        let sv = chars_of(single.as_str());
        let dv = chars_of(double.as_str());
        let start = match crate::text::find_at(v.as_slice(), sv.as_slice()) {
            Some(s) => s,
            None => match crate::text::find_at(v.as_slice(), dv.as_slice()) {
                Some(s) => s,
                None => return false,
            },
        };
        let n = v.len();
        let rest = crate::text::copy_range(v.as_slice(), start, n);
        let end = match find_str(rest.as_slice(), "</enum>") {
            Some(e) => e,
            None => return false,
        };
        let section = crate::text::copy_range(v.as_slice(), start, start + end);
        proof {
            assert(rest@.subrange(0, end as int) =~= section@);
        }
        contains_str(section.as_slice(), "<value>yes</value>")
    }

    /// The firmware and TPM capabilities that a domain-capabilities document advertises.
    pub fn domain_capabilities(xml: &str) -> (r: Vec<CapabilityResult>)
        ensures
            caps_view(r@) == domain_capabilities_spec(xml@),
    {
        let lv = lower_chars(chars_of(xml).as_slice());
        let lower_s = crate::text::string_of_all(lv.as_slice());
        let l = lower_s.as_str();
        let uefi = contains_str(lv.as_slice(), "<value>efi</value>") || contains_str(
            lv.as_slice(),
            "firmware='efi'",
        ) || contains_str(lv.as_slice(), "firmware=\"efi\"");
        let secure_boot = uefi && (Self::enum_has_yes(l, "secureboot") || contains_str(
            lv.as_slice(),
            "secure-boot",
        ));
        let enrolled_keys = Self::enum_has_yes(l, "enrolledkeys") || contains_str(
            lv.as_slice(),
            "enrolled-keys",
        );
        let secure = secure_boot && enrolled_keys;
        let tpm = (contains_str(lv.as_slice(), "<tpm") && !contains_str(
            lv.as_slice(),
            "<tpm supported='no'",
        )) || contains_str(lv.as_slice(), "<value>tpm-tis</value>");
        let mut r: Vec<CapabilityResult> = Vec::new();
        r.push(
            Self::capability(
                "uefi",
                uefi,
                "UEFI firmware is available through libvirt.",
                "Install firmware supported by this connection and refresh capabilities.",
            ),
        );
        r.push(
            Self::capability(
                "secure_boot",
                secure,
                "Secure Boot firmware with enrolled keys is available through libvirt.",
                if secure_boot && !enrolled_keys {
                    "Secure Boot firmware is installed, but its variable-store template does not contain enrolled signing keys."
                } else {
                    "Install Secure Boot firmware with an enrolled-key template supported by this connection."
                },
            ),
        );
        r.push(
            Self::capability(
                "tpm",
                tpm,
                "A TPM emulator is available through libvirt.",
                "Install and configure a libvirt-supported TPM emulator on this connection.",
            ),
        );
        proof {
            assert(caps_view(r@) =~= domain_capabilities_spec(xml@));
        }
        r
    }

    /// The readiness report of the local host, checked at `checked_at`: ready when the
    /// first four capabilities (libvirt, QEMU, KVM, UEFI) are available.
    pub fn report(profile: DistributionProfile, probe: HostProbe, checked_at: String) -> (r:
        HostReadinessReport)
        ensures
            caps_view(r.capabilities@) == report_capabilities(probe),
            r.overall_state@ == (if probe.libvirt_access && probe.qemu_emulator && probe.kvm
                && probe.uefi {
                "ready"@
            } else {
                "degraded"@
            }),
            r.connection_uri@ == "qemu:///system"@,
            r.checked_at@ == checked_at@,
            r.distribution@ == profile@,
    {
        let mut capabilities: Vec<CapabilityResult> = Vec::new();
        capabilities.push(
            Self::capability(
                "libvirt_access",
                probe.libvirt_access,
                "Libvirt connection tools are available.",
                "Install and enable libvirt, then verify access to qemu:///system.",
            ),
        );
        capabilities.push(
            Self::capability(
                "qemu_emulator",
                probe.qemu_emulator,
                "A QEMU system emulator is available.",
                "Install the QEMU system emulator package for this distribution.",
            ),
        );
        capabilities.push(
            Self::capability(
                "kvm",
                probe.kvm,
                "KVM device access is available.",
                "Enable virtualization in firmware and ensure /dev/kvm is accessible.",
            ),
        );
        capabilities.push(
            Self::capability(
                "uefi",
                probe.uefi,
                "UEFI firmware was found.",
                "Install the distribution's UEFI firmware package.",
            ),
        );
        capabilities.push(
            Self::capability(
                "secure_boot",
                probe.secure_boot,
                "Secure Boot capable firmware was found.",
                "Install Secure Boot capable UEFI firmware for this distribution.",
            ),
        );
        capabilities.push(
            Self::capability(
                "forwarding_privilege",
                probe.forwarding_privilege,
                "The native forwarding helper is installed.",
                "Install a supported native KVM Manager package to use port forwarding.",
            ),
        );
        let required_ready = probe.libvirt_access && probe.qemu_emulator && probe.kvm
            && probe.uefi;
        proof {
            assert(caps_view(capabilities@) =~= report_capabilities(probe));
        }
        HostReadinessReport {
            checked_at,
            connection_uri: String::from_str("qemu:///system"),
            distribution: profile,
            overall_state: if required_ready {
                String::from_str("ready")
            } else {
                String::from_str("degraded")
            },
            capabilities,
        }
    }
}

impl HostReadinessService {
    /// The probes of the local host: whether `virsh` and `qemu-system-x86_64` ran, whether
    /// the KVM device exists, whether a UEFI firmware image is installed (which also stands
    /// for Secure Boot) and whether the forwarding helper is installed.
    pub fn probe_local(
        libvirt_access: bool,
        qemu_emulator: bool,
        kvm_device: bool,
        firmware_installed: bool,
        forwarding_helper_installed: bool,
    ) -> (r: HostProbe)
        ensures
            r == (HostProbe {
                libvirt_access,
                qemu_emulator,
                kvm: kvm_device,
                uefi: firmware_installed,
                secure_boot: firmware_installed,
                forwarding_privilege: forwarding_helper_installed,
            }),
    {
        HostProbe {
            libvirt_access,
            qemu_emulator,
            kvm: kvm_device,
            uefi: firmware_installed,
            secure_boot: firmware_installed,
            forwarding_privilege: forwarding_helper_installed,
        }
    }

    /// The readiness report of the local host, checked now: the distribution from the
    /// `os-release` contents (a best-effort profile when they could not be read) and the
    /// local probes.
    pub fn local_report(os_release: Option<String>, probe: HostProbe) -> (r: HostReadinessReport)
        ensures
            r.distribution@ == match os_release {
                Some(c) => crate::distribution::classify(c@),
                None => crate::distribution::best_effort_profile("Unknown Linux"@),
            },
            r.connection_uri@ == "qemu:///system"@,
            caps_view(r.capabilities@) == report_capabilities(probe),
            r.overall_state@ == (if probe.libvirt_access && probe.qemu_emulator && probe.kvm && probe.uefi {
                "ready"@
            } else {
                "degraded"@
            }),
    {
        let profile = match &os_release {
            Some(c) => crate::distribution::DistributionProfileService::classify_os_release(c.as_str()),
            None => crate::distribution::DistributionProfileService::best_effort("Unknown Linux"),
        };
        let now = crate::confirmation::utc_now();
        let checked_at = crate::confirmation::rfc3339(now.secs, now.nanos);
        Self::report(profile, probe, checked_at)
    }
}

fn strs(items: &[&str]) -> (r: Vec<String>)
    ensures
        strings_view(r@) == crate::distribution::strs_view(items@),
{
    let mut r: Vec<String> = Vec::new();
    let mut i: usize = 0;
    while i < items.len()
        invariant
            i <= items@.len(),
            strings_view(r@) =~= crate::distribution::strs_view(items@.subrange(0, i as int)),
        decreases items@.len() - i,
    {
        let ghost before = r@;
        let item = items[i];
        let s = String::from_str(item);
        r.push(s);
        proof {
            assert(strings_view(r@) =~= strings_view(before).push(s@));
            assert(crate::distribution::strs_view(items@.subrange(0, i + 1))
                =~= crate::distribution::strs_view(items@.subrange(0, i as int)).push(item@));
        }
        i = i + 1;
    }
    proof {
        assert(items@.subrange(0, items@.len() as int) =~= items@);
    }
    r
}

fn find_package(packages: &Vec<String>, pat: &str, prefix: bool) -> (r: Option<String>)
    ensures
        opt_view(r) == (if prefix {
            first_starting(strings_view(packages@), pat@, 0)
        } else {
            first_containing(strings_view(packages@), pat@, 0)
        }),
{
    let mut i: usize = 0;
    while i < packages.len()
        invariant
            i <= packages@.len(),
            (if prefix {
                first_starting(strings_view(packages@), pat@, 0)
            } else {
                first_containing(strings_view(packages@), pat@, 0)
            }) == (if prefix {
                first_starting(strings_view(packages@), pat@, i as int)
            } else {
                first_containing(strings_view(packages@), pat@, i as int)
            }),
        decreases packages@.len() - i,
    {
        let pv = chars_of(packages[i].as_str());
        let hit = if prefix {
            starts_with_str(pv.as_slice(), pat)
        } else {
            contains_str(pv.as_slice(), pat)
        };
        if hit {
            return Some(packages[i].clone());
        }
        i = i + 1;
    }
    None
}

fn make_action(
    id: &str,
    mode: ReadinessRepairMode,
    title: &str,
    effect: String,
    privileged: bool,
    connection_id: &String,
    steps: Vec<String>,
) -> (r: ReadinessRepairAction)
    ensures
        r@ == action_view(id@, mode, title@, effect@, privileged, connection_id@, strings_view(steps@)),
{
    ReadinessRepairAction {
        id: String::from_str(id),
        mode,
        title: String::from_str(title),
        effect,
        requires_privilege: privileged,
        requires_confirmation: mode == ReadinessRepairMode::Automated,
        expected_connection_id: connection_id.clone(),
        steps,
    }
}

fn install_effect_exec(package: Option<String>, fallback: &str, display: &String) -> (r: String)
    ensures
        r@ == install_effect(opt_view(package), fallback@, display@),
{
    let mut e = String::from_str("Install package ");
    match package {
        Some(p) => e.append(p.as_str()),
        None => e.append(fallback),
    }
    e.append(" for ");
    e.append(display.as_str());
    e.append(".");
    e
}

impl HostReadinessService {
    /// The repair or guidance action for one unavailable capability.
    pub fn repair_action(
        capability: &CapabilityResult,
        context: &OperationContext,
        profile: &DistributionProfile,
        fw_vars_installed: bool,
    ) -> (r: ReadinessRepairAction)
        ensures
            r@ == repair_action_for(
                capability@,
                context.connection_scope,
                context.connection_id@,
                profile@,
                fw_vars_installed,
            ),
    {
        let kind = capability.kind.as_str();
        let local_supported = context.connection_scope == ConnectionScope::LocalSystem
            && profile.supported;
        let cid = &context.connection_id;
        if str_eq(kind, "uefi") && local_supported {
            let package = find_package(&profile.packages, "ovmf", false);
            let effect = install_effect_exec(package, "the verified UEFI firmware package", &profile.display_name);
            let s = ["Authorize the package installation when prompted.", "Refresh libvirt capabilities after installation."];
            let steps = strs(&s);
            proof {
                assert(crate::distribution::strs_view(s@) =~= seq![
                    "Authorize the package installation when prompted."@,
                    "Refresh libvirt capabilities after installation."@,
                ]);
            }
            make_action("install_firmware", ReadinessRepairMode::Automated, "Install virtualization firmware", effect, true, cid, steps)
        } else if str_eq(kind, "tpm") && local_supported {
            let package = find_package(&profile.packages, "swtpm", true);
            let effect = install_effect_exec(package, "the verified TPM emulator package", &profile.display_name);
            let s = ["Authorize the package installation when prompted.", "Refresh readiness after installation."];
            let steps = strs(&s);
            proof {
                assert(crate::distribution::strs_view(s@) =~= seq![
                    "Authorize the package installation when prompted."@,
                    "Refresh readiness after installation."@,
                ]);
            }
            make_action("install_tpm", ReadinessRepairMode::Automated, "Install TPM emulation support", effect, true, cid, steps)
        } else if str_eq(kind, "storage") {
            let s = ["Create or activate a storage pool, then return and refresh readiness."];
            let steps = strs(&s);
            proof {
                assert(crate::distribution::strs_view(s@) =~= seq![
                    "Create or activate a storage pool, then return and refresh readiness."@,
                ]);
            }
            make_action("open_storage", ReadinessRepairMode::Navigate, "Configure storage",
                String::from_str("Open storage management for the selected connection."), false, cid, steps)
        } else if str_eq(kind, "virtualization") {
            let s = ["Enable Intel VT-x or AMD-V in system firmware.", "Restart the host and verify KVM access."];
            let steps = strs(&s);
            proof {
                assert(crate::distribution::strs_view(s@) =~= seq![
                    "Enable Intel VT-x or AMD-V in system firmware."@,
                    "Restart the host and verify KVM access."@,
                ]);
            }
            make_action("firmware_virtualization", ReadinessRepairMode::Manual, "Enable hardware virtualization",
                String::from_str("Review firmware virtualization and KVM access for this host."), false, cid, steps)
        } else if str_eq(kind, "secure_boot") {
            let arch = profile.family == DistributionFamily::ArchCachyos;
            let effect = if arch {
                String::from_str("CachyOS has Secure Boot-capable OVMF installed, but Arch-family edk2-ovmf does not provide a variable-store template with Microsoft keys already enrolled.")
            } else {
                String::from_str("Secure Boot firmware and an enrolled-key variable-store template must both be advertised by the selected libvirt connection.")
            };
            let steps = if arch {
                let s = [
                    "The edk2-ovmf package is already detected; reinstalling it will not add enrolled keys.",
                    "Option 1 \u{2014} continue without Secure Boot enforcement: Return to the VM wizard and select UEFI. TPM 2.0 can remain enabled. This does not satisfy the Windows 11 Secure Boot requirement.",
                    "Option 2 \u{2014} prepare for Windows 11 Secure Boot: An administrator must provide an enrolled-key firmware template to libvirt, or create and import the VM with its own enrolled NVRAM.",
                    if fw_vars_installed {
                        "The virt-firmware key-enrollment utility is already installed on this host."
                    } else {
                        "Run: sudo pacman -S --needed virt-firmware"
                    },
                    "Do not overwrite the system OVMF_VARS template. KVM Manager does not currently automate the remaining Arch/CachyOS key-template setup because changing a shared template could affect other VMs.",
                    "Reference: https://wiki.archlinux.org/title/KVM#Enabling_Secure_Boot",
                    "Use Recheck readiness only after libvirt advertises an enrolled-key firmware template. A VM-specific NVRAM change will not change this host-wide check.",
                ];
                let v = strs(&s);
                proof {
                    assert(crate::distribution::strs_view(s@) =~= arch_secure_boot_steps(fw_vars_installed));
                }
                v
            } else {
                let mut first = String::from_str("Verify the Secure Boot/enrolled-key firmware package for ");
                first.append(profile.display_name.as_str());
                first.append(" is installed.");
                let mut v: Vec<String> = Vec::new();
                v.push(first);
                v.push(String::from_str("Restart or refresh the libvirt service after changing firmware packages."));
                v.push(String::from_str("Select Recheck readiness and confirm that both Secure Boot and enrolled keys are available."));
                proof {
                    assert(strings_view(v@) =~= seq![
                        "Verify the Secure Boot/enrolled-key firmware package for "@ + profile.display_name@
                            + " is installed."@,
                        "Restart or refresh the libvirt service after changing firmware packages."@,
                        "Select Recheck readiness and confirm that both Secure Boot and enrolled keys are available."@,
                    ]);
                }
                v
            };
            make_action("secure_boot_guidance", ReadinessRepairMode::Manual, "Configure Secure Boot firmware", effect, false, cid, steps)
        } else {
            let effect = match &capability.remediation {
                Some(r) => r.clone(),
                None => String::from_str("Review this requirement with the host administrator."),
            };
            let step = match &capability.remediation {
                Some(r) => r.clone(),
                None => String::from_str("Contact the selected host administrator."),
            };
            let mut v: Vec<String> = Vec::new();
            v.push(step);
            proof {
                assert(strings_view(v@) =~= seq![
                    match capability@.remediation {
                        Some(r) => r,
                        None => "Contact the selected host administrator."@,
                    },
                ]);
            }
            make_action("manual_review", ReadinessRepairMode::Manual, "Review setup guidance", effect, false, cid, v)
        }
    }

    /// Attaches a repair or guidance action to every unavailable capability; available
    /// ones are left unchanged.
    pub fn attach_repair_actions(
        capabilities: &mut Vec<CapabilityResult>,
        context: &OperationContext,
        profile: &DistributionProfile,
        fw_vars_installed: bool,
    )
        ensures
            final(capabilities)@.len() == old(capabilities)@.len(),
            forall|i: int|
                0 <= i < old(capabilities)@.len() ==> #[trigger] final(capabilities)@[i]@ == (if old(
                    capabilities,
                )@[i].state == CapabilityState::Available {
                    old(capabilities)@[i]@
                } else {
                    with_action(
                        old(capabilities)@[i]@,
                        repair_action_for(
                            old(capabilities)@[i]@,
                            context.connection_scope,
                            context.connection_id@,
                            profile@,
                            fw_vars_installed,
                        ),
                    )
                }),
    {
        let mut input: Vec<CapabilityResult> = Vec::new();
        std::mem::swap(&mut input, capabilities);
        let ghost orig = input@;
        let mut out: Vec<CapabilityResult> = Vec::new();
        let n = input.len();
        while input.len() > 0
            invariant
                orig == old(capabilities)@,
                n == orig.len(),
                out@.len() <= n,
                input@ == orig.subrange(out@.len() as int, n as int),
                forall|i: int|
                    0 <= i < out@.len() ==> #[trigger] out@[i]@ == (if orig[i].state
                        == CapabilityState::Available {
                        orig[i]@
                    } else {
                        with_action(
                            orig[i]@,
                            repair_action_for(
                                orig[i]@,
                                context.connection_scope,
                                context.connection_id@,
                                profile@,
                                fw_vars_installed,
                            ),
                        )
                    }),
            decreases input@.len(),
        {
            let ghost idx = out@.len() as int;
            let mut c = input.remove(0);
            proof {
                assert(c == orig[idx]);
                assert(input@ =~= orig.subrange(idx + 1, n as int));
            }
            if c.state != CapabilityState::Available {
                let action = Self::repair_action(&c, context, profile, fw_vars_installed);
                c.repair_action = Some(action);
            }
            out.push(c);
        }
        *capabilities = out;
    }

    /// Marks the first capability of `kind` as required by the guest configuration when it
    /// is unavailable.
    pub fn require_capability(capabilities: &mut Vec<CapabilityResult>, kind: &str)
        ensures
            final(capabilities)@.len() == old(capabilities)@.len(),
            forall|i: int|
                0 <= i < old(capabilities)@.len() ==> #[trigger] final(capabilities)@[i]@ == (if i
                    == first_kind(caps_view(old(capabilities)@), kind@, 0) && old(
                    capabilities,
                )@[i].state != CapabilityState::Available {
                    CapabilityView {
                        details: Some("Required by the selected guest configuration."@),
                        ..old(capabilities)@[i]@
                    }
                } else {
                    old(capabilities)@[i]@
                }),
    {
        let mut i: usize = 0;
        while i < capabilities.len()
            invariant
                capabilities@ == old(capabilities)@,
                i <= capabilities@.len(),
                first_kind(caps_view(capabilities@), kind@, 0) == first_kind(caps_view(capabilities@), kind@, i as int),
            decreases capabilities@.len() - i,
        {
            if str_eq(capabilities[i].kind.as_str(), kind) {
                if capabilities[i].state != CapabilityState::Available {
                    let mut input: Vec<CapabilityResult> = Vec::new();
                    std::mem::swap(&mut input, capabilities);
                    let ghost orig = input@;
                    let mut c = input.remove(i);
                    c.details = Some(String::from_str("Required by the selected guest configuration."));
                    input.insert(i, c);
                    proof {
                        assert(input@ =~= orig.update(i as int, c));
                    }
                    *capabilities = input;
                }
                return;
            }
            i = i + 1;
        }
    }
}

/// Index of the first capability of `kind`, or -1.
pub open spec fn first_kind(caps: Seq<CapabilityView>, kind: Seq<char>, from: int) -> int
    decreases caps.len() - from,
{
    if from < 0 || from >= caps.len() {
        -1
    } else if caps[from].kind == kind {
        from
    } else {
        first_kind(caps, kind, from + 1)
    }
}

} // verus!
