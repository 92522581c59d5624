//! Whether a VM can be created on the selected connection: the readiness report of the
//! connection, and the review of one guest configuration against it.
use crate::distribution::{best_effort_profile, classify, scoped_unknown_profile, DistributionProfile, DistributionProfileService, ProfileView};
use crate::error::AppError;
use crate::host_readiness::{
    capability_view, caps_view, domain_capabilities_spec, first_kind, repair_action_for, with_action, CapabilityResult,
    CapabilityView, HostReadinessService,
};
use crate::operation::{opt_view, CapabilityState, ConnectionScope, OperationContext};
use crate::storage::{
    any_eligible, choices_view, opt_str_view, pools_view, readiness_state, StoragePool, StorageReadiness,
    StorageReadinessState, StorageService,
};
use crate::text::{str_eq, trim};
use crate::vm::VmConfig;
use vstd::prelude::*;

verus! {

/// How ready the selected connection is to create VMs.
#[derive(Debug)]
pub struct VmCreationReadiness {
    pub checked_at: String,
    pub connection_id: String,
    pub connection_label: String,
    pub connection_scope: ConnectionScope,
    pub distribution: DistributionProfile,
    pub overall_state: String,
    pub capabilities: Vec<CapabilityResult>,
    pub storage: StorageReadiness,
}

/// What a guest configuration asks of the host.
#[derive(Debug)]
pub struct GuestRequirements {
    pub firmware: String,
    pub tpm_enabled: bool,
    pub network: Option<String>,
}

/// A guest configuration checked against the selected connection.
#[derive(Debug)]
pub struct GuestCapabilityReview {
    pub checked_at: String,
    pub connection_id: String,
    pub requirements: GuestRequirements,
    pub capabilities: Vec<CapabilityResult>,
    pub storage: StorageReadiness,
    pub can_create: bool,
}

/// The name under which a connection that is not the local system connection is shown.
pub open spec fn scope_label(scope: ConnectionScope) -> Seq<char> {
    match scope {
        ConnectionScope::LocalSession => "Local session"@,
        ConnectionScope::Remote => "Remote"@,
        ConnectionScope::Test => "Test"@,
        ConnectionScope::LocalSystem => "Local system"@,
    }
}

/// The distribution profile of a connection: the local host's, from its os-release file
/// (a best-effort profile when there is none), on the local system connection; a profile
/// that names the connection otherwise.
pub open spec fn report_profile(scope: ConnectionScope, os_release: Option<Seq<char>>) -> ProfileView {
    if scope == ConnectionScope::LocalSystem {
        match os_release {
            Some(c) => classify(c),
            None => best_effort_profile("Unknown Linux"@),
        }
    } else {
        scoped_unknown_profile(scope_label(scope) + " connection"@)
    }
}

/// The selected connection answers, so libvirt access is always available.
pub open spec fn libvirt_access_view() -> CapabilityView {
    CapabilityView {
        kind: "libvirt_access"@,
        state: CapabilityState::Available,
        summary: "The selected libvirt connection is available."@,
        remediation: None,
        details: Some("Capability checks are owned by the selected connection."@),
        repair_action: None,
    }
}

/// Storage is available when some pool can take the requested disk.
pub open spec fn storage_capability_view(eligible: bool) -> CapabilityView {
    CapabilityView {
        kind: "storage"@,
        state: if eligible {
            CapabilityState::Available
        } else {
            CapabilityState::Unavailable
        },
        summary: if eligible {
            "Usable storage is available on this connection."@
        } else {
            "No active storage pool can satisfy the requested disk."@
        },
        remediation: if eligible {
            None
        } else {
            Some("Inspect, create, or activate a storage pool for the selected connection."@)
        },
        details: None,
        repair_action: None,
    }
}

/// Hardware acceleration: a test connection, or a connection whose domain capabilities
/// name the KVM domain type.
pub open spec fn accelerated(scope: ConnectionScope, domain_caps: Seq<char>) -> bool {
    scope == ConnectionScope::Test || crate::text::contains(crate::text::lower(domain_caps), "<domain>kvm</domain>"@)
}

/// The checks of a connection report, in order, before repair actions are attached.
pub open spec fn base_report_caps(scope: ConnectionScope, domain_caps: Seq<char>, eligible: bool) -> Seq<CapabilityView> {
    seq![
        libvirt_access_view(),
        capability_view(
            "virtualization"@,
            accelerated(scope, domain_caps),
            "Hardware-accelerated virtualization is available on this connection."@,
            "Enable virtualization for the selected guest host and verify libvirt KVM access."@,
        ),
    ] + domain_capabilities_spec(domain_caps) + seq![storage_capability_view(eligible)]
}

/// A check with its repair action attached when it is unavailable.
pub open spec fn repaired(c: CapabilityView, scope: ConnectionScope, connection_id: Seq<char>, profile: ProfileView, fw_vars_installed: bool) -> CapabilityView {
    if c.state == CapabilityState::Available {
        c
    } else {
        with_action(c, repair_action_for(c, scope, connection_id, profile, fw_vars_installed))
    }
}

/// The checks of a connection report, with their repair actions.
pub open spec fn report_caps(
    scope: ConnectionScope,
    connection_id: Seq<char>,
    profile: ProfileView,
    domain_caps: Seq<char>,
    eligible: bool,
    fw_vars_installed: bool,
) -> Seq<CapabilityView> {
    base_report_caps(scope, domain_caps, eligible).map_values(
        |c: CapabilityView| repaired(c, scope, connection_id, profile, fw_vars_installed),
    )
}

/// Some check is unavailable.
pub open spec fn any_unavailable(caps: Seq<CapabilityView>) -> bool {
    exists|i: int| 0 <= i < caps.len() && (#[trigger] caps[i]).state == CapabilityState::Unavailable
}

/// The checks a guest review keeps from the connection report: all but the firmware and
/// TPM checks, which are redone for the guest's machine type.
pub open spec fn kept_caps(s: Seq<CapabilityView>) -> Seq<CapabilityView>
    decreases s.len(),
{
    if s.len() == 0 {
        Seq::empty()
    } else {
        let rest = kept_caps(s.drop_last());
        let k = s.last().kind;
        if k == "uefi"@ || k == "secure_boot"@ || k == "tpm"@ {
            rest
        } else {
            rest.push(s.last())
        }
    }
}

/// The first check of `kind` marked as required by the guest, when it is unavailable.
pub open spec fn require_in(s: Seq<CapabilityView>, kind: Seq<char>) -> Seq<CapabilityView> {
    Seq::new(
        s.len(),
        |i: int|
            if i == first_kind(s, kind, 0) && s[i].state != CapabilityState::Available {
                CapabilityView { details: Some("Required by the selected guest configuration."@), ..s[i] }
            } else {
                s[i]
            },
    )
}

/// The firmware check a guest's firmware needs.
pub open spec fn firmware_kind(firmware: Seq<char>) -> Option<Seq<char>> {
    if firmware == "uefi-secure"@ {
        Some("secure_boot"@)
    } else if firmware == "uefi"@ {
        Some("uefi"@)
    } else {
        None
    }
}

/// The network a guest asks for: none when the name is blank.
pub open spec fn requested_network(network: Seq<char>) -> Option<Seq<char>> {
    if trim(network).len() == 0 {
        None
    } else {
        Some(network)
    }
}

/// The checks of a guest review, in order.
pub open spec fn review_caps(
    report: Seq<CapabilityView>,
    profile_caps: Seq<char>,
    firmware: Seq<char>,
    tpm_enabled: bool,
    network: Option<Seq<char>>,
    network_available: bool,
) -> Seq<CapabilityView> {
    let c1 = kept_caps(report) + domain_capabilities_spec(profile_caps);
    let c2 = match firmware_kind(firmware) {
        Some(k) => require_in(c1, k),
        None => c1,
    };
    let c3 = if tpm_enabled {
        require_in(c2, "tpm"@)
    } else {
        c2
    };
    match network {
        Some(_) => c3.push(
            capability_view(
                "network"@,
                network_available,
                "The selected virtual network is active."@,
                "Select or activate a virtual network on this connection."@,
            ),
        ),
        None => c3,
    }
}

/// A check that decides whether the guest can be created: the network and libvirt
/// access, the guest's firmware, and the TPM when the guest has one.
pub open spec fn deciding_kind(kind: Seq<char>, firmware: Seq<char>, tpm_enabled: bool) -> bool {
    kind == "network"@ || kind == "libvirt_access"@ || firmware_kind(firmware) == Some(kind) || (tpm_enabled
        && kind == "tpm"@)
}

/// The guest can be created: its storage is ready (or it needs no new disk) and every
/// deciding check is available.
pub open spec fn can_create(caps: Seq<CapabilityView>, storage_ok: bool, firmware: Seq<char>, tpm_enabled: bool) -> bool {
    storage_ok && forall|i: int|
        0 <= i < caps.len() && deciding_kind((#[trigger] caps[i]).kind, firmware, tpm_enabled) ==> caps[i].state
            == CapabilityState::Available
}

/// The disk a guest needs created: none for an imported disk.
pub open spec fn required_bytes(config: VmConfig) -> Option<u64> {
    if config.installation_type@ == "import"@ {
        None
    } else {
        Some((config.disk_size_gb * crate::storage::GIB) as u64)
    }
}

fn keep_kind(kind: &str) -> (r: bool)
    ensures
        r == !(kind@ == "uefi"@ || kind@ == "secure_boot"@ || kind@ == "tpm"@),
{
    !(str_eq(kind, "uefi") || str_eq(kind, "secure_boot") || str_eq(kind, "tpm"))
}

fn is_deciding(kind: &str, firmware: &str, tpm_enabled: bool) -> (r: bool)
    ensures
        r == deciding_kind(kind@, firmware@, tpm_enabled),
{
    let fw_kind: Option<&str> = if str_eq(firmware, "uefi-secure") {
        Some("secure_boot")
    } else if str_eq(firmware, "uefi") {
        Some("uefi")
    } else {
        None
    };
    let fw_match = match fw_kind {
        Some(k) => str_eq(kind, k),
        None => false,
    };
    str_eq(kind, "network") || str_eq(kind, "libvirt_access") || fw_match || (tpm_enabled && str_eq(kind, "tpm"))
}

impl HostReadinessService {
    /// The readiness of the selected connection to create VMs: libvirt access,
    /// virtualization, firmware and TPM support from `domain_caps`, and storage for a disk
    /// of `required_disk_bytes` in `pools`; each unavailable check gets a repair action.
    /// `os_release` is the local host's os-release file, read on the local system
    /// connection only.
    pub fn connection_report(
        context: &OperationContext,
        os_release: Option<String>,
        domain_caps: &str,
        pools: &[StoragePool],
        required_disk_bytes: Option<u64>,
        selected_pool_id: Option<&str>,
        fw_vars_installed: bool,
        checked_at: String,
    ) -> (r: VmCreationReadiness)
        ensures
            r.checked_at@ == checked_at@,
            r.connection_id@ == context.connection_id@,
            r.connection_label@ == context.connection_label@,
            r.connection_scope == context.connection_scope,
            r.distribution@ == report_profile(context.connection_scope, opt_view(os_release)),
            r.storage.connection_id@ == context.connection_id@,
            r.storage.required_bytes == required_disk_bytes,
            r.storage.state == readiness_state(pools_view(pools@), required_disk_bytes, opt_str_view(selected_pool_id)),
            choices_view(r.storage.pools@) == pools_view(pools@).map_values(
                |p: crate::storage::PoolView| crate::storage::choice_of(p, required_disk_bytes),
            ),
            caps_view(r.capabilities@) == report_caps(
                context.connection_scope,
                context.connection_id@,
                r.distribution@,
                domain_caps@,
                any_eligible(pools_view(pools@), required_disk_bytes),
                fw_vars_installed,
            ),
            r.overall_state@ == (if any_unavailable(
                base_report_caps(
                    context.connection_scope,
                    domain_caps@,
                    any_eligible(pools_view(pools@), required_disk_bytes),
                ),
            ) {
                "degraded"@
            } else {
                "ready"@
            }),
    {
        let scope = context.connection_scope;
        let profile = match scope {
            ConnectionScope::LocalSystem => match &os_release {
                Some(c) => DistributionProfileService::classify_os_release(c.as_str()),
                None => DistributionProfileService::best_effort("Unknown Linux"),
            },
            _ => {
                let mut label = String::from_str(match scope {
                    ConnectionScope::LocalSession => "Local session",
                    ConnectionScope::Remote => "Remote",
                    ConnectionScope::Test => "Test",
                    ConnectionScope::LocalSystem => "Local system",
                });
                label.append(" connection");
                DistributionProfileService::scoped_unknown(label.as_str())
            },
        };
        let mut capabilities: Vec<CapabilityResult> = Vec::new();
        capabilities.push(
            CapabilityResult {
                kind: String::from_str("libvirt_access"),
                state: CapabilityState::Available,
                summary: String::from_str("The selected libvirt connection is available."),
                remediation: None,
                details: Some(String::from_str("Capability checks are owned by the selected connection.")),
                repair_action: None,
            },
        );
        let is_test = match scope {
            ConnectionScope::Test => true,
            _ => false,
        };
        let lv = crate::text::lower_chars(crate::text::chars_of(domain_caps).as_slice());
        let kvm = is_test || crate::text::contains_str(lv.as_slice(), "<domain>kvm</domain>");
        capabilities.push(
            Self::capability(
                "virtualization",
                kvm,
                "Hardware-accelerated virtualization is available on this connection.",
                "Enable virtualization for the selected guest host and verify libvirt KVM access.",
            ),
        );
        let mut domain = Self::domain_capabilities(domain_caps);
        capabilities.append(&mut domain);
        let storage = StorageService::assess_pools(
            context.connection_id.as_str(),
            pools,
            required_disk_bytes,
            selected_pool_id,
        );
        let mut eligible = false;
        let mut i: usize = 0;
        while i < storage.pools.len()
            invariant
                i <= storage.pools@.len(),
                choices_view(storage.pools@) == pools_view(pools@).map_values(
                    |p: crate::storage::PoolView| crate::storage::choice_of(p, required_disk_bytes),
                ),
                eligible == (exists|k: int| 0 <= k < i && (#[trigger] storage.pools@[k]).eligible),
            decreases storage.pools@.len() - i,
        {
            if storage.pools[i].eligible {
                eligible = true;
            }
            i = i + 1;
        }
        proof {
            let pv = pools_view(pools@);
            assert(eligible == any_eligible(pv, required_disk_bytes)) by {
                if eligible {
                    let k = choose|k: int| 0 <= k < storage.pools@.len() && (#[trigger] storage.pools@[k]).eligible;
                    assert(choices_view(storage.pools@)[k] == storage.pools@[k]@);
                    assert(crate::storage::choice_eligible(pv[k], required_disk_bytes));
                }
                if any_eligible(pv, required_disk_bytes) {
                    let k = choose|k: int| 0 <= k < pv.len() && crate::storage::choice_eligible(#[trigger] pv[k], required_disk_bytes);
                    assert(choices_view(storage.pools@)[k] == storage.pools@[k]@);
                    assert(storage.pools@[k].eligible);
                }
            }
        }
        capabilities.push(
            CapabilityResult {
                kind: String::from_str("storage"),
                state: if eligible {
                    CapabilityState::Available
                } else {
                    CapabilityState::Unavailable
                },
                summary: String::from_str(
                    if eligible {
                        "Usable storage is available on this connection."
                    } else {
                        "No active storage pool can satisfy the requested disk."
                    },
                ),
                remediation: if eligible {
                    None
                } else {
                    Some(String::from_str("Inspect, create, or activate a storage pool for the selected connection."))
                },
                details: None,
                repair_action: None,
            },
        );
        let ghost base = caps_view(capabilities@);
        proof {
            assert(base =~= base_report_caps(scope, domain_caps@, eligible));
        }
        Self::attach_repair_actions(&mut capabilities, context, &profile, fw_vars_installed);
        proof {
            assert(caps_view(capabilities@) =~= report_caps(
                scope,
                context.connection_id@,
                profile@,
                domain_caps@,
                eligible,
                fw_vars_installed,
            ));
        }
        proof {
            assert forall|k: int| 0 <= k < base.len() implies (#[trigger] capabilities@[k]).state == base[k].state by {
                assert(caps_view(capabilities@)[k] == capabilities@[k]@);
            }
        }
        let mut unavailable = false;
        let mut j: usize = 0;
        while j < capabilities.len()
            invariant
                j <= capabilities@.len(),
                capabilities@.len() == base.len(),
                forall|k: int| 0 <= k < base.len() ==> (#[trigger] capabilities@[k]).state == base[k].state,
                unavailable == (exists|k: int| 0 <= k < j && (#[trigger] base[k]).state == CapabilityState::Unavailable),
            decreases capabilities@.len() - j,
        {
            let st = match capabilities[j].state {
                CapabilityState::Available => false,
                CapabilityState::Unavailable => true,
            };
            if st {
                unavailable = true;
            }
            j = j + 1;
        }
        VmCreationReadiness {
            checked_at,
            connection_id: context.connection_id.clone(),
            connection_label: context.connection_label.clone(),
            connection_scope: scope,
            distribution: profile,
            overall_state: String::from_str(
                if unavailable {
                    "degraded"
                } else {
                    "ready"
                },
            ),
            capabilities,
            storage,
        }
    }

    /// The review of a guest configuration on the selected connection: the connection
    /// report for the guest's disk and storage pool, with the firmware and TPM checks redone
    /// from `profile_caps` (the domain capabilities of the guest's machine type), the
    /// checks the guest needs marked as required, and the guest's network (active when
    /// `network_available`). The guest can be created when its storage is ready (or it
    /// imports a disk) and its deciding checks are available.
    pub fn preflight(
        context: &OperationContext,
        config: &VmConfig,
        os_release: Option<String>,
        domain_caps: &str,
        pools: &[StoragePool],
        profile_caps: &str,
        network_available: bool,
        fw_vars_installed: bool,
        checked_at: String,
    ) -> (r: Result<GuestCapabilityReview, AppError>)
        ensures
            match r {
                Err(e) => config.installation_type@ != "import"@ && (config.disk_size_gb == 0 || config.disk_size_gb
                    * crate::storage::GIB > u64::MAX) && e is InvalidConfig,
                Ok(rv) => {
                    let needs_disk = config.installation_type@ != "import"@;
                    let required = required_bytes(*config);
                    let scope = context.connection_scope;
                    let report = report_caps(
                        scope,
                        context.connection_id@,
                        report_profile(scope, opt_view(os_release)),
                        domain_caps@,
                        any_eligible(pools_view(pools@), required),
                        fw_vars_installed,
                    );
                    &&& needs_disk ==> config.disk_size_gb > 0 && config.disk_size_gb * crate::storage::GIB <= u64::MAX
                    &&& rv.checked_at@ == checked_at@
                    &&& rv.connection_id@ == context.connection_id@
                    &&& rv.requirements.firmware@ == config.firmware@
                    &&& rv.requirements.tpm_enabled == config.tpm_enabled
                    &&& opt_view(rv.requirements.network) == requested_network(config.network@)
                    &&& rv.storage.state == readiness_state(pools_view(pools@), required, opt_view(config.storage_pool_id))
                    &&& caps_view(rv.capabilities@) == review_caps(
                        report,
                        profile_caps@,
                        config.firmware@,
                        config.tpm_enabled,
                        requested_network(config.network@),
                        network_available,
                    )
                    &&& rv.can_create == can_create(
                        caps_view(rv.capabilities@),
                        !needs_disk || rv.storage.state == StorageReadinessState::Ready,
                        config.firmware@,
                        config.tpm_enabled,
                    )
                },
            },
    {
        let needs_disk = !str_eq(config.installation_type.as_str(), "import");
        let required = if needs_disk {
            Some(StorageService::disk_bytes(config.disk_size_gb)?)
        } else {
            None
        };
        let selected: Option<&str> = match &config.storage_pool_id {
            Some(p) => Some(p.as_str()),
            None => None,
        };
        proof {
            assert(opt_str_view(selected) == opt_view(config.storage_pool_id));
            assert(required == required_bytes(*config));
        }
        let readiness = Self::connection_report(
            context,
            os_release,
            domain_caps,
            pools,
            required,
            selected,
            fw_vars_installed,
            checked_at.clone(),
        );
        let network = if crate::text::is_blank(config.network.as_str()) {
            None
        } else {
            Some(config.network.clone())
        };
        let requirements = GuestRequirements {
            firmware: config.firmware.clone(),
            tpm_enabled: config.tpm_enabled,
            network,
        };
        let ghost report = caps_view(readiness.capabilities@);
        let mut rest = readiness.capabilities;
        let storage = readiness.storage;
        let n = rest.len();
        let mut items: Vec<CapabilityResult> = Vec::new();
        while rest.len() > 0
            invariant
                rest@.len() + items@.len() == n,
                n == report.len(),
                forall|i: int| 0 <= i < rest@.len() ==> rest@[i]@ == report[i],
                forall|i: int| 0 <= i < items@.len() ==> items@[i]@ == report[n - 1 - i],
            decreases rest@.len(),
        {
            let x = rest.pop().unwrap();
            items.push(x);
        }
        let mut caps: Vec<CapabilityResult> = Vec::new();
        let mut k: usize = 0;
        while k < n
            invariant
                k <= n,
                n == report.len(),
                items@.len() == n - k,
                forall|i: int| 0 <= i < items@.len() ==> items@[i]@ == report[n - 1 - i],
                caps_view(caps@) == kept_caps(report.take(k as int)),
            decreases n - k,
        {
            let x = items.pop().unwrap();
            proof {
                assert(report.take(k + 1).drop_last() =~= report.take(k as int));
                assert(report.take(k + 1).last() == x@);
            }
            if keep_kind(x.kind.as_str()) {
                let ghost before = caps@;
                caps.push(x);
                proof {
                    assert(caps_view(caps@) =~= caps_view(before).push(report[k as int]));
                }
            }
            k = k + 1;
        }
        proof {
            assert(report.take(n as int) =~= report);
        }
        let ghost kept = caps_view(caps@);
        let mut dc = Self::domain_capabilities(profile_caps);
        let ghost dcv = caps_view(dc@);
        caps.append(&mut dc);
        let ghost c1 = caps_view(caps@);
        proof {
            assert(c1 =~= kept + dcv);
        }
        let fw_kind: Option<&str> = if str_eq(config.firmware.as_str(), "uefi-secure") {
            Some("secure_boot")
        } else if str_eq(config.firmware.as_str(), "uefi") {
            Some("uefi")
        } else {
            None
        };
        match fw_kind {
            Some(kind) => {
                let ghost before = caps_view(caps@);
                Self::require_capability(&mut caps, kind);
                proof {
                    assert forall|i: int| 0 <= i < caps@.len() implies #[trigger] caps_view(caps@)[i] == require_in(
                        before,
                        kind@,
                    )[i] by {
                        assert(caps_view(caps@)[i] == caps@[i]@);
                    }
                    assert(caps_view(caps@) =~= require_in(before, kind@));
                }
            },
            None => {},
        }
        let ghost c2 = caps_view(caps@);
        proof {
            assert(c2 == match firmware_kind(config.firmware@) {
                Some(kk) => require_in(c1, kk),
                None => c1,
            });
        }
        if config.tpm_enabled {
            let ghost before = caps_view(caps@);
            Self::require_capability(&mut caps, "tpm");
            proof {
                assert forall|i: int| 0 <= i < caps@.len() implies #[trigger] caps_view(caps@)[i] == require_in(
                    before,
                    "tpm"@,
                )[i] by {
                    assert(caps_view(caps@)[i] == caps@[i]@);
                }
                assert(caps_view(caps@) =~= require_in(before, "tpm"@));
            }
        }
        let ghost c3 = caps_view(caps@);
        if requirements.network.is_some() {
            let ghost before = caps@;
            caps.push(
                Self::capability(
                    "network",
                    network_available,
                    "The selected virtual network is active.",
                    "Select or activate a virtual network on this connection.",
                ),
            );
            proof {
                assert(caps_view(caps@) =~= caps_view(before).push(caps@.last()@));
            }
        }
        proof {
            assert(caps_view(caps@) == review_caps(
                report,
                profile_caps@,
                config.firmware@,
                config.tpm_enabled,
                requested_network(config.network@),
                network_available,
            ));
        }
        let storage_ok = !needs_disk || storage.state == StorageReadinessState::Ready;
        let mut ok = storage_ok;
        let mut i: usize = 0;
        while i < caps.len()
            invariant
                i <= caps@.len(),
                ok == (storage_ok && forall|j: int|
                    0 <= j < i && deciding_kind((#[trigger] caps@[j]).kind@, config.firmware@, config.tpm_enabled)
                        ==> caps@[j].state == CapabilityState::Available),
            decreases caps@.len() - i,
        {
            let avail = match caps[i].state {
                CapabilityState::Available => true,
                CapabilityState::Unavailable => false,
            };
            if is_deciding(caps[i].kind.as_str(), config.firmware.as_str(), config.tpm_enabled) && !avail {
                ok = false;
            }
            i = i + 1;
        }
        proof {
            let cv = caps_view(caps@);
            assert forall|j: int| 0 <= j < cv.len() implies cv[j] == caps@[j]@ by {}
            assert(ok == can_create(cv, storage_ok, config.firmware@, config.tpm_enabled)) by {
                if ok {
                    assert forall|j: int|
                        0 <= j < cv.len() && deciding_kind((#[trigger] cv[j]).kind, config.firmware@, config.tpm_enabled)
                            implies cv[j].state == CapabilityState::Available by {
                        assert(cv[j] == caps@[j]@);
                    }
                } else if storage_ok {
                    let j = choose|j: int|
                        0 <= j < caps@.len() && deciding_kind((#[trigger] caps@[j]).kind@, config.firmware@, config.tpm_enabled)
                            && caps@[j].state != CapabilityState::Available;
                    assert(cv[j] == caps@[j]@);
                }
            }
        }
        Ok(
            GuestCapabilityReview {
                checked_at,
                connection_id: context.connection_id.clone(),
                requirements,
                capabilities: caps,
                storage,
                can_create: ok,
            },
        )
    }
}

} // verus!
