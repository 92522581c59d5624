//! The libvirt domain definition of a new VM, built from a validated request.
use crate::distribution::strings_view;
use crate::error::AppError;
use crate::operation::opt_view;
use crate::storage::{extension_of, path_extension, StorageService, GIB};
use crate::text::{contains, dec, fmt_u64, occurs_at, str_eq};
use crate::vm::{boot_device_ok, fmt_hex, hex_fixed, pci_address, watchdog_action_ok, watchdog_model_ok, VmConfig, VmService};
use crate::xml::{escape, escaped_attribute, text_ok};
use vstd::prelude::*;

verus! {

/// Lines joined with `\n`.
pub open spec fn join_lines(parts: Seq<Seq<char>>) -> Seq<char>
    decreases parts.len(),
{
    if parts.len() == 0 {
        Seq::empty()
    } else if parts.len() == 1 {
        parts[0]
    } else {
        join_lines(parts.drop_last()) + "\n"@ + parts.last()
    }
}

// ---------------------------------------------------------------------------
// Pieces
// ---------------------------------------------------------------------------

/// The boot devices: the configured order, or the CD-ROM then the disk when an
/// installation image is attached, or the disk alone.
pub open spec fn boot_devices(c: VmConfig) -> Seq<Seq<char>> {
    if c.boot_order@.len() == 0 {
        if c.iso_path is Some {
            seq!["cdrom"@, "hd"@]
        } else {
            seq!["hd"@]
        }
    } else {
        strings_view(c.boot_order@)
    }
}

pub open spec fn boot_line(d: Seq<char>) -> Seq<char> {
    "    <boot dev='"@ + d + "'/>"@
}

pub open spec fn boot_xml(devices: Seq<Seq<char>>) -> Option<Seq<char>> {
    if forall|i: int| 0 <= i < devices.len() ==> boot_device_ok(#[trigger] devices[i]) {
        Some(join_lines(devices.map_values(|d: Seq<char>| boot_line(d))))
    } else {
        None
    }
}

/// `<tag>value</tag>` for a non-empty value, nothing for an absent or empty one; `None`
/// when the value is not valid text.
pub open spec fn kernel_line(tag: Seq<char>, v: Option<Seq<char>>) -> Option<Seq<Seq<char>>> {
    match v {
        Some(p) => if p.len() == 0 {
            Some(Seq::empty())
        } else if text_ok(p) {
            Some(seq!["    <"@ + tag + ">"@ + escape(p) + "</"@ + tag + ">"@])
        } else {
            None
        },
        None => Some(Seq::empty()),
    }
}

/// The direct kernel boot lines of `<os>`.
pub open spec fn kernel_xml(c: VmConfig) -> Option<Seq<char>> {
    if !c.direct_kernel_boot {
        Some(Seq::empty())
    } else {
        match (
            kernel_line("kernel"@, opt_view(c.kernel_path)),
            kernel_line("initrd"@, opt_view(c.initrd_path)),
            kernel_line("cmdline"@, opt_view(c.kernel_args)),
            kernel_line("dtb"@, opt_view(c.dtb_path)),
        ) {
            (Some(a), Some(b), Some(d), Some(e)) => Some(join_lines(a + b + d + e)),
            _ => None,
        }
    }
}

pub open spec fn hostdev_xml(a: (u16, u8, u8, u8)) -> Seq<char> {
    "    <hostdev mode='subsystem' type='pci' managed='yes'>\n      <source>\n        <address domain='0x"@
        + hex_fixed(a.0 as nat, 4) + "' bus='0x"@ + hex_fixed(a.1 as nat, 2) + "' slot='0x"@ + hex_fixed(
        a.2 as nat,
        2,
    ) + "' function='0x"@ + hex_fixed(a.3 as nat, 1) + "'/>\n      </source>\n    </hostdev>\n"@
}

/// One passthrough element per PCI address; `None` when an address is rejected.
pub open spec fn pci_xml(addresses: Seq<Seq<char>>) -> Option<Seq<char>>
    decreases addresses.len(),
{
    if addresses.len() == 0 {
        Some(Seq::empty())
    } else {
        match (pci_xml(addresses.drop_last()), pci_address(addresses.last())) {
            (Some(before), Some(a)) => Some(before + hostdev_xml(a)),
            _ => None,
        }
    }
}

pub open spec fn watchdog_xml(c: VmConfig) -> Option<Seq<char>> {
    match c.watchdog_model {
        Some(m) => if watchdog_model_ok(m@) && watchdog_action_ok(c.watchdog_action@) {
            Some("    <watchdog model='"@ + escape(m@) + "' action='"@ + escape(c.watchdog_action@) + "'/>"@)
        } else {
            None
        },
        None => Some(Seq::empty()),
    }
}

pub open spec fn memory_backing_xml(c: VmConfig) -> Seq<char> {
    if c.hugepages_enabled {
        match c.hugepage_size {
            Some(size) => "  <memoryBacking>\n    <hugepages>\n      <page size='"@ + dec(size as nat)
                + "' unit='KiB'/>\n    </hugepages>\n  </memoryBacking>"@,
            None => "  <memoryBacking>\n    <hugepages/>\n  </memoryBacking>"@,
        }
    } else {
        Seq::empty()
    }
}

pub open spec fn cpu_topology_xml(c: VmConfig) -> Seq<char> {
    "  <cpu>\n    <topology sockets='"@ + dec(c.cpu_sockets as nat) + "' cores='"@ + dec(c.cpu_cores as nat)
        + "' threads='"@ + dec(c.cpu_threads as nat) + "'/>\n  </cpu>"@
}

pub open spec fn firmware_xml(firmware: Seq<char>) -> Seq<char> {
    if firmware == "uefi"@ {
        "    <firmware><feature enabled='no' name='secure-boot'/></firmware>"@
    } else if firmware == "uefi-secure"@ {
        "    <firmware><feature enabled='yes' name='secure-boot'/><feature enabled='yes' name='enrolled-keys'/></firmware>"@
    } else {
        Seq::empty()
    }
}

pub open spec fn main_disk_xml(format: Seq<char>, path: Seq<char>) -> Seq<char> {
    "    <disk type='file' device='disk'>\n      <driver name='qemu' type='"@ + escape(format)
        + "'/>\n      <source file='"@ + escape(path) + "'/>\n      <target dev='vda' bus='virtio'/>\n    </disk>"@
}

pub open spec fn cdrom_xml(c: VmConfig) -> Seq<char> {
    match c.iso_path {
        Some(p) => "    <disk type='file' device='cdrom'>\n      <driver name='qemu' type='raw'/>\n      <source file='"@
            + escape(p@) + "'/>\n      <target dev='"@ + (if c.chipset@ == "q35"@ {
            "sda"@
        } else {
            "hdc"@
        }) + "' bus='"@ + (if c.chipset@ == "q35"@ {
            "sata"@
        } else {
            "ide"@
        }) + "'/>\n      <readonly/>\n    </disk>"@,
        None => Seq::empty(),
    }
}

pub open spec fn interface_xml(c: VmConfig) -> Seq<char> {
    "    <interface type='network'>\n      <source network='"@ + escape(c.network@) + "'/>\n      <model type='virtio'/>\n"@
        + (if c.installation_type@ == "network"@ {
        "      <boot order='1'/>\n"@
    } else {
        Seq::empty()
    }) + "    </interface>"@
}

pub open spec fn graphics_xml(c: VmConfig) -> Seq<char> {
    if c.graphics_type@ == "spice"@ {
        "    <graphics type='spice' autoport='yes'>\n      <listen type='address'/>\n    </graphics>"@
    } else {
        "    <graphics type='vnc' port='-1' autoport='yes'/>"@
    }
}

pub open spec fn video_xml(c: VmConfig) -> Seq<char> {
    "    <video>\n      <model type='"@ + escape(c.video_model@) + "'/>\n    </video>"@
}

pub open spec fn tpm_xml(c: VmConfig) -> Seq<char> {
    if c.tpm_enabled {
        "    <tpm model='tpm-tis'>\n      <backend type='emulator' version='2.0'/>\n    </tpm>"@
    } else {
        Seq::empty()
    }
}

pub open spec fn rng_xml(c: VmConfig) -> Seq<char> {
    if c.rng_enabled {
        "    <rng model='virtio'>\n      <backend model='random'>/dev/urandom</backend>\n    </rng>"@
    } else {
        Seq::empty()
    }
}

/// Memory limit: twice the memory, capped at 128 GiB.
pub open spec fn max_memory_mb(memory_mb: u64) -> nat {
    if memory_mb * 2 < 131072 {
        (memory_mb * 2) as nat
    } else {
        131072
    }
}

/// The parts of the domain definition that depend on the request.
pub struct DomainParts {
    pub head: Seq<char>,
    pub os: Seq<char>,
    pub devices: Seq<char>,
    pub extras: Seq<char>,
}

/// `<domain>` up to `<os>`: name, memory, backing, vCPUs and topology.
pub open spec fn domain_head(c: VmConfig) -> Seq<char> {
    "<domain type='kvm'>\n  <name>"@ + escape(c.name@) + "</name>\n  <memory unit='MiB'>"@ + dec(
        max_memory_mb(c.memory_mb),
    ) + "</memory>\n  <currentMemory unit='MiB'>"@ + dec(c.memory_mb as nat) + "</currentMemory>\n"@
        + memory_backing_xml(c) + "\n  <vcpu>"@ + dec(c.cpu_count as nat) + "</vcpu>\n"@ + cpu_topology_xml(c)
        + "\n"@
}

/// `<os>` .. `</os>` and the features that follow.
pub open spec fn domain_os(c: VmConfig, boot: Seq<char>, kernel: Seq<char>) -> Seq<char> {
    "  <os"@ + (if c.firmware@ == "bios"@ {
        Seq::empty()
    } else {
        " firmware='efi'"@
    }) + ">\n    <type arch='x86_64' machine='"@ + (if c.chipset@ == "q35"@ {
        "q35"@
    } else {
        "pc"@
    }) + "'>hvm</type>\n"@ + firmware_xml(c.firmware@) + "\n"@ + boot + "\n"@ + (if c.boot_menu {
        "    <bootmenu enable='yes' timeout='3000'/>"@
    } else {
        Seq::empty()
    }) + "\n"@ + kernel + "\n  </os>\n"@ + (if c.firmware@ != "bios"@ {
        "  <features>\n    <acpi/>\n    <apic/>\n  </features>"@
    } else {
        Seq::empty()
    }) + "\n"@
}

/// The devices up to the fixed serial console, controller and balloon.
pub open spec fn domain_devices(c: VmConfig, disk_format: Seq<char>, disk_path: Seq<char>, cloud_init_xml: Seq<char>) -> Seq<
    char,
> {
    "  <devices>\n"@ + main_disk_xml(disk_format, disk_path) + "\n"@ + cdrom_xml(c) + "\n"@ + cloud_init_xml
        + "\n"@ + interface_xml(c) + "\n"@ + graphics_xml(c) + "\n"@ + video_xml(c) + "\n"@
}

pub open spec fn fixed_devices() -> Seq<char> {
    "    <serial type='pty'>\n      <target port='0'/>\n    </serial>\n    <console type='pty'>\n      <target type='serial' port='0'/>\n    </console>\n    <controller type='virtio-serial' index='0'>\n      <address type='pci' domain='0x0000' bus='0x00' slot='0x08' function='0x0'/>\n    </controller>\n    <memballoon model='virtio'>\n      <address type='pci' domain='0x0000' bus='0x00' slot='0x07' function='0x0'/>\n    </memballoon>\n"@
}

/// TPM, passthrough devices, RNG and watchdog, then the end of the document.
pub open spec fn domain_tail(c: VmConfig, pci: Seq<char>, watchdog: Seq<char>) -> Seq<char> {
    tpm_xml(c) + "\n"@ + pci + "\n"@ + rng_xml(c) + "\n"@ + watchdog + "\n  </devices>\n</domain>"@
}

/// The values of a request that are placed in the document as text or attributes.
pub open spec fn domain_text_ok(c: VmConfig, disk_format: Seq<char>, disk_path: Seq<char>) -> bool {
    &&& text_ok(c.name@)
    &&& text_ok(disk_format)
    &&& text_ok(disk_path)
    &&& (c.iso_path matches Some(p) ==> text_ok(p@))
    &&& text_ok(c.network@)
    &&& text_ok(c.video_model@)
}

/// The domain definition of a request whose disk is `disk_path` in `disk_format`, with
/// the cloud-init device `cloud_init_xml` (empty for none); `None` when the request is
/// rejected.
pub open spec fn domain_xml(c: VmConfig, disk_format: Seq<char>, disk_path: Seq<char>, cloud_init_xml: Seq<char>) -> Option<
    Seq<char>,
> {
    if !domain_text_ok(c, disk_format, disk_path) {
        None
    } else {
        match (boot_xml(boot_devices(c)), kernel_xml(c), pci_xml(strings_view(c.pci_devices@)), watchdog_xml(c)) {
            (Some(boot), Some(kernel), Some(pci), Some(watchdog)) => Some(
                domain_head(c) + domain_os(c, boot, kernel) + domain_devices(c, disk_format, disk_path, cloud_init_xml)
                    + fixed_devices() + domain_tail(c, pci, watchdog),
            ),
            _ => None,
        }
    }
}

// ---------------------------------------------------------------------------
// Building the pieces
// ---------------------------------------------------------------------------

/// The lines joined with `\n`.
pub(crate) fn join_strings(lines: &Vec<String>) -> (r: String)
    ensures
        r@ == join_lines(strings_view(lines@)),
{
    let mut out = String::new();
    let n = lines.len();
    let mut i: usize = 0;
    while i < n
        invariant
            n == lines@.len(),
            i <= n,
            out@ == join_lines(strings_view(lines@).subrange(0, i as int)),
        decreases n - i,
    {
        let ghost pre = strings_view(lines@).subrange(0, i as int + 1);
        proof {
            assert(pre.drop_last() =~= strings_view(lines@).subrange(0, i as int));
            assert(pre.last() == lines@[i as int]@);
        }
        if i > 0 {
            out.append("\n");
        }
        out.append(lines[i].as_str());
        proof {
            if i == 0 {
                assert(pre.len() == 1);
                assert(out@ =~= pre[0]);
            }
        }
        i = i + 1;
    }
    proof {
        assert(strings_view(lines@).subrange(0, n as int) =~= strings_view(lines@));
    }
    out
}

fn boot_order_xml(config: &VmConfig) -> (r: Result<String, AppError>)
    ensures
        match r {
            Ok(x) => boot_xml(boot_devices(*config)) == Some(x@),
            Err(e) => boot_xml(boot_devices(*config)) is None && e is InvalidConfig,
        },
{
    let mut devices: Vec<String> = Vec::new();
    if config.boot_order.len() == 0 {
        if config.iso_path.is_some() {
            devices.push(String::from_str("cdrom"));
        }
        devices.push(String::from_str("hd"));
    } else {
        let n = config.boot_order.len();
        let mut i: usize = 0;
        while i < n
            invariant
                n == config.boot_order@.len(),
                i <= n,
                strings_view(devices@) == strings_view(config.boot_order@).subrange(0, i as int),
            decreases n - i,
        {
            let ghost before = devices@;
            devices.push(config.boot_order[i].clone());
            proof {
                assert(strings_view(devices@) =~= strings_view(before).push(config.boot_order@[i as int]@));
                assert(strings_view(config.boot_order@).subrange(0, i as int + 1) =~= strings_view(
                    config.boot_order@,
                ).subrange(0, i as int).push(config.boot_order@[i as int]@));
            }
            i = i + 1;
        }
        proof {
            assert(strings_view(config.boot_order@).subrange(0, n as int) =~= strings_view(config.boot_order@));
        }
    }
    let ghost devs = strings_view(devices@);
    proof {
        assert(devs =~= boot_devices(*config));
    }
    let mut lines: Vec<String> = Vec::new();
    let n = devices.len();
    let mut i: usize = 0;
    while i < n
        invariant
            n == devices@.len(),
            devs == strings_view(devices@),
            devs == boot_devices(*config),
            i <= n,
            forall|k: int| 0 <= k < i ==> boot_device_ok(#[trigger] devs[k]),
            strings_view(lines@) == devs.subrange(0, i as int).map_values(|d: Seq<char>| boot_line(d)),
        decreases n - i,
    {
        let d = devices[i].as_str();
        if !(str_eq(d, "hd") || str_eq(d, "cdrom") || str_eq(d, "network") || str_eq(d, "fd")) {
            proof {
                assert(!boot_device_ok(devs[i as int]));
            }
            return Err(AppError::invalid("Boot device is not supported"));
        }
        let mut line = String::from_str("    <boot dev='");
        line.append(d);
        line.append("'/>");
        let ghost before = lines@;
        lines.push(line);
        proof {
            assert(strings_view(lines@) =~= strings_view(before).push(boot_line(devs[i as int])));
            assert(devs.subrange(0, i as int + 1).map_values(|d: Seq<char>| boot_line(d)) =~= devs.subrange(
                0,
                i as int,
            ).map_values(|d: Seq<char>| boot_line(d)).push(boot_line(devs[i as int])));
        }
        i = i + 1;
    }
    proof {
        assert(devs.subrange(0, n as int) =~= devs);
    }
    Ok(join_strings(&lines))
}

/// Appends the line for `tag` to `lines` when `value` is present and not empty.
fn push_kernel_line(lines: &mut Vec<String>, tag: &str, value: &Option<String>, field: &str) -> (r: Result<(), AppError>)
    ensures
        match r {
            Ok(()) => kernel_line(tag@, opt_view(*value)) matches Some(l) && strings_view(final(lines)@)
                == strings_view(old(lines)@) + l,
            Err(e) => kernel_line(tag@, opt_view(*value)) is None && e is InvalidConfig,
        },
{
    let ghost before = lines@;
    if let Some(p) = value {
        if !p.as_str().is_empty() {
            let escaped = escaped_attribute(p.as_str(), field)?;
            let mut line = String::from_str("    <");
            line.append(tag);
            line.append(">");
            line.append(escaped.as_str());
            line.append("</");
            line.append(tag);
            line.append(">");
            lines.push(line);
            proof {
                assert(strings_view(lines@) =~= strings_view(before) + seq![line@]);
            }
            return Ok(());
        }
    }
    proof {
        assert(strings_view(lines@) =~= strings_view(before) + Seq::<Seq<char>>::empty());
    }
    Ok(())
}

fn kernel_boot_xml(config: &VmConfig) -> (r: Result<String, AppError>)
    ensures
        match r {
            Ok(x) => kernel_xml(*config) == Some(x@),
            Err(e) => kernel_xml(*config) is None && e is InvalidConfig,
        },
{
    if !config.direct_kernel_boot {
        return Ok(String::new());
    }
    let mut lines: Vec<String> = Vec::new();
    proof {
        assert(strings_view(lines@) =~= Seq::<Seq<char>>::empty());
    }
    push_kernel_line(&mut lines, "kernel", &config.kernel_path, "Kernel path")?;
    let ghost a = strings_view(lines@);
    push_kernel_line(&mut lines, "initrd", &config.initrd_path, "Initrd path")?;
    let ghost b = strings_view(lines@);
    push_kernel_line(&mut lines, "cmdline", &config.kernel_args, "Kernel arguments")?;
    let ghost d = strings_view(lines@);
    push_kernel_line(&mut lines, "dtb", &config.dtb_path, "Device tree path")?;
    proof {
        let ka = kernel_line("kernel"@, opt_view(config.kernel_path))->0;
        let kb = kernel_line("initrd"@, opt_view(config.initrd_path))->0;
        let kd = kernel_line("cmdline"@, opt_view(config.kernel_args))->0;
        let ke = kernel_line("dtb"@, opt_view(config.dtb_path))->0;
        assert(a =~= ka);
        assert(strings_view(lines@) =~= ka + kb + kd + ke);
    }
    Ok(join_strings(&lines))
}

fn hostdev(a: (u16, u8, u8, u8)) -> (r: String)
    ensures
        r@ == hostdev_xml(a),
{
    let mut x = String::from_str(
        "    <hostdev mode='subsystem' type='pci' managed='yes'>\n      <source>\n        <address domain='0x",
    );
    let h = fmt_hex(a.0 as u64, 4);
    x.append(h.as_str());
    x.append("' bus='0x");
    let h = fmt_hex(a.1 as u64, 2);
    x.append(h.as_str());
    x.append("' slot='0x");
    let h = fmt_hex(a.2 as u64, 2);
    x.append(h.as_str());
    x.append("' function='0x");
    let h = fmt_hex(a.3 as u64, 1);
    x.append(h.as_str());
    x.append("'/>\n      </source>\n    </hostdev>\n");
    x
}

fn pci_devices_xml(config: &VmConfig) -> (r: Result<String, AppError>)
    ensures
        match r {
            Ok(x) => pci_xml(strings_view(config.pci_devices@)) == Some(x@),
            Err(e) => pci_xml(strings_view(config.pci_devices@)) is None && e is InvalidConfig,
        },
{
    let ghost all = strings_view(config.pci_devices@);
    let mut out = String::new();
    let n = config.pci_devices.len();
    let mut i: usize = 0;
    while i < n
        invariant
            n == config.pci_devices@.len(),
            all == strings_view(config.pci_devices@),
            i <= n,
            pci_xml(all.subrange(0, i as int)) == Some(out@),
        decreases n - i,
    {
        let ghost pre = all.subrange(0, i as int + 1);
        proof {
            assert(pre.drop_last() =~= all.subrange(0, i as int));
            assert(pre.last() == all[i as int]);
        }
        let a = match VmService::parse_pci_address(config.pci_devices[i].as_str()) {
            Ok(a) => a,
            Err(e) => {
                proof {
                    lemma_pci_xml_none(all, i as int + 1);
                }
                return Err(e);
            },
        };
        let h = hostdev(a);
        out.append(h.as_str());
        i = i + 1;
    }
    proof {
        assert(all.subrange(0, n as int) =~= all);
    }
    Ok(out)
}

proof fn lemma_pci_xml_none(all: Seq<Seq<char>>, k: int)
    requires
        0 < k <= all.len(),
        pci_xml(all.subrange(0, k)) is None,
    ensures
        pci_xml(all) is None,
    decreases all.len() - k,
{
    if k < all.len() {
        assert(all.subrange(0, k + 1).drop_last() =~= all.subrange(0, k));
        lemma_pci_xml_none(all, k + 1);
    } else {
        assert(all.subrange(0, k) =~= all);
    }
}

fn watchdog_element(config: &VmConfig) -> (r: Result<String, AppError>)
    ensures
        match r {
            Ok(x) => watchdog_xml(*config) == Some(x@),
            Err(e) => watchdog_xml(*config) is None && e is InvalidConfig,
        },
{
    match &config.watchdog_model {
        Some(model) => {
            let m = model.as_str();
            if !(str_eq(m, "i6300esb") || str_eq(m, "ib700") || str_eq(m, "diag288") || str_eq(m, "itco") || str_eq(
                m,
                "watchdog",
            )) {
                return Err(AppError::invalid("Watchdog model is not supported"));
            }
            let a = config.watchdog_action.as_str();
            if !(str_eq(a, "reset") || str_eq(a, "shutdown") || str_eq(a, "poweroff") || str_eq(a, "pause")
                || str_eq(a, "none") || str_eq(a, "dump") || str_eq(a, "inject-nmi")) {
                return Err(AppError::invalid("Watchdog action is not supported"));
            }
            proof {
                reveal_strlit("i6300esb");
                reveal_strlit("ib700");
                reveal_strlit("diag288");
                reveal_strlit("itco");
                reveal_strlit("watchdog");
                reveal_strlit("reset");
                reveal_strlit("shutdown");
                reveal_strlit("poweroff");
                reveal_strlit("pause");
                reveal_strlit("none");
                reveal_strlit("dump");
                reveal_strlit("inject-nmi");
            }
            let em = escaped_attribute(m, "Watchdog model")?;
            let ea = escaped_attribute(a, "Watchdog action")?;
            let mut x = String::from_str("    <watchdog model='");
            x.append(em.as_str());
            x.append("' action='");
            x.append(ea.as_str());
            x.append("'/>");
            Ok(x)
        },
        None => Ok(String::new()),
    }
}

fn head_xml(config: &VmConfig) -> (r: Result<String, AppError>)
    requires
        config.memory_mb * 2 <= u64::MAX,
    ensures
        match r {
            Ok(x) => text_ok(config.name@) && x@ == domain_head(*config),
            Err(e) => !text_ok(config.name@) && e is InvalidConfig,
        },
{
    let name = escaped_attribute(config.name.as_str(), "VM name")?;
    let doubled = config.memory_mb * 2;
    let max_memory = if doubled < 131072 {
        doubled
    } else {
        131072
    };
    let mut x = String::from_str("<domain type='kvm'>\n  <name>");
    x.append(name.as_str());
    x.append("</name>\n  <memory unit='MiB'>");
    let t = fmt_u64(max_memory);
    x.append(t.as_str());
    x.append("</memory>\n  <currentMemory unit='MiB'>");
    let t = fmt_u64(config.memory_mb);
    x.append(t.as_str());
    x.append("</currentMemory>\n");
    let ghost before_backing = x@;
    if config.hugepages_enabled {
        match config.hugepage_size {
            Some(size) => {
                x.append("  <memoryBacking>\n    <hugepages>\n      <page size='");
                let t = fmt_u64(size);
                x.append(t.as_str());
                x.append("' unit='KiB'/>\n    </hugepages>\n  </memoryBacking>");
            },
            None => {
                x.append("  <memoryBacking>\n    <hugepages/>\n  </memoryBacking>");
            },
        }
    }
    proof {
        assert(x@ =~= before_backing + memory_backing_xml(*config));
    }
    x.append("\n  <vcpu>");
    let t = fmt_u64(config.cpu_count as u64);
    x.append(t.as_str());
    x.append("</vcpu>\n");
    let ghost before_topology = x@;
    x.append("  <cpu>\n    <topology sockets='");
    let t = fmt_u64(config.cpu_sockets as u64);
    x.append(t.as_str());
    x.append("' cores='");
    let t = fmt_u64(config.cpu_cores as u64);
    x.append(t.as_str());
    x.append("' threads='");
    let t = fmt_u64(config.cpu_threads as u64);
    x.append(t.as_str());
    x.append("'/>\n  </cpu>");
    proof {
        assert(x@ =~= before_topology + cpu_topology_xml(*config));
    }
    x.append("\n");
    proof {
        assert(x@ =~= domain_head(*config));
    }
    Ok(x)
}

fn os_xml(config: &VmConfig, boot: &str, kernel: &str) -> (r: String)
    ensures
        r@ == domain_os(*config, boot@, kernel@),
{
    let bios = str_eq(config.firmware.as_str(), "bios");
    let mut x = String::from_str("  <os");
    if !bios {
        x.append(" firmware='efi'");
    }
    x.append(">\n    <type arch='x86_64' machine='");
    if str_eq(config.chipset.as_str(), "q35") {
        x.append("q35");
    } else {
        x.append("pc");
    }
    x.append("'>hvm</type>\n");
    let ghost before_firmware = x@;
    if str_eq(config.firmware.as_str(), "uefi") {
        x.append("    <firmware><feature enabled='no' name='secure-boot'/></firmware>");
    } else if str_eq(config.firmware.as_str(), "uefi-secure") {
        x.append(
            "    <firmware><feature enabled='yes' name='secure-boot'/><feature enabled='yes' name='enrolled-keys'/></firmware>",
        );
    }
    proof {
        assert(x@ =~= before_firmware + firmware_xml(config.firmware@));
    }
    x.append("\n");
    x.append(boot);
    x.append("\n");
    if config.boot_menu {
        x.append("    <bootmenu enable='yes' timeout='3000'/>");
    }
    x.append("\n");
    x.append(kernel);
    x.append("\n  </os>\n");
    if !bios {
        x.append("  <features>\n    <acpi/>\n    <apic/>\n  </features>");
    }
    x.append("\n");
    proof {
        assert(x@ =~= domain_os(*config, boot@, kernel@));
    }
    x
}

fn devices_xml(config: &VmConfig, disk_format: &str, disk_path: &str, cloud_init_xml: &str) -> (r: Result<
    String,
    AppError,
>)
    ensures
        match r {
            Ok(x) => text_ok(disk_format@) && text_ok(disk_path@) && (config.iso_path matches Some(p) ==> text_ok(p@))
                && text_ok(config.network@) && text_ok(config.video_model@) && x@ == domain_devices(
                *config,
                disk_format@,
                disk_path@,
                cloud_init_xml@,
            ),
            Err(e) => !(text_ok(disk_format@) && text_ok(disk_path@) && (config.iso_path matches Some(p) ==> text_ok(
                p@,
            )) && text_ok(config.network@) && text_ok(config.video_model@)) && e is InvalidConfig,
        },
{
    let f = escaped_attribute(disk_format, "Disk format")?;
    let p = escaped_attribute(disk_path, "Disk path")?;
    let mut x = String::from_str("  <devices>\n");
    let ghost d0 = x@;
    x.append("    <disk type='file' device='disk'>\n      <driver name='qemu' type='");
    x.append(f.as_str());
    x.append("'/>\n      <source file='");
    x.append(p.as_str());
    x.append("'/>\n      <target dev='vda' bus='virtio'/>\n    </disk>");
    proof {
        assert(x@ =~= d0 + main_disk_xml(disk_format@, disk_path@));
    }
    x.append("\n");
    let q35 = str_eq(config.chipset.as_str(), "q35");
    let ghost d1 = x@;
    if let Some(iso) = &config.iso_path {
        let e = escaped_attribute(iso.as_str(), "ISO path")?;
        x.append("    <disk type='file' device='cdrom'>\n      <driver name='qemu' type='raw'/>\n      <source file='");
        x.append(e.as_str());
        x.append("'/>\n      <target dev='");
        if q35 {
            x.append("sda");
        } else {
            x.append("hdc");
        }
        x.append("' bus='");
        if q35 {
            x.append("sata");
        } else {
            x.append("ide");
        }
        x.append("'/>\n      <readonly/>\n    </disk>");
    }
    proof {
        assert(x@ =~= d1 + cdrom_xml(*config));
    }
    x.append("\n");
    x.append(cloud_init_xml);
    x.append("\n");
    let n = escaped_attribute(config.network.as_str(), "Network name")?;
    let ghost d2 = x@;
    x.append("    <interface type='network'>\n      <source network='");
    x.append(n.as_str());
    x.append("'/>\n      <model type='virtio'/>\n");
    if str_eq(config.installation_type.as_str(), "network") {
        x.append("      <boot order='1'/>\n");
    }
    x.append("    </interface>");
    proof {
        assert(x@ =~= d2 + interface_xml(*config));
    }
    x.append("\n");
    let ghost d3 = x@;
    if str_eq(config.graphics_type.as_str(), "spice") {
        x.append("    <graphics type='spice' autoport='yes'>\n      <listen type='address'/>\n    </graphics>");
    } else {
        x.append("    <graphics type='vnc' port='-1' autoport='yes'/>");
    }
    proof {
        assert(x@ =~= d3 + graphics_xml(*config));
    }
    x.append("\n");
    let v = escaped_attribute(config.video_model.as_str(), "Video model")?;
    let ghost d4 = x@;
    x.append("    <video>\n      <model type='");
    x.append(v.as_str());
    x.append("'/>\n    </video>");
    proof {
        assert(x@ =~= d4 + video_xml(*config));
    }
    x.append("\n");
    proof {
        assert(x@ =~= domain_devices(*config, disk_format@, disk_path@, cloud_init_xml@));
    }
    Ok(x)
}

fn tail_xml(config: &VmConfig, pci: &str, watchdog: &str) -> (r: String)
    ensures
        r@ == domain_tail(*config, pci@, watchdog@),
{
    let mut x = String::new();
    if config.tpm_enabled {
        x.append("    <tpm model='tpm-tis'>\n      <backend type='emulator' version='2.0'/>\n    </tpm>");
    }
    x.append("\n");
    x.append(pci);
    x.append("\n");
    if config.rng_enabled {
        x.append("    <rng model='virtio'>\n      <backend model='random'>/dev/urandom</backend>\n    </rng>");
    }
    x.append("\n");
    x.append(watchdog);
    x.append("\n  </devices>\n</domain>");
    proof {
        assert(x@ =~= domain_tail(*config, pci@, watchdog@));
    }
    x
}

impl VmService {
    /// The domain definition of a new VM whose system disk is `disk_path` in
    /// `disk_format`, with the cloud-init device `cloud_init_xml` (empty for none).
    pub fn domain_definition(config: &VmConfig, disk_format: &str, disk_path: &str, cloud_init_xml: &str) -> (r:
        Result<String, AppError>)
        requires
            config.memory_mb * 2 <= u64::MAX,
        ensures
            match r {
                Ok(x) => domain_xml(*config, disk_format@, disk_path@, cloud_init_xml@) == Some(x@),
                Err(e) => domain_xml(*config, disk_format@, disk_path@, cloud_init_xml@) is None && e is InvalidConfig,
            },
    {
        let boot = boot_order_xml(config)?;
        let kernel = kernel_boot_xml(config)?;
        let pci = pci_devices_xml(config)?;
        let watchdog = watchdog_element(config)?;
        let devices = devices_xml(config, disk_format, disk_path, cloud_init_xml)?;
        let head = head_xml(config)?;
        let os = os_xml(config, boot.as_str(), kernel.as_str());
        let tail = tail_xml(config, pci.as_str(), watchdog.as_str());
        let mut xml = head;
        xml.append(os.as_str());
        xml.append(devices.as_str());
        xml.append(
            "    <serial type='pty'>\n      <target port='0'/>\n    </serial>\n    <console type='pty'>\n      <target type='serial' port='0'/>\n    </console>\n    <controller type='virtio-serial' index='0'>\n      <address type='pci' domain='0x0000' bus='0x00' slot='0x08' function='0x0'/>\n    </controller>\n    <memballoon model='virtio'>\n      <address type='pci' domain='0x0000' bus='0x00' slot='0x07' function='0x0'/>\n    </memballoon>\n",
        );
        xml.append(tail.as_str());
        Ok(xml)
    }
}

/// The system-disk volume of a new VM: `name.format`, of the requested size.
pub open spec fn vm_volume_xml(name: Seq<char>, format: Seq<char>, bytes: nat) -> Seq<char> {
    "<volume>\n  <name>"@ + escape(name + "."@ + format) + "</name>\n  <capacity unit='bytes'>"@ + dec(bytes)
        + "</capacity>\n  <target>\n    <format type='"@ + escape(format) + "'/>\n  </target>\n</volume>"@
}

/// The format of an imported disk image: the one its extension names, else the
/// configured one.
pub open spec fn import_format(ext: Option<Seq<char>>, configured: Seq<char>) -> Seq<char> {
    match ext {
        Some(e) => if e == "qcow2"@ {
            "qcow2"@
        } else if e == "raw"@ || e == "img"@ {
            "raw"@
        } else if e == "vmdk"@ {
            "vmdk"@
        } else if e == "vdi"@ {
            "vdi"@
        } else if e == "vpc"@ || e == "vhd"@ {
            "vpc"@
        } else if e == "qed"@ {
            "qed"@
        } else {
            configured
        },
        None => configured,
    }
}

impl VmService {
    /// Name, size in bytes and definition of the system-disk volume of a new VM.
    pub fn disk_volume(config: &VmConfig) -> (r: Result<(String, u64, String), AppError>)
        ensures
            match r {
                Ok((name, bytes, xml)) => config.disk_size_gb > 0 && config.disk_size_gb * GIB <= u64::MAX
                    && text_ok(config.name@ + "."@ + config.disk_format@) && text_ok(config.disk_format@) && name@
                    == config.name@ + "."@ + config.disk_format@ && bytes == config.disk_size_gb * GIB && xml@
                    == vm_volume_xml(config.name@, config.disk_format@, bytes as nat),
                Err(e) => !(config.disk_size_gb > 0 && config.disk_size_gb * GIB <= u64::MAX && text_ok(
                    config.name@ + "."@ + config.disk_format@,
                ) && text_ok(config.disk_format@)) && e is InvalidConfig,
            },
    {
        let mut name = config.name.clone();
        name.append(".");
        name.append(config.disk_format.as_str());
        let bytes = StorageService::disk_bytes(config.disk_size_gb)?;
        let en = escaped_attribute(name.as_str(), "Volume name")?;
        let ef = escaped_attribute(config.disk_format.as_str(), "Disk format")?;
        let mut xml = String::from_str("<volume>\n  <name>");
        xml.append(en.as_str());
        xml.append("</name>\n  <capacity unit='bytes'>");
        let b = fmt_u64(bytes);
        xml.append(b.as_str());
        xml.append("</capacity>\n  <target>\n    <format type='");
        xml.append(ef.as_str());
        xml.append("'/>\n  </target>\n</volume>");
        Ok((name, bytes, xml))
    }

    /// The format an imported disk image is attached with.
    pub fn import_disk_format(disk_path: &str, configured: &str) -> (r: String)
        ensures
            r@ == import_format(path_extension(disk_path@), configured@),
    {
        match extension_of(disk_path) {
            Some(e) => {
                let e = e.as_str();
                if str_eq(e, "qcow2") {
                    String::from_str("qcow2")
                } else if str_eq(e, "raw") || str_eq(e, "img") {
                    String::from_str("raw")
                } else if str_eq(e, "vmdk") {
                    String::from_str("vmdk")
                } else if str_eq(e, "vdi") {
                    String::from_str("vdi")
                } else if str_eq(e, "vpc") || str_eq(e, "vhd") {
                    String::from_str("vpc")
                } else if str_eq(e, "qed") {
                    String::from_str("qed")
                } else {
                    String::from_str(configured)
                }
            },
            None => String::from_str(configured),
        }
    }
}

/// A text found at `i` is found `l.len()` further on once `l` is put before it.
proof fn lemma_occurs_prepend(l: Seq<char>, s: Seq<char>, p: Seq<char>, i: int)
    requires
        occurs_at(s, p, i),
    ensures
        occurs_at(l + s, p, l.len() + i),
{
    assert((l + s).subrange(l.len() + i, l.len() + i + p.len()) =~= s.subrange(i, i + p.len()));
}

/// A text found at `i` is still found there once something is appended.
proof fn lemma_occurs_append(s: Seq<char>, t: Seq<char>, p: Seq<char>, i: int)
    requires
        occurs_at(s, p, i),
    ensures
        occurs_at(s + t, p, i),
{
    assert((s + t).subrange(i, i + p.len()) =~= s.subrange(i, i + p.len()));
}

/// The definition of a new VM attaches its interface to the network the request names:
/// it holds `<source network='…'/>` with that network's name.
pub proof fn law_definition_attaches_the_requested_network(
    c: VmConfig,
    disk_format: Seq<char>,
    disk_path: Seq<char>,
    cloud_init_xml: Seq<char>,
    x: Seq<char>,
)
    requires
        domain_xml(c, disk_format, disk_path, cloud_init_xml) == Some(x),
    ensures
        contains(x, "<source network='"@ + escape(c.network@) + "'/>"@),
{
    reveal_strlit("    <interface type='network'>\n      <source network='");
    reveal_strlit("<source network='");
    let pat = "<source network='"@ + escape(c.network@) + "'/>"@;
    let lead = "    <interface type='network'>\n      <source network='"@;
    let rest = "'/>\n      <model type='virtio'/>\n"@;
    let iface = interface_xml(c);
    let k = lead.len() - 17;
    assert(occurs_at(iface, pat, k)) by {
        reveal_strlit("'/>\n      <model type='virtio'/>\n");
        reveal_strlit("'/>");
        assert(iface.subrange(k, k + pat.len()) =~= pat);
    }
    let pre = "  <devices>\n"@ + main_disk_xml(disk_format, disk_path) + "\n"@ + cdrom_xml(c) + "\n"@ + cloud_init_xml
        + "\n"@;
    lemma_occurs_prepend(pre, iface, pat, k);
    let d1 = pre + iface;
    lemma_occurs_append(d1, "\n"@, pat, pre.len() + k);
    let d2 = d1 + "\n"@;
    lemma_occurs_append(d2, graphics_xml(c), pat, pre.len() + k);
    let d3 = d2 + graphics_xml(c);
    lemma_occurs_append(d3, "\n"@, pat, pre.len() + k);
    let d4 = d3 + "\n"@;
    lemma_occurs_append(d4, video_xml(c), pat, pre.len() + k);
    let d5 = d4 + video_xml(c);
    lemma_occurs_append(d5, "\n"@, pat, pre.len() + k);
    let dev = domain_devices(c, disk_format, disk_path, cloud_init_xml);
    assert(dev == d5 + "\n"@);
    let boot = boot_xml(boot_devices(c))->0;
    let kernel = kernel_xml(c)->0;
    let pci = pci_xml(strings_view(c.pci_devices@))->0;
    let watchdog = watchdog_xml(c)->0;
    let ho = domain_head(c) + domain_os(c, boot, kernel);
    let at = ho.len() + pre.len() + k;
    lemma_occurs_prepend(ho, dev, pat, pre.len() + k);
    lemma_occurs_append(ho + dev, fixed_devices(), pat, at);
    lemma_occurs_append(ho + dev + fixed_devices(), domain_tail(c, pci, watchdog), pat, at);
    assert(x == ho + dev + fixed_devices() + domain_tail(c, pci, watchdog));
    crate::text::lemma_find_from_props(x, pat, 0);
}

} // verus!
