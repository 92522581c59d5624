//! Virtual machines: the request to create one, its validation, and the small value
//! formats the domain definition uses.
use crate::error::AppError;
use crate::operation::opt_view;
use crate::text::{
    chars_of, char_is_alnum, char_is_hex, is_alnum, is_hex, lower_char, starts_with, starts_with_str, str_eq,
};
use vstd::prelude::*;

verus! {

/// Virtual machine operations.
pub struct VmService;

/// Cloud-init settings of a new VM.
#[derive(Debug)]
pub struct CloudInitConfig {
    pub enabled: bool,
    pub user_data: String,
    pub network_config: Option<String>,
}

/// A VM to create.
#[derive(Debug)]
pub struct VmConfig {
    pub name: String,
    pub os_type: String,
    pub cpu_count: u32,
    pub cpu_sockets: u32,
    pub cpu_cores: u32,
    pub cpu_threads: u32,
    pub memory_mb: u64,
    pub disk_size_gb: u64,
    pub disk_format: String,
    pub network: String,
    pub firmware: String,
    pub chipset: String,
    pub tpm_enabled: bool,
    pub installation_type: String,
    pub iso_path: Option<String>,
    pub existing_disk_path: Option<String>,
    pub network_install_url: Option<String>,
    pub storage_pool_id: Option<String>,
    pub boot_order: Vec<String>,
    pub boot_menu: bool,
    pub graphics_type: String,
    pub video_model: String,
    pub direct_kernel_boot: bool,
    pub kernel_path: Option<String>,
    pub initrd_path: Option<String>,
    pub kernel_args: Option<String>,
    pub dtb_path: Option<String>,
    pub pci_devices: Vec<String>,
    pub rng_enabled: bool,
    pub watchdog_model: Option<String>,
    pub watchdog_action: String,
    pub hugepages_enabled: bool,
    pub hugepage_size: Option<u64>,
    pub cloud_init: Option<CloudInitConfig>,
}

// ---------------------------------------------------------------------------
// Names and choices
// ---------------------------------------------------------------------------

pub open spec fn vm_name_char(c: char) -> bool {
    is_alnum(c) || c == '.' || c == '_' || c == '-'
}

/// A VM name: 1 to 128 letters, digits, dots, underscores and hyphens.
pub open spec fn vm_name_ok(s: Seq<char>) -> bool {
    0 < s.len() <= 128 && forall|i: int| 0 <= i < s.len() ==> vm_name_char(#[trigger] s[i])
}

pub open spec fn disk_format_ok(f: Seq<char>) -> bool {
    f == "raw"@ || f == "qcow2"@ || f == "qcow"@ || f == "vmdk"@ || f == "vdi"@ || f == "vpc"@ || f == "qed"@
}

pub open spec fn firmware_ok(f: Seq<char>) -> bool {
    f == "bios"@ || f == "uefi"@ || f == "uefi-secure"@
}

pub open spec fn chipset_ok(c: Seq<char>) -> bool {
    c == "pc"@ || c == "q35"@
}

pub open spec fn graphics_ok(g: Seq<char>) -> bool {
    g == "spice"@ || g == "vnc"@
}

pub open spec fn video_ok(v: Seq<char>) -> bool {
    v == "qxl"@ || v == "virtio"@ || v == "vga"@ || v == "cirrus"@ || v == "vmvga"@ || v == "bochs"@ || v
        == "ramfb"@ || v == "none"@
}

pub open spec fn boot_device_ok(d: Seq<char>) -> bool {
    d == "hd"@ || d == "cdrom"@ || d == "network"@ || d == "fd"@
}

pub open spec fn watchdog_model_ok(m: Seq<char>) -> bool {
    m == "i6300esb"@ || m == "ib700"@ || m == "diag288"@ || m == "itco"@ || m == "watchdog"@
}

pub open spec fn watchdog_action_ok(a: Seq<char>) -> bool {
    a == "reset"@ || a == "shutdown"@ || a == "poweroff"@ || a == "pause"@ || a == "none"@ || a == "dump"@ || a
        == "inject-nmi"@
}

/// A network installation source: an HTTP, HTTPS or FTP URL.
pub open spec fn install_url_ok(u: Seq<char>) -> bool {
    starts_with(u, "http://"@) || starts_with(u, "https://"@) || starts_with(u, "ftp://"@)
}

/// The checks a VM request passes before anything is created: a valid name, supported
/// disk format, firmware, chipset, graphics and video, a CPU topology that multiplies to
/// the vCPU count, and an HTTP, HTTPS or FTP URL for a network installation that names
/// one.
pub open spec fn vm_request_ok(c: VmConfig) -> bool {
    &&& vm_name_ok(c.name@)
    &&& disk_format_ok(c.disk_format@)
    &&& firmware_ok(c.firmware@)
    &&& chipset_ok(c.chipset@)
    &&& graphics_ok(c.graphics_type@)
    &&& video_ok(c.video_model@)
    &&& c.cpu_sockets * c.cpu_cores * c.cpu_threads == c.cpu_count
    &&& (c.installation_type@ == "network"@ ==> match c.network_install_url {
        Some(u) => install_url_ok(u@),
        None => true,
    })
}

pub(crate) fn one_of(value: &str, allowed: &[&str]) -> (r: bool)
    ensures
        r == exists|i: int| 0 <= i < allowed@.len() && allowed@[i]@ == value@,
{
    let n = allowed.len();
    let mut i: usize = 0;
    while i < n
        invariant
            n == allowed@.len(),
            i <= n,
            forall|k: int| 0 <= k < i ==> allowed@[k]@ != value@,
        decreases n - i,
    {
        if str_eq(allowed[i], value) {
            return true;
        }
        i = i + 1;
    }
    false
}

impl VmService {
    /// Rejects a VM name that is empty, longer than 128 characters or holds anything but
    /// letters, digits, dots, underscores and hyphens.
    pub fn validate_vm_name(name: &str) -> (r: Result<(), AppError>)
        ensures
            r is Ok <==> vm_name_ok(name@),
            r matches Err(e) ==> e is InvalidConfig,
    {
        let v = chars_of(name);
        let n = v.len();
        let mut ok = 0 < n && n <= 128;
        let mut i: usize = 0;
        while i < n
            invariant
                n == v@.len(),
                v@ == name@,
                i <= n,
                ok == (0 < n <= 128 && forall|j: int| 0 <= j < i ==> vm_name_char(#[trigger] v@[j])),
            decreases n - i,
        {
            let c = v[i];
            if !(char_is_alnum(c) || c == '.' || c == '_' || c == '-') {
                ok = false;
            }
            i = i + 1;
        }
        if ok {
            Ok(())
        } else {
            Err(AppError::invalid("VM name may only contain letters, numbers, dots, underscores, and hyphens"))
        }
    }

    /// `value` when it is one of `allowed`; otherwise an error naming `field`.
    pub fn choice<'a>(value: &'a str, field: &str, allowed: &[&str]) -> (r: Result<&'a str, AppError>)
        ensures
            match r {
                Ok(v) => v@ == value@ && exists|i: int| 0 <= i < allowed@.len() && allowed@[i]@ == value@,
                Err(e) => !(exists|i: int| 0 <= i < allowed@.len() && allowed@[i]@ == value@) && e is InvalidConfig,
            },
    {
        if one_of(value, allowed) {
            Ok(value)
        } else {
            let mut m = String::from_str(field);
            m.append(" is not supported");
            Err(AppError::InvalidConfig(m))
        }
    }

    /// The checks a VM request passes before anything is created.
    pub fn validate_vm_request(config: &VmConfig) -> (r: Result<(), AppError>)
        requires
            config.cpu_sockets * config.cpu_cores * config.cpu_threads <= u32::MAX,
        ensures
            r is Ok <==> vm_request_ok(*config),
            r matches Err(e) ==> e is InvalidConfig,
    {
        Self::validate_vm_name(config.name.as_str())?;
        let f = config.disk_format.as_str();
        if !(str_eq(f, "raw") || str_eq(f, "qcow2") || str_eq(f, "qcow") || str_eq(f, "vmdk") || str_eq(f, "vdi")
            || str_eq(f, "vpc") || str_eq(f, "qed")) {
            return Err(AppError::invalid("Disk format is not supported"));
        }
        let fw = config.firmware.as_str();
        if !(str_eq(fw, "bios") || str_eq(fw, "uefi") || str_eq(fw, "uefi-secure")) {
            return Err(AppError::invalid("Firmware is not supported"));
        }
        let cs = config.chipset.as_str();
        if !(str_eq(cs, "pc") || str_eq(cs, "q35")) {
            return Err(AppError::invalid("Chipset is not supported"));
        }
        let g = config.graphics_type.as_str();
        if !(str_eq(g, "spice") || str_eq(g, "vnc")) {
            return Err(AppError::invalid("Graphics type is not supported"));
        }
        let vm = config.video_model.as_str();
        if !(str_eq(vm, "qxl") || str_eq(vm, "virtio") || str_eq(vm, "vga") || str_eq(vm, "cirrus") || str_eq(
            vm,
            "vmvga",
        ) || str_eq(vm, "bochs") || str_eq(vm, "ramfb") || str_eq(vm, "none")) {
            return Err(AppError::invalid("Video model is not supported"));
        }
        let a = config.cpu_sockets as u64;
        let b = config.cpu_cores as u64;
        let c = config.cpu_threads as u64;
        proof {
            assert(a * b <= 0xffff_ffff_ffff_ffff) by (nonlinear_arith)
                requires
                    a <= 0xffff_ffff,
                    b <= 0xffff_ffff,
            ;
        }
        let calculated = a * b * c;
        if calculated != config.cpu_count as u64 {
            return Err(AppError::invalid("CPU topology mismatch: sockets, cores and threads must multiply to the vCPU count"));
        }
        if str_eq(config.installation_type.as_str(), "network") {
            if let Some(url) = &config.network_install_url {
                let u = chars_of(url.as_str());
                if !starts_with_str(u.as_slice(), "http://") && !starts_with_str(u.as_slice(), "https://")
                    && !starts_with_str(u.as_slice(), "ftp://") {
                    return Err(AppError::invalid("Network install URL must start with http://, https://, or ftp://"));
                }
            }
        }
        Ok(())
    }
}

// ---------------------------------------------------------------------------
// PCI addresses
// ---------------------------------------------------------------------------

pub open spec fn hex_digit_value(c: char) -> nat {
    if '0' <= c && c <= '9' {
        (c as u32 - '0' as u32) as nat
    } else if 'a' <= c && c <= 'f' {
        (c as u32 - 'a' as u32 + 10) as nat
    } else {
        (c as u32 - 'A' as u32 + 10) as nat
    }
}

/// Value of a run of hexadecimal digits.
pub open spec fn hex_value(s: Seq<char>) -> nat
    decreases s.len(),
{
    if s.len() == 0 {
        0
    } else {
        hex_value(s.drop_last()) * 16 + hex_digit_value(s.last())
    }
}

/// The digits of a hexadecimal field: an optional leading `+` is dropped.
pub open spec fn hex_body(s: Seq<char>) -> Seq<char> {
    if s.len() > 0 && s[0] == '+' {
        s.drop_first()
    } else {
        s
    }
}

/// `u*::from_str_radix(s, 16)` for a field of at most four characters: an optional `+`
/// followed by at least one hexadecimal digit.
pub open spec fn parse_hex(s: Seq<char>) -> Option<nat> {
    let body = hex_body(s);
    if body.len() > 0 && forall|i: int| 0 <= i < body.len() ==> is_hex(#[trigger] body[i]) {
        Some(hex_value(body))
    } else {
        None
    }
}

/// A PCI address `dddd:bb:ss.f` in hexadecimal, with a function number of at most 7.
pub open spec fn pci_address(s: Seq<char>) -> Option<(u16, u8, u8, u8)> {
    if s.len() != 12 || s[4] != ':' || s[7] != ':' || s[10] != '.' {
        None
    } else {
        match (
            parse_hex(s.subrange(0, 4)),
            parse_hex(s.subrange(5, 7)),
            parse_hex(s.subrange(8, 10)),
            parse_hex(s.subrange(11, 12)),
        ) {
            (Some(d), Some(b), Some(sl), Some(f)) => if f > 7 {
                None
            } else {
                Some((d as u16, b as u8, sl as u8, f as u8))
            },
            _ => None,
        }
    }
}

pub open spec fn pow16(n: nat) -> nat
    decreases n,
{
    if n == 0 {
        1
    } else {
        16 * pow16((n - 1) as nat)
    }
}

proof fn lemma_hex_value_bound(s: Seq<char>)
    requires
        forall|i: int| 0 <= i < s.len() ==> is_hex(#[trigger] s[i]),
    ensures
        hex_value(s) < pow16(s.len()),
    decreases s.len(),
{
    if s.len() > 0 {
        let t = s.drop_last();
        assert forall|i: int| 0 <= i < t.len() implies is_hex(#[trigger] t[i]) by {
            assert(t[i] == s[i]);
        }
        lemma_hex_value_bound(t);
        assert(is_hex(s[s.len() - 1]));
        assert(hex_digit_value(s.last()) < 16);
        assert(hex_value(s) < pow16(s.len())) by (nonlinear_arith)
            requires
                hex_value(s) == hex_value(t) * 16 + hex_digit_value(s.last()),
                hex_value(t) < pow16(t.len()),
                hex_digit_value(s.last()) < 16,
                pow16(s.len()) == 16 * pow16(t.len()),
        ;
    }
}

/// Parses the hexadecimal field `v[from..to]` of at most four characters.
fn parse_hex_field(v: &[char], from: usize, to: usize) -> (r: Option<u32>)
    requires
        from <= to <= v@.len(),
        to - from <= 4,
    ensures
        match r {
            Some(x) => parse_hex(v@.subrange(from as int, to as int)) == Some(x as nat),
            None => parse_hex(v@.subrange(from as int, to as int)) is None,
        },
{
    let ghost s = v@.subrange(from as int, to as int);
    let mut start = from;
    if from < to && v[from] == '+' {
        start = from + 1;
    }
    let ghost body = v@.subrange(start as int, to as int);
    proof {
        if from < to && v@[from as int] == '+' {
            assert(s.drop_first() =~= body);
        } else {
            assert(s =~= body);
        }
        assert(hex_body(s) == body);
    }
    if start == to {
        return None;
    }
    let mut value: u32 = 0;
    let mut i = start;
    while i < to
        invariant
            from <= start <= i <= to <= v@.len(),
            to - from <= 4,
            body == v@.subrange(start as int, to as int),
            s == v@.subrange(from as int, to as int),
            hex_body(s) == body,
            body.len() > 0,
            forall|k: int| start <= k < i ==> is_hex(#[trigger] v@[k]),
            value == hex_value(v@.subrange(start as int, i as int)),
            value < pow16((i - start) as nat),
        decreases to - i,
    {
        let c = v[i];
        if !char_is_hex(c) {
            proof {
                assert(body[i - start] == c);
            }
            return None;
        }
        let d: u32 = if '0' <= c && c <= '9' {
            (c as u32) - ('0' as u32)
        } else if 'a' <= c && c <= 'f' {
            (c as u32) - ('a' as u32) + 10
        } else {
            (c as u32) - ('A' as u32) + 10
        };
        proof {
            assert(v@.subrange(start as int, i + 1).drop_last() =~= v@.subrange(start as int, i as int));
            assert(pow16((i - start) as nat) <= 4096) by {
                reveal_with_fuel(pow16, 4);
            }
            assert(pow16((i + 1 - start) as nat) == 16 * pow16((i - start) as nat));
        }
        value = value * 16 + d;
        i = i + 1;
    }
    proof {
        assert forall|k: int| 0 <= k < body.len() implies is_hex(#[trigger] body[k]) by {
            assert(body[k] == v@[start + k]);
        }
    }
    Some(value)
}

impl VmService {
    /// Domain, bus, slot and function of a PCI address `dddd:bb:ss.f`.
    pub fn parse_pci_address(address: &str) -> (r: Result<(u16, u8, u8, u8), AppError>)
        ensures
            match r {
                Ok(a) => pci_address(address@) == Some(a),
                Err(e) => pci_address(address@) is None && e is InvalidConfig,
            },
    {
        let v = chars_of(address);
        if v.len() != 12 || v[4] != ':' || v[7] != ':' || v[10] != '.' {
            return Err(AppError::invalid("PCI address must use domain:bus:slot.function format"));
        }
        let d = parse_hex_field(v.as_slice(), 0, 4);
        let b = parse_hex_field(v.as_slice(), 5, 7);
        let sl = parse_hex_field(v.as_slice(), 8, 10);
        let f = parse_hex_field(v.as_slice(), 11, 12);
        match (d, b, sl, f) {
            (Some(d), Some(b), Some(sl), Some(f)) => {
                proof {
                    lemma_parse_hex_bound(v@.subrange(0, 4));
                    lemma_parse_hex_bound(v@.subrange(5, 7));
                    lemma_parse_hex_bound(v@.subrange(8, 10));
                    lemma_parse_hex_bound(v@.subrange(11, 12));
                    reveal_with_fuel(pow16, 5);
                }
                if f > 7 {
                    return Err(AppError::invalid("PCI function must be between 0 and 7"));
                }
                Ok((d as u16, b as u8, sl as u8, f as u8))
            },
            _ => Err(AppError::invalid("PCI address contains non-hexadecimal data")),
        }
    }
}

proof fn lemma_parse_hex_bound(s: Seq<char>)
    ensures
        parse_hex(s) matches Some(v) ==> v < pow16(s.len()),
{
    let body = hex_body(s);
    if parse_hex(s) is Some {
        lemma_hex_value_bound(body);
        lemma_pow16_monotone(body.len(), s.len());
    }
}

proof fn lemma_pow16_monotone(a: nat, b: nat)
    requires
        a <= b,
    ensures
        pow16(a) <= pow16(b),
    decreases b,
{
    if a < b {
        lemma_pow16_monotone(a, (b - 1) as nat);
        assert(pow16(b) == 16 * pow16((b - 1) as nat));
    }
}

// ---------------------------------------------------------------------------
// Hexadecimal text
// ---------------------------------------------------------------------------

pub open spec fn hex_char(d: nat) -> char {
    if d < 10 {
        (('0' as u32) + d) as char
    } else {
        (('a' as u32) + d - 10) as char
    }
}

/// The last `w` lower-case hexadecimal digits of `v`, zero-padded.
pub open spec fn hex_fixed(v: nat, w: nat) -> Seq<char>
    decreases w,
{
    if w == 0 {
        Seq::empty()
    } else {
        hex_fixed(v / 16, (w - 1) as nat).push(hex_char(v % 16))
    }
}

pub fn fmt_hex(v: u64, w: usize) -> (r: String)
    ensures
        r@ == hex_fixed(v as nat, w as nat),
    decreases w,
{
    if w == 0 {
        return String::new();
    }
    let mut r = fmt_hex(v / 16, w - 1);
    let d = (v % 16) as u32;
    let c: char = if d < 10 {
        char_from_u32_digit(48 + d)
    } else {
        char_from_u32_digit(87 + d)
    };
    crate::text::push_char(&mut r, c);
    r
}

fn char_from_u32_digit(x: u32) -> (c: char)
    requires
        48 <= x < 58 || 97 <= x < 103,
    ensures
        c as u32 == x,
{
    if x < 58 {
        ((x - 48) as u8 + 48u8) as char
    } else {
        ((x - 97) as u8 + 97u8) as char
    }
}

// ---------------------------------------------------------------------------
// Settings and reports
// ---------------------------------------------------------------------------

/// What migrating a VM involves.
#[derive(Debug)]
pub struct MigrationInfo {
    pub can_live_migrate: bool,
    pub memory_mb: u64,
    pub disk_size_bytes: u64,
    pub estimated_downtime_ms: u64,
}

/// An input device of the host that can be passed to a guest.
#[derive(Debug)]
pub struct EvdevDevice {
    pub id: String,
    pub path: String,
    pub name: String,
    pub device_type: String,
}

/// Direct kernel boot settings of a VM.
#[derive(Debug)]
pub struct KernelBootSettings {
    pub enabled: bool,
    pub kernel_path: Option<String>,
    pub initrd_path: Option<String>,
    pub kernel_args: Option<String>,
    pub dtb_path: Option<String>,
}

/// The CPU model of a VM: a mode, and a model name for the custom mode.
#[derive(Debug)]
pub struct CpuModelConfig {
    pub mode: String,
    pub model: Option<String>,
}

/// Huge-page memory backing of a VM; the page size is in KiB.
#[derive(Debug)]
pub struct HugepagesSettings {
    pub enabled: bool,
    pub size: Option<u64>,
}

/// Huge pages of one size available on the host.
#[derive(Debug)]
pub struct HugepageInfo {
    pub size_kb: u64,
    pub total: u64,
    pub free: u64,
    pub size_human: String,
}

/// USB redirection of a VM.
#[derive(Debug)]
pub struct UsbRedirectionInfo {
    pub enabled: bool,
    pub channel_count: u32,
    pub has_spice_graphics: bool,
}

/// The libvirt version (major * 1000000 + minor * 1000 + micro) from which undefining a
/// domain may remove its TPM state.
pub const LIBVIRT_TPM_UNDEFINE_MIN_VERSION: u32 = 8009000;

/// `VIR_DOMAIN_UNDEFINE_MANAGED_SAVE`, `_SNAPSHOTS_METADATA`, `_NVRAM` and `_TPM`.
pub const UNDEFINE_MANAGED_SAVE: u32 = 1;

pub const UNDEFINE_SNAPSHOTS_METADATA: u32 = 2;

pub const UNDEFINE_NVRAM: u32 = 4;

pub const UNDEFINE_TPM: u32 = 32;

/// `VIR_MIGRATE_LIVE`, `_PERSIST_DEST`, `_UNDEFINE_SOURCE` and `_UNSAFE`.
pub const MIGRATE_LIVE: u32 = 1;

pub const MIGRATE_PERSIST_DEST: u32 = 8;

pub const MIGRATE_UNDEFINE_SOURCE: u32 = 16;

pub const MIGRATE_UNSAFE: u32 = 512;

/// Human-readable size of a page size in KiB.
pub open spec fn size_human(size_kb: u64) -> Seq<char> {
    if size_kb >= 1048576 {
        crate::text::dec((size_kb / 1048576) as nat) + " GB"@
    } else if size_kb >= 1024 {
        crate::text::dec((size_kb / 1024) as nat) + " MB"@
    } else {
        crate::text::dec(size_kb as nat) + " KB"@
    }
}

impl VmService {
    /// The flags a VM is undefined with: its managed-save image and firmware variables
    /// always, its TPM state where the daemon supports removing it, never its snapshot
    /// metadata.
    pub fn deletion_undefine_flags(libvirt_version: u32) -> (r: u32)
        ensures
            r == (if libvirt_version >= LIBVIRT_TPM_UNDEFINE_MIN_VERSION {
                UNDEFINE_MANAGED_SAVE + UNDEFINE_NVRAM + UNDEFINE_TPM
            } else {
                UNDEFINE_MANAGED_SAVE + UNDEFINE_NVRAM
            }),
    {
        let mut flags = UNDEFINE_MANAGED_SAVE + UNDEFINE_NVRAM;
        if libvirt_version >= LIBVIRT_TPM_UNDEFINE_MIN_VERSION {
            flags = flags + UNDEFINE_TPM;
        }
        flags
    }

    /// The flags of a live migration: the destination keeps the domain and the source
    /// forgets it; an unsafe one also accepts CPU model differences.
    pub fn live_migration_flags(unsafe_migration: bool) -> (r: u32)
        ensures
            r == MIGRATE_LIVE + MIGRATE_PERSIST_DEST + MIGRATE_UNDEFINE_SOURCE + (if unsafe_migration {
                MIGRATE_UNSAFE
            } else {
                0
            }),
    {
        let mut flags = MIGRATE_LIVE + MIGRATE_PERSIST_DEST + MIGRATE_UNDEFINE_SOURCE;
        if unsafe_migration {
            flags = flags + MIGRATE_UNSAFE;
        }
        flags
    }

    /// A page size in KiB as `N GB`, `N MB` or `N KB`.
    pub fn format_size_kb(size_kb: u64) -> (r: String)
        ensures
            r@ == size_human(size_kb),
    {
        let mut r = if size_kb >= 1048576 {
            crate::text::fmt_u64(size_kb / 1048576)
        } else if size_kb >= 1024 {
            crate::text::fmt_u64(size_kb / 1024)
        } else {
            crate::text::fmt_u64(size_kb)
        };
        if size_kb >= 1048576 {
            r.append(" GB");
        } else if size_kb >= 1024 {
            r.append(" MB");
        } else {
            r.append(" KB");
        }
        r
    }

    /// What a migration of a VM with `memory_kib` of memory and disks of the given sizes
    /// involves; only a running VM migrates live.
    pub fn migration_info(memory_kib: u64, is_running: bool, disk_size_bytes: u64) -> (r: MigrationInfo)
        ensures
            r.can_live_migrate == is_running,
            r.memory_mb == memory_kib / 1024,
            r.disk_size_bytes == disk_size_bytes,
            r.estimated_downtime_ms == (if is_running { 100u64 } else { 0u64 }),
    {
        MigrationInfo {
            can_live_migrate: is_running,
            memory_mb: memory_kib / 1024,
            disk_size_bytes,
            estimated_downtime_ms: if is_running { 100 } else { 0 },
        }
    }

    /// The saved connections a VM can migrate to: every one that is not local, with its
    /// URI.
    pub fn get_migration_targets(saved: &[crate::connection::SavedConnection]) -> (r: Vec<(String, String)>)
        ensures
            r@.map_values(|t: (String, String)| (t.0@, t.1@)) == remote_targets(saved@),
    {
        let mut out: Vec<(String, String)> = Vec::new();
        let n = saved.len();
        let mut i: usize = 0;
        while i < n
            invariant
                n == saved@.len(),
                i <= n,
                out@.map_values(|t: (String, String)| (t.0@, t.1@)) == remote_targets(saved@.subrange(0, i as int)),
            decreases n - i,
        {
            proof {
                assert(saved@.subrange(0, i + 1).drop_last() =~= saved@.subrange(0, i as int));
                assert(saved@.subrange(0, i + 1).last() == saved@[i as int]);
            }
            let c = &saved[i];
            match c.connection_type {
                crate::connection::ConnectionType::Local => {},
                _ => {
                    let ghost before = out@;
                    let uri = c.build_uri();
                    out.push((c.id.clone(), uri));
                    proof {
                        assert(out@.map_values(|t: (String, String)| (t.0@, t.1@)) =~= before.map_values(
                            |t: (String, String)| (t.0@, t.1@),
                        ).push((c.id@, crate::connection::uri_of(c@))));
                    }
                },
            }
            i = i + 1;
        }
        proof {
            assert(saved@.subrange(0, n as int) =~= saved@);
        }
        out
    }
}

/// The id and URI of every saved connection that is not local.
pub open spec fn remote_targets(saved: Seq<crate::connection::SavedConnection>) -> Seq<(Seq<char>, Seq<char>)>
    decreases saved.len(),
{
    if saved.len() == 0 {
        Seq::empty()
    } else {
        let rest = remote_targets(saved.drop_last());
        let c = saved.last();
        match c.connection_type {
            crate::connection::ConnectionType::Local => rest,
            _ => rest.push((c.id@, crate::connection::uri_of(c@))),
        }
    }
}

} // verus!
