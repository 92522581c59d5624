//! What the QEMU guest agent reports, once its JSON replies have been read: defaults for
//! missing fields, filters, totals and the decoding of captured command output.
use crate::operation::opt_view;
use crate::text::{
    chars_of as chars_of_str, contains, contains_str, lower, lower_string, starts_with, starts_with_str,
    str_eq,
};
use vstd::prelude::*;

verus! {

/// Guest agent operations.
pub struct GuestAgentService {}

#[derive(Debug)]
pub struct AgentInfo {
    pub version: String,
    pub protocol_version: String,
    pub platform: String,
    pub capabilities: Vec<String>,
}

#[derive(Debug)]
pub struct SystemInfo {
    pub os_type: String,
    pub os_name: String,
    pub os_version: String,
    pub kernel_version: String,
    pub hostname: String,
    pub architecture: String,
    pub uptime_seconds: u64,
    pub cpu_count: u32,
    pub total_memory_kb: u64,
    pub free_memory_kb: u64,
}

#[derive(Debug)]
pub struct NetworkInterface {
    pub name: String,
    pub mac_address: Option<String>,
    pub ipv4_addresses: Vec<String>,
    pub ipv6_addresses: Vec<String>,
}

#[derive(Debug)]
pub struct NetworkInfo {
    pub interfaces: Vec<NetworkInterface>,
}

#[derive(Debug)]
pub struct DiskInfo {
    pub mount_point: String,
    pub device: String,
    pub filesystem: String,
    pub total_bytes: u64,
    pub used_bytes: u64,
    pub free_bytes: u64,
}

#[derive(Debug)]
pub struct DiskUsageInfo {
    pub disks: Vec<DiskInfo>,
}

#[derive(Debug)]
pub struct ExecCommandResult {
    pub exit_code: i32,
    pub stdout: String,
    pub stderr: String,
    pub execution_time_ms: u64,
}

#[derive(Debug)]
pub struct CpuStats {
    pub cpu: u32,
    pub user: u64,
    pub system: u64,
    pub idle: u64,
    pub iowait: u64,
    pub steal: u64,
    pub nice: u64,
    pub irq: u64,
    pub softirq: u64,
    pub guest: u64,
}

#[derive(Debug)]
pub struct DiskStats {
    pub name: String,
    pub read_bytes: u64,
    pub write_bytes: u64,
    pub read_ios: u64,
    pub write_ios: u64,
}

#[derive(Debug)]
pub struct GuestDiskStats {
    pub disks: Vec<DiskStats>,
}

#[derive(Debug)]
pub struct GuestUser {
    pub username: String,
    pub login_time: u64,
}

#[derive(Debug)]
pub struct GuestTimezone {
    pub zone: String,
    pub offset: i32,
}

#[derive(Debug)]
pub struct GuestFullInfo {
    pub agent_version: String,
    pub os_name: String,
    pub os_version: String,
    pub kernel_version: String,
    pub hostname: String,
    pub architecture: String,
    pub timezone: Option<GuestTimezone>,
    pub users: Vec<GuestUser>,
    pub cpu_count: u32,
    pub filesystems: Vec<DiskInfo>,
    pub network_interfaces: Vec<NetworkInterface>,
}

/// The fields of a `guest-get-osinfo` reply. For a field that may fall back to another,
/// the outer `Option` says whether the key is present and the inner one whether its value
/// is a string.
pub struct GuestOsFields {
    pub pretty_name: Option<Option<String>>,
    pub name: Option<Option<String>>,
    pub version_id: Option<Option<String>>,
    pub version: Option<Option<String>>,
    pub kernel_release: Option<String>,
    pub machine: Option<String>,
    pub id: Option<String>,
}

/// One disk of a `guest-get-diskstats` reply.
pub struct DiskStatsFields {
    pub name: Option<String>,
    pub read_sectors: Option<u64>,
    pub write_sectors: Option<u64>,
    pub read_ios: Option<u64>,
    pub write_ios: Option<u64>,
}

pub open spec fn strings_of(v: Seq<String>) -> Seq<Seq<char>> {
    v.map_values(|s: String| s@)
}

/// The value of the first key that is present, as a string if it is one.
pub open spec fn first_present(a: Option<Option<String>>, b: Option<Option<String>>) -> Option<Seq<char>> {
    match a {
        Some(x) => opt_view(x),
        None => match b {
            Some(y) => opt_view(y),
            None => None,
        },
    }
}

pub open spec fn or_default(o: Option<Seq<char>>, d: Seq<char>) -> Seq<char> {
    match o {
        Some(s) => s,
        None => d,
    }
}

/// Names of the commands that are present and enabled.
pub open spec fn enabled_commands(cmds: Seq<(Option<String>, Option<bool>)>) -> Seq<Seq<char>>
    decreases cmds.len(),
{
    if cmds.len() == 0 {
        Seq::empty()
    } else {
        let rest = enabled_commands(cmds.drop_last());
        match cmds.last() {
            (Some(n), Some(true)) => rest.push(n@),
            _ => rest,
        }
    }
}

/// The addresses of `family` among `(address, family)` pairs.
pub open spec fn addresses_of(addrs: Seq<(Option<String>, Option<String>)>, family: Seq<char>) -> Seq<Seq<char>>
    decreases addrs.len(),
{
    if addrs.len() == 0 {
        Seq::empty()
    } else {
        let rest = addresses_of(addrs.drop_last(), family);
        match addrs.last() {
            (Some(ip), Some(t)) => if t@ == family {
                rest.push(ip@)
            } else {
                rest
            },
            _ => rest,
        }
    }
}

/// A guest disk worth reporting: not a loop or device-mapper device.
pub open spec fn reported_disk(name: Seq<char>) -> bool {
    !starts_with(name, "loop"@) && !starts_with(name, "dm-"@)
}

pub open spec fn disk_stats_value(d: DiskStatsFields) -> (Seq<char>, int, int, int, int) {
    (
        or_default(opt_view(d.name), Seq::empty()),
        (or_zero(d.read_sectors) * 512) as int,
        (or_zero(d.write_sectors) * 512) as int,
        or_zero(d.read_ios) as int,
        or_zero(d.write_ios) as int,
    )
}

pub open spec fn or_zero(o: Option<u64>) -> nat {
    match o {
        Some(v) => v as nat,
        None => 0,
    }
}

pub open spec fn reported_disks(ds: Seq<DiskStatsFields>) -> Seq<(Seq<char>, int, int, int, int)>
    decreases ds.len(),
{
    if ds.len() == 0 {
        Seq::empty()
    } else {
        let rest = reported_disks(ds.drop_last());
        let v = disk_stats_value(ds.last());
        if reported_disk(v.0) {
            rest.push(v)
        } else {
            rest
        }
    }
}

pub open spec fn disk_stats_view(d: DiskStats) -> (Seq<char>, int, int, int, int) {
    (d.name@, d.read_bytes as int, d.write_bytes as int, d.read_ios as int, d.write_ios as int)
}

/// Sum of `f` over the CPUs.
pub open spec fn cpu_sum(cpus: Seq<CpuStats>, f: spec_fn(CpuStats) -> int) -> int
    decreases cpus.len(),
{
    if cpus.len() == 0 {
        0
    } else {
        cpu_sum(cpus.drop_last(), f) + f(cpus.last())
    }
}

pub open spec fn cpu_user(c: CpuStats) -> int {
    c.user as int
}

pub open spec fn cpu_system(c: CpuStats) -> int {
    c.system as int
}

pub open spec fn cpu_idle(c: CpuStats) -> int {
    c.idle as int
}

/// The time a CPU spent in any state that is counted.
pub open spec fn cpu_all(c: CpuStats) -> int {
    c.user + c.system + c.idle + c.iowait + c.nice + c.irq + c.softirq + c.steal
}

// ---------------------------------------------------------------------------
// Base64, as the agent encodes captured output
// ---------------------------------------------------------------------------

/// Value of one base64 character; `=` counts as zero.
pub open spec fn b64_value(b: u8) -> Option<nat> {
    if 65 <= b <= 90 {
        Some((b - 65) as nat)
    } else if 97 <= b <= 122 {
        Some((b - 97 + 26) as nat)
    } else if 48 <= b <= 57 {
        Some((b - 48 + 52) as nat)
    } else if b == 43 {
        Some(62)
    } else if b == 47 {
        Some(63)
    } else if b == 61 {
        Some(0)
    } else {
        None
    }
}

pub open spec fn b64_ok(s: Seq<u8>) -> bool {
    forall|i: int| 0 <= i < s.len() ==> (#[trigger] b64_value(s[i])) is Some
}

/// Value of character `i` of `s`, zero past its end.
pub open spec fn b64_at(s: Seq<u8>, i: int) -> nat {
    if 0 <= i < s.len() {
        match b64_value(s[i]) {
            Some(v) => v,
            None => 0,
        }
    } else {
        0
    }
}

/// The 24-bit value of group `g` (characters `4g .. 4g+4`).
pub open spec fn group_value(s: Seq<u8>, g: int) -> nat {
    b64_at(s, 4 * g) * 262144 + b64_at(s, 4 * g + 1) * 4096 + b64_at(s, 4 * g + 2) * 64 + b64_at(
        s,
        4 * g + 3,
    )
}

/// Byte `j` of the decoded groups, three per group, most significant first.
pub open spec fn decoded_byte(s: Seq<u8>, j: int) -> u8 {
    let v = group_value(s, j / 3);
    if j % 3 == 0 {
        ((v / 65536) % 256) as u8
    } else if j % 3 == 1 {
        ((v / 256) % 256) as u8
    } else {
        (v % 256) as u8
    }
}

/// Length of `s` without its trailing `=` characters.
pub open spec fn unpadded_len(s: Seq<u8>) -> nat
    decreases s.len(),
{
    if s.len() > 0 && s.last() == 61 {
        unpadded_len(s.drop_last())
    } else {
        s.len()
    }
}

/// The bytes encoded by `s`: three per group of four characters, cut to three quarters of
/// the unpadded length; `None` when a character is not base64.
pub open spec fn base64_decoded(s: Seq<u8>) -> Option<Seq<u8>> {
    if b64_ok(s) {
        Some(Seq::new(unpadded_len(s) * 3 / 4, |j: int| decoded_byte(s, j)))
    } else {
        None
    }
}

/// UTF-8 text of `bytes`, as `String::from_utf8` decodes it.
#[verifier::external_body]
fn utf8_text(bytes: Vec<u8>) -> (r: Option<String>)
    ensures
        match r {
            Some(s) => vstd::utf8::valid_utf8(bytes@) && s@ == vstd::utf8::decode_utf8(bytes@),
            None => !vstd::utf8::valid_utf8(bytes@),
        },
{
    String::from_utf8(bytes).ok()
}

fn b64_value_exec(b: u8) -> (r: Option<u32>)
    ensures
        match r {
            Some(v) => b64_value(b) == Some(v as nat),
            None => b64_value(b) is None,
        },
{
    if 65 <= b && b <= 90 {
        Some((b - 65) as u32)
    } else if 97 <= b && b <= 122 {
        Some((b - 97 + 26) as u32)
    } else if 48 <= b && b <= 57 {
        Some((b - 48 + 52) as u32)
    } else if b == 43 {
        Some(62)
    } else if b == 47 {
        Some(63)
    } else if b == 61 {
        Some(0)
    } else {
        None
    }
}

/// Value of character `base + k` of `s`, zero past its end.
fn b64_at_exec(s: &[u8], base: usize, k: usize) -> (r: u32)
    requires
        b64_ok(s@),
        base < s@.len(),
        k < 4,
    ensures
        r == b64_at(s@, base + k),
        r < 64,
{
    let n = s.len();
    if k < n - base {
        match b64_value_exec(s[base + k]) {
            Some(v) => v,
            None => 0,
        }
    } else {
        0
    }
}

/// Decodes base64 `input` to bytes.
pub fn decode_base64_bytes(input: &str) -> (r: Option<Vec<u8>>)
    ensures
        match r {
            Some(b) => base64_decoded(vstd::utf8::encode_utf8(input@)) == Some(b@),
            None => base64_decoded(vstd::utf8::encode_utf8(input@)) is None,
        },
{
    let s = input.as_bytes();
    let ghost sv = s@;
    let n = s.len();
    let mut i: usize = 0;
    while i < n
        invariant
            n == sv.len(),
            sv == s@,
            sv == vstd::utf8::encode_utf8(input@),
            i <= n,
            forall|k: int| 0 <= k < i ==> (#[trigger] b64_value(sv[k])) is Some,
        decreases n - i,
    {
        if b64_value_exec(s[i]).is_none() {
            proof {
                assert(b64_value(sv[i as int]) is None);
                assert(sv == vstd::utf8::encode_utf8(input@));
            }
            return None;
        }
        i = i + 1;
    }
    proof {
        assert(sv.subrange(0, n as int) =~= sv);
    }
    let mut t = n;
    while t > 0 && s[t - 1] == 61
        invariant
            t <= n == sv.len(),
            sv == s@,
            unpadded_len(sv) == unpadded_len(sv.subrange(0, t as int)),
        decreases t,
    {
        proof {
            assert(sv.subrange(0, t as int).drop_last() =~= sv.subrange(0, t - 1));
            assert(sv.subrange(0, t as int).last() == sv[t - 1]);
        }
        t = t - 1;
    }
    proof {
        assert(sv.subrange(0, n as int) =~= sv);
        if t > 0 {
            assert(sv.subrange(0, t as int).last() == sv[t - 1]);
        }
    }
    let limit = (t / 4) * 3 + (t % 4) * 3 / 4;
    proof {
        assert(limit == t * 3 / 4) by (nonlinear_arith)
            requires
                limit == (t / 4) * 3 + (t % 4) * 3 / 4,
        ;
    }
    let mut out: Vec<u8> = Vec::new();
    let mut j: usize = 0;
    while j < limit
        invariant
            n == sv.len(),
            sv == s@,
            b64_ok(sv),
            j <= limit,
            limit == t * 3 / 4,
            t <= n,
            out@.len() == j,
            forall|k: int| 0 <= k < j ==> out@[k] == decoded_byte(sv, k),
        decreases limit - j,
    {
        let g = j / 3;
        proof {
            assert(g * 4 < t) by (nonlinear_arith)
                requires
                    g == j / 3,
                    j < limit,
                    limit == t * 3 / 4,
            ;
        }
        let base = g * 4;
        let v = b64_at_exec(s, base, 0) * 262144 + b64_at_exec(s, base, 1) * 4096 + b64_at_exec(s, base, 2)
            * 64 + b64_at_exec(s, base, 3);
        let byte: u8 = if j % 3 == 0 {
            ((v / 65536) % 256) as u8
        } else if j % 3 == 1 {
            ((v / 256) % 256) as u8
        } else {
            (v % 256) as u8
        };
        out.push(byte);
        j = j + 1;
    }
    proof {
        assert(out@ =~= Seq::new(unpadded_len(sv) * 3 / 4, |k: int| decoded_byte(sv, k)));
        assert(sv == vstd::utf8::encode_utf8(input@));
    }
    Some(out)
}

/// Decodes base64 `input` to UTF-8 text; `None` when it is not base64 or not UTF-8.
pub fn decode_base64(input: &str) -> (r: Option<String>)
    ensures
        match r {
            Some(t) => base64_decoded(vstd::utf8::encode_utf8(input@)) matches Some(b)
                && vstd::utf8::valid_utf8(b) && t@ == vstd::utf8::decode_utf8(b),
            None => match base64_decoded(vstd::utf8::encode_utf8(input@)) {
                Some(b) => !vstd::utf8::valid_utf8(b),
                None => true,
            },
        },
{
    match decode_base64_bytes(input) {
        Some(b) => utf8_text(b),
        None => None,
    }
}

fn string_or(o: Option<String>, d: &str) -> (r: String)
    ensures
        r@ == or_default(opt_view(o), d@),
{
    match o {
        Some(s) => s,
        None => String::from_str(d),
    }
}

/// The operating-system family of a guest: Windows when its id, or its name in any case,
/// mentions it.
pub open spec fn os_type_of(id: Seq<char>, name: Seq<char>) -> Seq<char> {
    if contains(id, "windows"@) || contains(lower(name), "windows"@) {
        "windows"@
    } else {
        "linux"@
    }
}

impl GuestAgentService {
    pub fn new() -> (r: Self) {
        GuestAgentService {}
    }
}

impl Default for GuestAgentService {
    fn default() -> (r: Self) {
        Self::new()
    }
}

impl GuestAgentService {

    /// The agent's version and the names of its enabled commands.
    pub fn agent_info(version: Option<String>, commands: Vec<(Option<String>, Option<bool>)>) -> (r: AgentInfo)
        ensures
            r.version@ == or_default(opt_view(version), "unknown"@),
            r.protocol_version@ == "1.0"@,
            r.platform@ == "qemu-ga"@,
            strings_of(r.capabilities@) == enabled_commands(commands@),
    {
        let mut capabilities: Vec<String> = Vec::new();
        let n = commands.len();
        let mut i: usize = 0;
        while i < n
            invariant
                n == commands@.len(),
                i <= n,
                strings_of(capabilities@) == enabled_commands(commands@.subrange(0, i as int)),
            decreases n - i,
        {
            proof {
                assert(commands@.subrange(0, i + 1).drop_last() =~= commands@.subrange(0, i as int));
            }
            let ghost before = capabilities@;
            match &commands[i] {
                (Some(name), Some(true)) => {
                    capabilities.push(name.clone());
                    proof {
                        assert(strings_of(capabilities@) =~= strings_of(before).push(name@));
                    }
                },
                _ => {},
            }
            i = i + 1;
        }
        proof {
            assert(commands@.subrange(0, n as int) =~= commands@);
        }
        AgentInfo {
            version: string_or(version, "unknown"),
            protocol_version: String::from_str("1.0"),
            platform: String::from_str("qemu-ga"),
            capabilities,
        }
    }

    /// System information from the agent's OS, host-name and vCPU replies.
    pub fn system_info(os: GuestOsFields, hostname: Option<String>, vcpus: Option<usize>) -> (r: SystemInfo)
        ensures
            r.os_name@ == or_default(first_present(os.pretty_name, os.name), "Unknown"@),
            r.os_version@ == or_default(first_present(os.version_id, os.version), Seq::empty()),
            r.kernel_version@ == or_default(opt_view(os.kernel_release), Seq::empty()),
            r.architecture@ == or_default(opt_view(os.machine), "unknown"@),
            r.hostname@ == or_default(opt_view(hostname), "unknown"@),
            r.os_type@ == os_type_of(
                or_default(opt_view(os.id), Seq::empty()),
                or_default(first_present(os.pretty_name, os.name), "Unknown"@),
            ),
            r.cpu_count == (match vcpus {
                Some(n) => n as u32,
                None => 1u32,
            }),
            r.uptime_seconds == 0,
            r.total_memory_kb == 0,
            r.free_memory_kb == 0,
    {
        let os_name_opt = match os.pretty_name {
            Some(v) => v,
            None => match os.name {
                Some(v) => v,
                None => None,
            },
        };
        let os_name = string_or(os_name_opt, "Unknown");
        let os_version_opt = match os.version_id {
            Some(v) => v,
            None => match os.version {
                Some(v) => v,
                None => None,
            },
        };
        proof {
            reveal_strlit("");
        }
        let os_version = string_or(os_version_opt, "");
        let kernel_version = string_or(os.kernel_release, "");
        let architecture = string_or(os.machine, "unknown");
        let hostname = string_or(hostname, "unknown");
        let id = string_or(os.id, "");
        let lowered = lower_string(os_name.as_str());
        let windows = contains_str(chars_of_str(id.as_str()).as_slice(), "windows") || contains_str(
            chars_of_str(lowered.as_str()).as_slice(),
            "windows",
        );
        proof {
            assert(id@ == or_default(opt_view(os.id), Seq::empty()));
            assert(windows == (contains(id@, "windows"@) || contains(lower(os_name@), "windows"@)));
        }
        let os_type = if windows {
            String::from_str("windows")
        } else {
            String::from_str("linux")
        };
        let cpu_count: u32 = match vcpus {
            Some(n) => {
                #[verifier::truncate]
                let c = n as u32;
                c
            },
            None => 1,
        };
        SystemInfo {
            os_type,
            os_name,
            os_version,
            kernel_version,
            hostname,
            architecture,
            uptime_seconds: 0,
            cpu_count,
            total_memory_kb: 0,
            free_memory_kb: 0,
        }
    }

    /// One interface of the agent's network reply; addresses of other families are dropped.
    pub fn network_interface(
        name: Option<String>,
        mac_address: Option<String>,
        addresses: Vec<(Option<String>, Option<String>)>,
    ) -> (r: NetworkInterface)
        ensures
            r.name@ == or_default(opt_view(name), "unknown"@),
            opt_view(r.mac_address) == opt_view(mac_address),
            strings_of(r.ipv4_addresses@) == addresses_of(addresses@, "ipv4"@),
            strings_of(r.ipv6_addresses@) == addresses_of(addresses@, "ipv6"@),
    {
        let mut v4: Vec<String> = Vec::new();
        let mut v6: Vec<String> = Vec::new();
        let n = addresses.len();
        let mut i: usize = 0;
        while i < n
            invariant
                n == addresses@.len(),
                i <= n,
                strings_of(v4@) == addresses_of(addresses@.subrange(0, i as int), "ipv4"@),
                strings_of(v6@) == addresses_of(addresses@.subrange(0, i as int), "ipv6"@),
            decreases n - i,
        {
            proof {
                assert(addresses@.subrange(0, i + 1).drop_last() =~= addresses@.subrange(0, i as int));
            }
            let ghost b4 = v4@;
            let ghost b6 = v6@;
            proof {
                reveal_strlit("ipv4");
                reveal_strlit("ipv6");
                assert("ipv4"@[3] != "ipv6"@[3]);
            }
            match &addresses[i] {
                (Some(ip), Some(t)) => {
                    if str_eq(t.as_str(), "ipv4") {
                        v4.push(ip.clone());
                        proof {
                            assert(strings_of(v4@) =~= strings_of(b4).push(ip@));
                        }
                    } else if str_eq(t.as_str(), "ipv6") {
                        v6.push(ip.clone());
                        proof {
                            assert(strings_of(v6@) =~= strings_of(b6).push(ip@));
                        }
                    }
                },
                _ => {},
            }
            i = i + 1;
        }
        proof {
            assert(addresses@.subrange(0, n as int) =~= addresses@);
        }
        NetworkInterface {
            name: string_or(name, "unknown"),
            mac_address,
            ipv4_addresses: v4,
            ipv6_addresses: v6,
        }
    }

    /// One mounted filesystem of the agent's reply; free space never goes below zero.
    pub fn disk_info(
        mount_point: String,
        name: Option<String>,
        filesystem: Option<String>,
        total_bytes: Option<u64>,
        used_bytes: Option<u64>,
    ) -> (r: DiskInfo)
        ensures
            r.mount_point@ == mount_point@,
            r.device@ == or_default(opt_view(name), "unknown"@),
            r.filesystem@ == or_default(opt_view(filesystem), "unknown"@),
            r.total_bytes == or_zero(total_bytes),
            r.used_bytes == or_zero(used_bytes),
            r.free_bytes == (if or_zero(total_bytes) >= or_zero(used_bytes) {
                or_zero(total_bytes) - or_zero(used_bytes)
            } else {
                0
            }),
    {
        let total: u64 = match total_bytes {
            Some(v) => v,
            None => 0,
        };
        let used: u64 = match used_bytes {
            Some(v) => v,
            None => 0,
        };
        DiskInfo {
            mount_point,
            device: string_or(name, "unknown"),
            filesystem: string_or(filesystem, "unknown"),
            total_bytes: total,
            used_bytes: used,
            free_bytes: total.saturating_sub(used),
        }
    }

    /// The result of a finished guest command: its exit code (`-1` when none was
    /// reported) and its captured output, decoded; undecodable output reads as empty.
    pub fn exec_result(exit_code: Option<i64>, out_data: Option<&str>, err_data: Option<&str>) -> (r:
        ExecCommandResult)
        ensures
            r.exit_code == (match exit_code {
                Some(c) => c as i32,
                None => -1i32,
            }),
            r.stdout@ == (match out_data {
                Some(d) => match base64_decoded(vstd::utf8::encode_utf8(d@)) {
                    Some(b) => if vstd::utf8::valid_utf8(b) {
                        vstd::utf8::decode_utf8(b)
                    } else {
                        Seq::empty()
                    },
                    None => Seq::empty(),
                },
                None => Seq::empty(),
            }),
            r.stderr@ == (match err_data {
                Some(d) => match base64_decoded(vstd::utf8::encode_utf8(d@)) {
                    Some(b) => if vstd::utf8::valid_utf8(b) {
                        vstd::utf8::decode_utf8(b)
                    } else {
                        Seq::empty()
                    },
                    None => Seq::empty(),
                },
                None => Seq::empty(),
            }),
            r.execution_time_ms == 0,
    {
        let code: i32 = match exit_code {
            Some(c) => {
                #[verifier::truncate]
                let v = c as i32;
                v
            },
            None => -1,
        };
        let stdout = match out_data {
            Some(d) => match decode_base64(d) {
                Some(t) => t,
                None => String::new(),
            },
            None => String::new(),
        };
        let stderr = match err_data {
            Some(d) => match decode_base64(d) {
                Some(t) => t,
                None => String::new(),
            },
            None => String::new(),
        };
        ExecCommandResult { exit_code: code, stdout, stderr, execution_time_ms: 0 }
    }

    /// Per-CPU totals of user, system and idle time, and of all counted time.
    pub fn cpu_totals(cpus: &Vec<CpuStats>) -> (r: (u64, u64, u64, u64))
        requires
            cpu_sum(cpus@, |c: CpuStats| cpu_all(c)) <= u64::MAX,
            forall|k: int| 0 <= k < cpus@.len() ==> cpu_all(#[trigger] cpus@[k]) <= u64::MAX,
        ensures
            r.0 == cpu_sum(cpus@, |c: CpuStats| cpu_user(c)),
            r.1 == cpu_sum(cpus@, |c: CpuStats| cpu_system(c)),
            r.2 == cpu_sum(cpus@, |c: CpuStats| cpu_idle(c)),
            r.3 == cpu_sum(cpus@, |c: CpuStats| cpu_all(c)),
    {
        let n = cpus.len();
        let mut user: u64 = 0;
        let mut system: u64 = 0;
        let mut idle: u64 = 0;
        let mut all: u64 = 0;
        let mut i: usize = 0;
        while i < n
            invariant
                n == cpus@.len(),
                i <= n,
                cpu_sum(cpus@, |c: CpuStats| cpu_all(c)) <= u64::MAX,
                forall|k: int| 0 <= k < cpus@.len() ==> cpu_all(#[trigger] cpus@[k]) <= u64::MAX,
                user == cpu_sum(cpus@.subrange(0, i as int), |c: CpuStats| cpu_user(c)),
                system == cpu_sum(cpus@.subrange(0, i as int), |c: CpuStats| cpu_system(c)),
                idle == cpu_sum(cpus@.subrange(0, i as int), |c: CpuStats| cpu_idle(c)),
                all == cpu_sum(cpus@.subrange(0, i as int), |c: CpuStats| cpu_all(c)),
            decreases n - i,
        {
            let c = &cpus[i];
            proof {
                let pre = cpus@.subrange(0, i + 1);
                assert(pre.drop_last() =~= cpus@.subrange(0, i as int));
                assert(pre.last() == cpus@[i as int]);
                lemma_cpu_sum_prefix_bounded(cpus@, i as int + 1);
                lemma_cpu_parts_bounded(cpus@, i as int + 1);
            }
            user = user + c.user;
            system = system + c.system;
            idle = idle + c.idle;
            let total = c.user + c.system + c.idle + c.iowait + c.nice + c.irq + c.softirq + c.steal;
            all = all + total;
            i = i + 1;
        }
        proof {
            assert(cpus@.subrange(0, n as int) =~= cpus@);
        }
        (user, system, idle, all)
    }

    /// The disks of the agent's disk-statistics reply, without loop and device-mapper
    /// devices, with sector counts turned into bytes.
    pub fn disk_stats(disks: Vec<DiskStatsFields>) -> (r: GuestDiskStats)
        requires
            forall|k: int| 0 <= k < disks@.len() ==> or_zero((#[trigger] disks@[k]).read_sectors) * 512 <= u64::MAX
                && or_zero(disks@[k].write_sectors) * 512 <= u64::MAX,
        ensures
            r.disks@.map_values(|d: DiskStats| disk_stats_view(d)) == reported_disks(disks@),
    {
        let mut out: Vec<DiskStats> = Vec::new();
        let n = disks.len();
        let mut i: usize = 0;
        while i < n
            invariant
                n == disks@.len(),
                i <= n,
                forall|k: int| 0 <= k < disks@.len() ==> or_zero((#[trigger] disks@[k]).read_sectors) * 512 <= u64::MAX
                    && or_zero(disks@[k].write_sectors) * 512 <= u64::MAX,
                out@.map_values(|d: DiskStats| disk_stats_view(d)) == reported_disks(disks@.subrange(0, i as int)),
            decreases n - i,
        {
            proof {
                assert(disks@.subrange(0, i + 1).drop_last() =~= disks@.subrange(0, i as int));
                assert(disks@.subrange(0, i + 1).last() == disks@[i as int]);
            }
            let d = &disks[i];
            let name = match &d.name {
                Some(s) => s.clone(),
                None => String::new(),
            };
            if !starts_with_str(chars_of_str(name.as_str()).as_slice(), "loop") && !starts_with_str(
                chars_of_str(name.as_str()).as_slice(),
                "dm-",
            ) {
                let rs: u64 = match d.read_sectors {
                    Some(v) => v,
                    None => 0,
                };
                let ws: u64 = match d.write_sectors {
                    Some(v) => v,
                    None => 0,
                };
                let ri: u64 = match d.read_ios {
                    Some(v) => v,
                    None => 0,
                };
                let wi: u64 = match d.write_ios {
                    Some(v) => v,
                    None => 0,
                };
                let ghost before = out@;
                out.push(DiskStats { name, read_bytes: rs * 512, write_bytes: ws * 512, read_ios: ri, write_ios: wi });
                proof {
                    assert(out@.map_values(|x: DiskStats| disk_stats_view(x)) =~= before.map_values(
                        |x: DiskStats| disk_stats_view(x),
                    ).push(disk_stats_value(disks@[i as int])));
                }
            }
            i = i + 1;
        }
        proof {
            assert(disks@.subrange(0, n as int) =~= disks@);
        }
        GuestDiskStats { disks: out }
    }

    /// A logged-in user; an unnamed one reads as `unknown`.
    pub fn guest_user(user: Option<String>, login_time: u64) -> (r: GuestUser)
        ensures
            r.username@ == or_default(opt_view(user), "unknown"@),
            r.login_time == login_time,
    {
        GuestUser { username: string_or(user, "unknown"), login_time }
    }

    /// The guest's time zone; a missing zone reads as UTC and a missing offset as zero.
    pub fn timezone(zone: Option<String>, offset: Option<i64>) -> (r: GuestTimezone)
        ensures
            r.zone@ == or_default(opt_view(zone), "UTC"@),
            r.offset == (match offset {
                Some(o) => o as i32,
                None => 0i32,
            }),
    {
        let off: i32 = match offset {
            Some(o) => {
                #[verifier::truncate]
                let v = o as i32;
                v
            },
            None => 0,
        };
        GuestTimezone { zone: string_or(zone, "UTC"), offset: off }
    }

    /// Everything the agent reports, combined.
    pub fn full_info(
        agent: AgentInfo,
        system: SystemInfo,
        timezone: Option<GuestTimezone>,
        users: Vec<GuestUser>,
        disks: DiskUsageInfo,
        network: NetworkInfo,
    ) -> (r: GuestFullInfo)
        ensures
            r.agent_version@ == agent.version@,
            r.os_name@ == system.os_name@,
            r.os_version@ == system.os_version@,
            r.kernel_version@ == system.kernel_version@,
            r.hostname@ == system.hostname@,
            r.architecture@ == system.architecture@,
            r.timezone == timezone,
            r.users@ == users@,
            r.cpu_count == system.cpu_count,
            r.filesystems@ == disks.disks@,
            r.network_interfaces@ == network.interfaces@,
    {
        GuestFullInfo {
            agent_version: agent.version,
            os_name: system.os_name,
            os_version: system.os_version,
            kernel_version: system.kernel_version,
            hostname: system.hostname,
            architecture: system.architecture,
            timezone,
            users,
            cpu_count: system.cpu_count,
            filesystems: disks.disks,
            network_interfaces: network.interfaces,
        }
    }
}

proof fn lemma_cpu_sum_monotone(cpus: Seq<CpuStats>, k: int, f: spec_fn(CpuStats) -> int)
    requires
        0 <= k <= cpus.len(),
        forall|c: CpuStats| #[trigger] f(c) >= 0,
    ensures
        cpu_sum(cpus.subrange(0, k), f) <= cpu_sum(cpus, f),
        cpu_sum(cpus.subrange(0, k), f) >= 0,
    decreases cpus.len() - k,
{
    if k < cpus.len() {
        lemma_cpu_sum_monotone(cpus, k + 1, f);
        let pre = cpus.subrange(0, k + 1);
        assert(pre.drop_last() =~= cpus.subrange(0, k));
    } else {
        assert(cpus.subrange(0, k) =~= cpus);
    }
    lemma_cpu_sum_nonneg(cpus.subrange(0, k), f);
}

proof fn lemma_cpu_sum_nonneg(cpus: Seq<CpuStats>, f: spec_fn(CpuStats) -> int)
    requires
        forall|c: CpuStats| #[trigger] f(c) >= 0,
    ensures
        cpu_sum(cpus, f) >= 0,
    decreases cpus.len(),
{
    if cpus.len() > 0 {
        lemma_cpu_sum_nonneg(cpus.drop_last(), f);
    }
}

/// Partial sums of counted time stay within the total.
proof fn lemma_cpu_sum_prefix_bounded(cpus: Seq<CpuStats>, k: int)
    requires
        0 <= k <= cpus.len(),
    ensures
        cpu_sum(cpus.subrange(0, k), |c: CpuStats| cpu_all(c)) <= cpu_sum(cpus, |c: CpuStats| cpu_all(c)),
{
    lemma_cpu_sum_monotone(cpus, k, |c: CpuStats| cpu_all(c));
}

/// Each of user, system and idle time sums to no more than the counted time.
proof fn lemma_cpu_parts_bounded(cpus: Seq<CpuStats>, k: int)
    requires
        0 <= k <= cpus.len(),
    ensures
        cpu_sum(cpus.subrange(0, k), |c: CpuStats| cpu_user(c)) <= cpu_sum(cpus.subrange(0, k), |c: CpuStats| cpu_all(c)),
        cpu_sum(cpus.subrange(0, k), |c: CpuStats| cpu_system(c)) <= cpu_sum(cpus.subrange(0, k), |c: CpuStats| cpu_all(c)),
        cpu_sum(cpus.subrange(0, k), |c: CpuStats| cpu_idle(c)) <= cpu_sum(cpus.subrange(0, k), |c: CpuStats| cpu_all(c)),
{
    lemma_cpu_parts_le(cpus.subrange(0, k));
}

proof fn lemma_cpu_parts_le(cpus: Seq<CpuStats>)
    ensures
        cpu_sum(cpus, |c: CpuStats| cpu_user(c)) <= cpu_sum(cpus, |c: CpuStats| cpu_all(c)),
        cpu_sum(cpus, |c: CpuStats| cpu_system(c)) <= cpu_sum(cpus, |c: CpuStats| cpu_all(c)),
        cpu_sum(cpus, |c: CpuStats| cpu_idle(c)) <= cpu_sum(cpus, |c: CpuStats| cpu_all(c)),
    decreases cpus.len(),
{
    if cpus.len() > 0 {
        lemma_cpu_parts_le(cpus.drop_last());
    }
}

} // verus!
