//! A VM as the library reports it: its state, hardware settings, CPU topology and disk
//! size, read from libvirt's answers and the domain definition.
use crate::distribution::strings_view;
use crate::error::AppError;
use crate::operation::opt_view;
use crate::tags::tags_of;
use crate::text::{
    chars_of, contains, contains_str, copy_range, find, lines, lines_view, parse_unsigned, parse_unsigned_range,
    split_lines, split_whitespace, starts_with, starts_with_str, str_eq, string_of_all, trim, trim_bounds, words_from,
};
use crate::vm::{CloudInitConfig, VmService};
use crate::vm_disks::{disks_of, disks_view, DiskDevice};
use crate::vm_inspect::quoted_after;
use crate::vm_interfaces::{interfaces_of, interfaces_view, pairs_view, NetworkInterface};
use vstd::prelude::*;

verus! {

/// The run state of a VM.
#[derive(Clone, Copy, Debug, PartialEq, Eq, Structural)]
pub enum VmState {
    Running,
    Stopped,
    Paused,
    Suspended,
}

/// libvirt's `VIR_DOMAIN_RUNNING`, `VIR_DOMAIN_PAUSED` and `VIR_DOMAIN_PMSUSPENDED`.
pub const DOMAIN_RUNNING: u32 = 1;

pub const DOMAIN_PAUSED: u32 = 3;

pub const DOMAIN_PMSUSPENDED: u32 = 7;

/// A VM.
#[derive(Debug)]
pub struct VM {
    pub id: String,
    pub name: String,
    pub state: VmState,
    pub cpu_count: u32,
    pub memory_mb: u64,
    pub max_memory_mb: u64,
    pub disk_size_gb: u64,
    pub network_interfaces: Vec<NetworkInterface>,
    pub disks: Vec<DiskDevice>,
    pub tags: Vec<String>,
    pub firmware: String,
    pub tpm_enabled: bool,
    pub chipset: String,
    pub cpu_sockets: u32,
    pub cpu_cores: u32,
    pub cpu_threads: u32,
    pub cloud_init: Option<CloudInitConfig>,
}

/// The state shown for a libvirt domain state: running, paused and suspended as such;
/// every other state (shut down, shut off, crashed, blocked, unknown) as stopped.
pub open spec fn state_of(code: u32) -> VmState {
    if code == DOMAIN_RUNNING {
        VmState::Running
    } else if code == DOMAIN_PAUSED {
        VmState::Paused
    } else if code == DOMAIN_PMSUSPENDED {
        VmState::Suspended
    } else {
        VmState::Stopped
    }
}

/// The machine type on a line: in single quotes when `machine='` occurs, else in double
/// quotes.
pub open spec fn machine_on(t: Seq<char>) -> Option<Seq<char>> {
    match find(t, "machine='"@) {
        Some(_) => quoted_after(t, "machine='"@, "'"@, 0),
        None => quoted_after(t, "machine=\""@, "\""@, 0),
    }
}

/// Firmware, TPM and chipset after one trimmed line.
pub open spec fn hardware_line(h: (Seq<char>, bool, Seq<char>), t: Seq<char>) -> (Seq<char>, bool, Seq<char>) {
    let firmware = if contains(t, "<loader"@) {
        if contains(t, "secure='yes'"@) || contains(t, "secboot"@) {
            "uefi-secure"@
        } else {
            "uefi"@
        }
    } else {
        h.0
    };
    let tpm = h.1 || contains(t, "<tpm "@) || contains(t, "<tpm>"@);
    let chipset = if contains(t, "<type arch="@) && contains(t, "machine="@) {
        match machine_on(t) {
            Some(m) => if contains(m, "q35"@) {
                "q35"@
            } else {
                "pc"@
            },
            None => h.2,
        }
    } else {
        h.2
    };
    (firmware, tpm, chipset)
}

pub open spec fn hardware_scan(ls: Seq<Seq<char>>) -> (Seq<char>, bool, Seq<char>)
    decreases ls.len(),
{
    if ls.len() == 0 {
        ("bios"@, false, "pc"@)
    } else {
        hardware_line(hardware_scan(ls.drop_last()), trim(ls.last()))
    }
}

/// `str::parse::<u32>`.
pub open spec fn parse_u32(s: Seq<char>) -> Option<u32> {
    match parse_unsigned(s, 4294967295) {
        Some(v) => Some(v as u32),
        None => None,
    }
}

/// A topology count on a line: the single-quoted value when `name='` occurs, else the
/// double-quoted one; kept as it was when missing or no `u32`.
pub open spec fn topology_value(t: Seq<char>, name: Seq<char>, old: u32) -> u32 {
    let v = match find(t, name + "='"@) {
        Some(_) => quoted_after(t, name + "='"@, "'"@, 0),
        None => quoted_after(t, name + "=\""@, "\""@, 0),
    };
    match v {
        Some(x) => match parse_u32(x) {
            Some(n) => n,
            None => old,
        },
        None => old,
    }
}

/// Sockets, cores and threads from the first line with a `<topology` element, each 1
/// when not given.
pub open spec fn topology_of(ls: Seq<Seq<char>>) -> (u32, u32, u32)
    decreases ls.len(),
{
    if ls.len() == 0 {
        (1, 1, 1)
    } else {
        let t = trim(ls[0]);
        if contains(t, "<topology"@) {
            (topology_value(t, "sockets"@, 1), topology_value(t, "cores"@, 1), topology_value(t, "threads"@, 1))
        } else {
            topology_of(ls.drop_first())
        }
    }
}

/// The targets of the file and block devices of `virsh domblklist --details`: the third
/// field of every line after the two header lines that has at least three fields.
pub open spec fn blklist_targets(ls: Seq<Seq<char>>) -> Seq<Seq<char>>
    decreases ls.len(),
{
    if ls.len() <= 2 {
        Seq::empty()
    } else {
        let rest = blklist_targets(ls.drop_last());
        let w = words_from(ls.last(), 0);
        if w.len() >= 3 && (w[0] == "file"@ || w[0] == "block"@) {
            rest.push(w[2])
        } else {
            rest
        }
    }
}

/// The capacity of `virsh domblkinfo`: the second field of the first line that starts
/// with `Capacity:`, when it is a `u64`.
pub open spec fn blkinfo_capacity(ls: Seq<Seq<char>>) -> Option<u64>
    decreases ls.len(),
{
    if ls.len() == 0 {
        None
    } else if starts_with(ls[0], "Capacity:"@) {
        let w = words_from(ls[0], 0);
        if w.len() >= 2 {
            match parse_unsigned(w[1], 18446744073709551615) {
                Some(v) => Some(v as u64),
                None => None,
            }
        } else {
            None
        }
    } else {
        blkinfo_capacity(ls.drop_first())
    }
}

pub open spec fn sum_of(v: Seq<u64>) -> int
    decreases v.len(),
{
    if v.len() == 0 {
        0
    } else {
        sum_of(v.drop_last()) + v.last()
    }
}

fn machine_exec(t: &[char]) -> (r: Option<String>)
    ensures
        opt_view(r) == machine_on(t@),
{
    match crate::text::find_str(t, "machine='") {
        Some(_) => quoted_opt(t, "machine='", "'"),
        None => quoted_opt(t, "machine=\"", "\""),
    }
}

fn quoted_opt(t: &[char], pattern: &str, quote: &str) -> (r: Option<String>)
    ensures
        opt_view(r) == quoted_after(t@, pattern@, quote@, 0),
{
    crate::vm_inspect::quoted_after_exec(t, pattern, quote, 0)
}

fn topology_value_exec(t: &[char], name: &str, old: u32) -> (r: u32)
    ensures
        r == topology_value(t@, name@, old),
{
    let mut single = String::from_str(name);
    single.append("='");
    let mut double = String::from_str(name);
    double.append("=\"");
    let v = match crate::text::find_str(t, single.as_str()) {
        Some(_) => quoted_opt(t, single.as_str(), "'"),
        None => quoted_opt(t, double.as_str(), "\""),
    };
    match v {
        Some(x) => {
            let xv = chars_of(x.as_str());
            proof {
                assert(xv@.subrange(0, xv@.len() as int) =~= xv@);
            }
            match parse_unsigned_range(xv.as_slice(), 0, xv.len(), 4294967295) {
                Some(n) => n as u32,
                None => old,
            }
        },
        None => old,
    }
}

impl VmService {
    /// The state shown for a libvirt domain state code.
    pub fn get_domain_state(code: u32) -> (r: VmState)
        ensures
            r == state_of(code),
    {
        if code == DOMAIN_RUNNING {
            VmState::Running
        } else if code == DOMAIN_PAUSED {
            VmState::Paused
        } else if code == DOMAIN_PMSUSPENDED {
            VmState::Suspended
        } else {
            VmState::Stopped
        }
    }

    /// Firmware (`bios`, `uefi` or `uefi-secure`), whether a TPM is present, and the
    /// chipset (`pc` or `q35`) of a domain definition.
    pub fn get_vm_hardware_config(xml: &str) -> (r: (String, bool, String))
        ensures
            (r.0@, r.1, r.2@) == hardware_scan(lines(xml@)),
    {
        let ls = split_lines(xml);
        let ghost lv = lines_view(ls@);
        let n = ls.len();
        let mut firmware = String::from_str("bios");
        let mut tpm = false;
        let mut chipset = String::from_str("pc");
        let mut i: usize = 0;
        proof {
            assert(lv.subrange(0, 0) =~= Seq::<Seq<char>>::empty());
        }
        while i < n
            invariant
                n == ls@.len(),
                lv == lines_view(ls@),
                lv == lines(xml@),
                i <= n,
                (firmware@, tpm, chipset@) == hardware_scan(lv.subrange(0, i as int)),
            decreases n - i,
        {
            let ghost sub = lv.subrange(0, i + 1);
            proof {
                assert(sub.drop_last() =~= lv.subrange(0, i as int));
                assert(sub.last() == ls@[i as int]@);
                assert(ls@[i as int]@.subrange(0, ls@[i as int]@.len() as int) =~= ls@[i as int]@);
            }
            let (a, b) = trim_bounds(ls[i].as_slice(), 0, ls[i].len());
            let t = copy_range(ls[i].as_slice(), a, b);
            let ts = t.as_slice();
            if contains_str(ts, "<loader") {
                if contains_str(ts, "secure='yes'") || contains_str(ts, "secboot") {
                    firmware = String::from_str("uefi-secure");
                } else {
                    firmware = String::from_str("uefi");
                }
            }
            if contains_str(ts, "<tpm ") || contains_str(ts, "<tpm>") {
                tpm = true;
            }
            if contains_str(ts, "<type arch=") && contains_str(ts, "machine=") {
                if let Some(m) = machine_exec(ts) {
                    let mv = chars_of(m.as_str());
                    if contains_str(mv.as_slice(), "q35") {
                        chipset = String::from_str("q35");
                    } else {
                        chipset = String::from_str("pc");
                    }
                }
            }
            i = i + 1;
        }
        proof {
            assert(lv.subrange(0, n as int) =~= lv);
        }
        (firmware, tpm, chipset)
    }

    /// Sockets, cores and threads of a domain definition's CPU topology.
    pub fn get_cpu_topology(xml: &str) -> (r: (u32, u32, u32))
        ensures
            r == topology_of(lines(xml@)),
    {
        let ls = split_lines(xml);
        let ghost lv = lines_view(ls@);
        let n = ls.len();
        let mut i: usize = 0;
        proof {
            assert(lv.subrange(0, n as int) =~= lv);
        }
        while i < n
            invariant
                n == ls@.len(),
                lv == lines_view(ls@),
                lv == lines(xml@),
                i <= n,
                topology_of(lv) == topology_of(lv.subrange(i as int, n as int)),
            decreases n - i,
        {
            let ghost rest = lv.subrange(i as int, n as int);
            proof {
                assert(rest[0] == ls@[i as int]@);
                assert(rest.drop_first() =~= lv.subrange(i + 1, n as int));
                assert(ls@[i as int]@.subrange(0, ls@[i as int]@.len() as int) =~= ls@[i as int]@);
            }
            let (a, b) = trim_bounds(ls[i].as_slice(), 0, ls[i].len());
            let t = copy_range(ls[i].as_slice(), a, b);
            if contains_str(t.as_slice(), "<topology") {
                let sockets = topology_value_exec(t.as_slice(), "sockets", 1);
                let cores = topology_value_exec(t.as_slice(), "cores", 1);
                let threads = topology_value_exec(t.as_slice(), "threads", 1);
                return (sockets, cores, threads);
            }
            i = i + 1;
        }
        proof {
            assert(lv.subrange(n as int, n as int) =~= Seq::<Seq<char>>::empty());
        }
        (1, 1, 1)
    }

    /// The targets of the file and block devices listed by `virsh domblklist --details`.
    pub fn disk_targets(domblklist: &str) -> (r: Vec<String>)
        ensures
            strings_view(r@) == blklist_targets(lines(domblklist@)),
    {
        let ls = split_lines(domblklist);
        let ghost lv = lines_view(ls@);
        let n = ls.len();
        let mut out: Vec<String> = Vec::new();
        let mut i: usize = if n < 2 {
            n
        } else {
            2
        };
        proof {
            assert(blklist_targets(lv.subrange(0, i as int)) =~= Seq::<Seq<char>>::empty());
            assert(strings_view(out@) =~= Seq::<Seq<char>>::empty());
        }
        while i < n
            invariant
                n == ls@.len(),
                lv == lines_view(ls@),
                lv == lines(domblklist@),
                i <= n,
                i >= 2 || i == n,
                strings_view(out@) == blklist_targets(lv.subrange(0, i as int)),
            decreases n - i,
        {
            let ghost sub = lv.subrange(0, i + 1);
            proof {
                assert(sub.drop_last() =~= lv.subrange(0, i as int));
                assert(sub.last() == ls@[i as int]@);
            }
            let words = split_whitespace(ls[i].as_slice());
            let ghost before = strings_view(out@);
            proof {
                assert(words_from(ls@[i as int]@, 0).len() == words@.len());
            }
            if words.len() >= 3 {
                let kind = string_of_all(words[0].as_slice());
                proof {
                    assert(words@[0]@ == words_from(ls@[i as int]@, 0)[0]);
                    assert(words@[2]@ == words_from(ls@[i as int]@, 0)[2]);
                }
                if str_eq(kind.as_str(), "file") || str_eq(kind.as_str(), "block") {
                    out.push(string_of_all(words[2].as_slice()));
                    proof {
                        assert(strings_view(out@) =~= before.push(words@[2]@));
                    }
                }
            }
            i = i + 1;
        }
        proof {
            assert(lv.subrange(0, n as int) =~= lv);
        }
        out
    }

    /// The capacity `virsh domblkinfo` reports, in bytes.
    pub fn disk_capacity(domblkinfo: &str) -> (r: Option<u64>)
        ensures
            r == blkinfo_capacity(lines(domblkinfo@)),
    {
        let ls = split_lines(domblkinfo);
        let ghost lv = lines_view(ls@);
        let n = ls.len();
        let mut i: usize = 0;
        proof {
            assert(lv.subrange(0, n as int) =~= lv);
        }
        while i < n
            invariant
                n == ls@.len(),
                lv == lines_view(ls@),
                lv == lines(domblkinfo@),
                i <= n,
                blkinfo_capacity(lv) == blkinfo_capacity(lv.subrange(i as int, n as int)),
            decreases n - i,
        {
            let ghost rest = lv.subrange(i as int, n as int);
            proof {
                assert(rest[0] == ls@[i as int]@);
                assert(rest.drop_first() =~= lv.subrange(i + 1, n as int));
            }
            if starts_with_str(ls[i].as_slice(), "Capacity:") {
                let words = split_whitespace(ls[i].as_slice());
                if words.len() >= 2 {
                    proof {
                        assert(words@[1]@ == words_from(ls@[i as int]@, 0)[1]);
                        assert(words@[1]@.subrange(0, words@[1]@.len() as int) =~= words@[1]@);
                    }
                    return parse_unsigned_range(words[1].as_slice(), 0, words[1].len(), u64::MAX);
                }
                proof {
                    assert(words_from(ls@[i as int]@, 0).len() == words@.len());
                }
                return None;
            }
            i = i + 1;
        }
        proof {
            assert(lv.subrange(n as int, n as int) =~= Seq::<Seq<char>>::empty());
        }
        None
    }

    /// The disk size in whole GiB of disks of the given capacities.
    pub fn disk_size_gb(capacities: &Vec<u64>) -> (r: u64)
        requires
            sum_of(capacities@) <= u64::MAX,
        ensures
            r == sum_of(capacities@) / 1073741824,
    {
        let n = capacities.len();
        let mut total: u64 = 0;
        let mut i: usize = 0;
        while i < n
            invariant
                n == capacities@.len(),
                i <= n,
                sum_of(capacities@) <= u64::MAX,
                total == sum_of(capacities@.subrange(0, i as int)),
            decreases n - i,
        {
            proof {
                let sub = capacities@.subrange(0, i + 1);
                assert(sub.drop_last() =~= capacities@.subrange(0, i as int));
                lemma_sum_prefix_le(capacities@, i + 1);
            }
            total = total + capacities[i];
            i = i + 1;
        }
        proof {
            assert(capacities@.subrange(0, n as int) =~= capacities@);
        }
        total / 1073741824
    }

    /// A VM can be started unless it is running.
    pub fn start_precheck(state_code: u32) -> (r: Result<(), AppError>)
        ensures
            match r {
                Ok(()) => state_code != DOMAIN_RUNNING,
                Err(e) => state_code == DOMAIN_RUNNING && (e matches AppError::InvalidVmState(m) && m@ == "running"@),
            },
    {
        if state_code == DOMAIN_RUNNING {
            return Err(AppError::InvalidVmState(String::from_str("running")));
        }
        Ok(())
    }

    /// Only a running VM can be stopped.
    pub fn stop_precheck(state_code: u32) -> (r: Result<(), AppError>)
        ensures
            match r {
                Ok(()) => state_code == DOMAIN_RUNNING,
                Err(e) => state_code != DOMAIN_RUNNING && (e matches AppError::InvalidVmState(m) && m@
                    == "not running"@),
            },
    {
        if state_code != DOMAIN_RUNNING {
            return Err(AppError::InvalidVmState(String::from_str("not running")));
        }
        Ok(())
    }

    /// Only an active VM can be hibernated.
    pub fn hibernate_precheck(is_active: bool) -> (r: Result<(), AppError>)
        ensures
            match r {
                Ok(()) => is_active,
                Err(e) => !is_active && (e matches AppError::InvalidVmState(m) && m@
                    == "stopped - must be running to hibernate"@),
            },
    {
        if !is_active {
            return Err(AppError::InvalidVmState(String::from_str("stopped - must be running to hibernate")));
        }
        Ok(())
    }

    /// A hibernated state can only be discarded when there is one.
    pub fn managed_save_removal_precheck(has_save: bool) -> (r: Result<(), AppError>)
        ensures
            match r {
                Ok(()) => has_save,
                Err(e) => !has_save && (e matches AppError::InvalidVmState(m) && m@ == "no hibernated state to remove"@),
            },
    {
        if !has_save {
            return Err(AppError::InvalidVmState(String::from_str("no hibernated state to remove")));
        }
        Ok(())
    }

    /// A running VM cannot be deleted.
    pub fn delete_precheck(state_code: u32) -> (r: Result<(), AppError>)
        ensures
            match r {
                Ok(()) => state_code != DOMAIN_RUNNING,
                Err(e) => state_code == DOMAIN_RUNNING && (e matches AppError::InvalidVmState(m) && m@
                    == "Cannot delete a running VM. Stop it first."@),
            },
    {
        if state_code == DOMAIN_RUNNING {
            return Err(AppError::InvalidVmState(String::from_str("Cannot delete a running VM. Stop it first.")));
        }
        Ok(())
    }

    /// A VM from libvirt's answers: identity, state code, vCPU count, memory in KiB, disk
    /// size, the domain definition when it could be read (network interfaces, disks, tags,
    /// hardware and topology come from it; without it they are empty or defaults) and the
    /// addresses of `parse_interface_ips`.
    pub fn domain_to_vm(
        id: String,
        name: String,
        state_code: u32,
        cpu_count: u32,
        max_mem_kib: u64,
        memory_kib: u64,
        disk_size_gb: u64,
        xml: Option<String>,
        ips: &[(String, String)],
    ) -> (r: VM)
        ensures
            r.id@ == id@,
            r.name@ == name@,
            r.state == state_of(state_code),
            r.cpu_count == cpu_count,
            r.memory_mb == memory_kib / 1024,
            r.max_memory_mb == max_mem_kib / 1024,
            r.disk_size_gb == disk_size_gb,
            r.cloud_init is None,
            match xml {
                Some(x) => {
                    &&& interfaces_view(r.network_interfaces@) == interfaces_of(x@, pairs_view(ips@))
                    &&& disks_view(r.disks@) == disks_of(x@)
                    &&& strings_view(r.tags@) == tags_of(x@)
                    &&& (r.firmware@, r.tpm_enabled, r.chipset@) == hardware_scan(lines(x@))
                    &&& (r.cpu_sockets, r.cpu_cores, r.cpu_threads) == topology_of(lines(x@))
                },
                None => {
                    &&& r.network_interfaces@.len() == 0
                    &&& r.disks@.len() == 0
                    &&& r.tags@.len() == 0
                    &&& r.firmware@ == "bios"@ && !r.tpm_enabled && r.chipset@ == "pc"@
                    &&& (r.cpu_sockets, r.cpu_cores, r.cpu_threads) == (1u32, cpu_count, 1u32)
                },
            },
    {
        let state = Self::get_domain_state(state_code);
        match xml {
            Some(x) => {
                let network_interfaces = Self::get_vm_network_interfaces(x.as_str(), ips);
                let disks = Self::get_vm_disks(x.as_str());
                let tags = Self::get_vm_tags(x.as_str());
                let (firmware, tpm_enabled, chipset) = Self::get_vm_hardware_config(x.as_str());
                let (cpu_sockets, cpu_cores, cpu_threads) = Self::get_cpu_topology(x.as_str());
                VM {
                    id,
                    name,
                    state,
                    cpu_count,
                    memory_mb: memory_kib / 1024,
                    max_memory_mb: max_mem_kib / 1024,
                    disk_size_gb,
                    network_interfaces,
                    disks,
                    tags,
                    firmware,
                    tpm_enabled,
                    chipset,
                    cpu_sockets,
                    cpu_cores,
                    cpu_threads,
                    cloud_init: None,
                }
            },
            None => VM {
                id,
                name,
                state,
                cpu_count,
                memory_mb: memory_kib / 1024,
                max_memory_mb: max_mem_kib / 1024,
                disk_size_gb,
                network_interfaces: Vec::new(),
                disks: Vec::new(),
                tags: Vec::new(),
                firmware: String::from_str("bios"),
                tpm_enabled: false,
                chipset: String::from_str("pc"),
                cpu_sockets: 1,
                cpu_cores: cpu_count,
                cpu_threads: 1,
                cloud_init: None,
            },
        }
    }
}

proof fn lemma_sum_prefix_le(v: Seq<u64>, k: int)
    requires
        0 <= k <= v.len(),
    ensures
        sum_of(v.subrange(0, k)) <= sum_of(v),
    decreases v.len() - k,
{
    if k < v.len() {
        lemma_sum_prefix_le(v, k + 1);
        let sub = v.subrange(0, k + 1);
        assert(sub.drop_last() =~= v.subrange(0, k));
    } else {
        assert(v.subrange(0, k) =~= v);
    }
}

} // verus!
