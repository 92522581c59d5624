//! Changing the cache, I/O, discard and throttling settings of a VM disk: what is
//! accepted, and how the change reaches the VM (throttling on a running VM, a
//! redefinition of the disk on a stopped one).
use crate::distribution::strings_view;
use crate::error::AppError;
use crate::text::{dec, fmt_u64, str_eq};
use crate::vm::{one_of, VmService};
use vstd::prelude::*;

verus! {

/// The settings a caller asks to change; `None` leaves one as it is.
#[derive(Debug)]
pub struct DiskSettingsUpdate {
    pub cache: Option<String>,
    pub io: Option<String>,
    pub discard: Option<String>,
    pub detect_zeroes: Option<String>,
    pub read_iops_sec: Option<u64>,
    pub write_iops_sec: Option<u64>,
    pub read_bytes_sec: Option<u64>,
    pub write_bytes_sec: Option<u64>,
}

/// How an accepted change is applied.
#[derive(Debug)]
pub enum DiskUpdatePlan {
    /// Run `virsh` with these arguments to change the throttling of the running VM.
    Throttle(Vec<String>),
    /// Replace the disk in the persistent definition of the stopped VM.
    Redefine,
    /// Nothing to change.
    Nothing,
}

pub open spec fn cache_mode_ok(c: Seq<char>) -> bool {
    c == "none"@ || c == "writeback"@ || c == "writethrough"@ || c == "directsync"@ || c == "unsafe"@
}

pub open spec fn io_mode_ok(i: Seq<char>) -> bool {
    i == "native"@ || i == "threads"@ || i == "io_uring"@
}

pub open spec fn discard_mode_ok(d: Seq<char>) -> bool {
    d == "unmap"@ || d == "ignore"@
}

pub open spec fn opt_ok(o: Option<String>, ok: spec_fn(Seq<char>) -> bool) -> bool {
    match o {
        Some(v) => ok(v@),
        None => true,
    }
}

/// The cache, I/O and discard modes are each absent or one libvirt knows.
pub open spec fn disk_settings_ok(u: DiskSettingsUpdate) -> bool {
    opt_ok(u.cache, |c: Seq<char>| cache_mode_ok(c)) && opt_ok(u.io, |i: Seq<char>| io_mode_ok(i)) && opt_ok(
        u.discard,
        |d: Seq<char>| discard_mode_ok(d),
    )
}

/// A change that needs the VM stopped: cache, I/O, discard or zero detection.
pub open spec fn needs_stop(u: DiskSettingsUpdate) -> bool {
    u.cache is Some || u.io is Some || u.discard is Some || u.detect_zeroes is Some
}

pub open spec fn throttles(u: DiskSettingsUpdate) -> bool {
    u.read_iops_sec is Some || u.write_iops_sec is Some || u.read_bytes_sec is Some || u.write_bytes_sec is Some
}

pub open spec fn flag_args(flag: Seq<char>, v: Option<u64>) -> Seq<Seq<char>> {
    match v {
        Some(x) => seq![flag, dec(x as nat)],
        None => Seq::empty(),
    }
}

/// `virsh blkdeviotune` for the disk with each limit given, live and persistent.
pub open spec fn blkdeviotune_args_of(vm_name: Seq<char>, target: Seq<char>, u: DiskSettingsUpdate) -> Seq<
    Seq<char>,
> {
    seq!["blkdeviotune"@, vm_name, target] + flag_args("--read-iops-sec"@, u.read_iops_sec) + flag_args(
        "--write-iops-sec"@,
        u.write_iops_sec,
    ) + flag_args("--read-bytes-sec"@, u.read_bytes_sec) + flag_args("--write-bytes-sec"@, u.write_bytes_sec)
        + seq!["--live"@, "--config"@]
}

fn push_flag(args: &mut Vec<String>, flag: &str, v: Option<u64>)
    ensures
        strings_view(final(args)@) == strings_view(old(args)@) + flag_args(flag@, v),
{
    match v {
        Some(x) => {
            let ghost before = strings_view(args@);
            args.push(String::from_str(flag));
            args.push(fmt_u64(x));
            proof {
                assert(strings_view(args@) =~= before + flag_args(flag@, v));
            }
        },
        None => {
            proof {
                assert(strings_view(args@) =~= strings_view(args@) + flag_args(flag@, v));
            }
        },
    }
}

fn mode_in(v: &Option<String>, allowed: &[&str]) -> (r: bool)
    ensures
        r == match v {
            Some(s) => exists|i: int| 0 <= i < allowed@.len() && allowed@[i]@ == s@,
            None => true,
        },
{
    match v {
        Some(s) => one_of(s.as_str(), allowed),
        None => true,
    }
}

impl VmService {
    /// Checks the requested cache, I/O and discard modes.
    pub fn validate_disk_settings(update: &DiskSettingsUpdate) -> (r: Result<(), AppError>)
        ensures
            r is Ok <==> disk_settings_ok(*update),
            r matches Err(e) ==> e is InvalidConfig,
    {
        let caches = ["none", "writeback", "writethrough", "directsync", "unsafe"];
        if !mode_in(&update.cache, caches.as_slice()) {
            let mut m = String::from_str("Invalid cache mode '");
            if let Some(c) = &update.cache {
                m.append(c.as_str());
            }
            m.append("'. Must be one of: [\"none\", \"writeback\", \"writethrough\", \"directsync\", \"unsafe\"]");
            return Err(AppError::InvalidConfig(m));
        }
        let ios = ["native", "threads", "io_uring"];
        if !mode_in(&update.io, ios.as_slice()) {
            let mut m = String::from_str("Invalid I/O mode '");
            if let Some(i) = &update.io {
                m.append(i.as_str());
            }
            m.append("'. Must be one of: [\"native\", \"threads\", \"io_uring\"]");
            return Err(AppError::InvalidConfig(m));
        }
        let discards = ["unmap", "ignore"];
        if !mode_in(&update.discard, discards.as_slice()) {
            let mut m = String::from_str("Invalid discard mode '");
            if let Some(d) = &update.discard {
                m.append(d.as_str());
            }
            m.append("'. Must be one of: [\"unmap\", \"ignore\"]");
            return Err(AppError::InvalidConfig(m));
        }
        proof {
            assert(caches@.len() == 5 && ios@.len() == 3 && discards@.len() == 2);
        }
        Ok(())
    }

    /// The `virsh blkdeviotune` arguments that set the given limits on a disk.
    pub fn blkdeviotune_args(vm_name: &str, device_target: &str, update: &DiskSettingsUpdate) -> (r: Vec<String>)
        ensures
            strings_view(r@) == blkdeviotune_args_of(vm_name@, device_target@, *update),
    {
        let mut args: Vec<String> = Vec::new();
        args.push(String::from_str("blkdeviotune"));
        args.push(String::from_str(vm_name));
        args.push(String::from_str(device_target));
        proof {
            assert(strings_view(args@) =~= seq!["blkdeviotune"@, vm_name@, device_target@]);
        }
        push_flag(&mut args, "--read-iops-sec", update.read_iops_sec);
        push_flag(&mut args, "--write-iops-sec", update.write_iops_sec);
        push_flag(&mut args, "--read-bytes-sec", update.read_bytes_sec);
        push_flag(&mut args, "--write-bytes-sec", update.write_bytes_sec);
        let ghost before = strings_view(args@);
        args.push(String::from_str("--live"));
        args.push(String::from_str("--config"));
        proof {
            assert(strings_view(args@) =~= before + seq!["--live"@, "--config"@]);
        }
        args
    }

    /// How a validated change reaches the VM: on a running VM only throttling can
    /// change, through `virsh`; on a stopped VM the disk is redefined.
    pub fn disk_update_plan(vm_name: &str, device_target: &str, update: &DiskSettingsUpdate, is_running: bool) -> (r:
        Result<DiskUpdatePlan, AppError>)
        ensures
            match r {
                Ok(DiskUpdatePlan::Throttle(args)) => is_running && !needs_stop(*update) && throttles(*update)
                    && strings_view(args@) == blkdeviotune_args_of(vm_name@, device_target@, *update),
                Ok(DiskUpdatePlan::Redefine) => !is_running,
                Ok(DiskUpdatePlan::Nothing) => is_running && !needs_stop(*update) && !throttles(*update),
                Err(e) => is_running && needs_stop(*update) && e is InvalidConfig,
            },
    {
        if !is_running {
            return Ok(DiskUpdatePlan::Redefine);
        }
        if update.cache.is_some() || update.io.is_some() || update.discard.is_some() || update.detect_zeroes.is_some() {
            return Err(
                AppError::invalid(
                    "Cache, I/O mode, and discard settings can only be changed when the VM is stopped. I/O throttling (IOPS/bandwidth limits) can be changed on a running VM.",
                ),
            );
        }
        if update.read_iops_sec.is_some() || update.write_iops_sec.is_some() || update.read_bytes_sec.is_some()
            || update.write_bytes_sec.is_some() {
            return Ok(DiskUpdatePlan::Throttle(Self::blkdeviotune_args(vm_name, device_target, update)));
        }
        Ok(DiskUpdatePlan::Nothing)
    }
}

} // verus!
