//! The disk devices of a domain, read line by line from its definition.
use crate::operation::{clone_opt_string, opt_view};
use crate::text::{
    chars_of, contains, contains_str, copy_range, copy_string, lines, lines_view, parse_unsigned_range,
    remove_all, remove_all_str, seq_eq, split_lines, starts_with, starts_with_str, string_of_all, trim,
    trim_bounds,
};
use crate::vm::VmService;
use crate::vm_inspect::attribute_in_line;
use crate::vm_interfaces::parse_u64;
use vstd::prelude::*;

verus! {

/// A disk device of a VM with its driver settings and I/O limits.
#[derive(Debug)]
pub struct DiskDevice {
    pub device: String,
    pub path: String,
    pub disk_type: String,
    pub bus: String,
    pub cache: Option<String>,
    pub io: Option<String>,
    pub discard: Option<String>,
    pub detect_zeroes: Option<String>,
    pub read_iops_sec: Option<u64>,
    pub write_iops_sec: Option<u64>,
    pub read_bytes_sec: Option<u64>,
    pub write_bytes_sec: Option<u64>,
}

/// Read and write operations per second, then read and write bytes per second.
pub type IoTune = (Option<u64>, Option<u64>, Option<u64>, Option<u64>);

pub struct DiskView {
    pub device: Seq<char>,
    pub path: Seq<char>,
    pub disk_type: Seq<char>,
    pub bus: Seq<char>,
    pub cache: Option<Seq<char>>,
    pub io: Option<Seq<char>>,
    pub discard: Option<Seq<char>>,
    pub detect_zeroes: Option<Seq<char>>,
    pub iotune: IoTune,
}

pub open spec fn disk_view(d: DiskDevice) -> DiskView {
    DiskView {
        device: d.device@,
        path: d.path@,
        disk_type: d.disk_type@,
        bus: d.bus@,
        cache: opt_view(d.cache),
        io: opt_view(d.io),
        discard: opt_view(d.discard),
        detect_zeroes: opt_view(d.detect_zeroes),
        iotune: (d.read_iops_sec, d.write_iops_sec, d.read_bytes_sec, d.write_bytes_sec),
    }
}

pub open spec fn disks_view(v: Seq<DiskDevice>) -> Seq<DiskView> {
    v.map_values(|d: DiskDevice| disk_view(d))
}

/// What the scan knows after some lines: the disk being read, whether an `<iotune>`
/// block is open, and the disks recorded so far.
pub struct DiskScanState {
    pub current: Option<DiskView>,
    pub in_iotune: bool,
    pub found: Seq<DiskView>,
}

pub open spec fn disk_scan_start() -> DiskScanState {
    DiskScanState { current: None, in_iotune: false, found: Seq::empty() }
}

/// A `<disk type=` line of a disk device (not a CD-ROM) starts a new disk of that type
/// (`file` when the attribute is missing).
pub open spec fn disk_open(s: DiskScanState, t: Seq<char>) -> DiskScanState {
    if starts_with(t, "<disk type="@) && contains(t, "device='disk'"@) {
        DiskScanState {
            current: Some(
                DiskView {
                    device: Seq::empty(),
                    path: Seq::empty(),
                    disk_type: match attribute_in_line(t, "type"@) {
                        Some(v) => v,
                        None => "file"@,
                    },
                    bus: Seq::empty(),
                    cache: None,
                    io: None,
                    discard: None,
                    detect_zeroes: None,
                    iotune: (None, None, None, None),
                },
            ),
            ..s
        }
    } else {
        s
    }
}

/// The driver attributes, source file and target device and bus of a disk.
pub open spec fn disk_fields(d: DiskView, t: Seq<char>) -> DiskView {
    let d2 = if starts_with(t, "<driver "@) {
        DiskView {
            cache: attribute_in_line(t, "cache"@),
            io: attribute_in_line(t, "io"@),
            discard: attribute_in_line(t, "discard"@),
            detect_zeroes: attribute_in_line(t, "detect_zeroes"@),
            ..d
        }
    } else {
        d
    };
    let d3 = if contains(t, "<source file="@) {
        match attribute_in_line(t, "file"@) {
            Some(p) => DiskView { path: p, ..d2 },
            None => d2,
        }
    } else {
        d2
    };
    if contains(t, "<target dev="@) {
        DiskView {
            device: match attribute_in_line(t, "dev"@) {
                Some(v) => v,
                None => d3.device,
            },
            bus: match attribute_in_line(t, "bus"@) {
                Some(v) => v,
                None => "virtio"@,
            },
            ..d3
        }
    } else {
        d3
    }
}

/// The value of an `<iotune>` entry line: the line without its tags, parsed.
pub open spec fn tune_value(t: Seq<char>, open: Seq<char>, close: Seq<char>, old: Option<u64>) -> Option<u64> {
    if starts_with(t, open) {
        parse_u64(remove_all(remove_all(t, open), close))
    } else {
        old
    }
}

pub open spec fn disk_tune(d: DiskView, t: Seq<char>) -> DiskView {
    DiskView {
        iotune: (
            tune_value(t, "<read_iops_sec>"@, "</read_iops_sec>"@, d.iotune.0),
            tune_value(t, "<write_iops_sec>"@, "</write_iops_sec>"@, d.iotune.1),
            tune_value(t, "<read_bytes_sec>"@, "</read_bytes_sec>"@, d.iotune.2),
            tune_value(t, "<write_bytes_sec>"@, "</write_bytes_sec>"@, d.iotune.3),
        ),
        ..d
    }
}

/// The `<iotune>` flag after a line.
pub open spec fn iotune_flag(was: bool, t: Seq<char>) -> bool {
    if t == "</iotune>"@ {
        false
    } else if t == "<iotune>"@ {
        true
    } else {
        was
    }
}

/// One trimmed line; lines outside a disk device change nothing.
pub open spec fn disk_line(s: DiskScanState, t: Seq<char>) -> DiskScanState {
    let s1 = disk_open(s, t);
    match s1.current {
        None => s1,
        Some(d) => {
            let d4 = disk_fields(d, t);
            let tune = iotune_flag(s1.in_iotune, t);
            let d5 = if tune {
                disk_tune(d4, t)
            } else {
                d4
            };
            if t == "</disk>"@ {
                DiskScanState {
                    current: None,
                    in_iotune: tune,
                    found: if d5.device.len() > 0 && d5.path.len() > 0 {
                        s1.found.push(d5)
                    } else {
                        s1.found
                    },
                }
            } else {
                DiskScanState { current: Some(d5), in_iotune: tune, found: s1.found }
            }
        },
    }
}

pub open spec fn disk_scan(ls: Seq<Seq<char>>) -> DiskScanState
    decreases ls.len(),
{
    if ls.len() == 0 {
        disk_scan_start()
    } else {
        disk_line(disk_scan(ls.drop_last()), trim(ls.last()))
    }
}

/// The disk devices of a domain definition: each disk element of a disk device that
/// names both a target device and a source file, in document order.
pub open spec fn disks_of(xml: Seq<char>) -> Seq<DiskView> {
    disk_scan(lines(xml)).found
}

/// Every disk the scan records names a target device and a source file.
proof fn lemma_scan_disks_named(ls: Seq<Seq<char>>)
    ensures
        forall|i: int|
            0 <= i < disk_scan(ls).found.len() ==> (#[trigger] disk_scan(ls).found[i]).device.len() > 0
                && disk_scan(ls).found[i].path.len() > 0,
    decreases ls.len(),
{
    if ls.len() > 0 {
        lemma_scan_disks_named(ls.drop_last());
        let s = disk_scan(ls.drop_last());
        let t = trim(ls.last());
        let s1 = disk_open(s, t);
        assert(s1.found == s.found);
        let r = disk_scan(ls);
        assert forall|i: int| 0 <= i < r.found.len() implies (#[trigger] r.found[i]).device.len() > 0
            && r.found[i].path.len() > 0 by {
            if i < s.found.len() {
                assert(r.found[i] == s.found[i]);
            }
        }
    }
}

/// The disks read from a definition each name a target device and a source file; CD-ROM
/// and other non-disk devices never start one.
pub proof fn law_listed_disks_are_named(xml: Seq<char>)
    ensures
        forall|i: int|
            0 <= i < disks_of(xml).len() ==> (#[trigger] disks_of(xml)[i]).device.len() > 0 && disks_of(
                xml,
            )[i].path.len() > 0,
        forall|s: DiskScanState, t: Seq<char>|
            !contains(t, "device='disk'"@) ==> #[trigger] disk_open(s, t) == s,
{
    lemma_scan_disks_named(lines(xml));
}

pub open spec fn opt_disk_view(o: Option<DiskDevice>) -> Option<DiskView> {
    match o {
        Some(d) => Some(disk_view(d)),
        None => None,
    }
}

fn attr_or(line: &str, attr: &str, default: &str) -> (r: String)
    ensures
        r@ == match attribute_in_line(line@, attr@) {
            Some(v) => v,
            None => default@,
        },
{
    match VmService::extract_xml_attribute(line, attr) {
        Some(v) => v,
        None => String::from_str(default),
    }
}

fn disk_fields_exec(d: &mut DiskDevice, t: &Vec<char>, line: &str)
    requires
        line@ == t@,
    ensures
        disk_view(*final(d)) == disk_fields(disk_view(*old(d)), t@),
{
    if starts_with_str(t.as_slice(), "<driver ") {
        d.cache = VmService::extract_xml_attribute(line, "cache");
        d.io = VmService::extract_xml_attribute(line, "io");
        d.discard = VmService::extract_xml_attribute(line, "discard");
        d.detect_zeroes = VmService::extract_xml_attribute(line, "detect_zeroes");
    }
    if contains_str(t.as_slice(), "<source file=") {
        if let Some(p) = VmService::extract_xml_attribute(line, "file") {
            d.path = p;
        }
    }
    if contains_str(t.as_slice(), "<target dev=") {
        if let Some(v) = VmService::extract_xml_attribute(line, "dev") {
            d.device = v;
        }
        d.bus = attr_or(line, "bus", "virtio");
    }
}

fn tune_value_exec(t: &Vec<char>, open: &str, close: &str, old: Option<u64>) -> (r: Option<u64>)
    ensures
        r == tune_value(t@, open@, close@, old),
{
    if starts_with_str(t.as_slice(), open) {
        let a = remove_all_str(t.as_slice(), open);
        let b = remove_all_str(a.as_slice(), close);
        let v = parse_unsigned_range(b.as_slice(), 0, b.len(), u64::MAX);
        proof {
            assert(b@.subrange(0, b@.len() as int) =~= b@);
        }
        v
    } else {
        old
    }
}

fn disk_tune_exec(d: &mut DiskDevice, t: &Vec<char>)
    ensures
        disk_view(*final(d)) == disk_tune(disk_view(*old(d)), t@),
{
    d.read_iops_sec = tune_value_exec(t, "<read_iops_sec>", "</read_iops_sec>", d.read_iops_sec);
    d.write_iops_sec = tune_value_exec(t, "<write_iops_sec>", "</write_iops_sec>", d.write_iops_sec);
    d.read_bytes_sec = tune_value_exec(t, "<read_bytes_sec>", "</read_bytes_sec>", d.read_bytes_sec);
    d.write_bytes_sec = tune_value_exec(t, "<write_bytes_sec>", "</write_bytes_sec>", d.write_bytes_sec);
}

fn is_line(t: &Vec<char>, lit: &str) -> (r: bool)
    ensures
        r == (t@ == lit@),
{
    let v = chars_of(lit);
    seq_eq(t.as_slice(), v.as_slice())
}

fn new_disk(line: &str) -> (r: DiskDevice)
    ensures
        disk_view(r) == (DiskView {
            device: Seq::empty(),
            path: Seq::empty(),
            disk_type: match attribute_in_line(line@, "type"@) {
                Some(v) => v,
                None => "file"@,
            },
            bus: Seq::empty(),
            cache: None,
            io: None,
            discard: None,
            detect_zeroes: None,
            iotune: (None, None, None, None),
        }),
{
    DiskDevice {
        device: String::new(),
        path: String::new(),
        disk_type: attr_or(line, "type", "file"),
        bus: String::new(),
        cache: None,
        io: None,
        discard: None,
        detect_zeroes: None,
        read_iops_sec: None,
        write_iops_sec: None,
        read_bytes_sec: None,
        write_bytes_sec: None,
    }
}

fn disk_line_exec(
    current: &mut Option<DiskDevice>,
    in_iotune: &mut bool,
    found: &mut Vec<DiskDevice>,
    t: &Vec<char>,
    line: &str,
)
    requires
        line@ == t@,
    ensures
        (DiskScanState { current: opt_disk_view(*final(current)), in_iotune: *final(in_iotune), found: disks_view(final(found)@) })
            == disk_line(
            DiskScanState { current: opt_disk_view(*old(current)), in_iotune: *old(in_iotune), found: disks_view(old(found)@) },
            t@,
        ),
{
    if starts_with_str(t.as_slice(), "<disk type=") && contains_str(t.as_slice(), "device='disk'") {
        *current = Some(new_disk(line));
    }
    let mut taken: Option<DiskDevice> = None;
    std::mem::swap(&mut taken, current);
    match taken {
        None => {},
        Some(mut d) => {
            disk_fields_exec(&mut d, t, line);
            let closing_tune = is_line(t, "</iotune>");
            let opening_tune = is_line(t, "<iotune>");
            if closing_tune {
                *in_iotune = false;
            } else if opening_tune {
                *in_iotune = true;
            }
            if *in_iotune {
                disk_tune_exec(&mut d, t);
            }
            if is_line(t, "</disk>") {
                if d.device.unicode_len() > 0 && d.path.unicode_len() > 0 {
                    let ghost before = found@;
                    found.push(d);
                    proof {
                        assert(disks_view(found@) =~= disks_view(before).push(disk_view(found@.last())));
                    }
                }
            } else {
                *current = Some(d);
            }
        },
    }
}

impl VmService {
    /// The disk devices of a domain definition.
    pub fn get_vm_disks(xml: &str) -> (r: Vec<DiskDevice>)
        ensures
            disks_view(r@) == disks_of(xml@),
    {
        let ls = split_lines(xml);
        let ghost lv = lines_view(ls@);
        let n = ls.len();
        let mut current: Option<DiskDevice> = None;
        let mut in_iotune = false;
        let mut found: Vec<DiskDevice> = Vec::new();
        proof {
            assert(disks_view(found@) =~= Seq::<DiskView>::empty());
            assert(disk_scan(lv.subrange(0, 0)) == disk_scan_start());
        }
        let mut i: usize = 0;
        while i < n
            invariant
                n == ls@.len(),
                lv == lines_view(ls@),
                lv == lines(xml@),
                i <= n,
                (DiskScanState { current: opt_disk_view(current), in_iotune, found: disks_view(found@) })
                    == disk_scan(lv.subrange(0, i as int)),
            decreases n - i,
        {
            let (a, b) = trim_bounds(ls[i].as_slice(), 0, ls[i].len());
            let t = copy_range(ls[i].as_slice(), a, b);
            let line = string_of_all(t.as_slice());
            proof {
                assert(ls@[i as int]@.subrange(0, ls@[i as int]@.len() as int) =~= ls@[i as int]@);
                let sub = lv.subrange(0, i + 1);
                assert(sub.drop_last() =~= lv.subrange(0, i as int));
                assert(sub.last() == ls@[i as int]@);
            }
            disk_line_exec(&mut current, &mut in_iotune, &mut found, &t, line.as_str());
            i = i + 1;
        }
        proof {
            assert(lv.subrange(0, n as int) =~= lv);
        }
        found
    }
}

} // verus!
