//! Display, platform and resource settings of a VM: the graphics, video, VSOCK, parallel,
//! smartcard, panic and evdev devices, and the memory, vCPU and CPU-model values that
//! are written into its definition.
use crate::devices::{check_choice, listed, refusal_text, result_is};
use crate::error::AppError;
use crate::text::{
    chars_of, contains, contains_str, copy_range, dec, dec_int, find, find_from, find_str,
    find_str_from, fmt_i64, fmt_u64, lines, lines_view, parse_unsigned, parse_unsigned_range,
    replace_all, replace_all_str, split_lines, split_whitespace, starts_with, starts_with_str,
    str_eq, string_of, trim, trim_bounds, trim_string, words_from, ends_with, ends_with_str,
};
use crate::vm::{size_human, CpuModelConfig, EvdevDevice, HugepageInfo, HugepagesSettings, VmService};
use crate::vm::KernelBootSettings;
use crate::xml::{
    element_attribute, element_text, escape, escaped_attribute, first_element_attribute,
    first_element_text, root_ok, text_ok, validate_text,
};
use vstd::prelude::*;

verus! {

/// The port part of a graphics element: a fixed port when one above zero is asked for,
/// else an automatically chosen one.
pub open spec fn port_attr(port: Option<i32>) -> Seq<char> {
    match port {
        Some(p) => if p > 0 {
            "port='"@ + dec_int(p as int) + "'"@
        } else {
            "port='-1' autoport='yes'"@
        },
        None => "port='-1' autoport='yes'"@,
    }
}

/// A VNC or SPICE display listening on `listen`.
pub open spec fn graphics_xml(graphics_type: Seq<char>, listen: Seq<char>, port: Option<i32>) -> Seq<char> {
    if graphics_type == "spice"@ {
        "<graphics type='spice' "@ + port_attr(port) + " listen='"@ + listen
            + "'>\n  <listen type='address' address='"@ + listen
            + "'/>\n  <image compression='auto_glz'/>\n  <streaming mode='filter'/>\n  <clipboard copypaste='yes'/>\n  <mouse mode='client'/>\n</graphics>"@
    } else {
        "<graphics type='vnc' "@ + port_attr(port) + " listen='"@ + listen
            + "'>\n  <listen type='address' address='"@ + listen + "'/>\n</graphics>"@
    }
}

/// The address a display listens on: the one given, else the loopback address.
pub open spec fn listen_of(listen_address: Option<&str>) -> Seq<char> {
    match listen_address {
        Some(l) => l@,
        None => "127.0.0.1"@,
    }
}

/// A primary video device of `model`; `vram` is in KiB.
pub open spec fn video_xml(model: Seq<char>, vram: nat, heads: nat, acceleration_3d: bool) -> Seq<char> {
    if model == "virtio"@ {
        "<video>\n  <model type='virtio' heads='"@ + dec(heads) + "' primary='yes'"@ + (if acceleration_3d {
            " accel3d='yes'"@
        } else {
            ""@
        }) + ">\n    <acceleration accel3d='"@ + (if acceleration_3d {
            "yes"@
        } else {
            "no"@
        }) + "'/>\n  </model>\n</video>"@
    } else if model == "qxl"@ {
        "<video>\n  <model type='qxl' ram='"@ + dec(vram * 2) + "' vram='"@ + dec(vram)
            + "' vgamem='16384' heads='"@ + dec(heads) + "' primary='yes'/>\n</video>"@
    } else if model == "ramfb"@ {
        "<video>\n  <model type='ramfb' primary='yes'/>\n</video>"@
    } else {
        "<video>\n  <model type='"@ + model + "' vram='"@ + dec(vram) + "' heads='"@ + dec(heads)
            + "' primary='yes'/>\n</video>"@
    }
}

pub open spec fn video_models() -> Seq<&'static str> {
    seq!["virtio", "qxl", "vga", "bochs", "ramfb", "cirrus"]
}

/// Video memory in KiB when none is given.
pub const DEFAULT_VRAM_KIB: u32 = 65536;

pub open spec fn opt_or(o: Option<u32>, d: u32) -> u32 {
    match o {
        Some(x) => x,
        None => d,
    }
}

/// The value written into the `<memory>` element for `memory_mb` MiB, in the unit the
/// definition already uses; `None` for a unit it cannot be written in.
pub open spec fn memory_in_unit(unit: Seq<char>, memory_mb: nat) -> Option<nat> {
    if unit == "KiB"@ {
        Some(memory_mb * 1024)
    } else if unit == "MiB"@ {
        Some(memory_mb)
    } else if unit == "GiB"@ && memory_mb % 1024 == 0 {
        Some(memory_mb / 1024)
    } else {
        None
    }
}

/// The unit of the `<memory>` element of a definition: `KiB` when it names none.
pub open spec fn memory_unit(xml: Seq<char>) -> Seq<char> {
    match element_attribute(xml, "memory"@, "unit"@) {
        Some(u) => u,
        None => "KiB"@,
    }
}

/// The CPU mode of a definition, `host-passthrough` when it names none, and for the
/// custom mode the model name, trimmed.
pub open spec fn cpu_model_of(xml: Seq<char>) -> (Seq<char>, Option<Seq<char>>) {
    let mode = match element_attribute(xml, "cpu"@, "mode"@) {
        Some(m) => m,
        None => "host-passthrough"@,
    };
    let model = if mode == "custom"@ {
        match element_text(xml, "model"@) {
            Some(t) => Some(trim(t)),
            None => None,
        }
    } else {
        None
    };
    (mode, model)
}

pub open spec fn opt_view(o: Option<String>) -> Option<Seq<char>> {
    match o {
        Some(s) => Some(s@),
        None => None,
    }
}


/// What a definition states of direct kernel boot: whether any of kernel, initrd or
/// command line is given, and the text of `<kernel>`, `<initrd>`, `<cmdline>`, `<dtb>`.
pub open spec fn kernel_boot_of(xml: Seq<char>) -> (bool, Option<Seq<char>>, Option<Seq<char>>, Option<Seq<char>>, Option<Seq<char>>) {
    let k = element_text(xml, "kernel"@);
    let i = element_text(xml, "initrd"@);
    let c = element_text(xml, "cmdline"@);
    let d = element_text(xml, "dtb"@);
    (k is Some || i is Some || c is Some, k, i, c, d)
}

/// The element written for one kernel boot value: only while kernel boot is enabled and
/// the value is given and not empty.
pub open spec fn boot_element(enabled: bool, value: Option<Seq<char>>, tag: Seq<char>) -> Option<Seq<char>> {
    match value {
        Some(v) => if enabled && v.len() > 0 {
            Some("<"@ + tag + ">"@ + escape(v) + "</"@ + tag + ">"@)
        } else {
            None
        },
        None => None,
    }
}

/// The value is written into the definition and cannot be.
pub open spec fn boot_value_bad(enabled: bool, value: Option<Seq<char>>) -> bool {
    match value {
        Some(v) => enabled && v.len() > 0 && !text_ok(v),
        None => false,
    }
}

/// The CPU models x86_64 guests can be given when the host cannot be asked.
pub open spec fn fallback_cpu_models() -> Seq<Seq<char>> {
    seq![
        "qemu64"@, "qemu32"@, "Nehalem"@, "Westmere"@, "SandyBridge"@, "IvyBridge"@, "Haswell"@,
        "Broadwell"@, "Skylake-Client"@, "Skylake-Server"@, "Cascadelake-Server"@, "Icelake-Client"@,
        "Icelake-Server"@, "Cooperlake"@, "EPYC"@, "EPYC-Rome"@, "EPYC-Milan"@,
    ]
}

/// The lines that are not blank, trimmed.
pub open spec fn nonblank_trimmed(ls: Seq<Seq<char>>) -> Seq<Seq<char>>
    decreases ls.len(),
{
    if ls.len() == 0 {
        Seq::empty()
    } else {
        let rest = nonblank_trimmed(ls.drop_last());
        if trim(ls.last()).len() == 0 {
            rest
        } else {
            rest.push(trim(ls.last()))
        }
    }
}

pub open spec fn strings_view(v: Seq<String>) -> Seq<Seq<char>> {
    v.map_values(|x: String| x@)
}

pub open spec fn pci_hostdev_tag() -> Seq<char> {
    "<hostdev mode='subsystem' type='pci'"@
}

pub open spec fn usb_hostdev_tag() -> Seq<char> {
    "<hostdev mode='subsystem' type='usb'"@
}

pub open spec fn mdev_hostdev_tag() -> Seq<char> {
    "<hostdev mode='subsystem' type='mdev'"@
}

/// The file of a trimmed `<source file='...'` line, when it has a closing quote.
pub open spec fn source_file_of(t: Seq<char>) -> Option<Seq<char>> {
    if starts_with(t, "<source file='"@) {
        match find(t, "file='"@) {
            Some(st) => match find_from(t, "'"@, st + 6) {
                Some(e) => Some(t.subrange(st + 6, e)),
                None => None,
            },
            None => None,
        }
    } else {
        None
    }
}

/// A disk file that lives on this host: under the image pool or a home directory, or
/// any path that is neither a URL nor a device node.
pub open spec fn local_disk_path(path: Seq<char>) -> bool {
    starts_with(path, "/var/lib/libvirt/images/"@) || starts_with(path, "/home/"@) || (!contains(path, "://"@)
        && !starts_with(path, "/dev/"@))
}

/// The migration warnings one line of a definition raises, in the order they are checked.
pub open spec fn line_warnings(line: Seq<char>) -> Seq<Seq<char>> {
    let t = trim(line);
    let w1: Seq<Seq<char>> = match source_file_of(t) {
        Some(p) => if local_disk_path(p) {
            seq!["A local disk may require shared storage before migration"@]
        } else {
            Seq::empty()
        },
        None => Seq::empty(),
    };
    let w2: Seq<Seq<char>> = if contains(t, pci_hostdev_tag()) {
        seq!["PCI passthrough device detected - prevents live migration"@]
    } else {
        Seq::empty()
    };
    let w3: Seq<Seq<char>> = if contains(t, usb_hostdev_tag()) {
        seq!["USB passthrough device detected - may affect migration"@]
    } else {
        Seq::empty()
    };
    let w4: Seq<Seq<char>> = if starts_with(t, "<tpm "@) {
        seq!["TPM device detected - state may not transfer correctly"@]
    } else {
        Seq::empty()
    };
    let w5: Seq<Seq<char>> = if contains(t, mdev_hostdev_tag()) {
        seq!["MDEV passthrough device detected - prevents live migration"@]
    } else {
        Seq::empty()
    };
    w1 + w2 + w3 + w4 + w5
}

/// A line that names a PCI or mediated device passed through, which rules migration out.
pub open spec fn line_blocks(line: Seq<char>) -> bool {
    contains(trim(line), pci_hostdev_tag()) || contains(trim(line), mdev_hostdev_tag())
}

/// Whether the lines allow migration, and the warnings they raise, line after line.
pub open spec fn compatibility_of(ls: Seq<Seq<char>>) -> (bool, Seq<Seq<char>>)
    decreases ls.len(),
{
    if ls.len() == 0 {
        (true, Seq::empty())
    } else {
        let r = compatibility_of(ls.drop_last());
        (r.0 && !line_blocks(ls.last()), r.1 + line_warnings(ls.last()))
    }
}


/// The page size of a definition's huge-page backing in KiB: the number in the first
/// `<page size='N'`, scaled by the first unit named after it; none when the number
/// cannot be read or no known unit follows.
pub open spec fn page_size_kib(xml: Seq<char>) -> Option<int> {
    match find(xml, "<page size='"@) {
        Some(ps) => {
            let rest = xml.subrange(ps + 12, xml.len() as int);
            match find(rest, "'"@) {
                Some(e) => match parse_unsigned(rest.subrange(0, e), u64::MAX as nat) {
                    Some(n) => if contains(rest, "unit='KiB'"@) || contains(rest, "unit='kib'"@) {
                        Some(n as int)
                    } else if contains(rest, "unit='MiB'"@) || contains(rest, "unit='mib'"@) {
                        Some((n * 1024) as int)
                    } else if contains(rest, "unit='GiB'"@) || contains(rest, "unit='gib'"@) {
                        Some((n * 1024 * 1024) as int)
                    } else {
                        None
                    },
                    None => None,
                },
                None => None,
            }
        },
        None => None,
    }
}

/// Whether a definition backs memory with huge pages, and their size in KiB.
pub open spec fn hugepages_of(xml: Seq<char>) -> (bool, Option<int>) {
    let enabled = contains(xml, "<hugepages"@);
    (enabled, if enabled {
        page_size_kib(xml)
    } else {
        None
    })
}

/// The page size a definition states fits in 64 bits.
pub open spec fn hugepages_fit(xml: Seq<char>) -> bool {
    match hugepages_of(xml).1 {
        Some(v) => v <= u64::MAX,
        None => true,
    }
}

pub open spec fn opt_u64_int(o: Option<u64>) -> Option<int> {
    match o {
        Some(v) => Some(v as int),
        None => None,
    }
}

/// The `<memoryBacking>` element for huge pages of `size` KiB, or of the default size.
pub open spec fn memory_backing_xml(size: Option<u64>) -> Seq<char> {
    match size {
        Some(n) => "<memoryBacking><hugepages><page size='"@ + dec(n as nat)
            + "' unit='KiB'/></hugepages></memoryBacking>"@,
        None => "<memoryBacking><hugepages/></memoryBacking>"@,
    }
}

/// The page size in KiB that a `hugepages-<N>kB` directory of the host stands for.
pub open spec fn hugepage_dir_size(name: Seq<char>) -> Option<nat> {
    if name.len() >= 12 && starts_with(name, "hugepages-"@) && ends_with(name, "kB"@) {
        parse_unsigned(name.subrange(10, name.len() - 2), u64::MAX as nat)
    } else {
        None
    }
}

/// The id of a `node<N>` directory of the host's NUMA nodes.
pub open spec fn numa_node_dir_id(name: Seq<char>) -> Option<nat> {
    if starts_with(name, "node"@) {
        parse_unsigned(name.subrange(4, name.len() as int), u32::MAX as nat)
    } else {
        None
    }
}

/// A count read from the host: the trimmed number, zero when there is none.
pub open spec fn count_of(text: Seq<char>) -> nat {
    match parse_unsigned(trim(text), u64::MAX as nat) {
        Some(n) => n,
        None => 0,
    }
}

/// The kind of an input device of the host, from its name.
pub open spec fn evdev_kind(name: Seq<char>) -> Seq<char> {
    if contains(name, "kbd"@) || contains(name, "keyboard"@) {
        "keyboard"@
    } else if contains(name, "mouse"@) {
        "mouse"@
    } else if contains(name, "joystick"@) || contains(name, "gamepad"@) {
        "joystick"@
    } else {
        "other"@
    }
}

/// The name of an input device shown to the user: its id without the bus prefix and
/// the event suffixes, with spaces for underscores.
pub open spec fn evdev_friendly(name: Seq<char>) -> Seq<char> {
    let a = replace_all(name, "usb-"@, ""@);
    let b = replace_all(a, "-event-kbd"@, ""@);
    let c = replace_all(b, "-event-mouse"@, ""@);
    let d = replace_all(c, "-if01-event-mouse"@, ""@);
    let e = replace_all(d, "-if02-event-kbd"@, ""@);
    let f = replace_all(e, "-if02-event-mouse"@, ""@);
    replace_all(f, "_"@, " "@)
}

/// The input type a host input device is attached as, from its path.
pub open spec fn evdev_input_type(path: Seq<char>) -> Seq<char> {
    if contains(path, "kbd"@) || contains(path, "keyboard"@) {
        "keyboard"@
    } else if contains(path, "mouse"@) {
        "mouse"@
    } else {
        "passthrough"@
    }
}

/// A host input device passed to the guest over VirtIO; `grab_all` takes all its input.
pub open spec fn evdev_xml(path: Seq<char>, grab_all: bool) -> Seq<char> {
    "<input type='"@ + evdev_input_type(path) + "' bus='virtio'>\n  <source dev='"@ + escape(path) + "'"@ + (if grab_all {
        " grab='all'"@
    } else {
        ""@
    }) + "/>\n</input>"@
}

/// What passing the evdev device at `path` gives: the `<input>` element, or the message
/// of the refusal (a device that does not exist, a running VM, a path that is not plain
/// text, in that order).
pub open spec fn evdev_outcome(path: Seq<char>, grab_all: bool, is_running: bool, exists: bool) -> Result<
    Seq<char>,
    Seq<char>,
> {
    if !exists {
        Err("Evdev device not found: "@ + path)
    } else if is_running {
        Err("Cannot attach evdev device to running VM. Please stop the VM first."@)
    } else if !text_ok(path) {
        Err("evdev device path"@ + " contains characters that are not allowed"@)
    } else {
        Ok(evdev_xml(path, grab_all))
    }
}

pub open spec fn numa_mode_ok(mode: Seq<char>) -> bool {
    mode == "strict"@ || mode == "preferred"@ || mode == "interleave"@
}

/// The nodes a NUMA policy binds memory to: the ones given, else node 0.
pub open spec fn nodeset_of(nodeset: Option<&str>) -> Seq<char> {
    match nodeset {
        Some(n) => n@,
        None => "0"@,
    }
}

/// The id of a `<cell id='N'` line of the host capabilities.
pub open spec fn cell_id_of(line: Seq<char>) -> Option<u32> {
    let t = trim(line);
    if starts_with(t, "<cell id="@) {
        match find(t, "id='"@) {
            Some(st) => match find_from(t, "'"@, st + 4) {
                Some(e) => match parse_unsigned(t.subrange(st + 4, e), u32::MAX as nat) {
                    Some(n) => Some(n as u32),
                    None => None,
                },
                None => None,
            },
            None => None,
        }
    } else {
        None
    }
}

/// The NUMA cell ids the capability lines list, in order.
pub open spec fn cell_ids(ls: Seq<Seq<char>>) -> Seq<u32>
    decreases ls.len(),
{
    if ls.len() == 0 {
        Seq::empty()
    } else {
        match cell_id_of(ls.last()) {
            Some(n) => cell_ids(ls.drop_last()).push(n),
            None => cell_ids(ls.drop_last()),
        }
    }
}

/// The first line that holds `p`.
pub open spec fn first_line_with(ls: Seq<Seq<char>>, p: Seq<char>) -> Option<Seq<char>>
    decreases ls.len(),
{
    if ls.len() == 0 {
        None
    } else if contains(ls[0], p) {
        Some(ls[0])
    } else {
        first_line_with(ls.drop_first(), p)
    }
}

/// The memory of a NUMA node in MiB: the fourth field of its first `MemTotal:` line, in
/// KiB; zero when there is none.
pub open spec fn node_memory_mb(meminfo: Seq<char>) -> nat {
    match first_line_with(lines(meminfo), "MemTotal:"@) {
        Some(l) => {
            let w = words_from(l, 0);
            if w.len() > 3 {
                match parse_unsigned(w[3], u64::MAX as nat) {
                    Some(kb) => kb / 1024,
                    None => 0,
                }
            } else {
                0
            }
        },
        None => 0,
    }
}

/// `average,peak,burst` of one direction of a bandwidth limit: the peak is twice the
/// average and the burst equals it when they are not given.
pub open spec fn tune_value(avg: u64, peak: Option<u64>, burst: Option<u64>) -> Seq<char> {
    dec(avg as nat) + ","@ + dec(
        match peak {
            Some(p) => p as nat,
            None => (avg * 2) as nat,
        },
    ) + ","@ + dec(
        match burst {
            Some(b) => b as nat,
            None => avg as nat,
        },
    )
}

/// The arguments of one direction of `virsh domiftune`.
pub open spec fn tune_args(flag: Seq<char>, avg: Option<u64>, peak: Option<u64>, burst: Option<u64>) -> Seq<Seq<char>> {
    match avg {
        Some(a) => seq![flag, tune_value(a, peak, burst)],
        None => Seq::empty(),
    }
}

/// A peak that is not given can be doubled from the average.
pub open spec fn tune_fits(avg: Option<u64>, peak: Option<u64>) -> bool {
    match (avg, peak) {
        (Some(a), None) => a * 2 <= u64::MAX,
        _ => true,
    }
}

/// A name of a host interface a VM may be attached to directly: not the loopback, and
/// not a bridge, veth, container or tap interface.
pub open spec fn host_interface_listed(name: Seq<char>) -> bool {
    !(name == "lo"@ || starts_with(name, "virbr"@) || starts_with(name, "veth"@) || starts_with(name, "docker"@)
        || starts_with(name, "br-"@) || starts_with(name, "vnet"@))
}

fn push_dec(out: &mut String, n: u64)
    ensures
        final(out)@ == old(out)@ + dec(n as nat),
{
    let d = fmt_u64(n);
    out.append(d.as_str());
}


fn push_static(v: &mut Vec<String>, m: &str)
    ensures
        strings_view(final(v)@) == strings_view(old(v)@).push(m@),
{
    let ghost before = v@;
    v.push(String::from_str(m));
    proof {
        assert(strings_view(v@) =~= strings_view(before).push(m@));
    }
}

fn boot_element_exec(enabled: bool, value: &Option<String>, tag: &str, label: &str) -> (r: Result<Option<String>, AppError>)
    ensures
        match r {
            Ok(o) => !boot_value_bad(enabled, opt_view(*value)) && opt_view(o) == boot_element(enabled, opt_view(*value), tag@),
            Err(e) => boot_value_bad(enabled, opt_view(*value)) && e is InvalidConfig,
        },
{
    match value {
        Some(v) => {
            if enabled && v.unicode_len() > 0 {
                validate_text(v.as_str(), label)?;
                let mut x = String::from_str("<");
                x.append(tag);
                x.append(">");
                crate::xml::push_escaped_str(&mut x, v.as_str());
                x.append("</");
                x.append(tag);
                x.append(">");
                Ok(Some(x))
            } else {
                Ok(None)
            }
        },
        None => Ok(None),
    }
}

/// The migration warnings of one line, and whether it rules migration out.
fn line_compatibility(line: &Vec<char>, warnings: &mut Vec<String>) -> (blocks: bool)
    ensures
        blocks == line_blocks(line@),
        strings_view(final(warnings)@) == strings_view(old(warnings)@) + line_warnings(line@),
{
    let ghost start = strings_view(warnings@);
    let (a, b) = trim_bounds(line.as_slice(), 0, line.len());
    proof {
        assert(line@.subrange(0, line@.len() as int) =~= line@);
    }
    let t = copy_range(line.as_slice(), a, b);
    let ghost tv = t@;
    let tl = t.len();
    if starts_with_str(t.as_slice(), "<source file='") {
        proof {
            reveal_strlit("file='");
            reveal_strlit("'");
        }
        match find_str(t.as_slice(), "file='") {
            Some(st) => {
                assert(st + 6 <= tl);
                match find_str_from(t.as_slice(), "'", st + 6) {
                    Some(e) => {
                        let path = copy_range(t.as_slice(), st + 6, e);
                        let local = starts_with_str(path.as_slice(), "/var/lib/libvirt/images/")
                            || starts_with_str(path.as_slice(), "/home/") || (!contains_str(path.as_slice(), "://")
                            && !starts_with_str(path.as_slice(), "/dev/"));
                        if local {
                            push_static(warnings, "A local disk may require shared storage before migration");
                        }
                    },
                    None => {},
                }
            },
            None => {},
        }
    }
    let ghost after1 = strings_view(warnings@);
    let pci = contains_str(t.as_slice(), "<hostdev mode='subsystem' type='pci'");
    if pci {
        push_static(warnings, "PCI passthrough device detected - prevents live migration");
    }
    let ghost after2 = strings_view(warnings@);
    if contains_str(t.as_slice(), "<hostdev mode='subsystem' type='usb'") {
        push_static(warnings, "USB passthrough device detected - may affect migration");
    }
    let ghost after3 = strings_view(warnings@);
    if starts_with_str(t.as_slice(), "<tpm ") {
        push_static(warnings, "TPM device detected - state may not transfer correctly");
    }
    let ghost after4 = strings_view(warnings@);
    let mdev = contains_str(t.as_slice(), "<hostdev mode='subsystem' type='mdev'");
    if mdev {
        push_static(warnings, "MDEV passthrough device detected - prevents live migration");
    }
    proof {
        let w = line_warnings(line@);
        assert(strings_view(warnings@) =~= start + w);
    }
    pci || mdev
}


fn contains_text(s: &str, p: &str) -> (r: bool)
    ensures
        r == contains(s@, p@),
{
    let v = chars_of(s);
    contains_str(v.as_slice(), p)
}

fn cell_id_exec(line: &Vec<char>) -> (r: Option<u32>)
    ensures
        r == cell_id_of(line@),
{
    let (a, b) = trim_bounds(line.as_slice(), 0, line.len());
    proof {
        assert(line@.subrange(0, line@.len() as int) =~= line@);
        reveal_strlit("id='");
        reveal_strlit("'");
    }
    let t = copy_range(line.as_slice(), a, b);
    let tl = t.len();
    if !starts_with_str(t.as_slice(), "<cell id=") {
        return None;
    }
    let st = match find_str(t.as_slice(), "id='") {
        Some(x) => x,
        None => return None,
    };
    assert(st + 4 <= tl);
    let e = match find_str_from(t.as_slice(), "'", st + 4) {
        Some(x) => x,
        None => return None,
    };
    match parse_unsigned_range(t.as_slice(), st + 4, e, 4294967295) {
        Some(n) => Some(n as u32),
        None => None,
    }
}


fn tune_text(avg: u64, peak: Option<u64>, burst: Option<u64>) -> (r: String)
    requires
        tune_fits(Some(avg), peak),
    ensures
        r@ == tune_value(avg, peak, burst),
{
    let mut x = fmt_u64(avg);
    x.append(",");
    push_dec(&mut x, match peak {
        Some(p) => p,
        None => avg * 2,
    });
    x.append(",");
    push_dec(&mut x, match burst {
        Some(b) => b,
        None => avg,
    });
    x
}

impl VmService {
    /// A VNC or SPICE display. It listens on `listen_address`, else on `127.0.0.1`, and on
    /// `port` when that is above zero, else on a port libvirt picks.
    pub fn graphics_definition(graphics_type: &str, listen_address: Option<&str>, port: Option<i32>) -> (r: Result<String, AppError>)
        ensures
            match r {
                Ok(x) => listed(graphics_type@, seq!["vnc", "spice"]) && x@ == graphics_xml(
                    graphics_type@,
                    listen_of(listen_address),
                    port,
                ),
                Err(e) => !listed(graphics_type@, seq!["vnc", "spice"]) && e is InvalidConfig,
            },
    {
        let types = ["vnc", "spice"];
        proof {
            assert(types@ =~= seq!["vnc", "spice"]);
        }
        check_choice(graphics_type, "graphics type", types.as_slice())?;
        let listen: &str = match listen_address {
            Some(l) => l,
            None => "127.0.0.1",
        };
        let spice = str_eq(graphics_type, "spice");
        let mut x = String::from_str(if spice {
            "<graphics type='spice' "
        } else {
            "<graphics type='vnc' "
        });
        match port {
            Some(p) => {
                if p > 0 {
                    x.append("port='");
                    x.append(fmt_i64(p as i64).as_str());
                    x.append("'");
                } else {
                    x.append("port='-1' autoport='yes'");
                }
            },
            None => {
                x.append("port='-1' autoport='yes'");
            },
        }
        x.append(" listen='");
        x.append(listen);
        x.append("'>\n  <listen type='address' address='");
        x.append(listen);
        if spice {
            x.append(
                "'/>\n  <image compression='auto_glz'/>\n  <streaming mode='filter'/>\n  <clipboard copypaste='yes'/>\n  <mouse mode='client'/>\n</graphics>",
            );
        } else {
            x.append("'/>\n</graphics>");
        }
        proof {
            assert(x@ =~= graphics_xml(graphics_type@, listen_of(listen_address), port));
        }
        Ok(x)
    }

    /// A primary video device of `model` with `vram` KiB of video memory (64 MiB when
    /// none is given) and `heads` outputs (one when none is given).
    pub fn video_definition(model: &str, vram: Option<u32>, heads: Option<u32>, acceleration_3d: bool) -> (r: Result<String, AppError>)
        requires
            model@ == "qxl"@ ==> opt_or(vram, DEFAULT_VRAM_KIB) * 2 <= u32::MAX,
        ensures
            match r {
                Ok(x) => listed(model@, video_models()) && x@ == video_xml(
                    model@,
                    opt_or(vram, DEFAULT_VRAM_KIB) as nat,
                    opt_or(heads, 1) as nat,
                    acceleration_3d,
                ),
                Err(e) => !listed(model@, video_models()) && e is InvalidConfig,
            },
    {
        let models = ["virtio", "qxl", "vga", "bochs", "ramfb", "cirrus"];
        proof {
            assert(models@ =~= video_models());
        }
        check_choice(model, "video model", models.as_slice())?;
        let vram_kb: u32 = match vram {
            Some(v) => v,
            None => DEFAULT_VRAM_KIB,
        };
        let heads_count: u32 = match heads {
            Some(h) => h,
            None => 1,
        };
        let mut x: String;
        if str_eq(model, "virtio") {
            x = String::from_str("<video>\n  <model type='virtio' heads='");
            push_dec(&mut x, heads_count as u64);
            x.append("' primary='yes'");
            x.append(if acceleration_3d {
                " accel3d='yes'"
            } else {
                ""
            });
            x.append(">\n    <acceleration accel3d='");
            x.append(if acceleration_3d {
                "yes"
            } else {
                "no"
            });
            x.append("'/>\n  </model>\n</video>");
        } else if str_eq(model, "qxl") {
            x = String::from_str("<video>\n  <model type='qxl' ram='");
            push_dec(&mut x, (vram_kb * 2) as u64);
            x.append("' vram='");
            push_dec(&mut x, vram_kb as u64);
            x.append("' vgamem='16384' heads='");
            push_dec(&mut x, heads_count as u64);
            x.append("' primary='yes'/>\n</video>");
        } else if str_eq(model, "ramfb") {
            x = String::from_str("<video>\n  <model type='ramfb' primary='yes'/>\n</video>");
        } else {
            x = String::from_str("<video>\n  <model type='");
            x.append(model);
            x.append("' vram='");
            push_dec(&mut x, vram_kb as u64);
            x.append("' heads='");
            push_dec(&mut x, heads_count as u64);
            x.append("' primary='yes'/>\n</video>");
        }
        proof {
            assert(x@ =~= video_xml(model@, vram_kb as nat, heads_count as nat, acceleration_3d));
        }
        Ok(x)
    }

    /// A guest panic notifier of `model`; only a stopped VM takes one.
    pub fn panic_notifier_definition(model: &str, is_running: bool) -> (r: Result<String, AppError>)
        ensures
            match r {
                Ok(x) => !is_running && listed(model@, seq!["isa", "hyperv", "pseries"]) && x@ == "<panic model='"@
                    + model@ + "'/>\n"@,
                Err(e) => match e {
                    AppError::InvalidConfig(m) => if is_running {
                        m@ == refusal_text("panic notifier"@, true)
                    } else {
                        !listed(model@, seq!["isa", "hyperv", "pseries"]) && m@ == "Invalid panic notifier model '"@
                            + model@ + "'. Valid options: isa, hyperv, pseries"@
                    },
                    _ => false,
                },
            },
    {
        if is_running {
            return Err(Self::running_refusal("panic notifier", true));
        }
        let models = ["isa", "hyperv", "pseries"];
        proof {
            assert(models@ =~= seq!["isa", "hyperv", "pseries"]);
        }
        if check_choice(model, "panic notifier model", models.as_slice()).is_err() {
            let mut m = String::from_str("Invalid panic notifier model '");
            m.append(model);
            m.append("'. Valid options: isa, hyperv, pseries");
            return Err(AppError::InvalidConfig(m));
        }
        let mut x = String::from_str("<panic model='");
        x.append(model);
        x.append("'/>\n");
        Ok(x)
    }

    /// A VirtIO VSOCK device with context id `cid`; ids 0, 1 and 2 are reserved.
    pub fn vsock_definition(cid: u32) -> (r: Result<String, AppError>)
        ensures
            match r {
                Ok(x) => cid >= 3 && x@ == "<vsock model='virtio'>\n  <cid auto='no' value='"@ + dec(cid as nat)
                    + "'/>\n</vsock>"@,
                Err(e) => cid < 3 && (e matches AppError::InvalidConfig(m) && m@ == "Invalid VSOCK CID "@ + dec(
                    cid as nat,
                ) + ". CID must be >= 3 (0, 1, 2 are reserved)"@),
            },
    {
        if cid < 3 {
            let mut m = String::from_str("Invalid VSOCK CID ");
            push_dec(&mut m, cid as u64);
            m.append(". CID must be >= 3 (0, 1, 2 are reserved)");
            return Err(AppError::InvalidConfig(m));
        }
        let mut x = String::from_str("<vsock model='virtio'>\n  <cid auto='no' value='");
        push_dec(&mut x, cid as u64);
        x.append("'/>\n</vsock>");
        Ok(x)
    }

    /// A parallel port on a pseudo-terminal at `target_port`; only a stopped VM takes
    /// one.
    pub fn parallel_definition(target_port: u32, is_running: bool) -> (r: Result<String, AppError>)
        ensures
            match r {
                Ok(x) => !is_running && x@ == "<parallel type='pty'>\n  <target port='"@ + dec(target_port as nat)
                    + "'/>\n</parallel>"@,
                Err(e) => is_running && (e matches AppError::InvalidConfig(m) && m@ == refusal_text(
                    "parallel port"@,
                    true,
                )),
            },
    {
        if is_running {
            return Err(Self::running_refusal("parallel port", true));
        }
        let mut x = String::from_str("<parallel type='pty'>\n  <target port='");
        push_dec(&mut x, target_port as u64);
        x.append("'/>\n</parallel>");
        Ok(x)
    }

    /// A smartcard reader: the host's reader passed through, or one emulated from the
    /// host's certificate database; only a stopped VM takes one.
    pub fn smartcard_definition(mode: &str, is_running: bool) -> (r: Result<String, AppError>)
        ensures
            match r {
                Ok(x) => !is_running && (mode@ == "passthrough"@ || mode@ == "emulated"@) && x@ == (if mode@
                    == "passthrough"@ {
                    "<smartcard mode='passthrough' type='spicevmc'>\n  <address type='ccid' controller='0' slot='0'/>\n</smartcard>"@
                } else {
                    "<smartcard mode='host-certificates'>\n  <certificate>cert1</certificate>\n  <certificate>cert2</certificate>\n  <certificate>cert3</certificate>\n  <database>/etc/pki/nssdb</database>\n  <address type='ccid' controller='0' slot='0'/>\n</smartcard>"@
                }),
                Err(e) => match e {
                    AppError::InvalidConfig(m) => if is_running {
                        m@ == refusal_text("smartcard"@, true)
                    } else {
                        !(mode@ == "passthrough"@ || mode@ == "emulated"@) && m@ == "Invalid smartcard mode '"@
                            + mode@ + "'. Valid options: passthrough, emulated"@
                    },
                    _ => false,
                },
            },
    {
        if is_running {
            return Err(Self::running_refusal("smartcard", true));
        }
        if str_eq(mode, "passthrough") {
            return Ok(
                String::from_str(
                    "<smartcard mode='passthrough' type='spicevmc'>\n  <address type='ccid' controller='0' slot='0'/>\n</smartcard>",
                ),
            );
        }
        if str_eq(mode, "emulated") {
            return Ok(
                String::from_str(
                    "<smartcard mode='host-certificates'>\n  <certificate>cert1</certificate>\n  <certificate>cert2</certificate>\n  <certificate>cert3</certificate>\n  <database>/etc/pki/nssdb</database>\n  <address type='ccid' controller='0' slot='0'/>\n</smartcard>",
                ),
            );
        }
        let mut m = String::from_str("Invalid smartcard mode '");
        m.append(mode);
        m.append("'. Valid options: passthrough, emulated");
        Err(AppError::InvalidConfig(m))
    }

    /// The number of vCPUs of a topology: sockets times cores times threads, refused when
    /// sockets times cores, or the whole product, does not fit in 32 bits.
    pub fn topology_vcpus(sockets: u32, cores: u32, threads: u32) -> (r: Result<u32, AppError>)
        ensures
            match r {
                Ok(n) => sockets * cores <= u32::MAX && n == sockets * cores * threads,
                Err(e) => (sockets * cores > u32::MAX || sockets * cores * threads > u32::MAX) && (e matches AppError::InvalidConfig(m)
                    && m@ == "CPU topology is too large"@),
            },
    {
        let too_large = "CPU topology is too large";
        match sockets.checked_mul(cores) {
            Some(sc) => match sc.checked_mul(threads) {
                Some(n) => Ok(n),
                None => Err(AppError::InvalidConfig(String::from_str(too_large))),
            },
            None => Err(AppError::InvalidConfig(String::from_str(too_large))),
        }
    }

    /// The value to write into the `<memory>` element for `memory_mb` MiB, in the unit the
    /// definition uses (KiB when it names none).
    pub fn memory_setting(xml: &str, memory_mb: u64) -> (r: Result<u64, AppError>)
        requires
            memory_mb * 1024 <= u64::MAX,
        ensures
            match r {
                Ok(v) => root_ok(xml@, "domain"@) && memory_in_unit(memory_unit(xml@), memory_mb as nat) == Some(
                    v as nat,
                ),
                Err(e) => match e {
                    AppError::InvalidConfig(m) => !root_ok(xml@, "domain"@) || (memory_in_unit(
                        memory_unit(xml@),
                        memory_mb as nat,
                    ) is None && m@ == "VM memory unit is not supported"@),
                    _ => false,
                },
            },
    {
        let memory_kb = memory_mb * 1024;
        let unit = match first_element_attribute(xml, "domain", "memory", "unit")? {
            Some(u) => u,
            None => String::from_str("KiB"),
        };
        if str_eq(unit.as_str(), "KiB") {
            Ok(memory_kb)
        } else if str_eq(unit.as_str(), "MiB") {
            Ok(memory_mb)
        } else if str_eq(unit.as_str(), "GiB") && memory_mb % 1024 == 0 {
            Ok(memory_mb / 1024)
        } else {
            Err(AppError::InvalidConfig(String::from_str("VM memory unit is not supported")))
        }
    }

    /// The CPU mode of a definition (`host-passthrough` when it names none) and, for the
    /// custom mode, the model name.
    pub fn cpu_model_config(xml: &str) -> (r: Result<CpuModelConfig, AppError>)
        ensures
            match r {
                Ok(c) => root_ok(xml@, "domain"@) && (c.mode@, opt_view(c.model)) == cpu_model_of(xml@),
                Err(e) => !root_ok(xml@, "domain"@) && e is InvalidConfig,
            },
    {
        let mode = match first_element_attribute(xml, "domain", "cpu", "mode")? {
            Some(m) => m,
            None => String::from_str("host-passthrough"),
        };
        let model = if str_eq(mode.as_str(), "custom") {
            match first_element_text(xml, "domain", "model")? {
                Some(t) => Some(trim_string(t.as_str())),
                None => None,
            }
        } else {
            None
        };
        Ok(CpuModelConfig { mode, model })
    }

    /// The direct kernel boot settings a definition states; they count as enabled when a
    /// kernel, an initrd or a command line is given.
    pub fn kernel_boot_settings(xml: &str) -> (r: Result<KernelBootSettings, AppError>)
        ensures
            match r {
                Ok(k) => root_ok(xml@, "domain"@) && (
                    k.enabled,
                    opt_view(k.kernel_path),
                    opt_view(k.initrd_path),
                    opt_view(k.kernel_args),
                    opt_view(k.dtb_path),
                ) == kernel_boot_of(xml@),
                Err(e) => !root_ok(xml@, "domain"@) && e is InvalidConfig,
            },
    {
        let kernel_path = first_element_text(xml, "domain", "kernel")?;
        let initrd_path = first_element_text(xml, "domain", "initrd")?;
        let kernel_args = first_element_text(xml, "domain", "cmdline")?;
        let dtb_path = first_element_text(xml, "domain", "dtb")?;
        let enabled = kernel_path.is_some() || initrd_path.is_some() || kernel_args.is_some();
        Ok(KernelBootSettings { enabled, kernel_path, initrd_path, kernel_args, dtb_path })
    }

    /// The `<kernel>`, `<initrd>`, `<cmdline>` and `<dtb>` elements written for kernel
    /// boot settings: each only when enabled and its value is given and not empty.
    pub fn kernel_boot_elements(settings: &KernelBootSettings) -> (r: Result<
        (Option<String>, Option<String>, Option<String>, Option<String>),
        AppError,
    >)
        ensures
            match r {
                Ok(x) => {
                    let en = settings.enabled;
                    &&& !boot_value_bad(en, opt_view(settings.kernel_path))
                    &&& !boot_value_bad(en, opt_view(settings.initrd_path))
                    &&& !boot_value_bad(en, opt_view(settings.kernel_args))
                    &&& !boot_value_bad(en, opt_view(settings.dtb_path))
                    &&& opt_view(x.0) == boot_element(en, opt_view(settings.kernel_path), "kernel"@)
                    &&& opt_view(x.1) == boot_element(en, opt_view(settings.initrd_path), "initrd"@)
                    &&& opt_view(x.2) == boot_element(en, opt_view(settings.kernel_args), "cmdline"@)
                    &&& opt_view(x.3) == boot_element(en, opt_view(settings.dtb_path), "dtb"@)
                },
                Err(e) => e is InvalidConfig && (boot_value_bad(settings.enabled, opt_view(settings.kernel_path))
                    || boot_value_bad(settings.enabled, opt_view(settings.initrd_path)) || boot_value_bad(
                    settings.enabled,
                    opt_view(settings.kernel_args),
                ) || boot_value_bad(settings.enabled, opt_view(settings.dtb_path))),
            },
    {
        let en = settings.enabled;
        let k = boot_element_exec(en, &settings.kernel_path, "kernel", "kernel path")?;
        let i = boot_element_exec(en, &settings.initrd_path, "initrd", "initrd path")?;
        let c = boot_element_exec(en, &settings.kernel_args, "cmdline", "kernel command line")?;
        let d = boot_element_exec(en, &settings.dtb_path, "dtb", "device tree path")?;
        Ok((k, i, c, d))
    }

    /// The CPU models the host offers: the non-blank lines of the `virsh cpu-models`
    /// output, trimmed, when the command succeeded, else a fixed list of common models.
    pub fn available_cpu_models(success: bool, stdout: &str) -> (r: Vec<String>)
        ensures
            strings_view(r@) == (if success {
                nonblank_trimmed(lines(stdout@))
            } else {
                fallback_cpu_models()
            }),
    {
        let mut out: Vec<String> = Vec::new();
        if !success {
            let models = [
                "qemu64", "qemu32", "Nehalem", "Westmere", "SandyBridge", "IvyBridge", "Haswell",
                "Broadwell", "Skylake-Client", "Skylake-Server", "Cascadelake-Server", "Icelake-Client",
                "Icelake-Server", "Cooperlake", "EPYC", "EPYC-Rome", "EPYC-Milan",
            ];
            let mut k: usize = 0;
            while k < 17
                invariant
                    k <= 17,
                    models@.len() == 17,
                    strings_view(out@) == models@.take(k as int).map_values(|m: &str| m@),
                decreases 17 - k,
            {
                push_static(&mut out, models[k]);
                proof {
                    assert(models@.take(k + 1).map_values(|m: &str| m@) =~= models@.take(k as int).map_values(
                        |m: &str| m@,
                    ).push(models@[k as int]@));
                }
                k = k + 1;
            }
            proof {
                assert(models@.take(17).map_values(|m: &str| m@) =~= fallback_cpu_models());
            }
            return out;
        }
        let ls = split_lines(stdout);
        let ghost all = lines_view(ls@);
        let mut k: usize = 0;
        while k < ls.len()
            invariant
                k <= ls@.len(),
                all == lines_view(ls@),
                all == lines(stdout@),
                strings_view(out@) == nonblank_trimmed(all.take(k as int)),
            decreases ls@.len() - k,
        {
            let line = &ls[k];
            let (a, b) = trim_bounds(line.as_slice(), 0, line.len());
            proof {
                assert(line@.subrange(0, line@.len() as int) =~= line@);
                assert(all.take(k + 1).drop_last() =~= all.take(k as int));
                assert(all.take(k + 1).last() == line@);
            }
            if a < b {
                let ghost before = out@;
                out.push(string_of(line.as_slice(), a, b));
                proof {
                    assert(strings_view(out@) =~= strings_view(before).push(trim(line@)));
                }
            }
            k = k + 1;
        }
        proof {
            assert(all.take(ls@.len() as int) =~= all);
        }
        out
    }

    /// Whether a VM can be migrated, and what may get in the way, read line by line from
    /// its definition: passed-through PCI or mediated devices rule migration out; local
    /// disk files, passed-through USB devices and a TPM raise warnings.
    pub fn check_migration_compatibility(xml: &str) -> (r: (bool, Vec<String>))
        ensures
            (r.0, strings_view(r.1@)) == compatibility_of(lines(xml@)),
    {
        let ls = split_lines(xml);
        let ghost all = lines_view(ls@);
        let mut can_migrate = true;
        let mut warnings: Vec<String> = Vec::new();
        let mut k: usize = 0;
        while k < ls.len()
            invariant
                k <= ls@.len(),
                all == lines_view(ls@),
                all == lines(xml@),
                (can_migrate, strings_view(warnings@)) == compatibility_of(all.take(k as int)),
            decreases ls@.len() - k,
        {
            proof {
                assert(all.take(k + 1).drop_last() =~= all.take(k as int));
                assert(all.take(k + 1).last() == ls@[k as int]@);
            }
            let blocks = line_compatibility(&ls[k], &mut warnings);
            if blocks {
                can_migrate = false;
            }
            k = k + 1;
        }
        proof {
            assert(all.take(ls@.len() as int) =~= all);
        }
        (can_migrate, warnings)
    }

    /// The huge-page backing a definition states, or `None` when its page size does not
    /// fit in 64 bits.
    pub fn read_hugepages_settings(xml: &str) -> (r: Option<HugepagesSettings>)
        ensures
            match r {
                Some(h) => hugepages_fit(xml@) && (h.enabled, opt_u64_int(h.size)) == hugepages_of(xml@),
                None => !hugepages_fit(xml@),
            },
    {
        let v = chars_of(xml);
        let len = v.len();
        let enabled = contains_str(v.as_slice(), "<hugepages");
        if !enabled {
            return Some(HugepagesSettings { enabled, size: None });
        }
        proof {
            reveal_strlit("<page size='");
            reveal_strlit("'");
        }
        let ps = match find_str(v.as_slice(), "<page size='") {
            Some(x) => x,
            None => return Some(HugepagesSettings { enabled, size: None }),
        };
        assert(ps + 12 <= len);
        let rest = copy_range(v.as_slice(), ps + 12, len);
        let e = match find_str(rest.as_slice(), "'") {
            Some(x) => x,
            None => return Some(HugepagesSettings { enabled, size: None }),
        };
        let n = match parse_unsigned_range(rest.as_slice(), 0, e, u64::MAX) {
            Some(n) => n,
            None => return Some(HugepagesSettings { enabled, size: None }),
        };
        let size = if contains_str(rest.as_slice(), "unit='KiB'") || contains_str(rest.as_slice(), "unit='kib'") {
            Some(n)
        } else if contains_str(rest.as_slice(), "unit='MiB'") || contains_str(rest.as_slice(), "unit='mib'") {
            match n.checked_mul(1024) {
                Some(x) => Some(x),
                None => return None,
            }
        } else if contains_str(rest.as_slice(), "unit='GiB'") || contains_str(rest.as_slice(), "unit='gib'") {
            match n.checked_mul(1048576) {
                Some(x) => Some(x),
                None => return None,
            }
        } else {
            None
        };
        Some(HugepagesSettings { enabled, size })
    }

    /// The huge-page backing a definition states: whether it uses huge pages and, when a
    /// page size can be read, that size in KiB.
    pub fn get_hugepages_settings(xml: &str) -> (r: HugepagesSettings)
        requires
            hugepages_fit(xml@),
        ensures
            (r.enabled, opt_u64_int(r.size)) == hugepages_of(xml@),
    {
        match Self::read_hugepages_settings(xml) {
            Some(h) => h,
            None => HugepagesSettings { enabled: false, size: None },
        }
    }

    /// The `<memoryBacking>` element that enables huge pages (of `size` KiB, or of the
    /// default size), `None` to remove it; only a stopped VM can be changed.
    pub fn hugepages_backing(enabled: bool, size: Option<u64>, is_running: bool) -> (r: Result<Option<String>, AppError>)
        ensures
            match r {
                Ok(o) => !is_running && opt_view(o) == (if enabled {
                    Some(memory_backing_xml(size))
                } else {
                    None
                }),
                Err(e) => is_running && (e matches AppError::InvalidConfig(m) && m@
                    == "Cannot change hugepages while VM is running. Stop the VM first."@),
            },
    {
        if is_running {
            return Err(AppError::InvalidConfig(String::from_str("Cannot change hugepages while VM is running. Stop the VM first.")));
        }
        if !enabled {
            return Ok(None);
        }
        match size {
            Some(n) => {
                let mut x = String::from_str("<memoryBacking><hugepages><page size='");
                push_dec(&mut x, n);
                x.append("' unit='KiB'/></hugepages></memoryBacking>");
                Ok(Some(x))
            },
            None => Ok(Some(String::from_str("<memoryBacking><hugepages/></memoryBacking>"))),
        }
    }

    /// The page size in KiB of a `hugepages-<N>kB` directory of the host.
    pub fn hugepage_dir_size(name: &str) -> (r: Option<u64>)
        ensures
            match r {
                Some(n) => hugepage_dir_size(name@) == Some(n as nat),
                None => hugepage_dir_size(name@) is None,
            },
    {
        let v = chars_of(name);
        let n = v.len();
        if n < 12 || !starts_with_str(v.as_slice(), "hugepages-") || !ends_with_str(v.as_slice(), "kB") {
            return None;
        }
        parse_unsigned_range(v.as_slice(), 10, n - 2, u64::MAX)
    }

    /// The huge pages of one size on the host, from the page size and the texts of its
    /// `nr_hugepages` and `free_hugepages` files (a count that cannot be read is zero).
    pub fn hugepage_info(size_kb: u64, total_text: &str, free_text: &str) -> (r: HugepageInfo)
        ensures
            r.size_kb == size_kb,
            r.total == count_of(total_text@),
            r.free == count_of(free_text@),
            r.size_human@ == size_human(size_kb),
    {
        let tt = trim_string(total_text);
        let ft = trim_string(free_text);
        let tv = chars_of(tt.as_str());
        let fv = chars_of(ft.as_str());
        let total = match parse_unsigned_range(tv.as_slice(), 0, tv.len(), u64::MAX) {
            Some(x) => x,
            None => 0,
        };
        let free = match parse_unsigned_range(fv.as_slice(), 0, fv.len(), u64::MAX) {
            Some(x) => x,
            None => 0,
        };
        proof {
            assert(tv@.subrange(0, tv@.len() as int) =~= tv@);
            assert(fv@.subrange(0, fv@.len() as int) =~= fv@);
        }
        HugepageInfo { size_kb, total, free, size_human: Self::format_size_kb(size_kb) }
    }

    /// An input device of the host, listed by its id under `/dev/input/by-id` and the
    /// device path that id leads to.
    pub fn evdev_device(id: &str, path: &str) -> (r: EvdevDevice)
        ensures
            r.id@ == id@,
            r.path@ == path@,
            r.name@ == evdev_friendly(id@),
            r.device_type@ == evdev_kind(id@),
    {
        proof {
            reveal_strlit("usb-");
            reveal_strlit("-event-kbd");
            reveal_strlit("-event-mouse");
            reveal_strlit("-if01-event-mouse");
            reveal_strlit("-if02-event-kbd");
            reveal_strlit("-if02-event-mouse");
            reveal_strlit("_");
        }
        let a = replace_all_str(id, "usb-", "");
        let b = replace_all_str(a.as_str(), "-event-kbd", "");
        let c = replace_all_str(b.as_str(), "-event-mouse", "");
        let d = replace_all_str(c.as_str(), "-if01-event-mouse", "");
        let e = replace_all_str(d.as_str(), "-if02-event-kbd", "");
        let f = replace_all_str(e.as_str(), "-if02-event-mouse", "");
        let name = replace_all_str(f.as_str(), "_", " ");
        let kind = if contains_text(id, "kbd") || contains_text(id, "keyboard") {
            "keyboard"
        } else if contains_text(id, "mouse") {
            "mouse"
        } else if contains_text(id, "joystick") || contains_text(id, "gamepad") {
            "joystick"
        } else {
            "other"
        };
        EvdevDevice {
            id: String::from_str(id),
            path: String::from_str(path),
            name,
            device_type: String::from_str(kind),
        }
    }

    /// The `<input>` element that passes the host's evdev device at `device_path` to a VM,
    /// once it is known whether the device exists.
    pub fn evdev_definition_for(device_path: &str, grab_all: bool, is_running: bool, device_exists: bool) -> (r: Result<
        String,
        AppError,
    >)
        ensures
            result_is(r, evdev_outcome(device_path@, grab_all, is_running, device_exists)),
    {
        if !device_exists {
            let mut m = String::from_str("Evdev device not found: ");
            m.append(device_path);
            return Err(AppError::InvalidConfig(m));
        }
        if is_running {
            return Err(
                AppError::InvalidConfig(
                    String::from_str("Cannot attach evdev device to running VM. Please stop the VM first."),
                ),
            );
        }
        let escaped = escaped_attribute(device_path, "evdev device path")?;
        let input_type = if contains_text(device_path, "kbd") || contains_text(device_path, "keyboard") {
            "keyboard"
        } else if contains_text(device_path, "mouse") {
            "mouse"
        } else {
            "passthrough"
        };
        let mut x = String::from_str("<input type='");
        x.append(input_type);
        x.append("' bus='virtio'>\n  <source dev='");
        x.append(escaped.as_str());
        x.append("'");
        x.append(if grab_all {
            " grab='all'"
        } else {
            ""
        });
        x.append("/>\n</input>");
        Ok(x)
    }

    /// The `<numatune>` element that binds a stopped VM's memory to `nodeset` (node 0 when
    /// none is given) under `mode`.
    pub fn numatune_definition(mode: &str, nodeset: Option<&str>, is_running: bool) -> (r: Result<String, AppError>)
        ensures
            match r {
                Ok(x) => !is_running && numa_mode_ok(mode@) && text_ok(nodeset_of(nodeset)) && x@
                    == "<numatune><memory mode='"@ + escape(mode@) + "' nodeset='"@ + escape(nodeset_of(nodeset))
                    + "'/></numatune>"@,
                Err(e) => match e {
                    AppError::InvalidConfig(m) => if is_running {
                        m@ == "Cannot modify NUMA configuration while VM is running. Please stop the VM first."@
                    } else if !numa_mode_ok(mode@) {
                        m@ == "Invalid NUMA mode '"@ + mode@ + "'. Valid options: strict, preferred, interleave"@
                    } else {
                        !text_ok(nodeset_of(nodeset)) || !text_ok(mode@)
                    },
                    _ => false,
                },
            },
    {
        if is_running {
            return Err(
                AppError::InvalidConfig(
                    String::from_str(
                        "Cannot modify NUMA configuration while VM is running. Please stop the VM first.",
                    ),
                ),
            );
        }
        if !(str_eq(mode, "strict") || str_eq(mode, "preferred") || str_eq(mode, "interleave")) {
            let mut m = String::from_str("Invalid NUMA mode '");
            m.append(mode);
            m.append("'. Valid options: strict, preferred, interleave");
            return Err(AppError::InvalidConfig(m));
        }
        let nodes: &str = match nodeset {
            Some(n) => n,
            None => "0",
        };
        let em = escaped_attribute(mode, "NUMA mode")?;
        let en = escaped_attribute(nodes, "NUMA nodeset")?;
        let mut x = String::from_str("<numatune><memory mode='");
        x.append(em.as_str());
        x.append("' nodeset='");
        x.append(en.as_str());
        x.append("'/></numatune>");
        Ok(x)
    }

    /// The NUMA cell ids listed in host capabilities, in order: one for each trimmed line
    /// that starts with `<cell id=` and carries a readable id.
    pub fn numa_cell_ids(caps_xml: &str) -> (r: Vec<u32>)
        ensures
            r@ == cell_ids(lines(caps_xml@)),
    {
        let ls = split_lines(caps_xml);
        let ghost all = lines_view(ls@);
        let mut out: Vec<u32> = Vec::new();
        let mut k: usize = 0;
        while k < ls.len()
            invariant
                k <= ls@.len(),
                all == lines_view(ls@),
                all == lines(caps_xml@),
                out@ == cell_ids(all.take(k as int)),
            decreases ls@.len() - k,
        {
            proof {
                assert(all.take(k + 1).drop_last() =~= all.take(k as int));
                assert(all.take(k + 1).last() == ls@[k as int]@);
            }
            match cell_id_exec(&ls[k]) {
                Some(n) => out.push(n),
                None => {},
            }
            k = k + 1;
        }
        proof {
            assert(all.take(ls@.len() as int) =~= all);
        }
        out
    }

    /// The node id of a `node<N>` directory of the host.
    pub fn numa_node_dir_id(name: &str) -> (r: Option<u32>)
        ensures
            match r {
                Some(n) => numa_node_dir_id(name@) == Some(n as nat),
                None => numa_node_dir_id(name@) is None,
            },
    {
        let v = chars_of(name);
        let n = v.len();
        if !starts_with_str(v.as_slice(), "node") {
            return None;
        }
        proof {
            reveal_strlit("node");
        }
        match parse_unsigned_range(v.as_slice(), 4, n, u32::MAX as u64) {
            Some(x) => Some(x as u32),
            None => None,
        }
    }

    /// The memory of a NUMA node in MiB, from the text of its `meminfo` file.
    pub fn node_memory_mb(meminfo: &str) -> (r: u64)
        ensures
            r == node_memory_mb(meminfo@),
    {
        let ls = split_lines(meminfo);
        let ghost all = lines_view(ls@);
        let mut k: usize = 0;
        assert(all.skip(0) =~= all);
        while k < ls.len()
            invariant
                k <= ls@.len(),
                all == lines_view(ls@),
                all == lines(meminfo@),
                first_line_with(all, "MemTotal:"@) == first_line_with(all.skip(k as int), "MemTotal:"@),
            decreases ls@.len() - k,
        {
            let line = &ls[k];
            proof {
                assert(all.skip(k as int)[0] == line@);
                assert(all.skip(k as int).drop_first() =~= all.skip(k + 1));
            }
            if contains_str(line.as_slice(), "MemTotal:") {
                let w = split_whitespace(line.as_slice());
                if w.len() > 3 {
                    proof {
                        assert(lines_view(w@)[3] == w@[3]@);
                        assert(w@[3]@.subrange(0, w@[3]@.len() as int) =~= w@[3]@);
                    }
                    return match parse_unsigned_range(w[3].as_slice(), 0, w[3].len(), u64::MAX) {
                        Some(kb) => kb / 1024,
                        None => 0,
                    };
                }
                return 0;
            }
            k = k + 1;
        }
        0
    }

    /// The arguments of `virsh domiftune` that apply bandwidth limits to `target_dev`
    /// of `vm_name` live: one `--inbound` or `--outbound` pair for each direction whose
    /// average is given.
    pub fn domiftune_args(
        vm_name: &str,
        target_dev: &str,
        inbound_average: Option<u64>,
        inbound_peak: Option<u64>,
        inbound_burst: Option<u64>,
        outbound_average: Option<u64>,
        outbound_peak: Option<u64>,
        outbound_burst: Option<u64>,
    ) -> (r: Vec<String>)
        requires
            tune_fits(inbound_average, inbound_peak),
            tune_fits(outbound_average, outbound_peak),
        ensures
            strings_view(r@) == seq!["domiftune"@, vm_name@, target_dev@] + tune_args(
                "--inbound"@,
                inbound_average,
                inbound_peak,
                inbound_burst,
            ) + tune_args("--outbound"@, outbound_average, outbound_peak, outbound_burst),
    {
        let mut args: Vec<String> = Vec::new();
        push_static(&mut args, "domiftune");
        push_static(&mut args, vm_name);
        push_static(&mut args, target_dev);
        let ghost base = strings_view(args@);
        match inbound_average {
            Some(a) => {
                push_static(&mut args, "--inbound");
                let v = tune_text(a, inbound_peak, inbound_burst);
                let ghost before = args@;
                args.push(v);
                proof {
                    assert(strings_view(args@) =~= strings_view(before).push(tune_value(a, inbound_peak, inbound_burst)));
                }
            },
            None => {},
        }
        let ghost mid = strings_view(args@);
        match outbound_average {
            Some(a) => {
                push_static(&mut args, "--outbound");
                let v = tune_text(a, outbound_peak, outbound_burst);
                let ghost before = args@;
                args.push(v);
                proof {
                    assert(strings_view(args@) =~= strings_view(before).push(tune_value(a, outbound_peak, outbound_burst)));
                }
            },
            None => {},
        }
        proof {
            assert(strings_view(args@) =~= seq!["domiftune"@, vm_name@, target_dev@] + tune_args(
                "--inbound"@,
                inbound_average,
                inbound_peak,
                inbound_burst,
            ) + tune_args("--outbound"@, outbound_average, outbound_peak, outbound_burst));
        }
        args
    }

    /// The device name a live interface change is applied to: the interface's target
    /// device, else its MAC address without colons.
    pub fn interface_target_dev(target: Option<&str>, mac_address: &str) -> (r: String)
        ensures
            r@ == match target {
                Some(t) => t@,
                None => replace_all(mac_address@, ":"@, ""@),
            },
    {
        match target {
            Some(t) => String::from_str(t),
            None => {
                proof {
                    reveal_strlit(":");
                }
                replace_all_str(mac_address, ":", "")
            },
        }
    }

    /// Whether an interface's link is up: as `virsh domif-getlink` reports it for a running
    /// VM (up unless it says `down`), else as the definition states it (up unless `down`),
    /// and up when neither says.
    pub fn link_is_up(live_output: Option<&str>, configured_state: Option<&str>) -> (r: bool)
        ensures
            r == match live_output {
                Some(o) => !contains(o@, "down"@),
                None => match configured_state {
                    Some(st) => st@ != "down"@,
                    None => true,
                },
            },
    {
        match live_output {
            Some(o) => !contains_text(o, "down"),
            None => match configured_state {
                Some(st) => !str_eq(st, "down"),
                None => true,
            },
        }
    }

    /// Whether a VM may be attached directly to the host interface `name`.
    pub fn host_interface_listed(name: &str) -> (r: bool)
        ensures
            r == host_interface_listed(name@),
    {
        let v = chars_of(name);
        !(str_eq(name, "lo") || starts_with_str(v.as_slice(), "virbr") || starts_with_str(v.as_slice(), "veth")
            || starts_with_str(v.as_slice(), "docker") || starts_with_str(v.as_slice(), "br-")
            || starts_with_str(v.as_slice(), "vnet"))
    }
}

} // verus!
