//! The devices a VM can be given after it is created: each request is checked against
//! the values libvirt knows, and turned into the device element handed to libvirt.
use crate::error::AppError;
use crate::text::{chars_of, char_is_alnum, contains, contains_str, dec, fmt_u64, is_alnum, str_eq};
use crate::vm::{one_of, VmService};
use crate::xml::{escape, escaped_attribute, text_ok};
use vstd::prelude::*;

verus! {

/// `value` is one of `allowed`.
pub open spec fn listed(value: Seq<char>, allowed: Seq<&str>) -> bool {
    exists|i: int| 0 <= i < allowed.len() && allowed[i]@ == value
}

/// A disk target name: 1 to 32 ASCII letters, digits or hyphens.
pub open spec fn disk_target_ok(t: Seq<char>) -> bool {
    0 < t.len() <= 32 && forall|i: int| 0 <= i < t.len() ==> is_alnum(#[trigger] t[i]) || t[i] == '-'
}

pub open spec fn disk_bus_ok(b: Seq<char>) -> bool {
    b == "virtio"@ || b == "scsi"@ || b == "sata"@ || b == "ide"@ || b == "nvme"@
}

/// A QCOW2 file disk on `bus`.
pub open spec fn disk_xml(path: Seq<char>, target: Seq<char>, bus: Seq<char>) -> Seq<char> {
    "<disk type='file' device='disk'>\n  <driver name='qemu' type='qcow2'/>\n  <source file='"@ + path
        + "'/>\n  <target dev='"@ + target + "' bus='"@ + bus + "'/>\n</disk>"@
}

/// A read-only raw CD-ROM holding an image.
pub open spec fn cdrom_xml(path: Seq<char>, target: Seq<char>, bus: Seq<char>) -> Seq<char> {
    "<disk type='file' device='cdrom'>\n  <driver name='qemu' type='raw'/>\n  <source file='"@ + path
        + "'/>\n  <target dev='"@ + target + "' bus='"@ + bus + "'/>\n  <readonly/>\n</disk>"@
}

/// The refusal of a change that needs the VM stopped.
pub open spec fn refusal_text(what: Seq<char>, add: bool) -> Seq<char> {
    if add {
        "Cannot add "@ + what + " to running VM. Please stop the VM first."@
    } else {
        "Cannot remove "@ + what + " from running VM. Please stop the VM first."@
    }
}

/// Number of non-overlapping occurrences of `p` in `s` from `i` on.
pub open spec fn count_from(s: Seq<char>, p: Seq<char>, i: int) -> nat
    decreases s.len() - i,
{
    if i < 0 || p.len() == 0 {
        0
    } else {
        match crate::text::find_from(s, p, i) {
            Some(j) => if j + p.len() > i && j + p.len() <= s.len() {
                1 + count_from(s, p, j + p.len())
            } else {
                0
            },
            None => 0,
        }
    }
}

/// The allowed values, each in double quotes, separated by `, `.
pub open spec fn quoted_list(allowed: Seq<Seq<char>>) -> Seq<char>
    decreases allowed.len(),
{
    if allowed.len() == 0 {
        Seq::empty()
    } else if allowed.len() == 1 {
        "\""@ + allowed[0] + "\""@
    } else {
        quoted_list(allowed.drop_last()) + ", "@ + "\""@ + allowed.last() + "\""@
    }
}

/// The refusal of a value that is not among the allowed ones:
/// `Invalid LABEL 'VALUE'. Valid options: ["A", "B"]`.
pub open spec fn choice_message(label: Seq<char>, value: Seq<char>, allowed: Seq<Seq<char>>) -> Seq<char> {
    "Invalid "@ + label + " '"@ + value + "'. Valid options: ["@ + quoted_list(allowed) + "]"@
}

pub open spec fn str_views(allowed: Seq<&str>) -> Seq<Seq<char>> {
    allowed.map_values(|a: &str| a@)
}

pub(crate) fn choice_error(label: &str, value: &str, allowed: &[&str]) -> (e: AppError)
    ensures
        e matches AppError::InvalidConfig(m) && m@ == choice_message(label@, value@, str_views(allowed@)),
{
    let mut m = String::from_str("Invalid ");
    m.append(label);
    m.append(" '");
    m.append(value);
    m.append("'. Valid options: [");
    let ghost prefix = m@;
    let ghost all = str_views(allowed@);
    let mut i: usize = 0;
    proof {
        assert(all.take(0) =~= Seq::<Seq<char>>::empty());
    }
    while i < allowed.len()
        invariant
            i <= allowed@.len(),
            all == str_views(allowed@),
            m@ == prefix + quoted_list(all.take(i as int)),
        decreases allowed@.len() - i,
    {
        let ghost before = m@;
        if i > 0 {
            m.append(", ");
        }
        m.append("\"");
        m.append(allowed[i]);
        m.append("\"");
        proof {
            let t = all.take(i + 1);
            assert(t.drop_last() =~= all.take(i as int));
            assert(t.last() == allowed@[i as int]@);
            if i == 0 {
                assert(m@ =~= prefix + quoted_list(t));
            } else {
                assert(m@ =~= prefix + quoted_list(t));
            }
        }
        i = i + 1;
    }
    proof {
        assert(all.take(allowed@.len() as int) =~= all);
    }
    m.append("]");
    proof {
        assert(m@ =~= choice_message(label@, value@, all));
    }
    AppError::InvalidConfig(m)
}

pub(crate) fn check_choice(value: &str, label: &str, allowed: &[&str]) -> (r: Result<(), AppError>)
    ensures
        r is Ok <==> listed(value@, allowed@),
        r matches Err(e) ==> (e matches AppError::InvalidConfig(m) && m@ == choice_message(
            label@,
            value@,
            str_views(allowed@),
        )),
{
    if one_of(value, allowed) {
        Ok(())
    } else {
        Err(choice_error(label, value, allowed))
    }
}

fn with_port(prefix: &str, port: u32, suffix: &str) -> (r: String)
    ensures
        r@ == prefix@ + dec(port as nat) + suffix@,
{
    let mut x = String::from_str(prefix);
    x.append(fmt_u64(port as u64).as_str());
    x.append(suffix);
    x
}

/// A result is the outcome: the element built, or `InvalidConfig` with the message.
pub open spec fn result_is(r: Result<String, AppError>, outcome: Result<Seq<char>, Seq<char>>) -> bool {
    match r {
        Ok(x) => outcome == Ok::<Seq<char>, Seq<char>>(x@),
        Err(e) => e matches AppError::InvalidConfig(m) && outcome == Err::<Seq<char>, Seq<char>>(m@),
    }
}

/// What sharing `source` at `target` as `fs_type` gives: the `<filesystem>` element, or
/// the message of the refusal (a source that does not exist first, then an unknown type).
pub open spec fn filesystem_outcome(
    source: Seq<char>,
    target: Seq<char>,
    fs_type: Seq<char>,
    readonly: bool,
    source_exists: bool,
) -> Result<Seq<char>, Seq<char>> {
    if !source_exists {
        Err("Source path '"@ + source + "' does not exist"@)
    } else if fs_type == "virtio-9p"@ {
        Ok(
            "<filesystem type='mount' accessmode='mapped'>\n  <source dir='"@ + source + "'/>\n  <target dir='"@ + target
                + "'/>\n</filesystem>"@,
        )
    } else if fs_type == "virtiofs"@ {
        Ok(
            "<filesystem type='mount'>\n  <driver type='virtiofs'"@ + (if readonly {
                " readonly='yes'"@
            } else {
                Seq::empty()
            }) + " queue='1024'/>\n  <source dir='"@ + source + "'/>\n  <target dir='"@ + target + "'/>\n</filesystem>"@,
        )
    } else {
        Err("Invalid filesystem type '"@ + fs_type + "'. Valid options: virtio-9p, virtiofs"@)
    }
}

impl VmService {
    /// The refusal of a change that needs the VM stopped: `Cannot add (or remove) WHAT
    /// to (from) running VM. Please stop the VM first.`
    pub fn running_refusal(what: &str, add: bool) -> (e: AppError)
        ensures
            e matches AppError::InvalidConfig(m) && m@ == refusal_text(what@, add),
    {
        let mut m = String::from_str(if add {
            "Cannot add "
        } else {
            "Cannot remove "
        });
        m.append(what);
        m.append(if add {
            " to running VM. Please stop the VM first."
        } else {
            " from running VM. Please stop the VM first."
        });
        AppError::InvalidConfig(m)
    }

    /// A QCOW2 disk file attached on `bus_type` as `device_target`.
    pub fn disk_definition(disk_path: &str, device_target: &str, bus_type: &str) -> (r: Result<String, AppError>)
        ensures
            match r {
                Ok(x) => disk_bus_ok(bus_type@) && disk_target_ok(device_target@) && text_ok(disk_path@) && x@
                    == disk_xml(escape(disk_path@), device_target@, bus_type@),
                Err(e) => !(disk_bus_ok(bus_type@) && disk_target_ok(device_target@) && text_ok(disk_path@))
                    && e is InvalidConfig,
            },
    {
        let buses = ["virtio", "scsi", "sata", "ide", "nvme"];
        if !one_of(bus_type, buses.as_slice()) {
            proof {
                assert(buses@[0]@ == "virtio"@ && buses@[1]@ == "scsi"@ && buses@[2]@ == "sata"@);
                assert(buses@[3]@ == "ide"@ && buses@[4]@ == "nvme"@);
            }
            let mut m = String::from_str("Invalid bus type '");
            m.append(bus_type);
            m.append("'. Must be one of: [\"virtio\", \"scsi\", \"sata\", \"ide\", \"nvme\"]");
            return Err(AppError::InvalidConfig(m));
        }
        proof {
            assert(buses@.len() == 5);
        }
        let t = chars_of(device_target);
        let n = t.len();
        let mut ok = 0 < n && n <= 32;
        let mut i: usize = 0;
        while i < n
            invariant
                n == t@.len(),
                t@ == device_target@,
                i <= n,
                ok == (0 < n <= 32 && forall|j: int| 0 <= j < i ==> is_alnum(#[trigger] t@[j]) || t@[j] == '-'),
            decreases n - i,
        {
            if !(char_is_alnum(t[i]) || t[i] == '-') {
                ok = false;
            }
            i = i + 1;
        }
        if !ok {
            return Err(AppError::invalid("Disk target has an invalid format"));
        }
        let path = escaped_attribute(disk_path, "Disk path")?;
        let mut x = String::from_str("<disk type='file' device='disk'>\n  <driver name='qemu' type='qcow2'/>\n  <source file='");
        x.append(path.as_str());
        x.append("'/>\n  <target dev='");
        x.append(device_target);
        x.append("' bus='");
        x.append(bus_type);
        x.append("'/>\n</disk>");
        Ok(x)
    }

    /// A CD-ROM holding the image at `iso_path`, as `target` on `bus`.
    pub fn cdrom_definition(iso_path: &str, target: &str, bus: &str) -> (r: Result<String, AppError>)
        ensures
            match r {
                Ok(x) => text_ok(iso_path@) && x@ == cdrom_xml(escape(iso_path@), target@, bus@),
                Err(e) => !text_ok(iso_path@) && e is InvalidConfig,
            },
    {
        let path = escaped_attribute(iso_path, "ISO path")?;
        let mut x = String::from_str("<disk type='file' device='cdrom'>\n  <driver name='qemu' type='raw'/>\n  <source file='");
        x.append(path.as_str());
        x.append("'/>\n  <target dev='");
        x.append(target);
        x.append("' bus='");
        x.append(bus);
        x.append("'/>\n  <readonly/>\n</disk>");
        Ok(x)
    }

    /// The CD-ROM to hand to libvirt when mounting an image: the existing drive's target
    /// and bus (`hda` and `ide` when they cannot be read); without a drive, a SCSI drive
    /// on a running VM (hot-pluggable) and a SATA drive on a stopped one.
    pub fn mount_cdrom_definition(
        iso_path: &str,
        existing: Option<(Option<String>, Option<String>)>,
        is_running: bool,
    ) -> (r: Result<String, AppError>)
        ensures
            match r {
                Ok(x) => text_ok(iso_path@) && x@ == match existing {
                    Some((t, b)) => cdrom_xml(
                        escape(iso_path@),
                        match t {
                            Some(v) => v@,
                            None => "hda"@,
                        },
                        match b {
                            Some(v) => v@,
                            None => "ide"@,
                        },
                    ),
                    None => cdrom_xml(
                        escape(iso_path@),
                        "sda"@,
                        if is_running {
                            "scsi"@
                        } else {
                            "sata"@
                        },
                    ),
                },
                Err(e) => !text_ok(iso_path@) && e is InvalidConfig,
            },
    {
        match existing {
            Some((t, b)) => {
                let target = match t {
                    Some(v) => v,
                    None => String::from_str("hda"),
                };
                let bus = match b {
                    Some(v) => v,
                    None => String::from_str("ide"),
                };
                Self::cdrom_definition(iso_path, target.as_str(), bus.as_str())
            },
            None => Self::cdrom_definition(
                iso_path,
                "sda",
                if is_running {
                    "scsi"
                } else {
                    "sata"
                },
            ),
        }
    }

    /// Whether a running VM needs a SCSI controller before a SCSI CD-ROM can be added.
    pub fn needs_scsi_controller(xml: &str) -> (r: bool)
        ensures
            r == !contains(xml@, "controller type='scsi'"@),
    {
        let v = chars_of(xml);
        !contains_str(v.as_slice(), "controller type='scsi'")
    }

    /// A sound card of `model`.
    pub fn sound_definition(model: &str) -> (r: Result<String, AppError>)
        ensures
            match r {
                Ok(x) => listed(model@, seq!["ich9", "ich6", "ac97", "es1370", "sb16", "usb"]) && x@ == "<sound model='"@
                    + model@ + "'>\n  <audio id='1'/>\n</sound>"@,
                Err(e) => !listed(model@, seq!["ich9", "ich6", "ac97", "es1370", "sb16", "usb"]) && e is InvalidConfig,
            },
    {
        let models = ["ich9", "ich6", "ac97", "es1370", "sb16", "usb"];
        proof {
            assert(models@ =~= seq!["ich9", "ich6", "ac97", "es1370", "sb16", "usb"]);
        }
        check_choice(model, "sound model", models.as_slice())?;
        let mut x = String::from_str("<sound model='");
        x.append(model);
        x.append("'>\n  <audio id='1'/>\n</sound>");
        Ok(x)
    }

    /// An input device of `device_type` on `bus`.
    pub fn input_definition(device_type: &str, bus: &str) -> (r: Result<String, AppError>)
        ensures
            match r {
                Ok(x) => listed(device_type@, seq!["tablet", "mouse", "keyboard"]) && listed(bus@, seq!["usb", "virtio", "ps2"])
                    && x@ == "<input type='"@ + device_type@ + "' bus='"@ + bus@ + "'/>"@,
                Err(e) => !(listed(device_type@, seq!["tablet", "mouse", "keyboard"]) && listed(
                    bus@,
                    seq!["usb", "virtio", "ps2"],
                )) && e is InvalidConfig,
            },
    {
        let types = ["tablet", "mouse", "keyboard"];
        let buses = ["usb", "virtio", "ps2"];
        proof {
            assert(types@ =~= seq!["tablet", "mouse", "keyboard"]);
            assert(buses@ =~= seq!["usb", "virtio", "ps2"]);
        }
        check_choice(device_type, "input device type", types.as_slice())?;
        check_choice(bus, "bus type", buses.as_slice())?;
        let mut x = String::from_str("<input type='");
        x.append(device_type);
        x.append("' bus='");
        x.append(bus);
        x.append("'/>");
        Ok(x)
    }

    /// A VirtIO random number generator fed from `backend`.
    pub fn rng_definition(backend: &str) -> (r: Result<String, AppError>)
        ensures
            match r {
                Ok(x) => listed(backend@, seq!["/dev/urandom", "/dev/random"]) && x@
                    == "<rng model='virtio'>\n  <backend model='random'>"@ + backend@ + "</backend>\n</rng>"@,
                Err(e) => !listed(backend@, seq!["/dev/urandom", "/dev/random"]) && e is InvalidConfig,
            },
    {
        let backends = ["/dev/urandom", "/dev/random"];
        proof {
            assert(backends@ =~= seq!["/dev/urandom", "/dev/random"]);
        }
        check_choice(backend, "RNG backend", backends.as_slice())?;
        let mut x = String::from_str("<rng model='virtio'>\n  <backend model='random'>");
        x.append(backend);
        x.append("</backend>\n</rng>");
        Ok(x)
    }

    /// A watchdog of `model` that takes `action`.
    pub fn watchdog_definition(model: &str, action: &str) -> (r: Result<String, AppError>)
        ensures
            match r {
                Ok(x) => listed(model@, seq!["i6300esb", "ib700", "diag288"]) && listed(
                    action@,
                    seq!["reset", "shutdown", "poweroff", "pause", "none"],
                ) && x@ == "<watchdog model='"@ + model@ + "' action='"@ + action@ + "'/>"@,
                Err(e) => !(listed(model@, seq!["i6300esb", "ib700", "diag288"]) && listed(
                    action@,
                    seq!["reset", "shutdown", "poweroff", "pause", "none"],
                )) && e is InvalidConfig,
            },
    {
        let models = ["i6300esb", "ib700", "diag288"];
        let actions = ["reset", "shutdown", "poweroff", "pause", "none"];
        proof {
            assert(models@ =~= seq!["i6300esb", "ib700", "diag288"]);
            assert(actions@ =~= seq!["reset", "shutdown", "poweroff", "pause", "none"]);
        }
        check_choice(model, "watchdog model", models.as_slice())?;
        check_choice(action, "watchdog action", actions.as_slice())?;
        let mut x = String::from_str("<watchdog model='");
        x.append(model);
        x.append("' action='");
        x.append(action);
        x.append("'/>");
        Ok(x)
    }

    /// A guest agent, KVM Manager agent or SPICE channel.
    pub fn channel_definition(channel_type: &str) -> (r: Result<String, AppError>)
        ensures
            match r {
                Ok(x) => if channel_type@ == "qemu-ga"@ {
                    x@ == "<channel type='unix'>\n  <target type='virtio' name='org.qemu.guest_agent.0'/>\n</channel>"@
                } else if channel_type@ == "kvmmanager-agent"@ {
                    x@ == "<channel type='unix'>\n  <target type='virtio' name='org.kvmmanager.agent.0'/>\n</channel>"@
                } else {
                    channel_type@ == "spice"@ && x@
                        == "<channel type='spicevmc'>\n  <target type='virtio' name='com.redhat.spice.0'/>\n</channel>"@
                },
                Err(e) => channel_type@ != "qemu-ga"@ && channel_type@ != "kvmmanager-agent"@ && channel_type@
                    != "spice"@ && e is InvalidConfig,
            },
    {
        if str_eq(channel_type, "qemu-ga") {
            Ok(String::from_str("<channel type='unix'>\n  <target type='virtio' name='org.qemu.guest_agent.0'/>\n</channel>"))
        } else if str_eq(channel_type, "kvmmanager-agent") {
            Ok(
                String::from_str(
                    "<channel type='unix'>\n  <target type='virtio' name='org.kvmmanager.agent.0'/>\n</channel>",
                ),
            )
        } else if str_eq(channel_type, "spice") {
            Ok(
                String::from_str(
                    "<channel type='spicevmc'>\n  <target type='virtio' name='com.redhat.spice.0'/>\n</channel>",
                ),
            )
        } else {
            let mut m = String::from_str("Invalid channel type '");
            m.append(channel_type);
            m.append("'. Valid options: qemu-ga, kvmmanager-agent, spice");
            Err(AppError::InvalidConfig(m))
        }
    }

    /// The `<filesystem>` element that shares `source_path` with a VM at `target_mount`,
    /// once it is known whether the source path exists on the host.
    pub fn filesystem_definition_for(
        source_path: &str,
        target_mount: &str,
        fs_type: &str,
        readonly: bool,
        source_exists: bool,
    ) -> (r: Result<String, AppError>)
        ensures
            result_is(r, filesystem_outcome(source_path@, target_mount@, fs_type@, readonly, source_exists)),
    {
        if !source_exists {
            let mut m = String::from_str("Source path '");
            m.append(source_path);
            m.append("' does not exist");
            return Err(AppError::InvalidConfig(m));
        }
        if str_eq(fs_type, "virtio-9p") {
            let mut x = String::from_str("<filesystem type='mount' accessmode='mapped'>\n  <source dir='");
            x.append(source_path);
            x.append("'/>\n  <target dir='");
            x.append(target_mount);
            x.append("'/>\n</filesystem>");
            Ok(x)
        } else if str_eq(fs_type, "virtiofs") {
            let mut x = String::from_str("<filesystem type='mount'>\n  <driver type='virtiofs'");
            if readonly {
                x.append(" readonly='yes'");
            }
            x.append(" queue='1024'/>\n  <source dir='");
            x.append(source_path);
            x.append("'/>\n  <target dir='");
            x.append(target_mount);
            x.append("'/>\n</filesystem>");
            proof {
                if !readonly {
                    reveal_strlit("<filesystem type='mount'>\n  <driver type='virtiofs'");
                }
            }
            Ok(x)
        } else {
            let mut m = String::from_str("Invalid filesystem type '");
            m.append(fs_type);
            m.append("'. Valid options: virtio-9p, virtiofs");
            Err(AppError::InvalidConfig(m))
        }
    }

    /// A serial port of `port_type` on `target_port`.
    pub fn serial_definition(port_type: &str, target_port: u32) -> (r: Result<String, AppError>)
        ensures
            match r {
                Ok(x) => if port_type@ == "pty"@ {
                    x@ == "<serial type='pty'>\n  <target port='"@ + dec(target_port as nat) + "'/>\n</serial>"@
                } else if port_type@ == "tcp"@ {
                    x@ == "<serial type='tcp'>\n  <source mode='bind' host='127.0.0.1' service='0'/>\n  <protocol type='raw'/>\n  <target port='"@
                        + dec(target_port as nat) + "'/>\n</serial>"@
                } else {
                    port_type@ == "unix"@ && x@ == "<serial type='unix'>\n  <source mode='bind'/>\n  <target port='"@
                        + dec(target_port as nat) + "'/>\n</serial>"@
                },
                Err(e) => port_type@ != "pty"@ && port_type@ != "tcp"@ && port_type@ != "unix"@ && e is InvalidConfig,
            },
    {
        if str_eq(port_type, "pty") {
            Ok(with_port("<serial type='pty'>\n  <target port='", target_port, "'/>\n</serial>"))
        } else if str_eq(port_type, "tcp") {
            Ok(
                with_port(
                    "<serial type='tcp'>\n  <source mode='bind' host='127.0.0.1' service='0'/>\n  <protocol type='raw'/>\n  <target port='",
                    target_port,
                    "'/>\n</serial>",
                ),
            )
        } else if str_eq(port_type, "unix") {
            Ok(with_port("<serial type='unix'>\n  <source mode='bind'/>\n  <target port='", target_port, "'/>\n</serial>"))
        } else {
            let mut m = String::from_str("Invalid serial port type '");
            m.append(port_type);
            m.append("'. Valid options: pty, tcp, unix");
            Err(AppError::InvalidConfig(m))
        }
    }

    /// A console on a VirtIO or serial target.
    pub fn console_definition(target_port: u32, target_type: &str) -> (r: Result<String, AppError>)
        ensures
            match r {
                Ok(x) => (target_type@ == "virtio"@ || target_type@ == "serial"@) && x@
                    == "<console type='pty'>\n  <target type='"@ + target_type@ + "' port='"@ + dec(target_port as nat)
                    + "'/>\n</console>"@,
                Err(e) => target_type@ != "virtio"@ && target_type@ != "serial"@ && e is InvalidConfig,
            },
    {
        if str_eq(target_type, "virtio") || str_eq(target_type, "serial") {
            let mut x = String::from_str("<console type='pty'>\n  <target type='");
            x.append(target_type);
            x.append("' port='");
            x.append(fmt_u64(target_port as u64).as_str());
            x.append("'/>\n</console>");
            Ok(x)
        } else {
            let mut m = String::from_str("Invalid console target type '");
            m.append(target_type);
            m.append("'. Valid options: virtio, serial");
            Err(AppError::InvalidConfig(m))
        }
    }

    /// An emulated TPM of `model` and `version`; only a stopped VM takes one.
    pub fn tpm_definition(model: &str, version: &str, is_running: bool) -> (r: Result<String, AppError>)
        ensures
            match r {
                Ok(x) => !is_running && listed(model@, seq!["tpm-tis", "tpm-crb"]) && listed(version@, seq!["1.2", "2.0"])
                    && x@ == "<tpm model='"@ + model@ + "'>\n  <backend type='emulator' version='"@ + version@
                    + "'/>\n</tpm>"@,
                Err(e) => (is_running || !listed(model@, seq!["tpm-tis", "tpm-crb"]) || !listed(
                    version@,
                    seq!["1.2", "2.0"],
                )) && e is InvalidConfig,
            },
    {
        if is_running {
            return Err(Self::running_refusal("TPM", true));
        }
        let models = ["tpm-tis", "tpm-crb"];
        let versions = ["1.2", "2.0"];
        proof {
            assert(models@ =~= seq!["tpm-tis", "tpm-crb"]);
            assert(versions@ =~= seq!["1.2", "2.0"]);
        }
        check_choice(model, "TPM model", models.as_slice())?;
        check_choice(version, "TPM version", versions.as_slice())?;
        let mut x = String::from_str("<tpm model='");
        x.append(model);
        x.append("'>\n  <backend type='emulator' version='");
        x.append(version);
        x.append("'/>\n</tpm>");
        Ok(x)
    }

    /// A USB controller of `model`; only a stopped VM takes one.
    pub fn usb_controller_definition(model: &str, is_running: bool) -> (r: Result<String, AppError>)
        ensures
            match r {
                Ok(x) => !is_running && listed(
                    model@,
                    seq!["piix3-uhci", "ich9-uhci1", "ich9-uhci2", "ich9-uhci3", "ich9-ehci1", "nec-xhci", "qemu-xhci"],
                ) && x@ == "<controller type='usb' model='"@ + model@ + "'/>\n"@,
                Err(e) => (is_running || !listed(
                    model@,
                    seq!["piix3-uhci", "ich9-uhci1", "ich9-uhci2", "ich9-uhci3", "ich9-ehci1", "nec-xhci", "qemu-xhci"],
                )) && e is InvalidConfig,
            },
    {
        if is_running {
            return Err(Self::running_refusal("USB controller", true));
        }
        let models = ["piix3-uhci", "ich9-uhci1", "ich9-uhci2", "ich9-uhci3", "ich9-ehci1", "nec-xhci", "qemu-xhci"];
        proof {
            assert(models@ =~= seq![
                "piix3-uhci",
                "ich9-uhci1",
                "ich9-uhci2",
                "ich9-uhci3",
                "ich9-ehci1",
                "nec-xhci",
                "qemu-xhci",
            ]);
        }
        if !one_of(model, models.as_slice()) {
            let mut m = String::from_str("Invalid USB controller model '");
            m.append(model);
            m.append("'. Valid options: piix3-uhci, ich9-uhci1, ich9-ehci1, nec-xhci, qemu-xhci");
            return Err(AppError::InvalidConfig(m));
        }
        let mut x = String::from_str("<controller type='usb' model='");
        x.append(model);
        x.append("'/>\n");
        Ok(x)
    }

    /// A SCSI controller of `model`; only a stopped VM takes one.
    pub fn scsi_controller_definition(model: &str, is_running: bool) -> (r: Result<String, AppError>)
        ensures
            match r {
                Ok(x) => !is_running && listed(model@, seq!["virtio-scsi", "lsilogic", "lsisas1068", "lsisas1078", "megasas"])
                    && x@ == "<controller type='scsi' model='"@ + model@ + "'/>\n"@,
                Err(e) => (is_running || !listed(
                    model@,
                    seq!["virtio-scsi", "lsilogic", "lsisas1068", "lsisas1078", "megasas"],
                )) && e is InvalidConfig,
            },
    {
        if is_running {
            return Err(Self::running_refusal("SCSI controller", true));
        }
        let models = ["virtio-scsi", "lsilogic", "lsisas1068", "lsisas1078", "megasas"];
        proof {
            assert(models@ =~= seq!["virtio-scsi", "lsilogic", "lsisas1068", "lsisas1078", "megasas"]);
        }
        check_choice(model, "SCSI controller model", models.as_slice())?;
        let mut x = String::from_str("<controller type='scsi' model='");
        x.append(model);
        x.append("'/>\n");
        Ok(x)
    }

    /// The number of USB redirection channels added for a request: 1 to 4.
    pub fn usb_redirection_count(count: u32) -> (r: u32)
        ensures
            r == if count < 1 {
                1
            } else if count > 4 {
                4
            } else {
                count
            },
    {
        if count < 1 {
            1
        } else if count > 4 {
            4
        } else {
            count
        }
    }

    /// USB redirection needs a stopped VM with SPICE graphics.
    pub fn usb_redirection_precheck(is_running: bool, xml: &str) -> (r: Result<(), AppError>)
        ensures
            r is Ok <==> !is_running && contains(xml@, "type='spice'"@),
            r matches Err(e) ==> e is InvalidConfig,
    {
        if is_running {
            return Err(Self::running_refusal("USB redirection", true));
        }
        let v = chars_of(xml);
        if !contains_str(v.as_slice(), "type='spice'") {
            return Err(AppError::invalid("USB redirection requires SPICE graphics. Please add SPICE graphics first."));
        }
        Ok(())
    }

    /// USB redirection channel `i`.
    pub fn usb_redirection_definition(i: u32) -> (r: String)
        ensures
            r@ == "<redirdev bus='usb' type='spicevmc'>\n  <alias name='redir"@ + dec(i as nat) + "'/>\n</redirdev>"@,
    {
        with_port("<redirdev bus='usb' type='spicevmc'>\n  <alias name='redir", i, "'/>\n</redirdev>")
    }

    /// The USB redirection of a VM: the number of SPICE redirection channels, and
    /// whether it has SPICE graphics.
    pub fn get_usb_redirection(xml: &str) -> (r: crate::vm::UsbRedirectionInfo)
        requires
            count_from(xml@, "<redirdev bus='usb' type='spicevmc'"@, 0) <= u32::MAX,
        ensures
            r.channel_count == count_from(xml@, "<redirdev bus='usb' type='spicevmc'"@, 0),
            r.enabled == (r.channel_count > 0),
            r.has_spice_graphics == contains(xml@, "type='spice'"@),
    {
        let v = chars_of(xml);
        let n = v.len();
        let pat = chars_of("<redirdev bus='usb' type='spicevmc'");
        proof {
            reveal_strlit("<redirdev bus='usb' type='spicevmc'");
        }
        let mut count: u32 = 0;
        let mut pos: usize = 0;
        while pos <= n
            invariant
                n == v@.len(),
                v@ == xml@,
                pat@ == "<redirdev bus='usb' type='spicevmc'"@,
                pat@.len() > 0,
                pos <= n,
                count + count_from(xml@, pat@, pos as int) == count_from(xml@, pat@, 0),
                count_from(xml@, pat@, 0) <= u32::MAX,
            ensures
                count == count_from(xml@, pat@, 0),
            decreases n - pos,
        {
            match crate::text::find_from_at(v.as_slice(), pat.as_slice(), pos) {
                Some(j) => {
                    count = count + 1;
                    pos = j + pat.len();
                },
                None => {
                    break;
                },
            }
        }
        let has_spice = contains_str(v.as_slice(), "type='spice'");
        crate::vm::UsbRedirectionInfo { enabled: count > 0, channel_count: count, has_spice_graphics: has_spice }
    }

    /// Whether a new VM name is acceptable: not empty, without spaces or slashes, and not
    /// taken; a running VM cannot be renamed.
    pub fn rename_precheck(new_name: &str, is_running: bool, name_taken: bool) -> (r: Result<(), AppError>)
        ensures
            r is Ok <==> !is_running && new_name@.len() > 0 && !contains(new_name@, " "@) && !contains(
                new_name@,
                "/"@,
            ) && !contains(new_name@, "\\"@) && !name_taken,
            r matches Err(e) ==> e is InvalidConfig,
    {
        if is_running {
            return Err(AppError::invalid("Cannot rename a running VM. Please stop the VM first."));
        }
        let v = chars_of(new_name);
        if v.len() == 0 {
            return Err(AppError::invalid("VM name cannot be empty"));
        }
        if contains_str(v.as_slice(), " ") || contains_str(v.as_slice(), "/") || contains_str(v.as_slice(), "\\") {
            return Err(AppError::invalid("VM name cannot contain spaces or slashes"));
        }
        if name_taken {
            let mut m = String::from_str("A VM with name '");
            m.append(new_name);
            m.append("' already exists");
            return Err(AppError::InvalidConfig(m));
        }
        Ok(())
    }

    /// A disk path after a rename: every occurrence of the old name replaced, when the
    /// path contains it.
    pub fn renamed_disk_path(disk_path: &str, old_name: &str, new_name: &str) -> (r: Option<String>)
        requires
            old_name@.len() > 0,
        ensures
            match r {
                Some(p) => contains(disk_path@, old_name@) && p@ == crate::text::replace_all(
                    disk_path@,
                    old_name@,
                    new_name@,
                ),
                None => !contains(disk_path@, old_name@),
            },
    {
        let v = chars_of(disk_path);
        if !contains_str(v.as_slice(), old_name) {
            return None;
        }
        Some(crate::text::replace_all_str(disk_path, old_name, new_name))
    }
}

} // verus!
