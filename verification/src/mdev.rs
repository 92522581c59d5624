//! Mediated devices (vGPUs): the support summary, the types a parent device offers, the
//! `<hostdev>` that hands one to a VM, and the sysfs paths that create and remove them.
use crate::distribution::strings_view;
use crate::domain::join_lines;
use crate::error::AppError;
use crate::ids::{canonical_uuid, new_uuid};
use crate::operation::opt_view;
use crate::text::{chars_of, contains, contains_str, parse_unsigned, parse_unsigned_range, trim, trim_string};
use vstd::prelude::*;

verus! {

/// Mediated device operations.
pub struct MdevService;

/// A mediated device type a parent device offers.
#[derive(Debug)]
pub struct MdevType {
    pub name: String,
    pub description: Option<String>,
    pub available_instances: u32,
    pub max_instances: u32,
    pub device_api: String,
    pub parent_device: String,
    pub parent_name: String,
}

/// A mediated device instance.
#[derive(Debug)]
pub struct MdevDevice {
    pub uuid: String,
    pub mdev_type: String,
    pub parent_device: String,
    pub in_use: bool,
    pub used_by_vm: Option<String>,
}

/// Whether the host supports mediated devices, and with which vendors.
#[derive(Debug)]
pub struct MdevStatus {
    pub supported: bool,
    pub message: String,
    pub supported_vendors: Vec<String>,
}

/// The vendors found, in the order Intel, NVIDIA, AMD.
pub open spec fn vendors_found(intel: bool, nvidia: bool, amd: bool) -> Seq<Seq<char>> {
    (if intel {
        seq!["Intel GVT-g"@]
    } else {
        Seq::empty()
    }) + (if nvidia {
        seq!["NVIDIA vGPU"@]
    } else {
        Seq::empty()
    }) + (if amd {
        seq!["AMD SR-IOV"@]
    } else {
        Seq::empty()
    })
}

/// Texts joined with `, `.
pub open spec fn join_comma(parts: Seq<Seq<char>>) -> Seq<char>
    decreases parts.len(),
{
    if parts.len() == 0 {
        Seq::empty()
    } else if parts.len() == 1 {
        parts[0]
    } else {
        join_comma(parts.drop_last()) + ", "@ + parts.last()
    }
}

/// `str::parse::<u32>` of trimmed file contents.
pub open spec fn count_of(raw: Option<Seq<char>>) -> Option<u32> {
    match raw {
        Some(r) => match parse_unsigned(trim(r), 4294967295) {
            Some(v) => Some(v as u32),
            None => None,
        },
        None => None,
    }
}

/// The `<hostdev>` that hands the mediated device `uuid` to a VM.
pub open spec fn mdev_hostdev_xml(uuid: Seq<char>) -> Seq<char> {
    "<hostdev mode='subsystem' type='mdev' managed='no' model='vfio-pci'>\n  <source>\n    <address uuid='"@ + uuid
        + "'/>\n  </source>\n</hostdev>"@
}

/// The name of the first domain whose definition names the mediated device.
pub open spec fn mdev_user_of(domains: Seq<(Seq<char>, Seq<char>)>, uuid: Seq<char>) -> Option<Seq<char>>
    decreases domains.len(),
{
    if domains.len() == 0 {
        None
    } else if contains(domains[0].1, "uuid='"@ + uuid + "'"@) {
        Some(domains[0].0)
    } else {
        mdev_user_of(domains.drop_first(), uuid)
    }
}

fn join_comma_exec(parts: &Vec<String>) -> (r: String)
    ensures
        r@ == join_comma(strings_view(parts@)),
{
    let mut out = String::new();
    let n = parts.len();
    let mut i: usize = 0;
    while i < n
        invariant
            n == parts@.len(),
            i <= n,
            out@ == join_comma(strings_view(parts@).subrange(0, i as int)),
        decreases n - i,
    {
        let ghost pre = strings_view(parts@).subrange(0, i as int + 1);
        proof {
            assert(pre.drop_last() =~= strings_view(parts@).subrange(0, i as int));
            assert(pre.last() == parts@[i as int]@);
        }
        if i > 0 {
            out.append(", ");
        }
        out.append(parts[i].as_str());
        proof {
            if i == 0 {
                assert(pre.len() == 1);
                assert(out@ =~= pre[0]);
            }
        }
        i = i + 1;
    }
    proof {
        assert(strings_view(parts@).subrange(0, n as int) =~= strings_view(parts@));
    }
    out
}

fn count_exec(raw: &Option<String>) -> (r: Option<u32>)
    ensures
        r == count_of(opt_view(*raw)),
{
    match raw {
        Some(s) => {
            let t = trim_string(s.as_str());
            let v = chars_of(t.as_str());
            proof {
                assert(v@.subrange(0, v@.len() as int) =~= v@);
            }
            match parse_unsigned_range(v.as_slice(), 0, v.len(), 4294967295) {
                Some(x) => Some(x as u32),
                None => None,
            }
        },
        None => None,
    }
}

impl MdevService {
    /// The support summary: no mediated device bus; vendors found (each listed); devices
    /// of no known vendor; or none at all.
    pub fn mdev_status(bus_exists: bool, intel: bool, nvidia: bool, amd: bool, any_device: bool) -> (r: MdevStatus)
        ensures
            !bus_exists ==> !r.supported && r.supported_vendors@.len() == 0 && r.message@
                == "MDEV bus not found. Kernel may not support mediated devices."@,
            bus_exists && (intel || nvidia || amd) ==> r.supported && strings_view(r.supported_vendors@)
                == vendors_found(intel, nvidia, amd) && r.message@ == "MDEV supported with: "@ + join_comma(
                vendors_found(intel, nvidia, amd),
            ),
            bus_exists && !(intel || nvidia || amd) && any_device ==> r.supported && strings_view(
                r.supported_vendors@,
            ) == seq!["Unknown"@] && r.message@ == "MDEV devices detected but vendor unknown."@,
            bus_exists && !(intel || nvidia || amd) && !any_device ==> !r.supported && r.supported_vendors@.len()
                == 0 && r.message@
                == "No MDEV-capable devices found. Requires Intel GVT-g, NVIDIA vGPU, or AMD SR-IOV."@,
    {
        if !bus_exists {
            return MdevStatus {
                supported: false,
                message: String::from_str("MDEV bus not found. Kernel may not support mediated devices."),
                supported_vendors: Vec::new(),
            };
        }
        let mut vendors: Vec<String> = Vec::new();
        if intel {
            vendors.push(String::from_str("Intel GVT-g"));
        }
        let ghost v1 = strings_view(vendors@);
        if nvidia {
            vendors.push(String::from_str("NVIDIA vGPU"));
        }
        let ghost v2 = strings_view(vendors@);
        if amd {
            vendors.push(String::from_str("AMD SR-IOV"));
        }
        proof {
            assert(v1 =~= (if intel { seq!["Intel GVT-g"@] } else { Seq::<Seq<char>>::empty() }));
            assert(v2 =~= v1 + (if nvidia { seq!["NVIDIA vGPU"@] } else { Seq::<Seq<char>>::empty() }));
            assert(strings_view(vendors@) =~= vendors_found(intel, nvidia, amd));
        }
        if vendors.len() == 0 {
            if any_device {
                let unknown = vec![String::from_str("Unknown")];
                proof {
                    assert(strings_view(unknown@) =~= seq!["Unknown"@]);
                }
                return MdevStatus {
                    supported: true,
                    message: String::from_str("MDEV devices detected but vendor unknown."),
                    supported_vendors: unknown,
                };
            }
            return MdevStatus {
                supported: false,
                message: String::from_str(
                    "No MDEV-capable devices found. Requires Intel GVT-g, NVIDIA vGPU, or AMD SR-IOV.",
                ),
                supported_vendors: Vec::new(),
            };
        }
        let mut message = String::from_str("MDEV supported with: ");
        message.append(join_comma_exec(&vendors).as_str());
        MdevStatus { supported: true, message, supported_vendors: vendors }
    }

    /// A mediated device type from the files of its sysfs directory: the trimmed
    /// description, the available instances (0 when unreadable), the maximum (the
    /// available count when unreadable) and the device API (`vfio-pci` when unreadable).
    pub fn mdev_type(
        name: String,
        parent_device: String,
        parent_name: String,
        description: Option<String>,
        available_instances: Option<String>,
        max_instances: Option<String>,
        device_api: Option<String>,
    ) -> (r: MdevType)
        ensures
            r.name@ == name@,
            r.parent_device@ == parent_device@,
            r.parent_name@ == parent_name@,
            opt_view(r.description) == match description {
                Some(d) => Some(trim(d@)),
                None => None,
            },
            r.available_instances == match count_of(opt_view(available_instances)) {
                Some(v) => v,
                None => 0,
            },
            r.max_instances == match count_of(opt_view(max_instances)) {
                Some(v) => v,
                None => r.available_instances,
            },
            r.device_api@ == match device_api {
                Some(d) => trim(d@),
                None => "vfio-pci"@,
            },
    {
        let description = match &description {
            Some(d) => Some(trim_string(d.as_str())),
            None => None,
        };
        let available = match count_exec(&available_instances) {
            Some(v) => v,
            None => 0,
        };
        let max = match count_exec(&max_instances) {
            Some(v) => v,
            None => available,
        };
        let device_api = match &device_api {
            Some(d) => trim_string(d.as_str()),
            None => String::from_str("vfio-pci"),
        };
        MdevType {
            name,
            description,
            available_instances: available,
            max_instances: max,
            device_api,
            parent_device,
            parent_name,
        }
    }

    /// The name of a parent device: its trimmed vendor and device IDs.
    pub fn device_name(vendor_id: &str, device_id: &str) -> (r: String)
        ensures
            r@ == trim(vendor_id@) + " "@ + trim(device_id@),
    {
        let mut r = trim_string(vendor_id);
        r.append(" ");
        r.append(trim_string(device_id).as_str());
        r
    }

    /// The `<hostdev>` that hands a mediated device to a VM.
    pub fn hostdev_definition(mdev_uuid: &str) -> (r: String)
        ensures
            r@ == mdev_hostdev_xml(mdev_uuid@),
    {
        let mut x = String::from_str(
            "<hostdev mode='subsystem' type='mdev' managed='no' model='vfio-pci'>\n  <source>\n    <address uuid='",
        );
        x.append(mdev_uuid);
        x.append("'/>\n  </source>\n</hostdev>");
        x
    }

    /// A VM definition must name the mediated device before it can be detached.
    pub fn check_attached(xml: &str, mdev_uuid: &str) -> (r: Result<(), AppError>)
        ensures
            r is Ok <==> contains(xml@, "uuid='"@ + mdev_uuid@ + "'"@),
            r matches Err(e) ==> e is InvalidConfig,
    {
        let mut pattern = String::from_str("uuid='");
        pattern.append(mdev_uuid);
        pattern.append("'");
        let v = chars_of(xml);
        if contains_str(v.as_slice(), pattern.as_str()) {
            Ok(())
        } else {
            let mut m = String::from_str("MDEV '");
            m.append(mdev_uuid);
            m.append("' not found in VM configuration");
            Err(AppError::InvalidConfig(m))
        }
    }

    /// The error a refused hot-plug (or hot-unplug) of a running VM reports.
    pub fn hotplug_error(attach: bool) -> (e: AppError)
        ensures
            e is InvalidConfig,
    {
        if attach {
            AppError::invalid("Cannot hot-plug MDEV device. Try stopping the VM first.")
        } else {
            AppError::invalid("Cannot hot-unplug MDEV device from running VM.")
        }
    }

    /// Whether a mediated device is in use, and by which VM of `domains` (name and
    /// definition).
    pub fn mdev_in_use(domains: &Vec<(String, String)>, mdev_uuid: &str) -> (r: (bool, Option<String>))
        ensures
            opt_view(r.1) == mdev_user_of(crate::pci::pairs_view(domains@), mdev_uuid@),
            r.0 == r.1 is Some,
    {
        let ghost all = crate::pci::pairs_view(domains@);
        let mut pattern = String::from_str("uuid='");
        pattern.append(mdev_uuid);
        pattern.append("'");
        let mut i: usize = 0;
        proof {
            assert(all.subrange(0, all.len() as int) =~= all);
        }
        while i < domains.len()
            invariant
                i <= domains@.len(),
                all == crate::pci::pairs_view(domains@),
                pattern@ == "uuid='"@ + mdev_uuid@ + "'"@,
                mdev_user_of(all, mdev_uuid@) == mdev_user_of(all.subrange(i as int, all.len() as int), mdev_uuid@),
            decreases domains@.len() - i,
        {
            let ghost rest = all.subrange(i as int, all.len() as int);
            proof {
                assert(rest[0] == (domains@[i as int].0@, domains@[i as int].1@));
                assert(rest.drop_first() =~= all.subrange(i + 1, all.len() as int));
            }
            let x = chars_of(domains[i].1.as_str());
            if contains_str(x.as_slice(), pattern.as_str()) {
                return (true, Some(domains[i].0.clone()));
            }
            i = i + 1;
        }
        (false, None)
    }

    /// The sysfs file that creates a mediated device of `mdev_type` on `parent_device`.
    pub fn create_path(parent_device: &str, mdev_type: &str) -> (r: String)
        ensures
            r@ == "/sys/class/mdev_bus/"@ + parent_device@ + "/mdev_supported_types/"@ + mdev_type@ + "/create"@,
    {
        let mut p = String::from_str("/sys/class/mdev_bus/");
        p.append(parent_device);
        p.append("/mdev_supported_types/");
        p.append(mdev_type);
        p.append("/create");
        p
    }

    /// The sysfs file that removes a mediated device.
    pub fn remove_path(mdev_uuid: &str) -> (r: String)
        ensures
            r@ == "/sys/bus/mdev/devices/"@ + mdev_uuid@ + "/remove"@,
    {
        let mut p = String::from_str("/sys/bus/mdev/devices/");
        p.append(mdev_uuid);
        p.append("/remove");
        p
    }

    /// The UUID a new mediated device is created with.
    pub fn new_instance_uuid() -> (r: String)
        ensures
            canonical_uuid(r@),
    {
        new_uuid()
    }
}

} // verus!
