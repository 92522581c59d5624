//! PCI passthrough: the IOMMU state, how a device is classified and named, whether it is
//! safe to pass through, the `<hostdev>` that passes it, and its VFIO binding.
use crate::error::AppError;
use crate::operation::opt_view;
use crate::text::{
    chars_of, contains, contains_str, copy_range, find_from, find_str_from, lines_view, replace_all, replace_all_str,
    split_on, split_on_chars, str_eq, string_of_all, trim, trim_string,
};
use crate::vm_inspect::{quoted_after, quoted_after_exec};
use vstd::prelude::*;
use vstd::string::StringSliceAdditionalSpecFns;

verus! {

/// PCI device operations.
pub struct PciService;

/// What a PCI device is, by its class code.
#[derive(Clone, Copy, Debug, PartialEq, Eq, Structural)]
pub enum PciDeviceType {
    Gpu,
    Audio,
    UsbController,
    NetworkAdapter,
    StorageController,
    Other,
}

/// A PCI device of the host.
#[derive(Debug)]
pub struct PciDevice {
    pub address: String,
    pub vendor: String,
    pub vendor_id: String,
    pub device_name: String,
    pub device_id: String,
    pub device_class: String,
    pub device_type: PciDeviceType,
    pub iommu_group: Option<u32>,
    pub in_use: bool,
    pub attached_to_vm: Option<String>,
    pub driver: Option<String>,
    pub passthrough_safe: bool,
}

/// An IOMMU group and its devices.
#[derive(Debug)]
pub struct IommuGroup {
    pub group_id: u32,
    pub devices: Vec<String>,
    pub passthrough_safe: bool,
}

/// Whether the host's IOMMU is on, and of which kind.
#[derive(Debug)]
pub struct IommuStatus {
    pub enabled: bool,
    pub iommu_type: Option<String>,
    pub warning: Option<String>,
}

/// The VFIO binding of a PCI device.
#[derive(Debug)]
pub struct VfioStatus {
    pub device_address: String,
    pub bound_to_vfio: bool,
    pub current_driver: Option<String>,
    pub iommu_enabled: bool,
    pub can_bind: bool,
}

/// Byte `i` of a UTF-8 text starts a character (or ends the text).
pub open spec fn char_boundary(b: Seq<u8>, i: int) -> bool {
    i == b.len() || (0 <= i < b.len() && !(0x80 <= b[i] < 0xc0))
}

/// Bytes `i` and `i + 1` are the characters `x` and `y`.
pub open spec fn code_at(b: Seq<u8>, i: int, x: char, y: char) -> bool {
    b[i] == x as u8 && b[i + 1] == y as u8
}

/// The class codes the classification reads can be cut out of the text: byte 2 and 4
/// start characters, and byte 6 too where the subclass is read.
pub open spec fn class_slices_ok(b: Seq<u8>, whole_subclass: bool) -> bool {
    &&& b.len() >= 4 ==> char_boundary(b, 2) && char_boundary(b, 4)
    &&& (b.len() >= 6 && (whole_subclass || code_at(b, 2, '0', 'c'))) ==> char_boundary(b, 6)
}

/// The device type of a class text `0xCCSSPP`: by the class, and for serial bus
/// controllers by the subclass.
pub open spec fn device_type_of(b: Seq<u8>) -> PciDeviceType {
    if b.len() < 4 {
        PciDeviceType::Other
    } else if code_at(b, 2, '0', '3') {
        PciDeviceType::Gpu
    } else if code_at(b, 2, '0', '4') {
        PciDeviceType::Audio
    } else if code_at(b, 2, '0', 'c') {
        if b.len() >= 6 && code_at(b, 4, '0', '3') {
            PciDeviceType::UsbController
        } else {
            PciDeviceType::Other
        }
    } else if code_at(b, 2, '0', '2') {
        PciDeviceType::NetworkAdapter
    } else if code_at(b, 2, '0', '1') {
        PciDeviceType::StorageController
    } else {
        PciDeviceType::Other
    }
}

/// The subclass is `x y` (`00` when the text is too short to hold one).
pub open spec fn sub_is(b: Seq<u8>, x: char, y: char) -> bool {
    if b.len() >= 6 {
        code_at(b, 4, x, y)
    } else {
        x == '0' && y == '0'
    }
}

/// The name of a device class.
pub open spec fn class_name_of(class: Seq<char>, b: Seq<u8>) -> Seq<char> {
    if b.len() < 4 {
        "Unknown PCI device"@
    } else if code_at(b, 2, '0', '3') {
        if sub_is(b, '0', '0') {
            "VGA compatible controller"@
        } else if sub_is(b, '0', '1') {
            "XGA compatible controller"@
        } else if sub_is(b, '0', '2') {
            "3D controller"@
        } else {
            "Display controller"@
        }
    } else if code_at(b, 2, '0', '4') {
        if sub_is(b, '0', '1') {
            "Audio device"@
        } else if sub_is(b, '0', '3') {
            "Audio device (HD Audio)"@
        } else {
            "Multimedia controller"@
        }
    } else if code_at(b, 2, '0', 'c') && sub_is(b, '0', '3') {
        "USB controller"@
    } else if code_at(b, 2, '0', '2') && sub_is(b, '0', '0') {
        "Ethernet controller"@
    } else if code_at(b, 2, '0', '2') && sub_is(b, '8', '0') {
        "Network controller"@
    } else if code_at(b, 2, '0', '1') {
        if sub_is(b, '0', '1') {
            "IDE interface"@
        } else if sub_is(b, '0', '6') {
            "SATA controller"@
        } else if sub_is(b, '0', '8') {
            "NVMe controller"@
        } else {
            "Storage controller"@
        }
    } else {
        "PCI device (class "@ + class + ")"@
    }
}

/// Whether a device may be passed through: display, audio, USB and network devices
/// always; storage controllers only when bound to `vfio-pci`; nothing else.
pub open spec fn passthrough_safe(t: PciDeviceType, driver: Option<Seq<char>>) -> bool {
    match t {
        PciDeviceType::Gpu | PciDeviceType::Audio | PciDeviceType::UsbController | PciDeviceType::NetworkAdapter => true,
        PciDeviceType::StorageController => driver == Some("vfio-pci"@),
        PciDeviceType::Other => false,
    }
}

/// The trimmed text between a tag and its closing tag.
pub open spec fn tag_value(xml: Seq<char>, tag: Seq<char>) -> Option<Seq<char>> {
    match quoted_after(xml, tag, replace_all(tag, "<"@, "</"@), 0) {
        Some(v) => Some(trim(v)),
        None => None,
    }
}

/// The libvirt node device name of a PCI address: `pci_` and the address with `:` and
/// `.` replaced by `_`.
pub open spec fn nodedev_name_of(address: Seq<char>) -> Seq<char> {
    "pci_"@ + replace_all(replace_all(address, ":"@, "_"@), "."@, "_"@)
}

/// The domain, bus, slot and function of an address `domain:bus:slot.function`.
pub open spec fn address_fields(address: Seq<char>) -> Option<(Seq<char>, Seq<char>, Seq<char>, Seq<char>)> {
    let parts = split_on(address, ':', ':');
    if parts.len() != 3 {
        None
    } else {
        let sf = split_on(parts[2], '.', '.');
        if sf.len() != 2 {
            None
        } else {
            Some((parts[0], parts[1], sf[0], sf[1]))
        }
    }
}

/// The `<address>` attributes that name a PCI device in a domain definition.
pub open spec fn address_search(f: (Seq<char>, Seq<char>, Seq<char>, Seq<char>)) -> Seq<char> {
    "domain='0x"@ + f.0 + "' bus='0x"@ + f.1 + "' slot='0x"@ + f.2 + "' function='0x"@ + f.3 + "'"@
}

/// The `<hostdev>` that passes a PCI device through.
pub open spec fn pci_hostdev_xml(managed: bool, f: (Seq<char>, Seq<char>, Seq<char>, Seq<char>)) -> Seq<char> {
    "<hostdev mode='subsystem' type='pci' managed='"@ + (if managed {
        "yes"@
    } else {
        "no"@
    }) + "'>\n  <source>\n    <address "@ + address_search(f) + "/>\n  </source>\n</hostdev>"@
}

/// The first `<hostdev` element at or after `pos` that names the device.
pub open spec fn hostdev_from(xml: Seq<char>, search: Seq<char>, pos: int) -> Option<Seq<char>>
    decreases xml.len() - pos,
{
    if pos < 0 {
        None
    } else {
        match find_from(xml, "<hostdev"@, pos) {
            Some(a) => match find_from(xml, "</hostdev>"@, a) {
                Some(e) => if e + 10 <= pos || e + 10 > xml.len() {
                    None
                } else if contains(xml.subrange(a, e + 10), search) {
                    Some(xml.subrange(a, e + 10))
                } else {
                    hostdev_from(xml, search, e + 10)
                },
                None => None,
            },
            None => None,
        }
    }
}

/// The name of the first domain whose definition names the device.
pub open spec fn attached_vm_of(domains: Seq<(Seq<char>, Seq<char>)>, address: Seq<char>) -> Option<Seq<char>>
    decreases domains.len(),
{
    if domains.len() == 0 {
        None
    } else {
        match address_fields(address) {
            Some(f) => if contains(domains[0].1, address_search(f)) {
                Some(domains[0].0)
            } else {
                attached_vm_of(domains.drop_first(), address)
            },
            None => None,
        }
    }
}

/// `s` without every leading `0x`.
pub open spec fn strip_hex_prefix(s: Seq<char>) -> Seq<char>
    decreases s.len(),
{
    if s.len() >= 2 && s[0] == '0' && s[1] == 'x' {
        strip_hex_prefix(s.subrange(2, s.len() as int))
    } else {
        s
    }
}

pub open spec fn pairs_view(v: Seq<(String, String)>) -> Seq<(Seq<char>, Seq<char>)> {
    v.map_values(|p: (String, String)| (p.0@, p.1@))
}

fn address_fields_exec(address: &str) -> (r: Option<(String, String, String, String)>)
    ensures
        match r {
            Some(f) => address_fields(address@) == Some((f.0@, f.1@, f.2@, f.3@)),
            None => address_fields(address@) is None,
        },
{
    let v = chars_of(address);
    let parts = split_on_chars(v.as_slice(), ':', ':');
    if parts.len() != 3 {
        return None;
    }
    let sf = split_on_chars(parts[2].as_slice(), '.', '.');
    if sf.len() != 2 {
        proof {
            assert(lines_view(parts@)[2] == parts@[2]@);
        }
        return None;
    }
    proof {
        assert(lines_view(parts@)[2] == parts@[2]@);
        assert(lines_view(parts@)[0] == parts@[0]@);
        assert(lines_view(parts@)[1] == parts@[1]@);
        assert(lines_view(sf@)[0] == sf@[0]@);
        assert(lines_view(sf@)[1] == sf@[1]@);
    }
    Some((
        string_of_all(parts[0].as_slice()),
        string_of_all(parts[1].as_slice()),
        string_of_all(sf[0].as_slice()),
        string_of_all(sf[1].as_slice()),
    ))
}

fn address_search_exec(f: &(String, String, String, String)) -> (r: String)
    ensures
        r@ == address_search((f.0@, f.1@, f.2@, f.3@)),
{
    let mut r = String::from_str("domain='0x");
    r.append(f.0.as_str());
    r.append("' bus='0x");
    r.append(f.1.as_str());
    r.append("' slot='0x");
    r.append(f.2.as_str());
    r.append("' function='0x");
    r.append(f.3.as_str());
    r.append("'");
    r
}

fn address_error(address: &str) -> (e: AppError)
    ensures
        e is InvalidConfig,
{
    let mut m = String::from_str("Invalid PCI address format: ");
    m.append(address);
    AppError::InvalidConfig(m)
}

impl PciService {
    /// The IOMMU state from the kernel command line and whether the IOMMU groups
    /// directory exists: Intel VT-d or AMD-Vi when switched on and the groups exist,
    /// else disabled with a hint.
    pub fn iommu_status(cmdline: &str, groups_exist: bool) -> (r: IommuStatus)
        ensures
            ({
                let intel = contains(cmdline@, "intel_iommu=on"@);
                let amd = contains(cmdline@, "amd_iommu=on"@);
                if groups_exist && (intel || amd) {
                    r.enabled && opt_view(r.iommu_type) == Some(
                        if intel {
                            "Intel VT-d"@
                        } else {
                            "AMD-Vi"@
                        },
                    ) && r.warning is None
                } else {
                    !r.enabled && r.iommu_type is None && opt_view(r.warning) == Some(
                        "IOMMU is not enabled. Add 'intel_iommu=on' or 'amd_iommu=on' to kernel boot parameters."@,
                    )
                }
            }),
    {
        let c = chars_of(cmdline);
        let mut enabled = false;
        let mut iommu_type: Option<String> = None;
        if contains_str(c.as_slice(), "intel_iommu=on") {
            enabled = true;
            iommu_type = Some(String::from_str("Intel VT-d"));
        } else if contains_str(c.as_slice(), "amd_iommu=on") {
            enabled = true;
            iommu_type = Some(String::from_str("AMD-Vi"));
        }
        if !groups_exist || !enabled {
            return IommuStatus {
                enabled: false,
                iommu_type: None,
                warning: Some(
                    String::from_str(
                        "IOMMU is not enabled. Add 'intel_iommu=on' or 'amd_iommu=on' to kernel boot parameters.",
                    ),
                ),
            };
        }
        IommuStatus { enabled, iommu_type, warning: None }
    }

    /// The device type of a class text such as `0x030000`.
    pub fn classify_device(class: &str) -> (r: PciDeviceType)
        requires
            class_slices_ok(class.spec_bytes(), false),
        ensures
            r == device_type_of(class.spec_bytes()),
    {
        let b = class.as_bytes();
        let n = b.len();
        if n < 4 {
            return PciDeviceType::Other;
        }
        let c0 = b[2];
        let c1 = b[3];
        if c0 == 48 && c1 == 51 {
            PciDeviceType::Gpu
        } else if c0 == 48 && c1 == 52 {
            PciDeviceType::Audio
        } else if c0 == 48 && c1 == 99 {
            if n >= 6 && b[4] == 48 && b[5] == 51 {
                PciDeviceType::UsbController
            } else {
                PciDeviceType::Other
            }
        } else if c0 == 48 && c1 == 50 {
            PciDeviceType::NetworkAdapter
        } else if c0 == 48 && c1 == 49 {
            PciDeviceType::StorageController
        } else {
            PciDeviceType::Other
        }
    }

    /// The name of the class of a class text such as `0x030000`.
    pub fn get_device_class(class: &str) -> (r: String)
        requires
            class_slices_ok(class.spec_bytes(), true),
        ensures
            r@ == class_name_of(class@, class.spec_bytes()),
    {
        let b = class.as_bytes();
        let n = b.len();
        if n < 4 {
            return String::from_str("Unknown PCI device");
        }
        let c0 = b[2];
        let c1 = b[3];
        let (s0, s1) = if n >= 6 {
            (b[4], b[5])
        } else {
            (48u8, 48u8)
        };
        let name = if c0 == 48 && c1 == 51 {
            if s0 == 48 && s1 == 48 {
                "VGA compatible controller"
            } else if s0 == 48 && s1 == 49 {
                "XGA compatible controller"
            } else if s0 == 48 && s1 == 50 {
                "3D controller"
            } else {
                "Display controller"
            }
        } else if c0 == 48 && c1 == 52 {
            if s0 == 48 && s1 == 49 {
                "Audio device"
            } else if s0 == 48 && s1 == 51 {
                "Audio device (HD Audio)"
            } else {
                "Multimedia controller"
            }
        } else if c0 == 48 && c1 == 99 && s0 == 48 && s1 == 51 {
            "USB controller"
        } else if c0 == 48 && c1 == 50 && s0 == 48 && s1 == 48 {
            "Ethernet controller"
        } else if c0 == 48 && c1 == 50 && s0 == 56 && s1 == 48 {
            "Network controller"
        } else if c0 == 48 && c1 == 49 {
            if s0 == 48 && s1 == 49 {
                "IDE interface"
            } else if s0 == 48 && s1 == 54 {
                "SATA controller"
            } else if s0 == 48 && s1 == 56 {
                "NVMe controller"
            } else {
                "Storage controller"
            }
        } else {
            let mut m = String::from_str("PCI device (class ");
            m.append(class);
            m.append(")");
            return m;
        };
        String::from_str(name)
    }

    /// Whether a device of type `device_type` bound to `driver` may be passed through.
    pub fn is_passthrough_safe(device_type: &PciDeviceType, driver: &Option<String>) -> (r: bool)
        ensures
            r == passthrough_safe(*device_type, opt_view(*driver)),
    {
        match device_type {
            PciDeviceType::Gpu | PciDeviceType::Audio | PciDeviceType::UsbController | PciDeviceType::NetworkAdapter => {
                true
            },
            PciDeviceType::StorageController => match driver {
                Some(d) => str_eq(d.as_str(), "vfio-pci"),
                None => false,
            },
            PciDeviceType::Other => false,
        }
    }

    /// The trimmed value of the first `tag` element.
    pub fn extract_xml_value(xml: &str, tag: &str) -> (r: Option<String>)
        requires
            tag@.len() > 0,
        ensures
            opt_view(r) == tag_value(xml@, tag@),
    {
        proof {
            reveal_strlit("<");
        }
        let end_tag = replace_all_str(tag, "<", "</");
        let v = chars_of(xml);
        match quoted_after_exec(v.as_slice(), tag, end_tag.as_str(), 0) {
            Some(x) => Some(trim_string(x.as_str())),
            None => None,
        }
    }

    /// The libvirt node device name of a PCI address.
    pub fn nodedev_name(address: &str) -> (r: String)
        ensures
            r@ == nodedev_name_of(address@),
    {
        proof {
            reveal_strlit(":");
            reveal_strlit(".");
        }
        let a = replace_all_str(address, ":", "_");
        let b = replace_all_str(a.as_str(), ".", "_");
        let mut r = String::from_str("pci_");
        r.append(b.as_str());
        r
    }

    /// The `<hostdev>` that passes the device at `pci_address` through.
    pub fn hostdev_definition(pci_address: &str, managed: bool) -> (r: Result<String, AppError>)
        ensures
            match r {
                Ok(x) => address_fields(pci_address@) matches Some(f) && x@ == pci_hostdev_xml(managed, f),
                Err(e) => address_fields(pci_address@) is None && e is InvalidConfig,
            },
    {
        let f = match address_fields_exec(pci_address) {
            Some(f) => f,
            None => return Err(address_error(pci_address)),
        };
        let mut x = String::from_str("<hostdev mode='subsystem' type='pci' managed='");
        x.append(if managed {
            "yes"
        } else {
            "no"
        });
        x.append("'>\n  <source>\n    <address ");
        x.append(address_search_exec(&f).as_str());
        x.append("/>\n  </source>\n</hostdev>");
        Ok(x)
    }

    /// The `<hostdev>` element of a domain definition that passes the device at
    /// `pci_address` through, as it stands there.
    pub fn find_hostdev(xml: &str, pci_address: &str) -> (r: Result<String, AppError>)
        ensures
            match r {
                Ok(x) => address_fields(pci_address@) is Some && hostdev_from(
                    xml@,
                    address_search(address_fields(pci_address@)->0),
                    0,
                ) == Some(x@),
                Err(e) => (address_fields(pci_address@) matches Some(f) ==> hostdev_from(xml@, address_search(f), 0)
                    is None) && e is InvalidConfig,
            },
    {
        let f = match address_fields_exec(pci_address) {
            Some(f) => f,
            None => return Err(address_error(pci_address)),
        };
        let search = address_search_exec(&f);
        let s = chars_of(xml);
        let n = s.len();
        let mut pos: usize = 0;
        while pos <= n
            invariant
                n == s@.len(),
                s@ == xml@,
                pos <= n,
                address_fields(pci_address@) == Some((f.0@, f.1@, f.2@, f.3@)),
                search@ == address_search((f.0@, f.1@, f.2@, f.3@)),
                hostdev_from(xml@, search@, 0) == hostdev_from(xml@, search@, pos as int),
            ensures
                hostdev_from(xml@, search@, 0) is None,
            decreases n - pos,
        {
            let a = match find_str_from(s.as_slice(), "<hostdev", pos) {
                Some(a) => a,
                None => break,
            };
            let e = match find_str_from(s.as_slice(), "</hostdev>", a) {
                Some(e) => e,
                None => break,
            };
            proof {
                reveal_strlit("</hostdev>");
            }
            let end = e + 10;
            let section = copy_range(s.as_slice(), a, end);
            if contains_str(section.as_slice(), search.as_str()) {
                proof {
                    assert(e + 10 <= n);
                    assert(section@ == xml@.subrange(a as int, e + 10));
                    assert(hostdev_from(xml@, search@, pos as int) == Some(section@));
                }
                return Ok(string_of_all(section.as_slice()));
            }
            pos = end;
        }
        let mut m = String::from_str("PCI device '");
        m.append(pci_address);
        m.append("' not found in VM");
        Err(AppError::InvalidConfig(m))
    }

    /// The VM, of `domains` (name and definition), whose definition names the device.
    pub fn get_attached_vm(domains: &Vec<(String, String)>, address: &str) -> (r: Option<String>)
        ensures
            opt_view(r) == attached_vm_of(pairs_view(domains@), address@),
    {
        let ghost all = pairs_view(domains@);
        let f = match address_fields_exec(address) {
            Some(f) => f,
            None => {
                proof {
                    if all.len() > 0 {
                    }
                }
                return None;
            },
        };
        let search = address_search_exec(&f);
        let mut i: usize = 0;
        proof {
            assert(all.subrange(0, all.len() as int) =~= all);
        }
        while i < domains.len()
            invariant
                i <= domains@.len(),
                all == pairs_view(domains@),
                address_fields(address@) == Some((f.0@, f.1@, f.2@, f.3@)),
                search@ == address_search((f.0@, f.1@, f.2@, f.3@)),
                attached_vm_of(all, address@) == attached_vm_of(all.subrange(i as int, all.len() as int), address@),
            decreases domains@.len() - i,
        {
            let ghost rest = all.subrange(i as int, all.len() as int);
            proof {
                assert(rest[0] == (domains@[i as int].0@, domains@[i as int].1@));
                assert(rest.drop_first() =~= all.subrange(i + 1, all.len() as int));
            }
            let x = chars_of(domains[i].1.as_str());
            if contains_str(x.as_slice(), search.as_str()) {
                return Some(domains[i].0.clone());
            }
            i = i + 1;
        }
        None
    }

    /// The VFIO binding of a device bound to `current_driver`.
    pub fn get_vfio_status(pci_address: &str, current_driver: Option<String>, iommu_enabled: bool) -> (r: VfioStatus)
        ensures
            r.device_address@ == pci_address@,
            r.bound_to_vfio == (opt_view(current_driver) == Some("vfio-pci"@)),
            opt_view(r.current_driver) == opt_view(current_driver),
            r.iommu_enabled == iommu_enabled,
            r.can_bind == iommu_enabled,
    {
        let bound_to_vfio = match &current_driver {
            Some(d) => str_eq(d.as_str(), "vfio-pci"),
            None => false,
        };
        VfioStatus {
            device_address: String::from_str(pci_address),
            bound_to_vfio,
            current_driver,
            iommu_enabled,
            can_bind: iommu_enabled,
        }
    }

    /// The `vendor device` text written to `vfio-pci`'s `new_id`: both IDs trimmed and
    /// without their `0x` prefixes.
    pub fn vfio_new_id(vendor_id: &str, device_id: &str) -> (r: String)
        ensures
            r@ == strip_hex_prefix(trim(vendor_id@)) + " "@ + strip_hex_prefix(trim(device_id@)),
    {
        let mut r = strip_hex_exec(trim_string(vendor_id).as_str());
        r.append(" ");
        r.append(strip_hex_exec(trim_string(device_id).as_str()).as_str());
        r
    }

    /// A PCI device from what was read of it: vendor, device and class IDs (with their
    /// defaults when unreadable), driver, IOMMU group, the names libvirt knows, and the
    /// VM it is attached to.
    pub fn parse_pci_device(
        address: &str,
        vendor_id: String,
        device_id: String,
        class: &str,
        driver: Option<String>,
        iommu_group: Option<u32>,
        names: Option<(String, String)>,
        attached_to_vm: Option<String>,
    ) -> (r: PciDevice)
        requires
            class_slices_ok(class.spec_bytes(), true),
        ensures
            r.address@ == address@,
            r.vendor_id@ == vendor_id@,
            r.device_id@ == device_id@,
            r.vendor@ == match names {
                Some(n) => n.0@,
                None => "Vendor "@ + vendor_id@,
            },
            r.device_name@ == match names {
                Some(n) => n.1@,
                None => "Device "@ + device_id@,
            },
            r.device_class@ == class_name_of(class@, class.spec_bytes()),
            r.device_type == device_type_of(class.spec_bytes()),
            r.iommu_group == iommu_group,
            r.in_use == driver is Some,
            opt_view(r.attached_to_vm) == opt_view(attached_to_vm),
            opt_view(r.driver) == opt_view(driver),
            r.passthrough_safe == passthrough_safe(device_type_of(class.spec_bytes()), opt_view(driver)),
    {
        let device_type = Self::classify_device(class);
        let (vendor, device_name) = match names {
            Some(n) => n,
            None => {
                let mut v = String::from_str("Vendor ");
                v.append(vendor_id.as_str());
                let mut d = String::from_str("Device ");
                d.append(device_id.as_str());
                (v, d)
            },
        };
        let device_class = Self::get_device_class(class);
        let in_use = driver.is_some();
        let passthrough_safe = Self::is_passthrough_safe(&device_type, &driver);
        PciDevice {
            address: String::from_str(address),
            vendor,
            vendor_id,
            device_name,
            device_id,
            device_class,
            device_type,
            iommu_group,
            in_use,
            attached_to_vm,
            driver,
            passthrough_safe,
        }
    }

    /// An IOMMU group; it counts as safe when it holds any device.
    pub fn iommu_group(group_id: u32, devices: Vec<String>) -> (r: IommuGroup)
        ensures
            r.group_id == group_id,
            r.devices@ == devices@,
            r.passthrough_safe == (devices@.len() > 0),
    {
        let passthrough_safe = devices.len() > 0;
        IommuGroup { group_id, devices, passthrough_safe }
    }
}

fn strip_hex_exec(s: &str) -> (r: String)
    ensures
        r@ == strip_hex_prefix(s@),
{
    let v = chars_of(s);
    let n = v.len();
    let mut i: usize = 0;
    proof {
        assert(v@.subrange(0, n as int) =~= v@);
    }
    while n >= 2 && i <= n - 2 && v[i] == '0' && v[i + 1] == 'x'
        invariant
            n == v@.len(),
            v@ == s@,
            i <= n,
            strip_hex_prefix(s@) == strip_hex_prefix(v@.subrange(i as int, n as int)),
        decreases n - i,
    {
        proof {
            let t = v@.subrange(i as int, n as int);
            assert(t.subrange(2, t.len() as int) =~= v@.subrange(i + 2, n as int));
        }
        i = i + 2;
    }
    crate::text::string_of(v.as_slice(), i, n)
}

} // verus!
