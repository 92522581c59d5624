//! SR-IOV: physical functions and their virtual functions, what `lspci` and `ip link`
//! tell of them, the `ip link` arguments that configure a virtual function, and the
//! `<hostdev>` that hands one to a VM.
use crate::distribution::strings_view;
use crate::error::AppError;
use crate::operation::opt_view;
use crate::pci::{pairs_view, pci_hostdev_xml};
use crate::text::{
    chars_of, char_is_ws, contains, contains_str, copy_range, dec, find, find_str, fmt_u64, is_ws, lines, lines_view,
    parse_signed, parse_signed_str, parse_unsigned, parse_unsigned_range, split_lines, split_on, split_on_chars,
    string_of, string_of_all, trim, trim_string,
};
use vstd::prelude::*;

verus! {

/// SR-IOV operations.
pub struct SriovService;

/// A physical function that can create virtual functions.
#[derive(Debug)]
pub struct SriovPf {
    pub address: String,
    pub device_name: String,
    pub vendor: String,
    pub interface_name: Option<String>,
    pub max_vfs: u32,
    pub num_vfs: u32,
    pub available_vfs: u32,
    pub driver: Option<String>,
    pub link_speed: Option<String>,
}

/// A virtual function.
#[derive(Debug)]
pub struct SriovVf {
    pub address: String,
    pub vf_index: u32,
    pub parent_pf: String,
    pub mac_address: Option<String>,
    pub vlan_id: Option<u16>,
    pub in_use: bool,
    pub attached_to_vm: Option<String>,
    pub iommu_group: Option<u32>,
}

/// The settings of a virtual function.
#[derive(Debug)]
pub struct SriovVfConfig {
    pub pf_interface: String,
    pub vf_index: u32,
    pub mac_address: Option<String>,
    pub vlan_id: Option<u16>,
    pub spoof_check: bool,
    pub trust: bool,
}

/// The link speed of a network interface: positive speeds in Mb/s, shown in Gb/s from
/// one gigabit on.
pub open spec fn link_speed_of(raw: Seq<char>) -> Option<Seq<char>> {
    match parse_signed(trim(raw), -2147483648, 2147483647) {
        Some(s) => if s <= 0 {
            None
        } else if s >= 1000 {
            Some(dec((s / 1000) as nat) + " Gb/s"@)
        } else {
            Some(dec(s as nat) + " Mb/s"@)
        },
        None => None,
    }
}

/// Vendor and device from the first line of `lspci -v`: the text after `: ` split at its
/// first space.
pub open spec fn pci_names_of(out: Seq<char>) -> (Option<Seq<char>>, Option<Seq<char>>) {
    let ls = lines(out);
    if ls.len() == 0 {
        (None, None)
    } else {
        match find(ls[0], ": "@) {
            Some(c) => {
                let desc = ls[0].subrange(c + 2, ls[0].len() as int);
                match find(desc, " "@) {
                    Some(sp) => (Some(desc.subrange(0, sp)), Some(desc.subrange(sp + 1, desc.len() as int))),
                    None => (Some(desc), None),
                }
            },
            None => (None, None),
        }
    }
}

/// First position at or after `i` that holds a comma or whitespace.
pub open spec fn field_end(s: Seq<char>, i: int) -> Option<int>
    decreases s.len() - i,
{
    if i < 0 || i >= s.len() {
        None
    } else if s[i] == ',' || is_ws(s[i]) {
        Some(i)
    } else {
        field_end(s, i + 1)
    }
}

/// The field after `label` on a line, up to a comma or whitespace.
pub open spec fn field_after(line: Seq<char>, label: Seq<char>) -> Option<Seq<char>> {
    match find(line, label) {
        Some(p) => match field_end(line, p + label.len()) {
            Some(e) => Some(line.subrange(p + label.len(), e)),
            None => None,
        },
        None => None,
    }
}

/// `str::parse::<u16>`.
pub open spec fn parse_u16(s: Seq<char>) -> Option<u16> {
    match parse_unsigned(s, 65535) {
        Some(v) => Some(v as u16),
        None => None,
    }
}

/// The MAC address and VLAN of a virtual function after the given lines of `ip link
/// show`: each line that mentions `vf N` may set them.
pub open spec fn vf_config_of(ls: Seq<Seq<char>>, pattern: Seq<char>) -> (Option<Seq<char>>, Option<u16>)
    decreases ls.len(),
{
    if ls.len() == 0 {
        (None, None)
    } else {
        let prev = vf_config_of(ls.drop_last(), pattern);
        let line = ls.last();
        if contains(line, pattern) {
            (
                match field_after(line, "MAC "@) {
                    Some(m) => Some(m),
                    None => prev.0,
                },
                match field_after(line, "vlan "@) {
                    Some(v) => match parse_u16(v) {
                        Some(x) => Some(x),
                        None => prev.1,
                    },
                    None => prev.1,
                },
            )
        } else {
            prev
        }
    }
}

pub open spec fn on_off(b: bool) -> Seq<char> {
    if b {
        "on"@
    } else {
        "off"@
    }
}

/// The `ip` arguments that configure a virtual function.
pub open spec fn vf_args_of(pf: Seq<char>, idx: u32, mac: Option<Seq<char>>, vlan: Option<u16>, spoof: bool, trust: bool) -> Seq<
    Seq<char>,
> {
    seq!["link"@, "set"@, pf, "vf"@, dec(idx as nat)] + (match mac {
        Some(m) => seq!["mac"@, m],
        None => Seq::empty(),
    }) + (match vlan {
        Some(v) => seq!["vlan"@, dec(v as nat)],
        None => Seq::empty(),
    }) + seq!["spoofchk"@, on_off(spoof), "trust"@, on_off(trust)]
}

/// The name of the first domain whose definition mentions the address.
pub open spec fn vf_user_of(domains: Seq<(Seq<char>, Seq<char>)>, address: Seq<char>) -> Option<Seq<char>>
    decreases domains.len(),
{
    if domains.len() == 0 {
        None
    } else if contains(domains[0].1, address) {
        Some(domains[0].0)
    } else {
        vf_user_of(domains.drop_first(), address)
    }
}

/// A count read from sysfs: trimmed and parsed, 0 when unreadable.
pub open spec fn sysfs_count(raw: Option<Seq<char>>) -> u32 {
    match crate::mdev::count_of(raw) {
        Some(v) => v,
        None => 0,
    }
}

fn field_after_exec(line: &[char], label: &str) -> (r: Option<String>)
    ensures
        opt_view(r) == field_after(line@, label@),
{
    let n = line.len();
    let p = match find_str(line, label) {
        Some(p) => p,
        None => return None,
    };
    let lv = chars_of(label);
    let start = p + lv.len();
    let mut e = start;
    while e < n && !(line[e] == ',' || char_is_ws(line[e]))
        invariant
            n == line@.len(),
            start <= e <= n,
            field_end(line@, start as int) == field_end(line@, e as int),
        decreases n - e,
    {
        e = e + 1;
    }
    if e >= n {
        return None;
    }
    Some(string_of(line, start, e))
}

fn parse_u16_exec(s: &String) -> (r: Option<u16>)
    ensures
        r == parse_u16(s@),
{
    let v = chars_of(s.as_str());
    proof {
        assert(v@.subrange(0, v@.len() as int) =~= v@);
    }
    match parse_unsigned_range(v.as_slice(), 0, v.len(), 65535) {
        Some(x) => Some(x as u16),
        None => None,
    }
}

fn sysfs_count_exec(raw: &Option<String>) -> (r: u32)
    ensures
        r == sysfs_count(opt_view(*raw)),
{
    match raw {
        Some(s) => {
            let t = trim_string(s.as_str());
            let v = chars_of(t.as_str());
            proof {
                assert(v@.subrange(0, v@.len() as int) =~= v@);
            }
            match parse_unsigned_range(v.as_slice(), 0, v.len(), 4294967295) {
                Some(x) => x as u32,
                None => 0,
            }
        },
        None => 0,
    }
}

impl SriovService {
    /// A count read from a sysfs file (`sriov_totalvfs`, `sriov_numvfs`).
    pub fn read_count(raw: &Option<String>) -> (r: u32)
        ensures
            r == sysfs_count(opt_view(*raw)),
    {
        sysfs_count_exec(raw)
    }

    /// The link speed shown for a physical function's interface.
    pub fn link_speed(raw: &str) -> (r: Option<String>)
        ensures
            opt_view(r) == link_speed_of(raw@),
    {
        let t = trim_string(raw);
        match parse_signed_str(t.as_str(), -2147483648, 2147483647) {
            Some(s) => {
                if s <= 0 {
                    None
                } else if s >= 1000 {
                    let mut x = fmt_u64((s / 1000) as u64);
                    x.append(" Gb/s");
                    Some(x)
                } else {
                    let mut x = fmt_u64(s as u64);
                    x.append(" Mb/s");
                    Some(x)
                }
            },
            None => None,
        }
    }

    /// Vendor and device names from the output of `lspci -s ADDRESS -v`.
    pub fn get_pci_names(lspci_output: &str) -> (r: (Option<String>, Option<String>))
        ensures
            (opt_view(r.0), opt_view(r.1)) == pci_names_of(lspci_output@),
    {
        let ls = split_lines(lspci_output);
        if ls.len() == 0 {
            return (None, None);
        }
        proof {
            assert(lines_view(ls@)[0] == ls@[0]@);
        }
        let first = ls[0].as_slice();
        let c = match find_str(first, ": ") {
            Some(c) => c,
            None => return (None, None),
        };
        let fl = first.len();
        proof {
            reveal_strlit(": ");
            assert(c + 2 <= fl);
        }
        let desc = copy_range(first, c + 2, fl);
        match find_str(desc.as_slice(), " ") {
            Some(sp) => {
                proof {
                    reveal_strlit(" ");
                }
                (Some(string_of(desc.as_slice(), 0, sp)), Some(string_of(desc.as_slice(), sp + 1, desc.len())))
            },
            None => (Some(string_of_all(desc.as_slice())), None),
        }
    }

    /// The MAC address and VLAN of virtual function `vf_index` from `ip link show`.
    pub fn get_vf_config(ip_output: &str, vf_index: u32) -> (r: (Option<String>, Option<u16>))
        ensures
            (opt_view(r.0), r.1) == vf_config_of(lines(ip_output@), "vf "@ + dec(vf_index as nat)),
    {
        let mut pattern = String::from_str("vf ");
        pattern.append(fmt_u64(vf_index as u64).as_str());
        let ls = split_lines(ip_output);
        let ghost lv = lines_view(ls@);
        let n = ls.len();
        let mut mac: Option<String> = None;
        let mut vlan: Option<u16> = None;
        let mut i: usize = 0;
        proof {
            assert(lv.subrange(0, 0) =~= Seq::<Seq<char>>::empty());
        }
        while i < n
            invariant
                n == ls@.len(),
                lv == lines_view(ls@),
                lv == lines(ip_output@),
                pattern@ == "vf "@ + dec(vf_index as nat),
                i <= n,
                (opt_view(mac), vlan) == vf_config_of(lv.subrange(0, i as int), pattern@),
            decreases n - i,
        {
            let ghost sub = lv.subrange(0, i + 1);
            proof {
                assert(sub.drop_last() =~= lv.subrange(0, i as int));
                assert(sub.last() == ls@[i as int]@);
            }
            let line = ls[i].as_slice();
            if contains_str(line, pattern.as_str()) {
                if let Some(m) = field_after_exec(line, "MAC ") {
                    mac = Some(m);
                }
                if let Some(v) = field_after_exec(line, "vlan ") {
                    if let Some(x) = parse_u16_exec(&v) {
                        vlan = Some(x);
                    }
                }
            }
            i = i + 1;
        }
        proof {
            assert(lv.subrange(0, n as int) =~= lv);
        }
        (mac, vlan)
    }

    /// The `ip` arguments that configure a virtual function.
    pub fn configure_vf_args(config: &SriovVfConfig) -> (r: Vec<String>)
        ensures
            strings_view(r@) == vf_args_of(
                config.pf_interface@,
                config.vf_index,
                opt_view(config.mac_address),
                config.vlan_id,
                config.spoof_check,
                config.trust,
            ),
    {
        let mut args: Vec<String> = Vec::new();
        args.push(String::from_str("link"));
        args.push(String::from_str("set"));
        args.push(config.pf_interface.clone());
        args.push(String::from_str("vf"));
        args.push(fmt_u64(config.vf_index as u64));
        let ghost a1 = strings_view(args@);
        if let Some(m) = &config.mac_address {
            args.push(String::from_str("mac"));
            args.push(m.clone());
        }
        let ghost a2 = strings_view(args@);
        if let Some(v) = config.vlan_id {
            args.push(String::from_str("vlan"));
            args.push(fmt_u64(v as u64));
        }
        let ghost a3 = strings_view(args@);
        args.push(String::from_str("spoofchk"));
        args.push(String::from_str(if config.spoof_check {
            "on"
        } else {
            "off"
        }));
        args.push(String::from_str("trust"));
        args.push(String::from_str(if config.trust {
            "on"
        } else {
            "off"
        }));
        proof {
            assert(a1 =~= seq!["link"@, "set"@, config.pf_interface@, "vf"@, dec(config.vf_index as nat)]);
            assert(a2 =~= a1 + match opt_view(config.mac_address) {
                Some(m) => seq!["mac"@, m],
                None => Seq::<Seq<char>>::empty(),
            });
            assert(a3 =~= a2 + match config.vlan_id {
                Some(v) => seq!["vlan"@, dec(v as nat)],
                None => Seq::<Seq<char>>::empty(),
            });
            assert(strings_view(args@) =~= a3 + seq![
                "spoofchk"@,
                on_off(config.spoof_check),
                "trust"@,
                on_off(config.trust),
            ]);
        }
        args
    }

    /// The `<hostdev>` that hands the virtual function at `vf_address`
    /// (`domain:bus:slot.function`) to a VM.
    pub fn vf_hostdev_definition(vf_address: &str) -> (r: Result<String, AppError>)
        ensures
            match r {
                Ok(x) => split_on(vf_address@, ':', '.').len() == 4 && x@ == pci_hostdev_xml(
                    true,
                    (
                        split_on(vf_address@, ':', '.')[0],
                        split_on(vf_address@, ':', '.')[1],
                        split_on(vf_address@, ':', '.')[2],
                        split_on(vf_address@, ':', '.')[3],
                    ),
                ),
                Err(e) => split_on(vf_address@, ':', '.').len() != 4 && e is InvalidConfig,
            },
    {
        let v = chars_of(vf_address);
        let parts = split_on_chars(v.as_slice(), ':', '.');
        if parts.len() != 4 {
            let mut m = String::from_str("Invalid PCI address format: ");
            m.append(vf_address);
            return Err(AppError::InvalidConfig(m));
        }
        proof {
            assert(lines_view(parts@)[0] == parts@[0]@);
            assert(lines_view(parts@)[1] == parts@[1]@);
            assert(lines_view(parts@)[2] == parts@[2]@);
            assert(lines_view(parts@)[3] == parts@[3]@);
        }
        let p0 = string_of_all(parts[0].as_slice());
        let p1 = string_of_all(parts[1].as_slice());
        let p2 = string_of_all(parts[2].as_slice());
        let p3 = string_of_all(parts[3].as_slice());
        let mut search = String::from_str("domain='0x");
        search.append(p0.as_str());
        search.append("' bus='0x");
        search.append(p1.as_str());
        search.append("' slot='0x");
        search.append(p2.as_str());
        search.append("' function='0x");
        search.append(p3.as_str());
        search.append("'");
        let mut x = String::from_str("<hostdev mode='subsystem' type='pci' managed='");
        x.append("yes");
        x.append("'>\n  <source>\n    <address ");
        x.append(search.as_str());
        x.append("/>\n  </source>\n</hostdev>");
        proof {
            let sp = split_on(vf_address@, ':', '.');
            assert(sp[0] == p0@ && sp[1] == p1@ && sp[2] == p2@ && sp[3] == p3@);
            assert(search@ == crate::pci::address_search((p0@, p1@, p2@, p3@)));
        }
        Ok(x)
    }

    /// Whether a virtual function is attached, and to which running VM of `domains`
    /// (name and definition).
    pub fn get_vf_attachment(domains: &Vec<(String, String)>, vf_address: &str) -> (r: (bool, Option<String>))
        ensures
            opt_view(r.1) == vf_user_of(pairs_view(domains@), vf_address@),
            r.0 == r.1 is Some,
    {
        let ghost all = pairs_view(domains@);
        let mut i: usize = 0;
        proof {
            assert(all.subrange(0, all.len() as int) =~= all);
        }
        while i < domains.len()
            invariant
                i <= domains@.len(),
                all == pairs_view(domains@),
                vf_user_of(all, vf_address@) == vf_user_of(all.subrange(i as int, all.len() as int), vf_address@),
            decreases domains@.len() - i,
        {
            let ghost rest = all.subrange(i as int, all.len() as int);
            proof {
                assert(rest[0] == (domains@[i as int].0@, domains@[i as int].1@));
                assert(rest.drop_first() =~= all.subrange(i + 1, all.len() as int));
            }
            let x = chars_of(domains[i].1.as_str());
            if contains_str(x.as_slice(), vf_address) {
                return (true, Some(domains[i].0.clone()));
            }
            i = i + 1;
        }
        (false, None)
    }

    /// A physical function from what was read of it: the vendor and device IDs (`0x0000`
    /// when unreadable, then trimmed), the names `lspci` gave, and how many of its
    /// virtual functions are in use.
    pub fn physical_function(
        address: String,
        max_vfs: u32,
        num_vfs: u32,
        vendor_raw: Option<String>,
        device_raw: Option<String>,
        names: (Option<String>, Option<String>),
        interface_name: Option<String>,
        driver: Option<String>,
        link_speed: Option<String>,
        vfs_in_use: u32,
    ) -> (r: SriovPf)
        ensures
            r.address@ == address@,
            r.device_name@ == match names.1 {
                Some(d) => d@,
                None => "Device "@ + trim(
                    match device_raw {
                        Some(d) => d@,
                        None => "0x0000"@,
                    },
                ),
            },
            r.vendor@ == match names.0 {
                Some(v) => v@,
                None => "Vendor "@ + trim(
                    match vendor_raw {
                        Some(v) => v@,
                        None => "0x0000"@,
                    },
                ),
            },
            opt_view(r.interface_name) == opt_view(interface_name),
            r.max_vfs == max_vfs,
            r.num_vfs == num_vfs,
            r.available_vfs == if num_vfs >= vfs_in_use {
                num_vfs - vfs_in_use
            } else {
                0
            },
            opt_view(r.driver) == opt_view(driver),
            opt_view(r.link_speed) == opt_view(link_speed),
    {
        let vendor_id = match &vendor_raw {
            Some(v) => trim_string(v.as_str()),
            None => trim_string("0x0000"),
        };
        let device_id = match &device_raw {
            Some(d) => trim_string(d.as_str()),
            None => trim_string("0x0000"),
        };
        let (vendor_name, device_name) = names;
        let device_name = match device_name {
            Some(d) => d,
            None => {
                let mut x = String::from_str("Device ");
                x.append(device_id.as_str());
                x
            },
        };
        let vendor = match vendor_name {
            Some(v) => v,
            None => {
                let mut x = String::from_str("Vendor ");
                x.append(vendor_id.as_str());
                x
            },
        };
        let available_vfs = if num_vfs >= vfs_in_use {
            num_vfs - vfs_in_use
        } else {
            0
        };
        SriovPf {
            address,
            device_name,
            vendor,
            interface_name,
            max_vfs,
            num_vfs,
            available_vfs,
            driver,
            link_speed,
        }
    }
}

} // verus!
