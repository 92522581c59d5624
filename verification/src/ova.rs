//! Reading the OVF descriptor of an appliance: name, hardware, disks and networks; and
//! the naming and conversion steps of an import.
use crate::distribution::strings_view;
use crate::error::AppError;
use crate::operation::opt_view;
use crate::storage::{extension_of, path_extension};
use crate::text::{
    chars_of, contains, copy_range, dec, ends_with, find, find_from, find_str, find_str_from, fmt_u64, lower,
    lower_string, parse_unsigned, parse_unsigned_range, rfind, rfind_chars, str_eq, string_of, trim, trim_bounds,
};
use crate::vm_inspect::{quoted_after, quoted_after_exec};
use vstd::prelude::*;

verus! {

/// Imports appliances.
pub struct OvaService;

/// What the OVF descriptor tells about an appliance.
#[derive(Debug)]
pub struct OvfMetadata {
    pub name: String,
    pub description: Option<String>,
    pub os_type: Option<String>,
    pub cpu_count: u32,
    pub memory_mb: u64,
    pub disks: Vec<OvfDisk>,
    pub networks: Vec<OvfNetwork>,
}

/// A disk of an appliance.
#[derive(Debug)]
pub struct OvfDisk {
    pub id: String,
    pub file_name: String,
    pub capacity_bytes: u64,
    pub format: String,
}

/// A network of an appliance.
#[derive(Debug)]
pub struct OvfNetwork {
    pub name: String,
    pub description: Option<String>,
}

/// How an appliance is imported.
#[derive(Debug)]
pub struct OvaImportConfig {
    pub source_path: String,
    pub target_pool_path: String,
    pub vm_name: Option<String>,
    pub memory_mb: Option<u64>,
    pub cpu_count: Option<u32>,
    pub convert_to_qcow2: bool,
}

/// The value of `convert_to_qcow2` when a request leaves it out.
pub fn default_true() -> (r: bool)
    ensures
        r,
{
    true
}

/// The kind of file an appliance comes in.
#[derive(Clone, Copy, Debug, PartialEq, Eq, Structural)]
pub enum OvaSourceKind {
    /// A tar archive that holds the descriptor and the disks.
    Ova,
    /// A descriptor with the disks beside it.
    Ovf,
}

pub struct DiskView {
    pub id: Seq<char>,
    pub file_name: Seq<char>,
    pub capacity_bytes: u64,
    pub format: Seq<char>,
}

pub struct NetworkView {
    pub name: Seq<char>,
    pub description: Option<Seq<char>>,
}

pub open spec fn disk_view(d: OvfDisk) -> DiskView {
    DiskView { id: d.id@, file_name: d.file_name@, capacity_bytes: d.capacity_bytes, format: d.format@ }
}

pub open spec fn network_view(n: OvfNetwork) -> NetworkView {
    NetworkView { name: n.name@, description: opt_view(n.description) }
}

pub open spec fn first_of(a: Option<Seq<char>>, b: Option<Seq<char>>) -> Option<Seq<char>> {
    match a {
        Some(x) => Some(x),
        None => b,
    }
}

/// The trimmed text before `close` in `rem`, when it is not empty.
pub open spec fn value_before(rem: Seq<char>, close: Seq<char>) -> Option<Seq<char>> {
    match find(rem, close) {
        Some(e) => if trim(rem.subrange(0, e)).len() > 0 {
            Some(trim(rem.subrange(0, e)))
        } else {
            None
        },
        None => None,
    }
}

/// After the first `open` tag: the value up to a closing tag of `tag`, without a
/// namespace prefix, with `ovf:` or with `rasd:`, the first that gives a non-empty value.
pub open spec fn value_after(xml: Seq<char>, open: Seq<char>, tag: Seq<char>) -> Option<Seq<char>> {
    match find(xml, open) {
        Some(s) => {
            let rem = xml.subrange(s + open.len(), xml.len() as int);
            first_of(
                value_before(rem, "</"@ + tag + ">"@),
                first_of(value_before(rem, "</ovf:"@ + tag + ">"@), value_before(rem, "</rasd:"@ + tag + ">"@)),
            )
        },
        None => None,
    }
}

/// The value of an element of the descriptor, under any of its namespace prefixes.
pub open spec fn xml_value(xml: Seq<char>, tag: Seq<char>) -> Option<Seq<char>> {
    first_of(
        value_after(xml, "<"@ + tag + ">"@, tag),
        first_of(value_after(xml, "<ovf:"@ + tag + ">"@, tag), value_after(xml, "<rasd:"@ + tag + ">"@, tag)),
    )
}

/// A double-quoted attribute, without a prefix or with `ovf:`.
pub open spec fn ovf_attribute(elem: Seq<char>, attr: Seq<char>) -> Option<Seq<char>> {
    first_of(
        quoted_after(elem, attr + "=\""@, "\""@, 0),
        quoted_after(elem, "ovf:"@ + attr + "=\""@, "\""@, 0),
    )
}

/// The guest OS: the description inside the operating-system section.
pub open spec fn os_type_of(ovf: Seq<char>) -> Option<Seq<char>> {
    match find(ovf, "OperatingSystemSection"@) {
        Some(s) => match find_from(ovf, "</OperatingSystemSection>"@, s) {
            Some(e) => xml_value(ovf.subrange(s, e), "Description"@),
            None => None,
        },
        None => None,
    }
}

/// `str::parse::<u32>`.
pub open spec fn parse_u32(s: Seq<char>) -> Option<u32> {
    match parse_unsigned(s, 4294967295) {
        Some(v) => Some(v as u32),
        None => None,
    }
}

/// The quantity of the first `<Item` element at or after `pos` whose resource type is
/// `rt` and whose quantity is a `u32`.
pub open spec fn resource_from(ovf: Seq<char>, rt: Seq<char>, pos: int) -> Option<u32>
    decreases ovf.len() - pos,
{
    if pos < 0 {
        None
    } else {
        match find_from(ovf, "<Item"@, pos) {
            Some(a) => match find_from(ovf, "</Item>"@, a) {
                Some(e) => if e + 7 <= pos || e + 7 > ovf.len() {
                    None
                } else {
                    let item = ovf.subrange(a, e + 7);
                    let here = if contains(item, ">"@ + rt + "< "@) || contains(item, ">"@ + rt + "</"@) {
                        match xml_value(item, "VirtualQuantity"@) {
                            Some(q) => parse_u32(q),
                            None => None,
                        }
                    } else {
                        None
                    };
                    match here {
                        Some(v) => Some(v),
                        None => resource_from(ovf, rt, e + 7),
                    }
                },
                None => None,
            },
            None => None,
        }
    }
}

/// The `href` of the `<File` element that declares `id="file_id"`.
pub open spec fn file_by_id(ovf: Seq<char>, file_id: Seq<char>) -> Option<Seq<char>> {
    match find(ovf, "id=\""@ + file_id + "\""@) {
        Some(s) => match rfind(ovf.subrange(0, s), "<File "@) {
            Some(f) => match find_from(ovf, "/>"@, f) {
                Some(e) => ovf_attribute(ovf.subrange(f, e), "href"@),
                None => None,
            },
            None => None,
        },
        None => None,
    }
}

pub open spec fn or_else(o: Option<Seq<char>>, d: Seq<char>) -> Seq<char> {
    match o {
        Some(x) => x,
        None => d,
    }
}

/// The disk an empty-tagged `<Disk` element describes, the `k`-th of the descriptor.
pub open spec fn disk_of(ovf: Seq<char>, elem: Seq<char>, k: nat) -> DiskView {
    let file_ref = or_else(ovf_attribute(elem, "fileRef"@), Seq::empty());
    DiskView {
        id: or_else(ovf_attribute(elem, "diskId"@), "disk-"@ + dec(k)),
        file_name: or_else(file_by_id(ovf, file_ref), file_ref),
        capacity_bytes: match ovf_attribute(elem, "capacity"@) {
            Some(c) => match parse_unsigned(c, 18446744073709551615) {
                Some(v) => v as u64,
                None => 0,
            },
            None => 0,
        },
        format: or_else(ovf_attribute(elem, "format"@), "vmdk"@),
    }
}

/// The disks of the `<Disk` elements at or after `pos`, `k` found before.
pub open spec fn disks_from(ovf: Seq<char>, pos: int, k: nat) -> Seq<DiskView>
    decreases ovf.len() - pos,
{
    if pos < 0 {
        Seq::empty()
    } else {
        match find_from(ovf, "<Disk "@, pos) {
            Some(a) => match find_from(ovf, "/>"@, a) {
                Some(e) => if e + 2 <= pos || e + 2 > ovf.len() {
                    Seq::empty()
                } else {
                    seq![disk_of(ovf, ovf.subrange(a, e + 2), k)] + disks_from(ovf, e + 2, k + 1)
                },
                None => Seq::empty(),
            },
            None => Seq::empty(),
        }
    }
}

/// The end of a `<Network` element that starts at `a`: its closing tag, or else the end
/// of an empty tag.
pub open spec fn network_end(ovf: Seq<char>, a: int) -> Option<int> {
    match find_from(ovf, "</Network>"@, a) {
        Some(e) => Some(e),
        None => find_from(ovf, "/>"@, a),
    }
}

/// The networks of the `<Network` elements at or after `pos`, `k` found before.
pub open spec fn networks_from(ovf: Seq<char>, pos: int, k: nat) -> Seq<NetworkView>
    decreases ovf.len() - pos,
{
    if pos < 0 {
        Seq::empty()
    } else {
        match find_from(ovf, "<Network "@, pos) {
            Some(a) => match network_end(ovf, a) {
                Some(e) => if e <= pos || e > ovf.len() {
                    Seq::empty()
                } else {
                    let elem = ovf.subrange(a, e);
                    seq![
                        NetworkView {
                            name: or_else(ovf_attribute(elem, "name"@), "network-"@ + dec(k)),
                            description: xml_value(elem, "Description"@),
                        },
                    ] + networks_from(ovf, e, k + 1)
                },
                None => Seq::empty(),
            },
            None => Seq::empty(),
        }
    }
}

fn first_of_exec(a: Option<String>, b: Option<String>) -> (r: Option<String>)
    ensures
        opt_view(r) == first_of(opt_view(a), opt_view(b)),
{
    match a {
        Some(x) => Some(x),
        None => b,
    }
}

fn value_before_exec(rem: &[char], close: &str) -> (r: Option<String>)
    ensures
        opt_view(r) == value_before(rem@, close@),
{
    match find_str(rem, close) {
        Some(e) => {
            let (a, b) = trim_bounds(rem, 0, e);
            if a < b {
                Some(string_of(rem, a, b))
            } else {
                None
            }
        },
        None => None,
    }
}

fn tagged(prefix: &str, tag: &str, suffix: &str) -> (r: String)
    ensures
        r@ == prefix@ + tag@ + suffix@,
{
    let mut r = String::from_str(prefix);
    r.append(tag);
    r.append(suffix);
    r
}

fn value_after_exec(xml: &[char], open: &str, tag: &str) -> (r: Option<String>)
    ensures
        opt_view(r) == value_after(xml@, open@, tag@),
{
    let n = xml.len();
    match find_str(xml, open) {
        Some(s) => {
            let ov = chars_of(open);
            let rem = copy_range(xml, s + ov.len(), n);
            let c1 = tagged("</", tag, ">");
            let c2 = tagged("</ovf:", tag, ">");
            let c3 = tagged("</rasd:", tag, ">");
            let v1 = value_before_exec(rem.as_slice(), c1.as_str());
            let v2 = value_before_exec(rem.as_slice(), c2.as_str());
            let v3 = value_before_exec(rem.as_slice(), c3.as_str());
            first_of_exec(v1, first_of_exec(v2, v3))
        },
        None => None,
    }
}

fn xml_value_exec(xml: &[char], tag: &str) -> (r: Option<String>)
    ensures
        opt_view(r) == xml_value(xml@, tag@),
{
    let o1 = tagged("<", tag, ">");
    let o2 = tagged("<ovf:", tag, ">");
    let o3 = tagged("<rasd:", tag, ">");
    let v1 = value_after_exec(xml, o1.as_str(), tag);
    let v2 = value_after_exec(xml, o2.as_str(), tag);
    let v3 = value_after_exec(xml, o3.as_str(), tag);
    first_of_exec(v1, first_of_exec(v2, v3))
}

fn attribute_exec(elem: &[char], attr: &str) -> (r: Option<String>)
    ensures
        opt_view(r) == ovf_attribute(elem@, attr@),
{
    let p1 = tagged("", attr, "=\"");
    let p2 = tagged("ovf:", attr, "=\"");
    proof {
        reveal_strlit("");
        assert(p1@ =~= attr@ + "=\""@);
    }
    let v1 = quoted_after_exec(elem, p1.as_str(), "\"", 0);
    let v2 = quoted_after_exec(elem, p2.as_str(), "\"", 0);
    first_of_exec(v1, v2)
}

fn file_by_id_exec(ovf: &[char], file_id: &str) -> (r: Option<String>)
    ensures
        opt_view(r) == file_by_id(ovf@, file_id@),
{
    let pat = tagged("id=\"", file_id, "\"");
    let s = match find_str(ovf, pat.as_str()) {
        Some(s) => s,
        None => return None,
    };
    let before = copy_range(ovf, 0, s);
    let file_tag = chars_of("<File ");
    let f = match rfind_chars(before.as_slice(), file_tag.as_slice()) {
        Some(f) => f,
        None => return None,
    };
    let e = match find_str_from(ovf, "/>", f) {
        Some(e) => e,
        None => return None,
    };
    let elem = copy_range(ovf, f, e);
    attribute_exec(elem.as_slice(), "href")
}

fn or_else_exec(o: Option<String>, d: String) -> (r: String)
    ensures
        r@ == or_else(opt_view(o), d@),
{
    match o {
        Some(x) => x,
        None => d,
    }
}

fn indexed_name(prefix: &str, k: usize) -> (r: String)
    ensures
        r@ == prefix@ + dec(k as nat),
{
    let mut r = String::from_str(prefix);
    let d = fmt_u64(k as u64);
    r.append(d.as_str());
    r
}

fn disk_of_exec(ovf: &[char], elem: &[char], k: usize) -> (r: OvfDisk)
    ensures
        disk_view(r) == disk_of(ovf@, elem@, k as nat),
{
    let file_ref = or_else_exec(attribute_exec(elem, "fileRef"), String::new());
    let id = or_else_exec(attribute_exec(elem, "diskId"), indexed_name("disk-", k));
    let capacity_bytes = match attribute_exec(elem, "capacity") {
        Some(c) => {
            let cv = chars_of(c.as_str());
            proof {
                assert(cv@.subrange(0, cv@.len() as int) =~= cv@);
            }
            match parse_unsigned_range(cv.as_slice(), 0, cv.len(), u64::MAX) {
                Some(v) => v,
                None => 0,
            }
        },
        None => 0,
    };
    let format = or_else_exec(attribute_exec(elem, "format"), String::from_str("vmdk"));
    let file_name = or_else_exec(file_by_id_exec(ovf, file_ref.as_str()), file_ref.clone());
    OvfDisk { id, file_name, capacity_bytes, format }
}

impl OvaService {
    /// The kind of appliance file, by its extension in any case.
    pub fn source_kind(source_path: &str) -> (r: Result<OvaSourceKind, AppError>)
        ensures
            match r {
                Ok(OvaSourceKind::Ova) => lower(or_else(path_extension(source_path@), Seq::empty())) == "ova"@,
                Ok(OvaSourceKind::Ovf) => lower(or_else(path_extension(source_path@), Seq::empty())) == "ovf"@,
                Err(e) => lower(or_else(path_extension(source_path@), Seq::empty())) != "ova"@ && lower(
                    or_else(path_extension(source_path@), Seq::empty()),
                ) != "ovf"@ && e is InvalidConfig,
            },
    {
        let ext = or_else_exec(extension_of(source_path), String::new());
        let low = lower_string(ext.as_str());
        if str_eq(low.as_str(), "ova") {
            Ok(OvaSourceKind::Ova)
        } else if str_eq(low.as_str(), "ovf") {
            Ok(OvaSourceKind::Ovf)
        } else {
            Err(AppError::invalid("Unsupported file format. Expected .ova or .ovf"))
        }
    }

    /// The value of an element of the descriptor.
    pub fn extract_xml_value(xml: &str, tag: &str) -> (r: Option<String>)
        ensures
            opt_view(r) == xml_value(xml@, tag@),
    {
        let v = chars_of(xml);
        xml_value_exec(v.as_slice(), tag)
    }

    /// A double-quoted attribute of an element.
    pub fn extract_attribute(elem: &str, attr: &str) -> (r: Option<String>)
        ensures
            opt_view(r) == ovf_attribute(elem@, attr@),
    {
        let v = chars_of(elem);
        attribute_exec(v.as_slice(), attr)
    }

    /// The guest OS the descriptor names.
    pub fn extract_ovf_os_type(ovf: &str) -> (r: Option<String>)
        ensures
            opt_view(r) == os_type_of(ovf@),
    {
        let v = chars_of(ovf);
        let s = match find_str(v.as_slice(), "OperatingSystemSection") {
            Some(s) => s,
            None => return None,
        };
        let e = match find_str_from(v.as_slice(), "</OperatingSystemSection>", s) {
            Some(e) => e,
            None => return None,
        };
        let section = copy_range(v.as_slice(), s, e);
        xml_value_exec(section.as_slice(), "Description")
    }

    /// The quantity of the first hardware item of resource type `resource_type`.
    pub fn extract_resource_value(ovf: &str, resource_type: &str) -> (r: Option<u32>)
        ensures
            r == resource_from(ovf@, resource_type@, 0),
    {
        let s = chars_of(ovf);
        let n = s.len();
        let p1 = tagged(">", resource_type, "< ");
        let p2 = tagged(">", resource_type, "</");
        let mut pos: usize = 0;
        while pos <= n
            invariant
                n == s@.len(),
                s@ == ovf@,
                p1@ == ">"@ + resource_type@ + "< "@,
                p2@ == ">"@ + resource_type@ + "</"@,
                pos <= n,
                resource_from(ovf@, resource_type@, 0) == resource_from(ovf@, resource_type@, pos as int),
            decreases n - pos,
        {
            let a = match find_str_from(s.as_slice(), "<Item", pos) {
                Some(a) => a,
                None => return None,
            };
            let e = match find_str_from(s.as_slice(), "</Item>", a) {
                Some(e) => e,
                None => return None,
            };
            proof {
                reveal_strlit("</Item>");
            }
            let end = e + 7;
            let item = copy_range(s.as_slice(), a, end);
            if contains_chars_str(item.as_slice(), p1.as_str()) || contains_chars_str(item.as_slice(), p2.as_str()) {
                if let Some(q) = xml_value_exec(item.as_slice(), "VirtualQuantity") {
                    let qv = chars_of(q.as_str());
                    proof {
                        assert(qv@.subrange(0, qv@.len() as int) =~= qv@);
                    }
                    if let Some(v) = parse_unsigned_range(qv.as_slice(), 0, qv.len(), 4294967295) {
                        return Some(v as u32);
                    }
                }
            }
            pos = end;
        }
        proof {
            assert(false);
        }
        None
    }

    /// The `href` of the file declared with id `file_id`.
    pub fn find_file_by_id(ovf: &str, file_id: &str) -> (r: Option<String>)
        ensures
            opt_view(r) == file_by_id(ovf@, file_id@),
    {
        let v = chars_of(ovf);
        file_by_id_exec(v.as_slice(), file_id)
    }

    /// The disks the descriptor declares, in document order.
    pub fn parse_ovf_disks(ovf: &str) -> (r: Vec<OvfDisk>)
        ensures
            r@.map_values(|d: OvfDisk| disk_view(d)) == disks_from(ovf@, 0, 0),
    {
        let s = chars_of(ovf);
        let n = s.len();
        let mut out: Vec<OvfDisk> = Vec::new();
        let mut pos: usize = 0;
        proof {
            assert(out@.map_values(|d: OvfDisk| disk_view(d)) =~= Seq::<DiskView>::empty());
        }
        while pos <= n
            invariant
                n == s@.len(),
                s@ == ovf@,
                pos <= n,
                out@.len() <= pos,
                disks_from(ovf@, 0, 0) == out@.map_values(|d: OvfDisk| disk_view(d)) + disks_from(
                    ovf@,
                    pos as int,
                    out@.len() as nat,
                ),
            decreases n - pos,
        {
            let a = match find_str_from(s.as_slice(), "<Disk ", pos) {
                Some(a) => a,
                None => {
                    proof {
                        assert(out@.map_values(|d: OvfDisk| disk_view(d)) + Seq::<DiskView>::empty()
                            =~= out@.map_values(|d: OvfDisk| disk_view(d)));
                    }
                    return out;
                },
            };
            let e = match find_str_from(s.as_slice(), "/>", a) {
                Some(e) => e,
                None => {
                    proof {
                        assert(out@.map_values(|d: OvfDisk| disk_view(d)) + Seq::<DiskView>::empty()
                            =~= out@.map_values(|d: OvfDisk| disk_view(d)));
                    }
                    return out;
                },
            };
            proof {
                reveal_strlit("/>");
            }
            let end = e + 2;
            let elem = copy_range(s.as_slice(), a, end);
            let d = disk_of_exec(s.as_slice(), elem.as_slice(), out.len());
            let ghost before = out@.map_values(|d: OvfDisk| disk_view(d));
            let ghost k = out@.len() as nat;
            out.push(d);
            proof {
                assert(out@.map_values(|d: OvfDisk| disk_view(d)) =~= before.push(disk_view(d)));
                assert(before + (seq![disk_view(d)] + disks_from(ovf@, end as int, k + 1)) =~= out@.map_values(
                    |d: OvfDisk| disk_view(d),
                ) + disks_from(ovf@, end as int, k + 1));
            }
            pos = end;
        }
        proof {
            assert(false);
        }
        out
    }

    /// The networks the descriptor declares, in document order.
    pub fn parse_ovf_networks(ovf: &str) -> (r: Vec<OvfNetwork>)
        ensures
            r@.map_values(|x: OvfNetwork| network_view(x)) == networks_from(ovf@, 0, 0),
    {
        let s = chars_of(ovf);
        let n = s.len();
        let mut out: Vec<OvfNetwork> = Vec::new();
        let mut pos: usize = 0;
        proof {
            assert(out@.map_values(|x: OvfNetwork| network_view(x)) =~= Seq::<NetworkView>::empty());
        }
        while pos <= n
            invariant
                n == s@.len(),
                s@ == ovf@,
                pos <= n,
                out@.len() <= pos,
                networks_from(ovf@, 0, 0) == out@.map_values(|x: OvfNetwork| network_view(x)) + networks_from(
                    ovf@,
                    pos as int,
                    out@.len() as nat,
                ),
            decreases n - pos,
        {
            let a = match find_str_from(s.as_slice(), "<Network ", pos) {
                Some(a) => a,
                None => {
                    proof {
                        assert(out@.map_values(|x: OvfNetwork| network_view(x)) + Seq::<NetworkView>::empty()
                            =~= out@.map_values(|x: OvfNetwork| network_view(x)));
                    }
                    return out;
                },
            };
            let e = match find_str_from(s.as_slice(), "</Network>", a) {
                Some(e) => e,
                None => match find_str_from(s.as_slice(), "/>", a) {
                    Some(e) => e,
                    None => {
                        proof {
                            assert(out@.map_values(|x: OvfNetwork| network_view(x)) + Seq::<NetworkView>::empty()
                                =~= out@.map_values(|x: OvfNetwork| network_view(x)));
                        }
                        return out;
                    },
                },
            };
            if e <= pos {
                proof {
                    assert(out@.map_values(|x: OvfNetwork| network_view(x)) + Seq::<NetworkView>::empty()
                        =~= out@.map_values(|x: OvfNetwork| network_view(x)));
                }
                return out;
            }
            let elem = copy_range(s.as_slice(), a, e);
            let name = or_else_exec(attribute_exec(elem.as_slice(), "name"), indexed_name("network-", out.len()));
            let description = xml_value_exec(elem.as_slice(), "Description");
            let net = OvfNetwork { name, description };
            let ghost before = out@.map_values(|x: OvfNetwork| network_view(x));
            let ghost k = out@.len() as nat;
            out.push(net);
            proof {
                assert(out@.map_values(|x: OvfNetwork| network_view(x)) =~= before.push(network_view(net)));
                assert(before + (seq![network_view(net)] + networks_from(ovf@, e as int, k + 1)) =~= out@.map_values(
                    |x: OvfNetwork| network_view(x),
                ) + networks_from(ovf@, e as int, k + 1));
            }
            pos = e;
        }
        proof {
            assert(false);
        }
        out
    }

    /// The metadata of a descriptor: the system identifier or else its name (`Imported
    /// VM` without either), the annotation or else a description, the guest OS, the CPU
    /// count (resource type 3, else 1), the memory in MiB (resource type 4, else 1024),
    /// the disks and the networks.
    pub fn parse_ovf(ovf: &str) -> (r: OvfMetadata)
        ensures
            r.name@ == or_else(
                first_of(xml_value(ovf@, "VirtualSystemIdentifier"@), xml_value(ovf@, "Name"@)),
                "Imported VM"@,
            ),
            opt_view(r.description) == first_of(xml_value(ovf@, "Annotation"@), xml_value(ovf@, "Description"@)),
            opt_view(r.os_type) == os_type_of(ovf@),
            r.cpu_count == match resource_from(ovf@, "3"@, 0) {
                Some(v) => v,
                None => 1,
            },
            r.memory_mb == match resource_from(ovf@, "4"@, 0) {
                Some(v) => v as u64,
                None => 1024,
            },
            r.disks@.map_values(|d: OvfDisk| disk_view(d)) == disks_from(ovf@, 0, 0),
            r.networks@.map_values(|x: OvfNetwork| network_view(x)) == networks_from(ovf@, 0, 0),
    {
        let v = chars_of(ovf);
        let name = or_else_exec(
            first_of_exec(
                xml_value_exec(v.as_slice(), "VirtualSystemIdentifier"),
                xml_value_exec(v.as_slice(), "Name"),
            ),
            String::from_str("Imported VM"),
        );
        let description = first_of_exec(
            xml_value_exec(v.as_slice(), "Annotation"),
            xml_value_exec(v.as_slice(), "Description"),
        );
        let os_type = Self::extract_ovf_os_type(ovf);
        let cpu_count = match Self::extract_resource_value(ovf, "3") {
            Some(c) => c,
            None => 1,
        };
        let memory_mb = match Self::extract_resource_value(ovf, "4") {
            Some(m) => m as u64,
            None => 1024,
        };
        let disks = Self::parse_ovf_disks(ovf);
        let networks = Self::parse_ovf_networks(ovf);
        OvfMetadata { name, description, os_type, cpu_count, memory_mb, disks, networks }
    }

    /// The name of the imported VM: the requested one, else the appliance's.
    pub fn import_vm_name(config: &OvaImportConfig, metadata: &OvfMetadata) -> (r: String)
        ensures
            r@ == or_else(opt_view(config.vm_name), metadata.name@),
    {
        match &config.vm_name {
            Some(n) => n.clone(),
            None => metadata.name.clone(),
        }
    }

    /// Whether an archive member is one of the appliance's disks: its file name ends one
    /// of the disk file names, or one of them ends it.
    pub fn is_disk_member(disk_names: &Vec<String>, file_name: &str) -> (r: bool)
        ensures
            r == exists|i: int| 0 <= i < disk_names@.len() && (ends_with(disk_names@[i]@, file_name@) || ends_with(
                file_name@,
                disk_names@[i]@,
            )),
    {
        let f = chars_of(file_name);
        let mut i: usize = 0;
        while i < disk_names.len()
            invariant
                i <= disk_names@.len(),
                f@ == file_name@,
                forall|j: int| 0 <= j < i ==> !(ends_with(disk_names@[j]@, file_name@) || ends_with(
                    file_name@,
                    disk_names@[j]@,
                )),
            decreases disk_names@.len() - i,
        {
            let d = chars_of(disk_names[i].as_str());
            if crate::text::ends_with_str(d.as_slice(), file_name) || crate::text::ends_with_str(
                f.as_slice(),
                disk_names[i].as_str(),
            ) {
                return true;
            }
            i = i + 1;
        }
        false
    }

    /// Whether an archive member is a disk image by its extension, when no member
    /// matched a declared disk.
    pub fn is_disk_image_extension(ext: &str) -> (r: bool)
        ensures
            r == (ext@ == "vmdk"@ || ext@ == "vhd"@ || ext@ == "vhdx"@ || ext@ == "vdi"@ || ext@ == "raw"@ || ext@
                == "qcow2"@),
    {
        str_eq(ext, "vmdk") || str_eq(ext, "vhd") || str_eq(ext, "vhdx") || str_eq(ext, "vdi") || str_eq(ext, "raw")
            || str_eq(ext, "qcow2")
    }

    /// The file name of converted disk `i`: the VM's name, then `-i` after the first.
    pub fn converted_disk_name(vm_name: &str, i: usize) -> (r: String)
        ensures
            r@ == vm_name@ + (if i == 0 {
                Seq::empty()
            } else {
                "-"@ + dec(i as nat)
            }) + ".qcow2"@,
    {
        let mut r = String::from_str(vm_name);
        if i > 0 {
            r.append("-");
            let d = fmt_u64(i as u64);
            r.append(d.as_str());
        }
        r.append(".qcow2");
        r
    }

    /// The `qemu-img` arguments that convert a disk to QCOW2.
    pub fn conversion_args(source: &str, dest: &str) -> (r: Vec<String>)
        ensures
            strings_view(r@) == seq![
                "convert"@,
                "-f"@,
                "vmdk"@,
                "-O"@,
                "qcow2"@,
                "-o"@,
                "compat=1.1"@,
                source@,
                dest@,
            ],
    {
        let r = vec![
            String::from_str("convert"),
            String::from_str("-f"),
            String::from_str("vmdk"),
            String::from_str("-O"),
            String::from_str("qcow2"),
            String::from_str("-o"),
            String::from_str("compat=1.1"),
            String::from_str(source),
            String::from_str(dest),
        ];
        proof {
            assert(strings_view(r@) =~= seq![
                "convert"@,
                "-f"@,
                "vmdk"@,
                "-O"@,
                "qcow2"@,
                "-o"@,
                "compat=1.1"@,
                source@,
                dest@,
            ]);
        }
        r
    }

    /// The result of an import: the first disk, which holds the system.
    pub fn main_disk(disks: Vec<String>) -> (r: Result<String, AppError>)
        ensures
            match r {
                Ok(d) => disks@.len() > 0 && d@ == disks@[0]@,
                Err(e) => disks@.len() == 0 && e is NotFound,
            },
    {
        if disks.len() == 0 {
            return Err(AppError::NotFound(String::from_str("No disks found in OVA/OVF")));
        }
        Ok(disks[0].clone())
    }
}

fn contains_chars_str(s: &[char], p: &str) -> (r: bool)
    ensures
        r == contains(s@, p@),
{
    crate::text::contains_str(s, p)
}

} // verus!
