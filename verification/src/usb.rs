//! USB passthrough: what sysfs says of a device's speed and class, vendor and product
//! names from `lsusb` descriptions, which devices running VMs hold, and the `<hostdev>`
//! that passes one through.
use crate::distribution::strings_view;
use crate::operation::opt_view;
use crate::text::{
    chars_of, char_is_hex, contains, contains_str, copy_range, find, find_from, find_str, find_str_from, is_hex, lower,
    lower_chars, starts_with, starts_with_str, str_eq, string_of, string_of_all, trim, trim_string,
};
use vstd::prelude::*;

verus! {

/// A USB device of the host.
#[derive(Debug)]
pub struct UsbDevice {
    pub bus: String,
    pub device: String,
    pub vendor_id: String,
    pub product_id: String,
    pub vendor_name: String,
    pub product_name: String,
    pub description: String,
    pub speed: Option<String>,
    pub device_class: Option<String>,
    pub in_use: bool,
    pub used_by_vm: Option<String>,
}

/// The speed shown for a sysfs `speed` value (in Mb/s).
pub open spec fn speed_label_of(raw: Seq<char>) -> Seq<char> {
    let s = trim(raw);
    if s == "1.5"@ {
        "1.5 Mbps (USB 1.0 Low Speed)"@
    } else if s == "12"@ {
        "12 Mbps (USB 1.1 Full Speed)"@
    } else if s == "480"@ {
        "480 Mbps (USB 2.0 High Speed)"@
    } else if s == "5000"@ {
        "5 Gbps (USB 3.0 SuperSpeed)"@
    } else if s == "10000"@ {
        "10 Gbps (USB 3.1 SuperSpeed+)"@
    } else if s == "20000"@ {
        "20 Gbps (USB 3.2 SuperSpeed++)"@
    } else {
        s + " Mbps"@
    }
}

/// The USB class name of a `bDeviceClass` value.
pub open spec fn class_label_of(raw: Seq<char>) -> Seq<char> {
    let c = trim(raw);
    if c == "00"@ {
        "Defined by Interface"@
    } else if c == "01"@ {
        "Audio"@
    } else if c == "02"@ {
        "Communications"@
    } else if c == "03"@ {
        "Human Interface Device"@
    } else if c == "05"@ {
        "Physical"@
    } else if c == "06"@ {
        "Image"@
    } else if c == "07"@ {
        "Printer"@
    } else if c == "08"@ {
        "Mass Storage"@
    } else if c == "09"@ {
        "Hub"@
    } else if c == "0a"@ {
        "CDC-Data"@
    } else if c == "0b"@ {
        "Smart Card"@
    } else if c == "0d"@ {
        "Content Security"@
    } else if c == "0e"@ {
        "Video"@
    } else if c == "0f"@ {
        "Personal Healthcare"@
    } else if c == "10"@ {
        "Audio/Video"@
    } else if c == "11"@ {
        "Billboard"@
    } else if c == "dc"@ {
        "Diagnostic"@
    } else if c == "e0"@ {
        "Wireless Controller"@
    } else if c == "ef"@ {
        "Miscellaneous"@
    } else if c == "fe"@ {
        "Application Specific"@
    } else if c == "ff"@ {
        "Vendor Specific"@
    } else {
        "Class "@ + c
    }
}

/// Vendor and product of an `lsusb` description: split at `, Inc.`, ` Inc.`, ` Corp.`
/// or after ` Technology`, else at the first space.
pub open spec fn description_parts(d: Seq<char>) -> (Seq<char>, Seq<char>) {
    if d.len() == 0 {
        ("Unknown"@, "Unknown"@)
    } else {
        match find(d, ", Inc."@) {
            Some(p) => (d.subrange(0, p), trim(d.subrange(p + 6, d.len() as int))),
            None => match find(d, " Inc."@) {
                Some(p) => (d.subrange(0, p), trim(d.subrange(p + 5, d.len() as int))),
                None => match find(d, " Corp."@) {
                    Some(p) => (d.subrange(0, p), trim(d.subrange(p + 6, d.len() as int))),
                    None => match find(d, " Technology"@) {
                        Some(p) => (
                            d.subrange(0, p + 11),
                            if trim(d.subrange(p + 11, d.len() as int)).len() == 0 {
                                "USB Device"@
                            } else {
                                trim(d.subrange(p + 11, d.len() as int))
                            },
                        ),
                        None => match find(d, " "@) {
                            Some(sp) => (d.subrange(0, sp), d.subrange(sp + 1, d.len() as int)),
                            None => (d, Seq::empty()),
                        },
                    },
                },
            },
        }
    }
}

/// Four hexadecimal digits.
pub open spec fn hex_id_ok(id: Seq<char>) -> bool {
    id.len() == 4 && forall|i: int| 0 <= i < 4 ==> is_hex(#[trigger] id[i])
}

/// The four hexadecimal digits, in lower case, after `<tag id='0x` (or with double
/// quotes when there is no single-quoted one).
pub open spec fn id_in_xml(xml: Seq<char>, tag: Seq<char>) -> Option<Seq<char>> {
    let start = match find(xml, "<"@ + tag + " id='0x"@) {
        Some(s) => Some(s),
        None => find(xml, "<"@ + tag + " id=\"0x"@),
    };
    match start {
        Some(s) => {
            let a = s + tag.len() + 8;
            if a + 4 <= xml.len() && hex_id_ok(xml.subrange(a, a + 4)) {
                Some(lower(xml.subrange(a, a + 4)))
            } else {
                None
            }
        },
        None => None,
    }
}

/// The `vendor:product=vm` entries of the USB `<hostdev` elements at or after `pos`.
pub open spec fn usb_entries_from(xml: Seq<char>, vm: Seq<char>, pos: int) -> Seq<Seq<char>>
    decreases xml.len() - pos,
{
    if pos < 0 {
        Seq::empty()
    } else {
        match find_from(xml, "<hostdev"@, pos) {
            Some(a) => match find_from(xml, "</hostdev>"@, a) {
                Some(e) => if e + 10 <= pos || e + 10 > xml.len() {
                    Seq::empty()
                } else {
                    let block = xml.subrange(a, e + 10);
                    let here = if contains(block, "type='usb'"@) || contains(block, "type=\"usb\""@) {
                        match (id_in_xml(block, "vendor"@), id_in_xml(block, "product"@)) {
                            (Some(v), Some(p)) => seq![v + ":"@ + p + "="@ + vm],
                            _ => Seq::empty(),
                        }
                    } else {
                        Seq::empty()
                    };
                    here + usb_entries_from(xml, vm, e + 10)
                },
                None => Seq::empty(),
            },
            None => Seq::empty(),
        }
    }
}

/// The VM an entry names: the text after its first `=` (up to a second one).
pub open spec fn entry_vm(entry: Seq<char>) -> Option<Seq<char>> {
    match find(entry, "="@) {
        Some(i) => {
            let rest = entry.subrange(i + 1, entry.len() as int);
            match find(rest, "="@) {
                Some(j) => Some(rest.subrange(0, j)),
                None => Some(rest),
            }
        },
        None => None,
    }
}

/// The `<hostdev>` that passes a USB device through by vendor and product.
pub open spec fn usb_hostdev_xml(vendor_id: Seq<char>, product_id: Seq<char>) -> Seq<char> {
    "<hostdev mode='subsystem' type='usb' managed='yes'>\n  <source>\n    <vendor id='0x"@ + vendor_id
        + "'/>\n    <product id='0x"@ + product_id + "'/>\n  </source>\n</hostdev>"@
}

fn hex_id_exec(s: &[char], a: usize) -> (r: bool)
    requires
        a + 4 <= s@.len(),
    ensures
        r == hex_id_ok(s@.subrange(a as int, a + 4)),
{
    let ok = char_is_hex(s[a]) && char_is_hex(s[a + 1]) && char_is_hex(s[a + 2]) && char_is_hex(s[a + 3]);
    proof {
        let t = s@.subrange(a as int, a + 4);
        assert(t[0] == s@[a as int] && t[1] == s@[a + 1] && t[2] == s@[a + 2] && t[3] == s@[a + 3]);
        if ok {
            assert forall|i: int| 0 <= i < 4 implies is_hex(#[trigger] t[i]) by {
                assert(t[i] == s@[a + i]);
            }
        }
    }
    ok
}

fn id_in_xml_exec(xml: &[char], tag: &str) -> (r: Option<String>)
    ensures
        opt_view(r) == id_in_xml(xml@, tag@),
{
    let mut p1 = String::from_str("<");
    p1.append(tag);
    p1.append(" id='0x");
    let mut p2 = String::from_str("<");
    p2.append(tag);
    p2.append(" id=\"0x");
    let start = match find_str(xml, p1.as_str()) {
        Some(s) => s,
        None => match find_str(xml, p2.as_str()) {
            Some(s) => s,
            None => return None,
        },
    };
    let tv = chars_of(tag);
    proof {
        reveal_strlit("<");
        reveal_strlit(" id='0x");
        reveal_strlit(" id=\"0x");
    }
    let n = xml.len();
    let a = start + tv.len() + 8;
    if a > n || n - a < 4 {
        return None;
    }
    if !hex_id_exec(xml, a) {
        return None;
    }
    let id = copy_range(xml, a, a + 4);
    let low = lower_chars(id.as_slice());
    Some(string_of_all(low.as_slice()))
}

/// USB passthrough operations.
pub struct UsbService;


// ---------------------------------------------------------------------------
// lsusb lines
// ---------------------------------------------------------------------------

/// The number of bytes `c` takes in UTF-8.
pub open spec fn utf8_len(c: char) -> int {
    if (c as u32) < 0x80 {
        1
    } else if (c as u32) < 0x800 {
        2
    } else if (c as u32) < 0x10000 {
        3
    } else {
        4
    }
}

/// The index of the character that starts at byte offset `p`, searching from character
/// `k`, which starts at byte `at` (the length when `p` is the end of the text).
pub open spec fn char_at_byte_from(s: Seq<char>, p: int, k: int, at: int) -> Option<int>
    decreases s.len() - k,
{
    if at == p {
        Some(k)
    } else if at > p || k < 0 || k >= s.len() {
        None
    } else {
        char_at_byte_from(s, p, k + 1, at + utf8_len(s[k]))
    }
}

/// The index of the character that starts at byte offset `p` of `s`.
pub open spec fn char_at_byte(s: Seq<char>, p: int) -> Option<int> {
    char_at_byte_from(s, p, 0, 0)
}

/// `str::get(a..b)`: the text between byte offsets `a` and `b`, when both fall on
/// character boundaries and `a <= b`.
pub open spec fn str_get(s: Seq<char>, a: int, b: int) -> Option<Seq<char>> {
    match (char_at_byte(s, a), char_at_byte(s, b)) {
        (Some(i), Some(j)) => if i <= j {
            Some(s.subrange(i, j))
        } else {
            None
        },
        _ => None,
    }
}

/// The number of bytes of `s` in UTF-8.
pub open spec fn utf8_size(s: Seq<char>) -> int
    decreases s.len(),
{
    if s.len() == 0 {
        0
    } else {
        utf8_size(s.drop_last()) + utf8_len(s.last())
    }
}

/// The byte offset of character `k`.
pub open spec fn byte_pos(s: Seq<char>, k: int) -> int {
    utf8_size(s.subrange(0, k))
}

/// The fields of one `lsusb` line such as `Bus 001 Device 002: ID 046d:c52b Logitech,
/// Inc. Unifying Receiver`: bus, device, vendor id, product id and description; read at
/// the byte offsets `lsusb` prints them at.
pub open spec fn lsusb_fields(line: Seq<char>) -> Option<(Seq<char>, Seq<char>, Seq<char>, Seq<char>, Seq<char>)> {
    if !starts_with(line, "Bus "@) {
        None
    } else {
        match str_get(line, 4, 7) {
            None => None,
            Some(bus) => match find(line, "Device "@) {
                None => None,
                Some(dk) => {
                    let ds = byte_pos(line, dk);
                    match str_get(line, ds + 7, ds + 10) {
                        None => None,
                        Some(dev) => match find(line, "ID "@) {
                            None => None,
                            Some(ik) => {
                                let id_part = line.subrange(ik + 3, line.len() as int);
                                if utf8_size(id_part) < 9 {
                                    None
                                } else {
                                    match (str_get(id_part, 0, 4), str_get(id_part, 5, 9)) {
                                        (Some(v), Some(pr)) => if all_hex(v) && all_hex(pr) {
                                            let desc = match char_at_byte(id_part, 10) {
                                                Some(i) => trim(id_part.subrange(i, id_part.len() as int)),
                                                None => ""@,
                                            };
                                            Some((bus, crate::text::strip_end(dev, ':'), v, pr, desc))
                                        } else {
                                            None
                                        },
                                        _ => None,
                                    }
                                }
                            },
                        },
                    }
                },
            },
        }
    }
}

pub open spec fn all_hex(s: Seq<char>) -> bool {
    forall|i: int| 0 <= i < s.len() ==> is_hex(#[trigger] s[i])
}

/// The fields of one `lsusb` line.
#[derive(Debug)]
pub struct LsusbFields {
    pub bus: String,
    pub device: String,
    pub vendor_id: String,
    pub product_id: String,
    pub description: String,
}

fn utf8_len_exec(c: char) -> (r: u128)
    ensures
        r == utf8_len(c),
{
    let v = c as u32;
    if v < 0x80 {
        1
    } else if v < 0x800 {
        2
    } else if v < 0x10000 {
        3
    } else {
        4
    }
}

proof fn lemma_utf8_size_push(s: Seq<char>, c: char)
    ensures
        utf8_size(s.push(c)) == utf8_size(s) + utf8_len(c),
{
    assert(s.push(c).drop_last() =~= s);
}

proof fn lemma_utf8_size_bound(s: Seq<char>)
    ensures
        s.len() <= utf8_size(s) <= 4 * s.len(),
    decreases s.len(),
{
    if s.len() > 0 {
        lemma_utf8_size_bound(s.drop_last());
    }
}

/// The character index at byte offset `p` of `s`.
fn char_at_byte_exec(s: &[char], p: u128) -> (r: Option<usize>)
    ensures
        opt_int_usize(r) == char_at_byte(s@, p as int),
        r matches Some(k) ==> k <= s@.len(),
{
    let mut k: usize = 0;
    let mut at: u128 = 0;
    proof {
        assert(s@.subrange(0, 0) =~= Seq::<char>::empty());
    }
    while k < s.len() && at < p
        invariant
            k <= s@.len(),
            at == utf8_size(s@.subrange(0, k as int)),
            char_at_byte(s@, p as int) == char_at_byte_from(s@, p as int, k as int, at as int),
        decreases s@.len() - k,
    {
        proof {
            lemma_utf8_size_push(s@.subrange(0, k as int), s@[k as int]);
            assert(s@.subrange(0, k + 1) =~= s@.subrange(0, k as int).push(s@[k as int]));
            lemma_utf8_size_bound(s@.subrange(0, k as int));
        }
        at = at + utf8_len_exec(s[k]);
        k = k + 1;
    }
    if at == p {
        Some(k)
    } else {
        None
    }
}

pub open spec fn opt_int_usize(o: Option<usize>) -> Option<int> {
    match o {
        Some(x) => Some(x as int),
        None => None,
    }
}

fn str_get_exec(s: &[char], a: u128, b: u128) -> (r: Option<Vec<char>>)
    ensures
        match r {
            Some(v) => str_get(s@, a as int, b as int) == Some(v@),
            None => str_get(s@, a as int, b as int) is None,
        },
{
    let i = match char_at_byte_exec(s, a) {
        Some(i) => i,
        None => return None,
    };
    let j = match char_at_byte_exec(s, b) {
        Some(j) => j,
        None => return None,
    };
    if i <= j {
        Some(copy_range(s, i, j))
    } else {
        None
    }
}

fn all_hex_exec(s: &Vec<char>) -> (r: bool)
    ensures
        r == all_hex(s@),
{
    let mut i: usize = 0;
    while i < s.len()
        invariant
            i <= s@.len(),
            forall|k: int| 0 <= k < i ==> is_hex(s@[k]),
        decreases s@.len() - i,
    {
        if !char_is_hex(s[i]) {
            return false;
        }
        i = i + 1;
    }
    true
}

fn strip_end_colons(s: &Vec<char>) -> (r: String)
    ensures
        r@ == crate::text::strip_end(s@, ':'),
{
    let mut n = s.len();
    proof {
        assert(s@.subrange(0, s@.len() as int) =~= s@);
    }
    while n > 0 && s[n - 1] == ':'
        invariant
            n <= s@.len(),
            crate::text::strip_end(s@, ':') == crate::text::strip_end(s@.subrange(0, n as int), ':'),
        decreases n,
    {
        proof {
            assert(s@.subrange(0, n as int).drop_last() =~= s@.subrange(0, n - 1));
        }
        n = n - 1;
    }
    proof {
        assert(s@.subrange(0, s@.len() as int) =~= s@);
        if n > 0 {
            assert(s@.subrange(0, n as int).last() == s@[n - 1]);
        }
    }
    string_of(s.as_slice(), 0, n)
}

impl UsbService {
    /// The speed shown for a sysfs `speed` value.
    pub fn speed_label(raw: &str) -> (r: String)
        ensures
            r@ == speed_label_of(raw@),
    {
        let s = trim_string(raw);
        let t = s.as_str();
        if str_eq(t, "1.5") {
            String::from_str("1.5 Mbps (USB 1.0 Low Speed)")
        } else if str_eq(t, "12") {
            String::from_str("12 Mbps (USB 1.1 Full Speed)")
        } else if str_eq(t, "480") {
            String::from_str("480 Mbps (USB 2.0 High Speed)")
        } else if str_eq(t, "5000") {
            String::from_str("5 Gbps (USB 3.0 SuperSpeed)")
        } else if str_eq(t, "10000") {
            String::from_str("10 Gbps (USB 3.1 SuperSpeed+)")
        } else if str_eq(t, "20000") {
            String::from_str("20 Gbps (USB 3.2 SuperSpeed++)")
        } else {
            let mut x = String::from_str(t);
            x.append(" Mbps");
            x
        }
    }

    /// The USB class name of a `bDeviceClass` value.
    pub fn class_label(raw: &str) -> (r: String)
        ensures
            r@ == class_label_of(raw@),
    {
        let s = trim_string(raw);
        let c = s.as_str();
        let name = if str_eq(c, "00") {
            "Defined by Interface"
        } else if str_eq(c, "01") {
            "Audio"
        } else if str_eq(c, "02") {
            "Communications"
        } else if str_eq(c, "03") {
            "Human Interface Device"
        } else if str_eq(c, "05") {
            "Physical"
        } else if str_eq(c, "06") {
            "Image"
        } else if str_eq(c, "07") {
            "Printer"
        } else if str_eq(c, "08") {
            "Mass Storage"
        } else if str_eq(c, "09") {
            "Hub"
        } else if str_eq(c, "0a") {
            "CDC-Data"
        } else if str_eq(c, "0b") {
            "Smart Card"
        } else if str_eq(c, "0d") {
            "Content Security"
        } else if str_eq(c, "0e") {
            "Video"
        } else if str_eq(c, "0f") {
            "Personal Healthcare"
        } else if str_eq(c, "10") {
            "Audio/Video"
        } else if str_eq(c, "11") {
            "Billboard"
        } else if str_eq(c, "dc") {
            "Diagnostic"
        } else if str_eq(c, "e0") {
            "Wireless Controller"
        } else if str_eq(c, "ef") {
            "Miscellaneous"
        } else if str_eq(c, "fe") {
            "Application Specific"
        } else if str_eq(c, "ff") {
            "Vendor Specific"
        } else {
            let mut x = String::from_str("Class ");
            x.append(c);
            return x;
        };
        String::from_str(name)
    }

    /// Vendor and product names from an `lsusb` description.
    pub fn parse_description(description: &str) -> (r: (String, String))
        ensures
            (r.0@, r.1@) == description_parts(description@),
    {
        let d = chars_of(description);
        let n = d.len();
        if n == 0 {
            return (String::from_str("Unknown"), String::from_str("Unknown"));
        }
        proof {
            reveal_strlit(", Inc.");
            reveal_strlit(" Inc.");
            reveal_strlit(" Corp.");
            reveal_strlit(" Technology");
            reveal_strlit(" ");
        }
        if let Some(p) = find_str(d.as_slice(), ", Inc.") {
            let rest = string_of(d.as_slice(), p + 6, n);
            return (string_of(d.as_slice(), 0, p), trim_string(rest.as_str()));
        }
        if let Some(p) = find_str(d.as_slice(), " Inc.") {
            let rest = string_of(d.as_slice(), p + 5, n);
            return (string_of(d.as_slice(), 0, p), trim_string(rest.as_str()));
        }
        if let Some(p) = find_str(d.as_slice(), " Corp.") {
            let rest = string_of(d.as_slice(), p + 6, n);
            return (string_of(d.as_slice(), 0, p), trim_string(rest.as_str()));
        }
        if let Some(p) = find_str(d.as_slice(), " Technology") {
            let rest = string_of(d.as_slice(), p + 11, n);
            let product = trim_string(rest.as_str());
            let product = if product.unicode_len() == 0 {
                String::from_str("USB Device")
            } else {
                product
            };
            return (string_of(d.as_slice(), 0, p + 11), product);
        }
        match find_str(d.as_slice(), " ") {
            Some(sp) => (string_of(d.as_slice(), 0, sp), string_of(d.as_slice(), sp + 1, n)),
            None => (String::from_str(description), String::new()),
        }
    }

    /// The vendor (or product) ID of a USB `<hostdev>` block.
    pub fn extract_id_from_xml(xml: &str, tag: &str) -> (r: Option<String>)
        ensures
            opt_view(r) == id_in_xml(xml@, tag@),
    {
        let v = chars_of(xml);
        id_in_xml_exec(v.as_slice(), tag)
    }

    /// The `vendor:product=vm` entries of the USB devices a VM's definition passes
    /// through.
    pub fn parse_usb_devices_from_xml(xml: &str, vm_name: &str) -> (r: Vec<String>)
        ensures
            strings_view(r@) == usb_entries_from(xml@, vm_name@, 0),
    {
        let s = chars_of(xml);
        let n = s.len();
        let mut out: Vec<String> = Vec::new();
        let mut pos: usize = 0;
        proof {
            assert(strings_view(out@) =~= Seq::<Seq<char>>::empty());
        }
        while pos <= n
            invariant
                n == s@.len(),
                s@ == xml@,
                pos <= n,
                usb_entries_from(xml@, vm_name@, 0) == strings_view(out@) + usb_entries_from(
                    xml@,
                    vm_name@,
                    pos as int,
                ),
            decreases n - pos,
        {
            let a = match find_str_from(s.as_slice(), "<hostdev", pos) {
                Some(a) => a,
                None => {
                    proof {
                        assert(strings_view(out@) + Seq::<Seq<char>>::empty() =~= strings_view(out@));
                    }
                    return out;
                },
            };
            let e = match find_str_from(s.as_slice(), "</hostdev>", a) {
                Some(e) => e,
                None => {
                    proof {
                        assert(strings_view(out@) + Seq::<Seq<char>>::empty() =~= strings_view(out@));
                    }
                    return out;
                },
            };
            proof {
                reveal_strlit("</hostdev>");
            }
            let end = e + 10;
            let block = copy_range(s.as_slice(), a, end);
            let ghost before = strings_view(out@);
            if contains_str(block.as_slice(), "type='usb'") || contains_str(block.as_slice(), "type=\"usb\"") {
                let vid = id_in_xml_exec(block.as_slice(), "vendor");
                let pid = id_in_xml_exec(block.as_slice(), "product");
                match (vid, pid) {
                    (Some(v), Some(p)) => {
                        let mut entry = v;
                        entry.append(":");
                        entry.append(p.as_str());
                        entry.append("=");
                        entry.append(vm_name);
                        out.push(entry);
                    },
                    _ => {},
                }
            }
            proof {
                let b = xml@.subrange(a as int, end as int);
                let here = if contains(b, "type='usb'"@) || contains(b, "type=\"usb\""@) {
                    match (id_in_xml(b, "vendor"@), id_in_xml(b, "product"@)) {
                        (Some(v), Some(p)) => seq![v + ":"@ + p + "="@ + vm_name@],
                        _ => Seq::<Seq<char>>::empty(),
                    }
                } else {
                    Seq::<Seq<char>>::empty()
                };
                assert(strings_view(out@) =~= before + here);
                assert(before + (here + usb_entries_from(xml@, vm_name@, end as int)) =~= strings_view(out@)
                    + usb_entries_from(xml@, vm_name@, end as int));
            }
            pos = end;
        }
        proof {
            assert(false);
        }
        out
    }

    /// Whether a USB device is held by a running VM, given the entries of
    /// `parse_usb_devices_from_xml`, and the VM named by the first matching entry.
    pub fn device_usage(used: &Vec<String>, vendor_id: &str, product_id: &str) -> (r: (bool, Option<String>))
        ensures
            r.0 <==> exists|i: int| 0 <= i < used@.len() && starts_with(used@[i]@, vendor_id@ + ":"@ + product_id@),
            r.0 ==> exists|i: int| 0 <= i < used@.len() && starts_with(used@[i]@, vendor_id@ + ":"@ + product_id@)
                && opt_view(r.1) == entry_vm(used@[i]@),
            !r.0 ==> r.1 is None,
    {
        let mut key = String::from_str(vendor_id);
        key.append(":");
        key.append(product_id);
        let mut i: usize = 0;
        while i < used.len()
            invariant
                i <= used@.len(),
                key@ == vendor_id@ + ":"@ + product_id@,
                forall|j: int| 0 <= j < i ==> !starts_with(#[trigger] used@[j]@, key@),
            decreases used@.len() - i,
        {
            let u = chars_of(used[i].as_str());
            if starts_with_str(u.as_slice(), key.as_str()) {
                let vm = entry_vm_exec(u.as_slice());
                return (true, vm);
            }
            i = i + 1;
        }
        (false, None)
    }

    /// Four hexadecimal digits.
    pub fn is_valid_hex_id(id: &str) -> (r: bool)
        ensures
            r == hex_id_ok(id@),
    {
        let v = chars_of(id);
        if v.len() != 4 {
            return false;
        }
        proof {
            assert(v@.subrange(0, 4) =~= id@);
        }
        hex_id_exec(v.as_slice(), 0)
    }

    /// The `<hostdev>` that passes the USB device through.
    pub fn usb_device_definition(vendor_id: &str, product_id: &str) -> (r: Result<String, String>)
        ensures
            match r {
                Ok(x) => hex_id_ok(vendor_id@) && hex_id_ok(product_id@) && x@ == usb_hostdev_xml(vendor_id@, product_id@),
                Err(m) => !(hex_id_ok(vendor_id@) && hex_id_ok(product_id@)) && m@
                    == "Invalid vendor or product ID format"@,
            },
    {
        if !Self::is_valid_hex_id(vendor_id) || !Self::is_valid_hex_id(product_id) {
            return Err(String::from_str("Invalid vendor or product ID format"));
        }
        let mut x = String::from_str("<hostdev mode='subsystem' type='usb' managed='yes'>\n  <source>\n    <vendor id='0x");
        x.append(vendor_id);
        x.append("'/>\n    <product id='0x");
        x.append(product_id);
        x.append("'/>\n  </source>\n</hostdev>");
        Ok(x)
    }

    /// A USB device can only be attached to a running VM.
    pub fn attach_precheck(is_running: bool) -> (r: Result<(), String>)
        ensures
            r is Ok <==> is_running,
            r matches Err(m) ==> m@ == "VM must be running to attach USB devices"@,
    {
        if is_running {
            Ok(())
        } else {
            Err(String::from_str("VM must be running to attach USB devices"))
        }
    }
}

fn entry_vm_exec(u: &[char]) -> (r: Option<String>)
    ensures
        opt_view(r) == entry_vm(u@),
{
    let n = u.len();
    match find_str(u, "=") {
        Some(i) => {
            proof {
                reveal_strlit("=");
            }
            let rest = copy_range(u, i + 1, n);
            match find_str(rest.as_slice(), "=") {
                Some(j) => Some(string_of(rest.as_slice(), 0, j)),
                None => Some(string_of_all(rest.as_slice())),
            }
        },
        None => None,
    }
}


impl UsbService {
    /// The fields of one line of `lsusb` output, when it describes a device.
    pub fn parse_lsusb_line(line: &str) -> (r: Option<LsusbFields>)
        ensures
            match r {
                Some(f) => lsusb_fields(line@) == Some((f.bus@, f.device@, f.vendor_id@, f.product_id@, f.description@)),
                None => lsusb_fields(line@) is None,
            },
    {
        let v = chars_of(line);
        if !starts_with_str(v.as_slice(), "Bus ") {
            return None;
        }
        let bus = match str_get_exec(v.as_slice(), 4, 7) {
            Some(b) => b,
            None => return None,
        };
        let dk = match find_str(v.as_slice(), "Device ") {
            Some(k) => k,
            None => return None,
        };
        let ds = Self::byte_offset(v.as_slice(), dk);
        let dev = match str_get_exec(v.as_slice(), ds + 7, ds + 10) {
            Some(d) => d,
            None => return None,
        };
        proof {
            reveal_strlit("ID ");
        }
        let n = v.len();
        let ik = match find_str(v.as_slice(), "ID ") {
            Some(k) => k,
            None => return None,
        };
        assert(ik + 3 <= n);
        let id_part = copy_range(v.as_slice(), ik + 3, v.len());
        let size = Self::byte_offset(id_part.as_slice(), id_part.len());
        proof {
            assert(id_part@.subrange(0, id_part@.len() as int) =~= id_part@);
        }
        if size < 9 {
            return None;
        }
        let vendor = match str_get_exec(id_part.as_slice(), 0, 4) {
            Some(x) => x,
            None => return None,
        };
        let product = match str_get_exec(id_part.as_slice(), 5, 9) {
            Some(x) => x,
            None => return None,
        };
        if !all_hex_exec(&vendor) || !all_hex_exec(&product) {
            return None;
        }
        let description = match char_at_byte_exec(id_part.as_slice(), 10) {
            Some(i) => {
                let rest = string_of(id_part.as_slice(), i, id_part.len());
                trim_string(rest.as_str())
            },
            None => String::new(),
        };
        proof {
            reveal_strlit("");
        }
        Some(
            LsusbFields {
                bus: string_of_all(bus.as_slice()),
                device: strip_end_colons(&dev),
                vendor_id: string_of_all(vendor.as_slice()),
                product_id: string_of_all(product.as_slice()),
                description,
            },
        )
    }

    /// The byte offset of character `k` of `s`.
    fn byte_offset(s: &[char], k: usize) -> (r: u128)
        requires
            k <= s@.len(),
        ensures
            r == byte_pos(s@, k as int),
            r <= 4 * k,
    {
        let mut i: usize = 0;
        let mut at: u128 = 0;
        proof {
            assert(s@.subrange(0, 0) =~= Seq::<char>::empty());
        }
        while i < k
            invariant
                i <= k <= s@.len(),
                at == utf8_size(s@.subrange(0, i as int)),
                at <= 4 * i,
            decreases k - i,
        {
            proof {
                lemma_utf8_size_push(s@.subrange(0, i as int), s@[i as int]);
                assert(s@.subrange(0, i + 1) =~= s@.subrange(0, i as int).push(s@[i as int]));
                lemma_utf8_size_bound(s@.subrange(0, i as int));
            }
            at = at + utf8_len_exec(s[i]);
            i = i + 1;
        }
        at
    }

    /// The sysfs directory of a USB device: `/sys/bus/usb/devices/<bus>-<device>`, the bus
    /// without leading zeros.
    pub fn sysfs_device_path(bus: &str, device: &str) -> (r: String)
        ensures
            r@ == "/sys/bus/usb/devices/"@ + crate::text::strip_start(bus@, '0') + "-"@ + device@,
    {
        let b = chars_of(bus);
        let mut i: usize = 0;
        proof {
            assert(b@.subrange(0, b@.len() as int) =~= b@);
        }
        while i < b.len() && b[i] == '0'
            invariant
                i <= b@.len(),
                crate::text::strip_start(b@, '0') == crate::text::strip_start(b@.subrange(i as int, b@.len() as int), '0'),
            decreases b@.len() - i,
        {
            proof {
                assert(b@.subrange(i as int, b@.len() as int).drop_first() =~= b@.subrange(i + 1, b@.len() as int));
            }
            i = i + 1;
        }
        proof {
            if i < b.len() {
                assert(b@.subrange(i as int, b@.len() as int)[0] == b@[i as int]);
            }
            assert(b@.subrange(0, b@.len() as int) =~= b@);
        }
        let mut r = String::from_str("/sys/bus/usb/devices/");
        r.append(string_of(b.as_slice(), i, b.len()).as_str());
        r.append("-");
        r.append(device);
        r
    }

    /// A host USB device from its `lsusb` fields, the raw sysfs `speed` and `bDeviceClass`
    /// values when they could be read, and the devices running VMs hold.
    pub fn usb_device_from(
        fields: LsusbFields,
        raw_speed: Option<String>,
        raw_class: Option<String>,
        used: &Vec<String>,
    ) -> (r: UsbDevice)
        ensures
            r.bus@ == fields.bus@,
            r.device@ == fields.device@,
            r.vendor_id@ == fields.vendor_id@,
            r.product_id@ == fields.product_id@,
            r.description@ == fields.description@,
            (r.vendor_name@, r.product_name@) == description_parts(fields.description@),
            opt_view(r.speed) == (match raw_speed {
                Some(s) => Some(speed_label_of(s@)),
                None => None,
            }),
            opt_view(r.device_class) == (match raw_class {
                Some(c) => Some(class_label_of(c@)),
                None => None,
            }),
            r.in_use <==> exists|i: int| 0 <= i < used@.len() && starts_with(
                used@[i]@,
                fields.vendor_id@ + ":"@ + fields.product_id@,
            ),
            !r.in_use ==> r.used_by_vm is None,
    {
        let (vendor_name, product_name) = Self::parse_description(fields.description.as_str());
        let speed = match &raw_speed {
            Some(s) => Some(Self::speed_label(s.as_str())),
            None => None,
        };
        let device_class = match &raw_class {
            Some(c) => Some(Self::class_label(c.as_str())),
            None => None,
        };
        let (in_use, used_by_vm) = Self::device_usage(used, fields.vendor_id.as_str(), fields.product_id.as_str());
        UsbDevice {
            bus: fields.bus,
            device: fields.device,
            vendor_id: fields.vendor_id,
            product_id: fields.product_id,
            vendor_name,
            product_name,
            description: fields.description,
            speed,
            device_class,
            in_use,
            used_by_vm,
        }
    }

    /// A device is listed unless its class names a hub.
    pub fn listed_device(device: &UsbDevice) -> (r: bool)
        ensures
            r == match device.device_class {
                Some(c) => !contains(c@, "Hub"@),
                None => true,
            },
    {
        match &device.device_class {
            Some(c) => {
                let v = chars_of(c.as_str());
                !contains_str(v.as_slice(), "Hub")
            },
            None => true,
        }
    }
}

} // verus!
