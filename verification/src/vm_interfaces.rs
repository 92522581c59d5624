//! The network interfaces of a domain, read line by line from its definition, with the
//! addresses `virsh domifaddr` reports.
use crate::operation::opt_view;
use crate::text::{
    chars_of, contains, copy_string, dec, find, find_str, fmt_u64, lines, lines_view, lower, lower_chars,
    lower_string, parse_unsigned, parse_unsigned_range, seq_eq, split_lines, split_whitespace, starts_with,
    starts_with_str, contains_str, str_eq, string_of, string_of_all, trim, trim_bounds, words_from,
};
use crate::vm::VmService;
use crate::vm_inspect::attribute_in_line;
use vstd::prelude::*;

verus! {

/// A network interface of a VM.
#[derive(Debug)]
pub struct NetworkInterface {
    pub name: String,
    pub mac_address: String,
    pub mac: String,
    pub network: String,
    pub ip_address: Option<String>,
    pub model_type: Option<String>,
    pub inbound_average: Option<u64>,
    pub inbound_peak: Option<u64>,
    pub inbound_burst: Option<u64>,
    pub outbound_average: Option<u64>,
    pub outbound_peak: Option<u64>,
    pub outbound_burst: Option<u64>,
}

/// Quality-of-service limits: average, peak and burst, inbound then outbound.
pub type Qos = (Option<u64>, Option<u64>, Option<u64>, Option<u64>, Option<u64>, Option<u64>);

pub struct InterfaceView {
    pub name: Seq<char>,
    pub mac: Seq<char>,
    pub network: Seq<char>,
    pub ip_address: Option<Seq<char>>,
    pub model_type: Option<Seq<char>>,
    pub qos: Qos,
}

pub open spec fn interface_view(i: NetworkInterface) -> InterfaceView {
    InterfaceView {
        name: i.name@,
        mac: i.mac_address@,
        network: i.network@,
        ip_address: opt_view(i.ip_address),
        model_type: opt_view(i.model_type),
        qos: (
            i.inbound_average,
            i.inbound_peak,
            i.inbound_burst,
            i.outbound_average,
            i.outbound_peak,
            i.outbound_burst,
        ),
    }
}

/// What the scan knows after some lines.
pub struct ScanState {
    pub in_interface: bool,
    pub in_bandwidth: bool,
    pub mac: Seq<char>,
    pub network: Seq<char>,
    pub target: Seq<char>,
    pub model: Seq<char>,
    pub qos: Qos,
    pub found: Seq<InterfaceView>,
}

pub open spec fn scan_start() -> ScanState {
    ScanState {
        in_interface: false,
        in_bandwidth: false,
        mac: Seq::empty(),
        network: Seq::empty(),
        target: Seq::empty(),
        model: Seq::empty(),
        qos: (None, None, None, None, None, None),
        found: Seq::empty(),
    }
}

/// `str::parse::<u64>` of an attribute value.
pub open spec fn parse_u64(s: Seq<char>) -> Option<u64> {
    match parse_unsigned(s, 18446744073709551615) {
        Some(v) => Some(v as u64),
        None => None,
    }
}

/// A present attribute replaces a limit with its parsed value (`None` when it does not
/// parse); an absent one leaves the limit as it was.
pub open spec fn limit_from(t: Seq<char>, attr: Seq<char>, old: Option<u64>) -> Option<u64> {
    match attribute_in_line(t, attr) {
        Some(v) => parse_u64(v),
        None => old,
    }
}

/// The address `virsh domifaddr` reports for a MAC address: the last line that names it.
pub open spec fn address_for(ips: Seq<(Seq<char>, Seq<char>)>, mac: Seq<char>) -> Option<Seq<char>>
    decreases ips.len(),
{
    if ips.len() == 0 {
        None
    } else if ips.last().0 == mac {
        Some(ips.last().1)
    } else {
        address_for(ips.drop_last(), mac)
    }
}

/// An `<interface type=` line opens an interface and forgets what the last one held.
pub open spec fn open_step(s: ScanState, t: Seq<char>) -> ScanState {
    if starts_with(t, "<interface type="@) {
        ScanState {
            in_interface: true,
            in_bandwidth: false,
            mac: Seq::empty(),
            network: Seq::empty(),
            target: Seq::empty(),
            model: Seq::empty(),
            qos: (None, None, None, None, None, None),
            ..s
        }
    } else {
        s
    }
}

/// Inside an interface: the MAC address, the network (or `bridge:` and the bridge), the
/// target device and the model.
pub open spec fn field_step(s1: ScanState, t: Seq<char>) -> ScanState {
    let s2 = if s1.in_interface && contains(t, "<mac address="@) {
        match attribute_in_line(t, "address"@) {
            Some(m) => ScanState { mac: m, ..s1 },
            None => s1,
        }
    } else {
        s1
    };
    let s3 = if s2.in_interface && contains(t, "<source"@) {
        match attribute_in_line(t, "network"@) {
            Some(n) => ScanState { network: n, ..s2 },
            None => match attribute_in_line(t, "bridge"@) {
                Some(b) => ScanState { network: "bridge:"@ + b, ..s2 },
                None => s2,
            },
        }
    } else {
        s2
    };
    let s4 = if s3.in_interface && contains(t, "<target dev="@) {
        match attribute_in_line(t, "dev"@) {
            Some(d) => ScanState { target: d, ..s3 },
            None => s3,
        }
    } else {
        s3
    };
    if s4.in_interface && contains(t, "<model type="@) {
        match attribute_in_line(t, "type"@) {
            Some(m) => ScanState { model: m, ..s4 },
            None => s4,
        }
    } else {
        s4
    }
}

/// The `<bandwidth>` block of an interface and its inbound and outbound limits.
pub open spec fn bandwidth_step(s5: ScanState, t: Seq<char>) -> ScanState {
    let s6 = if s5.in_interface && starts_with(t, "<bandwidth"@) {
        ScanState { in_bandwidth: true, ..s5 }
    } else {
        s5
    };
    let s7 = if s6.in_bandwidth && starts_with(t, "<inbound"@) {
        ScanState {
            qos: (
                limit_from(t, "average"@, s6.qos.0),
                limit_from(t, "peak"@, s6.qos.1),
                limit_from(t, "burst"@, s6.qos.2),
                s6.qos.3,
                s6.qos.4,
                s6.qos.5,
            ),
            ..s6
        }
    } else {
        s6
    };
    let s8 = if s7.in_bandwidth && starts_with(t, "<outbound"@) {
        ScanState {
            qos: (
                s7.qos.0,
                s7.qos.1,
                s7.qos.2,
                limit_from(t, "average"@, s7.qos.3),
                limit_from(t, "peak"@, s7.qos.4),
                limit_from(t, "burst"@, s7.qos.5),
            ),
            ..s7
        }
    } else {
        s7
    };
    if s8.in_bandwidth && starts_with(t, "</bandwidth"@) {
        ScanState { in_bandwidth: false, ..s8 }
    } else {
        s8
    }
}

/// The interface that a closing tag records.
pub open spec fn finished_interface(s9: ScanState, ips: Seq<(Seq<char>, Seq<char>)>) -> InterfaceView {
    InterfaceView {
        name: if s9.target.len() == 0 {
            "nic"@ + dec((s9.found.len() + 1) as nat)
        } else {
            s9.target
        },
        mac: s9.mac,
        network: if s9.network.len() == 0 {
            "unknown"@
        } else {
            s9.network
        },
        ip_address: address_for(ips, lower(s9.mac)),
        model_type: if s9.model.len() == 0 {
            None
        } else {
            Some(s9.model)
        },
        qos: s9.qos,
    }
}

/// `</interface>` closes an open interface and records it when it had a MAC address.
pub open spec fn close_step(s9: ScanState, t: Seq<char>, ips: Seq<(Seq<char>, Seq<char>)>) -> ScanState {
    if t == "</interface>"@ && s9.in_interface {
        let found = if s9.mac.len() > 0 {
            s9.found.push(finished_interface(s9, ips))
        } else {
            s9.found
        };
        ScanState { in_interface: false, in_bandwidth: false, found, ..s9 }
    } else {
        s9
    }
}

/// One trimmed line of the definition.
pub open spec fn scan_line(s: ScanState, t: Seq<char>, ips: Seq<(Seq<char>, Seq<char>)>) -> ScanState {
    close_step(bandwidth_step(field_step(open_step(s, t), t), t), t, ips)
}

/// The scan after the given lines.
pub open spec fn scan_lines(ls: Seq<Seq<char>>, ips: Seq<(Seq<char>, Seq<char>)>) -> ScanState
    decreases ls.len(),
{
    if ls.len() == 0 {
        scan_start()
    } else {
        scan_line(scan_lines(ls.drop_last(), ips), trim(ls.last()), ips)
    }
}

/// The interfaces of a domain definition.
pub open spec fn interfaces_of(xml: Seq<char>, ips: Seq<(Seq<char>, Seq<char>)>) -> Seq<InterfaceView> {
    scan_lines(lines(xml), ips).found
}

spec fn interface_named(v: InterfaceView, ips: Seq<(Seq<char>, Seq<char>)>) -> bool {
    &&& v.mac.len() > 0
    &&& v.name.len() > 0
    &&& v.network.len() > 0
    &&& v.ip_address == address_for(ips, lower(v.mac))
}

proof fn lemma_scan_interfaces_named(ls: Seq<Seq<char>>, ips: Seq<(Seq<char>, Seq<char>)>)
    ensures
        forall|i: int| 0 <= i < scan_lines(ls, ips).found.len() ==> interface_named(#[trigger] scan_lines(ls, ips).found[i], ips),
    decreases ls.len(),
{
    if ls.len() > 0 {
        reveal_strlit("nic");
        reveal_strlit("unknown");
        lemma_scan_interfaces_named(ls.drop_last(), ips);
        let s = scan_lines(ls.drop_last(), ips);
        let t = trim(ls.last());
        let s9 = bandwidth_step(field_step(open_step(s, t), t), t);
        assert(s9.found == s.found);
        let r = scan_lines(ls, ips);
        assert forall|i: int| 0 <= i < r.found.len() implies interface_named(#[trigger] r.found[i], ips) by {
            if i < s.found.len() {
                assert(r.found[i] == s.found[i]);
            }
        }
    }
}

/// Every interface read from a definition has a MAC address, a name (its target device,
/// else `nicN`) and a network (`unknown` when none is named), and its address is the one
/// `domifaddr` reports for its MAC address.
pub proof fn law_listed_interfaces_have_a_mac(xml: Seq<char>, ips: Seq<(Seq<char>, Seq<char>)>)
    ensures
        forall|i: int|
            0 <= i < interfaces_of(xml, ips).len() ==> {
                let v = #[trigger] interfaces_of(xml, ips)[i];
                &&& v.mac.len() > 0
                &&& v.name.len() > 0
                &&& v.network.len() > 0
                &&& v.ip_address == address_for(ips, lower(v.mac))
            },
{
    lemma_scan_interfaces_named(lines(xml), ips);
    assert forall|i: int| 0 <= i < interfaces_of(xml, ips).len() implies {
        let v = #[trigger] interfaces_of(xml, ips)[i];
        &&& v.mac.len() > 0
        &&& v.name.len() > 0
        &&& v.network.len() > 0
        &&& v.ip_address == address_for(ips, lower(v.mac))
    } by {
        assert(interface_named(interfaces_of(xml, ips)[i], ips));
    }
}

/// The address of a `domifaddr` line: the text before the first `/`.
pub open spec fn address_part(a: Seq<char>) -> Seq<char> {
    match crate::text::find(a, "/"@) {
        Some(i) => a.subrange(0, i),
        None => a,
    }
}

/// The `(MAC in lower case, address)` pairs of `virsh domifaddr` output: every line after
/// the two header lines with at least four fields.
pub open spec fn domifaddr_pairs(ls: Seq<Seq<char>>) -> Seq<(Seq<char>, Seq<char>)>
    decreases ls.len(),
{
    if ls.len() <= 2 {
        Seq::empty()
    } else {
        let rest = domifaddr_pairs(ls.drop_last());
        let w = words_from(ls.last(), 0);
        if w.len() >= 4 {
            rest.push((lower(w[1]), address_part(w[3])))
        } else {
            rest
        }
    }
}


/// The `(MAC, address)` pairs as plain sequences.
pub open spec fn pairs_view(ips: Seq<(String, String)>) -> Seq<(Seq<char>, Seq<char>)> {
    ips.map_values(|p: (String, String)| (p.0@, p.1@))
}

pub open spec fn interfaces_view(v: Seq<NetworkInterface>) -> Seq<InterfaceView> {
    v.map_values(|i: NetworkInterface| interface_view(i))
}

/// The scan as it runs.
struct InterfaceScan {
    in_interface: bool,
    in_bandwidth: bool,
    mac: String,
    network: String,
    target: String,
    model: String,
    qos: Qos,
    found: Vec<NetworkInterface>,
}

impl InterfaceScan {
    spec fn view(&self) -> ScanState {
        ScanState {
            in_interface: self.in_interface,
            in_bandwidth: self.in_bandwidth,
            mac: self.mac@,
            network: self.network@,
            target: self.target@,
            model: self.model@,
            qos: self.qos,
            found: interfaces_view(self.found@),
        }
    }

    spec fn aliases_agree(&self) -> bool {
        forall|k: int| 0 <= k < self.found@.len() ==> (#[trigger] self.found@[k]).mac@ == self.found@[k].mac_address@
    }
}

fn parse_u64_exec(v: &String) -> (r: Option<u64>)
    ensures
        r == parse_u64(v@),
{
    let c = chars_of(v.as_str());
    let r = parse_unsigned_range(c.as_slice(), 0, c.len(), u64::MAX);
    proof {
        assert(c@.subrange(0, c@.len() as int) =~= v@);
    }
    r
}

fn limit_from_exec(t: &str, attr: &str, old: Option<u64>) -> (r: Option<u64>)
    ensures
        r == limit_from(t@, attr@, old),
{
    match VmService::extract_xml_attribute(t, attr) {
        Some(v) => parse_u64_exec(&v),
        None => old,
    }
}

fn address_lookup(ips: &[(String, String)], mac: &String) -> (r: Option<String>)
    ensures
        opt_view(r) == address_for(pairs_view(ips@), mac@),
{
    let ghost all = pairs_view(ips@);
    let mut i = ips.len();
    proof {
        assert(all.subrange(0, i as int) =~= all);
    }
    while i > 0
        invariant
            i <= ips@.len(),
            all == pairs_view(ips@),
            address_for(all, mac@) == address_for(all.subrange(0, i as int), mac@),
        decreases i,
    {
        let ghost sub = all.subrange(0, i as int);
        proof {
            assert(sub.drop_last() =~= all.subrange(0, i - 1));
            assert(sub.last() == (ips@[i - 1].0@, ips@[i - 1].1@));
        }
        if str_eq(ips[i - 1].0.as_str(), mac.as_str()) {
            return Some(copy_string(&ips[i - 1].1));
        }
        i = i - 1;
    }
    None
}

fn open_exec(st: &mut InterfaceScan, t: &Vec<char>)
    ensures
        final(st).view() == open_step(old(st).view(), t@),
        final(st).found@ == old(st).found@,
{
    if starts_with_str(t.as_slice(), "<interface type=") {
        st.in_interface = true;
        st.in_bandwidth = false;
        st.mac = String::new();
        st.network = String::new();
        st.target = String::new();
        st.model = String::new();
        st.qos = (None, None, None, None, None, None);
    }
}

fn field_exec(st: &mut InterfaceScan, t: &Vec<char>, line: &str)
    requires
        line@ == t@,
    ensures
        final(st).view() == field_step(old(st).view(), t@),
        final(st).found@ == old(st).found@,
{
    if st.in_interface && contains_str(t.as_slice(), "<mac address=") {
        if let Some(m) = VmService::extract_xml_attribute(line, "address") {
            st.mac = m;
        }
    }
    if st.in_interface && contains_str(t.as_slice(), "<source") {
        match VmService::extract_xml_attribute(line, "network") {
            Some(n) => {
                st.network = n;
            },
            None => {
                if let Some(b) = VmService::extract_xml_attribute(line, "bridge") {
                    let mut net = String::from_str("bridge:");
                    net.append(b.as_str());
                    st.network = net;
                }
            },
        }
    }
    if st.in_interface && contains_str(t.as_slice(), "<target dev=") {
        if let Some(d) = VmService::extract_xml_attribute(line, "dev") {
            st.target = d;
        }
    }
    if st.in_interface && contains_str(t.as_slice(), "<model type=") {
        if let Some(m) = VmService::extract_xml_attribute(line, "type") {
            st.model = m;
        }
    }
}

fn bandwidth_exec(st: &mut InterfaceScan, t: &Vec<char>, line: &str)
    requires
        line@ == t@,
    ensures
        final(st).view() == bandwidth_step(old(st).view(), t@),
        final(st).found@ == old(st).found@,
{
    if st.in_interface && starts_with_str(t.as_slice(), "<bandwidth") {
        st.in_bandwidth = true;
    }
    if st.in_bandwidth && starts_with_str(t.as_slice(), "<inbound") {
        let q = st.qos;
        st.qos = (
            limit_from_exec(line, "average", q.0),
            limit_from_exec(line, "peak", q.1),
            limit_from_exec(line, "burst", q.2),
            q.3,
            q.4,
            q.5,
        );
    }
    if st.in_bandwidth && starts_with_str(t.as_slice(), "<outbound") {
        let q = st.qos;
        st.qos = (
            q.0,
            q.1,
            q.2,
            limit_from_exec(line, "average", q.3),
            limit_from_exec(line, "peak", q.4),
            limit_from_exec(line, "burst", q.5),
        );
    }
    if st.in_bandwidth && starts_with_str(t.as_slice(), "</bandwidth") {
        st.in_bandwidth = false;
    }
}

fn finish_exec(st: &InterfaceScan, ips: &[(String, String)]) -> (r: NetworkInterface)
    requires
        st.found@.len() < usize::MAX,
    ensures
        interface_view(r) == finished_interface(st.view(), pairs_view(ips@)),
        r.mac@ == r.mac_address@,
{
    let name = if st.target.unicode_len() == 0 {
        let mut n = String::from_str("nic");
        let k = fmt_u64((st.found.len() + 1) as u64);
        n.append(k.as_str());
        n
    } else {
        copy_string(&st.target)
    };
    let network = if st.network.unicode_len() == 0 {
        String::from_str("unknown")
    } else {
        copy_string(&st.network)
    };
    let model_type = if st.model.unicode_len() == 0 {
        None
    } else {
        Some(copy_string(&st.model))
    };
    let low = lower_string(st.mac.as_str());
    let ip_address = address_lookup(ips, &low);
    proof {
        reveal_strlit("nic");
        reveal_strlit("unknown");
    }
    NetworkInterface {
        name,
        mac_address: copy_string(&st.mac),
        mac: copy_string(&st.mac),
        network,
        ip_address,
        model_type,
        inbound_average: st.qos.0,
        inbound_peak: st.qos.1,
        inbound_burst: st.qos.2,
        outbound_average: st.qos.3,
        outbound_peak: st.qos.4,
        outbound_burst: st.qos.5,
    }
}

fn close_exec(st: &mut InterfaceScan, t: &Vec<char>, ips: &[(String, String)])
    requires
        old(st).found@.len() < usize::MAX,
        old(st).aliases_agree(),
    ensures
        final(st).view() == close_step(old(st).view(), t@, pairs_view(ips@)),
        final(st).aliases_agree(),
        final(st).found@.len() <= old(st).found@.len() + 1,
{
    let closing = chars_of("</interface>");
    if seq_eq(t.as_slice(), closing.as_slice()) && st.in_interface {
        if st.mac.unicode_len() > 0 {
            let r = finish_exec(st, ips);
            let ghost before = st.found@;
            st.found.push(r);
            proof {
                assert(interfaces_view(st.found@) =~= interfaces_view(before).push(interface_view(r)));
            }
        }
        st.in_interface = false;
        st.in_bandwidth = false;
    }
}

impl VmService {
    /// The `(MAC in lower case, address)` pairs of `virsh domifaddr` output, in the order
    /// of its lines; a later line for the same MAC address takes its place.
    pub fn parse_interface_ips(output: &str) -> (r: Vec<(String, String)>)
        ensures
            pairs_view(r@) == domifaddr_pairs(lines(output@)),
    {
        let ls = split_lines(output);
        let ghost lv = lines_view(ls@);
        let n = ls.len();
        let mut out: Vec<(String, String)> = Vec::new();
        let mut i: usize = if n < 2 { n } else { 2 };
        proof {
            assert(domifaddr_pairs(lv.subrange(0, i as int)) =~= Seq::<(Seq<char>, Seq<char>)>::empty());
            assert(pairs_view(out@) =~= Seq::<(Seq<char>, Seq<char>)>::empty());
        }
        while i < n
            invariant
                n == ls@.len(),
                lv == lines_view(ls@),
                lv == lines(output@),
                i <= n,
                i >= 2 || i == n,
                pairs_view(out@) == domifaddr_pairs(lv.subrange(0, i as int)),
            decreases n - i,
        {
            let ghost sub = lv.subrange(0, i + 1);
            proof {
                assert(sub.drop_last() =~= lv.subrange(0, i as int));
                assert(sub.last() == ls@[i as int]@);
            }
            let words = split_whitespace(ls[i].as_slice());
            let ghost before = out@;
            if words.len() >= 4 {
                let mac = lower_chars(words[1].as_slice());
                let addr = words[3].as_slice();
                let cut = match find_str(addr, "/") {
                    Some(k) => k,
                    None => addr.len(),
                };
                let a = string_of(addr, 0, cut);
                let m = string_of_all(mac.as_slice());
                proof {
                    assert(words@[1]@ == words_from(ls@[i as int]@, 0)[1]);
                    assert(words@[3]@ == words_from(ls@[i as int]@, 0)[3]);
                    if find(addr@, "/"@) is None {
                        assert(addr@.subrange(0, addr@.len() as int) =~= addr@);
                    }
                }
                out.push((m, a));
                proof {
                    assert(a@ == address_part(words@[3]@));
                    assert(pairs_view(out@) =~= pairs_view(before).push((m@, a@)));
                }
            } else {
                proof {
                    assert(words_from(ls@[i as int]@, 0).len() == words@.len());
                }
            }
            i = i + 1;
        }
        proof {
            assert(lv.subrange(0, n as int) =~= lv);
        }
        out
    }

    /// The network interfaces of a domain definition with the addresses of
    /// `parse_interface_ips`.
    pub fn get_vm_network_interfaces(xml: &str, ips: &[(String, String)]) -> (r: Vec<NetworkInterface>)
        ensures
            interfaces_view(r@) == interfaces_of(xml@, pairs_view(ips@)),
            forall|k: int| 0 <= k < r@.len() ==> (#[trigger] r@[k]).mac@ == r@[k].mac_address@,
    {
        let ls = split_lines(xml);
        let ghost lv = lines_view(ls@);
        let n = ls.len();
        let mut st = InterfaceScan {
            in_interface: false,
            in_bandwidth: false,
            mac: String::new(),
            network: String::new(),
            target: String::new(),
            model: String::new(),
            qos: (None, None, None, None, None, None),
            found: Vec::new(),
        };
        proof {
            assert(interfaces_view(st.found@) =~= Seq::<InterfaceView>::empty());
            assert(scan_lines(lv.subrange(0, 0), pairs_view(ips@)) == scan_start());
        }
        let mut i: usize = 0;
        while i < n
            invariant
                n == ls@.len(),
                lv == lines_view(ls@),
                lv == lines(xml@),
                i <= n,
                st.view() == scan_lines(lv.subrange(0, i as int), pairs_view(ips@)),
                st.found@.len() <= i,
                st.aliases_agree(),
            decreases n - i,
        {
            let (a, b) = trim_bounds(ls[i].as_slice(), 0, ls[i].len());
            let t = crate::text::copy_range(ls[i].as_slice(), a, b);
            let line = string_of_all(t.as_slice());
            proof {
                assert(ls@[i as int]@.subrange(0, ls@[i as int]@.len() as int) =~= ls@[i as int]@);
                let sub = lv.subrange(0, i + 1);
                assert(sub.drop_last() =~= lv.subrange(0, i as int));
                assert(sub.last() == ls@[i as int]@);
                assert(t@ == trim(sub.last()));
            }
            open_exec(&mut st, &t);
            field_exec(&mut st, &t, line.as_str());
            bandwidth_exec(&mut st, &t, line.as_str());
            close_exec(&mut st, &t, ips);
            i = i + 1;
        }
        proof {
            assert(lv.subrange(0, n as int) =~= lv);
        }
        st.found
    }
}

} // verus!
