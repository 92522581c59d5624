//! Virtual networks: validated network definitions, the summary read back from libvirt's
//! network XML, DHCP lease files and port-forwarding rules.
use crate::error::AppError;
use crate::net::{dotted, fmt_ipv4, ipv4_value, ipv6_parsed, parse_ipv4, parse_ipv6};
use crate::operation::{clone_opt_string, opt_view};
use crate::text::{
    chars_of, char_is_alnum, copy_string, dec, dec_int, fmt_u64, is_alnum, lines, lines_view,
    parse_signed, parse_signed_str, split_lines, split_whitespace, starts_with, str_eq, string_of_all,
    words_from,
};
use crate::xml::{
    element_attribute, escape, escaped_attribute, first_element_attribute, identifier_ok,
    lemma_root_ok_opening, root_ok, validate_document_root,
    text_element, text_ok, validate_identifier, validate_text, xml_text_element,
};
use vstd::prelude::*;

verus! {

/// Network management operations.
pub struct NetworkService;

/// Summary of a defined virtual network.
#[derive(Debug)]
pub struct Network {
    pub name: String,
    pub uuid: String,
    pub bridge: String,
    pub active: bool,
    pub autostart: bool,
    pub ip_range: Option<String>,
}

/// A virtual network to define.
#[derive(Debug)]
pub struct NetworkConfig {
    pub name: String,
    pub bridge_name: String,
    pub forward_mode: String,
    pub ip_address: String,
    pub netmask: String,
    pub dhcp_start: String,
    pub dhcp_end: String,
    pub autostart: bool,
    pub ipv6_enabled: bool,
    pub ipv6_address: Option<String>,
    pub ipv6_prefix: Option<u8>,
    pub ipv6_dhcp_start: Option<String>,
    pub ipv6_dhcp_end: Option<String>,
}

pub struct NetworkConfigView {
    pub name: Seq<char>,
    pub bridge_name: Seq<char>,
    pub forward_mode: Seq<char>,
    pub ip_address: Seq<char>,
    pub netmask: Seq<char>,
    pub dhcp_start: Seq<char>,
    pub dhcp_end: Seq<char>,
    pub autostart: bool,
    pub ipv6_enabled: bool,
    pub ipv6_address: Option<Seq<char>>,
    pub ipv6_prefix: Option<u8>,
    pub ipv6_dhcp_start: Option<Seq<char>>,
    pub ipv6_dhcp_end: Option<Seq<char>>,
}

impl View for NetworkConfig {
    type V = NetworkConfigView;

    open spec fn view(&self) -> NetworkConfigView {
        NetworkConfigView {
            name: self.name@,
            bridge_name: self.bridge_name@,
            forward_mode: self.forward_mode@,
            ip_address: self.ip_address@,
            netmask: self.netmask@,
            dhcp_start: self.dhcp_start@,
            dhcp_end: self.dhcp_end@,
            autostart: self.autostart,
            ipv6_enabled: self.ipv6_enabled,
            ipv6_address: opt_view(self.ipv6_address),
            ipv6_prefix: self.ipv6_prefix,
            ipv6_dhcp_start: opt_view(self.ipv6_dhcp_start),
            ipv6_dhcp_end: opt_view(self.ipv6_dhcp_end),
        }
    }
}

/// One lease of a network's DHCP server.
#[derive(Debug)]
pub struct DhcpLease {
    pub mac: String,
    pub ip_address: String,
    pub hostname: Option<String>,
    pub client_id: Option<String>,
    pub expiry_time: i64,
}

pub struct LeaseView {
    pub mac: Seq<char>,
    pub ip_address: Seq<char>,
    pub hostname: Option<Seq<char>>,
    pub client_id: Option<Seq<char>>,
    pub expiry_time: i64,
}

impl View for DhcpLease {
    type V = LeaseView;

    open spec fn view(&self) -> LeaseView {
        LeaseView {
            mac: self.mac@,
            ip_address: self.ip_address@,
            hostname: opt_view(self.hostname),
            client_id: opt_view(self.client_id),
            expiry_time: self.expiry_time,
        }
    }
}

/// Detailed network information, DHCP configuration and leases included.
#[derive(Debug)]
pub struct NetworkDetails {
    pub name: String,
    pub uuid: String,
    pub bridge: String,
    pub active: bool,
    pub autostart: bool,
    pub ip_range: Option<String>,
    pub forward_mode: String,
    pub ip_address: Option<String>,
    pub netmask: Option<String>,
    pub dhcp_start: Option<String>,
    pub dhcp_end: Option<String>,
    pub dhcp_leases: Vec<DhcpLease>,
}

// ---------------------------------------------------------------------------
// Network definitions
// ---------------------------------------------------------------------------

pub open spec fn network_char(c: char) -> bool {
    is_alnum(c) || c == '_' || c == '-' || c == '.'
}

/// A network or bridge name.
pub open spec fn network_name_ok(s: Seq<char>) -> bool {
    identifier_ok(s) && text_ok(s) && forall|i: int| 0 <= i < s.len() ==> network_char(#[trigger] s[i])
}

pub open spec fn forward_mode_ok(m: Seq<char>) -> bool {
    m == "nat"@ || m == "route"@ || m == "bridge"@ || m == "isolated"@
}

/// The `<bridge>` element, with spanning tree enabled unless the network bridges a host
/// interface.
pub open spec fn bridge_xml(bridge: Seq<char>, mode: Seq<char>) -> Seq<char> {
    "\n  <bridge name='"@ + escape(bridge) + "'"@ + (if mode != "bridge"@ {
        " stp='on' delay='0'"@
    } else {
        Seq::empty()
    }) + "/>\n"@
}

/// The `<forward>` element; an isolated network has none.
pub open spec fn forward_xml(mode: Seq<char>) -> Seq<char> {
    if mode != "isolated"@ {
        "  <forward mode='"@ + mode + "'/>\n"@
    } else {
        Seq::empty()
    }
}

pub open spec fn ipv4_xml(a: u32, m: u32, s: u32, e: u32) -> Seq<char> {
    "  <ip address='"@ + dotted(a) + "' netmask='"@ + dotted(m) + "'><dhcp><range start='"@
        + dotted(s) + "' end='"@ + dotted(e) + "'/></dhcp></ip>\n"@
}

/// The IPv4 `<ip>` element, or `None` when an address does not parse or the DHCP range is
/// reversed.
pub open spec fn ipv4_part(c: NetworkConfigView) -> Option<Seq<char>> {
    match (
        ipv4_value(c.ip_address),
        ipv4_value(c.netmask),
        ipv4_value(c.dhcp_start),
        ipv4_value(c.dhcp_end),
    ) {
        (Some(a), Some(m), Some(s), Some(e)) => if s <= e {
            Some(ipv4_xml(a, m, s, e))
        } else {
            None
        },
        _ => None,
    }
}

/// The tail of the IPv6 `<ip>` element: a DHCP range when both bounds are given, none
/// when neither is; `None` when only one is, one does not parse, or they are reversed.
pub open spec fn ipv6_range_xml(start: Option<Seq<char>>, end: Option<Seq<char>>) -> Option<
    Seq<char>,
> {
    match (start, end) {
        (None, None) => Some("/>\n"@),
        (Some(s), Some(e)) => match (ipv6_parsed(s), ipv6_parsed(e)) {
            (Some((vs, ts)), Some((ve, te))) => if vs <= ve {
                Some("><dhcp><range start='"@ + ts + "' end='"@ + te + "'/></dhcp></ip>\n"@)
            } else {
                None
            },
            _ => None,
        },
        _ => None,
    }
}

/// The IPv6 `<ip>` element (empty when IPv6 is disabled), or `None` when the IPv6
/// settings are incomplete or invalid.
pub open spec fn ipv6_part(c: NetworkConfigView) -> Option<Seq<char>> {
    if !c.ipv6_enabled {
        Some(Seq::empty())
    } else {
        match (c.ipv6_address, c.ipv6_prefix) {
            (Some(addr), Some(p)) => if p > 128 {
                None
            } else {
                match ipv6_parsed(addr) {
                    Some((_, t)) => match ipv6_range_xml(c.ipv6_dhcp_start, c.ipv6_dhcp_end) {
                        Some(tail) => Some(
                            "  <ip family='ipv6' address='"@ + t + "' prefix='"@ + dec(p as nat)
                                + "'"@ + tail,
                        ),
                        None => None,
                    },
                    None => None,
                }
            },
            _ => None,
        }
    }
}

/// The addressing of a network: none for a bridged network.
pub open spec fn addressing_part(c: NetworkConfigView) -> Option<Seq<char>> {
    if c.forward_mode == "bridge"@ {
        Some(Seq::empty())
    } else {
        match (ipv4_part(c), ipv6_part(c)) {
            (Some(a), Some(b)) => Some(a + b),
            _ => None,
        }
    }
}

/// The network definition libvirt is given for `c`, or `None` when `c` is rejected.
pub open spec fn network_xml(c: NetworkConfigView) -> Option<Seq<char>> {
    if !network_name_ok(c.name) || !network_name_ok(c.bridge_name) || !forward_mode_ok(
        c.forward_mode,
    ) {
        None
    } else {
        match addressing_part(c) {
            Some(addr) => Some(
                "<network>\n  "@ + text_element("name"@, c.name) + bridge_xml(
                    c.bridge_name,
                    c.forward_mode,
                ) + forward_xml(c.forward_mode) + addr + "</network>"@,
            ),
            None => None,
        }
    }
}

/// Rejects a network or bridge name that is not a bounded identifier made of letters,
/// digits, `_`, `-` and `.`.
fn validate_network_name(value: &str, field: &str) -> (r: Result<(), AppError>)
    ensures
        r is Ok <==> network_name_ok(value@),
        r matches Err(e) ==> e is InvalidConfig,
{
    validate_identifier(value, field)?;
    validate_text(value, field)?;
    let v = chars_of(value);
    let n = v.len();
    let mut i: usize = 0;
    while i < n
        invariant
            n == v@.len(),
            v@ == value@,
            i <= n,
            forall|j: int| 0 <= j < i ==> network_char(#[trigger] v@[j]),
        decreases n - i,
    {
        let c = v[i];
        if !(char_is_alnum(c) || c == '_' || c == '-' || c == '.') {
            let mut m = String::from_str(field);
            m.append(" contains unsupported characters");
            return Err(AppError::InvalidConfig(m));
        }
        i = i + 1;
    }
    Ok(())
}

fn ipv4_line(a: u32, m: u32, s: u32, e: u32) -> (r: String)
    ensures
        r@ == ipv4_xml(a, m, s, e),
{
    let mut x = String::from_str("  <ip address='");
    let t = fmt_ipv4(a);
    x.append(t.as_str());
    x.append("' netmask='");
    let t = fmt_ipv4(m);
    x.append(t.as_str());
    x.append("'><dhcp><range start='");
    let t = fmt_ipv4(s);
    x.append(t.as_str());
    x.append("' end='");
    let t = fmt_ipv4(e);
    x.append(t.as_str());
    x.append("'/></dhcp></ip>\n");
    x
}

fn ipv4_section(c: &NetworkConfig) -> (r: Result<String, AppError>)
    ensures
        match r {
            Ok(x) => ipv4_part(c@) == Some(x@),
            Err(e) => ipv4_part(c@) is None && e is InvalidConfig,
        },
{
    let a = parse_ipv4(c.ip_address.as_str());
    let m = parse_ipv4(c.netmask.as_str());
    let s = parse_ipv4(c.dhcp_start.as_str());
    let e = parse_ipv4(c.dhcp_end.as_str());
    match (a, m, s, e) {
        (Some(a), Some(m), Some(s), Some(e)) => {
            if s > e {
                Err(AppError::invalid("IPv4 DHCP range start must not follow its end"))
            } else {
                Ok(ipv4_line(a, m, s, e))
            }
        },
        _ => Err(AppError::invalid("An IPv4 address of the network is invalid")),
    }
}

fn ipv6_range(start: &Option<String>, end: &Option<String>) -> (r: Result<String, AppError>)
    ensures
        match r {
            Ok(x) => ipv6_range_xml(opt_view(*start), opt_view(*end)) == Some(x@),
            Err(e) => ipv6_range_xml(opt_view(*start), opt_view(*end)) is None && e is InvalidConfig,
        },
{
    match (start, end) {
        (None, None) => Ok(String::from_str("/>\n")),
        (Some(s), Some(e)) => {
            let ps = parse_ipv6(s.as_str());
            let pe = parse_ipv6(e.as_str());
            match (ps, pe) {
                (Some((vs, ts)), Some((ve, te))) => {
                    if vs > ve {
                        Err(AppError::invalid("IPv6 DHCP range start must not follow its end"))
                    } else {
                        let mut x = String::from_str("><dhcp><range start='");
                        x.append(ts.as_str());
                        x.append("' end='");
                        x.append(te.as_str());
                        x.append("'/></dhcp></ip>\n");
                        Ok(x)
                    }
                },
                _ => Err(AppError::invalid("An IPv6 DHCP range bound is invalid")),
            }
        },
        _ => Err(AppError::invalid("Both IPv6 DHCP range bounds are required")),
    }
}

fn ipv6_section(c: &NetworkConfig) -> (r: Result<String, AppError>)
    ensures
        match r {
            Ok(x) => ipv6_part(c@) == Some(x@),
            Err(e) => ipv6_part(c@) is None && e is InvalidConfig,
        },
{
    if !c.ipv6_enabled {
        return Ok(String::new());
    }
    let address = match &c.ipv6_address {
        Some(a) => a,
        None => {
            return Err(AppError::invalid("IPv6 address is required when IPv6 is enabled"));
        },
    };
    let prefix = match c.ipv6_prefix {
        Some(p) => p,
        None => {
            return Err(AppError::invalid("IPv6 prefix is required when IPv6 is enabled"));
        },
    };
    if prefix > 128 {
        return Err(AppError::invalid("IPv6 prefix must be at most 128"));
    }
    let t = match parse_ipv6(address.as_str()) {
        Some((_, t)) => t,
        None => {
            return Err(AppError::invalid("IPv6 address is invalid"));
        },
    };
    let tail = ipv6_range(&c.ipv6_dhcp_start, &c.ipv6_dhcp_end)?;
    let mut x = String::from_str("  <ip family='ipv6' address='");
    x.append(t.as_str());
    x.append("' prefix='");
    let p = fmt_u64(prefix as u64);
    x.append(p.as_str());
    x.append("'");
    x.append(tail.as_str());
    Ok(x)
}

/// Every network definition has `network` as its document element.
proof fn lemma_network_xml_root(c: NetworkConfigView)
    requires
        network_xml(c) is Some,
    ensures
        root_ok(network_xml(c)->0, "network"@),
{
    let x = network_xml(c)->0;
    reveal_strlit("<network>\n  ");
    reveal_strlit("network");
    assert(x.subrange(1, 8) =~= "network"@);
    lemma_root_ok_opening(x, "network"@);
}

impl NetworkService {
    /// The network definition for `config`, after every value has been validated.
    pub fn network_definition(config: &NetworkConfig) -> (r: Result<String, AppError>)
        ensures
            match r {
                Ok(x) => network_xml(config@) == Some(x@),
                Err(e) => network_xml(config@) is None && e is InvalidConfig,
            },
    {
        validate_network_name(config.name.as_str(), "network name")?;
        validate_network_name(config.bridge_name.as_str(), "bridge name")?;
        let mode = config.forward_mode.as_str();
        if !(str_eq(mode, "nat") || str_eq(mode, "route") || str_eq(mode, "bridge") || str_eq(
            mode,
            "isolated",
        )) {
            return Err(AppError::invalid("Invalid forward mode"));
        }
        let is_bridge = str_eq(mode, "bridge");
        let mut xml = String::from_str("<network>\n  ");
        let name_element = xml_text_element("name", config.name.as_str())?;
        xml.append(name_element.as_str());
        let ghost head = xml@;
        let bridge = escaped_attribute(config.bridge_name.as_str(), "bridge name")?;
        let mut b = String::from_str("\n  <bridge name='");
        b.append(bridge.as_str());
        b.append("'");
        if !is_bridge {
            b.append(" stp='on' delay='0'");
        }
        b.append("/>\n");
        proof {
            assert(b@ =~= bridge_xml(config.bridge_name@, mode@));
        }
        xml.append(b.as_str());
        let mut f = String::new();
        if !str_eq(mode, "isolated") {
            f.append("  <forward mode='");
            f.append(mode);
            f.append("'/>\n");
        }
        proof {
            assert(f@ =~= forward_xml(mode@));
        }
        xml.append(f.as_str());
        let mut addr = String::new();
        if !is_bridge {
            let v4 = ipv4_section(config)?;
            let v6 = ipv6_section(config)?;
            addr.append(v4.as_str());
            addr.append(v6.as_str());
        }
        proof {
            assert(addressing_part(config@) == Some(addr@));
        }
        xml.append(addr.as_str());
        xml.append("</network>");
        proof {
            assert(xml@ =~= "<network>\n  "@ + text_element("name"@, config.name@) + bridge_xml(
                config.bridge_name@,
                config.forward_mode@,
            ) + forward_xml(config.forward_mode@) + addr@ + "</network>"@);
            lemma_network_xml_root(config@);
        }
        validate_document_root(xml.as_str(), "network")?;
        Ok(xml)
    }
}

// ---------------------------------------------------------------------------
// Reading definitions back
// ---------------------------------------------------------------------------

/// `address/netmask`, the address alone, or nothing.
pub open spec fn ip_range_of(addr: Option<Seq<char>>, mask: Option<Seq<char>>) -> Option<Seq<char>> {
    match (addr, mask) {
        (Some(a), Some(m)) => Some(a + "/"@ + m),
        (Some(a), None) => Some(a),
        _ => None,
    }
}

/// The bridge a network definition names, `virbr0` when it names none.
pub open spec fn bridge_of(xml: Seq<char>) -> Seq<char> {
    match element_attribute(xml, "bridge"@, "name"@) {
        Some(b) => b,
        None => "virbr0"@,
    }
}

pub open spec fn network_ip_range(xml: Seq<char>) -> Option<Seq<char>> {
    ip_range_of(element_attribute(xml, "ip"@, "address"@), element_attribute(xml, "ip"@, "netmask"@))
}

/// The forwarding mode a network definition names, `isolated` when it names none.
pub open spec fn forward_mode_of(xml: Seq<char>) -> Seq<char> {
    match element_attribute(xml, "forward"@, "mode"@) {
        Some(m) => m,
        None => "isolated"@,
    }
}

/// Text of the port-forwarding rule that `op` (`A` to add, `D` to delete) applies to the
/// NAT table.
pub open spec fn dnat_rule(op: Seq<char>, host_port: u16, guest_ip: Seq<char>, guest_port: u16, protocol: Seq<char>) -> Seq<char> {
    "iptables -t nat -"@ + op + " PREROUTING -p "@ + protocol + " --dport "@ + dec(host_port as nat)
        + " -j DNAT --to-destination "@ + guest_ip + ":"@ + dec(guest_port as nat)
}

/// Text of the rule that lets the forwarded traffic through.
pub open spec fn accept_rule(op: Seq<char>, guest_ip: Seq<char>, guest_port: u16, protocol: Seq<char>) -> Seq<char> {
    "iptables -"@ + op + " FORWARD -p "@ + protocol + " -d "@ + guest_ip + " --dport "@ + dec(
        guest_port as nat,
    ) + " -j ACCEPT"@
}

/// Both rules of a port forward take the same operation: adding appends them (`-A`),
/// removing deletes them (`-D`), and the rules that remove a forward are exactly the
/// rules that added it with `-A` turned into `-D`.
pub proof fn law_port_forward_rules_share_their_operation(
    host_port: u16,
    guest_ip: Seq<char>,
    guest_port: u16,
    protocol: Seq<char>,
)
    ensures
        starts_with(dnat_rule("A"@, host_port, guest_ip, guest_port, protocol), "iptables -t nat -A"@),
        starts_with(accept_rule("A"@, guest_ip, guest_port, protocol), "iptables -A"@),
        starts_with(dnat_rule("D"@, host_port, guest_ip, guest_port, protocol), "iptables -t nat -D"@),
        starts_with(accept_rule("D"@, guest_ip, guest_port, protocol), "iptables -D"@),
        dnat_rule("D"@, host_port, guest_ip, guest_port, protocol) == dnat_rule(
            "A"@,
            host_port,
            guest_ip,
            guest_port,
            protocol,
        ).update(17, 'D'),
        accept_rule("D"@, guest_ip, guest_port, protocol) == accept_rule("A"@, guest_ip, guest_port, protocol).update(
            10,
            'D',
        ),
{
    reveal_strlit("iptables -t nat -");
    reveal_strlit("iptables -");
    reveal_strlit("A");
    reveal_strlit("D");
    reveal_strlit("iptables -t nat -A");
    reveal_strlit("iptables -t nat -D");
    reveal_strlit("iptables -A");
    reveal_strlit("iptables -D");
    let da = dnat_rule("A"@, host_port, guest_ip, guest_port, protocol);
    let dd = dnat_rule("D"@, host_port, guest_ip, guest_port, protocol);
    let aa = accept_rule("A"@, guest_ip, guest_port, protocol);
    let ad = accept_rule("D"@, guest_ip, guest_port, protocol);
    assert(da.subrange(0, 18) =~= "iptables -t nat -A"@);
    assert(dd.subrange(0, 18) =~= "iptables -t nat -D"@);
    assert(aa.subrange(0, 11) =~= "iptables -A"@);
    assert(ad.subrange(0, 11) =~= "iptables -D"@);
    assert(dd =~= da.update(17, 'D'));
    assert(ad =~= aa.update(10, 'D'));
}

pub open spec fn lease_value(p: Seq<Seq<char>>) -> LeaseView {
    LeaseView {
        mac: p[1],
        ip_address: p[2],
        hostname: if p[3] != "*"@ {
            Some(p[3])
        } else {
            None
        },
        client_id: if p.len() >= 5 && p[4] != "*"@ {
            Some(p[4])
        } else {
            None
        },
        expiry_time: match parse_signed(p[0], i64::MIN as int, i64::MAX as int) {
            Some(v) => v as i64,
            None => 0,
        },
    }
}

/// The leases of a dnsmasq lease file, one per line of at least four fields
/// (`expiry mac ip hostname [client-id]`, `*` standing for an absent value).
pub open spec fn leases_from(ls: Seq<Seq<char>>) -> Seq<LeaseView>
    decreases ls.len(),
{
    if ls.len() == 0 {
        Seq::empty()
    } else {
        let rest = leases_from(ls.drop_last());
        let w = words_from(ls.last(), 0);
        if w.len() >= 4 {
            rest.push(lease_value(w))
        } else {
            rest
        }
    }
}

pub open spec fn leases_view(v: Seq<DhcpLease>) -> Seq<LeaseView> {
    v.map_values(|l: DhcpLease| l@)
}

fn lease_of(words: &Vec<Vec<char>>) -> (r: DhcpLease)
    requires
        words@.len() >= 4,
    ensures
        r@ == lease_value(lines_view(words@)),
{
    let ghost w = lines_view(words@);
    let expiry_text = string_of_all(words[0].as_slice());
    let expiry_time = match parse_signed_str(expiry_text.as_str(), i64::MIN, i64::MAX) {
        Some(v) => v,
        None => 0,
    };
    let mac = string_of_all(words[1].as_slice());
    let ip_address = string_of_all(words[2].as_slice());
    let h = string_of_all(words[3].as_slice());
    let hostname = if !str_eq(h.as_str(), "*") {
        Some(h)
    } else {
        None
    };
    let client_id = if words.len() >= 5 {
        let c = string_of_all(words[4].as_slice());
        if !str_eq(c.as_str(), "*") {
            Some(c)
        } else {
            None
        }
    } else {
        None
    };
    DhcpLease { mac, ip_address, hostname, client_id, expiry_time }
}

impl NetworkService {
    /// Bridge name and IP range of a network definition.
    pub fn parse_network_xml(xml: &str) -> (r: Result<(String, Option<String>), AppError>)
        ensures
            match r {
                Ok((b, range)) => root_ok(xml@, "network"@) && b@ == bridge_of(xml@) && opt_view(range)
                    == network_ip_range(xml@),
                Err(e) => !root_ok(xml@, "network"@) && e is InvalidConfig,
            },
    {
        let bridge = match first_element_attribute(xml, "network", "bridge", "name")? {
            Some(b) => b,
            None => String::from_str("virbr0"),
        };
        let address = first_element_attribute(xml, "network", "ip", "address")?;
        let netmask = first_element_attribute(xml, "network", "ip", "netmask")?;
        let range = match (address, netmask) {
            (Some(a), Some(m)) => {
                let mut x = a;
                x.append("/");
                x.append(m.as_str());
                Some(x)
            },
            (Some(a), None) => Some(a),
            _ => None,
        };
        Ok((bridge, range))
    }

    /// The summary of a network from its name, UUID, state and definition.
    pub fn network_to_model(name: String, uuid: String, active: bool, autostart: bool, xml: &str) -> (r:
        Result<Network, AppError>)
        ensures
            match r {
                Ok(n) => root_ok(xml@, "network"@) && n.name@ == name@ && n.uuid@ == uuid@ && n.active
                    == active && n.autostart == autostart && n.bridge@ == bridge_of(xml@) && opt_view(
                    n.ip_range,
                ) == network_ip_range(xml@),
                Err(e) => !root_ok(xml@, "network"@) && e is InvalidConfig,
            },
    {
        let (bridge, ip_range) = Self::parse_network_xml(xml)?;
        Ok(Network { name, uuid, bridge, active, autostart, ip_range })
    }

    /// Path of the dnsmasq lease file of a network.
    pub fn lease_file_path(network_name: &str) -> (r: String)
        ensures
            r@ == "/var/lib/libvirt/dnsmasq/"@ + network_name@ + ".leases"@,
    {
        let mut p = String::from_str("/var/lib/libvirt/dnsmasq/");
        p.append(network_name);
        p.append(".leases");
        p
    }

    /// The leases listed in the content of a dnsmasq lease file.
    pub fn parse_dhcp_leases(content: &str) -> (r: Vec<DhcpLease>)
        ensures
            leases_view(r@) == leases_from(lines(content@)),
    {
        let ls = split_lines(content);
        let n = ls.len();
        let mut out: Vec<DhcpLease> = Vec::new();
        let mut i: usize = 0;
        while i < n
            invariant
                n == ls@.len(),
                lines_view(ls@) == lines(content@),
                i <= n,
                leases_view(out@) == leases_from(lines_view(ls@).subrange(0, i as int)),
            decreases n - i,
        {
            let words = split_whitespace(ls[i].as_slice());
            let ghost prefix = lines_view(ls@).subrange(0, i as int + 1);
            proof {
                assert(prefix.drop_last() =~= lines_view(ls@).subrange(0, i as int));
                assert(prefix.last() == ls@[i as int]@);
            }
            if words.len() >= 4 {
                let l = lease_of(&words);
                let ghost before = out@;
                out.push(l);
                proof {
                    assert(leases_view(out@) =~= leases_view(before).push(l@));
                }
            }
            i = i + 1;
        }
        proof {
            assert(lines_view(ls@).subrange(0, n as int) =~= lines_view(ls@));
        }
        out
    }

    /// The two firewall rules of a port forward, to add them (`add`) or delete them.
    pub fn port_forward_commands(host_port: u16, guest_ip: &str, guest_port: u16, protocol: &str, add: bool) -> (r:
        Result<(String, String), AppError>)
        ensures
            match r {
                Ok((dnat, accept)) => (protocol@ == "tcp"@ || protocol@ == "udp"@) && dnat@ == dnat_rule(
                    if add { "A"@ } else { "D"@ },
                    host_port,
                    guest_ip@,
                    guest_port,
                    protocol@,
                ) && accept@ == accept_rule(
                    if add { "A"@ } else { "D"@ },
                    guest_ip@,
                    guest_port,
                    protocol@,
                ),
                Err(e) => !(protocol@ == "tcp"@ || protocol@ == "udp"@) && e is InvalidConfig,
            },
            r matches Ok((dnat, accept)) ==> if add {
                starts_with(dnat@, "iptables -t nat -A"@) && starts_with(accept@, "iptables -A"@)
            } else {
                starts_with(dnat@, "iptables -t nat -D"@) && starts_with(accept@, "iptables -D"@)
            },
    {
        proof {
            law_port_forward_rules_share_their_operation(host_port, guest_ip@, guest_port, protocol@);
        }
        if !str_eq(protocol, "tcp") && !str_eq(protocol, "udp") {
            let mut m = String::from_str("Invalid protocol '");
            m.append(protocol);
            m.append("'. Must be 'tcp' or 'udp'");
            return Err(AppError::InvalidConfig(m));
        }
        let op = if add { "A" } else { "D" };
        let mut dnat = String::from_str("iptables -t nat -");
        dnat.append(op);
        dnat.append(" PREROUTING -p ");
        dnat.append(protocol);
        dnat.append(" --dport ");
        let hp = fmt_u64(host_port as u64);
        dnat.append(hp.as_str());
        dnat.append(" -j DNAT --to-destination ");
        dnat.append(guest_ip);
        dnat.append(":");
        let gp = fmt_u64(guest_port as u64);
        dnat.append(gp.as_str());
        let mut accept = String::from_str("iptables -");
        accept.append(op);
        accept.append(" FORWARD -p ");
        accept.append(protocol);
        accept.append(" -d ");
        accept.append(guest_ip);
        accept.append(" --dport ");
        accept.append(gp.as_str());
        accept.append(" -j ACCEPT");
        Ok((dnat, accept))
    }

    /// Detailed information on a network from its summary, its definition and its leases.
    pub fn network_details(basic: Network, xml: &str, leases: Vec<DhcpLease>) -> (r: Result<
        NetworkDetails,
        AppError,
    >)
        ensures
            match r {
                Ok(d) => root_ok(xml@, "network"@) && d.name@ == basic.name@ && d.uuid@ == basic.uuid@
                    && d.bridge@ == basic.bridge@ && d.active == basic.active && d.autostart
                    == basic.autostart && opt_view(d.ip_range) == opt_view(basic.ip_range)
                    && d.forward_mode@ == forward_mode_of(xml@) && opt_view(d.ip_address)
                    == element_attribute(xml@, "ip"@, "address"@) && opt_view(d.netmask)
                    == element_attribute(xml@, "ip"@, "netmask"@) && opt_view(d.dhcp_start)
                    == element_attribute(xml@, "range"@, "start"@) && opt_view(d.dhcp_end)
                    == element_attribute(xml@, "range"@, "end"@) && leases_view(d.dhcp_leases@)
                    == leases_view(leases@),
                Err(e) => !root_ok(xml@, "network"@) && e is InvalidConfig,
            },
    {
        let forward_mode = match first_element_attribute(xml, "network", "forward", "mode")? {
            Some(m) => m,
            None => String::from_str("isolated"),
        };
        let ip_address = first_element_attribute(xml, "network", "ip", "address")?;
        let netmask = first_element_attribute(xml, "network", "ip", "netmask")?;
        let dhcp_start = first_element_attribute(xml, "network", "range", "start")?;
        let dhcp_end = first_element_attribute(xml, "network", "range", "end")?;
        Ok(NetworkDetails {
            name: basic.name,
            uuid: basic.uuid,
            bridge: basic.bridge,
            active: basic.active,
            autostart: basic.autostart,
            ip_range: basic.ip_range,
            forward_mode,
            ip_address,
            netmask,
            dhcp_start,
            dhcp_end,
            dhcp_leases: leases,
        })
    }
}

} // verus!
