//! Network filter definitions: validated rule documents and the summary read back from
//! libvirt's filter XML.
use crate::error::AppError;
use crate::net::{ip_parsed, parse_ip};
use crate::operation::opt_view;
use crate::text::{
    chars_of, char_is_alnum, char_is_hex, contains, contains_str, copy_range, dec, dec_int,
    ends_with, ends_with_str, find, find_from, find_str, fmt_i64, lemma_find_from_shift, occurs_at, fmt_u64, is_alnum, is_hex, opt_int,
    parse_signed, parse_unsigned, parse_unsigned_range, str_eq, string_of, string_of_all,
};
use crate::xml::{
    count_elements, count_tags_from, element_attribute, escape, escaped_attribute,
    first_element_attribute, identifier_ok, prolog_end, root_ok, skip_xml_ws, start_tag_at, text_ok,
    validate_document_root, validate_identifier, validate_text,
};
use vstd::prelude::*;

verus! {

#[derive(Clone, Copy, Debug, PartialEq, Eq, Structural)]
pub enum RuleDirection {
    In,
    Out,
    InOut,
}

#[derive(Clone, Copy, Debug, PartialEq, Eq, Structural)]
pub enum RuleAction {
    Accept,
    Drop,
    Reject,
    Return,
    Continue,
}

/// Summary of a defined network filter.
#[derive(Debug)]
pub struct NwFilter {
    pub uuid: String,
    pub name: String,
    pub rule_count: usize,
    pub chain: Option<String>,
    pub priority: Option<i32>,
}

/// One filtering rule.
#[derive(Debug)]
pub struct NwFilterRule {
    pub action: RuleAction,
    pub direction: RuleDirection,
    pub priority: Option<i32>,
    pub protocol: Option<String>,
    pub src_ip: Option<String>,
    pub dest_ip: Option<String>,
    pub src_mac: Option<String>,
    pub dest_mac: Option<String>,
    pub src_port: Option<String>,
    pub dest_port: Option<String>,
    pub comment: Option<String>,
}

/// A filter to define.
#[derive(Debug)]
pub struct NwFilterConfig {
    pub name: String,
    pub chain: Option<String>,
    pub priority: Option<i32>,
    pub filter_refs: Vec<String>,
    pub rules: Vec<NwFilterRule>,
}

pub struct RuleView {
    pub action: RuleAction,
    pub direction: RuleDirection,
    pub priority: Option<i32>,
    pub protocol: Option<Seq<char>>,
    pub src_ip: Option<Seq<char>>,
    pub dest_ip: Option<Seq<char>>,
    pub src_mac: Option<Seq<char>>,
    pub dest_mac: Option<Seq<char>>,
    pub src_port: Option<Seq<char>>,
    pub dest_port: Option<Seq<char>>,
    pub comment: Option<Seq<char>>,
}

impl View for NwFilterRule {
    type V = RuleView;

    open spec fn view(&self) -> RuleView {
        RuleView {
            action: self.action,
            direction: self.direction,
            priority: self.priority,
            protocol: opt_view(self.protocol),
            src_ip: opt_view(self.src_ip),
            dest_ip: opt_view(self.dest_ip),
            src_mac: opt_view(self.src_mac),
            dest_mac: opt_view(self.dest_mac),
            src_port: opt_view(self.src_port),
            dest_port: opt_view(self.dest_port),
            comment: opt_view(self.comment),
        }
    }
}

// ---------------------------------------------------------------------------
// Value rules
// ---------------------------------------------------------------------------

pub open spec fn filter_char(c: char) -> bool {
    is_alnum(c) || c == '_' || c == '-' || c == '.'
}

/// A filter name, chain or reference.
pub open spec fn filter_identifier_ok(s: Seq<char>) -> bool {
    identifier_ok(s) && forall|i: int| 0 <= i < s.len() ==> filter_char(#[trigger] s[i])
}

/// Six pairs of hexadecimal digits separated by colons.
pub open spec fn mac_ok(s: Seq<char>) -> bool {
    s.len() == 17 && forall|i: int|
        0 <= i < 17 ==> if i % 3 == 2 {
            #[trigger] s[i] == ':'
        } else {
            is_hex(s[i])
        }
}

/// `start` or `start-end` with `start <= end`, each a port number.
pub open spec fn port_range(s: Seq<char>) -> Option<(u16, Option<u16>)> {
    match find(s, "-"@) {
        Some(i) => {
            let end = s.subrange(i + 1, s.len() as int);
            if contains(end, "-"@) {
                None
            } else {
                match (parse_unsigned(s.subrange(0, i), 65535), parse_unsigned(end, 65535)) {
                    (Some(a), Some(b)) => if a > b {
                        None
                    } else {
                        Some((a as u16, Some(b as u16)))
                    },
                    _ => None,
                }
            }
        },
        None => match parse_unsigned(s, 65535) {
            Some(a) => Some((a as u16, None)),
            None => None,
        },
    }
}

/// An address, or an address with a prefix length no longer than its family allows, in
/// canonical form.
pub open spec fn ip_or_cidr(s: Seq<char>) -> Option<Seq<char>> {
    match find(s, "/"@) {
        Some(i) => {
            let prefix = s.subrange(i + 1, s.len() as int);
            if contains(prefix, "/"@) {
                None
            } else {
                match ip_parsed(s.subrange(0, i)) {
                    None => None,
                    Some((t, v4)) => match parse_unsigned(prefix, 255) {
                        None => None,
                        Some(p) => if p > (if v4 {
                            32nat
                        } else {
                            128nat
                        }) {
                            None
                        } else {
                            Some(t + "/"@ + dec(p))
                        },
                    },
                }
            }
        },
        None => match ip_parsed(s) {
            Some((t, _)) => Some(t),
            None => None,
        },
    }
}

/// A comment that can stand inside an XML comment.
pub open spec fn comment_ok(s: Seq<char>) -> bool {
    text_ok(s) && !contains(s, "--"@) && !ends_with(s, "-"@)
}

pub open spec fn supported_protocol(p: Seq<char>) -> bool {
    p == "all"@ || p == "arp"@ || p == "rarp"@ || p == "ipv4"@ || p == "ipv6"@ || p == "tcp"@
        || p == "udp"@ || p == "udplite"@ || p == "sctp"@ || p == "icmp"@ || p == "igmp"@ || p
        == "esp"@ || p == "ah"@ || p == "mac"@ || p == "vlan"@ || p == "stp"@
}

pub open spec fn priority_ok(p: Option<i32>) -> bool {
    match p {
        Some(v) => -1000 <= v <= 1000,
        None => true,
    }
}

pub open spec fn priority_attr(p: Option<i32>) -> Seq<char> {
    match p {
        Some(v) => " priority='"@ + dec_int(v as int) + "'"@,
        None => Seq::empty(),
    }
}

pub open spec fn action_name(a: RuleAction) -> Seq<char> {
    match a {
        RuleAction::Accept => "accept"@,
        RuleAction::Drop => "drop"@,
        RuleAction::Reject => "reject"@,
        RuleAction::Return => "return"@,
        RuleAction::Continue => "continue"@,
    }
}

pub open spec fn direction_name(d: RuleDirection) -> Seq<char> {
    match d {
        RuleDirection::In => "in"@,
        RuleDirection::Out => "out"@,
        RuleDirection::InOut => "inout"@,
    }
}

/// An address attribute, or `None` when the value is not a valid address.
pub open spec fn ip_attr(name: Seq<char>, v: Option<Seq<char>>) -> Option<Seq<char>> {
    match v {
        None => Some(Seq::empty()),
        Some(s) => match ip_or_cidr(s) {
            Some(t) => if text_ok(t) {
                Some(" "@ + name + "='"@ + escape(t) + "'"@)
            } else {
                None
            },
            None => None,
        },
    }
}

pub open spec fn mac_attr(name: Seq<char>, v: Option<Seq<char>>) -> Option<Seq<char>> {
    match v {
        None => Some(Seq::empty()),
        Some(s) => if mac_ok(s) {
            Some(" "@ + name + "='"@ + escape(s) + "'"@)
        } else {
            None
        },
    }
}

pub open spec fn port_attrs(prefix: Seq<char>, v: Option<Seq<char>>) -> Option<Seq<char>> {
    match v {
        None => Some(Seq::empty()),
        Some(s) => match port_range(s) {
            None => None,
            Some((a, e)) => Some(
                " "@ + prefix + "portstart='"@ + dec(a as nat) + "'"@ + match e {
                    Some(b) => " "@ + prefix + "portend='"@ + dec(b as nat) + "'"@,
                    None => Seq::empty(),
                },
            ),
        },
    }
}

pub open spec fn comment_attr(v: Option<Seq<char>>) -> Option<Seq<char>> {
    match v {
        None => Some(Seq::empty()),
        Some(c) => if text_ok(c) {
            Some(" comment='"@ + escape(c) + "'"@)
        } else {
            None
        },
    }
}

/// The protocol element of a rule for a specific protocol.
pub open spec fn protocol_element(r: RuleView, protocol: Seq<char>) -> Option<Seq<char>> {
    match (
        ip_attr("srcipaddr"@, r.src_ip),
        ip_attr("dstipaddr"@, r.dest_ip),
        mac_attr("srcmacaddr"@, r.src_mac),
        mac_attr("dstmacaddr"@, r.dest_mac),
        port_attrs("src"@, r.src_port),
        port_attrs("dst"@, r.dest_port),
        comment_attr(r.comment),
    ) {
        (Some(a), Some(b), Some(c), Some(d), Some(e), Some(f), Some(g)) => Some(
            "    <"@ + protocol + a + b + c + d + e + f + g + "/>\n"@,
        ),
        _ => None,
    }
}

/// The `<rule>` element of a rule, or `None` when the rule is rejected.
pub open spec fn rule_xml(r: RuleView) -> Option<Seq<char>> {
    let protocol = match r.protocol {
        Some(p) => p,
        None => "all"@,
    };
    let head = "  <rule action='"@ + action_name(r.action) + "' direction='"@ + direction_name(
        r.direction,
    ) + "'"@ + priority_attr(r.priority) + ">\n"@;
    if !priority_ok(r.priority) || !supported_protocol(protocol) {
        None
    } else if protocol == "all"@ {
        if r.src_ip is Some || r.dest_ip is Some || r.src_mac is Some || r.dest_mac is Some
            || r.src_port is Some || r.dest_port is Some {
            None
        } else {
            match r.comment {
                Some(c) => if comment_ok(c) {
                    Some(head + "    <!-- "@ + c + " -->\n"@ + "  </rule>\n"@)
                } else {
                    None
                },
                None => Some(head + "  </rule>\n"@),
            }
        }
    } else {
        match protocol_element(r, protocol) {
            Some(el) => Some(head + el + "  </rule>\n"@),
            None => None,
        }
    }
}

/// The `<filterref>` elements of a filter, in order.
pub open spec fn refs_xml(refs: Seq<Seq<char>>) -> Option<Seq<char>>
    decreases refs.len(),
{
    if refs.len() == 0 {
        Some(Seq::empty())
    } else {
        match refs_xml(refs.drop_last()) {
            None => None,
            Some(prev) => if filter_identifier_ok(refs.last()) {
                Some(prev + "  <filterref filter='"@ + escape(refs.last()) + "'/>\n"@)
            } else {
                None
            },
        }
    }
}

/// The `<rule>` elements of a filter, in order.
pub open spec fn rules_xml(rules: Seq<RuleView>) -> Option<Seq<char>>
    decreases rules.len(),
{
    if rules.len() == 0 {
        Some(Seq::empty())
    } else {
        match (rules_xml(rules.drop_last()), rule_xml(rules.last())) {
            (Some(prev), Some(x)) => Some(prev + x),
            _ => None,
        }
    }
}

pub open spec fn rules_view(v: Seq<NwFilterRule>) -> Seq<RuleView> {
    v.map_values(|r: NwFilterRule| r@)
}

pub open spec fn refs_view(v: Seq<String>) -> Seq<Seq<char>> {
    v.map_values(|s: String| s@)
}

/// The filter document of a configuration, or `None` when it is rejected.
pub open spec fn config_xml(
    name: Seq<char>,
    chain: Option<Seq<char>>,
    priority: Option<i32>,
    refs: Seq<Seq<char>>,
    rules: Seq<RuleView>,
) -> Option<Seq<char>> {
    if !filter_identifier_ok(name) || rules.len() > 1024 || refs.len() > 1024 {
        None
    } else if chain matches Some(c) && !filter_identifier_ok(c) {
        None
    } else if !priority_ok(priority) {
        None
    } else {
        match (refs_xml(refs), rules_xml(rules)) {
            (Some(rx), Some(ux)) => Some(
                "<?xml version='1.0' encoding='UTF-8'?>\n<filter name='"@ + escape(name) + "'"@
                    + match chain {
                    Some(c) => " chain='"@ + escape(c) + "'"@,
                    None => Seq::empty(),
                } + priority_attr(priority) + ">\n"@ + rx + ux + "</filter>\n"@,
            ),
            _ => None,
        }
    }
}

// ---------------------------------------------------------------------------
// Validation
// ---------------------------------------------------------------------------

fn filter_chars_ok(v: &[char]) -> (r: bool)
    ensures
        r == forall|i: int| 0 <= i < v@.len() ==> filter_char(#[trigger] v@[i]),
{
    let mut i: usize = 0;
    while i < v.len()
        invariant
            i <= v@.len(),
            forall|j: int| 0 <= j < i ==> filter_char(#[trigger] v@[j]),
        decreases v@.len() - i,
    {
        let c = v[i];
        if !(char_is_alnum(c) || c == '_' || c == '-' || c == '.') {
            return false;
        }
        i = i + 1;
    }
    true
}

/// Rejects a filter name, chain or reference outside `[A-Za-z0-9_.-]`.
pub fn validate_filter_identifier(value: &str, field: &str) -> (r: Result<(), AppError>)
    ensures
        r is Ok <==> filter_identifier_ok(value@),
        r matches Err(e) ==> e is InvalidConfig,
{
    validate_identifier(value, field)?;
    let v = chars_of(value);
    if !filter_chars_ok(v.as_slice()) {
        let mut m = String::from_str(field);
        m.append(" contains unsupported characters");
        return Err(AppError::InvalidConfig(m));
    }
    Ok(())
}

fn invalid_field(field: &str) -> (e: AppError)
    ensures
        e is InvalidConfig,
{
    let mut m = String::from_str(field);
    m.append(" is invalid");
    AppError::InvalidConfig(m)
}

/// A MAC address of six colon-separated hexadecimal pairs, returned unchanged.
pub fn validated_mac(value: &str, field: &str) -> (r: Result<String, AppError>)
    ensures
        match r {
            Ok(s) => mac_ok(value@) && s@ == value@,
            Err(e) => !mac_ok(value@) && e is InvalidConfig,
        },
{
    let v = chars_of(value);
    if v.len() != 17 {
        return Err(invalid_field(field));
    }
    let mut i: usize = 0;
    while i < 17
        invariant
            v@ == value@,
            v@.len() == 17,
            i <= 17,
            forall|j: int|
                0 <= j < i ==> if j % 3 == 2 {
                    #[trigger] v@[j] == ':'
                } else {
                    is_hex(v@[j])
                },
        decreases 17 - i,
    {
        let ok = if i % 3 == 2 {
            v[i] == ':'
        } else {
            char_is_hex(v[i])
        };
        if !ok {
            return Err(invalid_field(field));
        }
        i = i + 1;
    }
    Ok(String::from_str(value))
}

/// A port or an ascending `start-end` port range.
pub fn validated_port_range(value: &str, field: &str) -> (r: Result<(u16, Option<u16>), AppError>)
    ensures
        match r {
            Ok(p) => port_range(value@) == Some(p),
            Err(e) => port_range(value@) is None && e is InvalidConfig,
        },
{
    let v = chars_of(value);
    let n = v.len();
    proof {
        assert(v@.subrange(0, n as int) =~= v@);
        reveal_strlit("-");
    }
    match find_str(v.as_slice(), "-") {
        Some(i) => {
            let end = copy_range(v.as_slice(), i + 1, n);
            if contains_str(end.as_slice(), "-") {
                return Err(invalid_field(field));
            }
            let a = parse_unsigned_range(v.as_slice(), 0, i, 65535);
            let b = parse_unsigned_range(v.as_slice(), i + 1, n, 65535);
            match (a, b) {
                (Some(a), Some(b)) => {
                    if a > b {
                        Err(invalid_field(field))
                    } else {
                        Ok((a as u16, Some(b as u16)))
                    }
                },
                _ => Err(invalid_field(field)),
            }
        },
        None => match parse_unsigned_range(v.as_slice(), 0, n, 65535) {
            Some(a) => Ok((a as u16, None)),
            None => Err(invalid_field(field)),
        },
    }
}

/// An IP address or CIDR block in canonical form.
pub fn validated_ip_or_cidr(value: &str, field: &str) -> (r: Result<String, AppError>)
    ensures
        match r {
            Ok(s) => ip_or_cidr(value@) == Some(s@),
            Err(e) => ip_or_cidr(value@) is None && e is InvalidConfig,
        },
{
    let v = chars_of(value);
    let n = v.len();
    proof {
        assert(v@.subrange(0, n as int) =~= v@);
        reveal_strlit("/");
    }
    match find_str(v.as_slice(), "/") {
        Some(i) => {
            let prefix = copy_range(v.as_slice(), i + 1, n);
            if contains_str(prefix.as_slice(), "/") {
                return Err(invalid_field(field));
            }
            let address = string_of(v.as_slice(), 0, i);
            match parse_ip(address.as_str()) {
                None => Err(invalid_field(field)),
                Some((t, v4)) => match parse_unsigned_range(v.as_slice(), i + 1, n, 255) {
                    None => Err(invalid_field(field)),
                    Some(p) => {
                        let maximum: u64 = if v4 {
                            32
                        } else {
                            128
                        };
                        if p > maximum {
                            return Err(invalid_field(field));
                        }
                        let mut r = t;
                        r.append("/");
                        let d = fmt_u64(p);
                        r.append(d.as_str());
                        Ok(r)
                    },
                },
            }
        },
        None => match parse_ip(value) {
            Some((t, _)) => Ok(t),
            None => Err(invalid_field(field)),
        },
    }
}

/// A rule comment that can be placed inside an XML comment, returned unchanged.
pub fn safe_xml_comment(value: &str) -> (r: Result<String, AppError>)
    ensures
        match r {
            Ok(s) => comment_ok(value@) && s@ == value@,
            Err(e) => !comment_ok(value@) && e is InvalidConfig,
        },
{
    validate_text(value, "rule comment")?;
    let v = chars_of(value);
    if contains_str(v.as_slice(), "--") || ends_with_str(v.as_slice(), "-") {
        return Err(AppError::invalid("Rule comment contains unsupported XML comment content"));
    }
    Ok(String::from_str(value))
}

fn is_supported_protocol(p: &str) -> (r: bool)
    ensures
        r == supported_protocol(p@),
{
    str_eq(p, "all") || str_eq(p, "arp") || str_eq(p, "rarp") || str_eq(p, "ipv4") || str_eq(
        p,
        "ipv6",
    ) || str_eq(p, "tcp") || str_eq(p, "udp") || str_eq(p, "udplite") || str_eq(p, "sctp")
        || str_eq(p, "icmp") || str_eq(p, "igmp") || str_eq(p, "esp") || str_eq(p, "ah")
        || str_eq(p, "mac") || str_eq(p, "vlan") || str_eq(p, "stp")
}

fn ip_attr_exec(name: &str, v: &Option<String>, field: &str) -> (r: Result<String, AppError>)
    ensures
        match r {
            Ok(s) => ip_attr(name@, opt_view(*v)) == Some(s@),
            Err(e) => ip_attr(name@, opt_view(*v)) is None && e is InvalidConfig,
        },
{
    match v {
        None => Ok(String::new()),
        Some(s) => {
            let t = validated_ip_or_cidr(s.as_str(), field)?;
            let esc = escaped_attribute(t.as_str(), field)?;
            let mut a = String::from_str(" ");
            a.append(name);
            a.append("='");
            a.append(esc.as_str());
            a.append("'");
            Ok(a)
        },
    }
}

fn mac_attr_exec(name: &str, v: &Option<String>, field: &str) -> (r: Result<String, AppError>)
    ensures
        match r {
            Ok(s) => mac_attr(name@, opt_view(*v)) == Some(s@),
            Err(e) => mac_attr(name@, opt_view(*v)) is None && e is InvalidConfig,
        },
{
    match v {
        None => Ok(String::new()),
        Some(s) => {
            let m = validated_mac(s.as_str(), field)?;
            let mut a = String::from_str(" ");
            a.append(name);
            a.append("='");
            crate::xml::push_escaped_str(&mut a, m.as_str());
            a.append("'");
            Ok(a)
        },
    }
}

fn port_attrs_exec(prefix: &str, v: &Option<String>, field: &str) -> (r: Result<String, AppError>)
    ensures
        match r {
            Ok(s) => port_attrs(prefix@, opt_view(*v)) == Some(s@),
            Err(e) => port_attrs(prefix@, opt_view(*v)) is None && e is InvalidConfig,
        },
{
    match v {
        None => Ok(String::new()),
        Some(s) => {
            let (start, end) = validated_port_range(s.as_str(), field)?;
            let mut a = String::from_str(" ");
            a.append(prefix);
            a.append("portstart='");
            let d = fmt_u64(start as u64);
            a.append(d.as_str());
            a.append("'");
            match end {
                Some(b) => {
                    a.append(" ");
                    a.append(prefix);
                    a.append("portend='");
                    let d = fmt_u64(b as u64);
                    a.append(d.as_str());
                    a.append("'");
                },
                None => {},
            }
            Ok(a)
        },
    }
}

fn comment_attr_exec(v: &Option<String>) -> (r: Result<String, AppError>)
    ensures
        match r {
            Ok(s) => comment_attr(opt_view(*v)) == Some(s@),
            Err(e) => comment_attr(opt_view(*v)) is None && e is InvalidConfig,
        },
{
    match v {
        None => Ok(String::new()),
        Some(c) => {
            validate_text(c.as_str(), "rule comment")?;
            let esc = escaped_attribute(c.as_str(), "rule comment")?;
            let mut a = String::from_str(" comment='");
            a.append(esc.as_str());
            a.append("'");
            Ok(a)
        },
    }
}

fn priority_attr_exec(p: Option<i32>) -> (r: String)
    ensures
        r@ == priority_attr(p),
{
    match p {
        Some(v) => {
            let mut a = String::from_str(" priority='");
            let d = fmt_i64(v as i64);
            a.append(d.as_str());
            a.append("'");
            a
        },
        None => String::new(),
    }
}

fn rule_head(rule: &NwFilterRule) -> (r: String)
    ensures
        r@ == "  <rule action='"@ + action_name(rule.action) + "' direction='"@ + direction_name(
            rule.direction,
        ) + "'"@ + priority_attr(rule.priority) + ">\n"@,
{
    let direction = match rule.direction {
        RuleDirection::In => "in",
        RuleDirection::Out => "out",
        RuleDirection::InOut => "inout",
    };
    let action = match rule.action {
        RuleAction::Accept => "accept",
        RuleAction::Drop => "drop",
        RuleAction::Reject => "reject",
        RuleAction::Return => "return",
        RuleAction::Continue => "continue",
    };
    let mut xml = String::from_str("  <rule action='");
    xml.append(action);
    xml.append("' direction='");
    xml.append(direction);
    xml.append("'");
    let pa = priority_attr_exec(rule.priority);
    xml.append(pa.as_str());
    xml.append(">\n");
    xml
}

/// Body of an all-protocol rule: no protocol fields, and an optional XML comment.
fn all_protocol_body(rule: &NwFilterRule) -> (r: Result<String, AppError>)
    ensures
        ({
            let rv = rule@;
            let ok = !(rv.src_ip is Some || rv.dest_ip is Some || rv.src_mac is Some
                || rv.dest_mac is Some || rv.src_port is Some || rv.dest_port is Some) && match rv.comment {
                Some(c) => comment_ok(c),
                None => true,
            };
            match r {
                Ok(s) => ok && s@ == match rv.comment {
                    Some(c) => "    <!-- "@ + c + " -->\n"@,
                    None => Seq::<char>::empty(),
                },
                Err(e) => !ok && e is InvalidConfig,
            }
        }),
{
    if rule.src_ip.is_some() || rule.dest_ip.is_some() || rule.src_mac.is_some()
        || rule.dest_mac.is_some() || rule.src_port.is_some() || rule.dest_port.is_some() {
        return Err(AppError::invalid("An all-protocol rule cannot include protocol-specific fields"));
    }
    let mut xml = String::new();
    if let Some(comment) = &rule.comment {
        let c = safe_xml_comment(comment.as_str())?;
        xml.append("    <!-- ");
        xml.append(c.as_str());
        xml.append(" -->\n");
    }
    Ok(xml)
}

fn protocol_element_exec(rule: &NwFilterRule, protocol: &str) -> (r: Result<String, AppError>)
    ensures
        match r {
            Ok(s) => protocol_element(rule@, protocol@) == Some(s@),
            Err(e) => protocol_element(rule@, protocol@) is None && e is InvalidConfig,
        },
{
    let a = ip_attr_exec("srcipaddr", &rule.src_ip, "source IP")?;
    let b = ip_attr_exec("dstipaddr", &rule.dest_ip, "destination IP")?;
    let c = mac_attr_exec("srcmacaddr", &rule.src_mac, "source MAC")?;
    let d = mac_attr_exec("dstmacaddr", &rule.dest_mac, "destination MAC")?;
    let e = port_attrs_exec("src", &rule.src_port, "source port")?;
    let f = port_attrs_exec("dst", &rule.dest_port, "destination port")?;
    let g = comment_attr_exec(&rule.comment)?;
    let mut xml = String::from_str("    <");
    xml.append(protocol);
    xml.append(a.as_str());
    xml.append(b.as_str());
    xml.append(c.as_str());
    xml.append(d.as_str());
    xml.append(e.as_str());
    xml.append(f.as_str());
    xml.append(g.as_str());
    xml.append("/>\n");
    Ok(xml)
}

pub proof fn lemma_refs_none_extends(s: Seq<Seq<char>>, i: int, j: int)
    requires
        0 <= i <= j <= s.len(),
        refs_xml(s.subrange(0, i)) is None,
    ensures
        refs_xml(s.subrange(0, j)) is None,
    decreases j - i,
{
    if i < j {
        assert(s.subrange(0, i + 1).drop_last() =~= s.subrange(0, i));
        lemma_refs_none_extends(s, i + 1, j);
    }
}

pub proof fn lemma_rules_none_extends(s: Seq<RuleView>, i: int, j: int)
    requires
        0 <= i <= j <= s.len(),
        rules_xml(s.subrange(0, i)) is None,
    ensures
        rules_xml(s.subrange(0, j)) is None,
    decreases j - i,
{
    if i < j {
        assert(s.subrange(0, i + 1).drop_last() =~= s.subrange(0, i));
        lemma_rules_none_extends(s, i + 1, j);
    }
}

pub struct NwFilterService;

impl NwFilterService {
    /// The `<rule>` element of one rule.
    pub fn rule_to_xml(rule: &NwFilterRule) -> (r: Result<String, AppError>)
        ensures
            match r {
                Ok(s) => rule_xml(rule@) == Some(s@),
                Err(e) => rule_xml(rule@) is None && e is InvalidConfig,
            },
    {
        if let Some(priority) = rule.priority {
            if !(-1000 <= priority && priority <= 1000) {
                return Err(AppError::invalid("Rule priority must be between -1000 and 1000"));
            }
        }
        let protocol: &str = match &rule.protocol {
            Some(p) => p.as_str(),
            None => "all",
        };
        if !is_supported_protocol(protocol) {
            return Err(AppError::invalid("Unsupported filter protocol"));
        }
        let mut xml = rule_head(rule);
        let body = if str_eq(protocol, "all") {
            all_protocol_body(rule)?
        } else {
            protocol_element_exec(rule, protocol)?
        };
        xml.append(body.as_str());
        xml.append("  </rule>\n");
        Ok(xml)
    }

    /// The filter document of a configuration. Every name, chain and reference is limited to
    /// `[A-Za-z0-9_.-]`, every value is validated or escaped, and a filter holds at most
    /// 1024 rules and 1024 references.
    pub fn config_to_xml(config: &NwFilterConfig) -> (r: Result<String, AppError>)
        ensures
            match r {
                Ok(s) => config_xml(
                    config.name@,
                    opt_view(config.chain),
                    config.priority,
                    refs_view(config.filter_refs@),
                    rules_view(config.rules@),
                ) == Some(s@),
                Err(e) => config_xml(
                    config.name@,
                    opt_view(config.chain),
                    config.priority,
                    refs_view(config.filter_refs@),
                    rules_view(config.rules@),
                ) is None && e is InvalidConfig,
            },
    {
        validate_filter_identifier(config.name.as_str(), "filter name")?;
        if config.rules.len() > 1024 || config.filter_refs.len() > 1024 {
            return Err(AppError::invalid("Filter contains too many rules or references"));
        }
        let mut xml = String::from_str("<?xml version='1.0' encoding='UTF-8'?>\n<filter name='");
        let name = escaped_attribute(config.name.as_str(), "filter name")?;
        xml.append(name.as_str());
        xml.append("'");
        if let Some(chain) = &config.chain {
            validate_filter_identifier(chain.as_str(), "filter chain")?;
            let c = escaped_attribute(chain.as_str(), "filter chain")?;
            xml.append(" chain='");
            xml.append(c.as_str());
            xml.append("'");
        }
        if let Some(priority) = config.priority {
            if !(-1000 <= priority && priority <= 1000) {
                return Err(AppError::invalid("Filter priority must be between -1000 and 1000"));
            }
        }
        let pa = priority_attr_exec(config.priority);
        xml.append(pa.as_str());
        xml.append(">\n");
        let ghost head = xml@;
        let refs = &config.filter_refs;
        let mut i: usize = 0;
        while i < refs.len()
            invariant
                filter_identifier_ok(config.name@),
                config.rules@.len() <= 1024,
                config.filter_refs@.len() <= 1024,
                !(opt_view(config.chain) matches Some(c) && !filter_identifier_ok(c)),
                priority_ok(config.priority),
                refs == &config.filter_refs,
                i <= refs@.len(),
                refs_xml(refs_view(refs@.subrange(0, i as int))) == Some(
                    xml@.subrange(head.len() as int, xml@.len() as int),
                ),
                xml@.len() >= head.len(),
                xml@.subrange(0, head.len() as int) == head,
            decreases refs@.len() - i,
        {
            let ghost before = xml@;
            proof {
                assert(refs_view(refs@.subrange(0, i + 1)).drop_last() =~= refs_view(refs@.subrange(0, i as int)));
                assert(refs@.subrange(0, refs@.len() as int) =~= refs@);
                assert(refs_view(refs@).subrange(0, i + 1) =~= refs_view(refs@.subrange(0, i + 1)));
                assert(refs_view(refs@).subrange(0, refs@.len() as int) =~= refs_view(refs@));
            }
            if let Err(e) = validate_filter_identifier(refs[i].as_str(), "filter reference") {
                proof {
                    lemma_refs_none_extends(refs_view(refs@), i + 1, refs@.len() as int);
                }
                return Err(e);
            }
            xml.append("  <filterref filter='");
            let r = match escaped_attribute(refs[i].as_str(), "filter reference") {
                Ok(r) => r,
                Err(e) => return Err(e),
            };
            xml.append(r.as_str());
            xml.append("'/>\n");
            proof {
                assert(refs_view(refs@.subrange(0, i + 1)).drop_last() =~= refs_view(refs@.subrange(0, i as int)));
                assert(xml@.subrange(head.len() as int, xml@.len() as int) =~= before.subrange(head.len() as int, before.len() as int) + "  <filterref filter='"@ + escape(refs@[i as int]@) + "'/>\n"@);
                assert(xml@.subrange(0, head.len() as int) =~= head);
            }
            i = i + 1;
        }
        proof {
            assert(refs@.subrange(0, refs@.len() as int) =~= refs@);
        }
        let ghost mid = xml@;
        let rules = &config.rules;
        let mut k: usize = 0;
        while k < rules.len()
            invariant
                filter_identifier_ok(config.name@),
                config.rules@.len() <= 1024,
                config.filter_refs@.len() <= 1024,
                !(opt_view(config.chain) matches Some(c) && !filter_identifier_ok(c)),
                priority_ok(config.priority),
                rules == &config.rules,
                refs_xml(refs_view(config.filter_refs@)) is Some,
                k <= rules@.len(),
                rules_xml(rules_view(rules@.subrange(0, k as int))) == Some(
                    xml@.subrange(mid.len() as int, xml@.len() as int),
                ),
                xml@.len() >= mid.len(),
                xml@.subrange(0, mid.len() as int) == mid,
            decreases rules@.len() - k,
        {
            let ghost before = xml@;
            proof {
                assert(rules_view(rules@.subrange(0, k + 1)).drop_last() =~= rules_view(rules@.subrange(0, k as int)));
                assert(rules_view(rules@).subrange(0, k + 1) =~= rules_view(rules@.subrange(0, k + 1)));
                assert(rules_view(rules@).subrange(0, rules@.len() as int) =~= rules_view(rules@));
            }
            let x = match Self::rule_to_xml(&rules[k]) {
                Ok(x) => x,
                Err(e) => {
                    proof {
                        lemma_rules_none_extends(rules_view(rules@), k + 1, rules@.len() as int);
                    }
                    return Err(e);
                },
            };
            xml.append(x.as_str());
            proof {
                assert(rules_view(rules@.subrange(0, k + 1)).drop_last() =~= rules_view(rules@.subrange(0, k as int)));
                assert(xml@.subrange(mid.len() as int, xml@.len() as int) =~= before.subrange(mid.len() as int, before.len() as int) + x@);
                assert(xml@.subrange(0, mid.len() as int) =~= mid);
            }
            k = k + 1;
        }
        xml.append("</filter>\n");
        proof {
            assert(refs@.subrange(0, refs@.len() as int) =~= refs@);
            assert(rules@.subrange(0, rules@.len() as int) =~= rules@);
            assert(xml@ =~= mid + rules_xml(rules_view(rules@)).unwrap() + "</filter>\n"@);
            assert(mid =~= head + refs_xml(refs_view(refs@)).unwrap());
            assert(config_xml(
                config.name@,
                opt_view(config.chain),
                config.priority,
                refs_view(config.filter_refs@),
                rules_view(config.rules@),
            ) == Some(xml@));
            lemma_config_xml_root(
                config.name@,
                opt_view(config.chain),
                config.priority,
                refs_view(config.filter_refs@),
                rules_view(config.rules@),
            );
            assert(root_ok(xml@, "filter"@));
        }
        validate_document_root(xml.as_str(), "filter")?;
        Ok(xml)
    }
}

/// A document that opens with the XML declaration and `<filter name='` has `filter` as its
/// document element.
proof fn lemma_filter_document_root(s: Seq<char>)
    requires
        s.len() >= 53,
        s.subrange(0, 53) == "<?xml version='1.0' encoding='UTF-8'?>\n<filter name='"@,
    ensures
        root_ok(s, "filter"@),
{
    let head = "<?xml version='1.0' encoding='UTF-8'?>\n<filter name='"@;
    reveal_strlit("<?xml version='1.0' encoding='UTF-8'?>\n<filter name='");
    reveal_strlit("<?");
    reveal_strlit("?>");
    reveal_strlit("filter");
    assert forall|j: int| 0 <= j < 53 implies s[j] == #[trigger] head[j] by {
        assert(s.subrange(0, 53)[j] == s[j]);
    }
    assert(s[0] == head[0]);
    assert(skip_xml_ws(s, 0) == 0);
    assert(s[1] == head[1]);
    assert(s.subrange(0, 2) =~= "<?"@);
    assert(occurs_at(s, "<?"@, 0));
    assert forall|j: int| 2 <= j < 36 implies !occurs_at(s, "?>"@, j) by {
        assert(s[j] == head[j]);
        if occurs_at(s, "?>"@, j) {
            assert(s.subrange(j, j + 2)[0] == s[j]);
        }
    }
    lemma_find_from_shift(s, "?>"@, 2, 36);
    assert(s[36] == head[36] && s[37] == head[37]);
    assert(s.subrange(36, 38) =~= "?>"@);
    assert(s[38] == head[38] && s[39] == head[39]);
    assert(find_from(s, "?>"@, 36) == Some(36int));
    assert(skip_xml_ws(s, 39) == 39);
    assert(skip_xml_ws(s, 38) == 39);
    assert(s.subrange(40, 46) =~= head.subrange(40, 46));
    assert(head.subrange(40, 46) =~= "filter"@);
    assert(prolog_end(s) == 39);
    assert(s[46] == head[46]);
    assert(start_tag_at(s, "filter"@, 39));
}

/// Every filter document has `filter` as its document element.
proof fn lemma_config_xml_root(
    name: Seq<char>,
    chain: Option<Seq<char>>,
    priority: Option<i32>,
    refs: Seq<Seq<char>>,
    rules: Seq<RuleView>,
)
    requires
        config_xml(name, chain, priority, refs, rules) is Some,
    ensures
        root_ok(config_xml(name, chain, priority, refs, rules)->0, "filter"@),
{
    let x = config_xml(name, chain, priority, refs, rules)->0;
    reveal_strlit("<?xml version='1.0' encoding='UTF-8'?>\n<filter name='");
    assert(x.subrange(0, 53) =~= "<?xml version='1.0' encoding='UTF-8'?>\n<filter name='"@);
    lemma_filter_document_root(x);
}

/// The priority attribute of the first `filter` tag, read as an `i32`.
pub open spec fn filter_priority(xml: Seq<char>) -> Result<Option<i32>, ()> {
    match element_attribute(xml, "filter"@, "priority"@) {
        None => Ok(None),
        Some(v) => match parse_signed(v, -2147483648, 2147483647) {
            Some(p) => Ok(Some(p as i32)),
            None => Err(()),
        },
    }
}

impl NwFilterService {
    /// Number of `<rule>` elements of a filter document.
    pub fn count_rules(xml: &str) -> (r: Result<usize, AppError>)
        ensures
            match r {
                Ok(n) => root_ok(xml@, "filter"@) && n == count_tags_from(xml@, "rule"@, 0),
                Err(e) => !root_ok(xml@, "filter"@) && e is InvalidConfig,
            },
    {
        count_elements(xml, "filter", "rule")
    }

    /// The chain of a filter document.
    pub fn extract_chain(xml: &str) -> (r: Result<Option<String>, AppError>)
        ensures
            match r {
                Ok(c) => root_ok(xml@, "filter"@) && opt_view(c) == element_attribute(
                    xml@,
                    "filter"@,
                    "chain"@,
                ),
                Err(e) => !root_ok(xml@, "filter"@) && e is InvalidConfig,
            },
    {
        let r = first_element_attribute(xml, "filter", "filter", "chain");
        r
    }

    /// The priority of a filter document.
    pub fn extract_priority(xml: &str) -> (r: Result<Option<i32>, AppError>)
        ensures
            match r {
                Ok(p) => root_ok(xml@, "filter"@) && filter_priority(xml@) == Ok::<Option<i32>, ()>(p),
                Err(e) => e is InvalidConfig && (!root_ok(xml@, "filter"@) || filter_priority(
                    xml@,
                ) is Err),
            },
    {
        match first_element_attribute(xml, "filter", "filter", "priority")? {
            None => Ok(None),
            Some(value) => match crate::text::parse_signed_str(
                value.as_str(),
                -2147483648,
                2147483647,
            ) {
                Some(p) => Ok(Some(p as i32)),
                None => Err(AppError::invalid("Invalid filter priority")),
            },
        }
    }

    /// The summary of a defined filter from its identity and XML description.
    pub fn filter_to_model(uuid: String, name: String, xml: &str) -> (r: Result<NwFilter, AppError>)
        ensures
            match r {
                Ok(f) => root_ok(xml@, "filter"@) && f.uuid@ == uuid@ && f.name@ == name@
                    && f.rule_count == count_tags_from(xml@, "rule"@, 0) && opt_view(f.chain)
                    == element_attribute(xml@, "filter"@, "chain"@) && filter_priority(xml@)
                    == Ok::<Option<i32>, ()>(f.priority),
                Err(e) => e is InvalidConfig && (!root_ok(xml@, "filter"@) || filter_priority(
                    xml@,
                ) is Err),
            },
    {
        let rule_count = Self::count_rules(xml)?;
        let chain = Self::extract_chain(xml)?;
        let priority = Self::extract_priority(xml)?;
        Ok(NwFilter { uuid, name, rule_count, chain, priority })
    }
}

} // verus!
