//! IP address parsing through the standard library, and dotted-quad formatting.
use crate::text::{all_digits, dec, digits_value, fmt_u64, split_on};
use vstd::prelude::*;

verus! {

/// One octet of dotted-decimal text: one to three decimal digits, without a leading zero
/// (no octal), at most 255.
pub open spec fn ipv4_octet(g: Seq<char>) -> Option<nat> {
    if 1 <= g.len() <= 3 && all_digits(g) && !(g.len() > 1 && g[0] == '0') && digits_value(g) <= 255 {
        Some(digits_value(g))
    } else {
        None
    }
}

/// The value of an IPv4 address in dotted-decimal text, as `core::net::Ipv4Addr::from_str`
/// documents it: four decimal octets divided by `.`, octal (leading zero) and
/// hexadecimal forms refused; the value reads the octets big-endian.
pub open spec fn ipv4_value(s: Seq<char>) -> Option<u32> {
    let parts = split_on(s, '.', '.');
    if parts.len() == 4 {
        match (ipv4_octet(parts[0]), ipv4_octet(parts[1]), ipv4_octet(parts[2]), ipv4_octet(parts[3])) {
            (Some(a), Some(b), Some(c), Some(d)) => Some((a * 16777216 + b * 65536 + c * 256 + d) as u32),
            _ => None,
        }
    } else {
        None
    }
}

/// The value and canonical text of an IPv6 address, as `Ipv6Addr::from_str` parses it and
/// its `Display` impl prints it.
pub uninterp spec fn ipv6_parsed(s: Seq<char>) -> Option<(u128, Seq<char>)>;

/// Parses an IPv4 address with `str::parse::<Ipv4Addr>`; the value is the address read as
/// a big-endian integer (`u32::from`). Which texts parse is the documented dot-decimal
/// notation of `Ipv4Addr`'s `FromStr`.
#[verifier::external_body]
pub(crate) fn parse_ipv4(s: &str) -> (r: Option<u32>)
    ensures
        r == ipv4_value(s@),
{
    match s.parse::<core::net::Ipv4Addr>() {
        Ok(a) => Some(u32::from(a)),
        Err(_) => None,
    }
}

/// Parses an IPv6 address with `str::parse::<Ipv6Addr>` and returns its value (`u128::from`)
/// and the text its `Display` impl prints. Nothing is stated of which texts parse or of
/// the canonical text.
#[verifier::external_body]
pub(crate) fn parse_ipv6(s: &str) -> (r: Option<(u128, String)>)
    ensures
        match r {
            Some((v, t)) => ipv6_parsed(s@) == Some((v, t@)),
            None => ipv6_parsed(s@) is None,
        },
{
    match s.parse::<core::net::Ipv6Addr>() {
        Ok(a) => Some((u128::from(a), a.to_string())),
        Err(_) => None,
    }
}

/// Dotted-quad text of an IPv4 address value.
pub open spec fn dotted(v: u32) -> Seq<char> {
    dec((v as nat / 16777216) % 256) + "."@ + dec((v as nat / 65536) % 256) + "."@ + dec(
        (v as nat / 256) % 256,
    ) + "."@ + dec(v as nat % 256)
}

pub fn fmt_ipv4(v: u32) -> (r: String)
    ensures
        r@ == dotted(v),
{
    let a = fmt_u64(((v / 16777216) % 256) as u64);
    let b = fmt_u64(((v / 65536) % 256) as u64);
    let c = fmt_u64(((v / 256) % 256) as u64);
    let d = fmt_u64((v % 256) as u64);
    let mut r = a;
    r.append(".");
    r.append(b.as_str());
    r.append(".");
    r.append(c.as_str());
    r.append(".");
    r.append(d.as_str());
    r
}

/// An IP address of either family: canonical text and whether it is IPv4.
pub open spec fn ip_parsed(s: Seq<char>) -> Option<(Seq<char>, bool)> {
    match ipv4_value(s) {
        Some(v) => Some((dotted(v), true)),
        None => match ipv6_parsed(s) {
            Some((_, t)) => Some((t, false)),
            None => None,
        },
    }
}

/// Parses an address of either family, as `str::parse::<IpAddr>` does.
pub fn parse_ip(s: &str) -> (r: Option<(String, bool)>)
    ensures
        match r {
            Some((t, v4)) => ip_parsed(s@) == Some((t@, v4)),
            None => ip_parsed(s@) is None,
        },
{
    match parse_ipv4(s) {
        Some(v) => Some((fmt_ipv4(v), true)),
        None => match parse_ipv6(s) {
            Some((_, t)) => Some((t, false)),
            None => None,
        },
    }
}

} // verus!
