//! Network interfaces added to a VM: the model and type checks, the MAC address, and the
//! `<interface>` device handed to libvirt.
use crate::error::AppError;
use crate::text::{dec, fmt_u64, str_eq};
use crate::vm::{fmt_hex, hex_char, hex_fixed, one_of, VmService};
use crate::xml::{escape, escaped_attribute, text_char_ok, text_ok};
use vstd::prelude::*;

verus! {

/// `VIR_DOMAIN_AFFECT_LIVE`: the change reaches the running VM.
pub const AFFECT_LIVE: u32 = 1;

/// `VIR_DOMAIN_AFFECT_CONFIG`: the change reaches the persistent definition.
pub const AFFECT_CONFIG: u32 = 2;

/// Where a device change applies: the running VM as well when it runs, the persistent
/// definition always.
pub fn affect_flags(is_running: bool) -> (r: u32)
    ensures
        r == if is_running {
            AFFECT_LIVE | AFFECT_CONFIG
        } else {
            AFFECT_CONFIG
        },
{
    if is_running {
        AFFECT_LIVE | AFFECT_CONFIG
    } else {
        AFFECT_CONFIG
    }
}

pub open spec fn nic_model_ok(m: Seq<char>) -> bool {
    m == "virtio"@ || m == "e1000"@ || m == "e1000e"@ || m == "rtl8139"@ || m == "vmxnet3"@
}

pub open spec fn direct_mode_ok(m: Seq<char>) -> bool {
    m == "vepa"@ || m == "bridge"@ || m == "private"@ || m == "passthrough"@
}

/// A MAC address in QEMU's range whose last three bytes are the low 24 bits of `t`.
pub open spec fn mac_from(t: nat) -> Seq<char> {
    "52:54:00:"@ + hex_fixed((t / 65536) % 256, 2) + ":"@ + hex_fixed((t / 256) % 256, 2) + ":"@ + hex_fixed(
        t % 256,
        2,
    )
}

/// The simple `<interface>` on a virtual network; the values go in as given.
pub open spec fn network_interface_xml(mac: Seq<char>, network: Seq<char>, model: Seq<char>) -> Seq<char> {
    "<interface type='network'>\n  <mac address='"@ + mac + "'/>\n  <source network='"@ + network
        + "'/>\n  <model type='"@ + model + "'/>\n</interface>"@
}

pub open spec fn mtu_part(mtu: Option<u32>) -> Seq<char> {
    match mtu {
        Some(s) => "\n  <mtu size='"@ + dec(s as nat) + "'/>"@,
        None => Seq::empty(),
    }
}

pub open spec fn vlan_part(vlan: Option<u16>) -> Seq<char> {
    match vlan {
        Some(v) => "\n  <vlan>\n    <tag id='"@ + dec(v as nat) + "'/>\n  </vlan>"@,
        None => Seq::empty(),
    }
}

/// The device for an interface of type `network`, `bridge`, `direct` (macvtap, in
/// `bridge` mode unless another is given) or `ovs` (an Open vSwitch bridge), with the
/// values escaped; `None` for a type, model or direct mode that is not known, or a value
/// that cannot stand in a document.
pub open spec fn interface_xml(
    kind: Seq<char>,
    source: Seq<char>,
    model: Seq<char>,
    mac: Seq<char>,
    mode: Option<Seq<char>>,
    vlan: Option<u16>,
    portgroup: Option<Seq<char>>,
    mtu: Option<u32>,
) -> Option<Seq<char>> {
    if !nic_model_ok(model) || !text_ok(mac) || !text_ok(source) || !text_ok(model) {
        None
    } else {
        let m = escape(mac);
        let s = escape(source);
        let md = escape(model);
        if kind == "network"@ {
            let pg = match portgroup {
                Some(p) => if text_ok(p) {
                    Some(" portgroup='"@ + escape(p) + "'"@)
                } else {
                    None
                },
                None => Some(Seq::empty()),
            };
            match pg {
                Some(pg) => Some(
                    "<interface type='network'>\n  <mac address='"@ + m + "'/>\n  <source network='"@ + s + "'"@
                        + pg + "/>\n  <model type='"@ + md + "'/>"@ + mtu_part(mtu) + "\n</interface>"@,
                ),
                None => None,
            }
        } else if kind == "bridge"@ {
            Some(
                "<interface type='bridge'>\n  <mac address='"@ + m + "'/>\n  <source bridge='"@ + s
                    + "'/>\n  <model type='"@ + md + "'/>"@ + mtu_part(mtu) + "\n</interface>"@,
            )
        } else if kind == "direct"@ {
            let dm = match mode {
                Some(x) => x,
                None => "bridge"@,
            };
            if direct_mode_ok(dm) && text_ok(dm) {
                Some(
                    "<interface type='direct'>\n  <mac address='"@ + m + "'/>\n  <source dev='"@ + s + "' mode='"@
                        + escape(dm) + "'/>\n  <model type='"@ + md + "'/>"@ + mtu_part(mtu) + "\n</interface>"@,
                )
            } else {
                None
            }
        } else if kind == "ovs"@ {
            Some(
                "<interface type='bridge'>\n  <mac address='"@ + m + "'/>\n  <source bridge='"@ + s
                    + "'/>\n  <virtualport type='openvswitch'/>\n  <model type='"@ + md + "'/>"@ + vlan_part(vlan)
                    + mtu_part(mtu) + "\n</interface>"@,
            )
        } else {
            None
        }
    }
}

/// A hexadecimal digit is a printable character.
proof fn lemma_hex_char_printable(d: nat)
    requires
        d < 16,
    ensures
        text_char_ok(hex_char(d)),
{
}

/// A MAC address made from the clock can stand in a document.
proof fn lemma_mac_from_text(t: nat)
    ensures
        text_ok(mac_from(t)),
{
    reveal_with_fuel(hex_fixed, 3);
    reveal_strlit("52:54:00:");
    reveal_strlit(":");
    lemma_hex_char_printable(((t / 65536) % 256) / 16 % 16);
    lemma_hex_char_printable(((t / 65536) % 256) % 16);
    lemma_hex_char_printable(((t / 256) % 256) / 16 % 16);
    lemma_hex_char_printable(((t / 256) % 256) % 16);
    lemma_hex_char_printable((t % 256) / 16 % 16);
    lemma_hex_char_printable((t % 256) % 16);
    let m = mac_from(t);
    assert(m.len() == 17);
    assert forall|i: int| 0 <= i < m.len() implies text_char_ok(#[trigger] m[i]) by {}
}

/// Whether an interface can be built does not depend on which valid MAC address it gets.
proof fn lemma_interface_mac_irrelevant(
    kind: Seq<char>,
    source: Seq<char>,
    model: Seq<char>,
    a: Seq<char>,
    b: Seq<char>,
    mode: Option<Seq<char>>,
    vlan: Option<u16>,
    portgroup: Option<Seq<char>>,
    mtu: Option<u32>,
)
    requires
        text_ok(a),
        text_ok(b),
    ensures
        interface_xml(kind, source, model, a, mode, vlan, portgroup, mtu) is None <==> interface_xml(
            kind,
            source,
            model,
            b,
            mode,
            vlan,
            portgroup,
            mtu,
        ) is None,
{
}

/// Nanoseconds since the Unix epoch, from `std::time::SystemTime::now`. Which instant
/// comes back is left open; a clock set before the epoch gives 0.
#[verifier::external_body]
fn clock_nanos() -> (r: u128) {
    std::time::SystemTime::now().duration_since(std::time::UNIX_EPOCH).map(|d| d.as_nanos()).unwrap_or(0)
}

fn model_error(model: &str) -> (e: AppError)
    ensures
        e is InvalidConfig,
{
    let mut m = String::from_str("Invalid model '");
    m.append(model);
    m.append("'. Must be one of: [\"virtio\", \"e1000\", \"e1000e\", \"rtl8139\", \"vmxnet3\"]");
    AppError::InvalidConfig(m)
}

fn check_model(model: &str) -> (r: Result<(), AppError>)
    ensures
        r is Ok <==> nic_model_ok(model@),
        r matches Err(e) ==> e is InvalidConfig,
{
    let models = ["virtio", "e1000", "e1000e", "rtl8139", "vmxnet3"];
    if one_of(model, models.as_slice()) {
        proof {
            let i = choose|i: int| 0 <= i < models@.len() && models@[i]@ == model@;
            assert(models@.len() == 5);
        }
        Ok(())
    } else {
        proof {
            assert(models@[0]@ == "virtio"@ && models@[1]@ == "e1000"@ && models@[2]@ == "e1000e"@);
            assert(models@[3]@ == "rtl8139"@ && models@[4]@ == "vmxnet3"@);
        }
        Err(model_error(model))
    }
}

fn push_mtu(x: &mut String, mtu: Option<u32>)
    ensures
        final(x)@ == old(x)@ + mtu_part(mtu),
{
    match mtu {
        Some(size) => {
            x.append("\n  <mtu size='");
            let d = fmt_u64(size as u64);
            x.append(d.as_str());
            x.append("'/>");
        },
        None => {
            proof {
                assert(old(x)@ + mtu_part(mtu) =~= old(x)@);
            }
        },
    }
}

impl VmService {
    /// A MAC address in QEMU's range made from the low 24 bits of `t`.
    pub fn mac_from_nanos(t: u128) -> (r: String)
        ensures
            r@ == mac_from(t as nat),
    {
        let a = ((t / 65536) % 256) as u64;
        let b = ((t / 256) % 256) as u64;
        let c = (t % 256) as u64;
        let mut r = String::from_str("52:54:00:");
        r.append(fmt_hex(a, 2).as_str());
        r.append(":");
        r.append(fmt_hex(b, 2).as_str());
        r.append(":");
        r.append(fmt_hex(c, 2).as_str());
        r
    }

    /// The given MAC address, or one made from the clock.
    pub fn interface_mac(mac_address: Option<&str>) -> (r: String)
        ensures
            match mac_address {
                Some(m) => r@ == m@,
                None => exists|t: nat| r@ == mac_from(t),
            },
    {
        match mac_address {
            Some(m) => String::from_str(m),
            None => {
                let t = clock_nanos();
                Self::mac_from_nanos(t)
            },
        }
    }

    /// The `<interface>` device for the simple attachment to a virtual network.
    pub fn interface_definition(network: &str, model: &str, mac: &str) -> (r: Result<String, AppError>)
        ensures
            match r {
                Ok(x) => nic_model_ok(model@) && x@ == network_interface_xml(mac@, network@, model@),
                Err(e) => !nic_model_ok(model@) && e is InvalidConfig,
            },
    {
        check_model(model)?;
        let mut x = String::from_str("<interface type='network'>\n  <mac address='");
        x.append(mac);
        x.append("'/>\n  <source network='");
        x.append(network);
        x.append("'/>\n  <model type='");
        x.append(model);
        x.append("'/>\n</interface>");
        Ok(x)
    }

    /// Attaches an interface to a virtual network: the MAC address (given or made from
    /// the clock) and the device to hand to libvirt.
    pub fn attach_interface(network: &str, model: &str, mac_address: Option<&str>) -> (r: Result<
        (String, String),
        AppError,
    >)
        ensures
            match r {
                Ok((mac, x)) => nic_model_ok(model@) && x@ == network_interface_xml(mac@, network@, model@)
                    && match mac_address {
                    Some(m) => mac@ == m@,
                    None => exists|t: nat| mac@ == mac_from(t),
                },
                Err(e) => !nic_model_ok(model@) && e is InvalidConfig,
            },
    {
        check_model(model)?;
        let mac = Self::interface_mac(mac_address);
        let x = Self::interface_definition(network, model, mac.as_str())?;
        Ok((mac, x))
    }

    /// The `<interface>` device for an attachment of type `network`, `bridge`, `direct`
    /// or `ovs`.
    pub fn advanced_interface_definition(
        interface_type: &str,
        source: &str,
        model: &str,
        mac: &str,
        source_mode: Option<&str>,
        vlan_id: Option<u16>,
        portgroup: Option<&str>,
        mtu: Option<u32>,
    ) -> (r: Result<String, AppError>)
        ensures
            match r {
                Ok(x) => interface_xml(
                    interface_type@,
                    source@,
                    model@,
                    mac@,
                    match source_mode {
                        Some(m) => Some(m@),
                        None => None,
                    },
                    vlan_id,
                    match portgroup {
                        Some(p) => Some(p@),
                        None => None,
                    },
                    mtu,
                ) == Some(x@),
                Err(e) => interface_xml(
                    interface_type@,
                    source@,
                    model@,
                    mac@,
                    match source_mode {
                        Some(m) => Some(m@),
                        None => None,
                    },
                    vlan_id,
                    match portgroup {
                        Some(p) => Some(p@),
                        None => None,
                    },
                    mtu,
                ) is None && e is InvalidConfig,
            },
    {
        check_model(model)?;
        let safe_mac = escaped_attribute(mac, "MAC address")?;
        let safe_source = escaped_attribute(source, "Interface source")?;
        let safe_model = escaped_attribute(model, "Interface model")?;
        if str_eq(interface_type, "network") {
            let pg = match portgroup {
                Some(p) => {
                    let e = escaped_attribute(p, "Network port group")?;
                    let mut a = String::from_str(" portgroup='");
                    a.append(e.as_str());
                    a.append("'");
                    a
                },
                None => String::new(),
            };
            let mut x = String::from_str("<interface type='network'>\n  <mac address='");
            x.append(safe_mac.as_str());
            x.append("'/>\n  <source network='");
            x.append(safe_source.as_str());
            x.append("'");
            x.append(pg.as_str());
            x.append("/>\n  <model type='");
            x.append(safe_model.as_str());
            x.append("'/>");
            push_mtu(&mut x, mtu);
            x.append("\n</interface>");
            Ok(x)
        } else if str_eq(interface_type, "bridge") {
            let mut x = String::from_str("<interface type='bridge'>\n  <mac address='");
            x.append(safe_mac.as_str());
            x.append("'/>\n  <source bridge='");
            x.append(safe_source.as_str());
            x.append("'/>\n  <model type='");
            x.append(safe_model.as_str());
            x.append("'/>");
            push_mtu(&mut x, mtu);
            x.append("\n</interface>");
            Ok(x)
        } else if str_eq(interface_type, "direct") {
            let mode = match source_mode {
                Some(m) => m,
                None => "bridge",
            };
            let modes = ["vepa", "bridge", "private", "passthrough"];
            if !one_of(mode, modes.as_slice()) {
                proof {
                    assert(modes@[0]@ == "vepa"@ && modes@[1]@ == "bridge"@);
                    assert(modes@[2]@ == "private"@ && modes@[3]@ == "passthrough"@);
                }
                let mut m = String::from_str("Invalid direct mode '");
                m.append(mode);
                m.append("'. Must be one of: [\"vepa\", \"bridge\", \"private\", \"passthrough\"]");
                return Err(AppError::InvalidConfig(m));
            }
            proof {
                assert(modes@.len() == 4);
            }
            let safe_mode = escaped_attribute(mode, "Direct interface mode")?;
            let mut x = String::from_str("<interface type='direct'>\n  <mac address='");
            x.append(safe_mac.as_str());
            x.append("'/>\n  <source dev='");
            x.append(safe_source.as_str());
            x.append("' mode='");
            x.append(safe_mode.as_str());
            x.append("'/>\n  <model type='");
            x.append(safe_model.as_str());
            x.append("'/>");
            push_mtu(&mut x, mtu);
            x.append("\n</interface>");
            Ok(x)
        } else if str_eq(interface_type, "ovs") {
            let mut x = String::from_str("<interface type='bridge'>\n  <mac address='");
            x.append(safe_mac.as_str());
            x.append("'/>\n  <source bridge='");
            x.append(safe_source.as_str());
            x.append("'/>\n  <virtualport type='openvswitch'/>\n  <model type='");
            x.append(safe_model.as_str());
            x.append("'/>");
            match vlan_id {
                Some(v) => {
                    x.append("\n  <vlan>\n    <tag id='");
                    let d = fmt_u64(v as u64);
                    x.append(d.as_str());
                    x.append("'/>\n  </vlan>");
                },
                None => {},
            }
            push_mtu(&mut x, mtu);
            x.append("\n</interface>");
            Ok(x)
        } else {
            let mut m = String::from_str("Invalid interface type '");
            m.append(interface_type);
            m.append("'. Must be one of: network, bridge, direct, ovs");
            Err(AppError::InvalidConfig(m))
        }
    }

    /// Attaches an interface of type `network`, `bridge`, `direct` or `ovs`: the MAC
    /// address (given or made from the clock) and the device to hand to libvirt.
    pub fn attach_interface_advanced(
        interface_type: &str,
        source: &str,
        model: &str,
        mac_address: Option<&str>,
        source_mode: Option<&str>,
        vlan_id: Option<u16>,
        portgroup: Option<&str>,
        mtu: Option<u32>,
    ) -> (r: Result<(String, String), AppError>)
        ensures
            match r {
                Ok((mac, x)) => interface_xml(
                    interface_type@,
                    source@,
                    model@,
                    mac@,
                    match source_mode {
                        Some(m) => Some(m@),
                        None => None,
                    },
                    vlan_id,
                    match portgroup {
                        Some(p) => Some(p@),
                        None => None,
                    },
                    mtu,
                ) == Some(x@) && match mac_address {
                    Some(m) => mac@ == m@,
                    None => exists|t: nat| mac@ == mac_from(t),
                },
                Err(e) => e is InvalidConfig && (!nic_model_ok(model@) || match mac_address {
                    Some(m) => interface_xml(
                        interface_type@,
                        source@,
                        model@,
                        m@,
                        match source_mode {
                            Some(x) => Some(x@),
                            None => None,
                        },
                        vlan_id,
                        match portgroup {
                            Some(p) => Some(p@),
                            None => None,
                        },
                        mtu,
                    ) is None,
                    None => forall|t: nat|
                        interface_xml(
                            interface_type@,
                            source@,
                            model@,
                            #[trigger] mac_from(t),
                            match source_mode {
                                Some(x) => Some(x@),
                                None => None,
                            },
                            vlan_id,
                            match portgroup {
                                Some(p) => Some(p@),
                                None => None,
                            },
                            mtu,
                        ) is None,
                }),
            },
    {
        check_model(model)?;
        let mac = Self::interface_mac(mac_address);
        let ghost mode = match source_mode {
            Some(x) => Some(x@),
            None => None,
        };
        let ghost pg = match portgroup {
            Some(p) => Some(p@),
            None => None,
        };
        proof {
            if mac_address is None {
                let t0 = choose|t: nat| mac@ == mac_from(t);
                lemma_mac_from_text(t0);
                assert forall|t: nat|
                    interface_xml(interface_type@, source@, model@, #[trigger] mac_from(t), mode, vlan_id, pg, mtu) is None
                        <==> interface_xml(interface_type@, source@, model@, mac@, mode, vlan_id, pg, mtu) is None by {
                    lemma_mac_from_text(t);
                    lemma_interface_mac_irrelevant(
                        interface_type@,
                        source@,
                        model@,
                        mac_from(t),
                        mac@,
                        mode,
                        vlan_id,
                        pg,
                        mtu,
                    );
                }
            }
        }
        let x = Self::advanced_interface_definition(
            interface_type,
            source,
            model,
            mac.as_str(),
            source_mode,
            vlan_id,
            portgroup,
            mtu,
        )?;
        Ok((mac, x))
    }
}

} // verus!
