//! Maps `os-release` metadata onto the explicitly supported Linux profile matrix.
use crate::text::{
    lines, strip_cr,
    chars_of, contains, contains_str, copy_range, find, find_at, find_from_at,
    lemma_find_from_suffix, lower, lower_string, opt_int, starts_with, starts_with_str, str_eq,
    string_of_all, strip_all, strip_all_chars, trim, trim_bounds, upper, upper_chars,
};
use crate::listing::text_less;
use vstd::prelude::*;

verus! {

/// Distribution families with a verified package and service profile.
#[derive(Clone, Copy, Debug, PartialEq, Eq, Structural)]
pub enum DistributionFamily {
    ArchCachyos,
    DebianUbuntu,
    FedoraRhel,
    Opensuse,
    BestEffort,
}

/// Setup guidance for the detected host distribution.
#[derive(Debug)]
pub struct DistributionProfile {
    pub family: DistributionFamily,
    pub display_name: String,
    pub package_manager: String,
    pub supported: bool,
    pub packages: Vec<String>,
    pub service: String,
    pub permission_guidance: String,
    pub firmware_guidance: String,
    pub limitations: Vec<String>,
}

/// The content of a profile, as character sequences.
pub struct ProfileView {
    pub family: DistributionFamily,
    pub display_name: Seq<char>,
    pub package_manager: Seq<char>,
    pub supported: bool,
    pub packages: Seq<Seq<char>>,
    pub service: Seq<char>,
    pub permission_guidance: Seq<char>,
    pub firmware_guidance: Seq<char>,
    pub limitations: Seq<Seq<char>>,
}

pub open spec fn strings_view(v: Seq<String>) -> Seq<Seq<char>> {
    v.map_values(|s: String| s@)
}

impl View for DistributionProfile {
    type V = ProfileView;

    open spec fn view(&self) -> ProfileView {
        ProfileView {
            family: self.family,
            display_name: self.display_name@,
            package_manager: self.package_manager@,
            supported: self.supported,
            packages: strings_view(self.packages@),
            service: self.service@,
            permission_guidance: self.permission_guidance@,
            firmware_guidance: self.firmware_guidance@,
            limitations: strings_view(self.limitations@),
        }
    }
}

// ---------------------------------------------------------------------------
// The profile matrix
// ---------------------------------------------------------------------------

pub open spec fn supported_profile(
    family: DistributionFamily,
    display_name: Seq<char>,
    package_manager: Seq<char>,
    packages: Seq<Seq<char>>,
    service: Seq<char>,
    permission_guidance: Seq<char>,
) -> ProfileView {
    ProfileView {
        family,
        display_name,
        package_manager,
        supported: true,
        packages,
        service,
        permission_guidance,
        firmware_guidance: "Firmware is discovered from libvirt capabilities and verified existing files."@,
        limitations: Seq::empty(),
    }
}

pub open spec fn best_effort_profile(display_name: Seq<char>) -> ProfileView {
    ProfileView {
        family: DistributionFamily::BestEffort,
        display_name,
        package_manager: "unknown"@,
        supported: false,
        packages: Seq::empty(),
        service: "Check your distribution's libvirt documentation."@,
        permission_guidance: "Do not run the desktop application as root."@,
        firmware_guidance: "Use libvirt capability detection; no package or path is assumed."@,
        limitations: seq!["This distribution is not in the verified support matrix."@],
    }
}

/// The profile of a family for a host displayed as `display_name`.
pub open spec fn profile_for(family: DistributionFamily, display_name: Seq<char>) -> ProfileView {
    match family {
        DistributionFamily::ArchCachyos => supported_profile(
            family,
            display_name,
            "pacman"@,
            seq!["libvirt"@, "qemu-full"@, "edk2-ovmf"@, "swtpm"@],
            "Enable libvirtd.socket."@,
            "Start a new login session after adding the user to the libvirt group."@,
        ),
        DistributionFamily::DebianUbuntu => supported_profile(
            family,
            display_name,
            "apt"@,
            seq!["libvirt-daemon-system"@, "qemu-system-x86"@, "ovmf"@, "swtpm-tools"@],
            "Enable and start libvirtd or the distribution's libvirt socket."@,
            "Start a new login session after adding the user to the libvirt group."@,
        ),
        DistributionFamily::FedoraRhel => supported_profile(
            family,
            display_name,
            "dnf"@,
            seq!["libvirt-daemon-kvm"@, "qemu-kvm"@, "edk2-ovmf"@, "swtpm"@],
            "Enable and start libvirtd or the distribution's libvirt socket."@,
            "Use the distribution's libvirt access policy; do not run the desktop application as root."@,
        ),
        DistributionFamily::Opensuse => supported_profile(
            family,
            display_name,
            "zypper"@,
            seq!["libvirt"@, "qemu-kvm"@, "qemu-ovmf-x86_64"@, "swtpm"@],
            "Enable and start libvirtd or the distribution's libvirt socket."@,
            "Use the distribution's libvirt access policy; do not run the desktop application as root."@,
        ),
        DistributionFamily::BestEffort => best_effort_profile(display_name),
    }
}

/// The profile reported for a connection whose guest host is not the desktop host.
pub open spec fn scoped_unknown_profile(label: Seq<char>) -> ProfileView {
    ProfileView {
        service: "Inspect this connection with its administrator; local setup commands are not applicable."@,
        permission_guidance: "No local permission change is recommended for this connection scope."@,
        firmware_guidance: "Firmware support is reported by the selected libvirt connection."@,
        limitations: seq![
            "The remote, session, or test guest host distribution is not inferred from the desktop host."@,
        ],
        ..best_effort_profile(label)
    }
}

// ---------------------------------------------------------------------------
// os-release parsing
// ---------------------------------------------------------------------------

/// The key/value pair of one `os-release` line, if it has one.
pub open spec fn os_release_entry(line: Seq<char>) -> Option<(Seq<char>, Seq<char>)> {
    let t = trim(line);
    if t.len() == 0 || t[0] == '#' {
        None
    } else {
        match find(t, "="@) {
            Some(i) => Some(
                (
                    upper(trim(t.subrange(0, i))),
                    strip_all(strip_all(trim(t.subrange(i + 1, t.len() as int)), '"'), '\''),
                ),
            ),
            None => None,
        }
    }
}

/// The entries of all lines, in order.
pub open spec fn os_release_entries(ls: Seq<Seq<char>>) -> Seq<(Seq<char>, Seq<char>)>
    decreases ls.len(),
{
    if ls.len() == 0 {
        Seq::empty()
    } else {
        let rest = os_release_entries(ls.drop_last());
        match os_release_entry(ls.last()) {
            Some(e) => rest.push(e),
            None => rest,
        }
    }
}

/// The value of the last entry with key `key`: later lines override earlier ones.
pub open spec fn lookup(entries: Seq<(Seq<char>, Seq<char>)>, key: Seq<char>) -> Option<Seq<char>>
    decreases entries.len(),
{
    if entries.len() == 0 {
        None
    } else if entries.last().0 == key {
        Some(entries.last().1)
    } else {
        lookup(entries.drop_last(), key)
    }
}

pub open spec fn os_release(contents: Seq<char>) -> Seq<(Seq<char>, Seq<char>)> {
    os_release_entries(lines(contents))
}

/// `x` stored into entries kept in ascending key order: it replaces the entry with its
/// key, else it goes before the first entry whose key sorts after its own.
pub open spec fn release_insert(u: Seq<(Seq<char>, Seq<char>)>, x: (Seq<char>, Seq<char>)) -> Seq<
    (Seq<char>, Seq<char>),
>
    decreases u.len(),
{
    if u.len() == 0 {
        seq![x]
    } else if u[0].0 == x.0 {
        seq![x] + u.drop_first()
    } else if text_less(x.0, u[0].0) {
        seq![x] + u
    } else {
        seq![u[0]] + release_insert(u.drop_first(), x)
    }
}

/// The entries collected into a map ordered by key: one entry per key, holding the value
/// of its last entry, in ascending key order.
pub open spec fn release_map(es: Seq<(Seq<char>, Seq<char>)>) -> Seq<(Seq<char>, Seq<char>)>
    decreases es.len(),
{
    if es.len() == 0 {
        Seq::empty()
    } else {
        release_insert(release_map(es.drop_last()), es.last())
    }
}

/// Storing at the first entry whose key is `x`'s or sorts after it.
proof fn lemma_release_insert_at(u: Seq<(Seq<char>, Seq<char>)>, x: (Seq<char>, Seq<char>), p: int)
    requires
        0 <= p <= u.len(),
        forall|i: int| 0 <= i < p ==> (#[trigger] u[i]).0 != x.0 && !text_less(x.0, u[i].0),
        p < u.len() ==> (u[p].0 == x.0 || text_less(x.0, u[p].0)),
    ensures
        release_insert(u, x) == if p < u.len() && u[p].0 == x.0 {
            u.update(p, x)
        } else {
            u.insert(p, x)
        },
    decreases u.len(),
{
    if u.len() == 0 {
        assert(u.insert(p, x) =~= seq![x]);
    } else if p == 0 {
        if u[0].0 == x.0 {
            assert(u.update(0, x) =~= seq![x] + u.drop_first());
        } else {
            assert(u.insert(0, x) =~= seq![x] + u);
        }
    } else {
        let t = u.drop_first();
        assert(u[0].0 != x.0 && !text_less(x.0, u[0].0));
        assert forall|i: int| 0 <= i < p - 1 implies (#[trigger] t[i]).0 != x.0 && !text_less(x.0, t[i].0) by {
            assert(t[i] == u[i + 1]);
        }
        lemma_release_insert_at(t, x, p - 1);
        if p < u.len() && u[p].0 == x.0 {
            assert(seq![u[0]] + t.update(p - 1, x) =~= u.update(p, x));
        } else {
            assert(seq![u[0]] + t.insert(p - 1, x) =~= u.insert(p, x));
        }
    }
}

/// Keys strictly ascending: each key once, in order.
pub open spec fn keys_ascending(m: Seq<(Seq<char>, Seq<char>)>) -> bool {
    forall|i: int, j: int| 0 <= i < j < m.len() ==> text_less(#[trigger] m[i].0, #[trigger] m[j].0)
}

/// Where `release_insert` stores `x`.
proof fn release_insert_pos(u: Seq<(Seq<char>, Seq<char>)>, x: (Seq<char>, Seq<char>)) -> (p: int)
    ensures
        0 <= p <= u.len(),
        forall|i: int| 0 <= i < p ==> (#[trigger] u[i]).0 != x.0 && !text_less(x.0, u[i].0),
        p < u.len() ==> (u[p].0 == x.0 || text_less(x.0, u[p].0)),
    decreases u.len(),
{
    if u.len() == 0 || u[0].0 == x.0 || text_less(x.0, u[0].0) {
        0
    } else {
        let q = release_insert_pos(u.drop_first(), x);
        assert forall|i: int| 0 <= i < q + 1 implies (#[trigger] u[i]).0 != x.0 && !text_less(x.0, u[i].0) by {
            if i > 0 {
                assert(u[i] == u.drop_first()[i - 1]);
            }
        }
        q + 1
    }
}

proof fn lemma_lookup_at(m: Seq<(Seq<char>, Seq<char>)>, k: Seq<char>, i: int)
    requires
        keys_ascending(m),
        0 <= i < m.len(),
        m[i].0 == k,
    ensures
        lookup(m, k) == Some(m[i].1),
    decreases m.len(),
{
    if i < m.len() - 1 {
        let j = m.len() - 1;
        assert(text_less(m[i].0, m[j].0));
        if m[j].0 == k {
            crate::listing::lemma_text_less_irreflexive(k);
        }
        let d = m.drop_last();
        assert(keys_ascending(d)) by {
            assert forall|a: int, b: int| 0 <= a < b < d.len() implies text_less(#[trigger] d[a].0, #[trigger] d[b].0) by {
                assert(d[a] == m[a] && d[b] == m[b]);
            }
        }
        assert(d[i] == m[i]);
        lemma_lookup_at(d, k, i);
    }
}

proof fn lemma_lookup_none(m: Seq<(Seq<char>, Seq<char>)>, k: Seq<char>)
    requires
        forall|i: int| 0 <= i < m.len() ==> (#[trigger] m[i]).0 != k,
    ensures
        lookup(m, k) is None,
    decreases m.len(),
{
    if m.len() > 0 {
        let d = m.drop_last();
        assert forall|i: int| 0 <= i < d.len() implies (#[trigger] d[i]).0 != k by {
            assert(d[i] == m[i]);
        }
        lemma_lookup_none(d, k);
    }
}

/// Storing an entry keeps the keys ascending, and afterwards its key gives its value while
/// every other key gives what it gave before.
proof fn lemma_release_insert_props(u: Seq<(Seq<char>, Seq<char>)>, x: (Seq<char>, Seq<char>))
    requires
        keys_ascending(u),
    ensures
        keys_ascending(release_insert(u, x)),
        forall|k: Seq<char>| #[trigger] lookup(release_insert(u, x), k) == (if k == x.0 {
            Some(x.1)
        } else {
            lookup(u, k)
        }),
{
    let p = release_insert_pos(u, x);
    lemma_release_insert_at(u, x, p);
    let r = release_insert(u, x);
    if p < u.len() && u[p].0 == x.0 {
        assert forall|a: int, b: int| 0 <= a < b < r.len() implies text_less(#[trigger] r[a].0, #[trigger] r[b].0) by {
            assert(r[a].0 == u[a].0 && r[b].0 == u[b].0);
        }
    } else {
        assert forall|a: int, b: int| 0 <= a < b < r.len() implies text_less(#[trigger] r[a].0, #[trigger] r[b].0) by {
            if b < p {
                assert(r[a] == u[a] && r[b] == u[b]);
            } else if b == p {
                assert(r[a] == u[a] && r[b] == x);
                crate::listing::lemma_text_less_total(u[a].0, x.0);
            } else if a == p {
                assert(r[a] == x && r[b] == u[b - 1]);
                if b - 1 > p {
                    assert(text_less(u[p].0, u[b - 1].0));
                    crate::listing::lemma_text_less_transitive(x.0, u[p].0, u[b - 1].0);
                }
            } else if a < p {
                assert(r[a] == u[a] && r[b] == u[b - 1]);
            } else {
                assert(r[a] == u[a - 1] && r[b] == u[b - 1]);
            }
        }
    }
    assert forall|k: Seq<char>| #[trigger] lookup(r, k) == (if k == x.0 {
        Some(x.1)
    } else {
        lookup(u, k)
    }) by {
        if k == x.0 {
            assert(r[p] == x);
            lemma_lookup_at(r, k, p);
        } else {
            if exists|i: int| 0 <= i < u.len() && u[i].0 == k {
                let i = choose|i: int| 0 <= i < u.len() && u[i].0 == k;
                lemma_lookup_at(u, k, i);
                let j = if p < u.len() && u[p].0 == x.0 {
                    i
                } else if i < p {
                    i
                } else {
                    i + 1
                };
                assert(r[j] == u[i]);
                lemma_lookup_at(r, k, j);
            } else {
                lemma_lookup_none(u, k);
                assert forall|i: int| 0 <= i < r.len() implies (#[trigger] r[i]).0 != k by {
                    if p < u.len() && u[p].0 == x.0 {
                        if i != p {
                            assert(r[i] == u[i]);
                        }
                    } else if i < p {
                        assert(r[i] == u[i]);
                    } else if i > p {
                        assert(r[i] == u[i - 1]);
                    }
                }
                lemma_lookup_none(r, k);
            }
        }
    }
}

/// The map of `os-release` entries holds each key once, in ascending order, and looking a
/// key up in it gives what looking it up among the entries gives: the value of the key's
/// last entry.
pub proof fn law_os_release_map(es: Seq<(Seq<char>, Seq<char>)>)
    ensures
        keys_ascending(release_map(es)),
        forall|k: Seq<char>| #[trigger] lookup(release_map(es), k) == lookup(es, k),
    decreases es.len(),
{
    if es.len() > 0 {
        law_os_release_map(es.drop_last());
        lemma_release_insert_props(release_map(es.drop_last()), es.last());
    }
}

pub open spec fn pairs_view(v: Seq<(String, String)>) -> Seq<(Seq<char>, Seq<char>)> {
    v.map_values(|p: (String, String)| (p.0@, p.1@))
}

pub open spec fn value_or_empty(o: Option<Seq<char>>) -> Seq<char> {
    match o {
        Some(v) => v,
        None => Seq::empty(),
    }
}

/// The family that `os-release` identifiers select.
pub open spec fn family_for(id: Seq<char>, id_like: Seq<char>) -> DistributionFamily {
    if id == "arch"@ || id == "cachyos"@ || id == "endeavouros"@ || contains(id_like, "arch"@) {
        DistributionFamily::ArchCachyos
    } else if id == "debian"@ || id == "ubuntu"@ || id == "linuxmint"@ || id == "pop"@ || contains(
        id_like,
        "debian"@,
    ) {
        DistributionFamily::DebianUbuntu
    } else if id == "fedora"@ || id == "rhel"@ || id == "centos"@ || id == "rocky"@ || id
        == "almalinux"@ || contains(id_like, "fedora"@) || contains(id_like, "rhel"@) {
        DistributionFamily::FedoraRhel
    } else if starts_with(id, "opensuse"@) || id == "sles"@ || contains(id_like, "suse"@) {
        DistributionFamily::Opensuse
    } else {
        DistributionFamily::BestEffort
    }
}

/// The profile that `os-release` contents describe.
pub open spec fn classify(contents: Seq<char>) -> ProfileView {
    let entries = os_release(contents);
    let id = lower(value_or_empty(lookup(entries, "ID"@)));
    let id_like = lower(value_or_empty(lookup(entries, "ID_LIKE"@)));
    let display_name = match lookup(entries, "PRETTY_NAME"@) {
        Some(v) => v,
        None => match lookup(entries, "NAME"@) {
            Some(v) => v,
            None => "Unknown Linux"@,
        },
    };
    profile_for(family_for(id, id_like), display_name)
}

pub struct DistributionProfileService;

pub open spec fn strs_view(v: Seq<&str>) -> Seq<Seq<char>> {
    v.map_values(|s: &str| s@)
}

fn strings(items: &[&str]) -> (r: Vec<String>)
    ensures
        strings_view(r@) == strs_view(items@),
{
    let mut r: Vec<String> = Vec::new();
    let mut i: usize = 0;
    while i < items.len()
        invariant
            i <= items@.len(),
            strings_view(r@) =~= strs_view(items@.subrange(0, i as int)),
        decreases items@.len() - i,
    {
        let ghost before = r@;
        let item = items[i];
        let s = String::from_str(item);
        r.push(s);
        proof {
            assert(s@ == item@);
            assert(strings_view(r@) =~= strings_view(before).push(s@));
            assert(strs_view(items@.subrange(0, i + 1)) =~= strs_view(items@.subrange(0, i as int)).push(item@));
            assert(items@.subrange(0, i + 1) =~= items@.subrange(0, i as int).push(
                items@[i as int],
            ));
        }
        i = i + 1;
    }
    proof {
        assert(items@.subrange(0, items@.len() as int) =~= items@);
    }
    r
}


/// The key of an entry: the trimmed text before `=`, in upper case.
fn entry_key(t: &[char], i: usize) -> (r: String)
    requires
        i <= t@.len(),
    ensures
        r@ == upper(trim(t@.subrange(0, i as int))),
{
    let (ka, kb) = trim_bounds(t, 0, i);
    let key_chars = copy_range(t, ka, kb);
    string_of_all(upper_chars(key_chars.as_slice()).as_slice())
}

/// The value of an entry: the trimmed text after `=`, without surrounding quotes.
fn entry_value(t: &[char], i: usize) -> (r: String)
    requires
        i < t@.len(),
    ensures
        r@ == strip_all(strip_all(trim(t@.subrange(i + 1, t@.len() as int)), '"'), '\''),
{
    let n = t.len();
    let (va, vb) = trim_bounds(t, i + 1, n);
    let value_chars = copy_range(t, va, vb);
    let v1 = strip_all_chars(value_chars.as_slice(), '"');
    let v2 = strip_all_chars(v1.as_slice(), '\'');
    string_of_all(v2.as_slice())
}

/// The entry of one line, if it has one.
fn line_entry(line: &[char]) -> (r: Option<(String, String)>)
    ensures
        match r {
            Some(p) => os_release_entry(line@) == Some((p.0@, p.1@)),
            None => os_release_entry(line@) is None,
        },
{
    let (ta, tb) = trim_bounds(line, 0, line.len());
    proof {
        assert(line@.subrange(0, line@.len() as int) =~= line@);
    }
    let t = copy_range(line, ta, tb);
    assert(t@ == trim(line@));
    if t.len() == 0 || t[0] == '#' {
        return None;
    }
    let eq = chars_of("=");
    let i = match find_at(t.as_slice(), eq.as_slice()) {
        Some(i) => i,
        None => return None,
    };
    proof {
        reveal_strlit("=");
    }
    let key = entry_key(t.as_slice(), i);
    let value = entry_value(t.as_slice(), i);
    Some((key, value))
}

/// Looks up the value of the last entry with `key`.
fn lookup_exec(entries: &Vec<(String, String)>, key: &str) -> (r: Option<String>)
    ensures
        match r {
            Some(v) => lookup(pairs_view(entries@), key@) == Some(v@),
            None => lookup(pairs_view(entries@), key@) is None,
        },
{
    let mut i = entries.len();
    proof {
        assert(entries@.subrange(0, i as int) =~= entries@);
    }
    while i > 0
        invariant
            i <= entries@.len(),
            lookup(pairs_view(entries@), key@) == lookup(pairs_view(entries@.subrange(0, i as int)), key@),
        decreases i,
    {
        let ghost pre = pairs_view(entries@.subrange(0, i as int));
        proof {
            assert(pre.drop_last() =~= pairs_view(entries@.subrange(0, i - 1)));
            assert(pre.last() == (entries@[i - 1].0@, entries@[i - 1].1@));
        }
        if str_eq(entries[i - 1].0.as_str(), key) {
            return Some(entries[i - 1].1.clone());
        }
        i = i - 1;
    }
    None
}

impl DistributionProfileService {
    /// The key/value entries of `os-release` contents, in file order.
    fn release_entries(contents: &str) -> (r: Vec<(String, String)>)
        ensures
            pairs_view(r@) == os_release(contents@),
    {
        let ls = crate::text::split_lines(contents);
        let mut out: Vec<(String, String)> = Vec::new();
        let mut i: usize = 0;
        while i < ls.len()
            invariant
                i <= ls@.len(),
                crate::text::lines_view(ls@) == lines(contents@),
                pairs_view(out@) == os_release_entries(crate::text::lines_view(ls@).subrange(0, i as int)),
            decreases ls@.len() - i,
        {
            proof {
                assert(crate::text::lines_view(ls@).subrange(0, i + 1).drop_last()
                    =~= crate::text::lines_view(ls@).subrange(0, i as int));
            }
            match line_entry(ls[i].as_slice()) {
                Some(p) => {
                    let ghost before = out@;
                    out.push(p);
                    proof {
                        assert(pairs_view(out@) =~= pairs_view(before).push((p.0@, p.1@)));
                    }
                },
                None => {},
            }
            i = i + 1;
        }
        proof {
            assert(crate::text::lines_view(ls@).subrange(0, ls@.len() as int) =~= crate::text::lines_view(ls@));
        }
        out
    }

    /// The key/value entries of `os-release` contents as a map ordered by key: each key
    /// once, with the value of its last line, in ascending key order.
    pub fn parse_os_release(contents: &str) -> (r: Vec<(String, String)>)
        ensures
            pairs_view(r@) == release_map(os_release(contents@)),
    {
        let entries = Self::release_entries(contents);
        let ghost es = pairs_view(entries@);
        let n = entries.len();
        let mut rest = entries;
        let mut items: Vec<(String, String)> = Vec::new();
        while rest.len() > 0
            invariant
                rest@.len() + items@.len() == n,
                n == es.len(),
                forall|i: int| 0 <= i < rest@.len() ==> (rest@[i].0@, rest@[i].1@) == es[i],
                forall|i: int| 0 <= i < items@.len() ==> (items@[i].0@, items@[i].1@) == es[n - 1 - i],
            decreases rest@.len(),
        {
            let x = rest.pop().unwrap();
            items.push(x);
        }
        let mut out: Vec<(String, String)> = Vec::new();
        let mut k: usize = 0;
        while k < n
            invariant
                k <= n,
                n == es.len(),
                items@.len() == n - k,
                forall|i: int| 0 <= i < items@.len() ==> (items@[i].0@, items@[i].1@) == es[n - 1 - i],
                pairs_view(out@) == release_map(es.take(k as int)),
            decreases n - k,
        {
            let x = items.pop().unwrap();
            let ghost xv = (x.0@, x.1@);
            let ghost u = pairs_view(out@);
            let mut p: usize = 0;
            while p < out.len() && !str_eq(out[p].0.as_str(), x.0.as_str())
                && !crate::listing::text_less_exec(x.0.as_str(), out[p].0.as_str())
                invariant
                    p <= out@.len(),
                    u == pairs_view(out@),
                    xv == (x.0@, x.1@),
                    forall|i: int| 0 <= i < p ==> (#[trigger] u[i]).0 != xv.0 && !text_less(xv.0, u[i].0),
                decreases out@.len() - p,
            {
                assert(u[p as int] == (out@[p as int].0@, out@[p as int].1@));
                p = p + 1;
            }
            proof {
                lemma_release_insert_at(u, xv, p as int);
                assert(es.take(k + 1).drop_last() =~= es.take(k as int));
                assert(es.take(k + 1).last() == xv);
            }
            if p < out.len() && str_eq(out[p].0.as_str(), x.0.as_str()) {
                out.set(p, x);
                proof {
                    assert(pairs_view(out@) =~= u.update(p as int, xv));
                }
            } else {
                out.insert(p, x);
                proof {
                    assert(pairs_view(out@) =~= u.insert(p as int, xv));
                }
            }
            k = k + 1;
        }
        proof {
            assert(es.take(n as int) =~= es);
        }
        out
    }

    /// The profile that `os-release` contents select.
    pub fn classify_os_release(contents: &str) -> (r: DistributionProfile)
        ensures
            r@ == classify(contents@),
    {
        let metadata = Self::release_entries(contents);
        let id = match lookup_exec(&metadata, "ID") {
            Some(v) => lower_string(v.as_str()),
            None => String::new(),
        };
        let id_like = match lookup_exec(&metadata, "ID_LIKE") {
            Some(v) => lower_string(v.as_str()),
            None => String::new(),
        };
        let display_name = match lookup_exec(&metadata, "PRETTY_NAME") {
            Some(v) => v,
            None => match lookup_exec(&metadata, "NAME") {
                Some(v) => v,
                None => String::from_str("Unknown Linux"),
            },
        };
        proof {
            assert(lower(Seq::<char>::empty()) =~= Seq::<char>::empty());
        }
        let idc = chars_of(id.as_str());
        let likec = chars_of(id_like.as_str());
        let id_s = id.as_str();
        if str_eq(id_s, "arch") || str_eq(id_s, "cachyos") || str_eq(id_s, "endeavouros")
            || contains_str(likec.as_slice(), "arch") {
            return Self::arch(display_name);
        }
        if str_eq(id_s, "debian") || str_eq(id_s, "ubuntu") || str_eq(id_s, "linuxmint")
            || str_eq(id_s, "pop") || contains_str(likec.as_slice(), "debian") {
            return Self::debian(display_name);
        }
        if str_eq(id_s, "fedora") || str_eq(id_s, "rhel") || str_eq(id_s, "centos") || str_eq(
            id_s,
            "rocky",
        ) || str_eq(id_s, "almalinux") || contains_str(likec.as_slice(), "fedora")
            || contains_str(likec.as_slice(), "rhel") {
            return Self::fedora(display_name);
        }
        if starts_with_str(idc.as_slice(), "opensuse") || str_eq(id_s, "sles") || contains_str(
            likec.as_slice(),
            "suse",
        ) {
            return Self::opensuse(display_name);
        }
        Self::best_effort(display_name.as_str())
    }
}

impl DistributionProfileService {
    /// The profile of a connection whose guest host cannot be inspected locally.
    pub fn scoped_unknown(label: &str) -> (r: DistributionProfile)
        ensures
            r@ == scoped_unknown_profile(label@),
    {
        let mut profile = Self::best_effort(label);
        profile.service = String::from_str(
            "Inspect this connection with its administrator; local setup commands are not applicable.",
        );
        profile.permission_guidance = String::from_str(
            "No local permission change is recommended for this connection scope.",
        );
        profile.firmware_guidance = String::from_str(
            "Firmware support is reported by the selected libvirt connection.",
        );
        let mut limitations = Vec::new();
        limitations.push(
            String::from_str(
                "The remote, session, or test guest host distribution is not inferred from the desktop host.",
            ),
        );
        profile.limitations = limitations;
        proof {
            assert(strings_view(profile.limitations@) =~= seq![
                "The remote, session, or test guest host distribution is not inferred from the desktop host."@,
            ]);
        }
        profile
    }

    pub(crate) fn best_effort(display_name: &str) -> (r: DistributionProfile)
        ensures
            r@ == best_effort_profile(display_name@),
    {
        let mut limitations = Vec::new();
        limitations.push(
            String::from_str("This distribution is not in the verified support matrix."),
        );
        let r = DistributionProfile {
            family: DistributionFamily::BestEffort,
            display_name: String::from_str(display_name),
            package_manager: String::from_str("unknown"),
            supported: false,
            packages: Vec::new(),
            service: String::from_str("Check your distribution's libvirt documentation."),
            permission_guidance: String::from_str("Do not run the desktop application as root."),
            firmware_guidance: String::from_str(
                "Use libvirt capability detection; no package or path is assumed.",
            ),
            limitations,
        };
        proof {
            assert(strings_view(r.packages@) =~= Seq::<Seq<char>>::empty());
            assert(strings_view(r.limitations@) =~= seq![
                "This distribution is not in the verified support matrix."@,
            ]);
        }
        r
    }

    fn supported(
        family: DistributionFamily,
        display_name: String,
        package_manager: &str,
        packages: &[&str],
        service: &str,
        permission_guidance: &str,
    ) -> (r: DistributionProfile)
        ensures
            r@ == supported_profile(
                family,
                display_name@,
                package_manager@,
                strs_view(packages@),
                service@,
                permission_guidance@,
            ),
    {
        let r = DistributionProfile {
            family,
            display_name,
            package_manager: String::from_str(package_manager),
            supported: true,
            packages: strings(packages),
            service: String::from_str(service),
            permission_guidance: String::from_str(permission_guidance),
            firmware_guidance: String::from_str(
                "Firmware is discovered from libvirt capabilities and verified existing files.",
            ),
            limitations: Vec::new(),
        };
        proof {
            assert(strings_view(r.limitations@) =~= Seq::<Seq<char>>::empty());
        }
        r
    }

    fn arch(display_name: String) -> (r: DistributionProfile)
        ensures
            r@ == profile_for(DistributionFamily::ArchCachyos, display_name@),
    {
        let p = ["libvirt", "qemu-full", "edk2-ovmf", "swtpm"];
        let r = Self::supported(
            DistributionFamily::ArchCachyos,
            display_name,
            "pacman",
            &p,
            "Enable libvirtd.socket.",
            "Start a new login session after adding the user to the libvirt group.",
        );
        proof {
            assert(strs_view(p@) =~= seq![
                "libvirt"@,
                "qemu-full"@,
                "edk2-ovmf"@,
                "swtpm"@,
            ]);
        }
        r
    }

    fn debian(display_name: String) -> (r: DistributionProfile)
        ensures
            r@ == profile_for(DistributionFamily::DebianUbuntu, display_name@),
    {
        let p = ["libvirt-daemon-system", "qemu-system-x86", "ovmf", "swtpm-tools"];
        let r = Self::supported(
            DistributionFamily::DebianUbuntu,
            display_name,
            "apt",
            &p,
            "Enable and start libvirtd or the distribution's libvirt socket.",
            "Start a new login session after adding the user to the libvirt group.",
        );
        proof {
            assert(strs_view(p@) =~= seq![
                "libvirt-daemon-system"@,
                "qemu-system-x86"@,
                "ovmf"@,
                "swtpm-tools"@,
            ]);
        }
        r
    }

    fn fedora(display_name: String) -> (r: DistributionProfile)
        ensures
            r@ == profile_for(DistributionFamily::FedoraRhel, display_name@),
    {
        let p = ["libvirt-daemon-kvm", "qemu-kvm", "edk2-ovmf", "swtpm"];
        let r = Self::supported(
            DistributionFamily::FedoraRhel,
            display_name,
            "dnf",
            &p,
            "Enable and start libvirtd or the distribution's libvirt socket.",
            "Use the distribution's libvirt access policy; do not run the desktop application as root.",
        );
        proof {
            assert(strs_view(p@) =~= seq![
                "libvirt-daemon-kvm"@,
                "qemu-kvm"@,
                "edk2-ovmf"@,
                "swtpm"@,
            ]);
        }
        r
    }

    fn opensuse(display_name: String) -> (r: DistributionProfile)
        ensures
            r@ == profile_for(DistributionFamily::Opensuse, display_name@),
    {
        let p = ["libvirt", "qemu-kvm", "qemu-ovmf-x86_64", "swtpm"];
        let r = Self::supported(
            DistributionFamily::Opensuse,
            display_name,
            "zypper",
            &p,
            "Enable and start libvirtd or the distribution's libvirt socket.",
            "Use the distribution's libvirt access policy; do not run the desktop application as root.",
        );
        proof {
            assert(strs_view(p@) =~= seq![
                "libvirt"@,
                "qemu-kvm"@,
                "qemu-ovmf-x86_64"@,
                "swtpm"@,
            ]);
        }
        r
    }

    /// The profile of `family` for a host displayed as `display_name`.
    pub fn profile(family: DistributionFamily, display_name: String) -> (r: DistributionProfile)
        ensures
            r@ == profile_for(family, display_name@),
    {
        match family {
            DistributionFamily::ArchCachyos => Self::arch(display_name),
            DistributionFamily::DebianUbuntu => Self::debian(display_name),
            DistributionFamily::FedoraRhel => Self::fedora(display_name),
            DistributionFamily::Opensuse => Self::opensuse(display_name),
            DistributionFamily::BestEffort => Self::best_effort(display_name.as_str()),
        }
    }
}

} // verus!
