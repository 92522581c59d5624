//! The definition a clone gets: its source's definition with the identity dropped, the
//! new name and description written in, the copied disks pointed at, and fresh MAC
//! addresses for its network interfaces.
use crate::error::AppError;
use crate::text::{
    append_chars, chars_of, find_from, find_from_at, find_str_from, lemma_find_from_props, replace_all, replace_all_str,
};
use crate::vm::{fmt_hex, hex_fixed, vm_name_ok, VmService};
use crate::xml::{
    escape, escaped_attribute, find_tag_from, find_tag_from_exec, root_ok, root_ok_exec, start_tag_at, tag_end, text_ok,
};
use vstd::prelude::*;

verus! {

/// The end tag of `tag`.
pub open spec fn close_tag(tag: Seq<char>) -> Seq<char> {
    "</"@ + tag + ">"@
}

/// Where the character data of the first `tag` element lies: from just after its start
/// tag up to its end tag. None for an empty-element tag or one that is never closed.
pub open spec fn text_span(s: Seq<char>, tag: Seq<char>) -> Option<(int, int)> {
    match find_tag_from(s, tag, 0) {
        None => None,
        Some(i) => match tag_end(s, i) {
            None => None,
            Some(e) => if s[e - 1] == '/' {
                None
            } else {
                match find_from(s, close_tag(tag), e + 1) {
                    Some(c) => Some((e + 1, c)),
                    None => None,
                }
            },
        },
    }
}

/// `s` with the character data of its first `tag` element replaced by `text`.
pub open spec fn rewrite_text(s: Seq<char>, tag: Seq<char>, text: Seq<char>) -> Option<Seq<char>> {
    match text_span(s, tag) {
        Some((a, b)) => Some(s.subrange(0, a) + text + s.subrange(b, s.len() as int)),
        None => None,
    }
}

/// `s` with `piece` placed right after the end tag of its first `tag` element.
pub open spec fn insert_after_element(s: Seq<char>, tag: Seq<char>, piece: Seq<char>) -> Option<Seq<char>> {
    match text_span(s, tag) {
        Some((a, b)) => {
            let k = b + close_tag(tag).len();
            Some(s.subrange(0, k) + piece + s.subrange(k, s.len() as int))
        },
        None => None,
    }
}

/// `s` without its first `tag` element, start tag to end tag; `s` itself when it has
/// none. None when that element is never closed.
pub open spec fn drop_first_element(s: Seq<char>, tag: Seq<char>) -> Option<Seq<char>> {
    match find_tag_from(s, tag, 0) {
        None => Some(s),
        Some(i) => match tag_end(s, i) {
            None => None,
            Some(e) => if s[e - 1] == '/' {
                Some(s.subrange(0, i) + s.subrange(e + 1, s.len() as int))
            } else {
                match find_from(s, close_tag(tag), e + 1) {
                    Some(c) => Some(s.subrange(0, i) + s.subrange(c + close_tag(tag).len(), s.len() as int)),
                    None => None,
                }
            },
        },
    }
}

fn close_tag_exec(tag: &str) -> (r: Vec<char>)
    ensures
        r@ == close_tag(tag@),
{
    let mut c = String::from_str("</");
    c.append(tag);
    c.append(">");
    chars_of(c.as_str())
}

/// The start tag of the first `tag` element and the position of its `>`.
fn first_tag_end(s: &[char], tv: &[char]) -> (r: Option<(usize, usize)>)
    ensures
        match r {
            Some((i, e)) => find_tag_from(s@, tv@, 0) == Some(i as int) && tag_end(s@, i as int) == Some(
                e as int,
            ) && i < e < s@.len(),
            None => find_tag_from(s@, tv@, 0) is None || tag_end(s@, find_tag_from(s@, tv@, 0)->0) is None,
        },
{
    let i = match find_tag_from_exec(s, tv, 0) {
        Some(i) => i,
        None => return None,
    };
    let e = match find_str_from(s, ">", i) {
        Some(e) => e,
        None => return None,
    };
    proof {
        reveal_strlit(">");
        assert(start_tag_at(s@, tv@, i as int));
        lemma_find_from_props(s@, ">"@, i as int);
        if e == i {
            assert(s@.subrange(i as int, i + 1)[0] == ">"@[0]);
        }
    }
    Some((i, e))
}

/// Where the character data of the first `tag` element of `s` lies.
pub fn text_span_exec(s: &[char], tag: &str) -> (r: Option<(usize, usize)>)
    ensures
        match r {
            Some((a, b)) => text_span(s@, tag@) == Some((a as int, b as int)) && a <= b && b + close_tag(
                tag@,
            ).len() <= s@.len(),
            None => text_span(s@, tag@) is None,
        },
{
    let tv = chars_of(tag);
    let (i, e) = match first_tag_end(s, tv.as_slice()) {
        Some(p) => p,
        None => return None,
    };
    if s[e - 1] == '/' {
        return None;
    }
    let cv = close_tag_exec(tag);
    match find_from_at(s, cv.as_slice(), e + 1) {
        Some(c) => Some((e + 1, c)),
        None => None,
    }
}

/// `s` with the character data of its first `tag` element replaced by `text`.
pub fn rewrite_text_exec(s: &str, tag: &str, text: &str) -> (r: Option<String>)
    ensures
        match r {
            Some(x) => rewrite_text(s@, tag@, text@) == Some(x@),
            None => rewrite_text(s@, tag@, text@) is None,
        },
{
    let v = chars_of(s);
    match text_span_exec(v.as_slice(), tag) {
        Some((a, b)) => {
            let mut out = String::new();
            append_chars(&mut out, v.as_slice(), 0, a);
            out.append(text);
            append_chars(&mut out, v.as_slice(), b, v.len());
            proof {
                assert(out@ =~= s@.subrange(0, a as int) + text@ + s@.subrange(b as int, s@.len() as int));
            }
            Some(out)
        },
        None => None,
    }
}

/// `s` with `piece` placed right after the end tag of its first `tag` element.
pub fn insert_after_element_exec(s: &str, tag: &str, piece: &str) -> (r: Option<String>)
    ensures
        match r {
            Some(x) => insert_after_element(s@, tag@, piece@) == Some(x@),
            None => insert_after_element(s@, tag@, piece@) is None,
        },
{
    let v = chars_of(s);
    match text_span_exec(v.as_slice(), tag) {
        Some((a, b)) => {
            let cv = close_tag_exec(tag);
            let n = v.len();
            assert(b + cv@.len() <= n);
            let k = b + cv.len();
            let mut out = String::new();
            append_chars(&mut out, v.as_slice(), 0, k);
            out.append(piece);
            append_chars(&mut out, v.as_slice(), k, v.len());
            proof {
                assert(out@ =~= s@.subrange(0, k as int) + piece@ + s@.subrange(k as int, s@.len() as int));
            }
            Some(out)
        },
        None => None,
    }
}

/// `s` without its first `tag` element.
pub fn drop_first_element_exec(s: &str, tag: &str) -> (r: Option<String>)
    ensures
        match r {
            Some(x) => drop_first_element(s@, tag@) == Some(x@),
            None => drop_first_element(s@, tag@) is None,
        },
{
    let v = chars_of(s);
    let tv = chars_of(tag);
    if find_tag_from_exec(v.as_slice(), tv.as_slice(), 0).is_none() {
        return Some(String::from_str(s));
    }
    let (i, e) = match first_tag_end(v.as_slice(), tv.as_slice()) {
        Some(p) => p,
        None => return None,
    };
    let mut out = String::new();
    append_chars(&mut out, v.as_slice(), 0, i);
    if v[e - 1] == '/' {
        append_chars(&mut out, v.as_slice(), e + 1, v.len());
        return Some(out);
    }
    let cv = close_tag_exec(tag);
    match find_from_at(v.as_slice(), cv.as_slice(), e + 1) {
        Some(c) => {
            let n = v.len();
            assert(c + cv@.len() <= n);
            append_chars(&mut out, v.as_slice(), c + cv.len(), v.len());
            Some(out)
        },
        None => None,
    }
}

/// The definition with its description set to `d`: the text of an existing description
/// is replaced, else a description element is placed after the name. The document must be
/// a domain and the text must be fit for a document.
pub open spec fn with_description(s: Seq<char>, d: Option<Seq<char>>) -> Option<Seq<char>> {
    match d {
        None => Some(s),
        Some(t) => if !text_ok(t) || !root_ok(s, "domain"@) {
            None
        } else {
            match text_span(s, "description"@) {
                Some(_) => rewrite_text(s, "description"@, escape(t)),
                None => insert_after_element(s, "name"@, "\n  <description>"@ + escape(t) + "</description>"@),
            }
        },
    }
}

/// The opening of a disk source that names the file `path`.
pub open spec fn disk_source(path: Seq<char>) -> Seq<char> {
    "<source file='"@ + path + "'"@
}

/// The definition with each disk source named by a mapping's first path pointed at its
/// second, the mappings taken in order. The old path is matched as it stands in the
/// document; the new one is escaped and must be fit for a document.
pub open spec fn remap_disks(s: Seq<char>, maps: Seq<(Seq<char>, Seq<char>)>) -> Option<Seq<char>>
    decreases maps.len(),
{
    if maps.len() == 0 {
        Some(s)
    } else {
        match remap_disks(s, maps.drop_last()) {
            None => None,
            Some(t) => if text_ok(maps.last().1) {
                Some(replace_all(t, disk_source(maps.last().0), disk_source(escape(maps.last().1))))
            } else {
                None
            },
        }
    }
}

/// Disk mappings as pairs of texts: the source path, then the copy's path.
pub open spec fn mappings_view(m: Seq<(String, String)>) -> Seq<(Seq<char>, Seq<char>)> {
    m.map_values(|p: (String, String)| (p.0@, p.1@))
}

/// An optional text as an optional sequence of characters.
pub open spec fn opt_str_view(d: Option<&str>) -> Option<Seq<char>> {
    match d {
        Some(t) => Some(t@),
        None => None,
    }
}

/// The clone's definition before its MAC addresses change: the name checked, the first
/// `<uuid>` dropped so that libvirt gives the clone its own, the name written in, the
/// description set when one is given, and the copied disks pointed at.
pub open spec fn clone_base(
    xml: Seq<char>,
    new_name: Seq<char>,
    maps: Seq<(Seq<char>, Seq<char>)>,
    description: Option<Seq<char>>,
) -> Option<Seq<char>> {
    if !vm_name_ok(new_name) {
        None
    } else {
        match drop_first_element(xml, "uuid"@) {
            None => None,
            Some(a) => match rewrite_text(a, "name"@, new_name) {
                None => None,
                Some(b) => match with_description(b, description) {
                    None => None,
                    Some(c) => remap_disks(c, maps),
                },
            },
        }
    }
}

fn with_description_exec(s: String, d: Option<&str>) -> (r: Result<String, AppError>)
    ensures
        match r {
            Ok(x) => with_description(s@, opt_str_view(d)) == Some(x@),
            Err(e) => with_description(s@, opt_str_view(d)) is None && e is InvalidConfig,
        },
{
    let t = match d {
        None => return Ok(s),
        Some(t) => t,
    };
    let esc = escaped_attribute(t, "Description contains unsupported characters")?;
    let v = chars_of(s.as_str());
    if !root_ok_exec(v.as_slice(), "domain") {
        return Err(AppError::invalid("Document root is not the expected element"));
    }
    let done = match text_span_exec(v.as_slice(), "description") {
        Some(_) => rewrite_text_exec(s.as_str(), "description", esc.as_str()),
        None => {
            let mut piece = String::from_str("\n  <description>");
            piece.append(esc.as_str());
            piece.append("</description>");
            insert_after_element_exec(s.as_str(), "name", piece.as_str())
        },
    };
    match done {
        Some(x) => Ok(x),
        None => Err(AppError::invalid("The definition has no element to hold the description")),
    }
}

fn remap_disks_exec(s: String, maps: &[(String, String)]) -> (r: Result<String, AppError>)
    ensures
        match r {
            Ok(x) => remap_disks(s@, mappings_view(maps@)) == Some(x@),
            Err(e) => remap_disks(s@, mappings_view(maps@)) is None && e is InvalidConfig,
        },
{
    let mut cur = s;
    let mut i: usize = 0;
    let ghost all = mappings_view(maps@);
    proof {
        assert(all.subrange(0, 0) =~= Seq::<(Seq<char>, Seq<char>)>::empty());
    }
    while i < maps.len()
        invariant
            i <= maps@.len(),
            all == mappings_view(maps@),
            remap_disks(s@, all.subrange(0, i as int)) == Some(cur@),
        decreases maps@.len() - i,
    {
        let old_path = &maps[i].0;
        let new_path = &maps[i].1;
        proof {
            assert(all.subrange(0, i + 1).drop_last() =~= all.subrange(0, i as int));
            assert(all.subrange(0, i + 1).last() == (old_path@, new_path@));
        }
        let esc = match escaped_attribute(new_path.as_str(), "Disk path contains unsupported characters") {
            Ok(x) => x,
            Err(e) => {
                proof {
                    assert(remap_disks(s@, all.subrange(0, i + 1)) is None);
                    lemma_remap_none_grows(s@, all, i + 1);
                    assert(all.subrange(0, all.len() as int) =~= all);
                }
                return Err(e);
            },
        };
        let mut from = String::from_str("<source file='");
        from.append(old_path.as_str());
        from.append("'");
        let mut to = String::from_str("<source file='");
        to.append(esc.as_str());
        to.append("'");
        proof {
            reveal_strlit("<source file='");
            assert(from@.len() > 0);
        }
        cur = replace_all_str(cur.as_str(), from.as_str(), to.as_str());
        i = i + 1;
    }
    proof {
        assert(all.subrange(0, maps@.len() as int) =~= all);
    }
    Ok(cur)
}

proof fn lemma_remap_none_grows(s: Seq<char>, maps: Seq<(Seq<char>, Seq<char>)>, k: int)
    requires
        0 <= k <= maps.len(),
        remap_disks(s, maps.subrange(0, k)) is None,
    ensures
        remap_disks(s, maps) is None,
    decreases maps.len() - k,
{
    if k < maps.len() {
        assert(maps.subrange(0, k + 1).drop_last() =~= maps.subrange(0, k));
        lemma_remap_none_grows(s, maps, k + 1);
    } else {
        assert(maps.subrange(0, k) =~= maps);
    }
}

/// The clone's definition before its MAC addresses change.
pub fn clone_base_exec(
    xml: &str,
    new_name: &str,
    maps: &[(String, String)],
    description: Option<&str>,
) -> (r: Result<String, AppError>)
    ensures
        match r {
            Ok(x) => clone_base(xml@, new_name@, mappings_view(maps@), opt_str_view(description)) == Some(x@),
            Err(e) => clone_base(xml@, new_name@, mappings_view(maps@), opt_str_view(description)) is None
                && e is InvalidConfig,
        },
{
    VmService::validate_vm_name(new_name)?;
    let a = match drop_first_element_exec(xml, "uuid") {
        Some(a) => a,
        None => return Err(AppError::invalid("The source definition has an unclosed uuid element")),
    };
    let b = match rewrite_text_exec(a.as_str(), "name", new_name) {
        Some(b) => b,
        None => return Err(AppError::invalid("The source definition has no name element")),
    };
    let c = with_description_exec(b, description)?;
    remap_disks_exec(c, maps)
}

/// A MAC address in QEMU's range (`52:54:00`) whose last three bytes are `t`.
pub open spec fn qemu_mac(t: (u8, u8, u8)) -> Seq<char> {
    "52:54:00:"@ + hex_fixed(t.0 as nat, 2) + ":"@ + hex_fixed(t.1 as nat, 2) + ":"@ + hex_fixed(t.2 as nat, 2)
}

/// What opens the value of an interface's MAC address.
pub open spec fn mac_open() -> Seq<char> {
    "<mac address='"@
}

/// What closes it.
pub open spec fn mac_close() -> Seq<char> {
    "'/>"@
}

/// `s` from `pos` on, with the value of each `<mac address='…'/>`, left to right, replaced
/// by the MAC address of the next suffix while suffixes remain.
pub open spec fn macs_from(s: Seq<char>, pos: int, sufs: Seq<(u8, u8, u8)>) -> Seq<char>
    decreases sufs.len(),
{
    if sufs.len() == 0 {
        s.subrange(pos, s.len() as int)
    } else {
        match find_from(s, mac_open(), pos) {
            None => s.subrange(pos, s.len() as int),
            Some(i) => match find_from(s, mac_close(), i + mac_open().len()) {
                None => s.subrange(pos, s.len() as int),
                Some(e) => s.subrange(pos, i + mac_open().len()) + qemu_mac(sufs[0]) + macs_from(
                    s,
                    e,
                    sufs.drop_first(),
                ),
            },
        }
    }
}

/// How many MAC address values `s` holds from `pos` on.
pub open spec fn mac_count(s: Seq<char>, pos: int) -> nat
    decreases s.len() - pos,
{
    if pos < 0 || pos > s.len() {
        0
    } else {
        match find_from(s, mac_open(), pos) {
            None => 0,
            Some(i) => match find_from(s, mac_close(), i + mac_open().len()) {
                None => 0,
                Some(e) => {
                    proof {
                        reveal_strlit("<mac address='");
                        lemma_find_from_props(s, mac_open(), pos);
                        lemma_find_from_props(s, mac_close(), i + mac_open().len());
                    }
                    1 + mac_count(s, e)
                },
            },
        }
    }
}

/// The whole definition a clone gets, with `sufs` giving its MAC addresses in order.
pub open spec fn clone_xml(
    xml: Seq<char>,
    new_name: Seq<char>,
    maps: Seq<(Seq<char>, Seq<char>)>,
    description: Option<Seq<char>>,
    sufs: Seq<(u8, u8, u8)>,
) -> Option<Seq<char>> {
    match clone_base(xml, new_name, maps, description) {
        Some(y) => Some(macs_from(y, 0, sufs)),
        None => None,
    }
}

fn mac_text(t: (u8, u8, u8)) -> (r: String)
    ensures
        r@ == qemu_mac(t),
{
    let mut r = String::from_str("52:54:00:");
    let a = fmt_hex(t.0 as u64, 2);
    r.append(a.as_str());
    r.append(":");
    let b = fmt_hex(t.1 as u64, 2);
    r.append(b.as_str());
    r.append(":");
    let c = fmt_hex(t.2 as u64, 2);
    r.append(c.as_str());
    r
}

/// Three random bytes, from `rand`'s thread-local generator. Which bytes come back is
/// chance and is not stated.
#[verifier::external_body]
fn random_mac_suffix() -> (r: (u8, u8, u8)) {
    (rand::random::<u8>(), rand::random::<u8>(), rand::random::<u8>())
}

impl VmService {
    /// How many MAC address values `xml` holds.
    pub fn count_mac_addresses(xml: &str) -> (r: usize)
        ensures
            r == mac_count(xml@, 0),
    {
        let v = chars_of(xml);
        let n = v.len();
        let mut count: usize = 0;
        let mut pos: usize = 0;
        while pos <= n
            invariant
                n == v@.len(),
                v@ == xml@,
                pos <= n,
                count <= pos,
                mac_count(xml@, 0) == count + mac_count(xml@, pos as int),
            decreases n - pos,
        {
            proof {
                reveal_strlit("<mac address='");
                reveal_strlit("'/>");
            }
            let i = match find_str_from(v.as_slice(), "<mac address='", pos) {
                Some(i) => i,
                None => return count,
            };
            let e = match find_str_from(v.as_slice(), "'/>", i + 14) {
                Some(e) => e,
                None => return count,
            };
            count = count + 1;
            pos = e;
        }
        count
    }

    /// `xml` with the value of each `<mac address='…'/>`, left to right, replaced by the
    /// MAC address of the next of `suffixes`; once they run out the rest stays as it is.
    pub fn replace_mac_addresses(xml: &str, suffixes: &[(u8, u8, u8)]) -> (r: String)
        ensures
            r@ == macs_from(xml@, 0, suffixes@),
    {
        let v = chars_of(xml);
        let n = v.len();
        let mut out = String::new();
        let mut pos: usize = 0;
        let mut k: usize = 0;
        proof {
            assert(suffixes@.subrange(0, suffixes@.len() as int) =~= suffixes@);
        }
        while k < suffixes.len()
            invariant
                n == v@.len(),
                v@ == xml@,
                pos <= n,
                k <= suffixes@.len(),
                macs_from(xml@, 0, suffixes@) == out@ + macs_from(
                    xml@,
                    pos as int,
                    suffixes@.subrange(k as int, suffixes@.len() as int),
                ),
            decreases suffixes@.len() - k,
        {
            proof {
                reveal_strlit("<mac address='");
                reveal_strlit("'/>");
            }
            let ghost rest = suffixes@.subrange(k as int, suffixes@.len() as int);
            let i = match find_str_from(v.as_slice(), "<mac address='", pos) {
                Some(i) => i,
                None => {
                    append_chars(&mut out, v.as_slice(), pos, n);
                    return out;
                },
            };
            let e = match find_str_from(v.as_slice(), "'/>", i + 14) {
                Some(e) => e,
                None => {
                    append_chars(&mut out, v.as_slice(), pos, n);
                    return out;
                },
            };
            let ghost before = out@;
            append_chars(&mut out, v.as_slice(), pos, i + 14);
            let m = mac_text(suffixes[k]);
            out.append(m.as_str());
            proof {
                assert(rest[0] == suffixes@[k as int]);
                assert(rest.drop_first() =~= suffixes@.subrange(k + 1, suffixes@.len() as int));
                assert(out@ =~= before + xml@.subrange(pos as int, i + 14) + qemu_mac(suffixes@[k as int]));
            }
            pos = e;
            k = k + 1;
        }
        proof {
            assert(suffixes@.subrange(k as int, suffixes@.len() as int).len() == 0);
        }
        append_chars(&mut out, v.as_slice(), pos, n);
        out
    }

    /// `xml` with every MAC address value replaced by a fresh random one in QEMU's range.
    /// Which addresses come out is chance; that each value is one of them is stated.
    pub fn regenerate_mac_addresses(xml: &str) -> (r: String)
        ensures
            exists|sufs: Seq<(u8, u8, u8)>|
                sufs.len() == mac_count(xml@, 0) && r@ == #[trigger] macs_from(xml@, 0, sufs),
            mac_count(r@, 0) == mac_count(xml@, 0),
    {
        let n = Self::count_mac_addresses(xml);
        let mut sufs: Vec<(u8, u8, u8)> = Vec::new();
        while sufs.len() < n
            invariant
                sufs@.len() <= n,
            decreases n - sufs@.len(),
        {
            sufs.push(random_mac_suffix());
        }
        let r = Self::replace_mac_addresses(xml, sufs.as_slice());
        proof {
            assert(r@ == macs_from(xml@, 0, sufs@));
            crate::clone_laws::law_replaced_macs_keep_their_count(xml@, sufs@);
        }
        r
    }

    /// The definition a clone gets, with `mac_suffixes` giving the last three bytes of its
    /// MAC addresses in order. Refused when the name is not a valid VM name, the source
    /// has no name element or an unclosed uuid element, the description or a new disk
    /// path holds characters a document cannot, or the source is not a domain when a
    /// description is to be set.
    pub fn clone_definition(
        source_xml: &str,
        new_name: &str,
        disk_mappings: &[(String, String)],
        description: Option<&str>,
        mac_suffixes: &[(u8, u8, u8)],
    ) -> (r: Result<String, AppError>)
        ensures
            match r {
                Ok(x) => clone_xml(
                    source_xml@,
                    new_name@,
                    mappings_view(disk_mappings@),
                    opt_str_view(description),
                    mac_suffixes@,
                ) == Some(x@),
                Err(e) => clone_xml(
                    source_xml@,
                    new_name@,
                    mappings_view(disk_mappings@),
                    opt_str_view(description),
                    mac_suffixes@,
                ) is None && e is InvalidConfig,
            },
    {
        let base = clone_base_exec(source_xml, new_name, disk_mappings, description)?;
        Ok(Self::replace_mac_addresses(base.as_str(), mac_suffixes))
    }

    /// The definition a clone gets, with fresh random MAC addresses for its interfaces.
    /// Refused on the same inputs as `clone_definition`.
    pub fn modify_xml_for_clone_extended(
        xml: &str,
        new_name: &str,
        disk_mappings: &[(String, String)],
        description: &Option<String>,
    ) -> (r: Result<String, AppError>)
        ensures
            match r {
                Ok(x) => exists|y: Seq<char>, sufs: Seq<(u8, u8, u8)>|
                    clone_base(xml@, new_name@, mappings_view(disk_mappings@), opt_view_string(description))
                        == Some(y) && sufs.len() == mac_count(y, 0) && x@ == #[trigger] macs_from(y, 0, sufs),
                Err(e) => clone_base(xml@, new_name@, mappings_view(disk_mappings@), opt_view_string(description))
                    is None && e is InvalidConfig,
            },
    {
        let d: Option<&str> = match description {
            Some(t) => Some(t.as_str()),
            None => None,
        };
        let base = clone_base_exec(xml, new_name, disk_mappings, d)?;
        Ok(Self::regenerate_mac_addresses(base.as_str()))
    }
}

/// An optional owned text as an optional sequence of characters.
pub open spec fn opt_view_string(d: &Option<String>) -> Option<Seq<char>> {
    match d {
        Some(t) => Some(t@),
        None => None,
    }
}

} // verus!
