//! User tags of a VM, kept in the `<metadata>` element of its definition.
use crate::distribution::strings_view;
use crate::domain::{join_lines, join_strings};
use crate::error::AppError;
use crate::text::{
    append_chars, chars_of, contains, contains_str, find, find_from, find_str_from, replace_all, replace_all_str,
    str_eq, string_of,
};
use crate::vm::VmService;
use vstd::prelude::*;

verus! {

/// The tags inside a metadata section, from position `pos` on: the text of each
/// `<kvm:tag>` element, in order.
pub open spec fn tags_in(section: Seq<char>, pos: int) -> Seq<Seq<char>>
    decreases section.len() - pos,
{
    if pos < 0 {
        Seq::empty()
    } else {
        match find_from(section, "<kvm:tag>"@, pos) {
            Some(t) => match find_from(section, "</kvm:tag>"@, t + 9) {
                Some(e) => if e + 10 > pos && e + 10 <= section.len() {
                    seq![section.subrange(t + 9, e)] + tags_in(section, e + 10)
                } else {
                    Seq::empty()
                },
                None => Seq::empty(),
            },
            None => Seq::empty(),
        }
    }
}

/// The tags of a domain definition: those of its first `<metadata>` element.
pub open spec fn tags_of(xml: Seq<char>) -> Seq<Seq<char>> {
    match find(xml, "<metadata>"@) {
        Some(ms) => match find_from(xml, "</metadata>"@, ms) {
            Some(me) => tags_in(xml.subrange(ms, me + 11), 0),
            None => Seq::empty(),
        },
        None => Seq::empty(),
    }
}

/// `tags` followed by each of `new` that is not there yet.
pub open spec fn merged_tags(tags: Seq<Seq<char>>, new: Seq<Seq<char>>) -> Seq<Seq<char>>
    decreases new.len(),
{
    if new.len() == 0 {
        tags
    } else {
        let m = merged_tags(tags, new.drop_last());
        if m.contains(new.last()) {
            m
        } else {
            m.push(new.last())
        }
    }
}

pub open spec fn tag_line(t: Seq<char>) -> Seq<char> {
    "    <kvm:tag>"@ + t + "</kvm:tag>"@
}

/// The metadata element that holds `tags`.
pub open spec fn metadata_xml(tags: Seq<Seq<char>>) -> Seq<char> {
    "  <metadata>\n  <kvm:tags xmlns:kvm=\"http://kvm-manager.local/metadata\">\n"@ + join_lines(
        tags.map_values(|t: Seq<char>| tag_line(t)),
    ) + "\n  </kvm:tags>\n</metadata>"@
}

/// The definition with its metadata replaced by one that holds `tags`; without a
/// metadata element, one goes before each `</domain>`.
pub open spec fn with_tags(xml: Seq<char>, tags: Seq<Seq<char>>) -> Seq<char> {
    match find(xml, "<metadata>"@) {
        Some(start) => match find(xml, "</metadata>"@) {
            Some(end) => xml.subrange(0, start) + metadata_xml(tags) + xml.subrange(end + 11, xml.len() as int),
            None => xml,
        },
        None => replace_all(xml, "</domain>"@, metadata_xml(tags) + "\n</domain>"@),
    }
}

/// The definition without its metadata element.
pub open spec fn without_metadata(xml: Seq<char>) -> Seq<char> {
    match find(xml, "<metadata>"@) {
        Some(start) => match find(xml, "</metadata>"@) {
            Some(end) => xml.subrange(0, start) + xml.subrange(end + 11, xml.len() as int),
            None => xml,
        },
        None => xml,
    }
}

/// A definition whose metadata element, when there is one, is closed.
pub open spec fn metadata_closed(xml: Seq<char>) -> bool {
    contains(xml, "<metadata>"@) ==> contains(xml, "</metadata>"@)
}

fn tags_in_exec(section: &[char]) -> (r: Vec<String>)
    ensures
        strings_view(r@) == tags_in(section@, 0),
{
    let n = section.len();
    let mut out: Vec<String> = Vec::new();
    let mut pos: usize = 0;
    proof {
        assert(strings_view(out@) =~= Seq::<Seq<char>>::empty());
    }
    while pos <= n
        invariant
            n == section@.len(),
            pos <= n,
            tags_in(section@, 0) == strings_view(out@) + tags_in(section@, pos as int),
        decreases n - pos,
    {
        proof {
            reveal_strlit("<kvm:tag>");
            reveal_strlit("</kvm:tag>");
        }
        let t = match find_str_from(section, "<kvm:tag>", pos) {
            Some(t) => t,
            None => {
                proof {
                    assert(strings_view(out@) + Seq::<Seq<char>>::empty() =~= strings_view(out@));
                }
                return out;
            },
        };
        let e = match find_str_from(section, "</kvm:tag>", t + 9) {
            Some(e) => e,
            None => {
                proof {
                    assert(strings_view(out@) + Seq::<Seq<char>>::empty() =~= strings_view(out@));
                }
                return out;
            },
        };
        let tag = string_of(section, t + 9, e);
        let ghost before = strings_view(out@);
        out.push(tag);
        proof {
            assert(strings_view(out@) =~= before.push(tag@));
            assert(before + (seq![tag@] + tags_in(section@, e + 10)) =~= strings_view(out@) + tags_in(
                section@,
                e + 10,
            ));
        }
        pos = e + 10;
    }
    proof {
        assert(false);
    }
    out
}

fn contains_string(v: &Vec<String>, t: &String) -> (r: bool)
    ensures
        r == strings_view(v@).contains(t@),
{
    let mut i: usize = 0;
    while i < v.len()
        invariant
            i <= v@.len(),
            forall|k: int| 0 <= k < i ==> v@[k]@ != t@,
        decreases v@.len() - i,
    {
        if str_eq(v[i].as_str(), t.as_str()) {
            proof {
                assert(strings_view(v@)[i as int] == t@);
            }
            return true;
        }
        i = i + 1;
    }
    proof {
        assert forall|k: int| 0 <= k < strings_view(v@).len() implies strings_view(v@)[k] != t@ by {
            assert(v@[k]@ != t@);
        }
    }
    false
}

fn metadata_exec(tags: &Vec<String>) -> (r: String)
    ensures
        r@ == metadata_xml(strings_view(tags@)),
{
    let mut lines: Vec<String> = Vec::new();
    let n = tags.len();
    let mut i: usize = 0;
    while i < n
        invariant
            n == tags@.len(),
            i <= n,
            strings_view(lines@) == strings_view(tags@).subrange(0, i as int).map_values(|t: Seq<char>| tag_line(t)),
        decreases n - i,
    {
        let mut l = String::from_str("    <kvm:tag>");
        l.append(tags[i].as_str());
        l.append("</kvm:tag>");
        let ghost before = strings_view(lines@);
        lines.push(l);
        proof {
            let f = |t: Seq<char>| tag_line(t);
            let sub = strings_view(tags@).subrange(0, i + 1);
            assert(l@ == tag_line(tags@[i as int]@));
            assert(sub.map_values(f) =~= strings_view(tags@).subrange(0, i as int).map_values(f).push(l@));
            assert(strings_view(lines@) =~= before.push(l@));
        }
        i = i + 1;
    }
    proof {
        assert(strings_view(tags@).subrange(0, n as int) =~= strings_view(tags@));
    }
    let body = join_strings(&lines);
    let mut x = String::from_str("  <metadata>\n  <kvm:tags xmlns:kvm=\"http://kvm-manager.local/metadata\">\n");
    x.append(body.as_str());
    x.append("\n  </kvm:tags>\n</metadata>");
    x
}

impl VmService {
    /// The tags of a domain definition.
    pub fn get_vm_tags(xml: &str) -> (r: Vec<String>)
        ensures
            strings_view(r@) == tags_of(xml@),
    {
        let s = chars_of(xml);
        let n = s.len();
        let ms = match find_str_from(s.as_slice(), "<metadata>", 0) {
            Some(ms) => ms,
            None => return Vec::new(),
        };
        let me = match find_str_from(s.as_slice(), "</metadata>", ms) {
            Some(me) => me,
            None => return Vec::new(),
        };
        proof {
            reveal_strlit("</metadata>");
            assert(me + 11 <= n);
        }
        let section = crate::text::copy_range(s.as_slice(), ms, me + 11);
        tags_in_exec(section.as_slice())
    }

    /// `tags` followed by each of `new` that it does not hold yet.
    pub fn merge_tags(tags: Vec<String>, new: Vec<String>) -> (r: Vec<String>)
        ensures
            strings_view(r@) == merged_tags(strings_view(tags@), strings_view(new@)),
    {
        let mut out = tags;
        let ghost base = strings_view(out@);
        let n = new.len();
        let mut i: usize = 0;
        proof {
            assert(strings_view(new@).subrange(0, 0) =~= Seq::<Seq<char>>::empty());
        }
        while i < n
            invariant
                n == new@.len(),
                i <= n,
                strings_view(out@) == merged_tags(base, strings_view(new@).subrange(0, i as int)),
            decreases n - i,
        {
            let ghost sub = strings_view(new@).subrange(0, i + 1);
            proof {
                assert(sub.drop_last() =~= strings_view(new@).subrange(0, i as int));
                assert(sub.last() == new@[i as int]@);
            }
            if !contains_string(&out, &new[i]) {
                let ghost before = strings_view(out@);
                out.push(new[i].clone());
                proof {
                    assert(strings_view(out@) =~= before.push(new@[i as int]@));
                }
            }
            i = i + 1;
        }
        proof {
            assert(strings_view(new@).subrange(0, n as int) =~= strings_view(new@));
        }
        out
    }

    /// The tags of `tags` that are not in `remove`, in order.
    pub fn remaining_tags(tags: Vec<String>, remove: &Vec<String>) -> (r: Vec<String>)
        ensures
            strings_view(r@) == strings_view(tags@).filter(|t: Seq<char>| !strings_view(remove@).contains(t)),
    {
        let mut out: Vec<String> = Vec::new();
        let n = tags.len();
        let mut i: usize = 0;
        let ghost keep = |t: Seq<char>| !strings_view(remove@).contains(t);
        proof {
            reveal(Seq::filter);
            assert(strings_view(tags@).subrange(0, 0).filter(keep) =~= Seq::<Seq<char>>::empty());
        }
        while i < n
            invariant
                n == tags@.len(),
                i <= n,
                keep == (|t: Seq<char>| !strings_view(remove@).contains(t)),
                strings_view(out@) == strings_view(tags@).subrange(0, i as int).filter(keep),
            decreases n - i,
        {
            let ghost sub = strings_view(tags@).subrange(0, i + 1);
            proof {
                reveal(Seq::filter);
                assert(sub.drop_last() =~= strings_view(tags@).subrange(0, i as int));
                assert(sub =~= strings_view(tags@).subrange(0, i as int).push(tags@[i as int]@));
            }
            if !contains_string(remove, &tags[i]) {
                let ghost before = strings_view(out@);
                out.push(tags[i].clone());
                proof {
                    assert(strings_view(out@) =~= before.push(tags@[i as int]@));
                }
            }
            i = i + 1;
        }
        proof {
            assert(strings_view(tags@).subrange(0, n as int) =~= strings_view(tags@));
        }
        out
    }

    /// The definition with its metadata holding `tags`.
    pub fn definition_with_tags(xml: &str, tags: &Vec<String>) -> (r: String)
        requires
            metadata_closed(xml@),
        ensures
            r@ == with_tags(xml@, strings_view(tags@)),
    {
        let s = chars_of(xml);
        let n = s.len();
        let md = metadata_exec(tags);
        match find_str_from(s.as_slice(), "<metadata>", 0) {
            Some(start) => {
                let end = match find_str_from(s.as_slice(), "</metadata>", 0) {
                    Some(end) => end,
                    None => {
                        proof {
                            assert(false);
                        }
                        return String::from_str(xml);
                    },
                };
                proof {
                    reveal_strlit("</metadata>");
                    assert(end + 11 <= n);
                }
                let mut out = string_of(s.as_slice(), 0, start);
                out.append(md.as_str());
                append_chars(&mut out, s.as_slice(), end + 11, s.len());
                out
            },
            None => {
                let mut rep = md;
                rep.append("\n</domain>");
                proof {
                    reveal_strlit("</domain>");
                }
                replace_all_str(xml, "</domain>", rep.as_str())
            },
        }
    }

    /// The definition without its metadata element.
    pub fn definition_without_metadata(xml: &str) -> (r: String)
        ensures
            r@ == without_metadata(xml@),
    {
        let s = chars_of(xml);
        let n = s.len();
        match find_str_from(s.as_slice(), "<metadata>", 0) {
            Some(start) => match find_str_from(s.as_slice(), "</metadata>", 0) {
                Some(end) => {
                    proof {
                        reveal_strlit("</metadata>");
                        assert(end + 11 <= n);
                    }
                    let mut out = string_of(s.as_slice(), 0, start);
                    append_chars(&mut out, s.as_slice(), end + 11, s.len());
                    out
                },
                None => String::from_str(xml),
            },
            None => String::from_str(xml),
        }
    }

    /// The definition after adding `tags` to those it holds.
    pub fn add_vm_tags(xml: &str, tags: Vec<String>) -> (r: String)
        requires
            metadata_closed(xml@),
        ensures
            r@ == with_tags(xml@, merged_tags(tags_of(xml@), strings_view(tags@))),
    {
        let existing = Self::get_vm_tags(xml);
        let merged = Self::merge_tags(existing, tags);
        Self::definition_with_tags(xml, &merged)
    }

    /// The definition after removing `tags`: without metadata when no tag is left;
    /// otherwise the remaining tags are added again to those the definition holds.
    pub fn remove_vm_tags(xml: &str, tags: &Vec<String>) -> (r: String)
        requires
            metadata_closed(xml@),
        ensures
            ({
                let left = tags_of(xml@).filter(|t: Seq<char>| !strings_view(tags@).contains(t));
                r@ == if left.len() == 0 {
                    without_metadata(xml@)
                } else {
                    with_tags(xml@, merged_tags(tags_of(xml@), left))
                }
            }),
    {
        let existing = Self::get_vm_tags(xml);
        let left = Self::remaining_tags(existing, tags);
        if left.len() == 0 {
            Self::definition_without_metadata(xml)
        } else {
            Self::add_vm_tags(xml, left)
        }
    }
}

/// Adding tags keeps the tags a VM had, first and in order, and afterwards every added
/// tag is among its tags.
pub proof fn law_added_tags_are_kept(tags: Seq<Seq<char>>, new: Seq<Seq<char>>)
    ensures
        merged_tags(tags, new).len() >= tags.len(),
        merged_tags(tags, new).subrange(0, tags.len() as int) == tags,
        forall|t: Seq<char>| new.contains(t) ==> merged_tags(tags, new).contains(t),
        forall|t: Seq<char>| #[trigger] merged_tags(tags, new).contains(t) ==> tags.contains(t) || new.contains(t),
    decreases new.len(),
{
    if new.len() == 0 {
        assert(tags.subrange(0, tags.len() as int) =~= tags);
    } else {
        let rest = new.drop_last();
        law_added_tags_are_kept(tags, rest);
        let m = merged_tags(tags, rest);
        if !m.contains(new.last()) {
            assert(m.push(new.last()).subrange(0, tags.len() as int) =~= m.subrange(0, tags.len() as int));
        }
        assert forall|t: Seq<char>| new.contains(t) implies merged_tags(tags, new).contains(t) by {
            let i = choose|i: int| 0 <= i < new.len() && new[i] == t;
            if i < new.len() - 1 {
                assert(rest[i] == t);
                assert(rest.contains(t));
                assert(m.contains(t));
                if !m.contains(new.last()) {
                    let j = choose|j: int| 0 <= j < m.len() && m[j] == t;
                    assert(m.push(new.last())[j] == t);
                }
            } else {
                if !m.contains(new.last()) {
                    assert(m.push(new.last())[m.len() as int] == t);
                }
            }
        }
        assert forall|t: Seq<char>| #[trigger] merged_tags(tags, new).contains(t) implies tags.contains(t) || new.contains(t) by {
            if m.contains(t) {
                if rest.contains(t) {
                    let i = choose|i: int| 0 <= i < rest.len() && rest[i] == t;
                    assert(new[i] == t);
                }
            } else {
                assert(t == new.last());
                assert(new[new.len() - 1] == t);
            }
        }
    }
}

} // verus!
