//! What the library reads from a domain definition: disk paths, attribute values and the
//! devices that stand in the way of a migration.
use crate::text::{
    chars_of, contains, contains_str, find, find_from, find_str_from, lemma_find_from_props, lines, lines_view,
    opt_int, split_lines, starts_with, starts_with_str, string_of, trim, trim_bounds,
};
use crate::vm::VmService;
use vstd::prelude::*;

verus! {

/// The text between `pattern`, searched from `from`, and the next `quote` after it.
pub open spec fn quoted_after(s: Seq<char>, pattern: Seq<char>, quote: Seq<char>, from: int) -> Option<Seq<char>> {
    match find_from(s, pattern, from) {
        Some(p) => match find_from(s, quote, p + pattern.len()) {
            Some(e) => Some(s.subrange(p + pattern.len(), e)),
            None => None,
        },
        None => None,
    }
}

/// The value of attribute `attr` in a line, in single quotes or else in double quotes.
pub open spec fn attribute_in_line(line: Seq<char>, attr: Seq<char>) -> Option<Seq<char>> {
    match quoted_after(line, attr + "='"@, "'"@, 0) {
        Some(v) => Some(v),
        None => quoted_after(line, attr + "=\""@, "\""@, 0),
    }
}

/// The file of the first `<source` element of a disk element, in single quotes or else
/// in double quotes.
pub open spec fn source_file(section: Seq<char>) -> Option<Seq<char>> {
    match find(section, "<source "@) {
        Some(ss) => match quoted_after(section, "file='"@, "'"@, ss) {
            Some(v) => Some(v),
            None => quoted_after(section, "file=\""@, "\""@, ss),
        },
        None => None,
    }
}

/// A disk element whose device is a disk (not a CD-ROM or floppy).
pub open spec fn is_disk_device(section: Seq<char>) -> bool {
    contains(section, "device='disk'"@) || contains(section, "device=\"disk\""@)
}

/// The source files of the disk devices of the disk elements at or after `pos`.
pub open spec fn disk_paths_from(s: Seq<char>, pos: int) -> Seq<Seq<char>>
    decreases s.len() - pos,
{
    if pos < 0 || pos > s.len() {
        Seq::empty()
    } else {
        match find_from(s, "<disk "@, pos) {
            Some(a) => match find_from(s, "</disk>"@, a) {
                Some(e) => if e + 7 <= pos || e + 7 > s.len() {
                    Seq::empty()
                } else {
                    let section = s.subrange(a, e + 7);
                    let here = if is_disk_device(section) {
                        match source_file(section) {
                            Some(p) => seq![p],
                            None => Seq::empty(),
                        }
                    } else {
                        Seq::empty()
                    };
                    here + disk_paths_from(s, e + 7)
                },
                None => Seq::empty(),
            },
            None => Seq::empty(),
        }
    }
}

/// The target path of a storage pool definition: the first `<path>` after `<target>`.
pub open spec fn pool_target_path(xml: Seq<char>) -> Option<Seq<char>> {
    match find(xml, "<target>"@) {
        Some(t) => quoted_after(xml, "<path>"@, "</path>"@, t),
        None => None,
    }
}

pub(crate) fn quoted_after_exec(s: &[char], pattern: &str, quote: &str, from: usize) -> (r: Option<String>)
    ensures
        match r {
            Some(v) => quoted_after(s@, pattern@, quote@, from as int) == Some(v@),
            None => quoted_after(s@, pattern@, quote@, from as int) is None,
        },
{
    let pv = chars_of(pattern);
    let n = s.len();
    match find_str_from(s, pattern, from) {
        Some(p) => {
            proof {
                assert(pv@.len() == pattern@.len());
            }
            let start = p + pv.len();
            match find_str_from(s, quote, start) {
                Some(e) => Some(string_of(s, start, e)),
                None => None,
            }
        },
        None => None,
    }
}

fn source_file_exec(section: &[char]) -> (r: Option<String>)
    ensures
        match r {
            Some(v) => source_file(section@) == Some(v@),
            None => source_file(section@) is None,
        },
{
    match find_str_from(section, "<source ", 0) {
        Some(ss) => match quoted_after_exec(section, "file='", "'", ss) {
            Some(v) => Some(v),
            None => quoted_after_exec(section, "file=\"", "\"", ss),
        },
        None => None,
    }
}

impl VmService {
    /// The value of attribute `attr_name` in a line of XML.
    pub fn extract_xml_attribute(line: &str, attr_name: &str) -> (r: Option<String>)
        ensures
            match r {
                Some(v) => attribute_in_line(line@, attr_name@) == Some(v@),
                None => attribute_in_line(line@, attr_name@) is None,
            },
    {
        let v = chars_of(line);
        let mut single = String::from_str(attr_name);
        single.append("='");
        match quoted_after_exec(v.as_slice(), single.as_str(), "'", 0) {
            Some(x) => Some(x),
            None => {
                let mut double = String::from_str(attr_name);
                double.append("=\"");
                quoted_after_exec(v.as_slice(), double.as_str(), "\"", 0)
            },
        }
    }

    /// The source file of a disk element.
    pub fn extract_source_file(disk_section: &str) -> (r: Option<String>)
        ensures
            match r {
                Some(v) => source_file(disk_section@) == Some(v@),
                None => source_file(disk_section@) is None,
            },
    {
        let v = chars_of(disk_section);
        source_file_exec(v.as_slice())
    }

    /// The source files of the disk devices of a domain definition, in document order;
    /// CD-ROM and floppy media are left out.
    pub fn extract_disk_paths(xml: &str) -> (r: Vec<String>)
        ensures
            r@.map_values(|p: String| p@) == disk_paths_from(xml@, 0),
    {
        let s = chars_of(xml);
        let n = s.len();
        let mut out: Vec<String> = Vec::new();
        let mut pos: usize = 0;
        while pos <= n
            invariant
                n == s@.len(),
                s@ == xml@,
                pos <= n,
                disk_paths_from(xml@, 0) == out@.map_values(|p: String| p@) + disk_paths_from(xml@, pos as int),
            decreases n - pos,
        {
            let a = match find_str_from(s.as_slice(), "<disk ", pos) {
                Some(a) => a,
                None => {
                    proof {
                        assert(disk_paths_from(xml@, pos as int) =~= Seq::<Seq<char>>::empty());
                        assert(out@.map_values(|p: String| p@) + Seq::<Seq<char>>::empty() =~= out@.map_values(
                            |p: String| p@,
                        ));
                    }
                    return out;
                },
            };
            let e = match find_str_from(s.as_slice(), "</disk>", a) {
                Some(e) => e,
                None => {
                    proof {
                        assert(disk_paths_from(xml@, pos as int) =~= Seq::<Seq<char>>::empty());
                        assert(out@.map_values(|p: String| p@) + Seq::<Seq<char>>::empty() =~= out@.map_values(
                            |p: String| p@,
                        ));
                    }
                    return out;
                },
            };
            proof {
                reveal_strlit("</disk>");
            }
            let end = e + 7;
            let section: Vec<char> = crate::text::copy_range(s.as_slice(), a, end);
            let ghost before = out@;
            if contains_str(section.as_slice(), "device='disk'") || contains_str(section.as_slice(), "device=\"disk\"") {
                if let Some(p) = source_file_exec(section.as_slice()) {
                    out.push(p);
                }
            }
            proof {
                let here = if is_disk_device(section@) {
                    match source_file(section@) {
                        Some(p) => seq![p],
                        None => Seq::<Seq<char>>::empty(),
                    }
                } else {
                    Seq::<Seq<char>>::empty()
                };
                assert(out@.map_values(|p: String| p@) =~= before.map_values(|p: String| p@) + here);
                assert(disk_paths_from(xml@, pos as int) == here + disk_paths_from(xml@, end as int));
                assert(before.map_values(|p: String| p@) + (here + disk_paths_from(xml@, end as int)) =~= (
                before.map_values(|p: String| p@) + here) + disk_paths_from(xml@, end as int));
            }
            pos = end;
        }
        proof {
            assert(false);
        }
        out
    }

    /// The target path of a storage pool definition.
    pub fn extract_pool_path(xml: &str) -> (r: Option<String>)
        ensures
            match r {
                Some(v) => pool_target_path(xml@) == Some(v@),
                None => pool_target_path(xml@) is None,
            },
    {
        let s = chars_of(xml);
        match find_str_from(s.as_slice(), "<target>", 0) {
            Some(t) => quoted_after_exec(s.as_slice(), "<path>", "</path>", t),
            None => None,
        }
    }
}

} // verus!
