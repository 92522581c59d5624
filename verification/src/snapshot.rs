//! VM snapshots: the definition sent to libvirt when one is taken, and what is read back
//! from the definition libvirt keeps of each.
use crate::operation::opt_view;
use crate::text::{
    chars_of, contains, contains_str, find, find_str_from, opt_int, parse_signed, parse_signed_str, string_of_all,
    trim, trim_string,
};
use crate::vm_inspect::{quoted_after, quoted_after_exec};
use vstd::prelude::*;

verus! {

/// The state a snapshot recorded.
#[derive(Clone, Copy, Debug, PartialEq, Eq, Structural)]
pub enum SnapshotState {
    Running,
    Paused,
    Shutoff,
    DiskSnapshot,
}

/// What the user asks for when taking a snapshot.
#[derive(Debug)]
pub struct SnapshotConfig {
    pub name: String,
    pub description: Option<String>,
    pub include_memory: bool,
}

/// A snapshot of a VM.
#[derive(Debug)]
pub struct Snapshot {
    pub name: String,
    pub description: Option<String>,
    pub creation_time: i64,
    pub state: SnapshotState,
    pub parent: Option<String>,
    pub is_current: bool,
}

pub struct SnapshotView {
    pub name: Seq<char>,
    pub description: Option<Seq<char>>,
    pub creation_time: i64,
    pub state: SnapshotState,
    pub parent: Option<Seq<char>>,
    pub is_current: bool,
}

impl Snapshot {
    pub open spec fn view(&self) -> SnapshotView {
        SnapshotView {
            name: self.name@,
            description: opt_view(self.description),
            creation_time: self.creation_time,
            state: self.state,
            parent: opt_view(self.parent),
            is_current: self.is_current,
        }
    }
}

pub open spec fn snapshots_view(v: Seq<Snapshot>) -> Seq<SnapshotView> {
    v.map_values(|s: Snapshot| s@)
}

/// Newest first: creation times never grow along the sequence.
pub open spec fn newest_first(v: Seq<SnapshotView>) -> bool {
    forall|a: int, b: int| 0 <= a < b < v.len() ==> (#[trigger] v[a]).creation_time >= (#[trigger] v[b]).creation_time
}

/// The `<domainsnapshot>` document for a snapshot: its name and description as given
/// (an absent description is empty), with the memory state kept internally or not at all.
pub open spec fn snapshot_xml(name: Seq<char>, description: Seq<char>, include_memory: bool) -> Seq<char> {
    "<domainsnapshot>\n  <name>"@ + name + "</name>\n  <description>"@ + description
        + "</description>\n  <memory snapshot='"@ + (if include_memory {
        "internal"@
    } else {
        "no"@
    }) + "'/>\n</domainsnapshot>"@
}

/// The creation time a snapshot definition records; 0 when it is missing or no `i64`.
pub open spec fn creation_time_of(xml: Seq<char>) -> i64 {
    match quoted_after(xml, "<creationTime>"@, "</creationTime>"@, 0) {
        Some(v) => match parse_signed(v, i64::MIN as int, i64::MAX as int) {
            Some(t) => t as i64,
            None => 0,
        },
        None => 0,
    }
}

/// The trimmed description of a snapshot definition, when there is a non-empty one.
pub open spec fn description_of(xml: Seq<char>) -> Option<Seq<char>> {
    match quoted_after(xml, "<description>"@, "</description>"@, 0) {
        Some(v) => if trim(v).len() > 0 {
            Some(trim(v))
        } else {
            None
        },
        None => None,
    }
}

/// The name inside the `<parent>` element of a snapshot definition.
pub open spec fn parent_of(xml: Seq<char>) -> Option<Seq<char>> {
    match find(xml, "<parent>"@) {
        Some(p) => quoted_after(xml, "<name>"@, "</name>"@, p + 8),
        None => None,
    }
}

/// The state a snapshot definition records; a disk-only snapshot when none is named.
pub open spec fn state_of(xml: Seq<char>) -> SnapshotState {
    if contains(xml, "<state>running</state>"@) {
        SnapshotState::Running
    } else if contains(xml, "<state>paused</state>"@) {
        SnapshotState::Paused
    } else if contains(xml, "<state>shutoff</state>"@) || contains(xml, "<state>shut off</state>"@) {
        SnapshotState::Shutoff
    } else {
        SnapshotState::DiskSnapshot
    }
}

/// Takes and reads back VM snapshots.
pub struct SnapshotService;

impl SnapshotService {
    /// The definition libvirt is given to take a snapshot.
    pub fn snapshot_definition(config: &SnapshotConfig) -> (r: String)
        ensures
            r@ == snapshot_xml(
                config.name@,
                match config.description {
                    Some(d) => d@,
                    None => Seq::empty(),
                },
                config.include_memory,
            ),
    {
        let mut x = String::from_str("<domainsnapshot>\n  <name>");
        x.append(config.name.as_str());
        x.append("</name>\n  <description>");
        match &config.description {
            Some(d) => x.append(d.as_str()),
            None => {},
        }
        x.append("</description>\n  <memory snapshot='");
        if config.include_memory {
            x.append("internal");
        } else {
            x.append("no");
        }
        x.append("'/>\n</domainsnapshot>");
        proof {
            if config.description is None {
                assert(x@ == snapshot_xml(config.name@, Seq::empty(), config.include_memory));
            }
        }
        x
    }

    /// The creation time recorded in a snapshot definition.
    pub fn parse_creation_time(xml: &str) -> (r: i64)
        ensures
            r == creation_time_of(xml@),
    {
        let s = chars_of(xml);
        match quoted_after_exec(s.as_slice(), "<creationTime>", "</creationTime>", 0) {
            Some(v) => match parse_signed_str(v.as_str(), i64::MIN, i64::MAX) {
                Some(t) => t,
                None => 0,
            },
            None => 0,
        }
    }

    /// The description recorded in a snapshot definition.
    pub fn parse_description(xml: &str) -> (r: Option<String>)
        ensures
            opt_view(r) == description_of(xml@),
    {
        let s = chars_of(xml);
        match quoted_after_exec(s.as_slice(), "<description>", "</description>", 0) {
            Some(v) => {
                let d = trim_string(v.as_str());
                if d.unicode_len() > 0 {
                    Some(d)
                } else {
                    None
                }
            },
            None => None,
        }
    }

    /// The parent named in a snapshot definition.
    pub fn parse_parent(xml: &str) -> (r: Option<String>)
        ensures
            opt_view(r) == parent_of(xml@),
    {
        let s = chars_of(xml);
        let n = s.len();
        match find_str_from(s.as_slice(), "<parent>", 0) {
            Some(p) => {
                proof {
                    reveal_strlit("<parent>");
                    assert("<parent>"@.len() == 8);
                    assert(p + 8 <= n);
                }
                quoted_after_exec(s.as_slice(), "<name>", "</name>", p + 8)
            },
            None => None,
        }
    }

    /// The state recorded in a snapshot definition.
    pub fn parse_state(xml: &str) -> (r: SnapshotState)
        ensures
            r == state_of(xml@),
            contains(xml@, "<state>running</state>"@) <==> r == SnapshotState::Running,
            (contains(xml@, "<state>shutoff</state>"@) || contains(xml@, "<state>shut off</state>"@)) && !contains(
                xml@,
                "<state>running</state>"@,
            ) && !contains(xml@, "<state>paused</state>"@) ==> r == SnapshotState::Shutoff,
    {
        let s = chars_of(xml);
        if contains_str(s.as_slice(), "<state>running</state>") {
            SnapshotState::Running
        } else if contains_str(s.as_slice(), "<state>paused</state>") {
            SnapshotState::Paused
        } else if contains_str(s.as_slice(), "<state>shutoff</state>") || contains_str(
            s.as_slice(),
            "<state>shut off</state>",
        ) {
            SnapshotState::Shutoff
        } else {
            SnapshotState::DiskSnapshot
        }
    }

    /// A snapshot from its name, its definition and whether it is the current one.
    pub fn snapshot_to_model(name: String, xml: &str, is_current: bool) -> (r: Snapshot)
        ensures
            r@ == (SnapshotView {
                name: name@,
                description: description_of(xml@),
                creation_time: creation_time_of(xml@),
                state: state_of(xml@),
                parent: parent_of(xml@),
                is_current,
            }),
    {
        let creation_time = Self::parse_creation_time(xml);
        let description = Self::parse_description(xml);
        let parent = Self::parse_parent(xml);
        let state = Self::parse_state(xml);
        Snapshot { name, description, creation_time, state, parent, is_current }
    }

    /// The snapshots of a VM, newest first; snapshots with the same creation time keep
    /// the order they came in.
    pub fn list_snapshots(snapshots: Vec<Snapshot>) -> (r: Vec<Snapshot>)
        ensures
            newest_first(snapshots_view(r@)),
            snapshots_view(r@).to_multiset() == snapshots_view(snapshots@).to_multiset(),
    {
        let mut out: Vec<Snapshot> = Vec::new();
        let mut rest = snapshots;
        let ghost orig = snapshots_view(rest@);
        let ghost mut taken: Seq<SnapshotView> = Seq::empty();
        proof {
            assert(snapshots_view(out@) =~= Seq::<SnapshotView>::empty());
            assert(orig =~= taken + snapshots_view(rest@));
        }
        while rest.len() > 0
            invariant
                newest_first(snapshots_view(out@)),
                snapshots_view(out@).to_multiset() == taken.to_multiset(),
                orig == taken + snapshots_view(rest@),
            decreases rest.len(),
        {
            let x = rest.remove(0);
            let key = x.creation_time;
            let m = out.len();
            let mut p: usize = 0;
            while p < m && out[p].creation_time >= key
                invariant
                    m == out@.len(),
                    p <= m,
                    forall|k: int| 0 <= k < p ==> (#[trigger] out@[k]).creation_time >= key,
                decreases m - p,
            {
                p = p + 1;
            }
            let ghost before = snapshots_view(out@);
            let ghost xv = x@;
            out.insert(p, x);
            proof {
                assert(snapshots_view(out@) =~= before.insert(p as int, xv));
                vstd::seq_lib::to_multiset_insert(before, p as int, xv);
                vstd::seq_lib::to_multiset_build(taken, xv);
                assert(orig =~= taken.push(xv) + snapshots_view(rest@));
                taken = taken.push(xv);
                let after = snapshots_view(out@);
                assert forall|a: int, b: int| 0 <= a < b < after.len() implies (#[trigger] after[a]).creation_time
                    >= (#[trigger] after[b]).creation_time by {
                    if b < p {
                        assert(after[a] == before[a] && after[b] == before[b]);
                    } else if b == p {
                        assert(after[a] == before[a]);
                        assert(out@[a].creation_time >= key);
                    } else if a < p {
                        assert(after[a] == before[a] && after[b] == before[b - 1]);
                    } else if a == p {
                        assert(after[b] == before[b - 1]);
                        if p < m {
                            assert(before[p as int].creation_time < key);
                        }
                    } else {
                        assert(after[a] == before[a - 1] && after[b] == before[b - 1]);
                    }
                }
            }
        }
        proof {
            assert(taken =~= orig);
        }
        out
    }
}

/// The state a snapshot definition records is read from its `<state>` element: a
/// running state wins, then a paused one; a shut-off VM, written either `shutoff` or
/// `shut off`, is read as shut off; a definition that records none of these is a
/// disk-only snapshot.
pub proof fn law_snapshot_state_follows_the_recorded_state(xml: Seq<char>)
    ensures
        contains(xml, "<state>running</state>"@) ==> state_of(xml) == SnapshotState::Running,
        !contains(xml, "<state>running</state>"@) && contains(xml, "<state>paused</state>"@) ==> state_of(xml)
            == SnapshotState::Paused,
        (contains(xml, "<state>shutoff</state>"@) || contains(xml, "<state>shut off</state>"@)) && !contains(
            xml,
            "<state>running</state>"@,
        ) && !contains(xml, "<state>paused</state>"@) ==> state_of(xml) == SnapshotState::Shutoff,
        state_of(xml) == SnapshotState::DiskSnapshot <==> !contains(xml, "<state>running</state>"@) && !contains(
            xml,
            "<state>paused</state>"@,
        ) && !contains(xml, "<state>shutoff</state>"@) && !contains(xml, "<state>shut off</state>"@),
{
}

} // verus!
