//! Cloning a stopped VM: where the copied disks go, the `qemu-img` runs that copy them,
//! and what a failure at each step is reported as once the copies are cleaned up.
use crate::distribution::strings_view;
use crate::error::AppError;
use crate::operation::opt_view;
use crate::storage::{extension_of, path_extension};
use crate::text::{dec, fmt_u64};
use crate::vm::VmService;
use crate::vm_inspect::pool_target_path;
use vstd::prelude::*;

verus! {

/// What a clone copies and how it is named.
#[derive(Debug)]
pub struct CloneConfig {
    pub new_name: String,
    pub clone_disks: bool,
    pub clone_snapshots: bool,
    pub target_pool: Option<String>,
    pub description: Option<String>,
}

/// The step of a clone that failed.
#[derive(Clone, Copy, Debug, PartialEq, Eq, Structural)]
pub enum CloneStep {
    /// `qemu-img` could not be started.
    Start,
    /// `qemu-img` could not copy a disk.
    Copy,
    /// libvirt refused the clone's definition.
    Define,
    /// The defined clone gave no identity back.
    Finalize,
    /// Some snapshots of the source were not copied to the clone.
    Snapshots,
}

/// Where disks go when no other directory is known.
pub open spec fn default_image_dir() -> Seq<char> {
    "/var/lib/libvirt/images"@
}

/// The directory part of a path, as `std::path::Path::parent` reads it.
pub uninterp spec fn parent_path(p: Seq<char>) -> Option<Seq<char>>;

/// A file name joined to a directory, as `std::path::Path::join` forms it.
pub uninterp spec fn joined_path(dir: Seq<char>, file: Seq<char>) -> Seq<char>;

/// `Path::new(p).parent()`, as text. The parent of a `&str` path is UTF-8, so the
/// conversion changes nothing; which part counts as the parent is `Path`'s rule and is
/// not stated here.
#[verifier::external_body]
pub(crate) fn parent_of(p: &str) -> (r: Option<String>)
    ensures
        opt_view(r) == parent_path(p@),
{
    std::path::Path::new(p).parent().map(|q| q.to_string_lossy().to_string())
}

/// `Path::new(dir).join(file)`, as text; how the two are joined is `Path`'s rule and is
/// not stated here.
#[verifier::external_body]
fn join_path(dir: &str, file: &str) -> (r: String)
    ensures
        r@ == joined_path(dir@, file@),
{
    std::path::Path::new(dir).join(file).to_string_lossy().to_string()
}

/// The file name of a copied disk: the clone's name, the disk's index when there are
/// several, and the source's extension (`qcow2` when it has none).
pub open spec fn clone_file_name(new_name: Seq<char>, index: nat, count: nat, ext: Option<Seq<char>>) -> Seq<char> {
    let e = match ext {
        Some(x) => x,
        None => "qcow2"@,
    };
    if count > 1 {
        new_name + "-disk"@ + dec(index) + "."@ + e
    } else {
        new_name + "."@ + e
    }
}

/// Where a copied disk goes: into the target pool's directory when its definition was
/// read, else beside the source disk.
pub open spec fn clone_target(
    new_name: Seq<char>,
    index: nat,
    count: nat,
    source: Seq<char>,
    pool_xml: Option<Seq<char>>,
) -> Seq<char> {
    let file = clone_file_name(new_name, index, count, path_extension(source));
    match pool_xml {
        Some(x) => (match pool_target_path(x) {
            Some(p) => p,
            None => default_image_dir(),
        }) + "/"@ + file,
        None => joined_path(
            match parent_path(source) {
                Some(p) => p,
                None => default_image_dir(),
            },
            file,
        ),
    }
}

impl VmService {
    /// A running VM cannot be cloned.
    pub fn clone_precheck(is_running: bool) -> (r: Result<(), AppError>)
        ensures
            r is Ok <==> !is_running,
            r matches Err(e) ==> (e matches AppError::LibvirtError(m) && m@
                == "Cannot clone a running VM. Please shut it down first."@),
    {
        if is_running {
            Err(AppError::LibvirtError(String::from_str("Cannot clone a running VM. Please shut it down first.")))
        } else {
            Ok(())
        }
    }

    /// The file name of the copy of disk `index` of `count`.
    pub fn clone_disk_filename(new_name: &str, index: usize, count: usize, extension: Option<String>) -> (r: String)
        ensures
            r@ == clone_file_name(new_name@, index as nat, count as nat, opt_view(extension)),
    {
        let e = match extension {
            Some(x) => x,
            None => String::from_str("qcow2"),
        };
        let mut r = String::from_str(new_name);
        if count > 1 {
            r.append("-disk");
            let k = fmt_u64(index as u64);
            r.append(k.as_str());
        }
        r.append(".");
        r.append(e.as_str());
        r
    }

    /// Where the copy of disk `index` of `count`, at `source`, goes. `pool_xml` is the
    /// definition of the target pool when one was asked for and could be read.
    pub fn clone_disk_target(
        new_name: &str,
        index: usize,
        count: usize,
        source: &str,
        pool_xml: Option<String>,
    ) -> (r: String)
        ensures
            r@ == clone_target(new_name@, index as nat, count as nat, source@, opt_view(pool_xml)),
    {
        let file = Self::clone_disk_filename(new_name, index, count, extension_of(source));
        match pool_xml {
            Some(x) => {
                let mut dir = match Self::extract_pool_path(x.as_str()) {
                    Some(p) => p,
                    None => String::from_str("/var/lib/libvirt/images"),
                };
                dir.append("/");
                dir.append(file.as_str());
                dir
            },
            None => {
                let dir = match parent_of(source) {
                    Some(p) => p,
                    None => String::from_str("/var/lib/libvirt/images"),
                };
                join_path(dir.as_str(), file.as_str())
            },
        }
    }

    /// The `qemu-img` arguments that copy a disk: first as an overlay backed by the
    /// source, then, when that fails, as a full copy.
    pub fn clone_disk_commands(source: &str, target: &str) -> (r: (Vec<String>, Vec<String>))
        ensures
            strings_view(r.0@) == seq!["create"@, "-f"@, "qcow2"@, "-F"@, "qcow2"@, "-b"@, source@, target@],
            strings_view(r.1@) == seq!["convert"@, "-O"@, "qcow2"@, source@, target@],
    {
        let backing = vec![
            String::from_str("create"),
            String::from_str("-f"),
            String::from_str("qcow2"),
            String::from_str("-F"),
            String::from_str("qcow2"),
            String::from_str("-b"),
            String::from_str(source),
            String::from_str(target),
        ];
        let full = vec![
            String::from_str("convert"),
            String::from_str("-O"),
            String::from_str("qcow2"),
            String::from_str(source),
            String::from_str(target),
        ];
        proof {
            assert(strings_view(backing@) =~= seq!["create"@, "-f"@, "qcow2"@, "-F"@, "qcow2"@, "-b"@, source@, target@]);
            assert(strings_view(full@) =~= seq!["convert"@, "-O"@, "qcow2"@, source@, target@]);
        }
        (backing, full)
    }

    /// What a failed clone reports, given whether everything it created was removed
    /// again: the step's own error when the cleanup succeeded, else an error that asks
    /// for inspection. Missing snapshots always ask for inspection.
    pub fn clone_failure(step: CloneStep, cleaned_up: bool) -> (r: AppError)
        ensures
            match (step, cleaned_up) {
                (CloneStep::Start, true) => r matches AppError::Other(m) && m@ == "Disk clone could not be started"@,
                (CloneStep::Copy, true) => r matches AppError::Other(m) && m@ == "Disk clone failed"@,
                (CloneStep::Start, false) | (CloneStep::Copy, false) => r matches AppError::Partial(m) && m@
                    == "A failed disk clone left resources that require inspection"@,
                (CloneStep::Define, true) => r matches AppError::LibvirtError(m) && m@
                    == "The cloned virtual machine could not be defined"@,
                (CloneStep::Define, false) => r matches AppError::Partial(m) && m@
                    == "Clone definition failed after creating disk resources"@,
                (CloneStep::Finalize, true) => r matches AppError::LibvirtError(m) && m@
                    == "The cloned virtual machine could not be finalized"@,
                (CloneStep::Finalize, false) => r matches AppError::Partial(m) && m@
                    == "Clone finalization left resources that require inspection"@,
                (CloneStep::Snapshots, _) => r matches AppError::Partial(m) && m@
                    == "The clone was created but its snapshots require inspection"@,
            },
    {
        match (step, cleaned_up) {
            (CloneStep::Start, true) => AppError::Other(String::from_str("Disk clone could not be started")),
            (CloneStep::Copy, true) => AppError::Other(String::from_str("Disk clone failed")),
            (CloneStep::Start, false) | (CloneStep::Copy, false) => AppError::Partial(
                String::from_str("A failed disk clone left resources that require inspection"),
            ),
            (CloneStep::Define, true) => AppError::LibvirtError(
                String::from_str("The cloned virtual machine could not be defined"),
            ),
            (CloneStep::Define, false) => AppError::Partial(
                String::from_str("Clone definition failed after creating disk resources"),
            ),
            (CloneStep::Finalize, true) => AppError::LibvirtError(
                String::from_str("The cloned virtual machine could not be finalized"),
            ),
            (CloneStep::Finalize, false) => AppError::Partial(
                String::from_str("Clone finalization left resources that require inspection"),
            ),
            (CloneStep::Snapshots, _) => AppError::Partial(
                String::from_str("The clone was created but its snapshots require inspection"),
            ),
        }
    }

    /// A failure while preparing the clone's definition: the error itself when the copied
    /// disks were removed, else an error that asks for inspection.
    pub fn clone_preparation_failure(error: AppError, cleaned_up: bool) -> (r: AppError)
        ensures
            cleaned_up ==> r == error,
            !cleaned_up ==> (r matches AppError::Partial(m) && m@
                == "Clone preparation left disk resources that require inspection"@),
    {
        if cleaned_up {
            error
        } else {
            AppError::Partial(String::from_str("Clone preparation left disk resources that require inspection"))
        }
    }

    /// The description a copied snapshot gets: the source snapshot's own (untrimmed), or
    /// a note naming the source VM.
    pub fn clone_snapshot_description(snapshot_xml: Option<String>, source_vm_id: &str) -> (r: String)
        ensures
            r@ == match snapshot_xml {
                Some(x) => match crate::vm_inspect::quoted_after(x@, "<description>"@, "</description>"@, 0) {
                    Some(d) => d,
                    None => "Cloned from "@ + source_vm_id@,
                },
                None => "Cloned from "@ + source_vm_id@,
            },
    {
        let found = match &snapshot_xml {
            Some(x) => {
                let s = crate::text::chars_of(x.as_str());
                crate::vm_inspect::quoted_after_exec(s.as_slice(), "<description>", "</description>", 0)
            },
            None => None,
        };
        match found {
            Some(d) => d,
            None => {
                let mut m = String::from_str("Cloned from ");
                m.append(source_vm_id);
                m
            },
        }
    }

    /// The options of a plain clone: the disks are shared, not copied, and nothing else
    /// is carried over.
    pub fn plain_clone_config(new_name: &str) -> (r: CloneConfig)
        ensures
            r.new_name@ == new_name@,
            !r.clone_disks,
            !r.clone_snapshots,
            r.target_pool is None,
            r.description is None,
    {
        CloneConfig {
            new_name: String::from_str(new_name),
            clone_disks: false,
            clone_snapshots: false,
            target_pool: None,
            description: None,
        }
    }
}

} // verus!
