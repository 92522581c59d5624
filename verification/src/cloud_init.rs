//! Paths and domain fragments for cloud-init NoCloud ISO images.
use crate::clone::{parent_of, parent_path};
use crate::error::AppError;
use crate::ids::{uuid_parses, uuid_text};
use crate::operation::opt_view;
use crate::text::{chars_of, char_is_alnum, copy_string, ends_with, ends_with_str, is_alnum};
use crate::vm::CloudInitConfig;
use crate::xml::{escape, escaped_attribute, identifier_ok, text_ok, validate_identifier};
use vstd::prelude::*;

verus! {

pub struct CloudInitService;

/// Characters allowed in a VM name that becomes part of a file name.
pub open spec fn vm_name_char(c: char) -> bool {
    is_alnum(c) || c == '.' || c == '_' || c == '-'
}

pub open spec fn valid_iso_vm_name(name: Seq<char>) -> bool {
    identifier_ok(name) && forall|i: int| 0 <= i < name.len() ==> vm_name_char(#[trigger] name[i])
}

/// The managed directory of cloud-init images.
pub open spec fn iso_directory() -> Seq<char> {
    "/var/lib/libvirt/images"@
}

pub open spec fn iso_path(name: Seq<char>) -> Seq<char> {
    iso_directory() + "/"@ + name + "-cloud-init.iso"@
}

/// Whether two paths are equal as `std::path::Path` compares them (component by
/// component).
pub uninterp spec fn same_path(a: Seq<char>, b: Seq<char>) -> bool;

/// The last component of a path, as `std::path::Path::file_name` reads it.
pub uninterp spec fn file_name_part(p: Seq<char>) -> Option<Seq<char>>;

/// `Path::new(a) == Path::new(b)`. Which spellings compare equal is `Path`'s rule
/// (its components) and is not stated here.
#[verifier::external_body]
fn paths_equal(a: &str, b: &str) -> (r: bool)
    ensures
        r == same_path(a@, b@),
{
    std::path::Path::new(a) == std::path::Path::new(b)
}

/// `Path::new(p).file_name()`, as text. The name of a `&str` path is UTF-8, so the
/// conversion changes nothing; which part is the name is `Path`'s rule and is not stated
/// here.
#[verifier::external_body]
fn file_name_of(p: &str) -> (r: Option<String>)
    ensures
        match r {
            Some(n) => file_name_part(p@) == Some(n@),
            None => file_name_part(p@) is None,
        },
{
    std::path::Path::new(p).file_name().map(|n| n.to_string_lossy().to_string())
}

/// A path that names a cloud-init image directly inside the managed directory: its
/// parent is that directory and its file name ends in `-cloud-init.iso`.
pub open spec fn managed_iso_path(path: Seq<char>) -> bool {
    &&& match parent_path(path) {
        Some(d) => same_path(d, iso_directory()),
        None => false,
    }
    &&& match file_name_part(path) {
        Some(n) => ends_with(n, "-cloud-init.iso"@),
        None => false,
    }
}

/// The cloud-init CD-ROM fragment of a domain definition.
pub open spec fn attachment(iso: Seq<char>, target: Seq<char>, bus: Seq<char>) -> Seq<char> {
    "    <disk type='file' device='cdrom'>\n      <driver name='qemu' type='raw'/>\n      <source file='"@
        + escape(iso) + "'/>\n      <target dev='"@ + escape(target) + "' bus='"@ + escape(bus)
        + "'/>\n      <readonly/>\n    </disk>"@
}

/// The files of a NoCloud image and where it goes: the image path, the name of the
/// working directory the files are gathered in, and the text of each file.
#[derive(Debug)]
pub struct CloudInitPlan {
    pub iso_path: String,
    pub work_dir_name: String,
    pub user_data: String,
    pub meta_data: String,
    pub network_config: Option<String>,
}

/// The NoCloud `meta-data` of an instance.
pub open spec fn meta_data_text(instance_id: Seq<char>) -> Seq<char> {
    "instance-id: "@ + instance_id + "\n"@
}

/// The arguments of `genisoimage` (or `mkisofs`) that write the image `iso` from the
/// files in `dir`, labelled `cidata` as NoCloud asks.
pub open spec fn iso_tool_args_of(iso: Seq<char>, dir: Seq<char>) -> Seq<Seq<char>> {
    seq!["-output"@, iso, "-volid"@, "cidata"@, "-joliet"@, "-rock"@, dir]
}

pub fn vm_name_chars_ok(v: &[char]) -> (r: bool)
    ensures
        r == forall|i: int| 0 <= i < v@.len() ==> vm_name_char(#[trigger] v@[i]),
{
    let mut i: usize = 0;
    while i < v.len()
        invariant
            i <= v@.len(),
            forall|j: int| 0 <= j < i ==> vm_name_char(#[trigger] v@[j]),
        decreases v@.len() - i,
    {
        let c = v[i];
        if !(char_is_alnum(c) || c == '.' || c == '_' || c == '-') {
            return false;
        }
        i = i + 1;
    }
    true
}

impl CloudInitService {
    fn validate_vm_name(vm_name: &str) -> (r: Result<(), AppError>)
        ensures
            r is Ok <==> valid_iso_vm_name(vm_name@),
            r matches Err(e) ==> e is InvalidConfig,
    {
        validate_identifier(vm_name, "VM name")?;
        let v = chars_of(vm_name);
        if !vm_name_chars_ok(v.as_slice()) {
            return Err(
                AppError::invalid(
                    "VM name may only contain letters, numbers, dots, underscores, and hyphens",
                ),
            );
        }
        Ok(())
    }

    /// The managed ISO path of a VM.
    pub fn iso_path_for_vm(vm_name: &str) -> (r: Result<String, AppError>)
        ensures
            match r {
                Ok(p) => valid_iso_vm_name(vm_name@) && p@ == iso_path(vm_name@),
                Err(e) => !valid_iso_vm_name(vm_name@) && e is InvalidConfig,
            },
    {
        Self::validate_vm_name(vm_name)?;
        let mut p = String::from_str("/var/lib/libvirt/images");
        p.append("/");
        p.append(vm_name);
        p.append("-cloud-init.iso");
        Ok(p)
    }

    /// The cloud-init CD-ROM fragment of a domain definition. The path, target and bus stay
    /// attribute data: each is escaped, so none can add an element or an attribute.
    pub fn attachment_definition(iso_path: &str, target: &str, bus: &str) -> (r: Result<
        String,
        AppError,
    >)
        ensures
            match r {
                Ok(d) => text_ok(iso_path@) && text_ok(target@) && text_ok(bus@) && d@
                    == attachment(iso_path@, target@, bus@),
                Err(e) => !(text_ok(iso_path@) && text_ok(target@) && text_ok(bus@))
                    && e is InvalidConfig,
            },
    {
        let target = escaped_attribute(target, "cloud-init target")?;
        let bus = escaped_attribute(bus, "cloud-init bus")?;
        let iso = escaped_attribute(iso_path, "cloud-init ISO path")?;
        let mut d = String::from_str(
            "    <disk type='file' device='cdrom'>\n      <driver name='qemu' type='raw'/>\n      <source file='",
        );
        d.append(iso.as_str());
        d.append("'/>\n      <target dev='");
        d.append(target.as_str());
        d.append("' bus='");
        d.append(bus.as_str());
        d.append("'/>\n      <readonly/>\n    </disk>");
        Ok(d)
    }

    /// What generating a VM's cloud-init image writes: for a valid VM name and an
    /// instance id `uuid` parses, the image path, the working directory
    /// `cloud-init-<instance id>`, the user-data as given, the meta-data naming the
    /// instance, and the network configuration when one is given.
    pub fn cloud_init_plan(config: &CloudInitConfig, vm_name: &str, instance_id: &str) -> (r: Result<
        CloudInitPlan,
        AppError,
    >)
        ensures
            r is Ok <==> valid_iso_vm_name(vm_name@) && uuid_text(instance_id@),
            r matches Err(e) ==> e is InvalidConfig,
            valid_iso_vm_name(vm_name@) && !uuid_text(instance_id@) ==> (r matches Err(AppError::InvalidConfig(m))
                && m@ == "Cloud-init instance ID must be a UUID"@),
            r matches Ok(p) ==> {
                &&& p.iso_path@ == iso_path(vm_name@)
                &&& p.work_dir_name@ == "cloud-init-"@ + instance_id@
                &&& p.user_data@ == config.user_data@
                &&& p.meta_data@ == meta_data_text(instance_id@)
                &&& opt_view(p.network_config) == opt_view(config.network_config)
            },
    {
        Self::validate_vm_name(vm_name)?;
        if !uuid_parses(instance_id) {
            return Err(AppError::InvalidConfig(String::from_str("Cloud-init instance ID must be a UUID")));
        }
        let iso_path = Self::iso_path_for_vm(vm_name)?;
        let mut work_dir_name = String::from_str("cloud-init-");
        work_dir_name.append(instance_id);
        let mut meta_data = String::from_str("instance-id: ");
        meta_data.append(instance_id);
        meta_data.append("\n");
        let network_config = match &config.network_config {
            Some(n) => Some(copy_string(n)),
            None => None,
        };
        Ok(CloudInitPlan {
            iso_path,
            work_dir_name,
            user_data: copy_string(&config.user_data),
            meta_data,
            network_config,
        })
    }

    /// The arguments that write the image `iso_path` from the files in `dir`.
    pub fn iso_tool_args(iso_path: &str, dir: &str) -> (r: Vec<String>)
        ensures
            crate::distribution::strings_view(r@) == iso_tool_args_of(iso_path@, dir@),
    {
        let r = vec![
            String::from_str("-output"),
            String::from_str(iso_path),
            String::from_str("-volid"),
            String::from_str("cidata"),
            String::from_str("-joliet"),
            String::from_str("-rock"),
            String::from_str(dir),
        ];
        proof {
            assert(crate::distribution::strings_view(r@) =~= iso_tool_args_of(iso_path@, dir@));
        }
        r
    }

    /// The CD-ROM slot of the cloud-init image: a SATA disk on q35, an IDE disk otherwise.
    pub fn cloud_init_target(chipset: &str) -> (r: (String, String))
        ensures
            chipset@ == "q35"@ ==> r.0@ == "sdb"@ && r.1@ == "sata"@,
            chipset@ != "q35"@ ==> r.0@ == "hdd"@ && r.1@ == "ide"@,
    {
        if crate::text::str_eq(chipset, "q35") {
            (String::from_str("sdb"), String::from_str("sata"))
        } else {
            (String::from_str("hdd"), String::from_str("ide"))
        }
    }

    /// The path of a VM's cloud-init ISO.
    pub fn get_iso_path(vm_name: &str) -> (r: Result<String, AppError>)
        ensures
            match r {
                Ok(p) => valid_iso_vm_name(vm_name@) && p@ == iso_path(vm_name@),
                Err(e) => !valid_iso_vm_name(vm_name@) && e is InvalidConfig,
            },
    {
        Self::iso_path_for_vm(vm_name)
    }

    /// Rejects a path outside the managed directory or without the cloud-init suffix, so
    /// deleting an image can never reach an arbitrary file.
    pub fn check_deletable_iso(iso_path: &str) -> (r: Result<(), AppError>)
        ensures
            r is Ok <==> managed_iso_path(iso_path@),
            r matches Err(e) ==> e is InvalidConfig,
    {
        let in_dir = match parent_of(iso_path) {
            Some(d) => {
                proof {
                    reveal_strlit("/var/lib/libvirt/images");
                }
                paths_equal(d.as_str(), "/var/lib/libvirt/images")
            },
            None => false,
        };
        let named = match file_name_of(iso_path) {
            Some(n) => {
                let nv = chars_of(n.as_str());
                ends_with_str(nv.as_slice(), "-cloud-init.iso")
            },
            None => false,
        };
        let ok = in_dir && named;
        if ok {
            Ok(())
        } else {
            Err(AppError::invalid("Cloud-init ISO path is outside the managed directory"))
        }
    }
}

} // verus!
