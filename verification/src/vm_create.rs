//! Where a new VM's system disk comes from, and whether the chosen storage pool can still
//! hold a new volume for it.
use crate::error::AppError;
use crate::text::str_eq;
use crate::vm::VmService;
use vstd::prelude::*;

verus! {

/// The system disk of a VM being created.
#[derive(Debug)]
pub enum DiskSource {
    /// An existing image, used as it is.
    Existing(String),
    /// A new volume in the storage pool with this id.
    NewVolume(String),
}

impl VmService {
    /// The system disk of a new VM: the existing image for an import (which must be given
    /// and, as `existing_found` says, be on the host), else a new volume in the selected
    /// pool, which must be given.
    pub fn creation_disk_source(
        installation_type: &str,
        existing_disk_path: Option<String>,
        existing_found: bool,
        storage_pool_id: Option<String>,
    ) -> (r: Result<DiskSource, AppError>)
        ensures
            installation_type@ == "import"@ ==> match existing_disk_path {
                None => r matches Err(AppError::InvalidConfig(m)) && m@
                    == "Import installation type requires existing_disk_path"@,
                Some(p) => if existing_found {
                    r matches Ok(DiskSource::Existing(q)) && q@ == p@
                } else {
                    r matches Err(AppError::InvalidConfig(m)) && m@ == "Existing disk image not found: "@ + p@
                },
            },
            installation_type@ != "import"@ ==> match storage_pool_id {
                None => r matches Err(AppError::InvalidConfig(m)) && m@
                    == "Select an active storage pool with enough available capacity"@,
                Some(id) => r matches Ok(DiskSource::NewVolume(q)) && q@ == id@,
            },
    {
        if str_eq(installation_type, "import") {
            match existing_disk_path {
                None => Err(AppError::InvalidConfig(String::from_str("Import installation type requires existing_disk_path"))),
                Some(p) => if existing_found {
                    Ok(DiskSource::Existing(p))
                } else {
                    let mut m = String::from_str("Existing disk image not found: ");
                    m.append(p.as_str());
                    Err(AppError::InvalidConfig(m))
                },
            }
        } else {
            match storage_pool_id {
                None => Err(
                    AppError::InvalidConfig(String::from_str("Select an active storage pool with enough available capacity")),
                ),
                Some(id) => Ok(DiskSource::NewVolume(id)),
            }
        }
    }

    /// The selected pool must still be on the connection and be running.
    pub fn creation_pool_state(found: bool, active: bool) -> (r: Result<(), AppError>)
        ensures
            r is Ok <==> found && active,
            !found ==> (r matches Err(AppError::InvalidConfig(m)) && m@
                == "The selected storage pool is no longer available on this connection"@),
            found && !active ==> (r matches Err(AppError::Unavailable(m)) && m@
                == "The selected storage pool is inactive"@),
    {
        if !found {
            return Err(
                AppError::InvalidConfig(String::from_str("The selected storage pool is no longer available on this connection")),
            );
        }
        if !active {
            return Err(AppError::Unavailable(String::from_str("The selected storage pool is inactive")));
        }
        Ok(())
    }

    /// The selected pool must still have room for a volume of `needed` bytes.
    pub fn creation_capacity(available: u64, needed: u64) -> (r: Result<(), AppError>)
        ensures
            r is Ok <==> available >= needed,
            available < needed ==> (r matches Err(AppError::InvalidConfig(m)) && m@
                == "The selected storage pool no longer has enough available capacity"@),
    {
        if available < needed {
            Err(AppError::InvalidConfig(String::from_str("The selected storage pool no longer has enough available capacity")))
        } else {
            Ok(())
        }
    }
}

} // verus!
