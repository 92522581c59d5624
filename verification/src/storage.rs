//! Storage pools and volumes: which pools can hold a new disk, validated pool and volume
//! definitions, and the summaries read back from libvirt's storage XML.
use crate::error::AppError;
use crate::distribution::strings_view;
use crate::ids::{uuid_parses, uuid_text};
use crate::network::network_char;
use crate::operation::{opt_view, RecoveryAction, RecoveryActionKind};
use crate::text::{
    chars_of, char_is_alnum, char_is_control, dec, fmt_u64, is_alnum, is_blank, is_control, opt_int,
    str_eq, trim,
};
use crate::xml::{
    element_attribute, element_text, escape, escaped_attribute, first_element_attribute,
    first_element_text, identifier_ok, lemma_identifier_is_text, lemma_root_ok_opening, root_ok,
    text_char_ok, text_element, text_ok, validate_document_root, validate_identifier, validate_text,
    xml_text_element,
};
use vstd::prelude::*;

verus! {

/// Storage pool and volume operations.
pub struct StorageService;

#[derive(Clone, Copy, Debug, PartialEq, Eq, Structural)]
pub enum PoolState {
    Active,
    Inactive,
}

#[derive(Clone, Copy, Debug, PartialEq, Eq, Structural)]
pub enum PoolType {
    Dir,
    Fs,
    Netfs,
    Logical,
    Disk,
    Iscsi,
    Scsi,
    Mpath,
    Rbd,
    Sheepdog,
    Gluster,
    Zfs,
}

/// A storage pool of the selected connection.
#[derive(Debug)]
pub struct StoragePool {
    pub id: String,
    pub name: String,
    pub state: PoolState,
    pub pool_type: PoolType,
    pub capacity_bytes: u64,
    pub allocation_bytes: u64,
    pub available_bytes: u64,
    pub path: String,
    pub autostart: bool,
}

pub struct PoolView {
    pub id: Seq<char>,
    pub name: Seq<char>,
    pub state: PoolState,
    pub pool_type: PoolType,
    pub capacity_bytes: u64,
    pub allocation_bytes: u64,
    pub available_bytes: u64,
    pub path: Seq<char>,
    pub autostart: bool,
}

impl View for StoragePool {
    type V = PoolView;

    open spec fn view(&self) -> PoolView {
        PoolView {
            id: self.id@,
            name: self.name@,
            state: self.state,
            pool_type: self.pool_type,
            capacity_bytes: self.capacity_bytes,
            allocation_bytes: self.allocation_bytes,
            available_bytes: self.available_bytes,
            path: self.path@,
            autostart: self.autostart,
        }
    }
}

/// A pool as offered for a new disk: whether it can take it, and why not.
#[derive(Debug)]
pub struct StorageChoice {
    pub id: String,
    pub name: String,
    pub state: PoolState,
    pub pool_type: PoolType,
    pub capacity_bytes: u64,
    pub allocation_bytes: u64,
    pub available_bytes: u64,
    pub autostart: bool,
    pub eligible: bool,
    pub reason: Option<String>,
}

pub struct ChoiceView {
    pub id: Seq<char>,
    pub name: Seq<char>,
    pub state: PoolState,
    pub pool_type: PoolType,
    pub capacity_bytes: u64,
    pub allocation_bytes: u64,
    pub available_bytes: u64,
    pub autostart: bool,
    pub eligible: bool,
    pub reason: Option<Seq<char>>,
}

impl View for StorageChoice {
    type V = ChoiceView;

    open spec fn view(&self) -> ChoiceView {
        ChoiceView {
            id: self.id@,
            name: self.name@,
            state: self.state,
            pool_type: self.pool_type,
            capacity_bytes: self.capacity_bytes,
            allocation_bytes: self.allocation_bytes,
            available_bytes: self.available_bytes,
            autostart: self.autostart,
            eligible: self.eligible,
            reason: opt_view(self.reason),
        }
    }
}

#[derive(Clone, Copy, Debug, PartialEq, Eq, Structural)]
pub enum StorageReadinessState {
    Ready,
    SelectionRequired,
    InsufficientCapacity,
    Unavailable,
}

/// Whether the selected connection has storage for a new disk.
#[derive(Debug)]
pub struct StorageReadiness {
    pub connection_id: String,
    pub required_bytes: Option<u64>,
    pub selected_pool_id: Option<String>,
    pub pools: Vec<StorageChoice>,
    pub state: StorageReadinessState,
    pub recovery_action: Option<RecoveryAction>,
}

/// A volume of a storage pool.
#[derive(Debug)]
pub struct Volume {
    pub name: String,
    pub path: String,
    pub pool_name: String,
    pub capacity_bytes: u64,
    pub allocation_bytes: u64,
    pub format: String,
}

/// A volume to create.
#[derive(Debug)]
pub struct VolumeConfig {
    pub name: String,
    pub capacity_gb: u64,
    pub format: String,
    pub encrypted: bool,
    pub passphrase: Option<String>,
}

/// Whether a volume is encrypted, and how.
#[derive(Debug)]
pub struct VolumeEncryptionInfo {
    pub encrypted: bool,
    pub format: Option<String>,
    pub secret_uuid: Option<String>,
}

/// A storage pool to define.
#[derive(Debug)]
pub struct StoragePoolConfig {
    pub name: String,
    pub pool_type: String,
    pub target_path: String,
    pub autostart: bool,
    pub source_devices: Vec<String>,
    pub source_host: Option<String>,
    pub source_path: Option<String>,
    pub iscsi_target: Option<String>,
    pub initiator_iqn: Option<String>,
    pub gluster_volume: Option<String>,
    pub rbd_pool: Option<String>,
    pub ceph_monitors: Vec<String>,
    pub ceph_auth_user: Option<String>,
    pub ceph_auth_secret: Option<String>,
}

pub open spec fn pools_view(s: Seq<StoragePool>) -> Seq<PoolView> {
    s.map_values(|p: StoragePool| p@)
}

pub open spec fn choices_view(s: Seq<StorageChoice>) -> Seq<ChoiceView> {
    s.map_values(|c: StorageChoice| c@)
}

/// One gibibyte.
pub const GIB: u64 = 1073741824;

// ---------------------------------------------------------------------------
// Pool readiness
// ---------------------------------------------------------------------------

pub open spec fn capacity_ok(p: PoolView, required: Option<u64>) -> bool {
    match required {
        Some(r) => p.available_bytes >= r,
        None => true,
    }
}

/// An active pool with room for the disk (when its size is known).
pub open spec fn choice_eligible(p: PoolView, required: Option<u64>) -> bool {
    p.state == PoolState::Active && capacity_ok(p, required)
}

pub open spec fn choice_reason(p: PoolView, required: Option<u64>) -> Option<Seq<char>> {
    if p.state != PoolState::Active {
        Some("This storage pool is inactive."@)
    } else if !capacity_ok(p, required) {
        Some("This storage pool does not have enough available capacity."@)
    } else {
        None
    }
}

pub open spec fn choice_of(p: PoolView, required: Option<u64>) -> ChoiceView {
    ChoiceView {
        id: p.id,
        name: p.name,
        state: p.state,
        pool_type: p.pool_type,
        capacity_bytes: p.capacity_bytes,
        allocation_bytes: p.allocation_bytes,
        available_bytes: p.available_bytes,
        autostart: p.autostart,
        eligible: choice_eligible(p, required),
        reason: choice_reason(p, required),
    }
}

pub open spec fn any_eligible(pools: Seq<PoolView>, required: Option<u64>) -> bool {
    exists|i: int| 0 <= i < pools.len() && choice_eligible(#[trigger] pools[i], required)
}

pub open spec fn any_active(pools: Seq<PoolView>) -> bool {
    exists|i: int| 0 <= i < pools.len() && (#[trigger] pools[i]).state == PoolState::Active
}

/// Index of the first pool at or after `k` whose id is `id`.
pub open spec fn find_pool_from(pools: Seq<PoolView>, id: Seq<char>, k: int) -> Option<int>
    decreases pools.len() - k,
{
    if k < 0 || k >= pools.len() {
        None
    } else if pools[k].id == id {
        Some(k)
    } else {
        find_pool_from(pools, id, k + 1)
    }
}

/// The selected pool exists and is eligible.
pub open spec fn selection_valid(pools: Seq<PoolView>, required: Option<u64>, selected: Option<Seq<char>>) -> bool {
    match selected {
        Some(id) => match find_pool_from(pools, id, 0) {
            Some(k) => choice_eligible(pools[k], required),
            None => false,
        },
        None => false,
    }
}

pub open spec fn readiness_state(pools: Seq<PoolView>, required: Option<u64>, selected: Option<Seq<char>>) -> StorageReadinessState {
    if selection_valid(pools, required, selected) {
        StorageReadinessState::Ready
    } else if any_eligible(pools, required) {
        StorageReadinessState::SelectionRequired
    } else if any_active(pools) {
        StorageReadinessState::InsufficientCapacity
    } else {
        StorageReadinessState::Unavailable
    }
}

pub open spec fn opt_str_view(o: Option<&str>) -> Option<Seq<char>> {
    match o {
        Some(s) => Some(s@),
        None => None,
    }
}

fn find_pool(pools: &[StoragePool], id: &str) -> (r: Option<usize>)
    ensures
        opt_int(r) == find_pool_from(pools_view(pools@), id@, 0),
        r matches Some(k) ==> k < pools@.len(),
{
    let n = pools.len();
    let mut j: usize = 0;
    while j < n
        invariant
            n == pools@.len(),
            j <= n,
            find_pool_from(pools_view(pools@), id@, 0) == find_pool_from(pools_view(pools@), id@, j as int),
        decreases n - j,
    {
        if str_eq(pools[j].id.as_str(), id) {
            return Some(j);
        }
        j = j + 1;
    }
    None
}

impl StorageService {
    /// Bytes of a disk of `disk_size_gb` gibibytes; zero and sizes past `u64` are refused.
    pub fn disk_bytes(disk_size_gb: u64) -> (r: Result<u64, AppError>)
        ensures
            match r {
                Ok(b) => disk_size_gb > 0 && b == disk_size_gb * GIB,
                Err(e) => (disk_size_gb == 0 || disk_size_gb * GIB > u64::MAX) && e is InvalidConfig,
            },
    {
        if disk_size_gb == 0 {
            return Err(AppError::invalid("Disk size must be greater than zero"));
        }
        match disk_size_gb.checked_mul(GIB) {
            Some(b) => Ok(b),
            None => Err(AppError::invalid("Disk size is too large")),
        }
    }

    /// How `pool` is offered for a disk of `required_bytes`.
    pub fn pool_choice(pool: &StoragePool, required_bytes: Option<u64>) -> (r: StorageChoice)
        ensures
            r@ == choice_of(pool@, required_bytes),
    {
        let active = pool.state == PoolState::Active;
        let capacity = match required_bytes {
            Some(required) => pool.available_bytes >= required,
            None => true,
        };
        let reason = if !active {
            Some(String::from_str("This storage pool is inactive."))
        } else if !capacity {
            Some(String::from_str("This storage pool does not have enough available capacity."))
        } else {
            None
        };
        StorageChoice {
            id: pool.id.clone(),
            name: pool.name.clone(),
            state: pool.state,
            pool_type: pool.pool_type,
            capacity_bytes: pool.capacity_bytes,
            allocation_bytes: pool.allocation_bytes,
            available_bytes: pool.available_bytes,
            autostart: pool.autostart,
            eligible: active && capacity,
            reason,
        }
    }

    /// Whether the connection's pools can take a disk of `required_bytes`, and in which
    /// pool, given the one the user selected.
    pub fn assess_pools(
        connection_id: &str,
        pools: &[StoragePool],
        required_bytes: Option<u64>,
        selected_pool_id: Option<&str>,
    ) -> (r: StorageReadiness)
        ensures
            r.connection_id@ == connection_id@,
            r.required_bytes == required_bytes,
            opt_view(r.selected_pool_id) == opt_str_view(selected_pool_id),
            choices_view(r.pools@) == pools_view(pools@).map_values(
                |p: PoolView| choice_of(p, required_bytes),
            ),
            r.state == readiness_state(pools_view(pools@), required_bytes, opt_str_view(selected_pool_id)),
            match r.recovery_action {
                Some(a) => r.state != StorageReadinessState::Ready && a.kind == (if any_eligible(
                    pools_view(pools@),
                    required_bytes,
                ) {
                    RecoveryActionKind::Reselect
                } else {
                    RecoveryActionKind::Inspect
                }) && a.label@ == (if any_eligible(pools_view(pools@), required_bytes) {
                    "Select an eligible storage pool."@
                } else {
                    "Inspect or create storage for this connection."@
                }) && !a.requires_confirmation && opt_view(a.expected_connection_id) == Some(
                    connection_id@,
                ),
                None => r.state == StorageReadinessState::Ready,
            },
    {
        let ghost pv = pools_view(pools@);
        let n = pools.len();
        let mut choices: Vec<StorageChoice> = Vec::new();
        let mut eligible = false;
        let mut active = false;
        let mut i: usize = 0;
        while i < n
            invariant
                n == pools@.len(),
                pv == pools_view(pools@),
                i <= n,
                choices_view(choices@) == pv.subrange(0, i as int).map_values(
                    |p: PoolView| choice_of(p, required_bytes),
                ),
                eligible == (exists|k: int| 0 <= k < i && choice_eligible(#[trigger] pv[k], required_bytes)),
                active == (exists|k: int| 0 <= k < i && (#[trigger] pv[k]).state == PoolState::Active),
            decreases n - i,
        {
            let c = Self::pool_choice(&pools[i], required_bytes);
            let ghost before = choices@;
            if c.eligible {
                eligible = true;
            }
            if pools[i].state == PoolState::Active {
                active = true;
            }
            choices.push(c);
            proof {
                assert(choices_view(choices@) =~= choices_view(before).push(choice_of(pv[i as int], required_bytes)));
                assert(pv.subrange(0, i as int + 1) =~= pv.subrange(0, i as int).push(pv[i as int]));
                assert(pv.subrange(0, i as int + 1).map_values(|p: PoolView| choice_of(p, required_bytes))
                    =~= pv.subrange(0, i as int).map_values(|p: PoolView| choice_of(p, required_bytes)).push(
                    choice_of(pv[i as int], required_bytes),
                ));
            }
            i = i + 1;
        }
        proof {
            assert(pv.subrange(0, n as int) =~= pv);
        }
        proof {
            assert(choices_view(choices@) == pv.map_values(|p: PoolView| choice_of(p, required_bytes)));
        }
        let selection = match selected_pool_id {
            Some(id) => match find_pool(pools, id) {
                Some(k) => {
                    proof {
                        assert(choices_view(choices@)[k as int] == choices@[k as int]@);
                    }
                    choices[k].eligible
                },
                None => false,
            },
            None => false,
        };
        let state = if selection {
            StorageReadinessState::Ready
        } else if eligible {
            StorageReadinessState::SelectionRequired
        } else if active {
            StorageReadinessState::InsufficientCapacity
        } else {
            StorageReadinessState::Unavailable
        };
        let recovery_action = if state != StorageReadinessState::Ready {
            Some(RecoveryAction {
                kind: if eligible {
                    RecoveryActionKind::Reselect
                } else {
                    RecoveryActionKind::Inspect
                },
                label: if eligible {
                    String::from_str("Select an eligible storage pool.")
                } else {
                    String::from_str("Inspect or create storage for this connection.")
                },
                requires_confirmation: false,
                expected_connection_id: Some(String::from_str(connection_id)),
            })
        } else {
            None
        };
        let selected = match selected_pool_id {
            Some(id) => Some(String::from_str(id)),
            None => None,
        };
        StorageReadiness {
            connection_id: String::from_str(connection_id),
            required_bytes,
            selected_pool_id: selected,
            pools: choices,
            state,
            recovery_action,
        }
    }
}

// ---------------------------------------------------------------------------
// Value rules
// ---------------------------------------------------------------------------

/// A pool, volume, Gluster volume, RBD pool or Ceph user name.
pub open spec fn storage_name_ok(s: Seq<char>) -> bool {
    identifier_ok(s) && forall|i: int| 0 <= i < s.len() ==> network_char(#[trigger] s[i])
}

/// A path or host name: valid text, not blank, without control characters.
pub open spec fn path_ok(s: Seq<char>) -> bool {
    text_ok(s) && trim(s).len() > 0 && forall|i: int| 0 <= i < s.len() ==> !is_control(#[trigger] s[i])
}

pub open spec fn volume_format_ok(f: Seq<char>) -> bool {
    f == "raw"@ || f == "qcow2"@ || f == "qcow"@ || f == "vmdk"@ || f == "vdi"@ || f == "vpc"@
}

fn validate_storage_name(value: &str, field: &str) -> (r: Result<(), AppError>)
    ensures
        r is Ok <==> storage_name_ok(value@),
        r matches Err(e) ==> e is InvalidConfig,
{
    validate_identifier(value, field)?;
    let v = chars_of(value);
    let n = v.len();
    let mut i: usize = 0;
    while i < n
        invariant
            n == v@.len(),
            v@ == value@,
            i <= n,
            forall|j: int| 0 <= j < i ==> network_char(#[trigger] v@[j]),
        decreases n - i,
    {
        let c = v[i];
        if !(char_is_alnum(c) || c == '_' || c == '-' || c == '.') {
            let mut m = String::from_str(field);
            m.append(" contains unsupported characters");
            return Err(AppError::InvalidConfig(m));
        }
        i = i + 1;
    }
    Ok(())
}

fn has_control(value: &str) -> (r: bool)
    ensures
        r == exists|i: int| 0 <= i < value@.len() && is_control(#[trigger] value@[i]),
{
    let v = chars_of(value);
    let n = v.len();
    let mut i: usize = 0;
    while i < n
        invariant
            n == v@.len(),
            v@ == value@,
            i <= n,
            forall|j: int| 0 <= j < i ==> !is_control(#[trigger] v@[j]),
        decreases n - i,
    {
        if char_is_control(v[i]) {
            return true;
        }
        i = i + 1;
    }
    false
}

fn validated_path(value: &str, field: &str) -> (r: Result<String, AppError>)
    ensures
        match r {
            Ok(p) => path_ok(value@) && p@ == value@,
            Err(e) => !path_ok(value@) && e is InvalidConfig,
        },
{
    validate_text(value, field)?;
    if is_blank(value) || has_control(value) {
        let mut m = String::from_str(field);
        m.append(" is invalid");
        return Err(AppError::InvalidConfig(m));
    }
    Ok(String::from_str(value))
}

fn escaped_path(value: &str, field: &str) -> (r: Result<String, AppError>)
    ensures
        match r {
            Ok(p) => path_ok(value@) && p@ == escape(value@),
            Err(e) => !path_ok(value@) && e is InvalidConfig,
        },
{
    let p = validated_path(value, field)?;
    escaped_attribute(p.as_str(), field)
}

fn escaped_host(value: &str) -> (r: Result<String, AppError>)
    ensures
        match r {
            Ok(p) => path_ok(value@) && p@ == escape(value@),
            Err(e) => !path_ok(value@) && e is InvalidConfig,
        },
{
    validate_text(value, "storage host")?;
    if is_blank(value) || has_control(value) {
        return Err(AppError::invalid("Storage host is invalid"));
    }
    escaped_attribute(value, "storage host")
}

fn validate_volume_format(value: &str) -> (r: Result<(), AppError>)
    ensures
        r is Ok <==> volume_format_ok(value@),
        r matches Err(e) ==> e is InvalidConfig,
{
    if str_eq(value, "raw") || str_eq(value, "qcow2") || str_eq(value, "qcow") || str_eq(value, "vmdk")
        || str_eq(value, "vdi") || str_eq(value, "vpc") {
        Ok(())
    } else {
        Err(AppError::invalid("Unsupported volume format"))
    }
}

// ---------------------------------------------------------------------------
// Reading definitions back
// ---------------------------------------------------------------------------

/// The pool type a `type` attribute names; a missing or unknown type reads as a directory.
pub open spec fn pool_type_named(t: Option<Seq<char>>) -> PoolType {
    match t {
        Some(s) => if s == "fs"@ {
            PoolType::Fs
        } else if s == "netfs"@ {
            PoolType::Netfs
        } else if s == "logical"@ {
            PoolType::Logical
        } else if s == "disk"@ {
            PoolType::Disk
        } else if s == "iscsi"@ {
            PoolType::Iscsi
        } else if s == "scsi"@ {
            PoolType::Scsi
        } else if s == "mpath"@ {
            PoolType::Mpath
        } else if s == "rbd"@ {
            PoolType::Rbd
        } else if s == "sheepdog"@ {
            PoolType::Sheepdog
        } else if s == "gluster"@ {
            PoolType::Gluster
        } else if s == "zfs"@ {
            PoolType::Zfs
        } else {
            PoolType::Dir
        },
        None => PoolType::Dir,
    }
}

pub open spec fn pool_path_of(xml: Seq<char>) -> Seq<char> {
    match element_text(xml, "path"@) {
        Some(p) => p,
        None => Seq::empty(),
    }
}

pub open spec fn volume_format_of(xml: Seq<char>) -> Seq<char> {
    match element_attribute(xml, "format"@, "type"@) {
        Some(f) => f,
        None => "raw"@,
    }
}

/// An encryption format as reported: `luks` and `qcow` by name, anything else as `unknown`.
pub open spec fn encryption_format_name(f: Seq<char>) -> Seq<char> {
    if f == "luks"@ || f == "qcow"@ {
        f
    } else {
        "unknown"@
    }
}

impl StorageService {
    /// The type of a pool definition.
    pub fn extract_pool_type(xml: &str) -> (r: Result<PoolType, AppError>)
        ensures
            match r {
                Ok(t) => root_ok(xml@, "pool"@) && t == pool_type_named(element_attribute(xml@, "pool"@, "type"@)),
                Err(e) => !root_ok(xml@, "pool"@) && e is InvalidConfig,
            },
    {
        let t = first_element_attribute(xml, "pool", "pool", "type")?;
        Ok(match t {
            Some(s) => {
                let s = s.as_str();
                if str_eq(s, "fs") {
                    PoolType::Fs
                } else if str_eq(s, "netfs") {
                    PoolType::Netfs
                } else if str_eq(s, "logical") {
                    PoolType::Logical
                } else if str_eq(s, "disk") {
                    PoolType::Disk
                } else if str_eq(s, "iscsi") {
                    PoolType::Iscsi
                } else if str_eq(s, "scsi") {
                    PoolType::Scsi
                } else if str_eq(s, "mpath") {
                    PoolType::Mpath
                } else if str_eq(s, "rbd") {
                    PoolType::Rbd
                } else if str_eq(s, "sheepdog") {
                    PoolType::Sheepdog
                } else if str_eq(s, "gluster") {
                    PoolType::Gluster
                } else if str_eq(s, "zfs") {
                    PoolType::Zfs
                } else {
                    PoolType::Dir
                }
            },
            None => PoolType::Dir,
        })
    }

    /// The target path of a pool definition, empty when it has none.
    pub fn extract_pool_path(xml: &str) -> (r: Result<String, AppError>)
        ensures
            match r {
                Ok(p) => root_ok(xml@, "pool"@) && p@ == pool_path_of(xml@),
                Err(e) => !root_ok(xml@, "pool"@) && e is InvalidConfig,
            },
    {
        match first_element_text(xml, "pool", "path")? {
            Some(p) => Ok(p),
            None => Ok(String::new()),
        }
    }

    /// The summary of a pool from its identity, state, sizes and definition.
    pub fn pool_to_model(
        uuid: String,
        name: String,
        is_active: bool,
        capacity_bytes: u64,
        allocation_bytes: u64,
        available_bytes: u64,
        xml: &str,
        autostart: bool,
    ) -> (r: Result<StoragePool, AppError>)
        ensures
            match r {
                Ok(p) => root_ok(xml@, "pool"@) && p@ == (PoolView {
                    id: uuid@,
                    name: name@,
                    state: if is_active { PoolState::Active } else { PoolState::Inactive },
                    pool_type: pool_type_named(element_attribute(xml@, "pool"@, "type"@)),
                    capacity_bytes,
                    allocation_bytes,
                    available_bytes,
                    path: pool_path_of(xml@),
                    autostart,
                }),
                Err(e) => !root_ok(xml@, "pool"@) && e is InvalidConfig,
            },
    {
        let state = if is_active {
            PoolState::Active
        } else {
            PoolState::Inactive
        };
        let pool_type = Self::extract_pool_type(xml)?;
        let path = Self::extract_pool_path(xml)?;
        Ok(StoragePool {
            id: uuid,
            name,
            state,
            pool_type,
            capacity_bytes,
            allocation_bytes,
            available_bytes,
            path,
            autostart,
        })
    }

    /// The format of a volume definition, `raw` when it names none.
    pub fn extract_volume_format(xml: &str) -> (r: Result<String, AppError>)
        ensures
            match r {
                Ok(f) => root_ok(xml@, "volume"@) && f@ == volume_format_of(xml@),
                Err(e) => !root_ok(xml@, "volume"@) && e is InvalidConfig,
            },
    {
        match first_element_attribute(xml, "volume", "format", "type")? {
            Some(f) => Ok(f),
            None => Ok(String::from_str("raw")),
        }
    }

    /// The summary of a volume from its identity, sizes and definition.
    pub fn volume_to_model(
        name: String,
        path: String,
        pool_name: &str,
        capacity_bytes: u64,
        allocation_bytes: u64,
        xml: &str,
    ) -> (r: Result<Volume, AppError>)
        ensures
            match r {
                Ok(v) => root_ok(xml@, "volume"@) && v.name@ == name@ && v.path@ == path@ && v.pool_name@
                    == pool_name@ && v.capacity_bytes == capacity_bytes && v.allocation_bytes
                    == allocation_bytes && v.format@ == volume_format_of(xml@),
                Err(e) => !root_ok(xml@, "volume"@) && e is InvalidConfig,
            },
    {
        let format = Self::extract_volume_format(xml)?;
        Ok(Volume {
            name,
            path,
            pool_name: String::from_str(pool_name),
            capacity_bytes,
            allocation_bytes,
            format,
        })
    }

    /// Whether the volume a definition describes is encrypted, in which format and with
    /// which secret.
    pub fn encryption_info(xml: &str) -> (r: Result<VolumeEncryptionInfo, AppError>)
        ensures
            match r {
                Ok(i) => root_ok(xml@, "volume"@) && i.encrypted == element_attribute(
                    xml@,
                    "encryption"@,
                    "format"@,
                ) is Some && opt_view(i.format) == (match element_attribute(
                    xml@,
                    "encryption"@,
                    "format"@,
                ) {
                    Some(f) => Some(encryption_format_name(f)),
                    None => None,
                }) && opt_view(i.secret_uuid) == element_attribute(xml@, "secret"@, "uuid"@),
                Err(e) => !root_ok(xml@, "volume"@) && e is InvalidConfig,
            },
    {
        let format = first_element_attribute(xml, "volume", "encryption", "format")?;
        let encrypted = format.is_some();
        let format = match format {
            Some(v) => if str_eq(v.as_str(), "luks") || str_eq(v.as_str(), "qcow") {
                Some(v)
            } else {
                Some(String::from_str("unknown"))
            },
            None => None,
        };
        let secret_uuid = first_element_attribute(xml, "volume", "secret", "uuid")?;
        Ok(VolumeEncryptionInfo { encrypted, format, secret_uuid })
    }
}

// ---------------------------------------------------------------------------
// Volumes
// ---------------------------------------------------------------------------

/// Bytes of the UTF-8 encoding of `s` (`str::len`).
pub open spec fn byte_len(s: Seq<char>) -> nat {
    vstd::utf8::encode_utf8(s).len()
}

/// The volume definition libvirt is given, or `None` when the name, the format or the
/// secret identifier is rejected.
pub open spec fn volume_xml(name: Seq<char>, format: Seq<char>, capacity_bytes: u64, secret_uuid: Option<Seq<char>>) -> Option<Seq<char>> {
    if !storage_name_ok(name) || !volume_format_ok(format) {
        None
    } else {
        let encryption = match secret_uuid {
            Some(u) => if uuid_text(u) {
                Some(
                    "\n    <encryption format='luks'><secret type='passphrase' uuid='"@ + u
                        + "'/></encryption>"@,
                )
            } else {
                None
            },
            None => Some(Seq::empty()),
        };
        match encryption {
            Some(enc) => Some(
                "<volume>\n  "@ + text_element("name"@, name) + "\n  <capacity unit='bytes'>"@ + dec(
                    capacity_bytes as nat,
                ) + "</capacity>\n  <target>\n    <format type='"@ + format + "'/>"@ + enc
                    + "\n  </target>\n</volume>"@,
            ),
            None => None,
        }
    }
}

/// The libvirt secret that holds the passphrase of an encrypted volume.
pub open spec fn volume_secret_xml(volume_name: Seq<char>, secret_uuid: Seq<char>) -> Option<Seq<char>> {
    if !storage_name_ok(volume_name) || !uuid_text(secret_uuid) {
        None
    } else {
        Some(
            "<secret ephemeral='no' private='yes'><uuid>"@ + secret_uuid + "</uuid>"@ + text_element(
                "description"@,
                "LUKS passphrase for volume "@ + volume_name,
            ) + "<usage type='volume'>"@ + text_element("volume"@, volume_name)
                + "</usage></secret>"@,
        )
    }
}

/// A volume request is acceptable: its capacity fits `u64` bytes, and an encrypted
/// volume comes with a passphrase of at least eight bytes.
pub open spec fn volume_request_ok(capacity_gb: u64, encrypted: bool, passphrase: Option<Seq<char>>) -> bool {
    capacity_gb * GIB <= u64::MAX && (encrypted ==> match passphrase {
        Some(p) => byte_len(p) >= 8,
        None => false,
    })
}

/// The volume format a file is uploaded as: the requested one, else the one its
/// extension names.
pub open spec fn format_for_extension(ext: Option<Seq<char>>) -> Seq<char> {
    match ext {
        Some(e) => if e == "qcow2"@ {
            "qcow2"@
        } else if e == "vmdk"@ {
            "vmdk"@
        } else if e == "vdi"@ {
            "vdi"@
        } else if e == "vpc"@ || e == "vhd"@ {
            "vpc"@
        } else {
            "raw"@
        },
        None => "raw"@,
    }
}

/// The extension of a path, as `std::path::Path::extension` reads it.
pub uninterp spec fn path_extension(p: Seq<char>) -> Option<Seq<char>>;

/// `Path::new(p).extension()`, as text. A `&str` path has a UTF-8 extension, so the
/// conversion back to text never fails; which part of the path counts as the extension
/// is `Path`'s rule and is not stated here.
#[verifier::external_body]
pub(crate) fn extension_of(p: &str) -> (r: Option<String>)
    ensures
        opt_view(r) == path_extension(p@),
{
    std::path::Path::new(p).extension().and_then(|e| e.to_str()).map(|e| e.to_string())
}

impl StorageService {
    /// Checks a volume request and returns its capacity in bytes.
    pub fn check_volume_request(config: &VolumeConfig) -> (r: Result<u64, AppError>)
        ensures
            match r {
                Ok(b) => volume_request_ok(config.capacity_gb, config.encrypted, opt_view(config.passphrase))
                    && b == config.capacity_gb * GIB,
                Err(e) => !volume_request_ok(config.capacity_gb, config.encrypted, opt_view(config.passphrase))
                    && e is InvalidConfig,
            },
    {
        let capacity_bytes = match config.capacity_gb.checked_mul(GIB) {
            Some(b) => b,
            None => {
                return Err(AppError::invalid("Volume capacity is too large"));
            },
        };
        if config.encrypted {
            match &config.passphrase {
                None => {
                    return Err(AppError::invalid("Passphrase required for encrypted volume"));
                },
                Some(p) => {
                    let bytes = p.as_str().as_bytes();
                    let n = bytes.len();
                    if n < 8 {
                        return Err(AppError::invalid("Passphrase must be at least 8 characters"));
                    }
                },
            }
        }
        Ok(capacity_bytes)
    }

    /// The error a failed volume creation reports, once the secret created for it has been
    /// removed (or not).
    pub fn creation_failure(secret_removed: bool) -> (e: AppError)
        ensures
            secret_removed ==> e is LibvirtError,
            !secret_removed ==> e is Partial,
    {
        if secret_removed {
            AppError::LibvirtError(String::from_str("Storage volume creation failed"))
        } else {
            AppError::Partial(
                String::from_str("Storage volume creation failed after creating an encryption secret"),
            )
        }
    }

    /// The error a volume whose path could not be read reports, once the volume and its
    /// secret have been removed (or not).
    pub fn finalization_failure(volume_removed: bool, secret_removed: bool) -> (e: AppError)
        ensures
            volume_removed && secret_removed ==> e is LibvirtError,
            !(volume_removed && secret_removed) ==> e is Partial,
    {
        if volume_removed && secret_removed {
            AppError::LibvirtError(String::from_str("Storage volume could not be finalized"))
        } else {
            AppError::Partial(
                String::from_str("Storage volume finalization left resources that require inspection"),
            )
        }
    }

    /// The volume definition for `config`, of `capacity_bytes` bytes, encrypted with the
    /// secret `secret_uuid` when one is given.
    pub fn volume_definition(config: &VolumeConfig, capacity_bytes: u64, secret_uuid: Option<&str>) -> (r:
        Result<String, AppError>)
        ensures
            match r {
                Ok(x) => volume_xml(config.name@, config.format@, capacity_bytes, opt_str_view(secret_uuid))
                    == Some(x@),
                Err(e) => volume_xml(config.name@, config.format@, capacity_bytes, opt_str_view(secret_uuid))
                    is None && e is InvalidConfig,
            },
    {
        validate_storage_name(config.name.as_str(), "volume name")?;
        validate_volume_format(config.format.as_str())?;
        proof {
            lemma_identifier_is_text(config.name@);
        }
        let mut xml = String::from_str("<volume>\n  ");
        let name_element = xml_text_element("name", config.name.as_str())?;
        xml.append(name_element.as_str());
        xml.append("\n  <capacity unit='bytes'>");
        let cap = fmt_u64(capacity_bytes);
        xml.append(cap.as_str());
        xml.append("</capacity>\n  <target>\n    <format type='");
        xml.append(config.format.as_str());
        xml.append("'/>");
        let mut enc = String::new();
        if let Some(u) = secret_uuid {
            if !uuid_parses(u) {
                return Err(AppError::invalid("Encryption secret identifier is invalid"));
            }
            enc.append("\n    <encryption format='luks'><secret type='passphrase' uuid='");
            enc.append(u);
            enc.append("'/></encryption>");
        }
        xml.append(enc.as_str());
        xml.append("\n  </target>\n</volume>");
        proof {
            reveal_strlit("<volume>\n  ");
            reveal_strlit("volume");
            assert(xml@.subrange(1, 7) =~= "volume"@);
            lemma_root_ok_opening(xml@, "volume"@);
        }
        validate_document_root(xml.as_str(), "volume")?;
        Ok(xml)
    }

    /// The definition of the secret that holds the passphrase of volume `volume_name`.
    pub fn volume_secret_definition(volume_name: &str, secret_uuid: &str) -> (r: Result<String, AppError>)
        ensures
            match r {
                Ok(x) => volume_secret_xml(volume_name@, secret_uuid@) == Some(x@),
                Err(e) => volume_secret_xml(volume_name@, secret_uuid@) is None && e is InvalidConfig,
            },
    {
        validate_storage_name(volume_name, "volume name")?;
        if !uuid_parses(secret_uuid) {
            return Err(AppError::invalid("Encryption secret identifier is invalid"));
        }
        proof {
            lemma_identifier_is_text(volume_name@);
        }
        let volume = xml_text_element("volume", volume_name)?;
        let mut text = String::from_str("LUKS passphrase for volume ");
        text.append(volume_name);
        proof {
            reveal_strlit("LUKS passphrase for volume ");
            assert forall|i: int| 0 <= i < text@.len() implies text_char_ok(#[trigger] text@[i]) by {
                if i >= 27 {
                    assert(text@[i] == volume_name@[i - 27]);
                }
            }
        }
        let description = xml_text_element("description", text.as_str())?;
        let mut xml = String::from_str("<secret ephemeral='no' private='yes'><uuid>");
        xml.append(secret_uuid);
        xml.append("</uuid>");
        xml.append(description.as_str());
        xml.append("<usage type='volume'>");
        xml.append(volume.as_str());
        xml.append("</usage></secret>");
        proof {
            reveal_strlit("<secret ephemeral='no' private='yes'><uuid>");
            reveal_strlit("secret");
            assert(xml@.subrange(1, 7) =~= "secret"@);
            lemma_root_ok_opening(xml@, "secret"@);
        }
        validate_document_root(xml.as_str(), "secret")?;
        Ok(xml)
    }

    /// The new size in bytes of a volume that grows to `new_capacity_gb` gibibytes; the new
    /// size must exceed the current one in whole gibibytes.
    pub fn resize_target(current_capacity_bytes: u64, new_capacity_gb: u64) -> (r: Result<u64, AppError>)
        requires
            new_capacity_gb * GIB <= u64::MAX,
        ensures
            match r {
                Ok(b) => new_capacity_gb > current_capacity_bytes / GIB && b == new_capacity_gb * GIB,
                Err(e) => new_capacity_gb <= current_capacity_bytes / GIB && e is InvalidConfig,
            },
    {
        let current_capacity_gb = current_capacity_bytes / GIB;
        if new_capacity_gb <= current_capacity_gb {
            let mut m = String::from_str("New capacity (");
            let a = fmt_u64(new_capacity_gb);
            m.append(a.as_str());
            m.append("GB) must be greater than current capacity (");
            let b = fmt_u64(current_capacity_gb);
            m.append(b.as_str());
            m.append("GB)");
            return Err(AppError::InvalidConfig(m));
        }
        Ok(new_capacity_gb * GIB)
    }

    /// Whether a file of `file_size` bytes may be imported into a pool: the pool must be
    /// active, have room for it, and not hold a volume of that name already.
    pub fn upload_admission(pool_active: bool, available: u64, file_size: u64, name_taken: bool) -> (r: Result<
        (),
        AppError,
    >)
        ensures
            r is Ok <==> pool_active && available >= file_size && !name_taken,
            !pool_active ==> (r matches Err(AppError::Unavailable(m)) && m@ == "The selected storage pool is inactive"@),
            pool_active && available < file_size ==> (r matches Err(AppError::InvalidConfig(m)) && m@
                == "The selected storage pool does not have enough available capacity"@),
            pool_active && available >= file_size && name_taken ==> (r matches Err(AppError::InvalidConfig(m)) && m@
                == "A volume with that name already exists in the selected pool"@),
    {
        if !pool_active {
            return Err(AppError::Unavailable(String::from_str("The selected storage pool is inactive")));
        }
        if available < file_size {
            return Err(
                AppError::InvalidConfig(String::from_str("The selected storage pool does not have enough available capacity")),
            );
        }
        if name_taken {
            return Err(
                AppError::InvalidConfig(String::from_str("A volume with that name already exists in the selected pool")),
            );
        }
        Ok(())
    }

    /// The error a failed import reports once the new volume was deleted (or not): the
    /// transfer's own error (or, when the upload never started, that it could not start)
    /// when it was deleted, else an error that asks for inspection.
    pub fn upload_failure(transfer_error: Option<AppError>, volume_removed: bool) -> (e: AppError)
        ensures
            volume_removed && transfer_error is Some ==> Some(e) == transfer_error,
            volume_removed && transfer_error is None ==> (e matches AppError::LibvirtError(m) && m@
                == "The volume upload could not be started"@),
            !volume_removed ==> (e matches AppError::Partial(m) && m@
                == "The failed import left a volume that requires inspection"@),
    {
        if !volume_removed {
            return AppError::Partial(String::from_str("The failed import left a volume that requires inspection"));
        }
        match transfer_error {
            Some(e) => e,
            None => AppError::LibvirtError(String::from_str("The volume upload could not be started")),
        }
    }

    /// The format a file is uploaded as.
    pub fn upload_format(format: Option<&str>, source_path: &str) -> (r: String)
        ensures
            r@ == match format {
                Some(f) => f@,
                None => format_for_extension(path_extension(source_path@)),
            },
    {
        match format {
            Some(f) => String::from_str(f),
            None => {
                let ext = extension_of(source_path);
                match ext {
                    Some(e) => {
                        let e = e.as_str();
                        if str_eq(e, "qcow2") {
                            String::from_str("qcow2")
                        } else if str_eq(e, "vmdk") {
                            String::from_str("vmdk")
                        } else if str_eq(e, "vdi") {
                            String::from_str("vdi")
                        } else if str_eq(e, "vpc") || str_eq(e, "vhd") {
                            String::from_str("vpc")
                        } else {
                            String::from_str("raw")
                        }
                    },
                    None => String::from_str("raw"),
                }
            },
        }
    }
}

// ---------------------------------------------------------------------------
// Pool definitions
// ---------------------------------------------------------------------------

pub struct PoolConfigView {
    pub name: Seq<char>,
    pub pool_type: Seq<char>,
    pub target_path: Seq<char>,
    pub source_devices: Seq<Seq<char>>,
    pub source_host: Option<Seq<char>>,
    pub source_path: Option<Seq<char>>,
    pub iscsi_target: Option<Seq<char>>,
    pub initiator_iqn: Option<Seq<char>>,
    pub gluster_volume: Option<Seq<char>>,
    pub rbd_pool: Option<Seq<char>>,
    pub ceph_monitors: Seq<Seq<char>>,
    pub ceph_auth_user: Option<Seq<char>>,
    pub ceph_auth_secret: Option<Seq<char>>,
    pub autostart: bool,
}

impl View for StoragePoolConfig {
    type V = PoolConfigView;

    open spec fn view(&self) -> PoolConfigView {
        PoolConfigView {
            name: self.name@,
            pool_type: self.pool_type@,
            target_path: self.target_path@,
            source_devices: strings_view(self.source_devices@),
            source_host: opt_view(self.source_host),
            source_path: opt_view(self.source_path),
            iscsi_target: opt_view(self.iscsi_target),
            initiator_iqn: opt_view(self.initiator_iqn),
            gluster_volume: opt_view(self.gluster_volume),
            rbd_pool: opt_view(self.rbd_pool),
            ceph_monitors: strings_view(self.ceph_monitors@),
            ceph_auth_user: opt_view(self.ceph_auth_user),
            ceph_auth_secret: opt_view(self.ceph_auth_secret),
            autostart: self.autostart,
        }
    }
}

/// `<source>..</source>` around a non-empty source description.
pub open spec fn source_block(source: Seq<char>) -> Seq<char> {
    if source.len() > 0 {
        "<source>"@ + source + "</source>"@
    } else {
        Seq::empty()
    }
}

/// A pool document of type `ty` with the given source, and a target path where the type
/// needs one; `None` when the name or the target path is rejected.
pub open spec fn pool_doc(ty: Seq<char>, c: PoolConfigView, source: Seq<char>, requires_target: bool) -> Option<Seq<char>> {
    if !storage_name_ok(c.name) || (requires_target && !path_ok(c.target_path)) {
        None
    } else {
        Some(
            "<pool type='"@ + ty + "'>"@ + text_element("name"@, c.name) + source_block(source) + (
            if requires_target {
                "<target>"@ + text_element("path"@, c.target_path) + "</target>"@
            } else {
                Seq::empty()
            }) + "</pool>"@,
        )
    }
}

/// One empty element per path, `open` followed by the escaped path, e.g.
/// `<device path='..'/>`; `None` when a path is rejected.
pub open spec fn path_elements(paths: Seq<Seq<char>>, open: Seq<char>) -> Option<Seq<char>>
    decreases paths.len(),
{
    if paths.len() == 0 {
        Some(Seq::empty())
    } else {
        match path_elements(paths.drop_last(), open) {
            Some(before) => if path_ok(paths.last()) {
                Some(before + open + escape(paths.last()) + "'/>"@)
            } else {
                None
            },
            None => None,
        }
    }
}

pub open spec fn logical_pool_xml(c: PoolConfigView) -> Option<Seq<char>> {
    if c.source_devices.len() == 0 {
        None
    } else {
        match path_elements(c.source_devices, "<device path='"@) {
            Some(src) => pool_doc("logical"@, c, src, true),
            None => None,
        }
    }
}

pub open spec fn netfs_pool_xml(c: PoolConfigView) -> Option<Seq<char>> {
    match (c.source_host, c.source_path) {
        (Some(h), Some(p)) => if path_ok(h) && path_ok(p) {
            pool_doc(
                "netfs"@,
                c,
                "<host name='"@ + escape(h) + "'/><dir path='"@ + escape(p) + "'/><format type='nfs'/>"@,
                true,
            )
        } else {
            None
        },
        _ => None,
    }
}

pub open spec fn iscsi_pool_xml(c: PoolConfigView) -> Option<Seq<char>> {
    match (c.source_host, c.iscsi_target) {
        (Some(h), Some(t)) => if path_ok(h) && path_ok(t) {
            let initiator = match c.initiator_iqn {
                Some(q) => if text_ok(q) {
                    Some("<initiator><iqn name='"@ + escape(q) + "'/></initiator>"@)
                } else {
                    None
                },
                None => Some(Seq::empty()),
            };
            match initiator {
                Some(i) => pool_doc(
                    "iscsi"@,
                    c,
                    "<host name='"@ + escape(h) + "'/><device path='"@ + escape(t) + "'/>"@ + i,
                    true,
                ),
                None => None,
            }
        } else {
            None
        },
        _ => None,
    }
}

pub open spec fn gluster_pool_xml(c: PoolConfigView) -> Option<Seq<char>> {
    match (c.source_host, c.gluster_volume) {
        (Some(h), Some(v)) => if path_ok(h) && storage_name_ok(v) {
            let dir = match c.source_path {
                Some(p) => if p.len() == 0 {
                    Some(Seq::empty())
                } else if path_ok(p) {
                    Some("<dir path='"@ + escape(p) + "'/>"@)
                } else {
                    None
                },
                None => Some(Seq::empty()),
            };
            match dir {
                Some(d) => pool_doc(
                    "gluster"@,
                    c,
                    "<host name='"@ + escape(h) + "'/>"@ + text_element("name"@, v) + d,
                    false,
                ),
                None => None,
            }
        } else {
            None
        },
        _ => None,
    }
}

/// The `<auth>` element of an RBD pool; `None` for a secret without a user, or an invalid
/// user or secret identifier.
pub open spec fn ceph_auth_xml(user: Option<Seq<char>>, secret: Option<Seq<char>>) -> Option<Seq<char>> {
    match (user, secret) {
        (Some(u), Some(s)) => if storage_name_ok(u) && uuid_text(s) {
            Some("<auth type='ceph' username='"@ + u + "'><secret uuid='"@ + s + "'/></auth>"@)
        } else {
            None
        },
        (Some(u), None) => if storage_name_ok(u) {
            Some("<auth type='ceph' username='"@ + u + "'/>"@)
        } else {
            None
        },
        (None, Some(_)) => None,
        (None, None) => Some(Seq::empty()),
    }
}

pub open spec fn rbd_pool_xml(c: PoolConfigView) -> Option<Seq<char>> {
    match c.rbd_pool {
        Some(rp) => if c.ceph_monitors.len() == 0 || !storage_name_ok(rp) || !storage_name_ok(c.name) {
            None
        } else {
            match (path_elements(c.ceph_monitors, "<host name='"@), ceph_auth_xml(c.ceph_auth_user, c.ceph_auth_secret)) {
                (Some(hosts), Some(auth)) => Some(
                    "<pool type='rbd'>"@ + text_element("name"@, c.name) + "<source>"@ + hosts
                        + text_element("name"@, rp) + "</source>"@ + auth + "</pool>"@,
                ),
                _ => None,
            }
        },
        None => None,
    }
}

/// The pool definition libvirt is given for `c`, or `None` when `c` is rejected.
pub open spec fn pool_xml(c: PoolConfigView) -> Option<Seq<char>> {
    if c.pool_type == "dir"@ {
        pool_doc("dir"@, c, Seq::empty(), true)
    } else if c.pool_type == "logical"@ {
        logical_pool_xml(c)
    } else if c.pool_type == "netfs"@ {
        netfs_pool_xml(c)
    } else if c.pool_type == "iscsi"@ {
        iscsi_pool_xml(c)
    } else if c.pool_type == "gluster"@ {
        gluster_pool_xml(c)
    } else if c.pool_type == "rbd"@ {
        rbd_pool_xml(c)
    } else {
        None
    }
}

/// Appends one `open` + escaped path + `'/>` element per path.
fn push_path_elements(out: &mut String, paths: &Vec<String>, open: &str, field: &str) -> (r: Result<(), AppError>)
    ensures
        match r {
            Ok(()) => path_elements(strings_view(paths@), open@) matches Some(x) && final(out)@ == old(out)@ + x,
            Err(e) => path_elements(strings_view(paths@), open@) is None && e is InvalidConfig,
        },
{
    let ghost start = out@;
    let n = paths.len();
    let mut i: usize = 0;
    while i < n
        invariant
            n == paths@.len(),
            i <= n,
            path_elements(strings_view(paths@).subrange(0, i as int), open@) matches Some(x) && out@ == start + x,
        decreases n - i,
    {
        let ghost sub = strings_view(paths@).subrange(0, i as int + 1);
        proof {
            assert(sub.drop_last() =~= strings_view(paths@).subrange(0, i as int));
            assert(sub.last() == paths@[i as int]@);
        }
        let e = match escaped_path(paths[i].as_str(), field) {
            Ok(e) => e,
            Err(err) => {
                proof {
                    lemma_path_elements_none(strings_view(paths@), open@, i as int + 1);
                }
                return Err(err);
            },
        };
        out.append(open);
        out.append(e.as_str());
        out.append("'/>");
        i = i + 1;
    }
    proof {
        assert(strings_view(paths@).subrange(0, n as int) =~= strings_view(paths@));
    }
    Ok(())
}

/// A rejected path keeps every longer list rejected.
proof fn lemma_path_elements_none(paths: Seq<Seq<char>>, open: Seq<char>, k: int)
    requires
        0 < k <= paths.len(),
        path_elements(paths.subrange(0, k), open) is None,
    ensures
        path_elements(paths, open) is None,
    decreases paths.len() - k,
{
    if k < paths.len() {
        let next = paths.subrange(0, k + 1);
        assert(next.drop_last() =~= paths.subrange(0, k));
        lemma_path_elements_none(paths, open, k + 1);
    } else {
        assert(paths.subrange(0, k) =~= paths);
    }
}

impl StorageService {
    fn pool_document(pool_type: &str, config: &StoragePoolConfig, source: String, requires_target: bool) -> (r:
        Result<String, AppError>)
        ensures
            match r {
                Ok(x) => pool_doc(pool_type@, config@, source@, requires_target) == Some(x@),
                Err(e) => pool_doc(pool_type@, config@, source@, requires_target) is None && e is InvalidConfig,
            },
    {
        validate_storage_name(config.name.as_str(), "storage pool name")?;
        proof {
            lemma_identifier_is_text(config.name@);
        }
        let name_element = xml_text_element("name", config.name.as_str())?;
        let mut xml = String::from_str("<pool type='");
        xml.append(pool_type);
        xml.append("'>");
        xml.append(name_element.as_str());
        let ghost head = xml@;
        let mut src = String::new();
        if !source.as_str().is_empty() {
            src.append("<source>");
            src.append(source.as_str());
            src.append("</source>");
        }
        xml.append(src.as_str());
        let mut target = String::new();
        if requires_target {
            if is_blank(config.target_path.as_str()) {
                return Err(AppError::invalid("Storage pool target path is required"));
            }
            let path = validated_path(config.target_path.as_str(), "storage pool target path")?;
            let element = xml_text_element("path", path.as_str())?;
            target.append("<target>");
            target.append(element.as_str());
            target.append("</target>");
        }
        xml.append(target.as_str());
        xml.append("</pool>");
        proof {
            assert(src@ == source_block(source@));
            assert(xml@ =~= head + source_block(source@) + target@ + "</pool>"@);
            reveal_strlit("<pool type='");
            reveal_strlit("pool");
            assert(xml@.subrange(1, 5) =~= "pool"@);
            lemma_root_ok_opening(xml@, "pool"@);
        }
        validate_document_root(xml.as_str(), "pool")?;
        Ok(xml)
    }
}

impl StorageService {
    /// The definition of a storage pool, after every value has been validated.
    pub fn pool_definition(config: &StoragePoolConfig) -> (r: Result<String, AppError>)
        ensures
            match r {
                Ok(x) => pool_xml(config@) == Some(x@),
                Err(e) => pool_xml(config@) is None && e is InvalidConfig,
            },
    {
        let t = config.pool_type.as_str();
        if str_eq(t, "dir") {
            Self::pool_document("dir", config, String::new(), true)
        } else if str_eq(t, "logical") {
            Self::build_logical_pool_xml(config)
        } else if str_eq(t, "netfs") {
            Self::build_netfs_pool_xml(config)
        } else if str_eq(t, "iscsi") {
            Self::build_iscsi_pool_xml(config)
        } else if str_eq(t, "gluster") {
            Self::build_gluster_pool_xml(config)
        } else if str_eq(t, "rbd") {
            Self::build_rbd_pool_xml(config)
        } else {
            let mut m = String::from_str("Unsupported pool type: ");
            m.append(t);
            Err(AppError::InvalidConfig(m))
        }
    }

    fn build_logical_pool_xml(config: &StoragePoolConfig) -> (r: Result<String, AppError>)
        ensures
            match r {
                Ok(x) => logical_pool_xml(config@) == Some(x@),
                Err(e) => logical_pool_xml(config@) is None && e is InvalidConfig,
            },
    {
        if config.source_devices.len() == 0 {
            return Err(AppError::invalid("Logical pool requires at least one source device"));
        }
        let mut source = String::new();
        push_path_elements(&mut source, &config.source_devices, "<device path='", "source device")?;
        Self::pool_document("logical", config, source, true)
    }

    fn build_netfs_pool_xml(config: &StoragePoolConfig) -> (r: Result<String, AppError>)
        ensures
            match r {
                Ok(x) => netfs_pool_xml(config@) == Some(x@),
                Err(e) => netfs_pool_xml(config@) is None && e is InvalidConfig,
            },
    {
        let host = match &config.source_host {
            Some(h) => h,
            None => {
                return Err(AppError::invalid("Network pool requires source_host"));
            },
        };
        let source_path = match &config.source_path {
            Some(p) => p,
            None => {
                return Err(AppError::invalid("Network pool requires source_path"));
            },
        };
        let h = escaped_host(host.as_str())?;
        let p = escaped_path(source_path.as_str(), "network source path")?;
        let mut source = String::from_str("<host name='");
        source.append(h.as_str());
        source.append("'/><dir path='");
        source.append(p.as_str());
        source.append("'/><format type='nfs'/>");
        Self::pool_document("netfs", config, source, true)
    }

    fn build_iscsi_pool_xml(config: &StoragePoolConfig) -> (r: Result<String, AppError>)
        ensures
            match r {
                Ok(x) => iscsi_pool_xml(config@) == Some(x@),
                Err(e) => iscsi_pool_xml(config@) is None && e is InvalidConfig,
            },
    {
        let host = match &config.source_host {
            Some(h) => h,
            None => {
                return Err(AppError::invalid("iSCSI pool requires source_host"));
            },
        };
        let target = match &config.iscsi_target {
            Some(t) => t,
            None => {
                return Err(AppError::invalid("iSCSI pool requires iscsi_target"));
            },
        };
        let h = escaped_host(host.as_str())?;
        let t = escaped_path(target.as_str(), "iSCSI target")?;
        let mut source = String::from_str("<host name='");
        source.append(h.as_str());
        source.append("'/><device path='");
        source.append(t.as_str());
        source.append("'/>");
        let ghost base = source@;
        let mut initiator = String::new();
        if let Some(iqn) = &config.initiator_iqn {
            validate_text(iqn.as_str(), "iSCSI initiator")?;
            let q = escaped_attribute(iqn.as_str(), "iSCSI initiator")?;
            initiator.append("<initiator><iqn name='");
            initiator.append(q.as_str());
            initiator.append("'/></initiator>");
        }
        source.append(initiator.as_str());
        proof {
            assert(source@ =~= base + initiator@);
        }
        Self::pool_document("iscsi", config, source, true)
    }

    fn build_gluster_pool_xml(config: &StoragePoolConfig) -> (r: Result<String, AppError>)
        ensures
            match r {
                Ok(x) => gluster_pool_xml(config@) == Some(x@),
                Err(e) => gluster_pool_xml(config@) is None && e is InvalidConfig,
            },
    {
        let host = match &config.source_host {
            Some(h) => h,
            None => {
                return Err(AppError::invalid("Gluster pool requires source_host"));
            },
        };
        let volume = match &config.gluster_volume {
            Some(v) => v,
            None => {
                return Err(AppError::invalid("Gluster pool requires gluster_volume"));
            },
        };
        validate_storage_name(volume.as_str(), "Gluster volume")?;
        proof {
            lemma_identifier_is_text(volume@);
        }
        let h = escaped_host(host.as_str())?;
        let name = xml_text_element("name", volume.as_str())?;
        let mut source = String::from_str("<host name='");
        source.append(h.as_str());
        source.append("'/>");
        source.append(name.as_str());
        let ghost base = source@;
        let mut dir = String::new();
        if let Some(path) = &config.source_path {
            if !path.as_str().is_empty() {
                let p = escaped_path(path.as_str(), "Gluster directory")?;
                dir.append("<dir path='");
                dir.append(p.as_str());
                dir.append("'/>");
            }
        }
        source.append(dir.as_str());
        proof {
            assert(source@ =~= base + dir@);
        }
        Self::pool_document("gluster", config, source, false)
    }

    fn ceph_auth(config: &StoragePoolConfig) -> (r: Result<String, AppError>)
        ensures
            match r {
                Ok(x) => ceph_auth_xml(config@.ceph_auth_user, config@.ceph_auth_secret) == Some(x@),
                Err(e) => ceph_auth_xml(config@.ceph_auth_user, config@.ceph_auth_secret) is None && e is InvalidConfig,
            },
    {
        match (&config.ceph_auth_user, &config.ceph_auth_secret) {
            (Some(user), Some(secret)) => {
                validate_storage_name(user.as_str(), "Ceph auth user")?;
                if !uuid_parses(secret.as_str()) {
                    return Err(AppError::invalid("Ceph authentication secret identifier is invalid"));
                }
                let mut a = String::from_str("<auth type='ceph' username='");
                a.append(user.as_str());
                a.append("'><secret uuid='");
                a.append(secret.as_str());
                a.append("'/></auth>");
                Ok(a)
            },
            (Some(user), None) => {
                validate_storage_name(user.as_str(), "Ceph auth user")?;
                let mut a = String::from_str("<auth type='ceph' username='");
                a.append(user.as_str());
                a.append("'/>");
                Ok(a)
            },
            (None, Some(_)) => Err(AppError::invalid("Ceph auth user is required with a secret")),
            (None, None) => Ok(String::new()),
        }
    }

    fn build_rbd_pool_xml(config: &StoragePoolConfig) -> (r: Result<String, AppError>)
        ensures
            match r {
                Ok(x) => rbd_pool_xml(config@) == Some(x@),
                Err(e) => rbd_pool_xml(config@) is None && e is InvalidConfig,
            },
    {
        let rbd_pool = match &config.rbd_pool {
            Some(p) => p,
            None => {
                return Err(AppError::invalid("RBD pool requires rbd_pool name"));
            },
        };
        if config.ceph_monitors.len() == 0 {
            return Err(AppError::invalid("RBD pool requires at least one Ceph monitor"));
        }
        validate_storage_name(rbd_pool.as_str(), "RBD pool")?;
        let mut source = String::new();
        push_path_elements(&mut source, &config.ceph_monitors, "<host name='", "storage host")?;
        proof {
            lemma_identifier_is_text(rbd_pool@);
        }
        let pool_name = xml_text_element("name", rbd_pool.as_str())?;
        source.append(pool_name.as_str());
        let auth = Self::ceph_auth(config)?;
        validate_storage_name(config.name.as_str(), "storage pool name")?;
        proof {
            lemma_identifier_is_text(config.name@);
        }
        let name = xml_text_element("name", config.name.as_str())?;
        let mut xml = String::from_str("<pool type='rbd'>");
        xml.append(name.as_str());
        xml.append("<source>");
        xml.append(source.as_str());
        xml.append("</source>");
        xml.append(auth.as_str());
        xml.append("</pool>");
        proof {
            reveal_strlit("<pool type='rbd'>");
            reveal_strlit("pool");
            assert(xml@.subrange(1, 5) =~= "pool"@);
            lemma_root_ok_opening(xml@, "pool"@);
        }
        validate_document_root(xml.as_str(), "pool")?;
        Ok(xml)
    }
}

} // verus!
