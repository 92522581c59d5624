//! Saved libvirt connections: their URIs, their scope, the capabilities each scope offers,
//! and the registry of saved and selected connections.
use crate::error::AppError;
use crate::operation::{
    CapabilityState, ConnectionCapability, ConnectionScope, OperationContext, OperationKind,
    TargetIdentity, opt_view, clone_opt_string,
};
use crate::text::{contains, dec, fmt_u64, occurs_at, str_eq};
use vstd::prelude::*;

verus! {

/// How the desktop reaches the libvirt daemon.
#[derive(Clone, Copy, Debug, PartialEq, Eq, Structural)]
pub enum ConnectionType {
    Local,
    Ssh,
    Tls,
    Tcp,
}

/// A saved connection configuration.
#[derive(Debug)]
pub struct SavedConnection {
    pub id: String,
    pub name: String,
    pub connection_type: ConnectionType,
    pub hypervisor: String,
    pub host: Option<String>,
    pub username: Option<String>,
    pub ssh_port: Option<u16>,
    pub tls_port: Option<u16>,
    pub auto_connect: bool,
    pub path: String,
}

/// The content of a saved connection, as character sequences.
pub struct SavedConnectionView {
    pub id: Seq<char>,
    pub name: Seq<char>,
    pub connection_type: ConnectionType,
    pub hypervisor: Seq<char>,
    pub host: Option<Seq<char>>,
    pub username: Option<Seq<char>>,
    pub ssh_port: Option<u16>,
    pub tls_port: Option<u16>,
    pub auto_connect: bool,
    pub path: Seq<char>,
}

impl View for SavedConnection {
    type V = SavedConnectionView;

    open spec fn view(&self) -> SavedConnectionView {
        SavedConnectionView {
            id: self.id@,
            name: self.name@,
            connection_type: self.connection_type,
            hypervisor: self.hypervisor@,
            host: opt_view(self.host),
            username: opt_view(self.username),
            ssh_port: self.ssh_port,
            tls_port: self.tls_port,
            auto_connect: self.auto_connect,
            path: self.path@,
        }
    }
}

pub open spec fn or_default(o: Option<Seq<char>>, d: Seq<char>) -> Seq<char> {
    match o {
        Some(v) => v,
        None => d,
    }
}

/// `hypervisor+transport://user@host[:port]/path?query`; the port is omitted when it is 22.
pub open spec fn ssh_uri_of(c: SavedConnectionView, transport: Seq<char>, query: Seq<char>) -> Seq<
    char,
> {
    let user = or_default(c.username, "root"@);
    let host = or_default(c.host, "localhost"@);
    let port: u16 = match c.ssh_port {
        Some(p) => p,
        None => 22u16,
    };
    if port == 22 {
        c.hypervisor + "+"@ + transport + "://"@ + user + "@"@ + host + "/"@ + c.path + "?"@
            + query
    } else {
        c.hypervisor + "+"@ + transport + "://"@ + user + "@"@ + host + ":"@ + dec(port as nat)
            + "/"@ + c.path + "?"@ + query
    }
}

/// The libvirt URI of a saved connection.
pub open spec fn uri_of(c: SavedConnectionView) -> Seq<char> {
    match c.connection_type {
        ConnectionType::Local => c.hypervisor + ":///"@ + c.path,
        ConnectionType::Ssh => ssh_uri_of(c, "ssh"@, "no_tty=1"@),
        ConnectionType::Tls => {
            let host = or_default(c.host, "localhost"@);
            let port: u16 = match c.tls_port {
                Some(p) => p,
                None => 16514u16,
            };
            if port == 16514 {
                c.hypervisor + "+tls://"@ + host + "/"@ + c.path
            } else {
                c.hypervisor + "+tls://"@ + host + ":"@ + dec(port as nat) + "/"@ + c.path
            }
        },
        ConnectionType::Tcp => c.hypervisor + "+tcp://"@ + or_default(c.host, "localhost"@) + "/"@
            + c.path,
    }
}

/// The URI used for password authentication: libvirt's in-process libssh2 transport.
pub open spec fn password_uri_of(c: SavedConnectionView) -> Seq<char> {
    ssh_uri_of(c, "libssh2"@, "sshauth=password,keyboard-interactive"@)
}

pub open spec fn scope_of(connection_type: ConnectionType, path: Seq<char>) -> ConnectionScope {
    match connection_type {
        ConnectionType::Local => if path == "session"@ {
            ConnectionScope::LocalSession
        } else {
            ConnectionScope::LocalSystem
        },
        _ => ConnectionScope::Remote,
    }
}

pub fn default_hypervisor() -> (r: String)
    ensures
        r@ == "qemu"@,
{
    String::from_str("qemu")
}

pub fn default_path() -> (r: String)
    ensures
        r@ == "system"@,
{
    String::from_str("system")
}

fn string_or(o: &Option<String>, d: &str) -> (r: String)
    ensures
        r@ == or_default(opt_view(*o), d@),
{
    match o {
        Some(s) => s.clone(),
        None => String::from_str(d),
    }
}

impl SavedConnection {
    /// The local QEMU/KVM system connection, as plain values.
    pub open spec fn local_view() -> SavedConnectionView {
        SavedConnectionView {
            id: "local"@,
            name: "QEMU/KVM (Local)"@,
            connection_type: ConnectionType::Local,
            hypervisor: "qemu"@,
            host: None,
            username: None,
            ssh_port: None,
            tls_port: None,
            auto_connect: true,
            path: "system"@,
        }
    }

    /// The local QEMU/KVM system connection.
    pub fn local() -> (r: SavedConnection)
        ensures
            r@.id == "local"@,
            r@.name == "QEMU/KVM (Local)"@,
            r@.connection_type == ConnectionType::Local,
            r@.hypervisor == "qemu"@,
            r@.host is None,
            r@.username is None,
            r@.ssh_port is None,
            r@.tls_port is None,
            r@.auto_connect,
            r@.path == "system"@,
            r@ == SavedConnection::local_view(),
    {
        SavedConnection {
            id: String::from_str("local"),
            name: String::from_str("QEMU/KVM (Local)"),
            connection_type: ConnectionType::Local,
            hypervisor: String::from_str("qemu"),
            host: None,
            username: None,
            ssh_port: None,
            tls_port: None,
            auto_connect: true,
            path: String::from_str("system"),
        }
    }

    pub fn clone_connection(&self) -> (r: SavedConnection)
        ensures
            r@ == self@,
    {
        SavedConnection {
            id: self.id.clone(),
            name: self.name.clone(),
            connection_type: self.connection_type,
            hypervisor: self.hypervisor.clone(),
            host: clone_opt_string(&self.host),
            username: clone_opt_string(&self.username),
            ssh_port: self.ssh_port,
            tls_port: self.tls_port,
            auto_connect: self.auto_connect,
            path: self.path.clone(),
        }
    }

    /// The libvirt URI of this connection.
    pub fn build_uri(&self) -> (r: String)
        ensures
            r@ == uri_of(self@),
    {
        match self.connection_type {
            ConnectionType::Local => {
                let mut r = self.hypervisor.clone();
                r.append(":///");
                r.append(self.path.as_str());
                r
            },
            ConnectionType::Ssh => self.ssh_uri("ssh", "no_tty=1"),
            ConnectionType::Tls => {
                let host = string_or(&self.host, "localhost");
                let port: u16 = match self.tls_port {
                    Some(p) => p,
                    None => 16514,
                };
                let mut r = self.hypervisor.clone();
                r.append("+tls://");
                r.append(host.as_str());
                if port != 16514 {
                    r.append(":");
                    let p = fmt_u64(port as u64);
                    r.append(p.as_str());
                }
                r.append("/");
                r.append(self.path.as_str());
                r
            },
            ConnectionType::Tcp => {
                let host = string_or(&self.host, "localhost");
                let mut r = self.hypervisor.clone();
                r.append("+tcp://");
                r.append(host.as_str());
                r.append("/");
                r.append(self.path.as_str());
                r
            },
        }
    }

    /// The URI for password authentication through libvirt's credential callback. The
    /// password is never part of it.
    pub fn password_auth_uri(&self) -> (r: String)
        ensures
            r@ == password_uri_of(self@),
    {
        self.ssh_uri("libssh2", "sshauth=password,keyboard-interactive")
    }

    pub fn ssh_uri(&self, transport: &str, query: &str) -> (r: String)
        ensures
            r@ == ssh_uri_of(self@, transport@, query@),
    {
        let user = string_or(&self.username, "root");
        let host = string_or(&self.host, "localhost");
        let port: u16 = match self.ssh_port {
            Some(p) => p,
            None => 22,
        };
        let mut r = self.hypervisor.clone();
        r.append("+");
        r.append(transport);
        r.append("://");
        r.append(user.as_str());
        r.append("@");
        r.append(host.as_str());
        if port != 22 {
            r.append(":");
            let p = fmt_u64(port as u64);
            r.append(p.as_str());
        }
        r.append("/");
        r.append(self.path.as_str());
        r.append("?");
        r.append(query);
        r
    }
}

/// Where the guests of a saved connection run.
pub fn connection_scope(config: &SavedConnection) -> (r: ConnectionScope)
    ensures
        r == scope_of(config.connection_type, config.path@),
{
    match config.connection_type {
        ConnectionType::Local => {
            if str_eq(config.path.as_str(), "session") {
                ConnectionScope::LocalSession
            } else {
                ConnectionScope::LocalSystem
            }
        },
        _ => ConnectionScope::Remote,
    }
}


// ---------------------------------------------------------------------------
// Capabilities
// ---------------------------------------------------------------------------

/// A capability as plain values: kind, state, reason code, whether it offers no recovery
/// action, and when it was checked.
pub open spec fn capability_view(c: ConnectionCapability) -> (Seq<char>, CapabilityState, Option<Seq<char>>, bool, Seq<char>) {
    (c.kind@, c.state, opt_view(c.reason_code), c.recovery_action is None, c.checked_at@)
}

pub open spec fn capabilities_view(v: Seq<ConnectionCapability>) -> Seq<(Seq<char>, CapabilityState, Option<Seq<char>>, bool, Seq<char>)> {
    v.map_values(|c: ConnectionCapability| capability_view(c))
}

/// A capability that needs the libvirt host to be this machine: available on the local
/// system connection only, else unavailable with the reason `requiresLocalHost`.
pub open spec fn host_local_capability(kind: Seq<char>, local: bool, checked_at: Seq<char>) -> (Seq<char>, CapabilityState, Option<Seq<char>>, bool, Seq<char>) {
    if local {
        (kind, CapabilityState::Available, None, true, checked_at)
    } else {
        (kind, CapabilityState::Unavailable, Some("requiresLocalHost"@), true, checked_at)
    }
}

/// The capabilities a connection of `scope` offers: resource management and migration
/// always; host devices, consoles and the guest agent on the local system connection only.
pub open spec fn capabilities_of(scope: ConnectionScope, checked_at: Seq<char>) -> Seq<(Seq<char>, CapabilityState, Option<Seq<char>>, bool, Seq<char>)> {
    let local = scope == ConnectionScope::LocalSystem;
    seq![
        ("resourceManagement"@, CapabilityState::Available, None, true, checked_at),
        host_local_capability("hostDevice"@, local, checked_at),
        ("migration"@, CapabilityState::Available, None, true, checked_at),
        host_local_capability("console"@, local, checked_at),
        host_local_capability("guestAgent"@, local, checked_at),
    ]
}

/// The capabilities that need the libvirt host to be this machine.
pub open spec fn host_local_kind(kind: Seq<char>) -> bool {
    kind == "hostDevice"@ || kind == "console"@ || kind == "guestAgent"@
}

/// A host-local capability is available exactly on the local system connection.
proof fn lemma_host_local_available(caps: Seq<ConnectionCapability>, scope: ConnectionScope, at: Seq<char>, kind: Seq<char>)
    requires
        capabilities_view(caps) == capabilities_of(scope, at),
        host_local_kind(kind),
    ensures
        capability_available(caps, kind) <==> scope == ConnectionScope::LocalSystem,
{
    reveal_strlit("hostDevice");
    reveal_strlit("console");
    reveal_strlit("guestAgent");
    reveal_strlit("resourceManagement");
    reveal_strlit("migration");
    let v = capabilities_of(scope, at);
    assert(v.len() == 5);
    assert(capabilities_view(caps).len() == caps.len());
    assert forall|i: int| 0 <= i < 5 implies caps[i].kind@ == v[i].0 && caps[i].state == v[i].1 by {
        assert(capabilities_view(caps)[i] == capability_view(caps[i]));
    }
    if scope == ConnectionScope::LocalSystem {
        let w: int = if kind == "hostDevice"@ {
            1
        } else if kind == "console"@ {
            3
        } else {
            4
        };
        assert(caps[w].kind@ == kind && caps[w].state == CapabilityState::Available);
    } else {
        assert forall|i: int| 0 <= i < caps.len() && caps[i].kind@ == kind implies caps[i].state
            != CapabilityState::Available by {
            assert(v[0].0 != kind) by {
                assert(v[0].0.len() != kind.len() || v[0].0[0] != kind[0]);
            }
            assert(v[2].0 != kind) by {
                assert(v[2].0[0] != kind[0]);
            }
        }
    }
}

/// A gated resolution: as `resolve_operation`, but refused with `Unsupported` where the
/// selected connection does not offer the host-local capability `capability`, which is
/// wherever it is not the local system connection.
pub open spec fn gated_resolution(
    svc: &ConnectionService,
    operation_kind: OperationKind,
    capability: Seq<char>,
    target: Option<TargetIdentity>,
    alive: bool,
    r: Result<ResolvedOperation, AppError>,
) -> bool {
    match svc.active() {
        None => r matches Err(e) && (e matches AppError::Unavailable(m) && m@ == "No selected connection is active"@),
        Some(a) => match open_entry(svc.opened(), a) {
            Some(c) => if !alive {
                r matches Err(e) && (e matches AppError::Unavailable(m) && m@ == "The selected connection is unavailable"@)
            } else if scope_of(c.connection_type, c.path) == ConnectionScope::LocalSystem {
                r matches Ok(op) && {
                    let ctx = op.context;
                    &&& crate::ids::canonical_uuid(ctx.operation_id@)
                    &&& ctx.operation_kind == operation_kind
                    &&& ctx.connection_id@ == c.id
                    &&& ctx.connection_label@ == c.name
                    &&& ctx.connection_scope == ConnectionScope::LocalSystem
                    &&& capabilities_view(ctx.capabilities@) == capabilities_of(
                        ConnectionScope::LocalSystem,
                        ctx.captured_at@,
                    )
                    &&& ctx.target == target
                }
            } else {
                r matches Err(e) && (e matches AppError::Unsupported(m) && m@ == "The selected connection does not support "@
                    + capability + " operations"@)
            },
            None => r matches Err(e) && (e matches AppError::Unavailable(m) && m@ == "The selected connection is unavailable"@),
        },
    }
}

/// Some capability of `kind` is available.
pub open spec fn capability_available(caps: Seq<ConnectionCapability>, kind: Seq<char>) -> bool {
    exists|i: int| 0 <= i < caps.len() && caps[i].kind@ == kind && caps[i].state == CapabilityState::Available
}

fn capability(kind: &str, available: bool, checked_at: &String) -> (r: ConnectionCapability)
    ensures
        capability_view(r) == host_local_capability(kind@, available, checked_at@),
{
    ConnectionCapability {
        kind: String::from_str(kind),
        state: if available {
            CapabilityState::Available
        } else {
            CapabilityState::Unavailable
        },
        reason_code: if available {
            None
        } else {
            Some(String::from_str("requiresLocalHost"))
        },
        recovery_action: None,
        checked_at: checked_at.clone(),
    }
}

/// The capabilities a connection of `scope` offers, each marked as checked at
/// `checked_at`.
pub fn connection_capabilities(scope: ConnectionScope, checked_at: &String) -> (r: Vec<ConnectionCapability>)
    ensures
        capabilities_view(r@) == capabilities_of(scope, checked_at@),
{
    let local = match scope {
        ConnectionScope::LocalSystem => true,
        _ => false,
    };
    let mut v: Vec<ConnectionCapability> = Vec::new();
    v.push(capability("resourceManagement", true, checked_at));
    v.push(capability("hostDevice", local, checked_at));
    v.push(capability("migration", true, checked_at));
    v.push(capability("console", local, checked_at));
    v.push(capability("guestAgent", local, checked_at));
    proof {
        assert(capabilities_view(v@) =~= capabilities_of(scope, checked_at@));
    }
    v
}

/// The operation context captured for one operation on the selected connection.
#[derive(Debug)]
pub struct ResolvedOperation {
    pub context: OperationContext,
}

impl ResolvedOperation {
    /// Refuses an operation the selected connection does not support, before it can reach
    /// a host-local integration.
    pub fn require_capability(&self, kind: &str) -> (r: Result<(), AppError>)
        ensures
            match r {
                Ok(()) => capability_available(self.context.capabilities@, kind@),
                Err(e) => !capability_available(self.context.capabilities@, kind@) && (e matches AppError::Unsupported(
                    m,
                ) && m@ == "The selected connection does not support "@ + kind@ + " operations"@),
            },
    {
        let caps = &self.context.capabilities;
        let mut i: usize = 0;
        while i < caps.len()
            invariant
                i <= caps@.len(),
                caps@ == self.context.capabilities@,
                forall|k: int| 0 <= k < i ==> !(caps@[k].kind@ == kind@ && caps@[k].state == CapabilityState::Available),
            decreases caps@.len() - i,
        {
            let c = &caps[i];
            let available = match c.state {
                CapabilityState::Available => true,
                CapabilityState::Unavailable => false,
            };
            if available && str_eq(c.kind.as_str(), kind) {
                return Ok(());
            }
            i = i + 1;
        }
        let mut m = String::from_str("The selected connection does not support ");
        m.append(kind);
        m.append(" operations");
        Err(AppError::Unsupported(m))
    }
}

/// The answer given to one libvirt credential request of a password login: the user name
/// for `VIR_CRED_AUTHNAME`, the password for a passphrase or prompt, nothing otherwise.
pub fn credential_answer(typed: i32, username: &str, password: &str) -> (r: Option<String>)
    ensures
        match r {
            Some(a) => (typed == CRED_AUTHNAME && a@ == username@) || ((typed == CRED_PASSPHRASE || typed
                == CRED_NOECHOPROMPT || typed == CRED_ECHOPROMPT) && a@ == password@),
            None => typed != CRED_AUTHNAME && typed != CRED_PASSPHRASE && typed != CRED_NOECHOPROMPT && typed
                != CRED_ECHOPROMPT,
        },
{
    if typed == CRED_AUTHNAME {
        Some(String::from_str(username))
    } else if typed == CRED_PASSPHRASE || typed == CRED_NOECHOPROMPT || typed == CRED_ECHOPROMPT {
        Some(String::from_str(password))
    } else {
        None
    }
}

/// libvirt's `VIR_CRED_AUTHNAME`, `VIR_CRED_PASSPHRASE`, `VIR_CRED_ECHOPROMPT` and
/// `VIR_CRED_NOECHOPROMPT`.
pub const CRED_AUTHNAME: i32 = 2;

pub const CRED_PASSPHRASE: i32 = 5;

pub const CRED_ECHOPROMPT: i32 = 6;

pub const CRED_NOECHOPROMPT: i32 = 7;

// ---------------------------------------------------------------------------
// The registry
// ---------------------------------------------------------------------------

/// An open connection: the id it was selected by and the configuration it was opened
/// with. The live libvirt handle is kept by the caller under the same id.
#[derive(Debug)]
pub struct ActiveConnection {
    pub id: String,
    pub config: SavedConnection,
}

/// The saved connection configurations, the open connections and the selected one.
#[derive(Debug)]
pub struct ConnectionService {
    active_connection_id: Option<String>,
    connections: Vec<ActiveConnection>,
    saved_connections: Vec<SavedConnection>,
}

/// The configuration saved under `id`, the first one when several are.
pub open spec fn saved_entry(s: Seq<SavedConnectionView>, id: Seq<char>) -> Option<SavedConnectionView>
    decreases s.len(),
{
    if s.len() == 0 {
        None
    } else if s[0].id == id {
        Some(s[0])
    } else {
        saved_entry(s.drop_first(), id)
    }
}

/// The configuration of the open connection `id`.
pub open spec fn open_entry(s: Seq<(Seq<char>, SavedConnectionView)>, id: Seq<char>) -> Option<SavedConnectionView>
    decreases s.len(),
{
    if s.len() == 0 {
        None
    } else if s[0].0 == id {
        Some(s[0].1)
    } else {
        open_entry(s.drop_first(), id)
    }
}

/// The open entries other than `id`.
pub open spec fn without_open(s: Seq<(Seq<char>, SavedConnectionView)>, id: Seq<char>) -> Seq<(Seq<char>, SavedConnectionView)> {
    s.filter(|e: (Seq<char>, SavedConnectionView)| e.0 != id)
}

/// The saved configurations other than `id`.
pub open spec fn without_saved(s: Seq<SavedConnectionView>, id: Seq<char>) -> Seq<SavedConnectionView> {
    s.filter(|c: SavedConnectionView| c.id != id)
}

pub open spec fn ids_distinct(ids: Seq<Seq<char>>) -> bool {
    forall|i: int, j: int| 0 <= i < j < ids.len() ==> ids[i] != ids[j]
}

pub open spec fn saved_view(v: Seq<SavedConnection>) -> Seq<SavedConnectionView> {
    v.map_values(|c: SavedConnection| c@)
}

pub open spec fn open_view(v: Seq<ActiveConnection>) -> Seq<(Seq<char>, SavedConnectionView)> {
    v.map_values(|a: ActiveConnection| (a.id@, a.config@))
}

proof fn lemma_saved_entry(s: Seq<SavedConnectionView>, id: Seq<char>)
    ensures
        saved_entry(s, id) is Some <==> exists|i: int| 0 <= i < s.len() && s[i].id == id,
        saved_entry(s, id) matches Some(c) ==> c.id == id && exists|i: int| 0 <= i < s.len() && s[i] == c,
    decreases s.len(),
{
    if s.len() > 0 {
        lemma_saved_entry(s.drop_first(), id);
        if s[0].id != id {
            assert forall|i: int| 0 <= i < s.len() && s[i].id == id implies exists|k: int|
                0 <= k < s.drop_first().len() && s.drop_first()[k].id == id by {
                assert(s.drop_first()[i - 1] == s[i]);
            }
            if saved_entry(s, id) is Some {
                let c = saved_entry(s, id)->0;
                let k = choose|k: int| 0 <= k < s.drop_first().len() && s.drop_first()[k] == c;
                assert(s[k + 1] == c);
            }
        }
    }
}

proof fn lemma_open_entry_at(s: Seq<(Seq<char>, SavedConnectionView)>, i: int)
    requires
        0 <= i < s.len(),
        forall|a: int, b: int| 0 <= a < b < s.len() ==> s[a].0 != s[b].0,
    ensures
        open_entry(s, s[i].0) == Some(s[i].1),
    decreases s.len(),
{
    if i > 0 {
        let t = s.drop_first();
        assert(s[0].0 != s[i].0);
        assert(t[i - 1] == s[i]);
        lemma_open_entry_at(t, i - 1);
    }
}

proof fn lemma_open_entry_none(s: Seq<(Seq<char>, SavedConnectionView)>, id: Seq<char>)
    requires
        forall|a: int| 0 <= a < s.len() ==> s[a].0 != id,
    ensures
        open_entry(s, id) is None,
    decreases s.len(),
{
    if s.len() > 0 {
        lemma_open_entry_none(s.drop_first(), id);
    }
}

proof fn lemma_open_entry_some(s: Seq<(Seq<char>, SavedConnectionView)>, id: Seq<char>)
    ensures
        open_entry(s, id) is Some ==> exists|a: int| 0 <= a < s.len() && s[a].0 == id,
    decreases s.len(),
{
    if s.len() > 0 && s[0].0 != id {
        lemma_open_entry_some(s.drop_first(), id);
        if open_entry(s, id) is Some {
            let a = choose|a: int| 0 <= a < s.drop_first().len() && s.drop_first()[a].0 == id;
            assert(s[a + 1].0 == id);
        }
    }
}


fn find_saved_index(v: &Vec<SavedConnection>, id: &str) -> (r: Option<usize>)
    ensures
        match r {
            Some(i) => i < v@.len() && v@[i as int].id@ == id@ && forall|k: int| 0 <= k < i ==> v@[k].id@ != id@,
            None => forall|k: int| 0 <= k < v@.len() ==> v@[k].id@ != id@,
        },
{
    let mut i: usize = 0;
    while i < v.len()
        invariant
            i <= v@.len(),
            forall|k: int| 0 <= k < i ==> v@[k].id@ != id@,
        decreases v@.len() - i,
    {
        if str_eq(v[i].id.as_str(), id) {
            return Some(i);
        }
        i = i + 1;
    }
    None
}

fn find_open_index(v: &Vec<ActiveConnection>, id: &str) -> (r: Option<usize>)
    ensures
        match r {
            Some(i) => i < v@.len() && v@[i as int].id@ == id@ && forall|k: int| 0 <= k < i ==> v@[k].id@ != id@,
            None => forall|k: int| 0 <= k < v@.len() ==> v@[k].id@ != id@,
        },
{
    let mut i: usize = 0;
    while i < v.len()
        invariant
            i <= v@.len(),
            forall|k: int| 0 <= k < i ==> v@[k].id@ != id@,
        decreases v@.len() - i,
    {
        if str_eq(v[i].id.as_str(), id) {
            return Some(i);
        }
        i = i + 1;
    }
    None
}

/// The first entry of `id` is the one at `i`.
proof fn lemma_open_entry_first(s: Seq<(Seq<char>, SavedConnectionView)>, id: Seq<char>, i: int)
    requires
        0 <= i < s.len(),
        s[i].0 == id,
        forall|k: int| 0 <= k < i ==> s[k].0 != id,
    ensures
        open_entry(s, id) == Some(s[i].1),
    decreases s.len(),
{
    if i > 0 {
        assert forall|k: int| 0 <= k < i - 1 implies s.drop_first()[k].0 != id by {
            assert(s.drop_first()[k] == s[k + 1]);
        }
        lemma_open_entry_first(s.drop_first(), id, i - 1);
    }
}

proof fn lemma_saved_entry_first(s: Seq<SavedConnectionView>, id: Seq<char>, i: int)
    requires
        0 <= i < s.len(),
        s[i].id == id,
        forall|k: int| 0 <= k < i ==> s[k].id != id,
    ensures
        saved_entry(s, id) == Some(s[i]),
    decreases s.len(),
{
    if i > 0 {
        assert forall|k: int| 0 <= k < i - 1 implies s.drop_first()[k].id != id by {
            assert(s.drop_first()[k] == s[k + 1]);
        }
        lemma_saved_entry_first(s.drop_first(), id, i - 1);
    }
}

proof fn lemma_saved_entry_none(s: Seq<SavedConnectionView>, id: Seq<char>)
    requires
        forall|k: int| 0 <= k < s.len() ==> s[k].id != id,
    ensures
        saved_entry(s, id) is None,
    decreases s.len(),
{
    if s.len() > 0 {
        lemma_saved_entry_none(s.drop_first(), id);
    }
}

impl ConnectionService {
    /// The saved configurations, in the order they were added.
    pub closed spec fn saved(&self) -> Seq<SavedConnectionView> {
        saved_view(self.saved_connections@)
    }

    /// The open connections with their configurations.
    pub closed spec fn opened(&self) -> Seq<(Seq<char>, SavedConnectionView)> {
        open_view(self.connections@)
    }

    /// The id of the selected connection.
    pub closed spec fn active(&self) -> Option<Seq<char>> {
        opt_view(self.active_connection_id)
    }

    /// Saved ids are distinct and include the local connection; open ids are distinct and
    /// each open connection keeps its own id; the selected connection is open.
    pub closed spec fn wf(&self) -> bool {
        let ids = self.saved().map_values(|c: SavedConnectionView| c.id);
        &&& ids_distinct(ids)
        &&& ids.contains("local"@)
        &&& ids_distinct(self.opened().map_values(|e: (Seq<char>, SavedConnectionView)| e.0))
        &&& forall|i: int| 0 <= i < self.opened().len() ==> (#[trigger] self.opened()[i]).1.id == self.opened()[i].0
        &&& match self.active() {
            Some(a) => open_entry(self.opened(), a) is Some,
            None => true,
        }
    }

    /// A registry that knows only the local connection, with nothing open.
    pub fn new() -> (r: Self)
        ensures
            r.wf(),
            r.saved().len() == 1,
            r.saved()[0] == SavedConnection::local_view(),
            r.opened().len() == 0,
            r.active() is None,
    {
        let mut saved: Vec<SavedConnection> = Vec::new();
        saved.push(SavedConnection::local());
        let r = ConnectionService { active_connection_id: None, connections: Vec::new(), saved_connections: saved };
        proof {
            let ids = r.saved().map_values(|c: SavedConnectionView| c.id);
            assert(ids[0] == "local"@);
            assert(r.opened() =~= Seq::<(Seq<char>, SavedConnectionView)>::empty());
        }
        r
    }

    /// The saved configuration with id `connection_id`.
    pub fn saved_connection(&self, connection_id: &str) -> (r: Result<SavedConnection, AppError>)
        ensures
            match r {
                Ok(c) => saved_entry(self.saved(), connection_id@) == Some(c@),
                Err(e) => saved_entry(self.saved(), connection_id@) is None && (e matches AppError::Other(m) && m@
                    == "Connection '"@ + connection_id@ + "' not found"@),
            },
    {
        match find_saved_index(&self.saved_connections, connection_id) {
            Some(i) => {
                proof {
                    lemma_saved_entry_first(self.saved(), connection_id@, i as int);
                }
                Ok(self.saved_connections[i].clone_connection())
            },
            None => {
                proof {
                    lemma_saved_entry_none(self.saved(), connection_id@);
                }
                let mut m = String::from_str("Connection '");
                m.append(connection_id);
                m.append("' not found");
                Err(AppError::Other(m))
            },
        }
    }

    /// The configuration a password login opens: only a saved SSH connection, and only
    /// with a password.
    pub fn password_connection(&self, connection_id: &str, password: &str) -> (r: Result<SavedConnection, AppError>)
        ensures
            match r {
                Ok(c) => password@.len() > 0 && saved_entry(self.saved(), connection_id@) == Some(c@)
                    && c.connection_type == ConnectionType::Ssh,
                Err(e) => if password@.len() == 0 {
                    e matches AppError::InvalidConfig(m) && m@ == "An SSH password is required"@
                } else {
                    match saved_entry(self.saved(), connection_id@) {
                        None => e is Other,
                        Some(c) => c.connection_type != ConnectionType::Ssh && (e matches AppError::InvalidConfig(m)
                            && m@ == "Password authentication is only available for SSH connections"@),
                    }
                },
            },
    {
        if password.unicode_len() == 0 {
            return Err(AppError::InvalidConfig(String::from_str("An SSH password is required")));
        }
        let config = self.saved_connection(connection_id)?;
        match config.connection_type {
            ConnectionType::Ssh => Ok(config),
            _ => Err(
                AppError::InvalidConfig(
                    String::from_str("Password authentication is only available for SSH connections"),
                ),
            ),
        }
    }

    /// Records `connection_id` as open with `config` (replacing an earlier entry for it)
    /// and selects it.
    pub fn activate_connection(&mut self, connection_id: &str, config: SavedConnection)
        requires
            old(self).wf(),
            config@.id == connection_id@,
        ensures
            final(self).wf(),
            final(self).active() == Some(connection_id@),
            open_entry(final(self).opened(), connection_id@) == Some(config@),
            forall|id: Seq<char>| id != connection_id@ ==> open_entry(final(self).opened(), id) == open_entry(
                old(self).opened(),
                id,
            ),
            final(self).saved() == old(self).saved(),
    {
        let ghost before = self.opened();
        let found = find_open_index(&self.connections, connection_id);
        let ghost cv = config@;
        let entry = ActiveConnection { id: String::from_str(connection_id), config };
        match found {
            Some(i) => {
                self.connections.set(i, entry);
                proof {
                    assert(before[i as int].0 == connection_id@);
                    let after = self.opened();
                    assert(after =~= before.update(i as int, (connection_id@, cv)));
                    assert(after.map_values(|e: (Seq<char>, SavedConnectionView)| e.0) =~= before.map_values(
                        |e: (Seq<char>, SavedConnectionView)| e.0,
                    ));
                    assert forall|k: int| 0 <= k < i implies after[k].0 != connection_id@ by {
                        assert(after[k] == before[k]);
                    }
                    lemma_open_entry_first(after, connection_id@, i as int);
                    assert forall|id: Seq<char>| id != connection_id@ implies open_entry(after, id) == open_entry(
                        before,
                        id,
                    ) by {
                        lemma_open_entry_update(before, i as int, (connection_id@, cv), id);
                    }
                    assert forall|k: int| 0 <= k < after.len() implies (#[trigger] after[k]).1.id == after[k].0 by {
                        if k != i {
                            assert(after[k] == before[k]);
                        }
                    }
                }
            },
            None => {
                self.connections.push(entry);
                proof {
                    let after = self.opened();
                    assert(after =~= before.push((connection_id@, cv)));
                    let ids = after.map_values(|e: (Seq<char>, SavedConnectionView)| e.0);
                    let old_ids = before.map_values(|e: (Seq<char>, SavedConnectionView)| e.0);
                    assert forall|a: int, b: int| 0 <= a < b < ids.len() implies ids[a] != ids[b] by {
                        if b < before.len() {
                            assert(ids[a] == old_ids[a] && ids[b] == old_ids[b]);
                        } else {
                            assert(ids[a] == before[a].0);
                        }
                    }
                    assert forall|k: int| 0 <= k < before.len() implies after[k].0 != connection_id@ by {
                        assert(after[k] == before[k]);
                    }
                    lemma_open_entry_first(after, connection_id@, before.len() as int);
                    assert forall|id: Seq<char>| id != connection_id@ implies open_entry(after, id) == open_entry(
                        before,
                        id,
                    ) by {
                        lemma_open_entry_push(before, (connection_id@, cv), id);
                    }
                    assert forall|k: int| 0 <= k < after.len() implies (#[trigger] after[k]).1.id == after[k].0 by {
                        if k < before.len() {
                            assert(after[k] == before[k]);
                        }
                    }
                }
            },
        }
        self.active_connection_id = Some(String::from_str(connection_id));
    }

    /// Closes `connection_id`, and clears the selection when it was the selected one.
    pub fn disconnect(&mut self, connection_id: &str) -> (r: Result<(), AppError>)
        requires
            old(self).wf(),
        ensures
            r is Ok,
            final(self).wf(),
            open_entry(final(self).opened(), connection_id@) is None,
            forall|id: Seq<char>| id != connection_id@ ==> open_entry(final(self).opened(), id) == open_entry(
                old(self).opened(),
                id,
            ),
            final(self).active() == (if old(self).active() == Some(connection_id@) {
                None
            } else {
                old(self).active()
            }),
            final(self).saved() == old(self).saved(),
    {
        let ghost before = self.opened();
        let mut old_conns: Vec<ActiveConnection> = Vec::new();
        std::mem::swap(&mut old_conns, &mut self.connections);
        let mut kept: Vec<ActiveConnection> = Vec::new();
        let mut rest = old_conns;
        let mut items: Vec<ActiveConnection> = Vec::new();
        let n = rest.len();
        proof {
            assert(open_view(rest@) == before);
        }
        while rest.len() > 0
            invariant
                rest@.len() + items@.len() == n,
                n == before.len(),
                forall|i: int| 0 <= i < rest@.len() ==> (rest@[i].id@, rest@[i].config@) == before[i],
                forall|i: int| 0 <= i < items@.len() ==> (items@[i].id@, items@[i].config@) == before[n - 1 - i],
            decreases rest@.len(),
        {
            let x = rest.pop().unwrap();
            items.push(x);
        }
        let mut k: usize = 0;
        while k < n
            invariant
                k <= n,
                n == before.len(),
                items@.len() == n - k,
                forall|i: int| 0 <= i < items@.len() ==> (items@[i].id@, items@[i].config@) == before[n - 1 - i],
                open_view(kept@) == without_open(before.take(k as int), connection_id@),
            decreases n - k,
        {
            let x = items.pop().unwrap();
            proof {
                reveal(Seq::filter);
                assert(before.take(k + 1).drop_last() =~= before.take(k as int));
                assert(before.take(k + 1).last() == (x.id@, x.config@));
            }
            if !str_eq(x.id.as_str(), connection_id) {
                let ghost prev = kept@;
                kept.push(x);
                proof {
                    assert(open_view(kept@) =~= open_view(prev).push(before[k as int]));
                }
            }
            k = k + 1;
        }
        self.connections = kept;
        proof {
            reveal(Seq::filter);
            assert(before.take(n as int) =~= before);
            let after = self.opened();
            assert(after == without_open(before, connection_id@));
            lemma_filter_props(before, connection_id@);
        }
        let clear = match &self.active_connection_id {
            Some(a) => str_eq(a.as_str(), connection_id),
            None => false,
        };
        if clear {
            self.active_connection_id = None;
        }
        Ok(())
    }

    /// The operation context for one operation on the selected connection: its id and
    /// label, its scope and capabilities, the target, and `operation_id` and `captured_at`.
    /// `alive` tells whether the live handle of the selected connection still answers.
    pub fn resolve_operation_at(
        &self,
        operation_kind: OperationKind,
        target: Option<TargetIdentity>,
        alive: bool,
        operation_id: String,
        captured_at: String,
    ) -> (r: Result<ResolvedOperation, AppError>)
        requires
            self.wf(),
        ensures
            match self.active() {
                None => r matches Err(e) && (e matches AppError::Unavailable(m) && m@ == "No selected connection is active"@),
                Some(a) => match open_entry(self.opened(), a) {
                    Some(c) => if alive {
                        r matches Ok(op) && {
                            let ctx = op.context;
                            &&& ctx.operation_id@ == operation_id@
                            &&& ctx.operation_kind == operation_kind
                            &&& ctx.connection_id@ == c.id
                            &&& ctx.connection_label@ == c.name
                            &&& ctx.connection_scope == scope_of(c.connection_type, c.path)
                            &&& capabilities_view(ctx.capabilities@) == capabilities_of(
                                scope_of(c.connection_type, c.path),
                                captured_at@,
                            )
                            &&& ctx.target == target
                            &&& ctx.captured_at@ == captured_at@
                        }
                    } else {
                        r matches Err(e) && (e matches AppError::Unavailable(m) && m@
                            == "The selected connection is unavailable"@)
                    },
                    None => r matches Err(e) && (e matches AppError::Unavailable(m) && m@
                        == "The selected connection is unavailable"@),
                },
            },
    {
        let active_id = match &self.active_connection_id {
            Some(a) => a,
            None => {
                return Err(AppError::Unavailable(String::from_str("No selected connection is active")));
            },
        };
        match find_open_index(&self.connections, active_id.as_str()) {
            Some(i) => {
                let e = &self.connections[i];
                proof {
                    lemma_open_entry_first(self.opened(), active_id@, i as int);
                }
                if !alive {
                    return Err(AppError::Unavailable(String::from_str("The selected connection is unavailable")));
                }
                let scope = connection_scope(&e.config);
                let capabilities = connection_capabilities(scope, &captured_at);
                let context = OperationContext {
                    operation_id,
                    operation_kind,
                    connection_id: e.config.id.clone(),
                    connection_label: e.config.name.clone(),
                    connection_scope: scope,
                    capabilities,
                    target,
                    captured_at,
                };
                Ok(ResolvedOperation { context })
            },
            None => {
                proof {
                    lemma_open_entry_none(self.opened(), active_id@);
                }
                Err(AppError::Unavailable(String::from_str("The selected connection is unavailable")))
            },
        }
    }

    /// The operation context for one operation on the selected connection, with a fresh
    /// operation id and the current time.
    pub fn resolve_operation(&self, operation_kind: OperationKind, target: Option<TargetIdentity>, alive: bool) -> (r:
        Result<ResolvedOperation, AppError>)
        requires
            self.wf(),
        ensures
            match self.active() {
                None => r matches Err(e) && (e matches AppError::Unavailable(m) && m@ == "No selected connection is active"@),
                Some(a) => match open_entry(self.opened(), a) {
                    Some(c) => if alive {
                        r matches Ok(op) && {
                            let ctx = op.context;
                            &&& crate::ids::canonical_uuid(ctx.operation_id@)
                            &&& ctx.operation_kind == operation_kind
                            &&& ctx.connection_id@ == c.id
                            &&& ctx.connection_label@ == c.name
                            &&& ctx.connection_scope == scope_of(c.connection_type, c.path)
                            &&& capabilities_view(ctx.capabilities@) == capabilities_of(
                                scope_of(c.connection_type, c.path),
                                ctx.captured_at@,
                            )
                            &&& ctx.target == target
                        }
                    } else {
                        r matches Err(e) && (e matches AppError::Unavailable(m) && m@
                            == "The selected connection is unavailable"@)
                    },
                    None => r matches Err(e) && (e matches AppError::Unavailable(m) && m@
                        == "The selected connection is unavailable"@),
                },
            },
    {
        let operation_id = crate::ids::new_uuid();
        let now = crate::confirmation::utc_now();
        let captured_at = crate::confirmation::rfc3339(now.secs, now.nanos);
        self.resolve_operation_at(operation_kind, target, alive, operation_id, captured_at)
    }

    /// Captures the selected connection for an operation of `operation_kind` that needs
    /// the host-local capability `capability`, and refuses it where that is unavailable.
    fn resolve_with_capability(
        &self,
        operation_kind: OperationKind,
        capability: &str,
        target: Option<TargetIdentity>,
        alive: bool,
    ) -> (r: Result<ResolvedOperation, AppError>)
        requires
            self.wf(),
            host_local_kind(capability@),
        ensures
            gated_resolution(self, operation_kind, capability@, target, alive, r),
    {
        let op = self.resolve_operation(operation_kind, target, alive)?;
        proof {
            let ctx = op.context;
            lemma_host_local_available(ctx.capabilities@, ctx.connection_scope, ctx.captured_at@, capability@);
        }
        op.require_capability(capability)?;
        Ok(op)
    }

    /// Captures the selected connection for a host-device operation; only the local
    /// system connection offers one.
    pub fn resolve_host_local_operation(&self, target: Option<TargetIdentity>, alive: bool) -> (r: Result<
        ResolvedOperation,
        AppError,
    >)
        requires
            self.wf(),
        ensures
            gated_resolution(self, OperationKind::HostLocal, "hostDevice"@, target, alive, r),
    {
        proof {
            reveal_strlit("hostDevice");
        }
        self.resolve_with_capability(OperationKind::HostLocal, "hostDevice", target, alive)
    }

    /// Captures the selected connection for a console adapter; only the local system
    /// connection offers one.
    pub fn resolve_console_operation(&self, target: Option<TargetIdentity>, alive: bool) -> (r: Result<
        ResolvedOperation,
        AppError,
    >)
        requires
            self.wf(),
        ensures
            gated_resolution(self, OperationKind::Console, "console"@, target, alive, r),
    {
        proof {
            reveal_strlit("console");
        }
        self.resolve_with_capability(OperationKind::Console, "console", target, alive)
    }

    /// Captures the selected connection for a guest-agent query; only the local system
    /// connection offers one.
    pub fn resolve_guest_agent_operation(&self, target: Option<TargetIdentity>, alive: bool) -> (r: Result<
        ResolvedOperation,
        AppError,
    >)
        requires
            self.wf(),
        ensures
            gated_resolution(self, OperationKind::Query, "guestAgent"@, target, alive, r),
    {
        proof {
            reveal_strlit("guestAgent");
        }
        self.resolve_with_capability(OperationKind::Query, "guestAgent", target, alive)
    }

    /// The configuration of the selected connection, when one is selected.
    pub fn get_active_connection_info(&self) -> (r: Option<SavedConnection>)
        requires
            self.wf(),
        ensures
            match self.active() {
                Some(a) => r matches Some(c) && open_entry(self.opened(), a) == Some(c@),
                None => r is None,
            },
    {
        let active_id = match &self.active_connection_id {
            Some(a) => a,
            None => return None,
        };
        match find_open_index(&self.connections, active_id.as_str()) {
            Some(i) => {
                proof {
                    lemma_open_entry_first(self.opened(), active_id@, i as int);
                }
                Some(self.connections[i].config.clone_connection())
            },
            None => {
                proof {
                    lemma_open_entry_none(self.opened(), active_id@);
                }
                None
            },
        }
    }

    /// The id of the selected connection, when one is selected.
    pub fn active_connection_id(&self) -> (r: Option<String>)
        ensures
            opt_view(r) == self.active(),
    {
        clone_opt_string(&self.active_connection_id)
    }

    /// Whether a connection is selected and its live handle (`alive`) still answers.
    pub fn is_connected(&self, alive: bool) -> (r: bool)
        ensures
            r == (self.active() is Some && alive),
    {
        self.active_connection_id.is_some() && alive
    }

    /// A libvirt version number (major * 1000000 + minor * 1000 + release) as
    /// `major.minor.release`.
    pub fn version_text(version: u32) -> (r: String)
        ensures
            r@ == dec((version / 1000000) as nat) + "."@ + dec(((version % 1000000) / 1000) as nat) + "."@ + dec(
                (version % 1000) as nat,
            ),
    {
        let mut r = fmt_u64((version / 1000000) as u64);
        r.append(".");
        r.append(fmt_u64(((version % 1000000) / 1000) as u64).as_str());
        r.append(".");
        r.append(fmt_u64((version % 1000) as u64).as_str());
        r
    }

    /// The saved configurations, in order.
    pub fn get_saved_connections(&self) -> (r: Result<Vec<SavedConnection>, AppError>)
        ensures
            r matches Ok(v) && saved_view(v@) == self.saved(),
    {
        let n = self.saved_connections.len();
        let mut out: Vec<SavedConnection> = Vec::new();
        let mut i: usize = 0;
        while i < n
            invariant
                n == self.saved_connections@.len(),
                i <= n,
                saved_view(out@) == self.saved().take(i as int),
            decreases n - i,
        {
            let ghost prev = out@;
            out.push(self.saved_connections[i].clone_connection());
            proof {
                assert(saved_view(out@) =~= saved_view(prev).push(self.saved()[i as int]));
                assert(self.saved().take(i + 1) =~= self.saved().take(i as int).push(self.saved()[i as int]));
            }
            i = i + 1;
        }
        proof {
            assert(self.saved().take(n as int) =~= self.saved());
        }
        Ok(out)
    }

    /// Saves a new configuration; an id that is already saved is refused.
    pub fn add_connection(&mut self, config: SavedConnection) -> (r: Result<(), AppError>)
        requires
            old(self).wf(),
        ensures
            final(self).wf(),
            final(self).opened() == old(self).opened(),
            final(self).active() == old(self).active(),
            match r {
                Ok(()) => saved_entry(old(self).saved(), config@.id) is None && final(self).saved() == old(self).saved().push(
                    config@,
                ),
                Err(e) => saved_entry(old(self).saved(), config@.id) is Some && final(self).saved() == old(self).saved()
                    && (e matches AppError::Other(m) && m@ == "Connection '"@ + config@.id + "' already exists"@),
            },
    {
        let ghost s = self.saved();
        proof {
            lemma_saved_entry(s, config@.id);
        }
        match find_saved_index(&self.saved_connections, config.id.as_str()) {
            Some(i) => {
                proof {
                    lemma_saved_entry_first(s, config@.id, i as int);
                }
                let mut m = String::from_str("Connection '");
                m.append(config.id.as_str());
                m.append("' already exists");
                return Err(AppError::Other(m));
            },
            None => {
                proof {
                    lemma_saved_entry_none(s, config@.id);
                }
            },
        }
        let ghost cv = config@;
        self.saved_connections.push(config);
        proof {
            assert(self.saved() =~= s.push(cv));
            let ids = self.saved().map_values(|c: SavedConnectionView| c.id);
            let old_ids = s.map_values(|c: SavedConnectionView| c.id);
            assert(ids =~= old_ids.push(cv.id));
            assert(ids_distinct(ids)) by {
                assert forall|a: int, b: int| 0 <= a < b < ids.len() implies ids[a] != ids[b] by {
                    if b == s.len() {
                        assert(old_ids[a] == s[a].id);
                    }
                }
            }
            let li = choose|li: int| 0 <= li < old_ids.len() && old_ids[li] == "local"@;
            assert(ids[li] == "local"@);
        }
        Ok(())
    }

    /// Replaces the saved configuration with the same id as `config`.
    pub fn update_connection(&mut self, config: SavedConnection) -> (r: Result<(), AppError>)
        requires
            old(self).wf(),
        ensures
            final(self).wf(),
            final(self).opened() == old(self).opened(),
            final(self).active() == old(self).active(),
            match r {
                Ok(()) => exists|i: int| 0 <= i < old(self).saved().len() && old(self).saved()[i].id == config@.id
                    && final(self).saved() == old(self).saved().update(i, config@),
                Err(e) => saved_entry(old(self).saved(), config@.id) is None && final(self).saved() == old(self).saved()
                    && (e matches AppError::Other(m) && m@ == "Connection '"@ + config@.id + "' not found"@),
            },
    {
        let ghost s = self.saved();
        proof {
            lemma_saved_entry(s, config@.id);
        }
        match find_saved_index(&self.saved_connections, config.id.as_str()) {
            Some(i) => {
                let ghost cv = config@;
                self.saved_connections.set(i, config);
                proof {
                    assert(self.saved() =~= s.update(i as int, cv));
                    let ids = self.saved().map_values(|c: SavedConnectionView| c.id);
                    let old_ids = s.map_values(|c: SavedConnectionView| c.id);
                    assert(ids =~= old_ids);
                }
                Ok(())
            },
            None => {
                proof {
                    lemma_saved_entry_none(s, config@.id);
                }
                let mut m = String::from_str("Connection '");
                m.append(config.id.as_str());
                m.append("' not found");
                Err(AppError::Other(m))
            },
        }
    }

    /// Forgets the saved configuration `connection_id`, closing it first; the local
    /// connection cannot be removed.
    pub fn remove_connection(&mut self, connection_id: &str) -> (r: Result<(), AppError>)
        requires
            old(self).wf(),
        ensures
            final(self).wf(),
            match r {
                Ok(()) => {
                    &&& connection_id@ != "local"@
                    &&& final(self).saved() == without_saved(old(self).saved(), connection_id@)
                    &&& open_entry(final(self).opened(), connection_id@) is None
                    &&& forall|id: Seq<char>| id != connection_id@ ==> open_entry(final(self).opened(), id)
                        == open_entry(old(self).opened(), id)
                    &&& final(self).active() == (if old(self).active() == Some(connection_id@) {
                        None
                    } else {
                        old(self).active()
                    })
                },
                Err(e) => connection_id@ == "local"@ && final(self).saved() == old(self).saved() && final(self).opened()
                    == old(self).opened() && final(self).active() == old(self).active() && (e matches AppError::Other(m)
                    && m@ == "Cannot remove local connection"@),
            },
    {
        if str_eq(connection_id, "local") {
            return Err(AppError::Other(String::from_str("Cannot remove local connection")));
        }
        let _ = self.disconnect(connection_id);
        let ghost s = self.saved();
        let ghost p = |c: SavedConnectionView| c.id != connection_id@;
        let mut old_saved: Vec<SavedConnection> = Vec::new();
        std::mem::swap(&mut old_saved, &mut self.saved_connections);
        let n = old_saved.len();
        let mut rest = old_saved;
        let mut items: Vec<SavedConnection> = Vec::new();
        proof {
            assert(saved_view(rest@) == s);
        }
        while rest.len() > 0
            invariant
                rest@.len() + items@.len() == n,
                n == s.len(),
                forall|i: int| 0 <= i < rest@.len() ==> rest@[i]@ == s[i],
                forall|i: int| 0 <= i < items@.len() ==> items@[i]@ == s[n - 1 - i],
            decreases rest@.len(),
        {
            let x = rest.pop().unwrap();
            items.push(x);
        }
        let mut kept: Vec<SavedConnection> = Vec::new();
        let mut k: usize = 0;
        while k < n
            invariant
                k <= n,
                n == s.len(),
                items@.len() == n - k,
                forall|i: int| 0 <= i < items@.len() ==> items@[i]@ == s[n - 1 - i],
                saved_view(kept@) == without_saved(s.take(k as int), connection_id@),
            decreases n - k,
        {
            let x = items.pop().unwrap();
            proof {
                reveal(Seq::filter);
                assert(s.take(k + 1).drop_last() =~= s.take(k as int));
                assert(s.take(k + 1).last() == x@);
            }
            if !str_eq(x.id.as_str(), connection_id) {
                let ghost prev = kept@;
                kept.push(x);
                proof {
                    assert(saved_view(kept@) =~= saved_view(prev).push(s[k as int]));
                }
            }
            k = k + 1;
        }
        self.saved_connections = kept;
        proof {
            assert(s.take(n as int) =~= s);
            lemma_saved_filter_props(s, connection_id@);
        }
        Ok(())
    }
}

proof fn lemma_open_entry_update(s: Seq<(Seq<char>, SavedConnectionView)>, i: int, x: (Seq<char>, SavedConnectionView), id: Seq<char>)
    requires
        0 <= i < s.len(),
        id != x.0,
        id != s[i].0,
    ensures
        open_entry(s.update(i, x), id) == open_entry(s, id),
    decreases s.len(),
{
    if s.len() > 0 {
        if i == 0 {
            assert(s.update(0, x).drop_first() =~= s.drop_first());
        } else {
            assert(s.update(i, x)[0] == s[0]);
            assert(s.update(i, x).drop_first() =~= s.drop_first().update(i - 1, x));
            lemma_open_entry_update(s.drop_first(), i - 1, x, id);
        }
    }
}

proof fn lemma_open_entry_push(s: Seq<(Seq<char>, SavedConnectionView)>, x: (Seq<char>, SavedConnectionView), id: Seq<char>)
    requires
        id != x.0,
    ensures
        open_entry(s.push(x), id) == open_entry(s, id),
    decreases s.len(),
{
    if s.len() == 0 {
        assert(s.push(x).drop_first() =~= s);
    } else {
        assert(s.push(x)[0] == s[0]);
        assert(s.push(x).drop_first() =~= s.drop_first().push(x));
        lemma_open_entry_push(s.drop_first(), x, id);
    }
}

/// Dropping the entries of `id` from distinct open entries keeps them distinct and
/// consistent, removes `id` and leaves every other lookup as it was.
proof fn lemma_filter_props(s: Seq<(Seq<char>, SavedConnectionView)>, id: Seq<char>)
    ensures
        open_entry(without_open(s, id), id) is None,
        forall|other: Seq<char>| other != id ==> open_entry(without_open(s, id), other) == open_entry(s, other),
        ids_distinct(s.map_values(|e: (Seq<char>, SavedConnectionView)| e.0)) ==> ids_distinct(
            without_open(s, id).map_values(|e: (Seq<char>, SavedConnectionView)| e.0),
        ),
        (forall|i: int| 0 <= i < s.len() ==> (#[trigger] s[i]).1.id == s[i].0) ==> (forall|i: int|
            0 <= i < without_open(s, id).len() ==> (#[trigger] without_open(s, id)[i]).1.id == without_open(s, id)[i].0),
    decreases s.len(),
{
    reveal(Seq::filter);
    let f = without_open(s, id);
    if s.len() == 0 {
        assert(f =~= s);
    } else {
        let init = s.drop_last();
        let last = s.last();
        lemma_filter_props(init, id);
        let fi = without_open(init, id);
        assert(f == if last.0 != id { fi.push(last) } else { fi });
        assert(init.push(last) =~= s);
        if last.0 != id {
            lemma_open_entry_push(fi, last, id);
            assert forall|other: Seq<char>| other != id implies open_entry(f, other) == open_entry(s, other) by {
                lemma_open_entry_concat_last(fi, last, other);
                lemma_open_entry_concat_last(init, last, other);
            }
        } else {
            assert forall|other: Seq<char>| other != id implies open_entry(f, other) == open_entry(s, other) by {
                lemma_open_entry_push(init, last, other);
            }
        }
        let ids = s.map_values(|e: (Seq<char>, SavedConnectionView)| e.0);
        if ids_distinct(ids) {
            let ii = init.map_values(|e: (Seq<char>, SavedConnectionView)| e.0);
            assert(ids_distinct(ii)) by {
                assert forall|a: int, b: int| 0 <= a < b < ii.len() implies ii[a] != ii[b] by {
                    assert(ii[a] == ids[a] && ii[b] == ids[b]);
                }
            }
            if last.0 != id {
                let fids = f.map_values(|e: (Seq<char>, SavedConnectionView)| e.0);
                let fiids = fi.map_values(|e: (Seq<char>, SavedConnectionView)| e.0);
                assert forall|a: int, b: int| 0 <= a < b < fids.len() implies fids[a] != fids[b] by {
                    if b == fi.len() {
                        lemma_without_open_member(init, id, a);
                        let k = choose|k: int| 0 <= k < init.len() && init[k] == fi[a];
                        assert(ids[k] == init[k].0);
                        assert(ids[s.len() - 1] == last.0);
                    } else {
                        assert(fids[a] == fiids[a] && fids[b] == fiids[b]);
                    }
                }
            }
        }
        if forall|i: int| 0 <= i < s.len() ==> (#[trigger] s[i]).1.id == s[i].0 {
            assert forall|i: int| 0 <= i < init.len() implies (#[trigger] init[i]).1.id == init[i].0 by {
                assert(init[i] == s[i]);
            }
            assert forall|i: int| 0 <= i < f.len() implies (#[trigger] f[i]).1.id == f[i].0 by {
                if i < fi.len() {
                    assert(f[i] == fi[i]);
                } else {
                    assert(f[i] == s[s.len() - 1]);
                }
            }
        }
    }
}

proof fn lemma_without_open_member(s: Seq<(Seq<char>, SavedConnectionView)>, id: Seq<char>, a: int)
    requires
        0 <= a < without_open(s, id).len(),
    ensures
        exists|k: int| 0 <= k < s.len() && s[k] == without_open(s, id)[a],
    decreases s.len(),
{
    reveal(Seq::filter);
    if s.len() > 0 {
        let init = s.drop_last();
        let fi = without_open(init, id);
        assert(without_open(s, id) == if s.last().0 != id { fi.push(s.last()) } else { fi });
        if a < fi.len() {
            lemma_without_open_member(init, id, a);
            let k = choose|k: int| 0 <= k < init.len() && init[k] == fi[a];
            assert(s[k] == init[k]);
        } else {
            assert(s[s.len() - 1] == s.last());
        }
    }
}

/// Looking `id` up in `s` with `x` pushed finds the entry of `s` when there is one.
proof fn lemma_open_entry_concat_last(s: Seq<(Seq<char>, SavedConnectionView)>, x: (Seq<char>, SavedConnectionView), id: Seq<char>)
    ensures
        open_entry(s.push(x), id) == match open_entry(s, id) {
            Some(c) => Some(c),
            None => if x.0 == id {
                Some(x.1)
            } else {
                None
            },
        },
    decreases s.len(),
{
    if s.len() == 0 {
        assert(s.push(x).drop_first() =~= s);
    } else {
        assert(s.push(x)[0] == s[0]);
        assert(s.push(x).drop_first() =~= s.drop_first().push(x));
        lemma_open_entry_concat_last(s.drop_first(), x, id);
    }
}

/// Dropping the saved configurations of `id` keeps the others' ids distinct and keeps
/// the local one unless `id` is `local`.
proof fn lemma_saved_filter_props(s: Seq<SavedConnectionView>, id: Seq<char>)
    ensures
        ids_distinct(s.map_values(|c: SavedConnectionView| c.id)) ==> ids_distinct(
            without_saved(s, id).map_values(|c: SavedConnectionView| c.id),
        ),
        id != "local"@ && s.map_values(|c: SavedConnectionView| c.id).contains("local"@) ==> without_saved(
            s,
            id,
        ).map_values(|c: SavedConnectionView| c.id).contains("local"@),
    decreases s.len(),
{
    reveal(Seq::filter);
    let f = without_saved(s, id);
    if s.len() == 0 {
        assert(f =~= s);
    } else {
        let init = s.drop_last();
        let last = s.last();
        lemma_saved_filter_props(init, id);
        let fi = without_saved(init, id);
        assert(f == if last.id != id { fi.push(last) } else { fi });
        let ids = s.map_values(|c: SavedConnectionView| c.id);
        let iids = init.map_values(|c: SavedConnectionView| c.id);
        let fids = f.map_values(|c: SavedConnectionView| c.id);
        let fiids = fi.map_values(|c: SavedConnectionView| c.id);
        if ids_distinct(ids) {
            assert(ids_distinct(iids)) by {
                assert forall|a: int, b: int| 0 <= a < b < iids.len() implies iids[a] != iids[b] by {
                    assert(iids[a] == ids[a] && iids[b] == ids[b]);
                }
            }
            if last.id != id {
                assert forall|a: int, b: int| 0 <= a < b < fids.len() implies fids[a] != fids[b] by {
                    if b == fi.len() {
                        assert(fi.contains(fi[a]));
                        init.lemma_filter_contains_rev(|c: SavedConnectionView| c.id != id, fi[a]);
                        let k = choose|k: int| 0 <= k < init.len() && init[k] == fi[a];
                        assert(ids[k] == init[k].id);
                        assert(ids[s.len() - 1] == last.id);
                    } else {
                        assert(fids[a] == fiids[a] && fids[b] == fiids[b]);
                    }
                }
            }
        }
        if id != "local"@ && ids.contains("local"@) {
            let k = choose|k: int| 0 <= k < ids.len() && ids[k] == "local"@;
            if k < init.len() {
                assert(iids[k] == "local"@);
                let m = choose|m: int| 0 <= m < fiids.len() && fiids[m] == "local"@;
                assert(fids[m] == "local"@);
            } else {
                assert(last.id == "local"@);
                assert(fids[fi.len() as int] == "local"@);
            }
        }
    }
}


/// A connection saved under a new id is found again under that id.
pub proof fn law_added_connection_is_found(saved: Seq<SavedConnectionView>, c: SavedConnectionView)
    requires
        saved_entry(saved, c.id) is None,
    ensures
        saved_entry(saved.push(c), c.id) == Some(c),
    decreases saved.len(),
{
    lemma_saved_entry(saved, c.id);
    assert forall|k: int| 0 <= k < saved.len() implies saved.push(c)[k].id != c.id by {
        assert(saved.push(c)[k] == saved[k]);
    }
    lemma_saved_entry_first(saved.push(c), c.id, saved.len() as int);
}

/// A removed connection is no longer found.
pub proof fn law_removed_connection_is_gone(saved: Seq<SavedConnectionView>, id: Seq<char>)
    ensures
        saved_entry(without_saved(saved, id), id) is None,
{
    let f = without_saved(saved, id);
    assert forall|k: int| 0 <= k < f.len() implies f[k].id != id by {
        broadcast use vstd::seq_lib::group_filter_ensures;
        assert(f.contains(f[k]));
    }
    lemma_saved_entry_none(f, id);
}

/// In every registry, no two saved connections share an id, no two open connections
/// share an id, each open connection keeps its own id, and the selected connection is
/// open.
pub proof fn law_registry_ids_are_distinct(svc: ConnectionService)
    requires
        svc.wf(),
    ensures
        forall|i: int, j: int|
            0 <= i < j < svc.saved().len() ==> (#[trigger] svc.saved()[i]).id != (#[trigger] svc.saved()[j]).id,
        forall|i: int, j: int|
            0 <= i < j < svc.opened().len() ==> (#[trigger] svc.opened()[i]).0 != (#[trigger] svc.opened()[j]).0,
        forall|i: int| 0 <= i < svc.opened().len() ==> (#[trigger] svc.opened()[i]).1.id == svc.opened()[i].0,
        svc.active() matches Some(a) ==> open_entry(svc.opened(), a) is Some,
{
    let ids = svc.saved().map_values(|c: SavedConnectionView| c.id);
    let oids = svc.opened().map_values(|e: (Seq<char>, SavedConnectionView)| e.0);
    assert forall|i: int, j: int|
        0 <= i < j < svc.saved().len() implies (#[trigger] svc.saved()[i]).id != (#[trigger] svc.saved()[j]).id by {
        assert(ids[i] == svc.saved()[i].id && ids[j] == svc.saved()[j].id);
    }
    assert forall|i: int, j: int|
        0 <= i < j < svc.opened().len() implies (#[trigger] svc.opened()[i]).0 != (#[trigger] svc.opened()[j]).0 by {
        assert(oids[i] == svc.opened()[i].0 && oids[j] == svc.opened()[j].0);
    }
}

/// Every well-formed registry has the local connection saved.
pub proof fn law_local_connection_is_always_saved(svc: ConnectionService)
    requires
        svc.wf(),
    ensures
        saved_entry(svc.saved(), "local"@) is Some,
{
    let ids = svc.saved().map_values(|c: SavedConnectionView| c.id);
    let k = choose|k: int| 0 <= k < ids.len() && ids[k] == "local"@;
    assert(svc.saved()[k].id == "local"@);
    lemma_saved_entry(svc.saved(), "local"@);
}

/// Host devices, consoles and the guest agent are offered on the local system connection
/// and on no other; resource management and migration are offered on every connection.
pub proof fn law_only_local_system_offers_host_local_capabilities(scope: ConnectionScope, checked_at: Seq<char>)
    ensures
        forall|k: int|
            0 <= k < 5 ==> {
                let c = #[trigger] capabilities_of(scope, checked_at)[k];
                if c.0 == "hostDevice"@ || c.0 == "console"@ || c.0 == "guestAgent"@ {
                    (c.1 == CapabilityState::Available) == (scope == ConnectionScope::LocalSystem)
                } else {
                    c.1 == CapabilityState::Available
                }
            },
{
    reveal_strlit("hostDevice");
    reveal_strlit("console");
    reveal_strlit("guestAgent");
    reveal_strlit("resourceManagement");
    reveal_strlit("migration");
    let caps = capabilities_of(scope, checked_at);
    assert("resourceManagement"@.len() != "hostDevice"@.len());
    assert("resourceManagement"@.len() != "console"@.len());
    assert("resourceManagement"@.len() != "guestAgent"@.len());
    assert("migration"@.len() != "hostDevice"@.len());
    assert("migration"@.len() != "console"@.len());
    assert("migration"@.len() != "guestAgent"@.len());
    assert forall|k: int|
        0 <= k < 5 implies {
            let c = #[trigger] capabilities_of(scope, checked_at)[k];
            if c.0 == "hostDevice"@ || c.0 == "console"@ || c.0 == "guestAgent"@ {
                (c.1 == CapabilityState::Available) == (scope == ConnectionScope::LocalSystem)
            } else {
                c.1 == CapabilityState::Available
            }
        } by {
        if k == 0 {
            assert(caps[0].0 == "resourceManagement"@);
        } else if k == 2 {
            assert(caps[2].0 == "migration"@);
        }
    }
}

/// A text that stands at `i` of `s` is found in `s`.
proof fn lemma_found_in(s: Seq<char>, p: Seq<char>, i: int)
    requires
        0 <= i,
        i + p.len() <= s.len(),
        s.subrange(i, i + p.len()) == p,
    ensures
        contains(s, p),
{
    assert(occurs_at(s, p, i));
    crate::text::lemma_find_from_props(s, p, 0);
}

/// The URI of a remote connection points at the host the user gave: right after `://`
/// (and the user part, for SSH) stands that host, in both the key-based and the password
/// form of an SSH URI.
pub proof fn law_remote_uri_names_its_host(c: SavedConnectionView, h: Seq<char>)
    requires
        c.connection_type != ConnectionType::Local,
        c.host == Some(h),
    ensures
        c.connection_type == ConnectionType::Ssh ==> contains(
            uri_of(c),
            "://"@ + or_default(c.username, "root"@) + "@"@ + h,
        ) && contains(password_uri_of(c), "://"@ + or_default(c.username, "root"@) + "@"@ + h),
        c.connection_type != ConnectionType::Ssh ==> contains(uri_of(c), "://"@ + h),
{
    reveal_strlit("://");
    reveal_strlit("+tcp://");
    reveal_strlit("+tls://");
    reveal_strlit("+");
    let u = uri_of(c);
    match c.connection_type {
        ConnectionType::Tcp => {
            let p = "://"@ + h;
            let i: int = c.hypervisor.len() as int + 4;
            assert(u.subrange(i, i + p.len() as int) =~= p);
            lemma_found_in(u, p, i);
        },
        ConnectionType::Tls => {
            let p = "://"@ + h;
            let i: int = c.hypervisor.len() as int + 4;
            assert(u.subrange(i, i + p.len() as int) =~= p);
            lemma_found_in(u, p, i);
        },
        ConnectionType::Ssh => {
            reveal_strlit("ssh");
            reveal_strlit("libssh2");
            let p = "://"@ + or_default(c.username, "root"@) + "@"@ + h;
            let i: int = c.hypervisor.len() as int + 4;
            assert(u.subrange(i, i + p.len() as int) =~= p);
            lemma_found_in(u, p, i);
            let w = password_uri_of(c);
            let j: int = c.hypervisor.len() as int + 8;
            assert(w.subrange(j, j + p.len() as int) =~= p);
            lemma_found_in(w, p, j);
        },
        ConnectionType::Local => {},
    }
}

} // verus!
