//! The allow-list of automated readiness repairs: each is a fixed package installation
//! whose program and arguments are owned by the library, never by the caller.
use crate::distribution::{DistributionFamily, DistributionProfile};
use crate::operation::ConnectionScope;
use crate::text::is_alnum;
use vstd::prelude::*;

verus! {

/// How an attempted repair ended.
#[derive(Clone, Copy, Debug, PartialEq, Eq, Structural)]
pub enum ReadinessRepairOutcome {
    Applied,
    Cancelled,
    Rejected,
    Failed,
    InspectionRequired,
}

#[derive(Debug)]
pub struct ReadinessRepairResult {
    pub action_id: String,
    pub connection_id: String,
    pub outcome: ReadinessRepairOutcome,
    pub summary: String,
}

/// A privileged command: an absolute program path and its arguments.
#[derive(Debug)]
pub struct RepairPlan {
    pub program: &'static str,
    pub args: Vec<&'static str>,
}

pub open spec fn args_view(v: Seq<&'static str>) -> Seq<Seq<char>> {
    v.map_values(|s: &'static str| s@)
}

impl View for RepairPlan {
    type V = (Seq<char>, Seq<Seq<char>>);

    open spec fn view(&self) -> (Seq<char>, Seq<Seq<char>>) {
        (self.program@, args_view(self.args@))
    }
}

pub open spec fn known_action(action: Seq<char>) -> bool {
    action == "install_firmware"@ || action == "install_tpm"@
}

/// The command of an action for a family, before the supported-profile gate.
pub open spec fn family_plan(action: Seq<char>, family: DistributionFamily) -> Option<
    (Seq<char>, Seq<Seq<char>>),
> {
    if action == "install_firmware"@ {
        match family {
            DistributionFamily::ArchCachyos => Some(
                ("/usr/bin/pacman"@, seq!["-S"@, "--needed"@, "--noconfirm"@, "edk2-ovmf"@]),
            ),
            DistributionFamily::DebianUbuntu => Some(
                ("/usr/bin/apt-get"@, seq!["install"@, "-y"@, "ovmf"@]),
            ),
            DistributionFamily::FedoraRhel => Some(
                ("/usr/bin/dnf"@, seq!["install"@, "-y"@, "edk2-ovmf"@]),
            ),
            DistributionFamily::Opensuse => Some(
                (
                    "/usr/bin/zypper"@,
                    seq!["--non-interactive"@, "install"@, "qemu-ovmf-x86_64"@],
                ),
            ),
            DistributionFamily::BestEffort => None,
        }
    } else if action == "install_tpm"@ {
        match family {
            DistributionFamily::ArchCachyos => Some(
                ("/usr/bin/pacman"@, seq!["-S"@, "--needed"@, "--noconfirm"@, "swtpm"@]),
            ),
            DistributionFamily::DebianUbuntu => Some(
                ("/usr/bin/apt-get"@, seq!["install"@, "-y"@, "swtpm-tools"@]),
            ),
            DistributionFamily::FedoraRhel => Some(
                ("/usr/bin/dnf"@, seq!["install"@, "-y"@, "swtpm"@]),
            ),
            DistributionFamily::Opensuse => Some(
                ("/usr/bin/zypper"@, seq!["--non-interactive"@, "install"@, "swtpm"@]),
            ),
            DistributionFamily::BestEffort => None,
        }
    } else {
        None
    }
}

/// The command of an action for a profile: only supported profiles get one.
pub open spec fn plan_for(action: Seq<char>, family: DistributionFamily, supported: bool) -> Option<
    (Seq<char>, Seq<Seq<char>>),
> {
    if supported {
        family_plan(action, family)
    } else {
        None
    }
}

/// The outcome that the exit status of the privileged command maps to. `None` stands for
/// a command that could not be started.
pub open spec fn outcome_for(status: Option<(bool, Option<i32>)>) -> ReadinessRepairOutcome {
    match status {
        None => ReadinessRepairOutcome::InspectionRequired,
        Some((success, code)) => if success {
            ReadinessRepairOutcome::Applied
        } else if code == Some(126i32) {
            ReadinessRepairOutcome::Cancelled
        } else if code == Some(127i32) {
            ReadinessRepairOutcome::Rejected
        } else {
            ReadinessRepairOutcome::Failed
        },
    }
}

pub open spec fn summary_for(outcome: ReadinessRepairOutcome) -> Seq<char> {
    match outcome {
        ReadinessRepairOutcome::InspectionRequired => "Desktop privilege authorization is unavailable. Follow the guided manual steps."@,
        ReadinessRepairOutcome::Applied => "The repair completed. Readiness will now be checked again."@,
        ReadinessRepairOutcome::Cancelled => "Authorization was cancelled. No successful repair was recorded."@,
        ReadinessRepairOutcome::Rejected => "Authorization was not granted. Use the guided manual steps or retry."@,
        ReadinessRepairOutcome::Failed => "The repair did not complete. Review the guided steps and retry."@,
    }
}

pub struct ReadinessRepairService;

fn make_plan(program: &'static str, args: &[&'static str]) -> (r: RepairPlan)
    ensures
        r@ == (program@, args_view(args@)),
{
    let mut v: Vec<&'static str> = Vec::new();
    let mut i: usize = 0;
    while i < args.len()
        invariant
            i <= args@.len(),
            v@ == args@.subrange(0, i as int),
        decreases args@.len() - i,
    {
        v.push(args[i]);
        proof {
            assert(args@.subrange(0, i + 1) =~= args@.subrange(0, i as int).push(args@[i as int]));
        }
        i = i + 1;
    }
    proof {
        assert(args@.subrange(0, args@.len() as int) =~= args@);
    }
    RepairPlan { program, args: v }
}

impl ReadinessRepairService {
    /// Whether the action id names an automated repair at all.
    pub fn is_known_action(action_id: &str) -> (r: bool)
        ensures
            r == known_action(action_id@),
    {
        crate::text::str_eq(action_id, "install_firmware") || crate::text::str_eq(
            action_id,
            "install_tpm",
        )
    }

    /// The privileged command that repairs `action_id` on a host with `profile`.
    pub fn plan(action_id: &str, profile: &DistributionProfile) -> (r: Option<RepairPlan>)
        ensures
            match r {
                Some(p) => plan_for(action_id@, profile.family, profile.supported) == Some(p@),
                None => plan_for(action_id@, profile.family, profile.supported) is None,
            },
    {
        let firmware = crate::text::str_eq(action_id, "install_firmware");
        let tpm = crate::text::str_eq(action_id, "install_tpm");
        let plan = if firmware {
            match profile.family {
                DistributionFamily::ArchCachyos => {
                    let a = ["-S", "--needed", "--noconfirm", "edk2-ovmf"];
                    let p = make_plan("/usr/bin/pacman", &a);
                    proof {
                        assert(args_view(a@) =~= seq!["-S"@, "--needed"@, "--noconfirm"@, "edk2-ovmf"@]);
                    }
                    p
                },
                DistributionFamily::DebianUbuntu => {
                    let a = ["install", "-y", "ovmf"];
                    let p = make_plan("/usr/bin/apt-get", &a);
                    proof {
                        assert(args_view(a@) =~= seq!["install"@, "-y"@, "ovmf"@]);
                    }
                    p
                },
                DistributionFamily::FedoraRhel => {
                    let a = ["install", "-y", "edk2-ovmf"];
                    let p = make_plan("/usr/bin/dnf", &a);
                    proof {
                        assert(args_view(a@) =~= seq!["install"@, "-y"@, "edk2-ovmf"@]);
                    }
                    p
                },
                DistributionFamily::Opensuse => {
                    let a = ["--non-interactive", "install", "qemu-ovmf-x86_64"];
                    let p = make_plan("/usr/bin/zypper", &a);
                    proof {
                        assert(args_view(a@) =~= seq!["--non-interactive"@, "install"@, "qemu-ovmf-x86_64"@]);
                    }
                    p
                },
                DistributionFamily::BestEffort => return None,
            }
        } else if tpm {
            match profile.family {
                DistributionFamily::ArchCachyos => {
                    let a = ["-S", "--needed", "--noconfirm", "swtpm"];
                    let p = make_plan("/usr/bin/pacman", &a);
                    proof {
                        assert(args_view(a@) =~= seq!["-S"@, "--needed"@, "--noconfirm"@, "swtpm"@]);
                    }
                    p
                },
                DistributionFamily::DebianUbuntu => {
                    let a = ["install", "-y", "swtpm-tools"];
                    let p = make_plan("/usr/bin/apt-get", &a);
                    proof {
                        assert(args_view(a@) =~= seq!["install"@, "-y"@, "swtpm-tools"@]);
                    }
                    p
                },
                DistributionFamily::FedoraRhel => {
                    let a = ["install", "-y", "swtpm"];
                    let p = make_plan("/usr/bin/dnf", &a);
                    proof {
                        assert(args_view(a@) =~= seq!["install"@, "-y"@, "swtpm"@]);
                    }
                    p
                },
                DistributionFamily::Opensuse => {
                    let a = ["--non-interactive", "install", "swtpm"];
                    let p = make_plan("/usr/bin/zypper", &a);
                    proof {
                        assert(args_view(a@) =~= seq!["--non-interactive"@, "install"@, "swtpm"@]);
                    }
                    p
                },
                DistributionFamily::BestEffort => return None,
            }
        } else {
            return None;
        };
        if profile.supported {
            Some(plan)
        } else {
            None
        }
    }

    /// Whether `action_id` has an automated repair for `profile`.
    pub fn is_automated_action(action_id: &str, profile: &DistributionProfile) -> (r: bool)
        ensures
            r == plan_for(action_id@, profile.family, profile.supported) is Some,
    {
        Self::plan(action_id, profile).is_some()
    }

    /// Whether the repair may run on the selected connection: only for the local system.
    pub fn is_allowed(scope: &ConnectionScope, action_id: &str, profile: &DistributionProfile) -> (r:
        bool)
        ensures
            r == (*scope == ConnectionScope::LocalSystem && plan_for(
                action_id@,
                profile.family,
                profile.supported,
            ) is Some),
    {
        *scope == ConnectionScope::LocalSystem && Self::is_automated_action(action_id, profile)
    }

    /// The result reported for a repair whose command ended with `status`: `None` when the
    /// command could not be started, otherwise whether it succeeded and its exit code.
    pub fn repair_result(
        action_id: &str,
        connection_id: &str,
        status: Option<(bool, Option<i32>)>,
    ) -> (r: ReadinessRepairResult)
        ensures
            r.action_id@ == action_id@,
            r.connection_id@ == connection_id@,
            r.outcome == outcome_for(status),
            r.summary@ == summary_for(r.outcome),
    {
        let (outcome, summary) = match status {
            None => (
                ReadinessRepairOutcome::InspectionRequired,
                "Desktop privilege authorization is unavailable. Follow the guided manual steps.",
            ),
            Some((success, code)) => {
                if success {
                    (
                        ReadinessRepairOutcome::Applied,
                        "The repair completed. Readiness will now be checked again.",
                    )
                } else if code == Some(126i32) {
                    (
                        ReadinessRepairOutcome::Cancelled,
                        "Authorization was cancelled. No successful repair was recorded.",
                    )
                } else if code == Some(127i32) {
                    (
                        ReadinessRepairOutcome::Rejected,
                        "Authorization was not granted. Use the guided manual steps or retry.",
                    )
                } else {
                    (
                        ReadinessRepairOutcome::Failed,
                        "The repair did not complete. Review the guided steps and retry.",
                    )
                }
            },
        };
        ReadinessRepairResult {
            action_id: String::from_str(action_id),
            connection_id: String::from_str(connection_id),
            outcome,
            summary: String::from_str(summary),
        }
    }
}

// ---------------------------------------------------------------------------
// Laws
// ---------------------------------------------------------------------------

/// Characters that can appear in a repair argument.
pub open spec fn safe_arg_char(c: char) -> bool {
    is_alnum(c) || c == '-' || c == '_' || c == '.'
}

/// Every repair command the library can run names an executable under `/usr/bin/`, and
/// each of its arguments is built only from letters, digits, `-`, `_` and `.` (so none
/// holds a shell separator or substitution).
pub proof fn law_repair_commands_are_backend_owned(
    action: Seq<char>,
    family: DistributionFamily,
    supported: bool,
)
    ensures
        plan_for(action, family, supported) matches Some((program, args)) ==> {
            &&& crate::text::starts_with(program, "/usr/bin/"@)
            &&& forall|k: int, i: int|
                0 <= k < args.len() && 0 <= i < args[k].len() ==> safe_arg_char(
                    #[trigger] args[k][i],
                )
        },
{
    reveal_strlit("/usr/bin/");
    reveal_strlit("/usr/bin/pacman");
    reveal_strlit("/usr/bin/apt-get");
    reveal_strlit("/usr/bin/dnf");
    reveal_strlit("/usr/bin/zypper");
    reveal_strlit("-S");
    reveal_strlit("--needed");
    reveal_strlit("--noconfirm");
    reveal_strlit("edk2-ovmf");
    reveal_strlit("install");
    reveal_strlit("-y");
    reveal_strlit("ovmf");
    reveal_strlit("--non-interactive");
    reveal_strlit("qemu-ovmf-x86_64");
    reveal_strlit("swtpm");
    reveal_strlit("swtpm-tools");
    if let Some((program, args)) = plan_for(action, family, supported) {
        assert(program.subrange(0, 9) =~= "/usr/bin/"@);
        assert forall|k: int, i: int|
            0 <= k < args.len() && 0 <= i < args[k].len() implies safe_arg_char(
            #[trigger] args[k][i],
        ) by {
            let a = args[k];
            assert(a == "-S"@ || a == "--needed"@ || a == "--noconfirm"@ || a == "edk2-ovmf"@ || a
                == "install"@ || a == "-y"@ || a == "ovmf"@ || a == "--non-interactive"@ || a
                == "qemu-ovmf-x86_64"@ || a == "swtpm"@ || a == "swtpm-tools"@);
        }
    }
}

/// A repair is automated only for a known action on a supported profile, and allowed only
/// on the local system connection.
pub proof fn law_repairs_are_allow_listed(
    scope: ConnectionScope,
    action: Seq<char>,
    family: DistributionFamily,
    supported: bool,
)
    ensures
        plan_for(action, family, supported) is Some ==> known_action(action) && supported
            && family != DistributionFamily::BestEffort,
{
}

} // verus!
