//! The privilege-transition sequence: a strict, non-reorderable state
//! machine that provisions the requested identity, runs the root-context
//! hook, drops privileges in the one safe order — supplementary groups
//! first, then the gid, then the uid — rebinds the identity environment,
//! runs the user-context hook, and finally asks for the process image to
//! be replaced.
//!
//! The machine decides; the surrounding shell acts.  Each call to
//! `next_action` names the single piece of outside work the current stage
//! needs, and `advance` consumes the shell's report of how that work
//! ended.  Any reported failure is fatal and final: the machine moves to
//! its failed state and never asks for further work, so no program can run
//! under a half-dropped privilege set.

use vstd::prelude::*;

use crate::config::Context;
use crate::entfiles::EntFileWriter;
use crate::entfiles::entries_of_content;
use crate::groups::GroupEntry;
use crate::groups::group_line_of;
use crate::passwd::PasswdEntry;
use crate::passwd::passwd_line_of;
use crate::provision::ProvisionError;
use crate::provision::ScanDecision;
use crate::provision::group_gid_collision;
use crate::provision::group_scan;
use crate::provision::home_dir_spec;
use crate::provision::new_group_v;
use crate::provision::new_passwd_v;
use crate::provision::new_shadow_v;
use crate::provision::shadow_scan;
use crate::provision::user_scan;
use crate::provision::user_uid_collision;
use crate::shadow::ShadowEntry;
use crate::shadow::shadow_line_of;
use vstd::string::StringExecFns;

verus! {

/// One unit of outside work the shell performs on the machine's behalf.
pub enum Action {
    /// Create the directory (and parents) if absent, force owner-only
    /// permission bits, and give it to the target uid and gid.
    MakeHomeDir { path: String, uid: u32, gid: u32 },
    /// Open the named file for reading and appending, creating it if
    /// absent, and report its entire text.
    ReadFile { path: String },
    /// Append the given text to the named file through the same handle
    /// and report how many bytes the write consumed.
    AppendFile { path: String, data: String },
    /// Copy the named program's read permission bits into its execute
    /// bits, run it to completion, and report how it ended.
    RunHook { path: String },
    /// Clear all supplementary group memberships.
    ClearGroups,
    /// Set the real and effective group id.
    SetGid { gid: u32 },
    /// Set the real and effective user id.
    SetUid { uid: u32 },
    /// Overwrite one environment variable of the process.
    SetEnvVar { name: String, value: String },
    /// Apply the configured umask.
    ApplyUmask { mask: u32 },
    /// Replace the process image with the target program and argument
    /// vector; on success this never reports back.
    Exec,
}

/// The shell's report of how one action ended.
pub enum Event {
    /// The action completed successfully and has nothing to report.
    Succeeded,
    /// The file was read; its entire text.
    FileRead { content: String },
    /// The append call consumed this many bytes.
    Wrote { count: usize },
    /// The hook process exited with this status code.
    HookExited { code: i32 },
    /// The hook process was terminated by this signal.
    HookSignaled { signal: i32 },
    /// The hook process ended in a way the shell could not classify.
    HookEndedUnknown,
    /// The action could not be performed; the shell's description of the
    /// failure.
    Failed { message: String },
}

/// A tolerated condition the caller should log.
#[derive(Debug, PartialEq, Eq)]
pub enum Warning {
    /// The requested gid is already used by a group with another name.
    GidInUse,
    /// The requested uid is already used by a user with another name.
    UidInUse,
}

/// A fatal failure of the transition; the invocation aborts.
#[derive(Debug, PartialEq, Eq)]
pub enum TransitionError {
    /// Identity provisioning found a conflict or a malformed record.
    Provision(ProvisionError),
    /// An append consumed fewer bytes than the record line holds.
    ShortWrite,
    /// The shell could not perform the requested action.
    ActionFailed { message: String },
    /// A hook exited with a non-zero status code.
    HookExit { code: i32 },
    /// A hook was terminated by a signal.
    HookSignal { signal: i32 },
    /// A hook ended for an unknown reason.
    HookUnknown,
    /// The process image could not be replaced.
    ExecFailed { message: String },
    /// The shell reported an event the current stage cannot produce.
    Protocol,
}

/// The stages of the transition, in their one permitted order.
#[derive(Debug, Clone, Copy, PartialEq, Eq, Structural)]
pub enum Stage {
    /// Create the identity's home directory.
    MakeHome,
    /// Read the group file to decide group provisioning.
    GroupRead,
    /// Append the fresh group record.
    GroupWrite,
    /// Read the passwd file to decide user provisioning.
    UserRead,
    /// Append the fresh passwd record.
    UserWrite,
    /// Read the shadow file to decide shadow provisioning.
    ShadowRead,
    /// Append the fresh shadow record.
    ShadowWrite,
    /// Run the root-context hook, still privileged.
    RootHook,
    /// Clear supplementary groups; the first drop step.
    DropGroups,
    /// Set the gid; only after supplementary groups are gone.
    DropGid,
    /// Set the uid; only after the gid, because afterwards no group
    /// change is possible any more.
    DropUid,
    /// Rebind the USER variable to the new identity.
    EnvUser,
    /// Rebind the LOGNAME variable to the new identity.
    EnvLogname,
    /// Rebind the HOME variable to the new identity.
    EnvHome,
    /// Apply the configured umask.
    Umask,
    /// Run the user-context hook as the new identity.
    UserHook,
    /// Replace the process image.
    Exec,
    /// The machine ran its whole sequence; only reachable in testing,
    /// since a successful replace never reports back.
    Done,
    /// A fatal failure was reported; no further work is ever asked for.
    Failed,
}

/// The fixed position of a stage in the sequence.
pub open spec fn stage_index(s: Stage) -> int {
    match s {
        Stage::MakeHome => 0,
        Stage::GroupRead => 1,
        Stage::GroupWrite => 2,
        Stage::UserRead => 3,
        Stage::UserWrite => 4,
        Stage::ShadowRead => 5,
        Stage::ShadowWrite => 6,
        Stage::RootHook => 7,
        Stage::DropGroups => 8,
        Stage::DropGid => 9,
        Stage::DropUid => 10,
        Stage::EnvUser => 11,
        Stage::EnvLogname => 12,
        Stage::EnvHome => 13,
        Stage::Umask => 14,
        Stage::UserHook => 15,
        Stage::Exec => 16,
        Stage::Done => 17,
        Stage::Failed => 18,
    }
}

/// Stages that only exist when an identity switch was requested.
pub open spec fn stage_requires_identity(s: Stage) -> bool {
    match s {
        Stage::MakeHome => true,
        Stage::GroupRead => true,
        Stage::GroupWrite => true,
        Stage::UserRead => true,
        Stage::UserWrite => true,
        Stage::ShadowRead => true,
        Stage::ShadowWrite => true,
        Stage::DropGroups => true,
        Stage::DropGid => true,
        Stage::DropUid => true,
        Stage::EnvUser => true,
        Stage::EnvLogname => true,
        Stage::EnvHome => true,
        Stage::UserHook => true,
        _ => false,
    }
}

/// A stage at which the machine neither asks for nor accepts anything.
pub open spec fn stage_terminal(s: Stage) -> bool {
    s == Stage::Done || s == Stage::Failed
}

// The stage the machine continues with once a phase is over, skipping
// whatever the configuration leaves out.

/// Where the machine stands after the user-context hook phase: always the
/// final replace.
pub open spec fn user_hook_stage(ctx: Context) -> Stage {
    if ctx.user_info is Some && ctx.user_hook is Some {
        Stage::UserHook
    } else {
        Stage::Exec
    }
}

/// Where the machine stands once the umask phase begins.
pub open spec fn umask_stage(ctx: Context) -> Stage {
    if ctx.umask is Some {
        Stage::Umask
    } else {
        user_hook_stage(ctx)
    }
}

/// Where the machine stands once the drop phase begins.
pub open spec fn drop_stage(ctx: Context) -> Stage {
    if ctx.user_info is Some {
        Stage::DropGroups
    } else {
        umask_stage(ctx)
    }
}

/// Where the machine stands once provisioning is over.
pub open spec fn provision_done_stage(ctx: Context) -> Stage {
    if ctx.root_hook is Some {
        Stage::RootHook
    } else {
        drop_stage(ctx)
    }
}

/// The machine's first stage.
pub open spec fn start_stage(ctx: Context) -> Stage {
    if ctx.user_info is Some {
        Stage::MakeHome
    } else {
        provision_done_stage(ctx)
    }
}

/// The byte count of a text, as the shell's write call sees it.
pub open spec fn byte_len(s: Seq<char>) -> nat {
    vstd::utf8::encode_utf8(s).len()
}

/// The ordered, irreversible privilege-transition machine.
pub struct Transition {
    ctx: Context,
    stage: Stage,
    pending: Option<String>,
    trace: Ghost<Seq<Stage>>,
}

impl Transition {
    /// The configuration the machine was started with.
    pub closed spec fn config(&self) -> Context {
        self.ctx
    }

    /// The machine's current stage.
    pub closed spec fn stage_spec(&self) -> Stage {
        self.stage
    }

    /// The text waiting to be appended by the current write stage.
    pub closed spec fn pending_spec(&self) -> Option<Seq<char>> {
        match self.pending {
            Some(s) => Some(s@),
            None => None,
        }
    }

    /// The stages completed so far, in the order they were completed.
    pub closed spec fn trace_spec(&self) -> Seq<Stage> {
        self.trace@
    }

    /// The machine's internal consistency: stages agree with the
    /// configuration, write stages have their text ready, and the
    /// completed-stage trace is strictly ordered with each drop step
    /// preceded by the one it depends on.
    pub closed spec fn wf(&self) -> bool {
        let tr = self.trace@;
        &&& (stage_requires_identity(self.stage) ==> self.ctx.user_info is Some)
        &&& (self.stage == Stage::GroupWrite || self.stage == Stage::UserWrite || self.stage
            == Stage::ShadowWrite ==> self.pending is Some)
        &&& (self.stage == Stage::RootHook ==> self.ctx.root_hook is Some)
        &&& (self.stage == Stage::UserHook ==> self.ctx.user_hook is Some)
        &&& (self.stage == Stage::Umask ==> self.ctx.umask is Some)
        &&& (forall|i: int, j: int|
            0 <= i < j < tr.len() ==> stage_index(#[trigger] tr[i]) < stage_index(
                #[trigger] tr[j],
            ))
        &&& (forall|i: int|
            0 <= i < tr.len() ==> stage_index(#[trigger] tr[i]) < stage_index(self.stage))
        &&& (self.stage == Stage::DropGid ==> tr.contains(Stage::DropGroups))
        &&& (self.stage == Stage::DropUid ==> tr.contains(Stage::DropGid))
        &&& (tr.contains(Stage::DropGid) ==> tr.contains(Stage::DropGroups))
        &&& (tr.contains(Stage::DropUid) ==> tr.contains(Stage::DropGid))
        &&& (self.ctx.user_info is None ==> !tr.contains(Stage::DropGroups) && !tr.contains(
            Stage::DropGid,
        ) && !tr.contains(Stage::DropUid))
    }

    /// Starts the transition for one validated configuration.
    pub fn new(ctx: Context) -> (t: Transition)
        ensures
            t.wf(),
            t.config() == ctx,
            t.stage_spec() == start_stage(ctx),
            t.trace_spec() =~= Seq::<Stage>::empty(),
    {
        let stage = if ctx.user_info.is_some() {
            Stage::MakeHome
        } else {
            provision_done_exec(&ctx)
        };
        Transition { ctx, stage, pending: None, trace: Ghost(Seq::empty()) }
    }

    /// The machine's current stage, for callers that report progress.
    pub fn current_stage(&self) -> (s: Stage)
        ensures
            s == self.stage_spec(),
    {
        self.stage
    }

    /// Whether the machine has nothing further to ask for.
    pub fn is_terminal(&self) -> (r: bool)
        ensures
            r == stage_terminal(self.stage_spec()),
    {
        match self.stage {
            Stage::Done => true,
            Stage::Failed => true,
            _ => false,
        }
    }

    /// Names the single piece of outside work the current stage needs.
    pub fn next_action(&self) -> (a: Action)
        requires
            self.wf(),
            !stage_terminal(self.stage_spec()),
        ensures
            ({
                let ctx = self.config();
                match self.stage_spec() {
                    Stage::MakeHome => a matches Action::MakeHomeDir { path, uid, gid } && path@
                        == home_dir_spec(ctx.user_info->0.user@) && uid == ctx.user_info->0.uid
                        && gid == ctx.user_info->0.gid,
                    Stage::GroupRead => a matches Action::ReadFile { path } && path@
                        == "/etc/group"@,
                    Stage::GroupWrite => a matches Action::AppendFile { path, data } && path@
                        == "/etc/group"@ && Some(data@) == self.pending_spec(),
                    Stage::UserRead => a matches Action::ReadFile { path } && path@
                        == "/etc/passwd"@,
                    Stage::UserWrite => a matches Action::AppendFile { path, data } && path@
                        == "/etc/passwd"@ && Some(data@) == self.pending_spec(),
                    Stage::ShadowRead => a matches Action::ReadFile { path } && path@
                        == "/etc/shadow"@,
                    Stage::ShadowWrite => a matches Action::AppendFile { path, data } && path@
                        == "/etc/shadow"@ && Some(data@) == self.pending_spec(),
                    Stage::RootHook => a matches Action::RunHook { path } && path@
                        == ctx.root_hook->0@,
                    Stage::DropGroups => a == Action::ClearGroups,
                    Stage::DropGid => a matches Action::SetGid { gid } && gid
                        == ctx.user_info->0.gid,
                    Stage::DropUid => a matches Action::SetUid { uid } && uid
                        == ctx.user_info->0.uid,
                    Stage::EnvUser => a matches Action::SetEnvVar { name, value } && name@
                        == "USER"@ && value@ == ctx.user_info->0.user@,
                    Stage::EnvLogname => a matches Action::SetEnvVar { name, value } && name@
                        == "LOGNAME"@ && value@ == ctx.user_info->0.user@,
                    Stage::EnvHome => a matches Action::SetEnvVar { name, value } && name@
                        == "HOME"@ && value@ == home_dir_spec(ctx.user_info->0.user@),
                    Stage::Umask => a matches Action::ApplyUmask { mask } && mask
                        == ctx.umask->0,
                    Stage::UserHook => a matches Action::RunHook { path } && path@
                        == ctx.user_hook->0@,
                    Stage::Exec => a == Action::Exec,
                    Stage::Done => false,
                    Stage::Failed => false,
                }
            }),
    {
        match self.stage {
            Stage::MakeHome => {
                let info = match &self.ctx.user_info {
                    Some(i) => i,
                    None => unreached(),
                };
                Action::MakeHomeDir { path: info.home_dir(), uid: info.uid, gid: info.gid }
            },
            Stage::GroupRead => Action::ReadFile { path: String::from_str("/etc/group") },
            Stage::GroupWrite => {
                let data = match &self.pending {
                    Some(d) => d.clone(),
                    None => unreached(),
                };
                Action::AppendFile { path: String::from_str("/etc/group"), data }
            },
            Stage::UserRead => Action::ReadFile { path: String::from_str("/etc/passwd") },
            Stage::UserWrite => {
                let data = match &self.pending {
                    Some(d) => d.clone(),
                    None => unreached(),
                };
                Action::AppendFile { path: String::from_str("/etc/passwd"), data }
            },
            Stage::ShadowRead => Action::ReadFile { path: String::from_str("/etc/shadow") },
            Stage::ShadowWrite => {
                let data = match &self.pending {
                    Some(d) => d.clone(),
                    None => unreached(),
                };
                Action::AppendFile { path: String::from_str("/etc/shadow"), data }
            },
            Stage::RootHook => {
                let path = match &self.ctx.root_hook {
                    Some(p) => p.clone(),
                    None => unreached(),
                };
                Action::RunHook { path }
            },
            Stage::DropGroups => Action::ClearGroups,
            Stage::DropGid => {
                let info = match &self.ctx.user_info {
                    Some(i) => i,
                    None => unreached(),
                };
                Action::SetGid { gid: info.gid }
            },
            Stage::DropUid => {
                let info = match &self.ctx.user_info {
                    Some(i) => i,
                    None => unreached(),
                };
                Action::SetUid { uid: info.uid }
            },
            Stage::EnvUser => {
                let info = match &self.ctx.user_info {
                    Some(i) => i,
                    None => unreached(),
                };
                Action::SetEnvVar { name: String::from_str("USER"), value: info.user.clone() }
            },
            Stage::EnvLogname => {
                let info = match &self.ctx.user_info {
                    Some(i) => i,
                    None => unreached(),
                };
                Action::SetEnvVar { name: String::from_str("LOGNAME"), value: info.user.clone() }
            },
            Stage::EnvHome => {
                let info = match &self.ctx.user_info {
                    Some(i) => i,
                    None => unreached(),
                };
                Action::SetEnvVar { name: String::from_str("HOME"), value: info.home_dir() }
            },
            Stage::Umask => {
                let mask = match &self.ctx.umask {
                    Some(m) => *m,
                    None => unreached(),
                };
                Action::ApplyUmask { mask }
            },
            Stage::UserHook => {
                let path = match &self.ctx.user_hook {
                    Some(p) => p.clone(),
                    None => unreached(),
                };
                Action::RunHook { path }
            },
            Stage::Exec => Action::Exec,
            Stage::Done => unreached(),
            Stage::Failed => unreached(),
        }
    }
}

impl Transition {
    /// Consumes the shell's report of how the current stage's action
    /// ended, and moves to the next stage — or to the failed state, from
    /// which no further work is ever asked for.  Every reported failure,
    /// conflict, malformed record, short write, non-zero hook exit and
    /// protocol violation is fatal.
    pub fn advance(&mut self, ev: Event) -> (r: Result<Option<Warning>, TransitionError>)
        requires
            old(self).wf(),
            !stage_terminal(old(self).stage_spec()),
        ensures
            final(self).wf(),
            final(self).config() == old(self).config(),
            r is Ok ==> final(self).trace_spec() == old(self).trace_spec().push(
                old(self).stage_spec(),
            ) && (!stage_terminal(final(self).stage_spec()) || final(self).stage_spec()
                == Stage::Done),
            r is Err ==> final(self).stage_spec() == Stage::Failed && final(self).trace_spec()
                == old(self).trace_spec(),
            (ev matches Event::Failed { .. }) ==> r is Err,
            ({
                let st = old(self).stage_spec();
                match ev {
                    Event::Failed { message } => if st == Stage::Exec {
                        r == Err::<Option<Warning>, TransitionError>(
                            TransitionError::ExecFailed { message },
                        )
                    } else {
                        r == Err::<Option<Warning>, TransitionError>(
                            TransitionError::ActionFailed { message },
                        )
                    },
                    _ => true,
                }
            }),
            old(self).stage_spec() == Stage::MakeHome ==> match ev {
                Event::Succeeded => r == Ok::<Option<Warning>, TransitionError>(None) && final(self).stage_spec() == Stage::GroupRead,
                Event::Failed { .. } => true,
                _ => r == Err::<Option<Warning>, TransitionError>(TransitionError::Protocol),
            },
            old(self).stage_spec() == Stage::GroupRead ==> match ev {
                Event::FileRead { content } => ({
                    let info = old(self).config().user_info->0;
                    let entries = entries_of_content::<GroupEntry>(content@);
                    let warn = if group_gid_collision(entries, info.group@, info.gid) {
                        Some(Warning::GidInUse)
                    } else {
                        None::<Warning>
                    };
                    match group_scan(entries, info.group@, info.gid) {
                        ScanDecision::Present => r == Ok::<Option<Warning>, TransitionError>(
                            warn,
                        ) && final(self).stage_spec() == Stage::UserRead,
                        ScanDecision::Missing => r == Ok::<Option<Warning>, TransitionError>(
                            warn,
                        ) && final(self).stage_spec() == Stage::GroupWrite && final(self).pending_spec() == Some(
                            group_line_of(new_group_v(info.group@, info.gid)) + seq!['\n'],
                        ),
                        ScanDecision::Conflict => r == Err::<Option<Warning>, TransitionError>(
                            TransitionError::Provision(ProvisionError::GroupConflict),
                        ),
                        ScanDecision::Bad(e) => r == Err::<Option<Warning>, TransitionError>(
                            TransitionError::Provision(ProvisionError::Entry(e)),
                        ),
                    }
                }),
                Event::Failed { .. } => true,
                _ => r == Err::<Option<Warning>, TransitionError>(TransitionError::Protocol),
            },
            old(self).stage_spec() == Stage::GroupWrite ==> match ev {
                Event::Wrote { count } => if count == byte_len(
                    old(self).pending_spec()->0,
                ) as usize {
                    r == Ok::<Option<Warning>, TransitionError>(None) && final(self).stage_spec()
                        == Stage::UserRead && final(self).pending_spec() is None
                } else {
                    r == Err::<Option<Warning>, TransitionError>(TransitionError::ShortWrite)
                },
                Event::Failed { .. } => true,
                _ => r == Err::<Option<Warning>, TransitionError>(TransitionError::Protocol),
            },
            old(self).stage_spec() == Stage::UserRead ==> match ev {
                Event::FileRead { content } => ({
                    let info = old(self).config().user_info->0;
                    let entries = entries_of_content::<PasswdEntry>(content@);
                    let warn = if user_uid_collision(entries, info.user@, info.uid) {
                        Some(Warning::UidInUse)
                    } else {
                        None::<Warning>
                    };
                    match user_scan(entries, info.user@, info.uid) {
                        ScanDecision::Present => r == Ok::<Option<Warning>, TransitionError>(
                            warn,
                        ) && final(self).stage_spec() == Stage::ShadowRead,
                        ScanDecision::Missing => r == Ok::<Option<Warning>, TransitionError>(
                            warn,
                        ) && final(self).stage_spec() == Stage::UserWrite && final(self).pending_spec() == Some(
                            passwd_line_of(new_passwd_v(info.user@, info.uid, info.gid))
                                + seq!['\n'],
                        ),
                        ScanDecision::Conflict => r == Err::<Option<Warning>, TransitionError>(
                            TransitionError::Provision(ProvisionError::UserConflict),
                        ),
                        ScanDecision::Bad(e) => r == Err::<Option<Warning>, TransitionError>(
                            TransitionError::Provision(ProvisionError::Entry(e)),
                        ),
                    }
                }),
                Event::Failed { .. } => true,
                _ => r == Err::<Option<Warning>, TransitionError>(TransitionError::Protocol),
            },
            old(self).stage_spec() == Stage::UserWrite ==> match ev {
                Event::Wrote { count } => if count == byte_len(
                    old(self).pending_spec()->0,
                ) as usize {
                    r == Ok::<Option<Warning>, TransitionError>(None) && final(self).stage_spec()
                        == Stage::ShadowRead && final(self).pending_spec() is None
                } else {
                    r == Err::<Option<Warning>, TransitionError>(TransitionError::ShortWrite)
                },
                Event::Failed { .. } => true,
                _ => r == Err::<Option<Warning>, TransitionError>(TransitionError::Protocol),
            },
            old(self).stage_spec() == Stage::ShadowRead ==> match ev {
                Event::FileRead { content } => ({
                    let info = old(self).config().user_info->0;
                    let entries = entries_of_content::<ShadowEntry>(content@);
                    match shadow_scan(entries, info.user@) {
                        ScanDecision::Present => r == Ok::<Option<Warning>, TransitionError>(
                            None,
                        ) && final(self).stage_spec() == provision_done_stage(
                            old(self).config(),
                        ),
                        ScanDecision::Missing => r == Ok::<Option<Warning>, TransitionError>(
                            None,
                        ) && final(self).stage_spec() == Stage::ShadowWrite && final(self).pending_spec() == Some(
                            shadow_line_of(new_shadow_v(info.user@)) + seq!['\n'],
                        ),
                        ScanDecision::Conflict => false,
                        ScanDecision::Bad(e) => r == Err::<Option<Warning>, TransitionError>(
                            TransitionError::Provision(ProvisionError::Entry(e)),
                        ),
                    }
                }),
                Event::Failed { .. } => true,
                _ => r == Err::<Option<Warning>, TransitionError>(TransitionError::Protocol),
            },
            old(self).stage_spec() == Stage::ShadowWrite ==> match ev {
                Event::Wrote { count } => if count == byte_len(
                    old(self).pending_spec()->0,
                ) as usize {
                    r == Ok::<Option<Warning>, TransitionError>(None) && final(self).stage_spec()
                        == provision_done_stage(old(self).config()) && final(self).pending_spec() is None
                } else {
                    r == Err::<Option<Warning>, TransitionError>(TransitionError::ShortWrite)
                },
                Event::Failed { .. } => true,
                _ => r == Err::<Option<Warning>, TransitionError>(TransitionError::Protocol),
            },
            old(self).stage_spec() == Stage::RootHook ==> match ev {
                Event::HookExited { code } => if code == 0 {
                    r == Ok::<Option<Warning>, TransitionError>(None) && final(self).stage_spec()
                        == drop_stage(old(self).config())
                } else {
                    r == Err::<Option<Warning>, TransitionError>(
                        TransitionError::HookExit { code },
                    )
                },
                Event::HookSignaled { signal } => r == Err::<Option<Warning>, TransitionError>(
                    TransitionError::HookSignal { signal },
                ),
                Event::HookEndedUnknown => r == Err::<Option<Warning>, TransitionError>(
                    TransitionError::HookUnknown,
                ),
                Event::Failed { .. } => true,
                _ => r == Err::<Option<Warning>, TransitionError>(TransitionError::Protocol),
            },
            old(self).stage_spec() == Stage::DropGroups ==> match ev {
                Event::Succeeded => r == Ok::<Option<Warning>, TransitionError>(None) && final(self).stage_spec() == Stage::DropGid,
                Event::Failed { .. } => true,
                _ => r == Err::<Option<Warning>, TransitionError>(TransitionError::Protocol),
            },
            old(self).stage_spec() == Stage::DropGid ==> match ev {
                Event::Succeeded => r == Ok::<Option<Warning>, TransitionError>(None) && final(self).stage_spec() == Stage::DropUid,
                Event::Failed { .. } => true,
                _ => r == Err::<Option<Warning>, TransitionError>(TransitionError::Protocol),
            },
            old(self).stage_spec() == Stage::DropUid ==> match ev {
                Event::Succeeded => r == Ok::<Option<Warning>, TransitionError>(None) && final(self).stage_spec() == Stage::EnvUser,
                Event::Failed { .. } => true,
                _ => r == Err::<Option<Warning>, TransitionError>(TransitionError::Protocol),
            },
            old(self).stage_spec() == Stage::EnvUser ==> match ev {
                Event::Succeeded => r == Ok::<Option<Warning>, TransitionError>(None) && final(self).stage_spec() == Stage::EnvLogname,
                Event::Failed { .. } => true,
                _ => r == Err::<Option<Warning>, TransitionError>(TransitionError::Protocol),
            },
            old(self).stage_spec() == Stage::EnvLogname ==> match ev {
                Event::Succeeded => r == Ok::<Option<Warning>, TransitionError>(None) && final(self).stage_spec() == Stage::EnvHome,
                Event::Failed { .. } => true,
                _ => r == Err::<Option<Warning>, TransitionError>(TransitionError::Protocol),
            },
            old(self).stage_spec() == Stage::EnvHome ==> match ev {
                Event::Succeeded => r == Ok::<Option<Warning>, TransitionError>(None) && final(self).stage_spec() == umask_stage(old(self).config()),
                Event::Failed { .. } => true,
                _ => r == Err::<Option<Warning>, TransitionError>(TransitionError::Protocol),
            },
            old(self).stage_spec() == Stage::Umask ==> match ev {
                Event::Succeeded => r == Ok::<Option<Warning>, TransitionError>(None) && final(self).stage_spec() == user_hook_stage(old(self).config()),
                Event::Failed { .. } => true,
                _ => r == Err::<Option<Warning>, TransitionError>(TransitionError::Protocol),
            },
            old(self).stage_spec() == Stage::UserHook ==> match ev {
                Event::HookExited { code } => if code == 0 {
                    r == Ok::<Option<Warning>, TransitionError>(None) && final(self).stage_spec()
                        == Stage::Exec
                } else {
                    r == Err::<Option<Warning>, TransitionError>(
                        TransitionError::HookExit { code },
                    )
                },
                Event::HookSignaled { signal } => r == Err::<Option<Warning>, TransitionError>(
                    TransitionError::HookSignal { signal },
                ),
                Event::HookEndedUnknown => r == Err::<Option<Warning>, TransitionError>(
                    TransitionError::HookUnknown,
                ),
                Event::Failed { .. } => true,
                _ => r == Err::<Option<Warning>, TransitionError>(TransitionError::Protocol),
            },
            old(self).stage_spec() == Stage::Exec ==> match ev {
                Event::Succeeded => r == Ok::<Option<Warning>, TransitionError>(None) && final(self).stage_spec() == Stage::Done,
                Event::Failed { .. } => true,
                _ => r == Err::<Option<Warning>, TransitionError>(TransitionError::Protocol),
            },
    {
        let st = self.stage;
        let ev = match ev {
            Event::Failed { message } => {
                self.stage = Stage::Failed;
                return if match st {
                    Stage::Exec => true,
                    _ => false,
                } {
                    Err(TransitionError::ExecFailed { message })
                } else {
                    Err(TransitionError::ActionFailed { message })
                };
            },
            other => other,
        };
        match st {
            Stage::MakeHome => match ev {
                Event::Succeeded => {
                    proof {
                        lemma_trace_push(self.trace@, st, Stage::GroupRead);
                    }
                    self.trace = Ghost(self.trace@.push(st));
                    self.stage = Stage::GroupRead;
                    Ok(None)
                },
                _ => {
                    self.stage = Stage::Failed;
                    Err(TransitionError::Protocol)
                },
            },
            Stage::GroupRead => match ev {
                Event::FileRead { content } => {
                    let info = match &self.ctx.user_info {
                        Some(i) => i,
                        None => unreached(),
                    };
                    match info.add_group(content.as_str()) {
                        Err(ProvisionError::Entry(e)) => {
                            self.stage = Stage::Failed;
                            Err(TransitionError::Provision(ProvisionError::Entry(e)))
                        },
                        Err(e) => {
                            self.stage = Stage::Failed;
                            Err(TransitionError::Provision(e))
                        },
                        Ok(out) => {
                            let warning = if out.id_collision {
                                Some(Warning::GidInUse)
                            } else {
                                None
                            };
                            match out.append {
                                Some(entry) => {
                                    let mut w = EntFileWriter::<GroupEntry>::new();
                                    w.write(&entry);
                                    self.pending = Some(w.into_inner());
                                    proof {
                                        lemma_trace_push(self.trace@, st, Stage::GroupWrite);
                                    }
                                    self.trace = Ghost(self.trace@.push(st));
                                    self.stage = Stage::GroupWrite;
                                    Ok(warning)
                                },
                                None => {
                                    self.pending = None;
                                    proof {
                                        lemma_trace_push(self.trace@, st, Stage::UserRead);
                                    }
                                    self.trace = Ghost(self.trace@.push(st));
                                    self.stage = Stage::UserRead;
                                    Ok(warning)
                                },
                            }
                        },
                    }
                },
                _ => {
                    self.stage = Stage::Failed;
                    Err(TransitionError::Protocol)
                },
            },
            Stage::GroupWrite => match ev {
                Event::Wrote { count } => {
                    let expected = match &self.pending {
                        Some(d) => d.as_str().len(),
                        None => unreached(),
                    };
                    if count == expected {
                        self.pending = None;
                        proof {
                            lemma_trace_push(self.trace@, st, Stage::UserRead);
                        }
                        self.trace = Ghost(self.trace@.push(st));
                        self.stage = Stage::UserRead;
                        Ok(None)
                    } else {
                        self.stage = Stage::Failed;
                        Err(TransitionError::ShortWrite)
                    }
                },
                _ => {
                    self.stage = Stage::Failed;
                    Err(TransitionError::Protocol)
                },
            },
            Stage::UserRead => match ev {
                Event::FileRead { content } => {
                    let info = match &self.ctx.user_info {
                        Some(i) => i,
                        None => unreached(),
                    };
                    match info.add_user(content.as_str()) {
                        Err(e) => {
                            self.stage = Stage::Failed;
                            Err(TransitionError::Provision(e))
                        },
                        Ok(out) => {
                            let warning = if out.id_collision {
                                Some(Warning::UidInUse)
                            } else {
                                None
                            };
                            match out.append {
                                Some(entry) => {
                                    let mut w = EntFileWriter::<PasswdEntry>::new();
                                    w.write(&entry);
                                    self.pending = Some(w.into_inner());
                                    proof {
                                        lemma_trace_push(self.trace@, st, Stage::UserWrite);
                                    }
                                    self.trace = Ghost(self.trace@.push(st));
                                    self.stage = Stage::UserWrite;
                                    Ok(warning)
                                },
                                None => {
                                    self.pending = None;
                                    proof {
                                        lemma_trace_push(self.trace@, st, Stage::ShadowRead);
                                    }
                                    self.trace = Ghost(self.trace@.push(st));
                                    self.stage = Stage::ShadowRead;
                                    Ok(warning)
                                },
                            }
                        },
                    }
                },
                _ => {
                    self.stage = Stage::Failed;
                    Err(TransitionError::Protocol)
                },
            },
            Stage::UserWrite => match ev {
                Event::Wrote { count } => {
                    let expected = match &self.pending {
                        Some(d) => d.as_str().len(),
                        None => unreached(),
                    };
                    if count == expected {
                        self.pending = None;
                        proof {
                            lemma_trace_push(self.trace@, st, Stage::ShadowRead);
                        }
                        self.trace = Ghost(self.trace@.push(st));
                        self.stage = Stage::ShadowRead;
                        Ok(None)
                    } else {
                        self.stage = Stage::Failed;
                        Err(TransitionError::ShortWrite)
                    }
                },
                _ => {
                    self.stage = Stage::Failed;
                    Err(TransitionError::Protocol)
                },
            },
            Stage::ShadowRead => match ev {
                Event::FileRead { content } => {
                    let info = match &self.ctx.user_info {
                        Some(i) => i,
                        None => unreached(),
                    };
                    match info.add_shadow(content.as_str()) {
                        Err(e) => {
                            self.stage = Stage::Failed;
                            Err(TransitionError::Provision(e))
                        },
                        Ok(out) => match out {
                            Some(entry) => {
                                let mut w = EntFileWriter::<ShadowEntry>::new();
                                w.write(&entry);
                                self.pending = Some(w.into_inner());
                                proof {
                                    lemma_trace_push(self.trace@, st, Stage::ShadowWrite);
                                }
                                self.trace = Ghost(self.trace@.push(st));
                                self.stage = Stage::ShadowWrite;
                                Ok(None)
                            },
                            None => {
                                self.pending = None;
                                let next = provision_done_exec(&self.ctx);
                                proof {
                                    lemma_trace_push(self.trace@, st, next);
                                }
                                self.trace = Ghost(self.trace@.push(st));
                                self.stage = next;
                                Ok(None)
                            },
                        },
                    }
                },
                _ => {
                    self.stage = Stage::Failed;
                    Err(TransitionError::Protocol)
                },
            },
            Stage::ShadowWrite => match ev {
                Event::Wrote { count } => {
                    let expected = match &self.pending {
                        Some(d) => d.as_str().len(),
                        None => unreached(),
                    };
                    if count == expected {
                        self.pending = None;
                        let next = provision_done_exec(&self.ctx);
                        proof {
                            lemma_trace_push(self.trace@, st, next);
                        }
                        self.trace = Ghost(self.trace@.push(st));
                        self.stage = next;
                        Ok(None)
                    } else {
                        self.stage = Stage::Failed;
                        Err(TransitionError::ShortWrite)
                    }
                },
                _ => {
                    self.stage = Stage::Failed;
                    Err(TransitionError::Protocol)
                },
            },
            Stage::RootHook => match ev {
                Event::HookExited { code } => {
                    if code == 0 {
                        let next = drop_exec(&self.ctx);
                        proof {
                            lemma_trace_push(self.trace@, st, next);
                        }
                        self.trace = Ghost(self.trace@.push(st));
                        self.stage = next;
                        Ok(None)
                    } else {
                        self.stage = Stage::Failed;
                        Err(TransitionError::HookExit { code })
                    }
                },
                Event::HookSignaled { signal } => {
                    self.stage = Stage::Failed;
                    Err(TransitionError::HookSignal { signal })
                },
                Event::HookEndedUnknown => {
                    self.stage = Stage::Failed;
                    Err(TransitionError::HookUnknown)
                },
                _ => {
                    self.stage = Stage::Failed;
                    Err(TransitionError::Protocol)
                },
            },
            Stage::DropGroups => match ev {
                Event::Succeeded => {
                    proof {
                        lemma_trace_push(self.trace@, st, Stage::DropGid);
                    }
                    self.trace = Ghost(self.trace@.push(st));
                    self.stage = Stage::DropGid;
                    Ok(None)
                },
                _ => {
                    self.stage = Stage::Failed;
                    Err(TransitionError::Protocol)
                },
            },
            Stage::DropGid => match ev {
                Event::Succeeded => {
                    proof {
                        lemma_trace_push(self.trace@, st, Stage::DropUid);
                    }
                    self.trace = Ghost(self.trace@.push(st));
                    self.stage = Stage::DropUid;
                    Ok(None)
                },
                _ => {
                    self.stage = Stage::Failed;
                    Err(TransitionError::Protocol)
                },
            },
            Stage::DropUid => match ev {
                Event::Succeeded => {
                    proof {
                        lemma_trace_push(self.trace@, st, Stage::EnvUser);
                    }
                    self.trace = Ghost(self.trace@.push(st));
                    self.stage = Stage::EnvUser;
                    Ok(None)
                },
                _ => {
                    self.stage = Stage::Failed;
                    Err(TransitionError::Protocol)
                },
            },
            Stage::EnvUser => match ev {
                Event::Succeeded => {
                    proof {
                        lemma_trace_push(self.trace@, st, Stage::EnvLogname);
                    }
                    self.trace = Ghost(self.trace@.push(st));
                    self.stage = Stage::EnvLogname;
                    Ok(None)
                },
                _ => {
                    self.stage = Stage::Failed;
                    Err(TransitionError::Protocol)
                },
            },
            Stage::EnvLogname => match ev {
                Event::Succeeded => {
                    proof {
                        lemma_trace_push(self.trace@, st, Stage::EnvHome);
                    }
                    self.trace = Ghost(self.trace@.push(st));
                    self.stage = Stage::EnvHome;
                    Ok(None)
                },
                _ => {
                    self.stage = Stage::Failed;
                    Err(TransitionError::Protocol)
                },
            },
            Stage::EnvHome => match ev {
                Event::Succeeded => {
                    let next = umask_exec(&self.ctx);
                    proof {
                        lemma_trace_push(self.trace@, st, next);
                    }
                    self.trace = Ghost(self.trace@.push(st));
                    self.stage = next;
                    Ok(None)
                },
                _ => {
                    self.stage = Stage::Failed;
                    Err(TransitionError::Protocol)
                },
            },
            Stage::Umask => match ev {
                Event::Succeeded => {
                    let next = user_hook_exec(&self.ctx);
                    proof {
                        lemma_trace_push(self.trace@, st, next);
                    }
                    self.trace = Ghost(self.trace@.push(st));
                    self.stage = next;
                    Ok(None)
                },
                _ => {
                    self.stage = Stage::Failed;
                    Err(TransitionError::Protocol)
                },
            },
            Stage::UserHook => match ev {
                Event::HookExited { code } => {
                    if code == 0 {
                        proof {
                            lemma_trace_push(self.trace@, st, Stage::Exec);
                        }
                        self.trace = Ghost(self.trace@.push(st));
                        self.stage = Stage::Exec;
                        Ok(None)
                    } else {
                        self.stage = Stage::Failed;
                        Err(TransitionError::HookExit { code })
                    }
                },
                Event::HookSignaled { signal } => {
                    self.stage = Stage::Failed;
                    Err(TransitionError::HookSignal { signal })
                },
                Event::HookEndedUnknown => {
                    self.stage = Stage::Failed;
                    Err(TransitionError::HookUnknown)
                },
                _ => {
                    self.stage = Stage::Failed;
                    Err(TransitionError::Protocol)
                },
            },
            Stage::Exec => match ev {
                Event::Succeeded => {
                    proof {
                        lemma_trace_push(self.trace@, st, Stage::Done);
                    }
                    self.trace = Ghost(self.trace@.push(st));
                    self.stage = Stage::Done;
                    Ok(None)
                },
                _ => {
                    self.stage = Stage::Failed;
                    Err(TransitionError::Protocol)
                },
            },
            Stage::Done => unreached(),
            Stage::Failed => unreached(),
        }
    }
}

/// Ordering law of the privilege drop: in every reachable state of the
/// machine, whatever events the shell reported, the completed-stage trace
/// clears the supplementary groups strictly before it sets the gid, sets
/// the gid strictly before it sets the uid, and contains no drop step at
/// all when no identity switch was requested.
/// In a trace whose stage indexes strictly increase, a contained stage of
/// lower index occurs strictly before any occurrence of a higher one.
proof fn lemma_ordered_trace_precedes(tr: Seq<Stage>, a: Stage, b: Stage, j: int)
    requires
        forall|i: int, k: int|
            0 <= i < k < tr.len() ==> stage_index(#[trigger] tr[i]) < stage_index(
                #[trigger] tr[k],
            ),
        tr.contains(a),
        stage_index(a) < stage_index(b),
        0 <= j < tr.len(),
        tr[j] == b,
    ensures
        exists|i: int| 0 <= i < j && tr[i] == a,
{
    let i = choose|i: int| 0 <= i < tr.len() && tr[i] == a;
    if i > j {
        assert(stage_index(tr[j]) < stage_index(tr[i]));
        assert(false);
    }
    assert(i != j);
    assert(0 <= i < j && tr[i] == a);
}

/// Ordering law of the privilege drop, first half: wherever the
/// completed-stage trace records the gid change, an earlier position
/// records the clearing of supplementary groups; and wherever it records
/// the uid change, an earlier position records the gid change.  Together
/// with the strict ordering of the trace this pins the one safe sequence:
/// clear groups, then set the gid, then set the uid.
pub proof fn lemma_privilege_drop_order(t: &Transition, j: int)
    requires
        t.wf(),
        0 <= j < t.trace_spec().len(),
    ensures
        t.trace_spec()[j] == Stage::DropGid ==> exists|i: int|
            0 <= i < j && t.trace_spec()[i] == Stage::DropGroups,
        t.trace_spec()[j] == Stage::DropUid ==> exists|i: int|
            0 <= i < j && t.trace_spec()[i] == Stage::DropGid,
{
    let tr = t.trace_spec();
    if tr[j] == Stage::DropGid {
        assert(tr.contains(Stage::DropGid));
        lemma_ordered_trace_precedes(tr, Stage::DropGroups, Stage::DropGid, j);
    }
    if tr[j] == Stage::DropUid {
        assert(tr.contains(Stage::DropUid));
        lemma_ordered_trace_precedes(tr, Stage::DropGid, Stage::DropUid, j);
    }
}

/// Ordering law of the privilege drop, second half: when no identity
/// switch was requested, no drop step is ever recorded at all.
pub proof fn lemma_no_identity_no_drop(t: &Transition, j: int)
    requires
        t.wf(),
        t.config().user_info is None,
        0 <= j < t.trace_spec().len(),
    ensures
        t.trace_spec()[j] != Stage::DropGroups,
        t.trace_spec()[j] != Stage::DropGid,
        t.trace_spec()[j] != Stage::DropUid,
{
    let tr = t.trace_spec();
    if tr[j] == Stage::DropGroups {
        assert(tr.contains(Stage::DropGroups));
    }
    if tr[j] == Stage::DropGid {
        assert(tr.contains(Stage::DropGid));
    }
    if tr[j] == Stage::DropUid {
        assert(tr.contains(Stage::DropUid));
    }
}

/// Pushing the completed stage keeps the trace strictly ordered, still
/// everywhere below the next stage, and grows its membership by exactly
/// that stage.
proof fn lemma_trace_push(tr: Seq<Stage>, cur: Stage, next: Stage)
    requires
        forall|i: int, j: int|
            0 <= i < j < tr.len() ==> stage_index(#[trigger] tr[i]) < stage_index(
                #[trigger] tr[j],
            ),
        forall|i: int| 0 <= i < tr.len() ==> stage_index(#[trigger] tr[i]) < stage_index(cur),
        stage_index(cur) < stage_index(next),
    ensures
        forall|i: int, j: int|
            0 <= i < j < tr.push(cur).len() ==> stage_index(#[trigger] tr.push(cur)[i])
                < stage_index(#[trigger] tr.push(cur)[j]),
        forall|i: int|
            0 <= i < tr.push(cur).len() ==> stage_index(#[trigger] tr.push(cur)[i])
                < stage_index(next),
        forall|s: Stage| #[trigger] tr.push(cur).contains(s) <==> tr.contains(s) || s == cur,
{
    let tp = tr.push(cur);
    assert forall|s: Stage| #[trigger] tp.contains(s) implies tr.contains(s) || s == cur by {
        let i = choose|i: int| 0 <= i < tp.len() && tp[i] == s;
        if i < tr.len() {
            assert(tr[i] == s);
        }
    }
    assert forall|s: Stage| tr.contains(s) || s == cur implies #[trigger] tp.contains(s) by {
        if tr.contains(s) {
            let i = choose|i: int| 0 <= i < tr.len() && tr[i] == s;
            assert(tp[i] == s);
        } else {
            assert(tp[tr.len() as int] == s);
        }
    }
}

/// Computes `provision_done_stage` of the configuration.
fn provision_done_exec(ctx: &Context) -> (s: Stage)
    ensures
        s == provision_done_stage(*ctx),
{
    if ctx.root_hook.is_some() {
        Stage::RootHook
    } else {
        drop_exec(ctx)
    }
}

/// Computes `drop_stage` of the configuration.
fn drop_exec(ctx: &Context) -> (s: Stage)
    ensures
        s == drop_stage(*ctx),
{
    if ctx.user_info.is_some() {
        Stage::DropGroups
    } else {
        umask_exec(ctx)
    }
}

/// Computes `umask_stage` of the configuration.
fn umask_exec(ctx: &Context) -> (s: Stage)
    ensures
        s == umask_stage(*ctx),
{
    if ctx.umask.is_some() {
        Stage::Umask
    } else {
        user_hook_exec(ctx)
    }
}

/// Computes `user_hook_stage` of the configuration.
fn user_hook_exec(ctx: &Context) -> (s: Stage)
    ensures
        s == user_hook_stage(*ctx),
{
    if ctx.user_info.is_some() && ctx.user_hook.is_some() {
        Stage::UserHook
    } else {
        Stage::Exec
    }
}

} // verus!
