//! The privilege-transition machine: stage order, skipping, fail-fast
//! behaviour, and the drop-sequence ordering law under test doubles for
//! the syscalls.

use scubainit::config::Context;
use scubainit::provision::UserInfo;
use scubainit::transition::Action;
use scubainit::transition::Event;
use scubainit::transition::Stage;
use scubainit::transition::Transition;
use scubainit::transition::TransitionError;
use scubainit::transition::Warning;

fn full_context() -> Context {
    Context {
        user_info: Some(UserInfo {
            uid: 1003,
            gid: 1003,
            user: "shemp".to_string(),
            group: "stooges".to_string(),
        }),
        umask: Some(18),
        user_hook: Some("/hooks/user.sh".to_string()),
        root_hook: Some("/hooks/root.sh".to_string()),
    }
}

/// Drives the machine with doubles for every action: file reads hand back
/// the given contents, writes report full success, hooks exit cleanly,
/// and every syscall succeeds.  Returns the labels of the performed
/// actions in order.
fn drive_to_completion(ctx: Context, group_file: &str, passwd_file: &str, shadow_file: &str)
    -> Vec<String> {
    let mut t = Transition::new(ctx);
    let mut performed: Vec<String> = Vec::new();
    let mut steps: u32 = 0;
    while !t.is_terminal() {
        steps += 1;
        assert!(steps < 100, "the machine must terminate");
        let action = t.next_action();
        let (label, event) = match action {
            Action::MakeHomeDir { path, uid, gid } => {
                (format!("mkdir {path} {uid} {gid}"), Event::Succeeded)
            }
            Action::ReadFile { path } => {
                let content = match path.as_str() {
                    "/etc/group" => group_file,
                    "/etc/passwd" => passwd_file,
                    "/etc/shadow" => shadow_file,
                    other => panic!("unexpected file {other}"),
                };
                (format!("read {path}"), Event::FileRead { content: content.to_string() })
            }
            Action::AppendFile { path, data } => {
                (format!("append {path}"), Event::Wrote { count: data.len() })
            }
            Action::RunHook { path } => (format!("hook {path}"), Event::HookExited { code: 0 }),
            Action::ClearGroups => ("cleargroups".to_string(), Event::Succeeded),
            Action::SetGid { gid } => (format!("setgid {gid}"), Event::Succeeded),
            Action::SetUid { uid } => (format!("setuid {uid}"), Event::Succeeded),
            Action::SetEnvVar { name, value } => (format!("setenv {name}={value}"), Event::Succeeded),
            Action::ApplyUmask { mask } => (format!("umask {mask}"), Event::Succeeded),
            Action::Exec => ("exec".to_string(), Event::Succeeded),
        };
        performed.push(label);
        t.advance(event).unwrap();
    }
    assert_eq!(t.current_stage(), Stage::Done);
    performed
}

#[test]
fn full_run_performs_every_stage_in_order() {
    let performed = drive_to_completion(full_context(), "", "", "");
    let expected = vec![
        "mkdir /home/shemp 1003 1003".to_string(),
        "read /etc/group".to_string(),
        "append /etc/group".to_string(),
        "read /etc/passwd".to_string(),
        "append /etc/passwd".to_string(),
        "read /etc/shadow".to_string(),
        "append /etc/shadow".to_string(),
        "hook /hooks/root.sh".to_string(),
        "cleargroups".to_string(),
        "setgid 1003".to_string(),
        "setuid 1003".to_string(),
        "setenv USER=shemp".to_string(),
        "setenv LOGNAME=shemp".to_string(),
        "setenv HOME=/home/shemp".to_string(),
        "umask 18".to_string(),
        "hook /hooks/user.sh".to_string(),
        "exec".to_string(),
    ];
    assert_eq!(performed, expected);
}

#[test]
fn drop_sequence_is_clear_then_gid_then_uid() {
    // The ordering law, observed under the syscall doubles.
    let performed = drive_to_completion(full_context(), "", "", "");
    let clear = performed.iter().position(|a| a == "cleargroups").unwrap();
    let setgid = performed.iter().position(|a| a == "setgid 1003").unwrap();
    let setuid = performed.iter().position(|a| a == "setuid 1003").unwrap();
    assert!(clear < setgid);
    assert!(setgid < setuid);
}

#[test]
fn provisioned_files_skip_the_appends() {
    let performed = drive_to_completion(
        full_context(),
        "stooges:x:1003:\n",
        "shemp:x:1003:1003:shemp:/home/shemp:/bin/bash\n",
        "shemp:x:::::::\n",
    );
    assert!(!performed.iter().any(|a| a.starts_with("append")));
    assert!(performed.iter().any(|a| a.starts_with("read")));
}

#[test]
fn no_identity_skips_provisioning_drop_env_and_user_hook() {
    let ctx = Context {
        user_info: None,
        umask: Some(18),
        user_hook: Some("/hooks/user.sh".to_string()),
        root_hook: Some("/hooks/root.sh".to_string()),
    };
    let performed = drive_to_completion(ctx, "", "", "");
    let expected = vec![
        "hook /hooks/root.sh".to_string(),
        "umask 18".to_string(),
        "exec".to_string(),
    ];
    assert_eq!(performed, expected);
}

#[test]
fn bare_context_only_execs() {
    let ctx = Context { user_info: None, umask: None, user_hook: None, root_hook: None };
    let performed = drive_to_completion(ctx, "", "", "");
    assert_eq!(performed, vec!["exec".to_string()]);
}

#[test]
fn group_conflict_is_fatal_before_any_privilege_change() {
    let mut t = Transition::new(full_context());
    // Home directory step succeeds.
    t.advance(Event::Succeeded).unwrap();
    // The group scan finds the name under another gid: fatal.
    let r = t.advance(Event::FileRead { content: "stooges:x:10:\n".to_string() });
    assert!(r.is_err());
    assert!(t.is_terminal());
    assert_eq!(t.current_stage(), Stage::Failed);
}

#[test]
fn syscall_failure_is_fatal() {
    let ctx = Context { user_info: full_context().user_info, umask: None, user_hook: None, root_hook: None };
    let mut t = Transition::new(ctx);
    t.advance(Event::Succeeded).unwrap(); // home directory
    t.advance(Event::FileRead { content: "stooges:x:1003:\n".to_string() }).unwrap();
    t.advance(Event::FileRead { content: "shemp:x:1003:1003:s:/home/shemp:/bin/bash\n".to_string() })
        .unwrap();
    t.advance(Event::FileRead { content: "shemp:x:::::::\n".to_string() }).unwrap();
    // Now at the first drop step; its syscall fails.
    assert_eq!(t.current_stage(), Stage::DropGroups);
    let r = t.advance(Event::Failed { message: "setgroups refused".to_string() });
    assert!(matches!(r, Err(TransitionError::ActionFailed { .. })));
    assert_eq!(t.current_stage(), Stage::Failed);
}

#[test]
fn hook_exit_code_is_fatal() {
    let ctx = Context { user_info: None, umask: None, user_hook: None,
        root_hook: Some("/hooks/root.sh".to_string()) };
    let mut t = Transition::new(ctx);
    assert_eq!(t.current_stage(), Stage::RootHook);
    let r = t.advance(Event::HookExited { code: 3 });
    assert_eq!(r, Err(TransitionError::HookExit { code: 3 }));
}

#[test]
fn hook_signal_is_fatal() {
    let ctx = Context { user_info: None, umask: None, user_hook: None,
        root_hook: Some("/hooks/root.sh".to_string()) };
    let mut t = Transition::new(ctx);
    let r = t.advance(Event::HookSignaled { signal: 9 });
    assert_eq!(r, Err(TransitionError::HookSignal { signal: 9 }));
}

#[test]
fn short_write_is_fatal() {
    let mut t = Transition::new(full_context());
    t.advance(Event::Succeeded).unwrap(); // home directory
    t.advance(Event::FileRead { content: "".to_string() }).unwrap();
    assert_eq!(t.current_stage(), Stage::GroupWrite);
    let r = t.advance(Event::Wrote { count: 3 });
    assert_eq!(r, Err(TransitionError::ShortWrite));
}

#[test]
fn exec_failure_is_reported() {
    let ctx = Context { user_info: None, umask: None, user_hook: None, root_hook: None };
    let mut t = Transition::new(ctx);
    assert_eq!(t.current_stage(), Stage::Exec);
    let r = t.advance(Event::Failed { message: "no such program".to_string() });
    assert_eq!(r, Err(TransitionError::ExecFailed { message: "no such program".to_string() }));
}

#[test]
fn hook_unknown_end_is_fatal() {
    let ctx = Context { user_info: None, umask: None, user_hook: None,
        root_hook: Some("/hooks/root.sh".to_string()) };
    let mut t = Transition::new(ctx);
    let r = t.advance(Event::HookEndedUnknown);
    assert_eq!(r, Err(TransitionError::HookUnknown));
}

#[test]
fn wrong_event_kind_is_a_protocol_error() {
    let ctx = Context { user_info: None, umask: None, user_hook: None, root_hook: None };
    let mut t = Transition::new(ctx);
    assert_eq!(t.current_stage(), Stage::Exec);
    let r = t.advance(Event::HookExited { code: 0 });
    assert_eq!(r, Err(TransitionError::Protocol));
    assert_eq!(t.current_stage(), Stage::Failed);
}

#[test]
fn machine_surfaces_gid_and_uid_warnings() {
    let mut t = Transition::new(full_context());
    t.advance(Event::Succeeded).unwrap(); // home directory
    // The requested gid is taken by another group: tolerated, warned.
    let w = t.advance(Event::FileRead { content: "other:x:1003:\n".to_string() }).unwrap();
    assert_eq!(w, Some(Warning::GidInUse));
    assert_eq!(t.current_stage(), Stage::GroupWrite);
    let a = t.next_action();
    let data = match a {
        Action::AppendFile { data, .. } => data,
        _ => panic!("expected an append"),
    };
    t.advance(Event::Wrote { count: data.len() }).unwrap();
    // The requested uid is taken by another user: tolerated, warned.
    let w = t
        .advance(Event::FileRead { content: "other:x:1003:1003:o:/home/other:/bin/sh\n".to_string() })
        .unwrap();
    assert_eq!(w, Some(Warning::UidInUse));
}
