//! Configuration validation: the all-or-nothing identity rule and the
//! numeric environment variables.

use scubainit::config::ConfigError;
use scubainit::config::RawConfig;
use scubainit::config::pop_env_uint;
use scubainit::config::process_envvars;
use scubainit::config::process_envvars_user_info;

fn raw(
    uid: Option<&str>,
    gid: Option<&str>,
    user: Option<&str>,
    group: Option<&str>,
) -> RawConfig {
    RawConfig {
        uid: uid.map(|s| s.to_string()),
        gid: gid.map(|s| s.to_string()),
        umask: None,
        user: user.map(|s| s.to_string()),
        group: group.map(|s| s.to_string()),
        user_hook: None,
        root_hook: None,
    }
}

#[test]
fn pop_env_uint_works() {
    assert_eq!(pop_env_uint(Some("1234".to_string())), Ok(Some(1234)));
}

#[test]
fn pop_env_uint_handles_unset() {
    assert_eq!(pop_env_uint(None), Ok(None));
}

#[test]
fn pop_env_uint_handles_invalid() {
    assert_eq!(pop_env_uint(Some("zzz".to_string())), Err(ConfigError::BadNumeral));
}

#[test]
fn full_identity_tuple_accepted() {
    let ctx = process_envvars(raw(Some("1003"), Some("1003"), Some("shemp"), Some("stooges")))
        .unwrap();
    let info = ctx.user_info.unwrap();
    assert_eq!(info.uid, 1003);
    assert_eq!(info.gid, 1003);
    assert_eq!(info.user, "shemp");
    assert_eq!(info.group, "stooges");
}

#[test]
fn empty_identity_tuple_accepted() {
    let ctx = process_envvars(raw(None, None, None, None)).unwrap();
    assert!(ctx.user_info.is_none());
    assert!(!ctx.should_change_user());
}

#[test]
fn partial_identity_tuple_rejected() {
    let r = process_envvars(raw(Some("1003"), Some("1003"), Some("shemp"), None));
    assert_eq!(r.unwrap_err(), ConfigError::PartialIdentity);
    let r = process_envvars_user_info(None, Some(5), None, None);
    assert_eq!(r.unwrap_err(), ConfigError::PartialIdentity);
}

#[test]
fn bad_uid_rejected() {
    let r = process_envvars(raw(Some("10x3"), Some("1003"), Some("shemp"), Some("stooges")));
    assert_eq!(r.unwrap_err(), ConfigError::BadNumeral);
}

#[test]
fn umask_is_parsed() {
    let mut cfg = raw(None, None, None, None);
    cfg.umask = Some("18".to_string());
    let ctx = process_envvars(cfg).unwrap();
    assert_eq!(ctx.umask, Some(18));
}

#[test]
fn hooks_pass_through() {
    let mut cfg = raw(None, None, None, None);
    cfg.user_hook = Some("/hooks/user.sh".to_string());
    cfg.root_hook = Some("/hooks/root.sh".to_string());
    let ctx = process_envvars(cfg).unwrap();
    assert_eq!(ctx.call_user_hook().unwrap(), "/hooks/user.sh");
    assert_eq!(ctx.call_root_hook().unwrap(), "/hooks/root.sh");
}

#[test]
fn home_dir_of_identity() {
    let ctx = process_envvars(raw(Some("7"), Some("8"), Some("moe"), Some("stooges"))).unwrap();
    assert!(ctx.should_change_user());
    assert_eq!(ctx.home_dir(), "/home/moe");
}
