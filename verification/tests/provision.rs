//! Identity provisioning: idempotence, conflict detection, and the
//! tolerated id-collision warning.

use scubainit::entfiles::Entry;
use scubainit::entfiles::ReadEntryError;
use scubainit::provision::ProvisionError;
use scubainit::provision::UserInfo;

fn sample_info() -> UserInfo {
    UserInfo {
        uid: 1003,
        gid: 1003,
        user: "shemp".to_string(),
        group: "stooges".to_string(),
    }
}

#[test]
fn home_dir_works() {
    assert_eq!(sample_info().home_dir(), "/home/shemp");
}

#[test]
fn add_group_appends_when_missing() {
    let info = sample_info();
    let out = info.add_group("").unwrap();
    assert!(!out.id_collision);
    let entry = out.append.unwrap();
    assert_eq!(entry.to_line(), "stooges:x:1003:");
}

#[test]
fn add_group_noop_when_present() {
    let info = sample_info();
    let out = info.add_group("stooges:x:1003:moe,larry\n").unwrap();
    assert!(out.append.is_none());
}

#[test]
fn add_group_conflict() {
    // A group named "stooges" with a different gid forbids provisioning.
    let info = sample_info();
    let r = info.add_group("stooges:x:10:\n");
    assert!(matches!(r, Err(ProvisionError::GroupConflict)));
}

#[test]
fn add_group_conflict_appends_nothing() {
    // A group named "g" exists with gid 10; provisioning is requested for
    // name "g" with gid 20: the operation fails with a conflict error, so
    // the caller has nothing to append.
    let info = UserInfo { uid: 20, gid: 20, user: "g".to_string(), group: "g".to_string() };
    let r = info.add_group("g:x:10:\n");
    assert!(matches!(r, Err(ProvisionError::GroupConflict)));
}

#[test]
fn add_group_gid_collision_warns() {
    let info = sample_info();
    let out = info.add_group("other:x:1003:\n").unwrap();
    assert!(out.id_collision);
    assert!(out.append.is_some());
}

#[test]
fn add_group_propagates_parse_errors() {
    let info = sample_info();
    let r = info.add_group("broken\n");
    assert!(matches!(r, Err(ProvisionError::Entry(ReadEntryError::Invalid))));
}

#[test]
fn add_group_twice_is_idempotent() {
    // Running the pass a second time on the once-amended file appends
    // nothing, so the file stays byte-identical.
    let info = sample_info();
    let initial = "wheel:x:10:\n".to_string();
    let entry = info.add_group(&initial).unwrap().append.unwrap();
    let amended = initial + &entry.to_line() + "\n";
    let second = info.add_group(&amended).unwrap();
    assert!(second.append.is_none());
}

#[test]
fn add_user_appends_when_missing() {
    let info = sample_info();
    let out = info.add_user("").unwrap();
    assert!(!out.id_collision);
    let entry = out.append.unwrap();
    assert_eq!(entry.to_line(), "shemp:x:1003:1003:shemp:/home/shemp:/bin/bash");
}

#[test]
fn add_user_noop_when_present() {
    let info = sample_info();
    let out = info.add_user("shemp:x:1003:1003:Shemp Howard:/home/shemp:/bin/fish\n").unwrap();
    assert!(out.append.is_none());
}

#[test]
fn add_user_conflict() {
    let info = sample_info();
    let r = info.add_user("shemp:x:1009:1009:Shemp:/home/shemp:/bin/sh\n");
    assert!(matches!(r, Err(ProvisionError::UserConflict)));
}

#[test]
fn add_user_uid_collision_warns() {
    let info = sample_info();
    let out = info.add_user("other:x:1003:1003:Other:/home/other:/bin/sh\n").unwrap();
    assert!(out.id_collision);
    assert!(out.append.is_some());
}

#[test]
fn add_user_twice_is_idempotent() {
    let info = sample_info();
    let initial = "moe:x:1001:1001:Moe Howard:/home/moe:/bin/zsh\n".to_string();
    let entry = info.add_user(&initial).unwrap().append.unwrap();
    let amended = initial + &entry.to_line() + "\n";
    let second = info.add_user(&amended).unwrap();
    assert!(second.append.is_none());
}

#[test]
fn add_shadow_appends_when_missing() {
    let info = sample_info();
    let entry = info.add_shadow("").unwrap().unwrap();
    assert_eq!(entry.to_line(), "shemp:x:::::::");
}

#[test]
fn add_shadow_existing_entry_left_alone() {
    // A pre-existing record under the requested name counts as owned by
    // whoever set it up, whatever its fields hold.
    let info = sample_info();
    let r = info.add_shadow("shemp:$y$j9T$zzzzzzzzzzzzzzz:18881:0:99999:7:::\n").unwrap();
    assert!(r.is_none());
}

#[test]
fn add_shadow_propagates_parse_errors() {
    let info = sample_info();
    let r = info.add_shadow("joe:*:18881:0:9999x:7:::\n");
    assert!(matches!(r, Err(ProvisionError::Entry(ReadEntryError::ParseInt))));
}

#[test]
fn add_shadow_twice_is_idempotent() {
    let info = sample_info();
    let initial = "root:*:18881:0:99999:7:::\n".to_string();
    let entry = info.add_shadow(&initial).unwrap().unwrap();
    let amended = initial + &entry.to_line() + "\n";
    let second = info.add_shadow(&amended).unwrap();
    assert!(second.is_none());
}

#[test]
fn provisioning_twice_leaves_all_files_unchanged() {
    // Idempotence across all three files: after one full pass, a second
    // pass decides "nothing to append" everywhere.
    let info = sample_info();

    let mut group_file = "wheel:x:10:\n".to_string();
    let mut passwd_file = "moe:x:1001:1001:Moe Howard:/home/moe:/bin/zsh\n".to_string();
    let mut shadow_file = "moe:*:18881:0:99999:7:::\n".to_string();

    if let Some(g) = info.add_group(&group_file).unwrap().append {
        group_file = group_file + &g.to_line() + "\n";
    }
    if let Some(u) = info.add_user(&passwd_file).unwrap().append {
        passwd_file = passwd_file + &u.to_line() + "\n";
    }
    if let Some(s) = info.add_shadow(&shadow_file).unwrap() {
        shadow_file = shadow_file + &s.to_line() + "\n";
    }

    let group_before = group_file.clone();
    let passwd_before = passwd_file.clone();
    let shadow_before = shadow_file.clone();

    assert!(info.add_group(&group_file).unwrap().append.is_none());
    assert!(info.add_user(&passwd_file).unwrap().append.is_none());
    assert!(info.add_shadow(&shadow_file).unwrap().is_none());

    assert_eq!(group_file, group_before);
    assert_eq!(passwd_file, passwd_before);
    assert_eq!(shadow_file, shadow_before);
}
