//! Parsing and serializing the three account-record schemas.

use scubainit::entfiles::Entry;
use scubainit::entfiles::ReadEntryError;
use scubainit::groups::GroupEntry;
use scubainit::passwd::PasswdEntry;
use scubainit::shadow::ShadowEntry;

const PASSWD_SAMPLE_LINE: &str = "joe:x:1234:5678:Joe Blow:/home/joe:/bin/bash";

fn passwd_sample_ent() -> PasswdEntry {
    PasswdEntry {
        name: "joe".to_string(),
        passwd: "x".to_string(),
        uid: 1234,
        gid: 5678,
        gecos: "Joe Blow".to_string(),
        home_dir: "/home/joe".to_string(),
        shell: "/bin/bash".to_string(),
    }
}

#[test]
fn passwd_from_line_works() {
    let result = PasswdEntry::from_line(PASSWD_SAMPLE_LINE).unwrap();
    assert_eq!(result, passwd_sample_ent());
}

#[test]
fn passwd_to_line_works() {
    let line = passwd_sample_ent().to_line();
    assert_eq!(line, PASSWD_SAMPLE_LINE);
}

#[test]
fn passwd_too_few_fields() {
    let line = "joe:x:1234:5678:Joe Blow:/home/joe";
    assert!(matches!(PasswdEntry::from_line(line), Err(ReadEntryError::Invalid)));
}

#[test]
fn passwd_bad_uid() {
    let line = "joe:x:12z4:5678:Joe Blow:/home/joe:/bin/bash";
    assert!(matches!(PasswdEntry::from_line(line), Err(ReadEntryError::ParseInt)));
}

#[test]
fn passwd_uid_too_large() {
    let line = "joe:x:4294967296:5678:Joe Blow:/home/joe:/bin/bash";
    assert!(matches!(PasswdEntry::from_line(line), Err(ReadEntryError::ParseInt)));
}

#[test]
fn passwd_extra_fields_ignored() {
    let line = "joe:x:1234:5678:Joe Blow:/home/joe:/bin/bash:extra";
    assert_eq!(PasswdEntry::from_line(line).unwrap(), passwd_sample_ent());
}

const GROUP_SAMPLE_LINE: &str = "foo:x:1234:moe,larry,shemp";

fn group_sample_ent() -> GroupEntry {
    GroupEntry {
        name: "foo".to_string(),
        passwd: "x".to_string(),
        gid: 1234,
        members: vec!["moe".to_string(), "larry".to_string(), "shemp".to_string()],
    }
}

#[test]
fn groups_from_line_works() {
    let result = GroupEntry::from_line(GROUP_SAMPLE_LINE).unwrap();
    assert_eq!(result, group_sample_ent());
}

#[test]
fn groups_to_line_works() {
    let line = group_sample_ent().to_line();
    assert_eq!(line, GROUP_SAMPLE_LINE);
}

#[test]
fn groups_empty_members() {
    let result = GroupEntry::from_line("snap:x:3456:").unwrap();
    assert_eq!(result.members, Vec::<String>::new());
    assert_eq!(result.to_line(), "snap:x:3456:");
}

#[test]
fn groups_too_few_fields() {
    assert!(matches!(GroupEntry::from_line("foo:x:1234"), Err(ReadEntryError::Invalid)));
}

const SHADOW_SAMPLE_LINE: &str = "joe:*:18881:0:99999:7:::";

fn shadow_sample_ent() -> ShadowEntry {
    ShadowEntry {
        name: "joe".to_string(),
        passwd: "*".to_string(),
        last_change_date: Some(18881),
        min_password_age: Some(0),
        max_password_age: Some(99999),
        warn_period: Some(7),
        inact_period: None,
        expire_date: None,
    }
}

#[test]
fn shadow_from_line_works() {
    let result = ShadowEntry::from_line(SHADOW_SAMPLE_LINE).unwrap();
    assert_eq!(result, shadow_sample_ent());
}

#[test]
fn shadow_too_few_fields_none() {
    let line = "joe:*:18881:0:99999:7";
    assert!(matches!(ShadowEntry::from_line(line), Err(ReadEntryError::Invalid)));
}

#[test]
fn shadow_invalid_integer_none() {
    let line = "joe:*:18881:0:9999x:7:::";
    assert!(matches!(ShadowEntry::from_line(line), Err(ReadEntryError::ParseInt)));
}

#[test]
fn shadow_to_line_works() {
    let line = shadow_sample_ent().to_line();
    assert_eq!(line, SHADOW_SAMPLE_LINE);
}

#[test]
fn shadow_absent_fields_stay_absent() {
    // Optional-field behaviour: empty fields parse to absent values, and
    // absent values serialize back to empty fields.
    let line = "amy:!:::::::";
    let ent = ShadowEntry::from_line(line).unwrap();
    assert_eq!(ent.last_change_date, None);
    assert_eq!(ent.min_password_age, None);
    assert_eq!(ent.max_password_age, None);
    assert_eq!(ent.warn_period, None);
    assert_eq!(ent.inact_period, None);
    assert_eq!(ent.expire_date, None);
    assert_eq!(ent.to_line(), line);
}

#[test]
fn shadow_ninth_field_ignored() {
    let line = "joe:*:18881:0:99999:7:::reserved";
    let ent = ShadowEntry::from_line(line).unwrap();
    assert_eq!(ent, shadow_sample_ent());
}
