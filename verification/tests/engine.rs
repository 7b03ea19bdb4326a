//! The field cursor and the generic record-file reader and writer.

use scubainit::entfiles::EntLineParser;
use scubainit::entfiles::ReadEntryError;
use scubainit::entfiles::check_full_write;
use scubainit::entfiles::WriteError;
use scubainit::groups::GroupEntry;
use scubainit::groups::GroupFileReader;
use scubainit::groups::GroupFileWriter;
use scubainit::passwd::PasswdEntry;
use scubainit::passwd::PasswdFileReader;
use scubainit::passwd::PasswdFileWriter;
use scubainit::shadow::ShadowEntry;
use scubainit::shadow::ShadowFileReader;
use scubainit::shadow::ShadowFileWriter;
use scubainit::util::short_write;

#[test]
fn next_field_str_works() {
    let mut parser = EntLineParser::new("aaa:bbb");
    assert_eq!(parser.next_field_str().unwrap(), "aaa");
    assert_eq!(parser.next_field_str().unwrap(), "bbb");
    assert!(parser.next_field_str().is_err_and(|e| matches!(e, ReadEntryError::Invalid)));
}

#[test]
fn next_field_string_works() {
    let mut parser = EntLineParser::new("aaa:bbb");
    assert_eq!(parser.next_field_string().unwrap(), "aaa");
    assert_eq!(parser.next_field_string().unwrap(), "bbb");
    assert!(parser.next_field_string().is_err_and(|e| matches!(e, ReadEntryError::Invalid)));
}

#[test]
fn next_field_u32_works() {
    let mut parser = EntLineParser::new("123:456:7zz");
    assert_eq!(parser.next_field_u32().unwrap(), 123);
    assert_eq!(parser.next_field_u32().unwrap(), 456);
    assert!(parser.next_field_u32().is_err_and(|e| matches!(e, ReadEntryError::ParseInt)));
}

#[test]
fn next_field_u32_opt_works() {
    let mut parser = EntLineParser::new("xxx::");
    assert_eq!(parser.next_field_str().unwrap(), "xxx");
    assert_eq!(parser.next_field_u32_opt().unwrap(), None);
    assert_eq!(parser.next_field_u32_opt().unwrap(), None);
}

#[test]
fn reader_skips_comments_and_blanks() {
    // A file of nothing but comments and blank lines denotes no records.
    let content = "# comment\n\n   \n\t\n# another comment\n";
    let mut reader = GroupFileReader::new(content);
    assert!(reader.next().is_none());
}

#[test]
fn reader_empty_file() {
    let mut reader = GroupFileReader::new("");
    assert!(reader.next().is_none());
}

#[test]
fn reader_yields_errors_per_line() {
    let content = "foo:x:1234:moe\nbroken\nbar:x:2345:\n";
    let mut reader = GroupFileReader::new(content);
    assert_eq!(reader.next().unwrap().unwrap().name, "foo");
    assert!(matches!(reader.next().unwrap(), Err(ReadEntryError::Invalid)));
    assert_eq!(reader.next().unwrap().unwrap().name, "bar");
    assert!(reader.next().is_none());
}

#[test]
fn reader_group_sequence() {
    let content = "foo:x:1234:moe,larry,shemp\nbar:x:2345:moe\nsnap:x:3456:\n";
    let mut reader = GroupFileReader::new(content);

    let g = reader.next().unwrap().unwrap();
    assert_eq!(g.name, "foo");
    assert_eq!(g.passwd, "x");
    assert_eq!(g.gid, 1234);
    assert_eq!(g.members, vec!["moe".to_string(), "larry".to_string(), "shemp".to_string()]);

    let g = reader.next().unwrap().unwrap();
    assert_eq!(g.name, "bar");
    assert_eq!(g.gid, 2345);
    assert_eq!(g.members, vec!["moe".to_string()]);

    let g = reader.next().unwrap().unwrap();
    assert_eq!(g.name, "snap");
    assert_eq!(g.gid, 3456);
    assert_eq!(g.members, Vec::<String>::new());

    assert!(reader.next().is_none());
}

fn group_sample_ent() -> GroupEntry {
    GroupEntry {
        name: "snap".to_string(),
        passwd: "x".to_string(),
        gid: 3456,
        members: vec!["crackle".to_string(), "pop".to_string()],
    }
}

const GROUP_SAMPLE_LINE: &str = "snap:x:3456:crackle,pop";

#[test]
fn groups_test_write() {
    let mut writer = GroupFileWriter::new();
    writer.write(&group_sample_ent());
    let buffer = writer.into_inner();
    assert_eq!(buffer, GROUP_SAMPLE_LINE.to_owned() + "\n");
}

#[test]
fn groups_test_write_read() {
    let mut writer = GroupFileWriter::new();
    let ent_w = group_sample_ent();
    writer.write(&ent_w);
    let content = writer.into_inner();

    let mut reader = GroupFileReader::new(&content);
    let ent_r = reader.next().unwrap().unwrap();
    assert_eq!(ent_w, ent_r);
}

#[test]
fn groups_test_read_write() {
    const LINE1: &str = "foo:x:1234:moe,larry,shemp";
    const LINE2: &str = "bar:x:2345:moe";
    let content = format!("{LINE1}\n{LINE2}\n");

    let mut reader = GroupFileReader::new(&content);
    let r = reader.next().unwrap().unwrap();
    assert_eq!(r.name, "foo");
    let r = reader.next().unwrap().unwrap();
    assert_eq!(r.name, "bar");

    let mut writer = GroupFileWriter::new();
    writer.write(&group_sample_ent());
    let appended = writer.into_inner();
    let modified = content + &appended;

    let lines: Vec<&str> = modified.lines().collect();
    assert_eq!(lines.len(), 3);
    assert_eq!(lines[0], LINE1);
    assert_eq!(lines[1], LINE2);
    assert_eq!(lines[2], GROUP_SAMPLE_LINE);
}

fn passwd_sample_ent() -> PasswdEntry {
    PasswdEntry {
        name: "shemp".to_string(),
        passwd: "x".to_string(),
        uid: 1003,
        gid: 1003,
        gecos: "Shemp Howard".to_string(),
        home_dir: "/home/shemp".to_string(),
        shell: "/bin/fish".to_string(),
    }
}

const PASSWD_SAMPLE_LINE: &str = "shemp:x:1003:1003:Shemp Howard:/home/shemp:/bin/fish";

#[test]
fn passwd_test_write() {
    let mut writer = PasswdFileWriter::new();
    writer.write(&passwd_sample_ent());
    let buffer = writer.into_inner();
    assert_eq!(buffer, PASSWD_SAMPLE_LINE.to_owned() + "\n");
}

#[test]
fn passwd_test_write_read() {
    let mut writer = PasswdFileWriter::new();
    let ent_w = passwd_sample_ent();
    writer.write(&ent_w);
    let content = writer.into_inner();

    let mut reader = PasswdFileReader::new(&content);
    let ent_r = reader.next().unwrap().unwrap();
    assert_eq!(ent_w, ent_r);
}

#[test]
fn passwd_test_read_write() {
    // End-to-end: appending one record leaves the first line unchanged
    // and makes the new record the final line.
    const LINE1: &str = "moe:x:1001:1001:Moe Howard:/home/moe:/bin/zsh";
    const LINE2: &str = "larry:x:1002:1002:Larry Fine:/home/larry:/bin/ksh";
    let content = format!("{LINE1}\n{LINE2}\n");

    let mut reader = PasswdFileReader::new(&content);
    let r = reader.next().unwrap().unwrap();
    assert_eq!(r.name, "moe");
    let r = reader.next().unwrap().unwrap();
    assert_eq!(r.name, "larry");

    let mut writer = PasswdFileWriter::new();
    writer.write(&passwd_sample_ent());
    let appended = writer.into_inner();
    let modified = content + &appended;

    let lines: Vec<&str> = modified.lines().collect();
    assert_eq!(lines.len(), 3);
    assert_eq!(lines[0], LINE1);
    assert_eq!(lines[1], LINE2);
    assert_eq!(lines[2], PASSWD_SAMPLE_LINE);
}

fn shadow_sample_ent() -> ShadowEntry {
    ShadowEntry {
        name: "joe".to_string(),
        passwd: "!".to_string(),
        last_change_date: Some(18881),
        min_password_age: Some(0),
        max_password_age: Some(99999),
        warn_period: Some(7),
        inact_period: None,
        expire_date: Some(19876),
    }
}

const SHADOW_SAMPLE_LINE: &str = "joe:!:18881:0:99999:7::19876:";

#[test]
fn shadow_test_write() {
    let mut writer = ShadowFileWriter::new();
    writer.write(&shadow_sample_ent());
    let buffer = writer.into_inner();
    assert_eq!(buffer, SHADOW_SAMPLE_LINE.to_owned() + "\n");
}

#[test]
fn shadow_test_write_read() {
    let mut writer = ShadowFileWriter::new();
    let ent_w = shadow_sample_ent();
    writer.write(&ent_w);
    let content = writer.into_inner();

    let mut reader = ShadowFileReader::new(&content);
    let ent_r = reader.next().unwrap().unwrap();
    assert_eq!(ent_w, ent_r);
}

#[test]
fn shadow_test_read_write() {
    const LINE1: &str = "root:$y$j9T$zzzzzzzzzzzzzzz:18881:0:99999:7:::";
    const LINE2: &str = "systemd-timesync:*:18881:0:99999:7:::";
    let content = format!("{LINE1}\n{LINE2}\n");

    let mut reader = ShadowFileReader::new(&content);
    let r = reader.next().unwrap().unwrap();
    assert_eq!(r.name, "root");
    let r = reader.next().unwrap().unwrap();
    assert_eq!(r.name, "systemd-timesync");

    let mut writer = ShadowFileWriter::new();
    writer.write(&shadow_sample_ent());
    let appended = writer.into_inner();
    let modified = content + &appended;

    let lines: Vec<&str> = modified.lines().collect();
    assert_eq!(lines.len(), 3);
    assert_eq!(lines[0], LINE1);
    assert_eq!(lines[1], LINE2);
    assert_eq!(lines[2], SHADOW_SAMPLE_LINE);
}

#[test]
fn short_write_is_detected() {
    assert_eq!(check_full_write(10, 10), Ok(()));
    assert_eq!(check_full_write(10, 7), Err(WriteError::ShortWrite));
    assert_eq!(short_write(), WriteError::ShortWrite);
}
