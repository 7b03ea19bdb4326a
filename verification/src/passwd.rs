//! The passwd schema: `name:passwd:uid:gid:gecos:home_dir:shell`, seven
//! required colon-delimited fields with numeric uid and gid.

use vstd::prelude::*;
use vstd::string::StringExecFns;

use crate::entfiles::EntFileReader;
use crate::entfiles::EntFileWriter;
use crate::entfiles::EntLineParser;
use crate::entfiles::Entry;
use crate::entfiles::ReadEntryError;
use crate::entfiles::field_at;
use crate::entfiles::u32_field_at;
use crate::util::dec_str_of;
use crate::util::free_of;
use crate::util::lemma_dec_str_of;
use crate::util::lemma_split_append;
use crate::util::lemma_split_free;
use crate::util::split_spec;
use crate::util::u32_to_string;

verus! {

/// One record of the passwd database.
#[derive(Debug, PartialEq, Eq)]
pub struct PasswdEntry {
    pub name: String,
    pub passwd: String,
    pub uid: u32,
    pub gid: u32,
    pub gecos: String,
    pub home_dir: String,
    pub shell: String,
}

/// The mathematical view of a passwd record.
#[verifier::ext_equal]
pub struct PasswdEntryV {
    pub name: Seq<char>,
    pub passwd: Seq<char>,
    pub uid: u32,
    pub gid: u32,
    pub gecos: Seq<char>,
    pub home_dir: Seq<char>,
    pub shell: Seq<char>,
}

impl View for PasswdEntry {
    type V = PasswdEntryV;

    open spec fn view(&self) -> PasswdEntryV {
        PasswdEntryV {
            name: self.name@,
            passwd: self.passwd@,
            uid: self.uid,
            gid: self.gid,
            gecos: self.gecos@,
            home_dir: self.home_dir@,
            shell: self.shell@,
        }
    }
}

pub type PasswdFileReader<'a> = EntFileReader<'a, PasswdEntry>;

pub type PasswdFileWriter = EntFileWriter<PasswdEntry>;

/// What parsing one passwd line yields: the first seven fields consumed in
/// order, failing with `Invalid` at the first missing field and `ParseInt`
/// at the first malformed numeric field.
pub open spec fn parse_passwd_line(line: Seq<char>) -> Result<PasswdEntryV, ReadEntryError> {
    let f = split_spec(line, ':');
    match field_at(f, 0) {
        Err(e) => Err(e),
        Ok(name) => match field_at(f, 1) {
            Err(e) => Err(e),
            Ok(passwd) => match u32_field_at(f, 2) {
                Err(e) => Err(e),
                Ok(uid) => match u32_field_at(f, 3) {
                    Err(e) => Err(e),
                    Ok(gid) => match field_at(f, 4) {
                        Err(e) => Err(e),
                        Ok(gecos) => match field_at(f, 5) {
                            Err(e) => Err(e),
                            Ok(home_dir) => match field_at(f, 6) {
                                Err(e) => Err(e),
                                Ok(shell) => Ok(
                                    PasswdEntryV {
                                        name,
                                        passwd,
                                        uid,
                                        gid,
                                        gecos,
                                        home_dir,
                                        shell,
                                    },
                                ),
                            },
                        },
                    },
                },
            },
        },
    }
}

/// The one-line serialization of a passwd record.
pub open spec fn passwd_line_of(v: PasswdEntryV) -> Seq<char> {
    v.name + seq![':'] + v.passwd + seq![':'] + dec_str_of(v.uid as nat) + seq![':'] + dec_str_of(
        v.gid as nat,
    ) + seq![':'] + v.gecos + seq![':'] + v.home_dir + seq![':'] + v.shell
}

/// A record whose serialized line parses back without ambiguity: no string
/// field may contain the colon separator.
pub open spec fn passwd_line_safe(v: PasswdEntryV) -> bool {
    free_of(v.name, ':') && free_of(v.passwd, ':') && free_of(v.gecos, ':') && free_of(
        v.home_dir,
        ':',
    ) && free_of(v.shell, ':')
}

/// Round trip: serializing any line-safe passwd record and parsing the
/// result reproduces the record exactly.
pub proof fn lemma_passwd_round_trip(v: PasswdEntryV)
    requires
        passwd_line_safe(v),
    ensures
        parse_passwd_line(passwd_line_of(v)) == Ok::<PasswdEntryV, ReadEntryError>(v),
{
    lemma_dec_str_of(v.uid as nat);
    lemma_dec_str_of(v.gid as nat);
    let u = dec_str_of(v.uid as nat);
    let g = dec_str_of(v.gid as nat);
    let r5 = v.home_dir + seq![':'] + v.shell;
    let r4 = v.gecos + seq![':'] + r5;
    let r3 = g + seq![':'] + r4;
    let r2 = u + seq![':'] + r3;
    let r1 = v.passwd + seq![':'] + r2;
    let l = passwd_line_of(v);
    assert(l =~= v.name + seq![':'] + r1);
    lemma_split_append(v.name, r1, ':');
    lemma_split_free(v.name, ':');
    assert(r1 =~= v.passwd + seq![':'] + r2);
    lemma_split_append(v.passwd, r2, ':');
    lemma_split_free(v.passwd, ':');
    assert(r2 =~= u + seq![':'] + r3);
    lemma_split_append(u, r3, ':');
    assert(free_of(u, ':'));
    lemma_split_free(u, ':');
    assert(r3 =~= g + seq![':'] + r4);
    lemma_split_append(g, r4, ':');
    assert(free_of(g, ':'));
    lemma_split_free(g, ':');
    assert(r4 =~= v.gecos + seq![':'] + r5);
    lemma_split_append(v.gecos, r5, ':');
    lemma_split_free(v.gecos, ':');
    assert(r5 =~= v.home_dir + seq![':'] + v.shell);
    lemma_split_append(v.home_dir, v.shell, ':');
    lemma_split_free(v.home_dir, ':');
    lemma_split_free(v.shell, ':');
    let f = split_spec(l, ':');
    assert(f =~~= seq![v.name, v.passwd, u, g, v.gecos, v.home_dir, v.shell]);
    assert(u32_field_at(f, 2) == Ok::<u32, ReadEntryError>(v.uid));
    assert(u32_field_at(f, 3) == Ok::<u32, ReadEntryError>(v.gid));
    assert(parse_passwd_line(l) == Ok::<PasswdEntryV, ReadEntryError>(v));
}

/// A passwd line with fewer than seven fields never parses into a record;
/// it is a structural failure, not a silently skipped line, and when its
/// present numeric fields are well-formed the error is exactly `Invalid`.
pub proof fn lemma_passwd_short_line(line: Seq<char>)
    requires
        split_spec(line, ':').len() < 7,
    ensures
        parse_passwd_line(line) is Err,
        ({
            let f = split_spec(line, ':');
            (forall|i: int| 2 <= i < 4 && i < f.len() ==> crate::util::is_u32_numeral(#[trigger] f[i]))
                ==> parse_passwd_line(line) == Err::<PasswdEntryV, ReadEntryError>(
                ReadEntryError::Invalid,
            )
        }),
{
}

impl Entry for PasswdEntry {
    open spec fn from_line_spec(line: Seq<char>) -> Result<PasswdEntryV, ReadEntryError> {
        parse_passwd_line(line)
    }

    open spec fn to_line_spec(&self) -> Seq<char> {
        passwd_line_of(self@)
    }

    fn from_line(line: &str) -> (r: Result<PasswdEntry, ReadEntryError>)
        ensures
            match r {
                Ok(e) => Self::from_line_spec(line@) == Ok::<PasswdEntryV, ReadEntryError>(e@),
                Err(err) => Self::from_line_spec(line@) == Err::<PasswdEntryV, ReadEntryError>(
                    err,
                ),
            },
    {
        let mut parser = EntLineParser::new(line);
        let name = match parser.next_field_string() {
            Ok(v) => v,
            Err(e) => return Err(e),
        };
        let passwd = match parser.next_field_string() {
            Ok(v) => v,
            Err(e) => return Err(e),
        };
        let uid = match parser.next_field_u32() {
            Ok(v) => v,
            Err(e) => return Err(e),
        };
        let gid = match parser.next_field_u32() {
            Ok(v) => v,
            Err(e) => return Err(e),
        };
        let gecos = match parser.next_field_string() {
            Ok(v) => v,
            Err(e) => return Err(e),
        };
        let home_dir = match parser.next_field_string() {
            Ok(v) => v,
            Err(e) => return Err(e),
        };
        let shell = match parser.next_field_string() {
            Ok(v) => v,
            Err(e) => return Err(e),
        };
        Ok(PasswdEntry { name, passwd, uid, gid, gecos, home_dir, shell })
    }

    fn to_line(&self) -> (r: String)
        ensures
            r@ == self.to_line_spec(),
    {
        let mut out = String::new();
        out.append(self.name.as_str());
        out.append(":");
        out.append(self.passwd.as_str());
        out.append(":");
        let uid_str = u32_to_string(self.uid);
        out.append(uid_str.as_str());
        out.append(":");
        let gid_str = u32_to_string(self.gid);
        out.append(gid_str.as_str());
        out.append(":");
        out.append(self.gecos.as_str());
        out.append(":");
        out.append(self.home_dir.as_str());
        out.append(":");
        out.append(self.shell.as_str());
        proof {
            reveal_strlit(":");
            assert(":"@ =~= seq![':']);
            assert(out@ =~= passwd_line_of(self@));
        }
        out
    }
}

} // verus!
