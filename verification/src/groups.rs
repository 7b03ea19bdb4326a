//! The group schema: `name:passwd:gid:member1,member2,...`, four required
//! colon-delimited fields with a numeric gid and a comma-separated member
//! list whose empty form means no members at all.

use vstd::prelude::*;
use vstd::string::StringExecFns;

use crate::entfiles::EntFileReader;
use crate::entfiles::EntFileWriter;
use crate::entfiles::EntLineParser;
use crate::entfiles::Entry;
use crate::entfiles::ReadEntryError;
use crate::entfiles::field_at;
use crate::entfiles::u32_field_at;
use crate::util::dec_str_of;
use crate::util::free_of;
use crate::util::join_csv;
use crate::util::join_spec;
use crate::util::lemma_dec_str_of;
use crate::util::lemma_join_free;
use crate::util::lemma_join_two_nonempty;
use crate::util::lemma_split_append;
use crate::util::lemma_split_free;
use crate::util::lemma_split_join;
use crate::util::members_of;
use crate::util::split_csv_str;
use crate::util::split_spec;
use crate::util::u32_to_string;

verus! {

/// One record of the group database.
#[derive(Debug, PartialEq, Eq)]
pub struct GroupEntry {
    pub name: String,
    pub passwd: String,
    pub gid: u32,
    pub members: Vec<String>,
}

/// The mathematical view of a group record.
#[verifier::ext_equal]
pub struct GroupEntryV {
    pub name: Seq<char>,
    pub passwd: Seq<char>,
    pub gid: u32,
    pub members: Seq<Seq<char>>,
}

impl View for GroupEntry {
    type V = GroupEntryV;

    open spec fn view(&self) -> GroupEntryV {
        GroupEntryV {
            name: self.name@,
            passwd: self.passwd@,
            gid: self.gid,
            members: self.members.deep_view(),
        }
    }
}

pub type GroupFileReader<'a> = EntFileReader<'a, GroupEntry>;

pub type GroupFileWriter = EntFileWriter<GroupEntry>;

/// What parsing one group line yields: the first four fields consumed in
/// order, the last one split at commas into the member list.
pub open spec fn parse_group_line(line: Seq<char>) -> Result<GroupEntryV, ReadEntryError> {
    let f = split_spec(line, ':');
    match field_at(f, 0) {
        Err(e) => Err(e),
        Ok(name) => match field_at(f, 1) {
            Err(e) => Err(e),
            Ok(passwd) => match u32_field_at(f, 2) {
                Err(e) => Err(e),
                Ok(gid) => match field_at(f, 3) {
                    Err(e) => Err(e),
                    Ok(member_field) => Ok(
                        GroupEntryV { name, passwd, gid, members: members_of(member_field) },
                    ),
                },
            },
        },
    }
}

/// The one-line serialization of a group record.
pub open spec fn group_line_of(v: GroupEntryV) -> Seq<char> {
    v.name + seq![':'] + v.passwd + seq![':'] + dec_str_of(v.gid as nat) + seq![':'] + join_spec(
        v.members,
        ',',
    )
}

/// A record whose serialized line parses back without ambiguity: no string
/// field may contain a colon, members may not contain commas either, and
/// the member list may not consist of one single empty name, which would
/// serialize exactly like no members at all.
pub open spec fn group_line_safe(v: GroupEntryV) -> bool {
    &&& free_of(v.name, ':')
    &&& free_of(v.passwd, ':')
    &&& forall|i: int|
        0 <= i < v.members.len() ==> free_of(#[trigger] v.members[i], ':') && free_of(
            v.members[i],
            ',',
        )
    &&& !(v.members.len() == 1 && v.members[0].len() == 0)
}

/// Round trip: serializing any line-safe group record and parsing the
/// result reproduces the record exactly.
pub proof fn lemma_group_round_trip(v: GroupEntryV)
    requires
        group_line_safe(v),
    ensures
        parse_group_line(group_line_of(v)) == Ok::<GroupEntryV, ReadEntryError>(v),
{
    lemma_dec_str_of(v.gid as nat);
    let g = dec_str_of(v.gid as nat);
    let mem = join_spec(v.members, ',');
    lemma_join_free(v.members, ',', ':');
    let r2 = g + seq![':'] + mem;
    let r1 = v.passwd + seq![':'] + r2;
    let l = group_line_of(v);
    assert(l =~= v.name + seq![':'] + r1);
    lemma_split_append(v.name, r1, ':');
    lemma_split_free(v.name, ':');
    assert(r1 =~= v.passwd + seq![':'] + r2);
    lemma_split_append(v.passwd, r2, ':');
    lemma_split_free(v.passwd, ':');
    assert(r2 =~= g + seq![':'] + mem);
    lemma_split_append(g, mem, ':');
    assert(free_of(g, ':'));
    lemma_split_free(g, ':');
    lemma_split_free(mem, ':');
    let f = split_spec(l, ':');
    assert(f =~~= seq![v.name, v.passwd, g, mem]);
    assert(u32_field_at(f, 2) == Ok::<u32, ReadEntryError>(v.gid));
    if v.members.len() == 0 {
        assert(mem =~= Seq::<char>::empty());
        assert(members_of(mem) =~~= v.members);
    } else {
        if v.members.len() == 1 {
            assert(mem == v.members[0]);
            assert(v.members[0].len() > 0);
        } else {
            lemma_join_two_nonempty(v.members, ',');
        }
        assert(mem.len() > 0);
        lemma_split_join(v.members, ',');
        assert(members_of(mem) =~~= v.members);
    }
    assert(parse_group_line(l) == Ok::<GroupEntryV, ReadEntryError>(v));
}

/// A group line with fewer than four fields never parses into a record;
/// it is a structural failure, not a silently skipped line, and when its
/// present numeric field is well-formed the error is exactly `Invalid`.
pub proof fn lemma_group_short_line(line: Seq<char>)
    requires
        split_spec(line, ':').len() < 4,
    ensures
        parse_group_line(line) is Err,
        ({
            let f = split_spec(line, ':');
            (f.len() > 2 ==> crate::util::is_u32_numeral(f[2])) ==> parse_group_line(line)
                == Err::<GroupEntryV, ReadEntryError>(ReadEntryError::Invalid)
        }),
{
}

impl Entry for GroupEntry {
    open spec fn from_line_spec(line: Seq<char>) -> Result<GroupEntryV, ReadEntryError> {
        parse_group_line(line)
    }

    open spec fn to_line_spec(&self) -> Seq<char> {
        group_line_of(self@)
    }

    fn from_line(line: &str) -> (r: Result<GroupEntry, ReadEntryError>)
        ensures
            match r {
                Ok(e) => Self::from_line_spec(line@) == Ok::<GroupEntryV, ReadEntryError>(e@),
                Err(err) => Self::from_line_spec(line@) == Err::<GroupEntryV, ReadEntryError>(
                    err,
                ),
            },
    {
        let mut parser = EntLineParser::new(line);
        let name = match parser.next_field_string() {
            Ok(v) => v,
            Err(e) => return Err(e),
        };
        let passwd = match parser.next_field_string() {
            Ok(v) => v,
            Err(e) => return Err(e),
        };
        let gid = match parser.next_field_u32() {
            Ok(v) => v,
            Err(e) => return Err(e),
        };
        let member_field = match parser.next_field_str() {
            Ok(v) => v,
            Err(e) => return Err(e),
        };
        let members = split_csv_str(member_field);
        Ok(GroupEntry { name, passwd, gid, members })
    }

    fn to_line(&self) -> (r: String)
        ensures
            r@ == self.to_line_spec(),
    {
        let mut out = String::new();
        out.append(self.name.as_str());
        out.append(":");
        out.append(self.passwd.as_str());
        out.append(":");
        let gid_str = u32_to_string(self.gid);
        out.append(gid_str.as_str());
        out.append(":");
        let members_str = join_csv(&self.members);
        out.append(members_str.as_str());
        proof {
            reveal_strlit(":");
            assert(":"@ =~= seq![':']);
            assert(out@ =~= group_line_of(self@));
        }
        out
    }
}

} // verus!
