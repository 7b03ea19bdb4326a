//! Identity provisioning: given a requested (uid, gid, user, group)
//! identity, decide — from the current text of each account file — whether
//! a record must be appended, nothing needs doing, or a conflicting record
//! forbids provisioning.  The surrounding shell reads each file, asks here,
//! and appends exactly the returned record; the decisions themselves are
//! fully verified.

use vstd::prelude::*;
use vstd::string::StringExecFns;

use crate::entfiles::EntFileReader;
use crate::entfiles::ReadEntryError;
use crate::entfiles::entries_of_content;
use crate::entfiles::lemma_entries_append_line;
use crate::groups::GroupEntry;
use crate::groups::GroupEntryV;
use crate::groups::group_line_of;
use crate::groups::group_line_safe;
use crate::groups::lemma_group_round_trip;
use crate::passwd::PasswdEntry;
use crate::passwd::PasswdEntryV;
use crate::passwd::lemma_passwd_round_trip;
use crate::passwd::passwd_line_of;
use crate::passwd::passwd_line_safe;
use crate::shadow::ShadowEntry;
use crate::shadow::ShadowEntryV;
use crate::shadow::lemma_shadow_round_trip;
use crate::shadow::shadow_line_of;
use crate::shadow::shadow_line_safe;
use crate::util::dec_str_of;
use crate::util::free_of;
use crate::util::is_dec_digit;
use crate::util::join_spec;
use crate::util::lemma_dec_str_of;
use crate::util::lemma_free_concat;
use crate::util::opt_num_str;
use crate::util::trim_end_spec;

verus! {

/// A failure that aborts the whole provisioning pass.
#[derive(Debug, PartialEq, Eq)]
pub enum ProvisionError {
    /// A record of the scanned file could not be parsed.
    Entry(ReadEntryError),
    /// The requested group name already exists with a different gid.
    GroupConflict,
    /// The requested user name already exists with a different uid.
    UserConflict,
}

/// What scanning the existing records for the requested identity decides.
#[derive(Debug, PartialEq, Eq)]
pub enum ScanDecision {
    /// A record with the requested name and id already exists: nothing to
    /// append, success.
    Present,
    /// A record with the requested name but a different id exists: hard
    /// failure.
    Conflict,
    /// A record failed to parse before any decision could be reached.
    Bad(ReadEntryError),
    /// No record with the requested name exists: append a new one.
    Missing,
}

/// The outcome of one successful `ensure` pass over a file.
pub struct EnsureOutcome<T> {
    /// The record to append, or `None` when the file already provides the
    /// requested identity.
    pub append: Option<T>,
    /// An existing record under a different name already uses the
    /// requested numeric id.  Tolerated, but surfaced so the caller can
    /// warn.
    pub id_collision: bool,
}

// ---------------------------------------------------------------------
// Scan specifications
// ---------------------------------------------------------------------

/// The decision reached by scanning group records in file order for the
/// requested name and gid.
pub open spec fn group_scan(
    entries: Seq<Result<GroupEntryV, ReadEntryError>>,
    name: Seq<char>,
    gid: u32,
) -> ScanDecision
    decreases entries.len(),
{
    if entries.len() == 0 {
        ScanDecision::Missing
    } else {
        match entries.first() {
            Err(e) => ScanDecision::Bad(e),
            Ok(g) => if g.name == name {
                if g.gid == gid {
                    ScanDecision::Present
                } else {
                    ScanDecision::Conflict
                }
            } else {
                group_scan(entries.drop_first(), name, gid)
            },
        }
    }
}

/// Whether, before the scan decided, some group under another name already
/// used the requested gid.
pub open spec fn group_gid_collision(
    entries: Seq<Result<GroupEntryV, ReadEntryError>>,
    name: Seq<char>,
    gid: u32,
) -> bool
    decreases entries.len(),
{
    if entries.len() == 0 {
        false
    } else {
        match entries.first() {
            Err(e) => false,
            Ok(g) => if g.name == name {
                false
            } else {
                g.gid == gid || group_gid_collision(entries.drop_first(), name, gid)
            },
        }
    }
}

/// The decision reached by scanning passwd records in file order for the
/// requested name and uid.
pub open spec fn user_scan(
    entries: Seq<Result<PasswdEntryV, ReadEntryError>>,
    name: Seq<char>,
    uid: u32,
) -> ScanDecision
    decreases entries.len(),
{
    if entries.len() == 0 {
        ScanDecision::Missing
    } else {
        match entries.first() {
            Err(e) => ScanDecision::Bad(e),
            Ok(u) => if u.name == name {
                if u.uid == uid {
                    ScanDecision::Present
                } else {
                    ScanDecision::Conflict
                }
            } else {
                user_scan(entries.drop_first(), name, uid)
            },
        }
    }
}

/// Whether, before the scan decided, some user under another name already
/// used the requested uid.
pub open spec fn user_uid_collision(
    entries: Seq<Result<PasswdEntryV, ReadEntryError>>,
    name: Seq<char>,
    uid: u32,
) -> bool
    decreases entries.len(),
{
    if entries.len() == 0 {
        false
    } else {
        match entries.first() {
            Err(e) => false,
            Ok(u) => if u.name == name {
                false
            } else {
                u.uid == uid || user_uid_collision(entries.drop_first(), name, uid)
            },
        }
    }
}

/// The decision reached by scanning shadow records in file order for the
/// requested name.  A name match of any shape counts as already
/// provisioned: pre-existing shadow entries are never validated further.
pub open spec fn shadow_scan(
    entries: Seq<Result<ShadowEntryV, ReadEntryError>>,
    name: Seq<char>,
) -> ScanDecision
    decreases entries.len(),
{
    if entries.len() == 0 {
        ScanDecision::Missing
    } else {
        match entries.first() {
            Err(e) => ScanDecision::Bad(e),
            Ok(s) => if s.name == name {
                ScanDecision::Present
            } else {
                shadow_scan(entries.drop_first(), name)
            },
        }
    }
}

// ---------------------------------------------------------------------
// The records a fresh identity gets
// ---------------------------------------------------------------------

/// The home directory computed for a user name.
pub open spec fn home_dir_spec(user: Seq<char>) -> Seq<char> {
    "/home/"@ + user
}

/// The group record appended for a fresh identity: an invalid-password
/// placeholder and no members.
pub open spec fn new_group_v(name: Seq<char>, gid: u32) -> GroupEntryV {
    GroupEntryV { name, passwd: "x"@, gid, members: Seq::<Seq<char>>::empty() }
}

/// The passwd record appended for a fresh identity: an invalid-password
/// placeholder, the user name echoed as gecos, the computed home
/// directory, and a fixed default shell.
pub open spec fn new_passwd_v(name: Seq<char>, uid: u32, gid: u32) -> PasswdEntryV {
    PasswdEntryV {
        name,
        passwd: "x"@,
        uid,
        gid,
        gecos: name,
        home_dir: home_dir_spec(name),
        shell: "/bin/bash"@,
    }
}

/// The shadow record appended for a fresh identity: an invalid-password
/// placeholder and every optional field unset.
pub open spec fn new_shadow_v(name: Seq<char>) -> ShadowEntryV {
    ShadowEntryV {
        name,
        passwd: "x"@,
        last_change_date: None,
        min_password_age: None,
        max_password_age: None,
        warn_period: None,
        inact_period: None,
        expire_date: None,
    }
}

// ---------------------------------------------------------------------
// UserInfo
// ---------------------------------------------------------------------

/// The identity one provisioning pass establishes.
#[derive(Debug)]
pub struct UserInfo {
    pub uid: u32,
    pub gid: u32,
    pub user: String,
    pub group: String,
}

impl UserInfo {
    /// The home directory path for this identity.
    pub fn home_dir(&self) -> (r: String)
        ensures
            r@ == home_dir_spec(self.user@),
    {
        let mut s = String::from_str("/home/");
        s.append(self.user.as_str());
        s
    }

    /// Decides, from the current text of the group file, how to provision
    /// the requested group: nothing to do when name and gid already match,
    /// a hard conflict when the name is taken by another gid, and a fresh
    /// record to append when the name is absent.  A gid in use under
    /// another name is tolerated and surfaced as `id_collision`.
    pub fn add_group(&self, content: &str) -> (r: Result<
        EnsureOutcome<GroupEntry>,
        ProvisionError,
    >)
        ensures
            ({
                let entries = entries_of_content::<GroupEntry>(content@);
                let d = group_scan(entries, self.group@, self.gid);
                match r {
                    Ok(out) => out.id_collision == group_gid_collision(
                        entries,
                        self.group@,
                        self.gid,
                    ) && match d {
                        ScanDecision::Present => out.append is None,
                        ScanDecision::Missing => out.append matches Some(g) && g@ == new_group_v(
                            self.group@,
                            self.gid,
                        ),
                        _ => false,
                    },
                    Err(e) => match d {
                        ScanDecision::Conflict => e == ProvisionError::GroupConflict,
                        ScanDecision::Bad(re) => e == ProvisionError::Entry(re),
                        _ => false,
                    },
                }
            }),
    {
        let mut reader = EntFileReader::<GroupEntry>::new(content);
        let ghost entries = reader.remaining();
        let mut collision = false;
        loop
            invariant
                reader.wf(),
                entries == entries_of_content::<GroupEntry>(content@),
                group_scan(entries, self.group@, self.gid) == group_scan(
                    reader.remaining(),
                    self.group@,
                    self.gid,
                ),
                group_gid_collision(entries, self.group@, self.gid) == (collision
                    || group_gid_collision(reader.remaining(), self.group@, self.gid)),
            decreases reader.remaining().len(),
        {
            let ghost rem = reader.remaining();
            match reader.next() {
                None => {
                    let entry = GroupEntry {
                        name: self.group.clone(),
                        passwd: String::from_str("x"),
                        gid: self.gid,
                        members: Vec::new(),
                    };
                    proof {
                        assert(entry@.members =~~= Seq::<Seq<char>>::empty());
                        assert(entry@ =~~= new_group_v(self.group@, self.gid));
                    }
                    return Ok(EnsureOutcome { append: Some(entry), id_collision: collision });
                },
                Some(res) => match res {
                    Err(e) => {
                        proof {
                            assert(rem.first() == Err::<GroupEntryV, ReadEntryError>(e));
                        }
                        return Err(ProvisionError::Entry(e));
                    },
                    Ok(g) => {
                        let name_matches = g.name == self.group;
                        let gid_matches = g.gid == self.gid;
                        proof {
                            assert(rem.first() == Ok::<GroupEntryV, ReadEntryError>(g@));
                            assert(name_matches == (g@.name == self.group@));
                        }
                        if name_matches {
                            if gid_matches {
                                return Ok(EnsureOutcome { append: None, id_collision: collision });
                            }
                            return Err(ProvisionError::GroupConflict);
                        }
                        if gid_matches {
                            collision = true;
                        }
                    },
                },
            }
        }
    }

    /// Decides, from the current text of the passwd file, how to provision
    /// the requested user, with the same conflict policy as `add_group`
    /// keyed by (name, uid).  A fresh record carries the user name as
    /// gecos, the computed home directory, and the default shell.
    pub fn add_user(&self, content: &str) -> (r: Result<
        EnsureOutcome<PasswdEntry>,
        ProvisionError,
    >)
        ensures
            ({
                let entries = entries_of_content::<PasswdEntry>(content@);
                let d = user_scan(entries, self.user@, self.uid);
                match r {
                    Ok(out) => out.id_collision == user_uid_collision(
                        entries,
                        self.user@,
                        self.uid,
                    ) && match d {
                        ScanDecision::Present => out.append is None,
                        ScanDecision::Missing => out.append matches Some(u) && u@ == new_passwd_v(
                            self.user@,
                            self.uid,
                            self.gid,
                        ),
                        _ => false,
                    },
                    Err(e) => match d {
                        ScanDecision::Conflict => e == ProvisionError::UserConflict,
                        ScanDecision::Bad(re) => e == ProvisionError::Entry(re),
                        _ => false,
                    },
                }
            }),
    {
        let mut reader = EntFileReader::<PasswdEntry>::new(content);
        let ghost entries = reader.remaining();
        let mut collision = false;
        loop
            invariant
                reader.wf(),
                entries == entries_of_content::<PasswdEntry>(content@),
                user_scan(entries, self.user@, self.uid) == user_scan(
                    reader.remaining(),
                    self.user@,
                    self.uid,
                ),
                user_uid_collision(entries, self.user@, self.uid) == (collision
                    || user_uid_collision(reader.remaining(), self.user@, self.uid)),
            decreases reader.remaining().len(),
        {
            let ghost rem = reader.remaining();
            match reader.next() {
                None => {
                    let entry = PasswdEntry {
                        name: self.user.clone(),
                        passwd: String::from_str("x"),
                        uid: self.uid,
                        gid: self.gid,
                        gecos: self.user.clone(),
                        home_dir: self.home_dir(),
                        shell: String::from_str("/bin/bash"),
                    };
                    proof {
                        assert(entry@ =~~= new_passwd_v(self.user@, self.uid, self.gid));
                    }
                    return Ok(EnsureOutcome { append: Some(entry), id_collision: collision });
                },
                Some(res) => match res {
                    Err(e) => {
                        return Err(ProvisionError::Entry(e));
                    },
                    Ok(u) => {
                        let name_matches = u.name == self.user;
                        let uid_matches = u.uid == self.uid;
                        proof {
                            assert(rem.first() == Ok::<PasswdEntryV, ReadEntryError>(u@));
                        }
                        if name_matches {
                            if uid_matches {
                                return Ok(EnsureOutcome { append: None, id_collision: collision });
                            }
                            return Err(ProvisionError::UserConflict);
                        }
                        if uid_matches {
                            collision = true;
                        }
                    },
                },
            }
        }
    }

    /// Decides, from the current text of the shadow file, whether a shadow
    /// record must be appended for the requested user.  A record under the
    /// requested name, however configured, counts as already provisioned
    /// and is left untouched.
    pub fn add_shadow(&self, content: &str) -> (r: Result<Option<ShadowEntry>, ProvisionError>)
        ensures
            ({
                let entries = entries_of_content::<ShadowEntry>(content@);
                let d = shadow_scan(entries, self.user@);
                match r {
                    Ok(out) => match d {
                        ScanDecision::Present => out is None,
                        ScanDecision::Missing => out matches Some(s) && s@ == new_shadow_v(
                            self.user@,
                        ),
                        _ => false,
                    },
                    Err(e) => match d {
                        ScanDecision::Bad(re) => e == ProvisionError::Entry(re),
                        _ => false,
                    },
                }
            }),
    {
        let mut reader = EntFileReader::<ShadowEntry>::new(content);
        let ghost entries = reader.remaining();
        loop
            invariant
                reader.wf(),
                entries == entries_of_content::<ShadowEntry>(content@),
                shadow_scan(entries, self.user@) == shadow_scan(reader.remaining(), self.user@),
            decreases reader.remaining().len(),
        {
            let ghost rem = reader.remaining();
            match reader.next() {
                None => {
                    let entry = ShadowEntry {
                        name: self.user.clone(),
                        passwd: String::from_str("x"),
                        last_change_date: None,
                        min_password_age: None,
                        max_password_age: None,
                        warn_period: None,
                        inact_period: None,
                        expire_date: None,
                    };
                    proof {
                        assert(entry@ =~~= new_shadow_v(self.user@));
                    }
                    return Ok(Some(entry));
                },
                Some(res) => match res {
                    Err(e) => {
                        return Err(ProvisionError::Entry(e));
                    },
                    Ok(s) => {
                        let name_matches = s.name == self.user;
                        proof {
                            assert(rem.first() == Ok::<ShadowEntryV, ReadEntryError>(s@));
                        }
                        if name_matches {
                            return Ok(None);
                        }
                    },
                },
            }
        }
    }
}

// ---------------------------------------------------------------------
// Idempotence: appending the decided record flips the decision to Present
// ---------------------------------------------------------------------

/// A requested name that serializes into one clean record line: free of
/// the field separator and of newlines, and not starting a comment.
pub open spec fn provision_name_ok(name: Seq<char>) -> bool {
    free_of(name, ':') && free_of(name, '\n') && (name.len() > 0 ==> name[0] != '#')
}

/// Conflict law: when a group record under the requested name but with a
/// different gid stands in the file, and no earlier record is malformed
/// or uses the requested name, the scan decides `Conflict`, so
/// provisioning fails and appends nothing.
pub proof fn lemma_group_conflict(
    entries: Seq<Result<GroupEntryV, ReadEntryError>>,
    name: Seq<char>,
    gid: u32,
    k: int,
)
    requires
        0 <= k < entries.len(),
        entries[k] matches Ok(g) && g.name == name && g.gid != gid,
        forall|j: int| 0 <= j < k ==> ((#[trigger] entries[j]) matches Ok(h) && h.name != name),
    ensures
        group_scan(entries, name, gid) == ScanDecision::Conflict,
    decreases k,
{
    if k == 0 {
        assert(entries.first() == entries[0]);
    } else {
        assert(entries.first() == entries[0]);
        assert(entries[0] matches Ok(h) && h.name != name);
        let rest = entries.drop_first();
        assert(rest[k - 1] == entries[k]);
        assert forall|j: int| 0 <= j < k - 1 implies ((#[trigger] rest[j]) matches Ok(h)
            && h.name != name) by {
            assert(rest[j] == entries[j + 1]);
        }
        lemma_group_conflict(rest, name, gid, k - 1);
    }
}

/// Once a group scan runs off the end undecided, scanning an extension
/// decides exactly as the extension alone does.
pub proof fn lemma_group_scan_append(
    a: Seq<Result<GroupEntryV, ReadEntryError>>,
    b: Seq<Result<GroupEntryV, ReadEntryError>>,
    name: Seq<char>,
    gid: u32,
)
    requires
        group_scan(a, name, gid) == ScanDecision::Missing,
    ensures
        group_scan(a + b, name, gid) == group_scan(b, name, gid),
    decreases a.len(),
{
    if a.len() == 0 {
        assert(a + b =~= b);
    } else {
        assert((a + b).first() == a.first());
        assert((a + b).drop_first() =~= a.drop_first() + b);
        lemma_group_scan_append(a.drop_first(), b, name, gid);
    }
}

/// Once a user scan runs off the end undecided, scanning an extension
/// decides exactly as the extension alone does.
pub proof fn lemma_user_scan_append(
    a: Seq<Result<PasswdEntryV, ReadEntryError>>,
    b: Seq<Result<PasswdEntryV, ReadEntryError>>,
    name: Seq<char>,
    uid: u32,
)
    requires
        user_scan(a, name, uid) == ScanDecision::Missing,
    ensures
        user_scan(a + b, name, uid) == user_scan(b, name, uid),
    decreases a.len(),
{
    if a.len() == 0 {
        assert(a + b =~= b);
    } else {
        assert((a + b).first() == a.first());
        assert((a + b).drop_first() =~= a.drop_first() + b);
        lemma_user_scan_append(a.drop_first(), b, name, uid);
    }
}

/// Once a shadow scan runs off the end undecided, scanning an extension
/// decides exactly as the extension alone does.
pub proof fn lemma_shadow_scan_append(
    a: Seq<Result<ShadowEntryV, ReadEntryError>>,
    b: Seq<Result<ShadowEntryV, ReadEntryError>>,
    name: Seq<char>,
)
    requires
        shadow_scan(a, name) == ScanDecision::Missing,
    ensures
        shadow_scan(a + b, name) == shadow_scan(b, name),
    decreases a.len(),
{
    if a.len() == 0 {
        assert(a + b =~= b);
    } else {
        assert((a + b).first() == a.first());
        assert((a + b).drop_first() =~= a.drop_first() + b);
        lemma_shadow_scan_append(a.drop_first(), b, name);
    }
}

/// The invalid-password placeholder is a single harmless character.
proof fn lemma_placeholder_chars()
    ensures
        "x"@.len() == 1,
        free_of("x"@, ':'),
        free_of("x"@, '\n'),
        "x"@[0] == 'x',
{
    reveal_strlit("x");
}

/// Decimal numerals contain neither separators nor newlines.
proof fn lemma_numeral_free(n: nat)
    ensures
        free_of(dec_str_of(n), ':'),
        free_of(dec_str_of(n), '\n'),
{
    lemma_dec_str_of(n);
    let s = dec_str_of(n);
    assert forall|i: int| 0 <= i < s.len() implies s[i] != ':' && s[i] != '\n' by {
        assert(is_dec_digit(s[i]));
    }
}

/// The serialized fresh group record is one clean, parseable line.
proof fn lemma_new_group_line(name: Seq<char>, gid: u32)
    requires
        provision_name_ok(name),
    ensures
        ({
            let line = group_line_of(new_group_v(name, gid));
            &&& line.len() > 0
            &&& line[0] != '#'
            &&& free_of(line, '\n')
            &&& trim_end_spec(line) == line
            &&& crate::groups::parse_group_line(line) == Ok::<GroupEntryV, ReadEntryError>(
                new_group_v(name, gid),
            )
        }),
{
    let v = new_group_v(name, gid);
    let line = group_line_of(v);
    lemma_placeholder_chars();
    lemma_numeral_free(gid as nat);
    let g = dec_str_of(gid as nat);
    assert(join_spec(v.members, ',') == Seq::<char>::empty());
    let colon = seq![':'];
    assert(free_of(colon, '\n'));
    let head = name + colon + "x"@ + colon + g + colon;
    assert(line =~= head);
    lemma_free_concat(name, colon, '\n');
    lemma_free_concat(name + colon, "x"@, '\n');
    lemma_free_concat(name + colon + "x"@, colon, '\n');
    lemma_free_concat(name + colon + "x"@ + colon, g, '\n');
    lemma_free_concat(name + colon + "x"@ + colon + g, colon, '\n');
    assert(free_of(line, '\n'));
    assert(line.last() == ':');
    assert(line.len() > 0);
    if name.len() > 0 {
        assert(line[0] == name[0]);
    } else {
        assert(line[0] == ':');
    }
    assert(trim_end_spec(line) == line);
    assert(group_line_safe(v));
    lemma_group_round_trip(v);
}

/// The serialized fresh passwd record is one clean, parseable line.
proof fn lemma_new_passwd_line(name: Seq<char>, uid: u32, gid: u32)
    requires
        provision_name_ok(name),
    ensures
        ({
            let line = passwd_line_of(new_passwd_v(name, uid, gid));
            &&& line.len() > 0
            &&& line[0] != '#'
            &&& free_of(line, '\n')
            &&& trim_end_spec(line) == line
            &&& crate::passwd::parse_passwd_line(line) == Ok::<PasswdEntryV, ReadEntryError>(
                new_passwd_v(name, uid, gid),
            )
        }),
{
    let v = new_passwd_v(name, uid, gid);
    let line = passwd_line_of(v);
    lemma_placeholder_chars();
    lemma_numeral_free(uid as nat);
    lemma_numeral_free(gid as nat);
    let u = dec_str_of(uid as nat);
    let g = dec_str_of(gid as nat);
    reveal_strlit("/home/");
    reveal_strlit("/bin/bash");
    let home_lit = "/home/"@;
    let shell = "/bin/bash"@;
    assert(home_lit.len() == 6);
    assert(shell.len() == 9);
    assert(free_of(home_lit, ':')) by {
        assert forall|i: int| 0 <= i < home_lit.len() implies home_lit[i] != ':' by {
            assert(home_lit[0] == '/');
            assert(home_lit[1] == 'h');
            assert(home_lit[2] == 'o');
            assert(home_lit[3] == 'm');
            assert(home_lit[4] == 'e');
            assert(home_lit[5] == '/');
        }
    }
    assert(free_of(home_lit, '\n')) by {
        assert forall|i: int| 0 <= i < home_lit.len() implies home_lit[i] != '\n' by {
            assert(home_lit[0] == '/');
            assert(home_lit[1] == 'h');
            assert(home_lit[2] == 'o');
            assert(home_lit[3] == 'm');
            assert(home_lit[4] == 'e');
            assert(home_lit[5] == '/');
        }
    }
    assert(free_of(shell, ':')) by {
        assert forall|i: int| 0 <= i < shell.len() implies shell[i] != ':' by {
            assert(shell[0] == '/');
            assert(shell[1] == 'b');
            assert(shell[2] == 'i');
            assert(shell[3] == 'n');
            assert(shell[4] == '/');
            assert(shell[5] == 'b');
            assert(shell[6] == 'a');
            assert(shell[7] == 's');
            assert(shell[8] == 'h');
        }
    }
    assert(free_of(shell, '\n')) by {
        assert forall|i: int| 0 <= i < shell.len() implies shell[i] != '\n' by {
            assert(shell[0] == '/');
            assert(shell[1] == 'b');
            assert(shell[2] == 'i');
            assert(shell[3] == 'n');
            assert(shell[4] == '/');
            assert(shell[5] == 'b');
            assert(shell[6] == 'a');
            assert(shell[7] == 's');
            assert(shell[8] == 'h');
        }
    }
    let home = home_dir_spec(name);
    lemma_free_concat(home_lit, name, ':');
    lemma_free_concat(home_lit, name, '\n');
    let colon = seq![':'];
    assert(free_of(colon, '\n'));
    lemma_free_concat(name, colon, '\n');
    lemma_free_concat(name + colon, "x"@, '\n');
    lemma_free_concat(name + colon + "x"@, colon, '\n');
    lemma_free_concat(name + colon + "x"@ + colon, u, '\n');
    lemma_free_concat(name + colon + "x"@ + colon + u, colon, '\n');
    lemma_free_concat(name + colon + "x"@ + colon + u + colon, g, '\n');
    lemma_free_concat(name + colon + "x"@ + colon + u + colon + g, colon, '\n');
    lemma_free_concat(name + colon + "x"@ + colon + u + colon + g + colon, name, '\n');
    lemma_free_concat(name + colon + "x"@ + colon + u + colon + g + colon + name, colon, '\n');
    lemma_free_concat(
        name + colon + "x"@ + colon + u + colon + g + colon + name + colon,
        home,
        '\n',
    );
    lemma_free_concat(
        name + colon + "x"@ + colon + u + colon + g + colon + name + colon + home,
        colon,
        '\n',
    );
    lemma_free_concat(
        name + colon + "x"@ + colon + u + colon + g + colon + name + colon + home + colon,
        shell,
        '\n',
    );
    assert(line =~= name + colon + "x"@ + colon + u + colon + g + colon + name + colon + home
        + colon + shell);
    assert(free_of(line, '\n'));
    assert(line.last() == shell[8]);
    assert(line.len() > 0);
    if name.len() > 0 {
        assert(line[0] == name[0]);
    } else {
        assert(line[0] == ':');
    }
    assert(!crate::util::is_blank_char('h'));
    assert(trim_end_spec(line) == line);
    assert(passwd_line_safe(v));
    lemma_passwd_round_trip(v);
}

/// The serialized fresh shadow record is one clean, parseable line.
proof fn lemma_new_shadow_line(name: Seq<char>)
    requires
        provision_name_ok(name),
    ensures
        ({
            let line = shadow_line_of(new_shadow_v(name));
            &&& line.len() > 0
            &&& line[0] != '#'
            &&& free_of(line, '\n')
            &&& trim_end_spec(line) == line
            &&& crate::shadow::parse_shadow_line(line) == Ok::<ShadowEntryV, ReadEntryError>(
                new_shadow_v(name),
            )
        }),
{
    let v = new_shadow_v(name);
    let line = shadow_line_of(v);
    lemma_placeholder_chars();
    let colon = seq![':'];
    assert(free_of(colon, '\n'));
    let empty = Seq::<char>::empty();
    assert(opt_num_str(v.last_change_date) == empty);
    lemma_free_concat(name, colon, '\n');
    lemma_free_concat(name + colon, "x"@, '\n');
    lemma_free_concat(name + colon + "x"@, colon, '\n');
    lemma_free_concat(name + colon + "x"@ + colon, colon, '\n');
    lemma_free_concat(name + colon + "x"@ + colon + colon, colon, '\n');
    lemma_free_concat(name + colon + "x"@ + colon + colon + colon, colon, '\n');
    lemma_free_concat(name + colon + "x"@ + colon + colon + colon + colon, colon, '\n');
    lemma_free_concat(name + colon + "x"@ + colon + colon + colon + colon + colon, colon, '\n');
    lemma_free_concat(
        name + colon + "x"@ + colon + colon + colon + colon + colon + colon,
        colon,
        '\n',
    );
    assert(line =~= name + colon + "x"@ + colon + colon + colon + colon + colon + colon + colon);
    assert(free_of(line, '\n'));
    assert(line.last() == ':');
    assert(line.len() > 0);
    if name.len() > 0 {
        assert(line[0] == name[0]);
    } else {
        assert(line[0] == ':');
    }
    assert(trim_end_spec(line) == line);
    assert(shadow_line_safe(v));
    lemma_shadow_round_trip(v);
}

/// Idempotence for the group file: when the scan found the requested
/// group missing and the freshly serialized record is appended (after a
/// newline-terminated or empty file), a second scan finds it present, so
/// a second provisioning pass appends nothing.
pub proof fn lemma_add_group_idempotent(content: Seq<char>, name: Seq<char>, gid: u32)
    requires
        content.len() == 0 || content.last() == '\n',
        provision_name_ok(name),
        group_scan(entries_of_content::<GroupEntry>(content), name, gid) == ScanDecision::Missing,
    ensures
        group_scan(
            entries_of_content::<GroupEntry>(
                content + group_line_of(new_group_v(name, gid)) + seq!['\n'],
            ),
            name,
            gid,
        ) == ScanDecision::Present,
{
    let v = new_group_v(name, gid);
    let line = group_line_of(v);
    lemma_new_group_line(name, gid);
    lemma_entries_append_line::<GroupEntry>(content, line);
    let entries = entries_of_content::<GroupEntry>(content);
    let one = seq![Ok::<GroupEntryV, ReadEntryError>(v)];
    assert(entries_of_content::<GroupEntry>(content + line + seq!['\n']) =~= entries + one);
    lemma_group_scan_append(entries, one, name, gid);
    assert(group_scan(one, name, gid) == ScanDecision::Present);
}

/// Idempotence for the passwd file, as for the group file.
pub proof fn lemma_add_user_idempotent(content: Seq<char>, name: Seq<char>, uid: u32, gid: u32)
    requires
        content.len() == 0 || content.last() == '\n',
        provision_name_ok(name),
        user_scan(entries_of_content::<PasswdEntry>(content), name, uid) == ScanDecision::Missing,
    ensures
        user_scan(
            entries_of_content::<PasswdEntry>(
                content + passwd_line_of(new_passwd_v(name, uid, gid)) + seq!['\n'],
            ),
            name,
            uid,
        ) == ScanDecision::Present,
{
    let v = new_passwd_v(name, uid, gid);
    let line = passwd_line_of(v);
    lemma_new_passwd_line(name, uid, gid);
    lemma_entries_append_line::<PasswdEntry>(content, line);
    let entries = entries_of_content::<PasswdEntry>(content);
    let one = seq![Ok::<PasswdEntryV, ReadEntryError>(v)];
    assert(entries_of_content::<PasswdEntry>(content + line + seq!['\n']) =~= entries + one);
    lemma_user_scan_append(entries, one, name, uid);
    assert(user_scan(one, name, uid) == ScanDecision::Present);
}

/// Idempotence for the shadow file, as for the group file.
pub proof fn lemma_add_shadow_idempotent(content: Seq<char>, name: Seq<char>)
    requires
        content.len() == 0 || content.last() == '\n',
        provision_name_ok(name),
        shadow_scan(entries_of_content::<ShadowEntry>(content), name) == ScanDecision::Missing,
    ensures
        shadow_scan(
            entries_of_content::<ShadowEntry>(
                content + shadow_line_of(new_shadow_v(name)) + seq!['\n'],
            ),
            name,
        ) == ScanDecision::Present,
{
    let v = new_shadow_v(name);
    let line = shadow_line_of(v);
    lemma_new_shadow_line(name);
    lemma_entries_append_line::<ShadowEntry>(content, line);
    let entries = entries_of_content::<ShadowEntry>(content);
    let one = seq![Ok::<ShadowEntryV, ReadEntryError>(v)];
    assert(entries_of_content::<ShadowEntry>(content + line + seq!['\n']) =~= entries + one);
    lemma_shadow_scan_append(entries, one, name);
    assert(shadow_scan(one, name) == ScanDecision::Present);
}

} // verus!
