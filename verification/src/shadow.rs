//! The shadow schema: `name:passwd:last_change:min_age:max_age:warn:inact:expire:`,
//! eight required colon-delimited fields followed by an ignored reserved
//! field.  The six trailing numeric fields are optional: an empty field
//! means the value is absent, while any non-empty, non-numeric field is a
//! hard parse error.

use vstd::prelude::*;
use vstd::string::StringExecFns;

use crate::entfiles::EntFileReader;
use crate::entfiles::EntFileWriter;
use crate::entfiles::EntLineParser;
use crate::entfiles::Entry;
use crate::entfiles::ReadEntryError;
use crate::entfiles::field_at;
use crate::entfiles::opt_u32_field_at;
use crate::util::free_of;
use crate::util::lemma_dec_str_of;
use crate::util::lemma_split_append;
use crate::util::lemma_split_free;
use crate::util::opt_num_str;
use crate::util::split_spec;
use crate::util::to_string_or_empty;

verus! {

/// One record of the shadow database.
#[derive(Debug, PartialEq, Eq)]
pub struct ShadowEntry {
    pub name: String,
    pub passwd: String,
    pub last_change_date: Option<u32>,
    pub min_password_age: Option<u32>,
    pub max_password_age: Option<u32>,
    pub warn_period: Option<u32>,
    pub inact_period: Option<u32>,
    pub expire_date: Option<u32>,
}

/// The mathematical view of a shadow record.
#[verifier::ext_equal]
pub struct ShadowEntryV {
    pub name: Seq<char>,
    pub passwd: Seq<char>,
    pub last_change_date: Option<u32>,
    pub min_password_age: Option<u32>,
    pub max_password_age: Option<u32>,
    pub warn_period: Option<u32>,
    pub inact_period: Option<u32>,
    pub expire_date: Option<u32>,
}

impl View for ShadowEntry {
    type V = ShadowEntryV;

    open spec fn view(&self) -> ShadowEntryV {
        ShadowEntryV {
            name: self.name@,
            passwd: self.passwd@,
            last_change_date: self.last_change_date,
            min_password_age: self.min_password_age,
            max_password_age: self.max_password_age,
            warn_period: self.warn_period,
            inact_period: self.inact_period,
            expire_date: self.expire_date,
        }
    }
}

pub type ShadowFileReader<'a> = EntFileReader<'a, ShadowEntry>;

pub type ShadowFileWriter = EntFileWriter<ShadowEntry>;

/// What parsing one shadow line yields: the first eight fields consumed in
/// order, the six numeric ones optional; any ninth field is ignored.
pub open spec fn parse_shadow_line(line: Seq<char>) -> Result<ShadowEntryV, ReadEntryError> {
    let f = split_spec(line, ':');
    match field_at(f, 0) {
        Err(e) => Err(e),
        Ok(name) => match field_at(f, 1) {
            Err(e) => Err(e),
            Ok(passwd) => match opt_u32_field_at(f, 2) {
                Err(e) => Err(e),
                Ok(last_change_date) => match opt_u32_field_at(f, 3) {
                    Err(e) => Err(e),
                    Ok(min_password_age) => match opt_u32_field_at(f, 4) {
                        Err(e) => Err(e),
                        Ok(max_password_age) => match opt_u32_field_at(f, 5) {
                            Err(e) => Err(e),
                            Ok(warn_period) => match opt_u32_field_at(f, 6) {
                                Err(e) => Err(e),
                                Ok(inact_period) => match opt_u32_field_at(f, 7) {
                                    Err(e) => Err(e),
                                    Ok(expire_date) => Ok(
                                        ShadowEntryV {
                                            name,
                                            passwd,
                                            last_change_date,
                                            min_password_age,
                                            max_password_age,
                                            warn_period,
                                            inact_period,
                                            expire_date,
                                        },
                                    ),
                                },
                            },
                        },
                    },
                },
            },
        },
    }
}

/// The one-line serialization of a shadow record: eight fields, absent
/// numeric values rendered as empty fields, and a trailing colon opening
/// the empty reserved ninth field.
pub open spec fn shadow_line_of(v: ShadowEntryV) -> Seq<char> {
    v.name + seq![':'] + v.passwd + seq![':'] + opt_num_str(v.last_change_date) + seq![':']
        + opt_num_str(v.min_password_age) + seq![':'] + opt_num_str(v.max_password_age) + seq![':']
        + opt_num_str(v.warn_period) + seq![':'] + opt_num_str(v.inact_period) + seq![':']
        + opt_num_str(v.expire_date) + seq![':']
}

/// A record whose serialized line parses back without ambiguity: the two
/// string fields may not contain the colon separator.
pub open spec fn shadow_line_safe(v: ShadowEntryV) -> bool {
    free_of(v.name, ':') && free_of(v.passwd, ':')
}

/// An optional numeric field renders free of colons.
proof fn lemma_opt_num_free(value: Option<u32>)
    ensures
        free_of(opt_num_str(value), ':'),
        value is Some ==> opt_num_str(value).len() > 0 && crate::util::is_u32_numeral(
            opt_num_str(value),
        ) && crate::util::dec_val(opt_num_str(value)) == value->0,
        value is None ==> opt_num_str(value).len() == 0,
{
    match value {
        None => {
        },
        Some(n) => {
            lemma_dec_str_of(n as nat);
        },
    }
}

/// Round trip: serializing any line-safe shadow record and parsing the
/// result reproduces the record exactly; in particular every absent
/// optional field survives as absent.
#[verifier::rlimit(100)]
pub proof fn lemma_shadow_round_trip(v: ShadowEntryV)
    requires
        shadow_line_safe(v),
    ensures
        parse_shadow_line(shadow_line_of(v)) == Ok::<ShadowEntryV, ReadEntryError>(v),
{
    let o1 = opt_num_str(v.last_change_date);
    let o2 = opt_num_str(v.min_password_age);
    let o3 = opt_num_str(v.max_password_age);
    let o4 = opt_num_str(v.warn_period);
    let o5 = opt_num_str(v.inact_period);
    let o6 = opt_num_str(v.expire_date);
    lemma_opt_num_free(v.last_change_date);
    lemma_opt_num_free(v.min_password_age);
    lemma_opt_num_free(v.max_password_age);
    lemma_opt_num_free(v.warn_period);
    lemma_opt_num_free(v.inact_period);
    lemma_opt_num_free(v.expire_date);
    let tail = Seq::<char>::empty();
    let r7 = o6 + seq![':'] + tail;
    let r6 = o5 + seq![':'] + r7;
    let r5 = o4 + seq![':'] + r6;
    let r4 = o3 + seq![':'] + r5;
    let r3 = o2 + seq![':'] + r4;
    let r2 = o1 + seq![':'] + r3;
    let r1 = v.passwd + seq![':'] + r2;
    let l = shadow_line_of(v);
    assert(l =~= v.name + seq![':'] + r1);
    lemma_split_append(v.name, r1, ':');
    lemma_split_free(v.name, ':');
    assert(r1 =~= v.passwd + seq![':'] + r2);
    lemma_split_append(v.passwd, r2, ':');
    lemma_split_free(v.passwd, ':');
    assert(r2 =~= o1 + seq![':'] + r3);
    lemma_split_append(o1, r3, ':');
    lemma_split_free(o1, ':');
    assert(r3 =~= o2 + seq![':'] + r4);
    lemma_split_append(o2, r4, ':');
    lemma_split_free(o2, ':');
    assert(r4 =~= o3 + seq![':'] + r5);
    lemma_split_append(o3, r5, ':');
    lemma_split_free(o3, ':');
    assert(r5 =~= o4 + seq![':'] + r6);
    lemma_split_append(o4, r6, ':');
    lemma_split_free(o4, ':');
    assert(r6 =~= o5 + seq![':'] + r7);
    lemma_split_append(o5, r7, ':');
    lemma_split_free(o5, ':');
    assert(r7 =~= o6 + seq![':'] + tail);
    lemma_split_append(o6, tail, ':');
    lemma_split_free(o6, ':');
    lemma_split_free(tail, ':');
    let f = split_spec(l, ':');
    assert(f =~~= seq![v.name, v.passwd, o1, o2, o3, o4, o5, o6, tail]);
    assert(opt_u32_field_at(f, 2) == Ok::<Option<u32>, ReadEntryError>(v.last_change_date));
    assert(opt_u32_field_at(f, 3) == Ok::<Option<u32>, ReadEntryError>(v.min_password_age));
    assert(opt_u32_field_at(f, 4) == Ok::<Option<u32>, ReadEntryError>(v.max_password_age));
    assert(opt_u32_field_at(f, 5) == Ok::<Option<u32>, ReadEntryError>(v.warn_period));
    assert(opt_u32_field_at(f, 6) == Ok::<Option<u32>, ReadEntryError>(v.inact_period));
    assert(opt_u32_field_at(f, 7) == Ok::<Option<u32>, ReadEntryError>(v.expire_date));
    assert(parse_shadow_line(l) == Ok::<ShadowEntryV, ReadEntryError>(v));
}

/// A shadow line with fewer than eight fields never parses into a record;
/// it is a structural failure, not a silently skipped line, and when its
/// present numeric fields are well-formed the error is exactly `Invalid`.
pub proof fn lemma_shadow_short_line(line: Seq<char>)
    requires
        split_spec(line, ':').len() < 8,
    ensures
        parse_shadow_line(line) is Err,
        ({
            let f = split_spec(line, ':');
            (forall|i: int|
                2 <= i < 8 && i < f.len() ==> (#[trigger] f[i]).len() == 0
                    || crate::util::is_u32_numeral(f[i])) ==> parse_shadow_line(line) == Err::<
                ShadowEntryV,
                ReadEntryError,
            >(ReadEntryError::Invalid)
        }),
{
}

impl Entry for ShadowEntry {
    open spec fn from_line_spec(line: Seq<char>) -> Result<ShadowEntryV, ReadEntryError> {
        parse_shadow_line(line)
    }

    open spec fn to_line_spec(&self) -> Seq<char> {
        shadow_line_of(self@)
    }

    fn from_line(line: &str) -> (r: Result<ShadowEntry, ReadEntryError>)
        ensures
            match r {
                Ok(e) => Self::from_line_spec(line@) == Ok::<ShadowEntryV, ReadEntryError>(e@),
                Err(err) => Self::from_line_spec(line@) == Err::<ShadowEntryV, ReadEntryError>(
                    err,
                ),
            },
    {
        let mut parser = EntLineParser::new(line);
        let name = match parser.next_field_string() {
            Ok(v) => v,
            Err(e) => return Err(e),
        };
        let passwd = match parser.next_field_string() {
            Ok(v) => v,
            Err(e) => return Err(e),
        };
        let last_change_date = match parser.next_field_u32_opt() {
            Ok(v) => v,
            Err(e) => return Err(e),
        };
        let min_password_age = match parser.next_field_u32_opt() {
            Ok(v) => v,
            Err(e) => return Err(e),
        };
        let max_password_age = match parser.next_field_u32_opt() {
            Ok(v) => v,
            Err(e) => return Err(e),
        };
        let warn_period = match parser.next_field_u32_opt() {
            Ok(v) => v,
            Err(e) => return Err(e),
        };
        let inact_period = match parser.next_field_u32_opt() {
            Ok(v) => v,
            Err(e) => return Err(e),
        };
        let expire_date = match parser.next_field_u32_opt() {
            Ok(v) => v,
            Err(e) => return Err(e),
        };
        Ok(
            ShadowEntry {
                name,
                passwd,
                last_change_date,
                min_password_age,
                max_password_age,
                warn_period,
                inact_period,
                expire_date,
            },
        )
    }

    fn to_line(&self) -> (r: String)
        ensures
            r@ == self.to_line_spec(),
    {
        let mut out = String::new();
        out.append(self.name.as_str());
        out.append(":");
        out.append(self.passwd.as_str());
        out.append(":");
        let s1 = to_string_or_empty(self.last_change_date);
        out.append(s1.as_str());
        out.append(":");
        let s2 = to_string_or_empty(self.min_password_age);
        out.append(s2.as_str());
        out.append(":");
        let s3 = to_string_or_empty(self.max_password_age);
        out.append(s3.as_str());
        out.append(":");
        let s4 = to_string_or_empty(self.warn_period);
        out.append(s4.as_str());
        out.append(":");
        let s5 = to_string_or_empty(self.inact_period);
        out.append(s5.as_str());
        out.append(":");
        let s6 = to_string_or_empty(self.expire_date);
        out.append(s6.as_str());
        out.append(":");
        proof {
            reveal_strlit(":");
            assert(":"@ =~= seq![':']);
            assert(out@ =~= shadow_line_of(self@));
        }
        out
    }
}

} // verus!
