//! Configuration: the snapshot of recognized environment variables taken
//! once at startup by the surrounding shell, and its validated form.  The
//! identity variables obey an all-or-nothing rule: either the whole
//! (uid, gid, user, group) tuple is supplied or none of it.

use vstd::prelude::*;

use crate::provision::UserInfo;
use crate::provision::home_dir_spec;
use crate::util::dec_val;
use crate::util::is_u32_numeral;
use crate::util::parse_u32_str;

verus! {

/// The raw text of every recognized variable, exactly as the surrounding
/// shell popped it from the environment; `None` where a variable was not
/// set.
#[derive(Debug)]
pub struct RawConfig {
    pub uid: Option<String>,
    pub gid: Option<String>,
    pub umask: Option<String>,
    pub user: Option<String>,
    pub group: Option<String>,
    pub user_hook: Option<String>,
    pub root_hook: Option<String>,
}

/// A configuration error: the variables do not describe one coherent
/// invocation.
#[derive(Debug, PartialEq, Eq)]
pub enum ConfigError {
    /// A numeric variable was set to something that is not a 32-bit
    /// decimal numeral.
    BadNumeral,
    /// Some of the identity variables were set but not all of them.
    PartialIdentity,
}

/// The validated configuration of one invocation.
#[derive(Debug)]
pub struct Context {
    pub user_info: Option<UserInfo>,
    pub umask: Option<u32>,
    pub user_hook: Option<String>,
    pub root_hook: Option<String>,
}

impl Context {
    /// Whether this invocation switches identity at all.
    pub fn should_change_user(&self) -> (r: bool)
        ensures
            r == (self.user_info is Some),
    {
        self.user_info.is_some()
    }

    /// The home directory of the requested identity.
    pub fn home_dir(&self) -> (r: String)
        requires
            self.user_info is Some,
        ensures
            r@ == home_dir_spec(self.user_info->0.user@),
    {
        match &self.user_info {
            Some(info) => info.home_dir(),
            None => String::new(),
        }
    }

    /// The hook program to run in root context, before privileges drop,
    /// if one is configured.  The caller launches it and reports its exit
    /// status back to the transition sequence.
    pub fn call_root_hook(&self) -> (r: Option<&String>)
        ensures
            match r {
                Some(p) => self.root_hook matches Some(q) && p@ == q@,
                None => self.root_hook is None,
            },
    {
        self.root_hook.as_ref()
    }

    /// The hook program to run in user context, after privileges drop, if
    /// one is configured.  It is only ever run when an identity switch
    /// actually occurred.
    pub fn call_user_hook(&self) -> (r: Option<&String>)
        ensures
            match r {
                Some(p) => self.user_hook matches Some(q) && p@ == q@,
                None => self.user_hook is None,
            },
    {
        self.user_hook.as_ref()
    }
}

/// What parsing an optional numeric variable must yield.
pub open spec fn opt_numeral_spec(raw: Option<String>) -> Result<Option<u32>, ConfigError> {
    match raw {
        None => Ok(None),
        Some(s) => if is_u32_numeral(s@) {
            Ok(Some(dec_val(s@) as u32))
        } else {
            Err(ConfigError::BadNumeral)
        },
    }
}

/// Parses an optional numeric variable: unset stays absent, set must be a
/// 32-bit decimal numeral.
pub fn pop_env_uint(raw: Option<String>) -> (r: Result<Option<u32>, ConfigError>)
    ensures
        r == opt_numeral_spec(raw),
{
    match raw {
        None => Ok(None),
        Some(s) => match parse_u32_str(s.as_str()) {
            Some(v) => Ok(Some(v)),
            None => Err(ConfigError::BadNumeral),
        },
    }
}

/// Validates the identity tuple: all four variables present yields an
/// identity, none yields no identity switch, and any other mix is a
/// configuration error.
pub fn process_envvars_user_info(
    uid: Option<u32>,
    gid: Option<u32>,
    user: Option<String>,
    group: Option<String>,
) -> (r: Result<Option<UserInfo>, ConfigError>)
    ensures
        match r {
            Ok(Some(info)) => uid == Some(info.uid) && gid == Some(info.gid) && (user matches Some(
                u,
            ) && u@ == info.user@) && (group matches Some(g) && g@ == info.group@),
            Ok(None) => uid is None && gid is None && user is None && group is None,
            Err(e) => e == ConfigError::PartialIdentity && !(uid is Some && gid is Some
                && user is Some && group is Some) && !(uid is None && gid is None && user is None
                && group is None),
        },
{
    match (uid, gid, user, group) {
        (Some(uid), Some(gid), Some(user), Some(group)) => Ok(
            Some(UserInfo { uid, gid, user, group }),
        ),
        (None, None, None, None) => Ok(None),
        _ => Err(ConfigError::PartialIdentity),
    }
}

/// Validates one raw snapshot into the configuration of an invocation:
/// numeric variables are parsed, the identity tuple is checked for the
/// all-or-nothing rule, and the hook paths pass through unchanged.
pub fn process_envvars(raw: RawConfig) -> (r: Result<Context, ConfigError>)
    ensures
        match r {
            Ok(ctx) => {
                &&& opt_numeral_spec(raw.umask) == Ok::<Option<u32>, ConfigError>(ctx.umask)
                &&& match ctx.user_info {
                    Some(info) => opt_numeral_spec(raw.uid) == Ok::<Option<u32>, ConfigError>(
                        Some(info.uid),
                    ) && opt_numeral_spec(raw.gid) == Ok::<Option<u32>, ConfigError>(
                        Some(info.gid),
                    ) && (raw.user matches Some(u) && u@ == info.user@) && (raw.group matches Some(
                        g,
                    ) && g@ == info.group@),
                    None => opt_numeral_spec(raw.uid) == Ok::<Option<u32>, ConfigError>(None)
                        && opt_numeral_spec(raw.gid) == Ok::<Option<u32>, ConfigError>(None)
                        && raw.user is None && raw.group is None,
                }
                &&& ctx.user_hook == raw.user_hook
                &&& ctx.root_hook == raw.root_hook
            },
            Err(e) => {
                let numeral_bad = opt_numeral_spec(raw.uid) is Err || opt_numeral_spec(
                    raw.gid,
                ) is Err || opt_numeral_spec(raw.umask) is Err;
                if numeral_bad {
                    e == ConfigError::BadNumeral
                } else {
                    e == ConfigError::PartialIdentity && !(raw.uid is Some && raw.gid is Some
                        && raw.user is Some && raw.group is Some) && !(raw.uid is None
                        && raw.gid is None && raw.user is None && raw.group is None)
                }
            },
        },
{
    let RawConfig { uid, gid, umask, user, group, user_hook, root_hook } = raw;
    let uid = match pop_env_uint(uid) {
        Ok(v) => v,
        Err(e) => return Err(e),
    };
    let gid = match pop_env_uint(gid) {
        Ok(v) => v,
        Err(e) => return Err(e),
    };
    let umask = match pop_env_uint(umask) {
        Ok(v) => v,
        Err(e) => return Err(e),
    };
    let user_info = match process_envvars_user_info(uid, gid, user, group) {
        Ok(v) => v,
        Err(e) => return Err(e),
    };
    Ok(Context { user_info, umask, user_hook, root_hook })
}

} // verus!
