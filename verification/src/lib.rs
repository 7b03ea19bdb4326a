//! Verified core of a privileged container-entrypoint helper.
//!
//! The crate provides the format-exact reader/writer machinery for the three
//! POSIX colon-delimited account databases (passwd, group, shadow), the
//! idempotent identity-provisioning decisions built on them, and the ordered
//! privilege-transition state machine that consumes those decisions.  All
//! file, environment and process work is left to a thin unverified shell
//! around this library; the functions here are pure and fully specified.

pub mod config;
pub mod entfiles;
pub mod groups;
pub mod passwd;
pub mod provision;
pub mod shadow;
pub mod transition;
pub mod util;
