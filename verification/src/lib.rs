//! Verified core of a workflow that submits package-manifest changes as pull
//! requests.
//!
//! Two independent pieces live here. The guard looks at a pull request that
//! already exists for a package version and decides whether the user has to be
//! asked before going on. The writer turns a batch of generated files into a
//! list of flat file names and schedules their writes, never more than
//! [`MAX_IN_FLIGHT`] at a time.
//!
//! Nothing in this crate touches the console, the environment or the file
//! system. Every function computes on plain values; the caller shows the text,
//! asks the question and performs the writes that the library hands out, and
//! reports back what happened.

pub mod error;
pub mod guard;
pub mod path;
pub mod plan;
pub mod writer;

pub use error::Error;
pub use guard::prompt_existing_pull_request;
pub use writer::{write_changes_to_dir, MAX_IN_FLIGHT};
