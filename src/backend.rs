//! The capabilities that the command-line shell needs from a repository.
use vstd::prelude::*;

use crate::git_binary::GitError;
use crate::types::{Config, Remote};

verus! {

/// A repository that can store nomad's identity and fetch the user's mirrors.
pub trait Backend {
    /// The stored identity: both halves, or `None` where neither is stored.
    fn read_config(&self) -> Result<Option<Config>, GitError>;

    /// Stores `config`, replacing any earlier identity.
    fn write_config(&self, config: &Config) -> Result<(), GitError>;

    /// Fetches the mirrors of `config`'s user from `remote`.
    fn fetch_remote_refs(&self, config: &Config, remote: &Remote) -> Result<(), GitError>;
}

} // verus!
