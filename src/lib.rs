//! Keeps a developer's local branches mirrored across several workstations through a shared
//! remote, in a private `refs/nomad/...` namespace of references.
pub mod backend;
pub mod command;
pub mod git_binary;
pub mod git_ref;
pub mod namespace;
pub mod snapshot;
pub mod text;
pub mod types;

pub use backend::Backend;
pub use git_binary::{git_command, BackendCall, GitError, GitInvocation, LineArity};
pub use namespace::{config_key, fetch_refspec, list_refspec, push_refspec};
pub use snapshot::{PruneFrom, RemoteNomadRefSet, Snapshot};
pub use types::{Branch, Config, GitRef, NomadRef, Remote};
