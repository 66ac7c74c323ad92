//! The identities and references that the rest of the library speaks of.
use vstd::prelude::*;

verus! {

/// The identity of this clone: whose mirrors it manages, and which workstation it is.
#[derive(Debug, Clone, PartialEq, Eq)]
pub struct Config {
    pub user: String,
    pub host: String,
}

/// The symbolic name of the network peer, such as `origin`.
#[derive(Debug, Clone, PartialEq, Eq)]
pub struct Remote(pub String);

/// The name of a local branch, as it stands under `refs/heads/`.
#[derive(Debug, Clone, PartialEq, Eq, Hash)]
pub struct Branch(pub String);

impl Branch {
    pub fn str(name: &str) -> (r: Branch)
        ensures
            r.0@ == name@,
    {
        Branch(String::from_str(name))
    }
}

/// A reference as a listing reports it: its full name and the commit it points at.
#[derive(Debug, Clone, PartialEq, Eq, Hash)]
pub struct GitRef {
    pub commit_id: String,
    pub name: String,
}

/// A mirror of `branch` as it stands on `host`, owned by `user`, together with the reference
/// (`ref_`) that holds it.
#[derive(Debug, Clone, PartialEq, Eq, Hash)]
pub struct NomadRef<Ref> {
    pub user: String,
    pub host: String,
    pub branch: Branch,
    pub ref_: Ref,
}

impl<Ref> NomadRef<Ref> {
    /// The `(user, host, branch)` triple that names this mirror.
    pub open spec fn triple(&self) -> (Seq<char>, Seq<char>, Seq<char>) {
        (self.user@, self.host@, self.branch.0@)
    }
}

} // verus!
