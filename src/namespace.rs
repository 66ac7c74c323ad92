//! The naming scheme that keeps nomad's references and configuration apart from everything
//! else in a repository.
use vstd::prelude::*;

use crate::text::{all_free_of, free_of, join, lemma_split_join, split, split_on};
use crate::types::{Branch, Config, GitRef, NomadRef};

verus! {

/// The first segment of every reference name.
pub open spec fn refs_word() -> Seq<char> {
    "refs"@
}

/// The word that nomad claims for itself, in `refs/nomad/...` and in the `nomad.` section of
/// the configuration.
pub open spec fn prefix_word() -> Seq<char> {
    "nomad"@
}

/// `refs/nomad/{host}/{branch}`: a mirror as it stands in the local clone.
pub open spec fn local_ref_name(host: Seq<char>, branch: Seq<char>) -> Seq<char> {
    join(seq![refs_word(), prefix_word(), host, branch], '/')
}

/// `refs/nomad/{user}/{host}/{branch}`: a mirror as it stands on the remote.
pub open spec fn remote_ref_name(user: Seq<char>, host: Seq<char>, branch: Seq<char>) -> Seq<
    char,
> {
    join(seq![refs_word(), prefix_word(), user, host, branch], '/')
}

/// The `(host, branch)` that a local reference name encodes: four segments, the first two
/// `refs` and `nomad`.
pub open spec fn decode_local(name: Seq<char>) -> Option<(Seq<char>, Seq<char>)> {
    let parts = split(name, '/');
    if parts.len() == 4 && parts[0] == refs_word() && parts[1] == prefix_word() {
        Some((parts[2], parts[3]))
    } else {
        None
    }
}

/// The `(user, host, branch)` that a remote reference name encodes: five segments, the first
/// two `refs` and `nomad`.
pub open spec fn decode_remote(name: Seq<char>) -> Option<(Seq<char>, Seq<char>, Seq<char>)> {
    let parts = split(name, '/');
    if parts.len() == 5 && parts[0] == refs_word() && parts[1] == prefix_word() {
        Some((parts[2], parts[3], parts[4]))
    } else {
        None
    }
}

/// `nomad.{key}`.
pub open spec fn config_key_text(key: Seq<char>) -> Seq<char> {
    "nomad."@ + key
}

/// `refs/nomad/{user}/*`.
pub open spec fn list_refspec_text(user: Seq<char>) -> Seq<char> {
    "refs/nomad/"@ + user + "/*"@
}

/// `+refs/nomad/{user}/*:refs/nomad/*`.
pub open spec fn fetch_refspec_text(user: Seq<char>) -> Seq<char> {
    "+"@ + list_refspec_text(user) + ":refs/nomad/*"@
}

/// `+refs/heads/*:refs/nomad/{user}/{host}/*`.
pub open spec fn push_refspec_text(user: Seq<char>, host: Seq<char>) -> Seq<char> {
    "+refs/heads/*:refs/nomad/"@ + user + "/"@ + host + "/*"@
}

proof fn lemma_join4(a: Seq<char>, b: Seq<char>, c: Seq<char>, d: Seq<char>)
    ensures
        join(seq![a, b, c, d], '/') == a + seq!['/'] + b + seq!['/'] + c + seq!['/'] + d,
{
    assert(seq![a, b, c, d].drop_last() =~= seq![a, b, c]);
    assert(seq![a, b, c].drop_last() =~= seq![a, b]);
    assert(seq![a, b].drop_last() =~= seq![a]);
    assert(join(seq![a], '/') == a);
    assert(join(seq![a, b], '/') == a + seq!['/'] + b);
    assert(join(seq![a, b, c], '/') == a + seq!['/'] + b + seq!['/'] + c);
}

proof fn lemma_join5(a: Seq<char>, b: Seq<char>, c: Seq<char>, d: Seq<char>, e: Seq<char>)
    ensures
        join(seq![a, b, c, d, e], '/') == a + seq!['/'] + b + seq!['/'] + c + seq!['/'] + d + seq![
            '/',
        ] + e,
{
    assert(seq![a, b, c, d, e].drop_last() =~= seq![a, b, c, d]);
    lemma_join4(a, b, c, d);
}

proof fn lemma_fixed_words()
    ensures
        free_of(refs_word(), '/'),
        free_of(prefix_word(), '/'),
        refs_word() == seq!['r', 'e', 'f', 's'],
        prefix_word() == seq!['n', 'o', 'm', 'a', 'd'],
{
    reveal_strlit("refs");
    reveal_strlit("nomad");
    assert(refs_word() =~= seq!['r', 'e', 'f', 's']);
    assert(prefix_word() =~= seq!['n', 'o', 'm', 'a', 'd']);
}

/// Decoding the local name of a mirror gives back its host and branch, for every host and
/// branch free of `/`.
pub proof fn lemma_local_round_trip(host: Seq<char>, branch: Seq<char>)
    requires
        free_of(host, '/'),
        free_of(branch, '/'),
    ensures
        decode_local(local_ref_name(host, branch)) == Some((host, branch)),
{
    lemma_fixed_words();
    let parts = seq![refs_word(), prefix_word(), host, branch];
    assert(all_free_of(parts, '/'));
    lemma_split_join(parts, '/');
}

/// Decoding the remote name of a mirror gives back its user, host and branch, for every
/// triple free of `/`.
pub proof fn lemma_remote_round_trip(user: Seq<char>, host: Seq<char>, branch: Seq<char>)
    requires
        free_of(user, '/'),
        free_of(host, '/'),
        free_of(branch, '/'),
    ensures
        decode_remote(remote_ref_name(user, host, branch)) == Some((user, host, branch)),
{
    lemma_fixed_words();
    let parts = seq![refs_word(), prefix_word(), user, host, branch];
    assert(all_free_of(parts, '/'));
    lemma_split_join(parts, '/');
}

/// Where nomad keeps `key` in the repository's configuration.
pub fn config_key(key: &str) -> (r: String)
    ensures
        r@ == config_key_text(key@),
{
    let mut r = String::from_str("nomad.");
    r.append(key);
    r
}

/// The refspec that lists the user's mirrors on the remote.
pub fn list_refspec(config: &Config) -> (r: String)
    ensures
        r@ == list_refspec_text(config.user@),
{
    let mut r = String::from_str("refs/nomad/");
    r.append(config.user.as_str());
    r.append("/*");
    r
}

/// The refspec that fetches the user's remote mirrors into local mirrors, forcing updates and
/// dropping the user segment.
pub fn fetch_refspec(config: &Config) -> (r: String)
    ensures
        r@ == fetch_refspec_text(config.user@),
{
    let mut r = String::from_str("+");
    let list = list_refspec(config);
    r.append(list.as_str());
    r.append(":refs/nomad/*");
    r
}

/// The refspec that pushes every local branch to this host's mirrors, forcing updates.
pub fn push_refspec(config: &Config) -> (r: String)
    ensures
        r@ == push_refspec_text(config.user@, config.host@),
{
    let mut r = String::from_str("+refs/heads/*:refs/nomad/");
    r.append(config.user.as_str());
    r.append("/");
    r.append(config.host.as_str());
    r.append("/*");
    r
}

fn slash() -> (r: String)
    ensures
        r@ == seq!['/'],
{
    proof {
        reveal_strlit("/");
    }
    String::from_str("/")
}

impl<Ref> NomadRef<Ref> {
    /// The name of this mirror in the local clone, which leaves out the user.
    pub fn to_git_local_ref(&self) -> (r: String)
        ensures
            r@ == local_ref_name(self.host@, self.branch.0@),
    {
        proof {
            lemma_join4(refs_word(), prefix_word(), self.host@, self.branch.0@);
        }
        let mut r = String::from_str("refs");
        r.append(slash().as_str());
        r.append("nomad");
        r.append(slash().as_str());
        r.append(self.host.as_str());
        r.append(slash().as_str());
        r.append(self.branch.0.as_str());
        assert(r@ =~= join(seq![refs_word(), prefix_word(), self.host@, self.branch.0@], '/'));
        r
    }

    /// The name of this mirror on the remote, where the user segment keeps the mirrors of
    /// different users apart.
    pub fn to_git_remote_ref(&self) -> (r: String)
        ensures
            r@ == remote_ref_name(self.user@, self.host@, self.branch.0@),
    {
        proof {
            lemma_join5(refs_word(), prefix_word(), self.user@, self.host@, self.branch.0@);
        }
        let mut r = String::from_str("refs");
        r.append(slash().as_str());
        r.append("nomad");
        r.append(slash().as_str());
        r.append(self.user.as_str());
        r.append(slash().as_str());
        r.append(self.host.as_str());
        r.append(slash().as_str());
        r.append(self.branch.0.as_str());
        assert(r@ =~= join(
            seq![refs_word(), prefix_word(), self.user@, self.host@, self.branch.0@],
            '/',
        ));
        r
    }
}

impl NomadRef<GitRef> {
    /// Reads a local reference as a mirror of `config`'s user, or hands it back untouched
    /// where its name is no local mirror name.
    pub fn from_git_local_ref(config: &Config, git_ref: GitRef) -> (r: Result<Self, GitRef>)
        ensures
            match decode_local(git_ref.name@) {
                Some((host, branch)) => r is Ok && r->Ok_0.user@ == config.user@
                    && r->Ok_0.host@ == host && r->Ok_0.branch.0@ == branch
                    && r->Ok_0.ref_ == git_ref,
                None => r == Err::<Self, GitRef>(git_ref),
            },
    {
        let parts = split_on(git_ref.name.as_str(), '/');
        let ghost views = parts@.map_values(|p: String| p@);
        assert(views.len() == parts@.len());
        if parts.len() != 4 {
            return Err(git_ref);
        }
        let refs = String::from_str("refs");
        let prefix = String::from_str("nomad");
        if !(parts[0] == refs) || !(parts[1] == prefix) {
            assert(views[0] == parts@[0]@ && views[1] == parts@[1]@);
            return Err(git_ref);
        }
        assert(views[2] == parts@[2]@ && views[3] == parts@[3]@);
        let host = parts[2].clone();
        let branch = Branch(parts[3].clone());
        Ok(NomadRef { user: config.user.clone(), host, branch, ref_: git_ref })
    }

    /// Reads a remote reference as a mirror, user included, or hands it back untouched where
    /// its name is no remote mirror name.
    pub fn from_git_remote_ref(git_ref: GitRef) -> (r: Result<Self, GitRef>)
        ensures
            match decode_remote(git_ref.name@) {
                Some((user, host, branch)) => r is Ok && r->Ok_0.user@ == user && r->Ok_0.host@
                    == host && r->Ok_0.branch.0@ == branch && r->Ok_0.ref_ == git_ref,
                None => r == Err::<Self, GitRef>(git_ref),
            },
    {
        let parts = split_on(git_ref.name.as_str(), '/');
        let ghost views = parts@.map_values(|p: String| p@);
        assert(views.len() == parts@.len());
        if parts.len() != 5 {
            return Err(git_ref);
        }
        let refs = String::from_str("refs");
        let prefix = String::from_str("nomad");
        if !(parts[0] == refs) || !(parts[1] == prefix) {
            assert(views[0] == parts@[0]@ && views[1] == parts@[1]@);
            return Err(git_ref);
        }
        assert(views[2] == parts@[2]@ && views[3] == parts@[3]@ && views[4] == parts@[4]@);
        let user = parts[2].clone();
        let host = parts[3].clone();
        let branch = Branch(parts[4].clone());
        Ok(NomadRef { user, host, branch, ref_: git_ref })
    }
}

} // verus!
