//! What nomad asks of the version-control binary: the invocations it runs, in a hermetic
//! environment, and the decisions it takes on what they print.
use vstd::prelude::*;

use crate::git_ref::lines;
use crate::namespace::{
    config_key, config_key_text, decode_local, decode_remote, fetch_refspec, fetch_refspec_text,
    list_refspec, list_refspec_text, push_refspec, push_refspec_text, remote_ref_name,
};
use crate::snapshot::{prune_target, PruneFrom, RemoteNomadRefSet, Snapshot};
use crate::types::{Branch, Config, GitRef, NomadRef, Remote};

verus! {

/// How many lines a command printed.
#[derive(Debug, Clone, PartialEq, Eq)]
pub enum LineArity {
    /// No line, or a single empty one.
    Zero(),
    /// Exactly one line, which is not empty.
    One(String),
    /// Two or more lines; the whole output.
    Many(String),
}

/// What went wrong while talking to the version-control binary.
#[derive(Debug, Clone, PartialEq, Eq)]
pub enum GitError {
    /// The command exited unsuccessfully, with what it wrote to its error stream.
    CommandFailed { description: String, stderr: String },
    /// A listing line did not read as a reference.
    Parse { line: String },
    /// A command expected to print one line printed another number of lines.
    ExpectedOneLine { got: LineArity },
    /// A command expected to print at most one line printed several.
    ExpectedAtMostOneLine { output: String },
    /// Only one of `nomad.user` and `nomad.host` is set.
    PartialConfig { user: Option<String>, host: Option<String> },
}

impl LineArity {
    /// Counts the lines of a command's output; an output whose only line is empty counts as
    /// none.
    pub fn of(string: String) -> (r: LineArity)
        ensures
            ({
                let ls = lines(string@);
                if ls.len() == 0 || (ls.len() == 1 && ls[0].len() == 0) {
                    r is Zero
                } else if ls.len() == 1 {
                    r is One && r->One_0@ == ls[0]
                } else {
                    r is Many && r->Many_0@ == string@
                }
            }),
    {
        let mut all = crate::git_ref::lines_of(string.as_str());
        let ghost lv = all@.map_values(|l: String| l@);
        assert(lv.len() == all@.len());
        if all.len() == 0 {
            LineArity::Zero()
        } else if all.len() == 1 {
            assert(lv[0] == all@[0]@);
            let last = all.pop().unwrap();
            if last.as_str().unicode_len() == 0 {
                LineArity::Zero()
            } else {
                LineArity::One(last)
            }
        } else {
            LineArity::Many(string)
        }
    }

    /// The one line, where there is exactly one.
    pub fn one(self) -> (r: Result<String, GitError>)
        ensures
            match self {
                LineArity::One(line) => r == Ok::<String, GitError>(line),
                _ => r == Err::<String, GitError>(GitError::ExpectedOneLine { got: self }),
            },
    {
        match self {
            LineArity::One(line) => Ok(line),
            other => Err(GitError::ExpectedOneLine { got: other }),
        }
    }

    /// The line, if any, where there is at most one.
    pub fn zero_or_one(self) -> (r: Result<Option<String>, GitError>)
        ensures
            match self {
                LineArity::Zero() => r == Ok::<Option<String>, GitError>(None),
                LineArity::One(line) => r == Ok::<Option<String>, GitError>(Some(line)),
                LineArity::Many(output) => r == Err::<Option<String>, GitError>(
                    GitError::ExpectedAtMostOneLine { output },
                ),
            },
    {
        match self {
            LineArity::Zero() => Ok(None),
            LineArity::One(line) => Ok(Some(line)),
            LineArity::Many(output) => Err(GitError::ExpectedAtMostOneLine { output }),
        }
    }
}

/// The text that stands for a configuration value: the value, or `(unset)`.
pub open spec fn shown_value(v: Option<String>) -> Seq<char> {
    match v {
        Some(s) => s@,
        None => "(unset)"@,
    }
}

fn show_value(v: &Option<String>) -> (r: String)
    ensures
        r@ == shown_value(*v),
{
    match v {
        Some(s) => s.clone(),
        None => String::from_str("(unset)"),
    }
}

/// The text of a partial-configuration error, which names both keys.
pub open spec fn partial_config_text(user: Option<String>, host: Option<String>) -> Seq<char> {
    "Partial configuration: nomad.user = "@ + shown_value(user) + ", nomad.host = "@
        + shown_value(host)
}

impl GitError {
    /// A one-line description of the error.
    pub fn message(&self) -> (r: String)
        ensures
            match self {
                GitError::CommandFailed { description, stderr } => r@ == description@ + ": "@
                    + stderr@,
                GitError::Parse { line } => r@ == "Unexpected listing line: "@ + line@,
                GitError::ExpectedOneLine { got } => match got {
                    LineArity::Zero() => r@ == "Expected one line, got none"@,
                    LineArity::One(line) => r@ == "Expected one line, got: "@ + line@,
                    LineArity::Many(output) => r@ == "Expected one line, got: "@ + output@,
                },
                GitError::ExpectedAtMostOneLine { output } => r@ == "Expected 0 or 1 line, got: "@
                    + output@,
                GitError::PartialConfig { user, host } => r@ == partial_config_text(*user, *host),
            },
    {
        match self {
            GitError::CommandFailed { description, stderr } => {
                let mut r = description.clone();
                r.append(": ");
                r.append(stderr.as_str());
                r
            },
            GitError::Parse { line } => {
                let mut r = String::from_str("Unexpected listing line: ");
                r.append(line.as_str());
                r
            },
            GitError::ExpectedOneLine { got } => match got {
                LineArity::Zero() => String::from_str("Expected one line, got none"),
                LineArity::One(text) | LineArity::Many(text) => {
                    let mut r = String::from_str("Expected one line, got: ");
                    r.append(text.as_str());
                    r
                },
            },
            GitError::ExpectedAtMostOneLine { output } => {
                let mut r = String::from_str("Expected 0 or 1 line, got: ");
                r.append(output.as_str());
                r
            },
            GitError::PartialConfig { user, host } => {
                let mut r = String::from_str("Partial configuration: nomad.user = ");
                let u = show_value(user);
                r.append(u.as_str());
                r.append(", nomad.host = ");
                let h = show_value(host);
                r.append(h.as_str());
                r
            },
        }
    }
}

/// The identity that the stored values of `nomad.user` and `nomad.host` make: both or neither
/// must be set.
pub fn config_from_values(user: Option<String>, host: Option<String>) -> (r: Result<
    Option<Config>,
    GitError,
>)
    ensures
        match (user, host) {
            (Some(u), Some(h)) => r == Ok::<Option<Config>, GitError>(
                Some(Config { user: u, host: h }),
            ),
            (None, None) => r == Ok::<Option<Config>, GitError>(None),
            _ => r == Err::<Option<Config>, GitError>(GitError::PartialConfig { user, host }),
        },
{
    match (user, host) {
        (Some(user), Some(host)) => Ok(Some(Config { user, host })),
        (None, None) => Ok(None),
        (user, host) => Err(GitError::PartialConfig { user, host }),
    }
}

/// A child process to run: the program, the environment variables it gets on top of the
/// inherited ones, and its arguments.
#[derive(Debug, Clone, PartialEq, Eq)]
pub struct GitInvocation {
    pub program: String,
    pub env: Vec<(String, String)>,
    pub args: Vec<String>,
}

/// The views of some strings.
pub open spec fn strings(v: Seq<String>) -> Seq<Seq<char>> {
    v.map_values(|s: String| s@)
}

/// The views of some environment variables.
pub open spec fn env_view(env: Seq<(String, String)>) -> Seq<(Seq<char>, Seq<char>)> {
    env.map_values(|p: (String, String)| (p.0@, p.1@))
}

/// The environment of every child: no system or global configuration, no home or XDG
/// configuration directory, and a fixed author and committer identity and date.
pub open spec fn hermetic_env() -> Seq<(Seq<char>, Seq<char>)> {
    seq![
        ("GIT_CONFIG_NOSYSTEM"@, "1"@),
        ("GIT_CONFIG_NOGLOBAL"@, "1"@),
        ("HOME"@, ""@),
        ("XDG_CONFIG_HOME"@, ""@),
        ("GIT_AUTHOR_NAME"@, "git-nomad"@),
        ("GIT_AUTHOR_EMAIL"@, "git-nomad@invalid"@),
        ("GIT_AUTHOR_DATE"@, "1970-01-01T00:00:00"@),
        ("GIT_COMMITTER_NAME"@, "git-nomad"@),
        ("GIT_COMMITTER_EMAIL"@, "git-nomad@invalid"@),
        ("GIT_COMMITTER_DATE"@, "1970-01-01T00:00:00"@),
    ]
}

fn push_env(env: &mut Vec<(String, String)>, key: &str, value: &str)
    ensures
        env_view(final(env)@) == env_view(old(env)@).push((key@, value@)),
{
    let ghost before = env_view(env@);
    env.push((String::from_str(key), String::from_str(value)));
    assert(env_view(env@) =~= before.push((key@, value@)));
}

fn push_arg(args: &mut Vec<String>, arg: &str)
    ensures
        strings(final(args)@) == strings(old(args)@).push(arg@),
{
    let ghost before = strings(args@);
    args.push(String::from_str(arg));
    assert(strings(args@) =~= before.push(arg@));
}

fn push_args(args: &mut Vec<String>, more: &Vec<String>)
    ensures
        strings(final(args)@) == strings(old(args)@) + strings(more@),
{
    let ghost start = strings(args@);
    let mut i: usize = 0;
    while i < more.len()
        invariant
            i <= more@.len(),
            strings(args@) == start + strings(more@).subrange(0, i as int),
        decreases more@.len() - i,
    {
        let ghost before = strings(args@);
        args.push(more[i].clone());
        assert(strings(args@) =~= before.push(more@[i as int]@));
        assert(strings(more@).subrange(0, i + 1) =~= strings(more@).subrange(0, i as int).push(
            more@[i as int]@,
        ));
        i = i + 1;
    }
    assert(strings(more@).subrange(0, i as int) =~= strings(more@));
}

/// Runs the binary `name` without impurities from the environment slipping in.
pub fn git_command(name: &str) -> (r: GitInvocation)
    ensures
        r.program@ == name@,
        env_view(r.env@) == hermetic_env(),
        r.args@.len() == 0,
{
    let mut env: Vec<(String, String)> = Vec::new();
    let author_name = "git-nomad";
    let author_email = "git-nomad@invalid";
    let author_date = "1970-01-01T00:00:00";
    push_env(&mut env, "GIT_CONFIG_NOSYSTEM", "1");
    push_env(&mut env, "GIT_CONFIG_NOGLOBAL", "1");
    push_env(&mut env, "HOME", "");
    push_env(&mut env, "XDG_CONFIG_HOME", "");
    push_env(&mut env, "GIT_AUTHOR_NAME", author_name);
    push_env(&mut env, "GIT_AUTHOR_EMAIL", author_email);
    push_env(&mut env, "GIT_AUTHOR_DATE", author_date);
    push_env(&mut env, "GIT_COMMITTER_NAME", author_name);
    push_env(&mut env, "GIT_COMMITTER_EMAIL", author_email);
    push_env(&mut env, "GIT_COMMITTER_DATE", author_date);
    assert(env_view(env@) =~= hermetic_env());
    GitInvocation { program: String::from_str(name), env, args: Vec::new() }
}

/// One operation on the repository or the remote.
#[derive(Debug, Clone, PartialEq, Eq)]
pub enum BackendCall {
    /// Find the absolute path of the repository's storage directory from the working
    /// directory.
    ResolveGitDir,
    /// Read one value of the repository's own configuration.
    GetConfig { key: String },
    /// Replace one value of the repository's own configuration.
    SetConfig { key: String, value: String },
    /// List every local reference but `HEAD`.
    ListRefs,
    /// Fetch `refspecs` from `remote`.
    Fetch { remote: String, refspecs: Vec<String> },
    /// Push `refspecs` to `remote`, bypassing client-side hooks.
    Push { remote: String, refspecs: Vec<String> },
    /// List the references of `remote` that match `refspecs`.
    ListRemote { remote: String, refspecs: Vec<String> },
    /// Delete a local reference, provided it still points at the listed commit.
    DeleteRef { git_ref: GitRef },
}

impl BackendCall {
    /// No fetch, push or remote listing goes out without a refspec: an empty list would fall
    /// back on the user's own defaults.
    pub open spec fn wf(&self) -> bool {
        match self {
            BackendCall::Fetch { refspecs, .. } => refspecs@.len() > 0,
            BackendCall::Push { refspecs, .. } => refspecs@.len() > 0,
            BackendCall::ListRemote { refspecs, .. } => refspecs@.len() > 0,
            _ => true,
        }
    }
}

/// The arguments that carry out `call` in the repository whose storage directory is
/// `git_dir`.
pub open spec fn call_args(git_dir: Seq<char>, call: BackendCall) -> Seq<Seq<char>> {
    let dir = seq!["--git-dir"@, git_dir];
    match call {
        BackendCall::ResolveGitDir => seq!["rev-parse"@, "--absolute-git-dir"@],
        BackendCall::GetConfig { key } => dir + seq![
            "config"@,
            "--local"@,
            "--default"@,
            ""@,
            "--get"@,
            key@,
        ],
        BackendCall::SetConfig { key, value } => dir + seq![
            "config"@,
            "--local"@,
            "--replace-all"@,
            key@,
            value@,
        ],
        BackendCall::ListRefs => dir + seq!["show-ref"@],
        BackendCall::Fetch { remote, refspecs } => dir + seq!["fetch"@, remote@] + strings(
            refspecs@,
        ),
        BackendCall::Push { remote, refspecs } => dir + seq!["push"@, "--no-verify"@, remote@]
            + strings(refspecs@),
        BackendCall::ListRemote { remote, refspecs } => dir + seq!["ls-remote"@, remote@]
            + strings(refspecs@),
        BackendCall::DeleteRef { git_ref } => dir + seq![
            "update-ref"@,
            "-d"@,
            git_ref.name@,
            git_ref.commit_id@,
        ],
    }
}

/// The child process that carries out `call` with the binary `name`. Every call but
/// resolving the storage directory names that directory, so that the working directory does
/// not matter.
pub fn invocation(name: &str, git_dir: &str, call: &BackendCall) -> (r: GitInvocation)
    requires
        call.wf(),
    ensures
        r.program@ == name@,
        env_view(r.env@) == hermetic_env(),
        strings(r.args@) == call_args(git_dir@, *call),
{
    let mut command = git_command(name);
    let mut args: Vec<String> = Vec::new();
    assert(strings(args@) =~= Seq::<Seq<char>>::empty());
    match call {
        BackendCall::ResolveGitDir => {
            push_arg(&mut args, "rev-parse");
            push_arg(&mut args, "--absolute-git-dir");
        },
        _ => {
            push_arg(&mut args, "--git-dir");
            push_arg(&mut args, git_dir);
            match call {
                BackendCall::GetConfig { key } => {
                    push_arg(&mut args, "config");
                    push_arg(&mut args, "--local");
                    push_arg(&mut args, "--default");
                    push_arg(&mut args, "");
                    push_arg(&mut args, "--get");
                    push_arg(&mut args, key.as_str());
                },
                BackendCall::SetConfig { key, value } => {
                    push_arg(&mut args, "config");
                    push_arg(&mut args, "--local");
                    push_arg(&mut args, "--replace-all");
                    push_arg(&mut args, key.as_str());
                    push_arg(&mut args, value.as_str());
                },
                BackendCall::ListRefs => {
                    push_arg(&mut args, "show-ref");
                },
                BackendCall::Fetch { remote, refspecs } => {
                    push_arg(&mut args, "fetch");
                    push_arg(&mut args, remote.as_str());
                    push_args(&mut args, refspecs);
                },
                BackendCall::Push { remote, refspecs } => {
                    push_arg(&mut args, "push");
                    push_arg(&mut args, "--no-verify");
                    push_arg(&mut args, remote.as_str());
                    push_args(&mut args, refspecs);
                },
                BackendCall::ListRemote { remote, refspecs } => {
                    push_arg(&mut args, "ls-remote");
                    push_arg(&mut args, remote.as_str());
                    push_args(&mut args, refspecs);
                },
                BackendCall::DeleteRef { git_ref } => {
                    push_arg(&mut args, "update-ref");
                    push_arg(&mut args, "-d");
                    push_arg(&mut args, git_ref.name.as_str());
                    push_arg(&mut args, git_ref.commit_id.as_str());
                },
                BackendCall::ResolveGitDir => {},
            }
        },
    }
    assert(strings(args@) =~= call_args(git_dir@, *call));
    command.args = args;
    command
}

fn single(s: String) -> (r: Vec<String>)
    ensures
        strings(r@) == seq![s@],
{
    let mut r: Vec<String> = Vec::new();
    r.push(s);
    assert(strings(r@) =~= seq![s@]);
    r
}

/// The calls that read the stored identity: `nomad.user`, then `nomad.host`.
pub fn read_config_calls() -> (r: Vec<BackendCall>)
    ensures
        r@.len() == 2,
        r@[0] is GetConfig && r@[0]->GetConfig_key@ == config_key_text("user"@),
        r@[1] is GetConfig && r@[1]->GetConfig_key@ == config_key_text("host"@),
{
    let mut r: Vec<BackendCall> = Vec::new();
    r.push(BackendCall::GetConfig { key: config_key("user") });
    r.push(BackendCall::GetConfig { key: config_key("host") });
    r
}

/// The calls that store `config`, replacing what was there.
pub fn write_config_calls(config: &Config) -> (r: Vec<BackendCall>)
    ensures
        r@.len() == 2,
        r@[0] is SetConfig && r@[0]->SetConfig_key@ == config_key_text("user"@)
            && r@[0]->SetConfig_value@ == config.user@,
        r@[1] is SetConfig && r@[1]->SetConfig_key@ == config_key_text("host"@)
            && r@[1]->SetConfig_value@ == config.host@,
{
    let mut r: Vec<BackendCall> = Vec::new();
    r.push(BackendCall::SetConfig { key: config_key("user"), value: config.user.clone() });
    r.push(BackendCall::SetConfig { key: config_key("host"), value: config.host.clone() });
    r
}

/// The push of every local branch to this host's mirrors on `remote`.
pub fn push_nomad_refs_call(config: &Config, remote: &Remote) -> (r: BackendCall)
    ensures
        r.wf(),
        r is Push && r->Push_remote@ == remote.0@ && strings(r->Push_refspecs@) == seq![
            push_refspec_text(config.user@, config.host@),
        ],
{
    BackendCall::Push { remote: remote.0.clone(), refspecs: single(push_refspec(config)) }
}

/// The fetch of the user's remote mirrors into local mirrors.
pub fn fetch_nomad_refs_call(config: &Config, remote: &Remote) -> (r: BackendCall)
    ensures
        r.wf(),
        r is Fetch && r->Fetch_remote@ == remote.0@ && strings(r->Fetch_refspecs@) == seq![
            fetch_refspec_text(config.user@),
        ],
{
    BackendCall::Fetch { remote: remote.0.clone(), refspecs: single(fetch_refspec(config)) }
}

/// The listing of the user's mirrors that `remote` holds.
pub fn list_nomad_refs_call(config: &Config, remote: &Remote) -> (r: BackendCall)
    ensures
        r.wf(),
        r is ListRemote && r->ListRemote_remote@ == remote.0@ && strings(r->ListRemote_refspecs@)
            == seq![list_refspec_text(config.user@)],
{
    BackendCall::ListRemote { remote: remote.0.clone(), refspecs: single(list_refspec(config)) }
}

/// The triples of the mirrors among the references of a remote listing.
pub open spec fn remote_triples(listing: Seq<GitRef>) -> Set<(Seq<char>, Seq<char>, Seq<char>)>
    decreases listing.len(),
{
    if listing.len() == 0 {
        Set::empty()
    } else {
        let prev = remote_triples(listing.drop_last());
        match decode_remote(listing.last().name@) {
            Some(t) => prev.insert(t),
            None => prev,
        }
    }
}

/// The mirrors that a remote listing shows; other references are passed over.
pub fn remote_nomad_refs(listing: Vec<GitRef>) -> (r: RemoteNomadRefSet)
    ensures
        r@ == remote_triples(listing@),
{
    let ghost all = listing@;
    let mut rest = listing;
    let mut set = RemoteNomadRefSet::new();
    let n: usize = rest.len();
    let mut k: usize = 0;
    assert(all.subrange(0, 0) =~= Seq::<GitRef>::empty());
    assert(rest@ =~= all.subrange(0, all.len() as int));
    while rest.len() > 0
        invariant
            k + rest@.len() == all.len(),
            all.len() == n,
            rest@ == all.subrange(k as int, all.len() as int),
            set@ == remote_triples(all.subrange(0, k as int)),
        decreases rest@.len(),
    {
        let git_ref = rest.remove(0);
        let ghost done = all.subrange(0, k + 1);
        assert(done.drop_last() =~= all.subrange(0, k as int));
        assert(done.last() == git_ref);
        assert(rest@ =~= all.subrange(k + 1, all.len() as int));
        match NomadRef::<GitRef>::from_git_remote_ref(git_ref) {
            Ok(m) => {
                set.insert(m.user, m.host, m.branch.0);
            },
            Err(_) => {},
        }
        k = k + 1;
    }
    assert(all.subrange(0, k as int) =~= all);
    set
}

/// The branch that a reference name stands for, where it lies under `refs/heads/`.
pub open spec fn head_branch(name: Seq<char>) -> Option<Seq<char>> {
    if "refs/heads/"@.is_prefix_of(name) {
        Some(name.skip("refs/heads/"@.len() as int))
    } else {
        None
    }
}

fn strip_heads(name: &str) -> (r: Option<String>)
    ensures
        match head_branch(name@) {
            Some(b) => r is Some && r->Some_0@ == b,
            None => r is None,
        },
{
    let prefix = "refs/heads/";
    let plen = prefix.unicode_len();
    let n = name.unicode_len();
    if plen > n {
        return None;
    }
    let head = String::from_str(name.substring_char(0, plen));
    let wanted = String::from_str(prefix);
    if head == wanted {
        assert(prefix@ =~= name@.subrange(0, prefix@.len() as int));
        let rest = String::from_str(name.substring_char(plen, n));
        assert(rest@ =~= name@.skip(plen as int));
        Some(rest)
    } else {
        assert(!(prefix@ =~= name@.subrange(0, prefix@.len() as int)));
        None
    }
}

/// The names of the local branches among the references of a local listing.
pub open spec fn head_names(refs: Seq<GitRef>) -> Set<Seq<char>>
    decreases refs.len(),
{
    if refs.len() == 0 {
        Set::empty()
    } else {
        let prev = head_names(refs.drop_last());
        match head_branch(refs.last().name@) {
            Some(b) => prev.insert(b),
            None => prev,
        }
    }
}

/// The `(host, branch)` and reference of each local mirror among the references of a local
/// listing, in order.
pub open spec fn local_mirrors(refs: Seq<GitRef>) -> Seq<((Seq<char>, Seq<char>), GitRef)>
    decreases refs.len(),
{
    if refs.len() == 0 {
        Seq::empty()
    } else {
        let prev = local_mirrors(refs.drop_last());
        match decode_local(refs.last().name@) {
            Some(hb) => prev.push((hb, refs.last())),
            None => prev,
        }
    }
}

/// The `(host, branch)` and reference of each mirror.
pub open spec fn mirror_views(refs: Seq<NomadRef<GitRef>>) -> Seq<((Seq<char>, Seq<char>), GitRef)> {
    refs.map_values(|m: NomadRef<GitRef>| ((m.host@, m.branch.0@), m.ref_))
}

/// The snapshot of `config`'s user that one listing of the local references gives: the
/// branches under `refs/heads/` and the mirrors under `refs/nomad/`; other references are
/// passed over.
pub fn snapshot_of(config: &Config, refs: Vec<GitRef>) -> (r: Snapshot<GitRef>)
    ensures
        r.user_view() == config.user@,
        r.branches_view() == head_names(refs@),
        mirror_views(r.refs_view()) == local_mirrors(refs@),
        forall|i: int| 0 <= i < r.refs_view().len() ==> #[trigger] r.refs_view()[i].user@ == config.user@,
{
    let ghost all = refs@;
    let mut rest = refs;
    let mut local_branches: Vec<Branch> = Vec::new();
    let mut nomad_refs: Vec<NomadRef<GitRef>> = Vec::new();
    let n: usize = rest.len();
    let mut k: usize = 0;
    assert(all.subrange(0, 0) =~= Seq::<GitRef>::empty());
    assert(rest@ =~= all.subrange(0, all.len() as int));
    assert(crate::snapshot::branch_names(local_branches@) =~= Set::<Seq<char>>::empty());
    assert(mirror_views(nomad_refs@) =~= Seq::<((Seq<char>, Seq<char>), GitRef)>::empty());
    while rest.len() > 0
        invariant
            k + rest@.len() == all.len(),
            all.len() == n,
            rest@ == all.subrange(k as int, all.len() as int),
            crate::snapshot::branch_names(local_branches@) == head_names(all.subrange(0, k as int)),
            mirror_views(nomad_refs@) == local_mirrors(all.subrange(0, k as int)),
            forall|i: int| 0 <= i < nomad_refs@.len() ==> #[trigger] nomad_refs@[i].user@ == config.user@,
        decreases rest@.len(),
    {
        let git_ref = rest.remove(0);
        let ghost done = all.subrange(0, k + 1);
        assert(done.drop_last() =~= all.subrange(0, k as int));
        assert(done.last() == git_ref);
        assert(rest@ =~= all.subrange(k + 1, all.len() as int));
        match strip_heads(git_ref.name.as_str()) {
            Some(name) => {
                let ghost before = local_branches@;
                local_branches.push(Branch(name));
                proof {
                    assert(local_branches@ == before.push(Branch(name)));
                    assert(local_branches@.map_values(|b: Branch| b.0@) =~= before.map_values(
                        |b: Branch| b.0@,
                    ).push(name@));
                    before.map_values(|b: Branch| b.0@).lemma_push_to_set_commute(name@);
                }
            },
            None => {},
        }
        match NomadRef::<GitRef>::from_git_local_ref(config, git_ref) {
            Ok(m) => {
                let ghost before = nomad_refs@;
                nomad_refs.push(m);
                assert(mirror_views(nomad_refs@) =~= mirror_views(before).push(
                    ((m.host@, m.branch.0@), m.ref_),
                ));
            },
            Err(_) => {},
        }
        k = k + 1;
    }
    assert(all.subrange(0, k as int) =~= all);
    Snapshot::new(&config.user, local_branches, nomad_refs)
}

/// `:refs/nomad/{user}/{host}/{branch}`: the refspec that deletes a mirror on the remote.
pub open spec fn deletion_refspec_text(m: NomadRef<GitRef>) -> Seq<char> {
    ":"@ + remote_ref_name(m.user@, m.host@, m.branch.0@)
}

/// The remote deletions that `prune` asks for, one per `LocalAndRemote`, in order.
pub open spec fn remote_deletions(prune: Seq<PruneFrom<GitRef>>) -> Seq<Seq<char>>
    decreases prune.len(),
{
    if prune.len() == 0 {
        Seq::empty()
    } else {
        let prev = remote_deletions(prune.drop_last());
        match prune.last() {
            PruneFrom::LocalAndRemote(m) => prev.push(deletion_refspec_text(m)),
            PruneFrom::LocalOnly(_) => prev,
        }
    }
}

/// `calls` carries out `prune` against `remote`: first one push of every remote deletion, if
/// there is any, then one conditional local delete per decision, in order.
pub open spec fn is_prune_plan(
    remote: Seq<char>,
    prune: Seq<PruneFrom<GitRef>>,
    calls: Seq<BackendCall>,
) -> bool {
    let d = remote_deletions(prune);
    let off: int = if d.len() > 0 {
        1
    } else {
        0
    };
    &&& calls.len() == off + prune.len()
    &&& d.len() > 0 ==> calls[0] is Push && calls[0]->Push_remote@ == remote && strings(
        calls[0]->Push_refspecs@,
    ) == d
    &&& forall|k: int|
        0 <= k < prune.len() ==> calls[off + k] == (BackendCall::DeleteRef {
            git_ref: prune_target(#[trigger] prune[k]).ref_,
        })
    &&& forall|i: int| 0 <= i < calls.len() ==> (#[trigger] calls[i]).wf()
}

/// The calls that carry out `prune`: the remote side first, in one push, then the local
/// references one at a time.
pub fn prune_calls(remote: &Remote, prune: Vec<PruneFrom<GitRef>>) -> (r: Vec<BackendCall>)
    ensures
        is_prune_plan(remote.0@, prune@, r@),
{
    let ghost all = prune@;
    let mut rest = prune;
    let mut refspecs: Vec<String> = Vec::new();
    let mut deletes: Vec<BackendCall> = Vec::new();
    let n: usize = rest.len();
    let mut k: usize = 0;
    assert(all.subrange(0, 0) =~= Seq::<PruneFrom<GitRef>>::empty());
    assert(rest@ =~= all.subrange(0, all.len() as int));
    assert(strings(refspecs@) =~= Seq::<Seq<char>>::empty());
    while rest.len() > 0
        invariant
            k + rest@.len() == all.len(),
            all.len() == n,
            rest@ == all.subrange(k as int, all.len() as int),
            strings(refspecs@) == remote_deletions(all.subrange(0, k as int)),
            deletes@.len() == k,
            forall|j: int|
                0 <= j < k ==> deletes@[j] == (BackendCall::DeleteRef {
                    git_ref: prune_target(#[trigger] all[j]).ref_,
                }),
        decreases rest@.len(),
    {
        let prune_from = rest.remove(0);
        let ghost done = all.subrange(0, k + 1);
        assert(done.drop_last() =~= all.subrange(0, k as int));
        assert(done.last() == prune_from);
        assert(rest@ =~= all.subrange(k + 1, all.len() as int));
        let nomad_ref = match prune_from {
            PruneFrom::LocalAndRemote(nomad_ref) => {
                let mut spec = String::from_str(":");
                let name = nomad_ref.to_git_remote_ref();
                spec.append(name.as_str());
                let ghost before = strings(refspecs@);
                refspecs.push(spec);
                assert(strings(refspecs@) =~= before.push(deletion_refspec_text(nomad_ref)));
                nomad_ref
            },
            PruneFrom::LocalOnly(nomad_ref) => nomad_ref,
        };
        deletes.push(BackendCall::DeleteRef { git_ref: nomad_ref.ref_ });
        k = k + 1;
    }
    assert(all.subrange(0, k as int) =~= all);
    let ghost deletes_before = deletes@;
    let ghost refspecs_before = refspecs@;
    let mut calls: Vec<BackendCall> = Vec::new();
    if refspecs.len() > 0 {
        calls.push(BackendCall::Push { remote: remote.0.clone(), refspecs });
    }
    let ghost head = calls@;
    assert(head.len() > 0 ==> head.len() == 1 && head[0] is Push && head[0]->Push_refspecs@
        == refspecs_before && refspecs_before.len() > 0);
    calls.append(&mut deletes);
    assert(calls@ =~= head + deletes_before);
    let ghost off: int = head.len() as int;
    assert(strings(refspecs_before).len() == refspecs_before.len());
    assert forall|j: int| 0 <= j < all.len() implies calls@[off + j] == (BackendCall::DeleteRef {
        git_ref: prune_target(#[trigger] all[j]).ref_,
    }) by {
        assert(calls@[off + j] == deletes_before[j]);
    }
    assert forall|i: int| 0 <= i < calls@.len() implies (#[trigger] calls@[i]).wf() by {
        if i >= off {
            assert(calls@[i] == deletes_before[i - off]);
            assert(deletes_before[i - off] == (BackendCall::DeleteRef {
                git_ref: prune_target(all[i - off]).ref_,
            }));
        } else {
            assert(calls@[i] == head[i]);
        }
    }
    calls
}

/// Carrying out a prune deletes on the remote before it deletes locally: the local delete of
/// every `LocalAndRemote` mirror comes after a push whose refspecs delete that mirror's remote
/// reference.
pub proof fn lemma_remote_first(
    remote: Seq<char>,
    prune: Seq<PruneFrom<GitRef>>,
    calls: Seq<BackendCall>,
)
    requires
        is_prune_plan(remote, prune, calls),
    ensures
        forall|k: int|
            0 <= k < prune.len() && (#[trigger] prune[k]) is LocalAndRemote ==> exists|i: int, j: int|
                0 <= i < j < calls.len() && calls[j] == (BackendCall::DeleteRef {
                    git_ref: prune_target(prune[k]).ref_,
                }) && calls[i] is Push && strings(calls[i]->Push_refspecs@).contains(
                    deletion_refspec_text(prune_target(prune[k])),
                ),
{
    assert forall|k: int|
        0 <= k < prune.len() && (#[trigger] prune[k]) is LocalAndRemote implies exists|i: int, j: int|
            0 <= i < j < calls.len() && calls[j] == (BackendCall::DeleteRef {
                git_ref: prune_target(prune[k]).ref_,
            }) && calls[i] is Push && strings(calls[i]->Push_refspecs@).contains(
                deletion_refspec_text(prune_target(prune[k])),
            ) by {
        lemma_deletion_listed(prune, k);
        let d = remote_deletions(prune);
        assert(d.len() > 0);
        assert(calls[1 + k] == (BackendCall::DeleteRef { git_ref: prune_target(prune[k]).ref_ }));
    }
}

proof fn lemma_deletion_listed(prune: Seq<PruneFrom<GitRef>>, k: int)
    requires
        0 <= k < prune.len(),
        prune[k] is LocalAndRemote,
    ensures
        remote_deletions(prune).contains(deletion_refspec_text(prune_target(prune[k]))),
    decreases prune.len(),
{
    let init = prune.drop_last();
    let prev = remote_deletions(init);
    if k == prune.len() - 1 {
        assert(remote_deletions(prune) == prev.push(deletion_refspec_text(prune_target(prune[k]))));
        assert(remote_deletions(prune)[prev.len() as int] == deletion_refspec_text(
            prune_target(prune[k]),
        ));
    } else {
        assert(init[k] == prune[k]);
        lemma_deletion_listed(init, k);
        let i = choose|i: int|
            0 <= i < prev.len() && prev[i] == deletion_refspec_text(prune_target(prune[k]));
        match prune.last() {
            PruneFrom::LocalAndRemote(m) => {
                assert(remote_deletions(prune)[i] == prev[i]);
            },
            PruneFrom::LocalOnly(_) => {},
        }
    }
}

} // verus!
