use git_nomad::command::{purge_step, sync_step, PurgeSelector, PurgeState, SyncState};
use git_nomad::git_binary::{
    config_from_values, fetch_nomad_refs_call, invocation, list_nomad_refs_call, prune_calls,
    push_nomad_refs_call, read_config_calls, remote_nomad_refs, snapshot_of, write_config_calls,
};
use git_nomad::{
    git_command, BackendCall, Branch, Config, GitError, GitRef, LineArity, NomadRef, PruneFrom,
    Remote,
};

const INITIAL_BRANCH: &str = "branch0";

fn config(host: &str) -> Config {
    Config {
        user: "user0".to_string(),
        host: host.to_string(),
    }
}

fn origin() -> Remote {
    Remote("origin".to_string())
}

fn strings(v: &[&str]) -> Vec<String> {
    v.iter().map(|s| s.to_string()).collect()
}

fn git_ref(commit: &str, name: &str) -> GitRef {
    GitRef {
        commit_id: commit.to_string(),
        name: name.to_string(),
    }
}

/// Runs a sync to the end against canned listings, and returns every call it made.
fn sync_calls(config: &Config, ls_remote: &str, show_ref: &str) -> Vec<BackendCall> {
    let remote = origin();
    let mut all = Vec::new();
    let mut state = SyncState::Start;
    let mut output = "";
    loop {
        let (next, calls) = sync_step(config, &remote, state, output).unwrap();
        output = match next {
            SyncState::ListingLocal(_) => show_ref,
            SyncState::ListingRemote => ls_remote,
            _ => "",
        };
        let done = matches!(next, SyncState::Done);
        all.extend(calls);
        state = next;
        if done {
            return all;
        }
    }
}

fn purge_calls(config: &Config, selector: &PurgeSelector, show_ref: &str) -> Vec<BackendCall> {
    let remote = origin();
    let (state, mut all) = purge_step(config, &remote, selector, PurgeState::Start, "").unwrap();
    assert!(matches!(state, PurgeState::Fetched));
    let (state, calls) = purge_step(config, &remote, selector, state, show_ref).unwrap();
    assert!(matches!(state, PurgeState::Done));
    all.extend(calls);
    all
}

#[test]
fn push() {
    let host0 = config("host0");
    assert_eq!(
        push_nomad_refs_call(&host0, &origin()),
        BackendCall::Push {
            remote: "origin".to_string(),
            refspecs: strings(&["+refs/heads/*:refs/nomad/user0/host0/*"]),
        }
    );
}

#[test]
fn fetch() {
    let host1 = config("host1");
    assert_eq!(
        fetch_nomad_refs_call(&host1, &origin()),
        BackendCall::Fetch {
            remote: "origin".to_string(),
            refspecs: strings(&["+refs/nomad/user0/*:refs/nomad/*"]),
        }
    );

    // Before host0 pushed, the remote holds no nomad refs.
    let listed = GitRef::parse_ls_remote_output("").unwrap();
    assert!(remote_nomad_refs(listed).0.is_empty());

    // After, the listing shows host0's one branch.
    let listed =
        GitRef::parse_ls_remote_output("c0\trefs/nomad/user0/host0/branch0\n").unwrap();
    let set = remote_nomad_refs(listed);
    assert_eq!(
        set.0,
        vec![(
            "user0".to_string(),
            "host0".to_string(),
            INITIAL_BRANCH.to_string()
        )]
    );
}

#[test]
fn push_fetch_prune() {
    let host0 = config("host0");

    // In the beginning, there are no nomad refs.
    let snapshot = snapshot_of(&host0, vec![git_ref("c0", "refs/heads/branch0")]);
    assert!(snapshot.sorted_hosts_and_branches().is_empty());

    // After a fetch, the local clone holds host0's mirror.
    let refs = vec![
        git_ref("c0", "refs/heads/branch0"),
        git_ref("c0", "refs/nomad/host0/branch0"),
    ];
    let snapshot = snapshot_of(&host0, refs);
    let grouped = snapshot.sorted_hosts_and_branches();
    assert_eq!(grouped.len(), 1);
    assert_eq!(grouped[0].0, "host0");
    assert_eq!(grouped[0].1[0].ref_, git_ref("c0", "refs/nomad/host0/branch0"));

    // Pruning removes the ref remotely, then locally.
    let mirror = NomadRef {
        user: "user0".to_string(),
        host: "host0".to_string(),
        branch: Branch::str(INITIAL_BRANCH),
        ref_: git_ref("c0", "refs/nomad/host0/branch0"),
    };
    let calls = prune_calls(&origin(), vec![PruneFrom::LocalAndRemote(mirror)]);
    assert_eq!(
        calls,
        vec![
            BackendCall::Push {
                remote: "origin".to_string(),
                refspecs: strings(&[":refs/nomad/user0/host0/branch0"]),
            },
            BackendCall::DeleteRef {
                git_ref: git_ref("c0", "refs/nomad/host0/branch0"),
            },
        ]
    );
}

#[test]
fn prune_of_local_only_mirrors_pushes_nothing() {
    let mirror = NomadRef {
        user: "user0".to_string(),
        host: "host1".to_string(),
        branch: Branch::str("feature"),
        ref_: git_ref("c1", "refs/nomad/host1/feature"),
    };
    let calls = prune_calls(&origin(), vec![PruneFrom::LocalOnly(mirror)]);
    assert_eq!(
        calls,
        vec![BackendCall::DeleteRef {
            git_ref: git_ref("c1", "refs/nomad/host1/feature"),
        }]
    );
    assert!(prune_calls(&origin(), Vec::new()).is_empty());
}

#[test]
fn line_arity_counts_lines() {
    assert_eq!(LineArity::of(String::new()), LineArity::Zero());
    assert_eq!(LineArity::of("\n".to_string()), LineArity::Zero());
    assert_eq!(LineArity::of("abc".to_string()), LineArity::One("abc".to_string()));
    assert_eq!(LineArity::of("abc\n".to_string()), LineArity::One("abc".to_string()));
    assert_eq!(LineArity::of("abc\r\n".to_string()), LineArity::One("abc".to_string()));
    assert_eq!(
        LineArity::of("a\nb\n".to_string()),
        LineArity::Many("a\nb\n".to_string())
    );
}

#[test]
fn line_arity_expectations() {
    assert_eq!(LineArity::One("x".to_string()).one(), Ok("x".to_string()));
    assert_eq!(
        LineArity::Zero().one(),
        Err(GitError::ExpectedOneLine { got: LineArity::Zero() })
    );
    assert_eq!(LineArity::Zero().zero_or_one(), Ok(None));
    assert_eq!(
        LineArity::One("x".to_string()).zero_or_one(),
        Ok(Some("x".to_string()))
    );
    assert_eq!(
        LineArity::Many("a\nb".to_string()).zero_or_one(),
        Err(GitError::ExpectedAtMostOneLine { output: "a\nb".to_string() })
    );
}

#[test]
fn parse_listings() {
    assert_eq!(
        GitRef::parse_show_ref_output("c0 refs/heads/main\nc1 refs/nomad/h/b\n"),
        Ok(vec![git_ref("c0", "refs/heads/main"), git_ref("c1", "refs/nomad/h/b")])
    );
    assert_eq!(GitRef::parse_show_ref_output(""), Ok(Vec::new()));
    assert_eq!(
        GitRef::parse_show_ref_output("c0 refs/heads/main\nbroken\n"),
        Err("broken".to_string())
    );
    assert_eq!(
        GitRef::parse_ls_remote_output("c0\trefs/nomad/u/h/b"),
        Ok(vec![git_ref("c0", "refs/nomad/u/h/b")])
    );
    assert_eq!(
        GitRef::parse_ls_remote_output("c0 refs/nomad/u/h/b"),
        Err("c0 refs/nomad/u/h/b".to_string())
    );
}

#[test]
fn read_config_full_and_empty() {
    assert_eq!(
        config_from_values(Some("alice".to_string()), Some("laptop".to_string())),
        Ok(Some(Config {
            user: "alice".to_string(),
            host: "laptop".to_string()
        }))
    );
    assert_eq!(config_from_values(None, None), Ok(None));
}

#[test]
fn read_config_partial_names_both_keys() {
    let err = config_from_values(Some("alice".to_string()), None).unwrap_err();
    assert_eq!(
        err,
        GitError::PartialConfig {
            user: Some("alice".to_string()),
            host: None
        }
    );
    let message = err.message();
    assert!(message.contains("nomad.user"));
    assert!(message.contains("nomad.host"));
    assert_eq!(
        message,
        "Partial configuration: nomad.user = alice, nomad.host = (unset)"
    );
    assert!(config_from_values(None, Some("laptop".to_string())).is_err());
}

#[test]
fn config_calls() {
    assert_eq!(
        read_config_calls(),
        vec![
            BackendCall::GetConfig { key: "nomad.user".to_string() },
            BackendCall::GetConfig { key: "nomad.host".to_string() },
        ]
    );
    assert_eq!(
        write_config_calls(&config("host0")),
        vec![
            BackendCall::SetConfig {
                key: "nomad.user".to_string(),
                value: "user0".to_string()
            },
            BackendCall::SetConfig {
                key: "nomad.host".to_string(),
                value: "host0".to_string()
            },
        ]
    );
}

fn hermetic() -> Vec<(String, String)> {
    [
        ("GIT_CONFIG_NOSYSTEM", "1"),
        ("GIT_CONFIG_NOGLOBAL", "1"),
        ("HOME", ""),
        ("XDG_CONFIG_HOME", ""),
        ("GIT_AUTHOR_NAME", "git-nomad"),
        ("GIT_AUTHOR_EMAIL", "git-nomad@invalid"),
        ("GIT_AUTHOR_DATE", "1970-01-01T00:00:00"),
        ("GIT_COMMITTER_NAME", "git-nomad"),
        ("GIT_COMMITTER_EMAIL", "git-nomad@invalid"),
        ("GIT_COMMITTER_DATE", "1970-01-01T00:00:00"),
    ]
    .iter()
    .map(|(k, v)| (k.to_string(), v.to_string()))
    .collect()
}

#[test]
fn every_invocation_is_hermetic() {
    let command = git_command("git");
    assert_eq!(command.program, "git");
    assert_eq!(command.env, hermetic());
    assert!(command.args.is_empty());

    let calls = vec![
        BackendCall::ResolveGitDir,
        BackendCall::ListRefs,
        push_nomad_refs_call(&config("host0"), &origin()),
        BackendCall::DeleteRef { git_ref: git_ref("c0", "refs/nomad/h/b") },
    ];
    for call in &calls {
        assert_eq!(invocation("git", "/repo/.git", call).env, hermetic());
    }
}

#[test]
fn invocation_arguments() {
    let args = |call: &BackendCall| invocation("git", "/repo/.git", call).args;
    assert_eq!(
        args(&BackendCall::ResolveGitDir),
        strings(&["rev-parse", "--absolute-git-dir"])
    );
    assert_eq!(
        args(&BackendCall::GetConfig { key: "nomad.user".to_string() }),
        strings(&["--git-dir", "/repo/.git", "config", "--local", "--default", "", "--get", "nomad.user"])
    );
    assert_eq!(
        args(&BackendCall::SetConfig {
            key: "nomad.host".to_string(),
            value: "laptop".to_string()
        }),
        strings(&["--git-dir", "/repo/.git", "config", "--local", "--replace-all", "nomad.host", "laptop"])
    );
    assert_eq!(
        args(&BackendCall::ListRefs),
        strings(&["--git-dir", "/repo/.git", "show-ref"])
    );
    assert_eq!(
        args(&push_nomad_refs_call(&config("host0"), &origin())),
        strings(&[
            "--git-dir",
            "/repo/.git",
            "push",
            "--no-verify",
            "origin",
            "+refs/heads/*:refs/nomad/user0/host0/*"
        ])
    );
    assert_eq!(
        args(&fetch_nomad_refs_call(&config("host0"), &origin())),
        strings(&["--git-dir", "/repo/.git", "fetch", "origin", "+refs/nomad/user0/*:refs/nomad/*"])
    );
    assert_eq!(
        args(&list_nomad_refs_call(&config("host0"), &origin())),
        strings(&["--git-dir", "/repo/.git", "ls-remote", "origin", "refs/nomad/user0/*"])
    );
    assert_eq!(
        args(&BackendCall::DeleteRef { git_ref: git_ref("c0", "refs/nomad/h/b") }),
        strings(&["--git-dir", "/repo/.git", "update-ref", "-d", "refs/nomad/h/b", "c0"])
    );
}

#[test]
fn sync_order_and_no_prune_when_everything_is_current() {
    let host0 = config("host0");
    let calls = sync_calls(
        &host0,
        "c0\trefs/nomad/user0/host0/main\nc1\trefs/nomad/user0/host1/main\nc2\trefs/nomad/user0/host1/feature\n",
        "c0 refs/heads/main\nc0 refs/nomad/host0/main\nc1 refs/nomad/host1/main\nc2 refs/nomad/host1/feature\n",
    );
    assert_eq!(
        calls,
        vec![
            push_nomad_refs_call(&host0, &origin()),
            fetch_nomad_refs_call(&host0, &origin()),
            list_nomad_refs_call(&host0, &origin()),
            BackendCall::ListRefs,
        ]
    );
}

#[test]
fn sync_removes_mirror_of_branch_deleted_elsewhere() {
    // host1 deleted `feature` and synced: the remote no longer lists it.
    let host0 = config("host0");
    let calls = sync_calls(
        &host0,
        "c0\trefs/nomad/user0/host0/main\nc1\trefs/nomad/user0/host1/main\n",
        "c0 refs/heads/main\nc0 refs/nomad/host0/main\nc1 refs/nomad/host1/main\nc2 refs/nomad/host1/feature\n",
    );
    assert_eq!(
        calls[4..].to_vec(),
        vec![BackendCall::DeleteRef { git_ref: git_ref("c2", "refs/nomad/host1/feature") }]
    );
}

#[test]
fn sync_removes_own_mirror_of_deleted_branch_remote_first() {
    // host1 deleted `feature` locally: its mirror goes from the remote, then locally.
    let host1 = config("host1");
    let calls = sync_calls(
        &host1,
        "c1\trefs/nomad/user0/host1/main\nc2\trefs/nomad/user0/host1/feature\n",
        "c1 refs/heads/main\nc1 refs/nomad/host1/main\nc2 refs/nomad/host1/feature\n",
    );
    assert_eq!(
        calls[4..].to_vec(),
        vec![
            BackendCall::Push {
                remote: "origin".to_string(),
                refspecs: strings(&[":refs/nomad/user0/host1/feature"]),
            },
            BackendCall::DeleteRef { git_ref: git_ref("c2", "refs/nomad/host1/feature") },
        ]
    );
}

#[test]
fn sync_after_interrupted_prune_still_deletes_locally() {
    // The remote deletion went through, the local delete did not.
    let host0 = config("host0");
    let calls = sync_calls(
        &host0,
        "c0\trefs/nomad/user0/host0/main\n",
        "c0 refs/heads/main\nc0 refs/nomad/host0/main\nc3 refs/nomad/host0/gone\n",
    );
    assert_eq!(
        calls.last(),
        Some(&BackendCall::DeleteRef { git_ref: git_ref("c3", "refs/nomad/host0/gone") })
    );
    assert!(matches!(&calls[4], BackendCall::Push { refspecs, .. } if refspecs == &strings(&[":refs/nomad/user0/host0/gone"])));
}

#[test]
fn sync_reports_bad_listing_line() {
    let host0 = config("host0");
    let result = sync_step(&host0, &origin(), SyncState::ListingRemote, "not a listing line");
    assert!(matches!(result, Err(GitError::Parse { line }) if line == "not a listing line"));
}

#[test]
fn issue_2_other_host() {
    let host1 = config("host1");
    let calls = purge_calls(
        &host1,
        &PurgeSelector::ByHosts(vec!["host0".to_string()]),
        "c1 refs/heads/main\nc0 refs/nomad/host0/main\nc1 refs/nomad/host1/main\n",
    );
    assert_eq!(
        calls,
        vec![
            fetch_nomad_refs_call(&host1, &origin()),
            BackendCall::ListRefs,
            BackendCall::Push {
                remote: "origin".to_string(),
                refspecs: strings(&[":refs/nomad/user0/host0/main"]),
            },
            BackendCall::DeleteRef { git_ref: git_ref("c0", "refs/nomad/host0/main") },
        ]
    );
}

#[test]
fn issue_2_all() {
    let host1 = config("host1");
    let calls = purge_calls(
        &host1,
        &PurgeSelector::All,
        "c1 refs/heads/main\nc0 refs/nomad/host0/main\nc1 refs/nomad/host1/main\n",
    );
    assert_eq!(
        calls[2..].to_vec(),
        vec![
            BackendCall::Push {
                remote: "origin".to_string(),
                refspecs: strings(&[":refs/nomad/user0/host0/main", ":refs/nomad/user0/host1/main"]),
            },
            BackendCall::DeleteRef { git_ref: git_ref("c0", "refs/nomad/host0/main") },
            BackendCall::DeleteRef { git_ref: git_ref("c1", "refs/nomad/host1/main") },
        ]
    );
}

#[test]
fn snapshot_of_listing_splits_branches_and_mirrors() {
    let host0 = config("host0");
    let snapshot = snapshot_of(
        &host0,
        vec![
            git_ref("c0", "refs/heads/main"),
            git_ref("c1", "refs/nomad/host1/main"),
            git_ref("c9", "refs/tags/v1"),
        ],
    );
    assert_eq!(snapshot.user(), "user0");
    let grouped = snapshot.sorted_hosts_and_branches();
    assert_eq!(grouped.len(), 1);
    assert_eq!(grouped[0].1[0].user, "user0");
    assert_eq!(grouped[0].1[0].host, "host1");
}

#[test]
fn issue_1() {
    let host0 = config("host0");
    let host1 = config("host1");

    // host0 syncs first: nothing to prune.
    let calls = sync_calls(
        &host0,
        "c0\trefs/nomad/user0/host0/main\n",
        "c0 refs/heads/main\nc0 refs/nomad/host0/main\n",
    );
    assert_eq!(calls.len(), 4);

    // host1 creates `feature` and syncs: both branches go to host1's mirrors.
    let calls = sync_calls(
        &host1,
        "c0\trefs/nomad/user0/host0/main\nc1\trefs/nomad/user0/host1/main\nc2\trefs/nomad/user0/host1/feature\n",
        "c1 refs/heads/main\nc2 refs/heads/feature\nc0 refs/nomad/host0/main\nc1 refs/nomad/host1/main\nc2 refs/nomad/host1/feature\n",
    );
    assert_eq!(
        calls,
        vec![
            BackendCall::Push {
                remote: "origin".to_string(),
                refspecs: strings(&["+refs/heads/*:refs/nomad/user0/host1/*"]),
            },
            fetch_nomad_refs_call(&host1, &origin()),
            list_nomad_refs_call(&host1, &origin()),
            BackendCall::ListRefs,
        ]
    );

    // host0 syncs and observes host1's mirrors without pruning them.
    let calls = sync_calls(
        &host0,
        "c0\trefs/nomad/user0/host0/main\nc1\trefs/nomad/user0/host1/main\nc2\trefs/nomad/user0/host1/feature\n",
        "c0 refs/heads/main\nc0 refs/nomad/host0/main\nc1 refs/nomad/host1/main\nc2 refs/nomad/host1/feature\n",
    );
    assert_eq!(calls.len(), 4);

    // host1 deletes `feature` and syncs: its mirror goes from the remote, then locally.
    let calls = sync_calls(
        &host1,
        "c0\trefs/nomad/user0/host0/main\nc1\trefs/nomad/user0/host1/main\nc2\trefs/nomad/user0/host1/feature\n",
        "c1 refs/heads/main\nc0 refs/nomad/host0/main\nc1 refs/nomad/host1/main\nc2 refs/nomad/host1/feature\n",
    );
    assert_eq!(
        calls[4..].to_vec(),
        vec![
            BackendCall::Push {
                remote: "origin".to_string(),
                refspecs: strings(&[":refs/nomad/user0/host1/feature"]),
            },
            BackendCall::DeleteRef { git_ref: git_ref("c2", "refs/nomad/host1/feature") },
        ]
    );

    // host0 syncs and drops its local copy of the deleted mirror.
    let calls = sync_calls(
        &host0,
        "c0\trefs/nomad/user0/host0/main\nc1\trefs/nomad/user0/host1/main\n",
        "c0 refs/heads/main\nc0 refs/nomad/host0/main\nc1 refs/nomad/host1/main\nc2 refs/nomad/host1/feature\n",
    );
    assert_eq!(
        calls[4..].to_vec(),
        vec![BackendCall::DeleteRef { git_ref: git_ref("c2", "refs/nomad/host1/feature") }]
    );
}

#[test]
fn toplevel_at_root() {
    let resolve = invocation("git", "", &BackendCall::ResolveGitDir);
    assert_eq!(resolve.args, strings(&["rev-parse", "--absolute-git-dir"]));
    assert_eq!(
        LineArity::of("/tmp/repo/.git\n".to_string()).one(),
        Ok("/tmp/repo/.git".to_string())
    );
}

#[test]
fn read_empty_config() {
    let get = invocation(
        "git",
        "/repo/.git",
        &BackendCall::GetConfig { key: "test.key".to_string() },
    );
    assert_eq!(get.args[2..4].to_vec(), strings(&["config", "--local"]));
    // A missing value prints the empty default.
    assert_eq!(LineArity::of("\n".to_string()).zero_or_one(), Ok(None));
}

#[test]
fn write_then_read_config() {
    let set = invocation(
        "git",
        "/repo/.git",
        &BackendCall::SetConfig {
            key: "test.key".to_string(),
            value: "testvalue".to_string(),
        },
    );
    assert_eq!(set.args[5..].to_vec(), strings(&["test.key", "testvalue"]));
    assert_eq!(
        LineArity::of("testvalue\n".to_string()).zero_or_one(),
        Ok(Some("testvalue".to_string()))
    );
}
