use git_nomad::namespace::{config_key, fetch_refspec, list_refspec, push_refspec};
use git_nomad::{Branch, Config, GitRef, NomadRef};

const USER: &str = "user0";
const HOST: &str = "host0";
const BRANCH: &str = "branch0";

fn config() -> Config {
    Config {
        user: "user0".to_string(),
        host: "host0".to_string(),
    }
}

fn git_ref(name: &str) -> GitRef {
    GitRef {
        commit_id: "some_commit_id".to_string(),
        name: name.to_string(),
    }
}

#[test]
fn test_to_and_from_local_ref() {
    let local_ref_name = NomadRef::<()> {
        user: USER.to_string(),
        host: HOST.to_string(),
        branch: Branch::str(BRANCH),
        ref_: (),
    }
    .to_git_local_ref();

    let local_git_ref = GitRef {
        commit_id: "some_commit_id".to_string(),
        name: local_ref_name,
    };

    let nomad_ref = NomadRef::<GitRef>::from_git_local_ref(
        &Config {
            user: "user0".to_string(),
            host: "host0".to_string(),
        },
        local_git_ref,
    )
    .unwrap();

    assert_eq!(&nomad_ref.user, USER);
    assert_eq!(&nomad_ref.host, HOST);
    assert_eq!(&nomad_ref.branch.0, BRANCH);
}

#[test]
fn test_to_and_from_remote_ref() {
    let remote_ref_name = NomadRef::<()> {
        user: USER.to_string(),
        host: HOST.to_string(),
        branch: Branch::str(BRANCH),
        ref_: (),
    }
    .to_git_remote_ref();

    let remote_git_ref = GitRef {
        commit_id: "some_commit_id".to_string(),
        name: remote_ref_name,
    };

    let nomad_ref = NomadRef::<GitRef>::from_git_remote_ref(remote_git_ref).unwrap();

    assert_eq!(&nomad_ref.user, USER);
    assert_eq!(&nomad_ref.host, HOST);
    assert_eq!(&nomad_ref.branch.0, BRANCH);
}

#[test]
fn local_and_remote_ref_names() {
    let nomad_ref = NomadRef::<()> {
        user: "alice".to_string(),
        host: "laptop".to_string(),
        branch: Branch::str("feature"),
        ref_: (),
    };
    assert_eq!(nomad_ref.to_git_local_ref(), "refs/nomad/laptop/feature");
    assert_eq!(nomad_ref.to_git_remote_ref(), "refs/nomad/alice/laptop/feature");
}

#[test]
fn local_round_trip_keeps_the_whole_ref() {
    let name = "refs/nomad/host1/topic";
    let nomad_ref = NomadRef::<GitRef>::from_git_local_ref(&config(), git_ref(name)).unwrap();
    assert_eq!(nomad_ref.user, "user0");
    assert_eq!(nomad_ref.host, "host1");
    assert_eq!(nomad_ref.branch, Branch::str("topic"));
    assert_eq!(nomad_ref.ref_, git_ref(name));
    assert_eq!(nomad_ref.to_git_local_ref(), name);
}

#[test]
fn remote_round_trip_keeps_the_whole_ref() {
    let name = "refs/nomad/user1/host1/topic";
    let nomad_ref = NomadRef::<GitRef>::from_git_remote_ref(git_ref(name)).unwrap();
    assert_eq!(nomad_ref.user, "user1");
    assert_eq!(nomad_ref.host, "host1");
    assert_eq!(nomad_ref.branch, Branch::str("topic"));
    assert_eq!(nomad_ref.to_git_remote_ref(), name);
}

#[test]
fn local_decode_rejects_other_refs_untouched() {
    for name in [
        "refs/heads/main",
        "refs/nomad/user0/host0/main",
        "refs/other/host0/main",
        "refs/nomad/host0",
        "nomad/refs/host0/main",
        "",
    ] {
        assert_eq!(
            NomadRef::<GitRef>::from_git_local_ref(&config(), git_ref(name)),
            Err(git_ref(name))
        );
    }
}

#[test]
fn remote_decode_rejects_other_refs_untouched() {
    for name in [
        "refs/heads/main",
        "refs/nomad/host0/main",
        "refs/other/user0/host0/main",
        "refs/nomad/user0/host0/feature/x",
    ] {
        assert_eq!(
            NomadRef::<GitRef>::from_git_remote_ref(git_ref(name)),
            Err(git_ref(name))
        );
    }
}

#[test]
fn empty_segments_still_decode() {
    let nomad_ref = NomadRef::<GitRef>::from_git_local_ref(&config(), git_ref("refs/nomad//b")).unwrap();
    assert_eq!(nomad_ref.host, "");
    assert_eq!(nomad_ref.branch.0, "b");
}

#[test]
fn config_keys() {
    assert_eq!(config_key("user"), "nomad.user");
    assert_eq!(config_key("host"), "nomad.host");
}

#[test]
fn refspecs() {
    let config = Config {
        user: "rraval".to_string(),
        host: "boreas".to_string(),
    };
    assert_eq!(list_refspec(&config), "refs/nomad/rraval/*");
    assert_eq!(fetch_refspec(&config), "+refs/nomad/rraval/*:refs/nomad/*");
    assert_eq!(push_refspec(&config), "+refs/heads/*:refs/nomad/rraval/boreas/*");
}
