//! The user-invoked workflows, as decisions from what the last call printed to the next calls
//! to make. A driver runs the calls of each step in order and hands the standard output of the
//! last one to the next step.
use vstd::prelude::*;

use crate::git_binary::{
    fetch_nomad_refs_call, head_names, is_prune_plan, list_nomad_refs_call, local_mirrors,
    mirror_views, prune_calls, push_nomad_refs_call, remote_nomad_refs, remote_triples,
    snapshot_of, strings, BackendCall, GitError,
};
use crate::git_ref::{lines, parse_listing_with, parsed_listing, ref_views};
use crate::namespace::{fetch_refspec_text, list_refspec_text, push_refspec_text};
use crate::snapshot::{prune_deleted, prune_hosts, host_names, PruneFrom, RemoteNomadRefSet};
use crate::types::{Config, GitRef, NomadRef, Remote};

verus! {

/// Where a sync stands.
pub enum SyncState {
    /// Nothing done yet.
    Start,
    /// The local branches have been pushed to this host's mirrors.
    Pushed,
    /// The user's remote mirrors have been fetched.
    Fetched,
    /// The remote's mirrors are being listed.
    ListingRemote,
    /// The remote's mirrors are known; the local references are being listed.
    ListingLocal(RemoteNomadRefSet),
    /// The prune has been handed out; nothing is left to do.
    Done,
}

/// Which mirrors a purge removes.
pub enum PurgeSelector {
    /// Every mirror of the user.
    All,
    /// The mirrors of these hosts.
    ByHosts(Vec<String>),
}

/// Where a purge stands.
pub enum PurgeState {
    /// Nothing done yet.
    Start,
    /// The user's remote mirrors have been fetched; the local references are being listed.
    Fetched,
    /// The prune has been handed out; nothing is left to do.
    Done,
}

/// The references of `output`, a listing whose lines are a commit, `sep` and a name, or the
/// parse error of its first bad line.
fn parse_or_error(output: &str, sep: char) -> (r: Result<Vec<GitRef>, GitError>)
    ensures
        match parsed_listing(lines(output@), sep) {
            Ok(refs) => r is Ok && ref_views(r->Ok_0@) == refs,
            Err(bad) => r is Err && r->Err_0 is Parse && r->Err_0->Parse_line@ == bad,
        },
{
    match parse_listing_with(output, sep) {
        Ok(refs) => Ok(refs),
        Err(line) => Err(GitError::Parse { line }),
    }
}

/// A sync of `config`'s host against `remote`, one step at a time. In order: push the local
/// branches, fetch the user's mirrors, list the remote's mirrors, list the local references,
/// then prune what the listings show to be deleted, on the remote first. `output` is what the
/// last call of the previous step printed.
pub fn sync_step(config: &Config, remote: &Remote, state: SyncState, output: &str) -> (r: Result<
    (SyncState, Vec<BackendCall>),
    GitError,
>)
    ensures
        match state {
            SyncState::Start => r is Ok && r->Ok_0.0 is Pushed && r->Ok_0.1@.len() == 1
                && r->Ok_0.1@[0] is Push && r->Ok_0.1@[0]->Push_remote@ == remote.0@ && strings(
                r->Ok_0.1@[0]->Push_refspecs@,
            ) == seq![push_refspec_text(config.user@, config.host@)],
            SyncState::Pushed => r is Ok && r->Ok_0.0 is Fetched && r->Ok_0.1@.len() == 1
                && r->Ok_0.1@[0] is Fetch && r->Ok_0.1@[0]->Fetch_remote@ == remote.0@ && strings(
                r->Ok_0.1@[0]->Fetch_refspecs@,
            ) == seq![fetch_refspec_text(config.user@)],
            SyncState::Fetched => r is Ok && r->Ok_0.0 is ListingRemote && r->Ok_0.1@.len() == 1
                && r->Ok_0.1@[0] is ListRemote && r->Ok_0.1@[0]->ListRemote_remote@ == remote.0@
                && strings(r->Ok_0.1@[0]->ListRemote_refspecs@) == seq![
                list_refspec_text(config.user@),
            ],
            SyncState::ListingRemote => match parsed_listing(lines(output@), '\t') {
                Err(bad) => r is Err && r->Err_0 is Parse && r->Err_0->Parse_line@ == bad,
                Ok(listed) => r is Ok && r->Ok_0.1@.len() == 1 && r->Ok_0.1@[0] is ListRefs && (
                match r->Ok_0.0 {
                    SyncState::ListingLocal(set) => exists|refs: Seq<GitRef>|
                        ref_views(refs) == listed && set@ == remote_triples(refs),
                    _ => false,
                }),
            },
            SyncState::ListingLocal(set) => match parsed_listing(lines(output@), ' ') {
                Err(bad) => r is Err && r->Err_0 is Parse && r->Err_0->Parse_line@ == bad,
                Ok(listed) => r is Ok && r->Ok_0.0 is Done && exists|
                    refs: Seq<GitRef>,
                    mirrors: Seq<NomadRef<GitRef>>,
                |
                    ref_views(refs) == listed && mirror_views(mirrors) == local_mirrors(refs)
                        && (forall|i: int|
                        0 <= i < mirrors.len() ==> (#[trigger] mirrors[i]).user@ == config.user@)
                        && is_prune_plan(
                        remote.0@,
                        prune_deleted(mirrors, head_names(refs), config.host@, set@),
                        r->Ok_0.1@,
                    ),
            },
            SyncState::Done => r is Ok && r->Ok_0.0 is Done && r->Ok_0.1@.len() == 0,
        },
        r is Ok ==> forall|i: int| 0 <= i < r->Ok_0.1@.len() ==> (#[trigger] r->Ok_0.1@[i]).wf(),
{
    let mut calls: Vec<BackendCall> = Vec::new();
    match state {
        SyncState::Start => {
            calls.push(push_nomad_refs_call(config, remote));
            Ok((SyncState::Pushed, calls))
        },
        SyncState::Pushed => {
            calls.push(fetch_nomad_refs_call(config, remote));
            Ok((SyncState::Fetched, calls))
        },
        SyncState::Fetched => {
            calls.push(list_nomad_refs_call(config, remote));
            Ok((SyncState::ListingRemote, calls))
        },
        SyncState::ListingRemote => {
            let listed = parse_or_error(output, '\t')?;
            let set = remote_nomad_refs(listed);
            calls.push(BackendCall::ListRefs);
            Ok((SyncState::ListingLocal(set), calls))
        },
        SyncState::ListingLocal(set) => {
            let listed = parse_or_error(output, ' ')?;
            let snapshot = snapshot_of(config, listed);
            let prune = snapshot.prune_deleted_branches(&config.host, &set);
            let calls = prune_calls(remote, prune);
            Ok((SyncState::Done, calls))
        },
        SyncState::Done => Ok((SyncState::Done, calls)),
    }
}

/// A purge of `config`'s mirrors against `remote`, one step at a time: fetch the user's
/// mirrors first, so that mirrors this host has not seen yet are found too, then list the
/// local references, choose the mirrors with `selector`, and prune them from both sides, on
/// the remote first. `output` is what the last call of the previous step printed.
pub fn purge_step(
    config: &Config,
    remote: &Remote,
    selector: &PurgeSelector,
    state: PurgeState,
    output: &str,
) -> (r: Result<(PurgeState, Vec<BackendCall>), GitError>)
    ensures
        match state {
            PurgeState::Start => r is Ok && r->Ok_0.0 is Fetched && r->Ok_0.1@.len() == 2
                && r->Ok_0.1@[0] is Fetch && r->Ok_0.1@[0]->Fetch_remote@ == remote.0@ && strings(
                r->Ok_0.1@[0]->Fetch_refspecs@,
            ) == seq![fetch_refspec_text(config.user@)] && r->Ok_0.1@[1] is ListRefs,
            PurgeState::Fetched => match parsed_listing(lines(output@), ' ') {
                Err(bad) => r is Err && r->Err_0 is Parse && r->Err_0->Parse_line@ == bad,
                Ok(listed) => r is Ok && r->Ok_0.0 is Done && exists|
                    refs: Seq<GitRef>,
                    mirrors: Seq<NomadRef<GitRef>>,
                |
                    ref_views(refs) == listed && mirror_views(mirrors) == local_mirrors(refs)
                        && (forall|i: int|
                        0 <= i < mirrors.len() ==> (#[trigger] mirrors[i]).user@ == config.user@)
                        && is_prune_plan(
                        remote.0@,
                        match selector {
                            PurgeSelector::All => mirrors.map_values(
                                |m: NomadRef<GitRef>| PruneFrom::LocalAndRemote(m),
                            ),
                            PurgeSelector::ByHosts(hosts) => prune_hosts(
                                mirrors,
                                host_names(hosts@),
                            ),
                        },
                        r->Ok_0.1@,
                    ),
            },
            PurgeState::Done => r is Ok && r->Ok_0.0 is Done && r->Ok_0.1@.len() == 0,
        },
        r is Ok ==> forall|i: int| 0 <= i < r->Ok_0.1@.len() ==> (#[trigger] r->Ok_0.1@[i]).wf(),
{
    let mut calls: Vec<BackendCall> = Vec::new();
    match state {
        PurgeState::Start => {
            calls.push(fetch_nomad_refs_call(config, remote));
            calls.push(BackendCall::ListRefs);
            Ok((PurgeState::Fetched, calls))
        },
        PurgeState::Fetched => {
            let listed = parse_or_error(output, ' ')?;
            let snapshot = snapshot_of(config, listed);
            let prune = match selector {
                PurgeSelector::All => snapshot.prune_all(),
                PurgeSelector::ByHosts(hosts) => snapshot.prune_all_by_hosts(hosts),
            };
            let calls = prune_calls(remote, prune);
            Ok((PurgeState::Done, calls))
        },
        PurgeState::Done => Ok((PurgeState::Done, calls)),
    }
}

} // verus!
