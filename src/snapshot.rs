//! A point-in-time view of one user's local branches and local mirrors, and the pruning
//! decisions taken on it.
use vstd::prelude::*;

use crate::types::{Branch, NomadRef};

verus! {

/// Where a mirror has to be removed from.
#[derive(Debug, PartialEq, Eq)]
pub enum PruneFrom<Ref> {
    /// The local reference is stale; the remote one is already gone.
    LocalOnly(NomadRef<Ref>),
    /// Both the remote and the local reference go.
    LocalAndRemote(NomadRef<Ref>),
}

/// The mirror that a prune decision is about.
pub open spec fn prune_target<Ref>(p: PruneFrom<Ref>) -> NomadRef<Ref> {
    match p {
        PruneFrom::LocalOnly(m) => m,
        PruneFrom::LocalAndRemote(m) => m,
    }
}

/// The `(user, host, branch)` triples of mirrors that the remote holds.
pub struct RemoteNomadRefSet(pub Vec<(String, String, String)>);

impl View for RemoteNomadRefSet {
    type V = Set<(Seq<char>, Seq<char>, Seq<char>)>;

    open spec fn view(&self) -> Set<(Seq<char>, Seq<char>, Seq<char>)> {
        self.0@.map_values(|t: (String, String, String)| (t.0@, t.1@, t.2@)).to_set()
    }
}

impl RemoteNomadRefSet {
    pub fn new() -> (r: RemoteNomadRefSet)
        ensures
            r@ == Set::<(Seq<char>, Seq<char>, Seq<char>)>::empty(),
    {
        let r = RemoteNomadRefSet(Vec::new());
        assert(r@ =~= Set::<(Seq<char>, Seq<char>, Seq<char>)>::empty());
        r
    }

    pub fn insert(&mut self, user: String, host: String, branch: String)
        ensures
            final(self)@ == old(self)@.insert((user@, host@, branch@)),
    {
        let ghost before = self.0@.map_values(|t: (String, String, String)| (t.0@, t.1@, t.2@));
        self.0.push((user, host, branch));
        let ghost after = self.0@.map_values(|t: (String, String, String)| (t.0@, t.1@, t.2@));
        assert(after =~= before.push((user@, host@, branch@)));
        proof {
            before.lemma_push_to_set_commute((user@, host@, branch@));
        }
    }

    /// Whether the remote holds a mirror with `nomad_ref`'s triple.
    pub fn contains<Ref>(&self, nomad_ref: &NomadRef<Ref>) -> (r: bool)
        ensures
            r == self@.contains(nomad_ref.triple()),
    {
        let ghost views = self.0@.map_values(|t: (String, String, String)| (t.0@, t.1@, t.2@));
        let mut i: usize = 0;
        while i < self.0.len()
            invariant
                i <= self.0@.len(),
                views == self.0@.map_values(|t: (String, String, String)| (t.0@, t.1@, t.2@)),
                forall|j: int| 0 <= j < i ==> views[j] != nomad_ref.triple(),
            decreases self.0@.len() - i,
        {
            let t = &self.0[i];
            if t.0 == nomad_ref.user && t.1 == nomad_ref.host && t.2 == nomad_ref.branch.0 {
                assert(views[i as int] == nomad_ref.triple());
                assert(views.contains(nomad_ref.triple()));
                return true;
            }
            i = i + 1;
        }
        assert(!views.contains(nomad_ref.triple()));
        false
    }
}

/// The branch names in `branches`.
pub open spec fn branch_names(branches: Seq<Branch>) -> Set<Seq<char>> {
    branches.map_values(|b: Branch| b.0@).to_set()
}

fn contains_branch(branches: &Vec<Branch>, branch: &Branch) -> (r: bool)
    ensures
        r == branch_names(branches@).contains(branch.0@),
{
    let ghost views = branches@.map_values(|b: Branch| b.0@);
    let mut i: usize = 0;
    while i < branches.len()
        invariant
            i <= branches@.len(),
            views == branches@.map_values(|b: Branch| b.0@),
            forall|j: int| 0 <= j < i ==> views[j] != branch.0@,
        decreases branches@.len() - i,
    {
        if branches[i].0 == branch.0 {
            assert(views[i as int] == branch.0@);
            assert(views.contains(branch.0@));
            return true;
        }
        i = i + 1;
    }
    assert(!views.contains(branch.0@));
    false
}

/// What becomes of one mirror when `host` prunes: an owned mirror whose branch is gone goes
/// everywhere, a foreign mirror that the remote no longer holds goes locally, and the rest
/// stay.
pub open spec fn prune_decision<Ref>(
    m: NomadRef<Ref>,
    branches: Set<Seq<char>>,
    host: Seq<char>,
    remote: Set<(Seq<char>, Seq<char>, Seq<char>)>,
) -> Option<PruneFrom<Ref>> {
    if m.host@ == host {
        if !branches.contains(m.branch.0@) {
            Some(PruneFrom::LocalAndRemote(m))
        } else {
            None
        }
    } else if !remote.contains(m.triple()) {
        Some(PruneFrom::LocalOnly(m))
    } else {
        None
    }
}

/// The decisions of `prune_decision` over `refs`, in order, the kept mirrors left out.
pub open spec fn prune_deleted<Ref>(
    refs: Seq<NomadRef<Ref>>,
    branches: Set<Seq<char>>,
    host: Seq<char>,
    remote: Set<(Seq<char>, Seq<char>, Seq<char>)>,
) -> Seq<PruneFrom<Ref>>
    decreases refs.len(),
{
    if refs.len() == 0 {
        Seq::empty()
    } else {
        let prev = prune_deleted(refs.drop_last(), branches, host, remote);
        match prune_decision(refs.last(), branches, host, remote) {
            Some(p) => prev.push(p),
            None => prev,
        }
    }
}

/// `LocalAndRemote` for each mirror of `refs` whose host is in `hosts`, in order.
pub open spec fn prune_hosts<Ref>(refs: Seq<NomadRef<Ref>>, hosts: Set<Seq<char>>) -> Seq<
    PruneFrom<Ref>,
>
    decreases refs.len(),
{
    if refs.len() == 0 {
        Seq::empty()
    } else {
        let prev = prune_hosts(refs.drop_last(), hosts);
        if hosts.contains(refs.last().host@) {
            prev.push(PruneFrom::LocalAndRemote(refs.last()))
        } else {
            prev
        }
    }
}

/// The view of each host in `hosts`.
pub open spec fn host_names(hosts: Seq<String>) -> Set<Seq<char>> {
    hosts.map_values(|h: String| h@).to_set()
}

/// `a` comes no later than `b` in lexicographic order, comparing from position `i` on.
pub open spec fn le_from(a: Seq<char>, b: Seq<char>, i: int) -> bool
    decreases a.len() - i,
{
    if i < 0 || i >= a.len() {
        true
    } else if i >= b.len() {
        false
    } else if a[i] as u32 != b[i] as u32 {
        (a[i] as u32) < (b[i] as u32)
    } else {
        le_from(a, b, i + 1)
    }
}

/// `a` comes no later than `b` in lexicographic order of characters.
pub open spec fn text_le(a: Seq<char>, b: Seq<char>) -> bool {
    le_from(a, b, 0)
}

proof fn lemma_le_from_total(a: Seq<char>, b: Seq<char>, i: int)
    requires
        0 <= i,
    ensures
        le_from(a, b, i) || le_from(b, a, i),
    decreases a.len() - i,
{
    if i < a.len() && i < b.len() && a[i] as u32 == b[i] as u32 {
        lemma_le_from_total(a, b, i + 1);
    }
}

proof fn lemma_le_from_transitive(a: Seq<char>, b: Seq<char>, c: Seq<char>, i: int)
    requires
        0 <= i,
        le_from(a, b, i),
        le_from(b, c, i),
    ensures
        le_from(a, c, i),
    decreases a.len() - i,
{
    if i < a.len() && a[i] as u32 == b[i] as u32 && b[i] as u32 == c[i] as u32 {
        lemma_le_from_transitive(a, b, c, i + 1);
    }
}

proof fn lemma_le_from_antisymmetric(a: Seq<char>, b: Seq<char>, i: int)
    requires
        0 <= i <= a.len(),
        i <= b.len(),
        le_from(a, b, i),
        le_from(b, a, i),
    ensures
        a.subrange(i, a.len() as int) == b.subrange(i, b.len() as int),
    decreases a.len() - i,
{
    if i < a.len() && i < b.len() {
        lemma_le_from_antisymmetric(a, b, i + 1);
        vstd::utf8::char_u32_cast(a[i], a[i] as u32);
        vstd::utf8::char_u32_cast(b[i], b[i] as u32);
        assert(a[i] == b[i]);
        assert(a.subrange(i, a.len() as int) =~= seq![a[i]] + a.subrange(i + 1, a.len() as int));
        assert(b.subrange(i, b.len() as int) =~= seq![b[i]] + b.subrange(i + 1, b.len() as int));
    } else {
        assert(a.subrange(i, a.len() as int) =~= Seq::<char>::empty());
        assert(b.subrange(i, b.len() as int) =~= Seq::<char>::empty());
    }
}

/// `a` comes strictly before `b` in lexicographic order of characters.
pub open spec fn text_lt(a: Seq<char>, b: Seq<char>) -> bool {
    text_le(a, b) && a != b
}

proof fn lemma_text_lt_transitive(a: Seq<char>, b: Seq<char>, c: Seq<char>)
    requires
        text_lt(a, b),
        text_lt(b, c),
    ensures
        text_lt(a, c),
{
    lemma_le_from_transitive(a, b, c, 0);
    if a == c {
        lemma_le_from_antisymmetric(a, b, 0);
        assert(a.subrange(0, a.len() as int) =~= a);
        assert(b.subrange(0, b.len() as int) =~= b);
    }
}

fn str_le(a: &str, b: &str) -> (r: bool)
    ensures
        r == text_le(a@, b@),
{
    let na = a.unicode_len();
    let nb = b.unicode_len();
    let mut i: usize = 0;
    while i < na && i < nb
        invariant
            na == a@.len(),
            nb == b@.len(),
            i <= na,
            i <= nb,
            le_from(a@, b@, 0) == le_from(a@, b@, i as int),
        decreases na - i,
    {
        let x = a.get_char(i);
        let y = b.get_char(i);
        if x as u32 != y as u32 {
            return (x as u32) < (y as u32);
        }
        i = i + 1;
    }
    i >= na
}

/// `a` sorts no later than `b`: by host, then by branch.
pub open spec fn mirror_le<Ref>(a: NomadRef<Ref>, b: NomadRef<Ref>) -> bool {
    if a.host@ != b.host@ {
        text_le(a.host@, b.host@)
    } else {
        text_le(a.branch.0@, b.branch.0@)
    }
}

/// Each mirror of `s` sorts no later than the next.
pub open spec fn mirrors_sorted<Ref>(s: Seq<NomadRef<Ref>>) -> bool {
    forall|i: int| 0 <= i < s.len() - 1 ==> mirror_le(#[trigger] s[i], s[i + 1])
}

/// The mirrors of every group, one group after another.
pub open spec fn flatten<Ref>(groups: Seq<(String, Vec<NomadRef<Ref>>)>) -> Seq<NomadRef<Ref>>
    decreases groups.len(),
{
    if groups.len() == 0 {
        Seq::empty()
    } else {
        flatten(groups.drop_last()) + groups.last().1@
    }
}

/// Every group is named by a host, holds at least one mirror, and only mirrors of that host;
/// the groups' hosts come in strictly increasing order, so no host has two groups.
pub open spec fn groups_by_host<Ref>(groups: Seq<(String, Vec<NomadRef<Ref>>)>) -> bool {
    &&& forall|k: int|
        0 <= k < groups.len() ==> (#[trigger] groups[k]).1@.len() > 0 && forall|j: int|
            0 <= j < groups[k].1@.len() ==> (#[trigger] groups[k].1@[j]).host@ == groups[k].0@
    &&& forall|k1: int, k2: int|
        0 <= k1 < k2 < groups.len() ==> text_lt((#[trigger] groups[k1]).0@, (#[trigger] groups[k2]).0@)
}

fn mirror_le_exec<Ref>(a: &NomadRef<Ref>, b: &NomadRef<Ref>) -> (r: bool)
    ensures
        r == mirror_le(*a, *b),
{
    if a.host == b.host {
        str_le(a.branch.0.as_str(), b.branch.0.as_str())
    } else {
        str_le(a.host.as_str(), b.host.as_str())
    }
}

proof fn lemma_mirror_le_total<Ref>(a: NomadRef<Ref>, b: NomadRef<Ref>)
    ensures
        mirror_le(a, b) || mirror_le(b, a),
{
    lemma_le_from_total(a.host@, b.host@, 0);
    lemma_le_from_total(a.branch.0@, b.branch.0@, 0);
}

/// Sorts `refs` by host, then by branch; mirrors that compare equal keep their order.
fn sort_mirrors<Ref>(refs: Vec<NomadRef<Ref>>) -> (r: Vec<NomadRef<Ref>>)
    ensures
        r@.to_multiset() == refs@.to_multiset(),
        mirrors_sorted(r@),
{
    broadcast use vstd::seq_lib::group_to_multiset_ensures;

    let ghost all = refs@;
    let mut rest = refs;
    let mut sorted: Vec<NomadRef<Ref>> = Vec::new();
    let n: usize = rest.len();
    let mut k: usize = 0;
    assert(all.subrange(0, 0) =~= Seq::<NomadRef<Ref>>::empty());
    assert(rest@ =~= all.subrange(0, all.len() as int));
    while rest.len() > 0
        invariant
            k + rest@.len() == all.len(),
            all.len() == n,
            rest@ == all.subrange(k as int, all.len() as int),
            sorted@.to_multiset() == all.subrange(0, k as int).to_multiset(),
            mirrors_sorted(sorted@),
        decreases rest@.len(),
    {
        let m = rest.remove(0);
        assert(all.subrange(0, k + 1) =~= all.subrange(0, k as int).push(m));
        assert(rest@ =~= all.subrange(k + 1, all.len() as int));
        let mut p: usize = 0;
        while p < sorted.len() && mirror_le_exec(&sorted[p], &m)
            invariant
                p <= sorted@.len(),
                p > 0 ==> mirror_le(sorted@[p - 1], m),
            decreases sorted@.len() - p,
        {
            p = p + 1;
        }
        proof {
            if p < sorted@.len() {
                lemma_mirror_le_total(sorted@[p as int], m);
            }
        }
        let ghost before = sorted@;
        sorted.insert(p, m);
        proof {
            before.insert_ensures(p as int, m);
            assert(sorted@ == before.insert(p as int, m));
            assert(sorted@.remove(p as int) =~= before);
            sorted@.to_multiset_ensures();
            assert(sorted@.remove(p as int).to_multiset() =~= sorted@.to_multiset().remove(m));
            assert(sorted@.contains(m)) by {
                assert(sorted@[p as int] == m);
            }
            assert(sorted@.to_multiset().count(m) > 0);
            assert(sorted@.to_multiset() =~= before.to_multiset().insert(m));
            let done = all.subrange(0, k as int);
            done.to_multiset_ensures();
            assert(done.push(m).to_multiset() =~= done.to_multiset().insert(m));
            assert(all.subrange(0, k + 1).to_multiset() == sorted@.to_multiset());
            assert forall|i: int| 0 <= i < sorted@.len() - 1 implies mirror_le(
                #[trigger] sorted@[i],
                sorted@[i + 1],
            ) by {
                if i < p - 1 {
                    assert(sorted@[i] == before[i] && sorted@[i + 1] == before[i + 1]);
                } else if i == p - 1 {
                } else if i == p {
                } else {
                    assert(sorted@[i] == before[i - 1] && sorted@[i + 1] == before[i]);
                }
            }
        }
        k = k + 1;
    }
    assert(all.subrange(0, k as int) =~= all);
    sorted
}

/// The local branches and local mirrors of one user's clone. Every mirror belongs to that
/// user.
pub struct Snapshot<Ref> {
    user: String,
    local_branches: Vec<Branch>,
    nomad_refs: Vec<NomadRef<Ref>>,
}

impl<Ref> Snapshot<Ref> {
    #[verifier::type_invariant]
    spec fn user_isolated(&self) -> bool {
        forall|i: int| 0 <= i < self.nomad_refs@.len() ==> #[trigger] self.nomad_refs@[i].user@ == self.user@
    }

    /// The user that the snapshot is scoped under.
    pub closed spec fn user_view(&self) -> Seq<char> {
        self.user@
    }

    /// The names of the branches of the clone.
    pub closed spec fn branches_view(&self) -> Set<Seq<char>> {
        branch_names(self.local_branches@)
    }

    /// The mirrors in the clone, in the order of the listing they came from.
    pub closed spec fn refs_view(&self) -> Seq<NomadRef<Ref>> {
        self.nomad_refs@
    }

    /// Builds a snapshot of `user`'s clone; every mirror must belong to `user`.
    pub fn new(user: &String, local_branches: Vec<Branch>, nomad_refs: Vec<NomadRef<Ref>>) -> (r:
        Self)
        requires
            forall|i: int| 0 <= i < nomad_refs@.len() ==> #[trigger] nomad_refs@[i].user@ == user@,
        ensures
            r.user_view() == user@,
            r.branches_view() == branch_names(local_branches@),
            r.refs_view() == nomad_refs@,
    {
        Snapshot { user: user.clone(), local_branches, nomad_refs }
    }

    /// The user that the snapshot is scoped under; every mirror of the snapshot belongs to
    /// that user.
    pub fn user(&self) -> (r: &String)
        ensures
            r@ == self.user_view(),
            forall|i: int|
                0 <= i < self.refs_view().len() ==> #[trigger] self.refs_view()[i].user@
                    == self.user_view(),
    {
        proof {
            use_type_invariant(self);
        }
        &self.user
    }

    /// Groups the mirrors by host: hosts in order, and within each host the mirrors in order
    /// of branch.
    pub fn sorted_hosts_and_branches(self) -> (r: Vec<(String, Vec<NomadRef<Ref>>)>)
        ensures
            flatten(r@).to_multiset() == self.refs_view().to_multiset(),
            mirrors_sorted(flatten(r@)),
            groups_by_host(r@),
    {
        let Snapshot { user: _, local_branches: _, nomad_refs } = self;
        let sorted = sort_mirrors(nomad_refs);
        let ghost all = sorted@;
        let mut rest = sorted;
        let mut groups: Vec<(String, Vec<NomadRef<Ref>>)> = Vec::new();
        let mut cur: Vec<NomadRef<Ref>> = Vec::new();
        let mut cur_host = String::new();
        let n: usize = rest.len();
        let mut k: usize = 0;
        assert(rest@ =~= all.subrange(0, all.len() as int));
        assert(flatten(groups@) + cur@ =~= all.subrange(0, 0));
        while rest.len() > 0
            invariant
                k + rest@.len() == all.len(),
                all.len() == n,
                rest@ == all.subrange(k as int, all.len() as int),
                mirrors_sorted(all),
                flatten(groups@) + cur@ == all.subrange(0, k as int),
                groups_by_host(groups@),
                forall|j: int| 0 <= j < cur@.len() ==> (#[trigger] cur@[j]).host@ == cur_host@,
                k > 0 ==> cur@.len() > 0,
                k == 0 ==> groups@.len() == 0 && cur@.len() == 0,
                forall|q: int| 0 <= q < groups@.len() ==> text_lt((#[trigger] groups@[q]).0@, cur_host@),
            decreases rest@.len(),
        {
            let m = rest.remove(0);
            assert(rest@ =~= all.subrange(k + 1, all.len() as int));
            assert(all[k as int] == m);
            if cur.len() > 0 && !(m.host == cur_host) {
                let ghost before = groups@;
                let full = cur;
                cur = Vec::new();
                let host = cur_host;
                cur_host = m.host.clone();
                proof {
                    let done = flatten(before) + full@;
                    assert(done == all.subrange(0, k as int));
                    assert(done.len() == k);
                    assert(done[k - 1] == full@[full@.len() - 1]);
                    assert(all[k - 1] == full@.last());
                    assert(mirror_le(all[k - 1], all[k as int]));
                }
                groups.push((host, full));
                proof {
                    let g = groups@;
                    assert(g.drop_last() =~= before);
                    assert forall|q: int| 0 <= q < g.len() implies (#[trigger] g[q]).1@.len() > 0
                        && forall|j: int|
                        0 <= j < g[q].1@.len() ==> (#[trigger] g[q].1@[j]).host@ == g[q].0@ by {
                        if q < before.len() {
                            assert(g[q] == before[q]);
                        }
                    }
                    assert forall|q1: int, q2: int| 0 <= q1 < q2 < g.len() implies text_lt(
                        (#[trigger] g[q1]).0@,
                        (#[trigger] g[q2]).0@,
                    ) by {
                        assert(g[q1] == before[q1]);
                        if q2 < before.len() {
                            assert(g[q2] == before[q2]);
                        }
                    }
                    assert forall|q: int| 0 <= q < g.len() implies text_lt(
                        (#[trigger] g[q]).0@,
                        m.host@,
                    ) by {
                        if q < before.len() {
                            assert(g[q] == before[q]);
                            lemma_text_lt_transitive(before[q].0@, host@, m.host@);
                        }
                    }
                }
            } else if cur.len() == 0 {
                cur_host = m.host.clone();
            }
            cur.push(m);
            assert(flatten(groups@) + cur@ =~= all.subrange(0, k + 1));
            k = k + 1;
        }
        if cur.len() > 0 {
            let ghost before = groups@;
            groups.push((cur_host, cur));
            proof {
                let g = groups@;
                assert(g.drop_last() =~= before);
                assert forall|q: int| 0 <= q < g.len() implies (#[trigger] g[q]).1@.len() > 0
                    && forall|j: int|
                    0 <= j < g[q].1@.len() ==> (#[trigger] g[q].1@[j]).host@ == g[q].0@ by {
                    if q < before.len() {
                        assert(g[q] == before[q]);
                    }
                }
                assert forall|q1: int, q2: int| 0 <= q1 < q2 < g.len() implies text_lt(
                    (#[trigger] g[q1]).0@,
                    (#[trigger] g[q2]).0@,
                ) by {
                    assert(g[q1] == before[q1]);
                    if q2 < before.len() {
                        assert(g[q2] == before[q2]);
                    }
                }
            }
        }
        assert(all.subrange(0, k as int) =~= all);
        assert(flatten(groups@) =~= all);
        groups
    }

    /// Finds the mirrors to prune after a sync from `host`: owned mirrors whose local branch
    /// was deleted (from both sides), and foreign mirrors that the remote no longer holds
    /// (locally only).
    pub fn prune_deleted_branches(self, host: &String, remote_nomad_refs: &RemoteNomadRefSet) -> (r:
        Vec<PruneFrom<Ref>>)
        ensures
            r@ == prune_deleted(
                self.refs_view(),
                self.branches_view(),
                host@,
                remote_nomad_refs@,
            ),
    {
        let ghost refs = self.nomad_refs@;
        let ghost branches = self.branches_view();
        let Snapshot { user: _, local_branches, nomad_refs } = self;
        let mut rest = nomad_refs;
        let mut prune: Vec<PruneFrom<Ref>> = Vec::new();
        let mut k: usize = 0;
        let n: usize = rest.len();
        assert(refs.subrange(0, 0) =~= Seq::<NomadRef<Ref>>::empty());
        assert(rest@ =~= refs.subrange(0, refs.len() as int));
        while rest.len() > 0
            invariant
                k + rest@.len() == refs.len(),
                refs.len() == n,
                rest@ == refs.subrange(k as int, refs.len() as int),
                branches == branch_names(local_branches@),
                prune@ == prune_deleted(
                    refs.subrange(0, k as int),
                    branches,
                    host@,
                    remote_nomad_refs@,
                ),
            decreases rest@.len(),
        {
            let nomad_ref = rest.remove(0);
            let ghost done = refs.subrange(0, k + 1);
            assert(done.drop_last() =~= refs.subrange(0, k as int));
            assert(done.last() == nomad_ref);
            assert(rest@ =~= refs.subrange(k + 1, refs.len() as int));
            if nomad_ref.host == *host {
                if !contains_branch(&local_branches, &nomad_ref.branch) {
                    prune.push(PruneFrom::LocalAndRemote(nomad_ref));
                }
            } else if !remote_nomad_refs.contains(&nomad_ref) {
                prune.push(PruneFrom::LocalOnly(nomad_ref));
            }
            k = k + 1;
        }
        assert(refs.subrange(0, k as int) =~= refs);
        prune
    }

    /// Prunes every mirror, from both sides.
    pub fn prune_all(self) -> (r: Vec<PruneFrom<Ref>>)
        ensures
            r@ == self.refs_view().map_values(|m: NomadRef<Ref>| PruneFrom::LocalAndRemote(m)),
    {
        let ghost refs = self.nomad_refs@;
        let Snapshot { user: _, local_branches: _, nomad_refs } = self;
        let mut rest = nomad_refs;
        let mut prune: Vec<PruneFrom<Ref>> = Vec::new();
        let mut k: usize = 0;
        let n: usize = rest.len();
        assert(rest@ =~= refs.subrange(0, refs.len() as int));
        while rest.len() > 0
            invariant
                k + rest@.len() == refs.len(),
                refs.len() == n,
                rest@ == refs.subrange(k as int, refs.len() as int),
                prune@ == refs.subrange(0, k as int).map_values(
                    |m: NomadRef<Ref>| PruneFrom::LocalAndRemote(m),
                ),
            decreases rest@.len(),
        {
            let nomad_ref = rest.remove(0);
            assert(rest@ =~= refs.subrange(k + 1, refs.len() as int));
            prune.push(PruneFrom::LocalAndRemote(nomad_ref));
            assert(prune@ =~= refs.subrange(0, k + 1).map_values(
                |m: NomadRef<Ref>| PruneFrom::LocalAndRemote(m),
            ));
            k = k + 1;
        }
        assert(refs.subrange(0, k as int) =~= refs);
        prune
    }

    /// Prunes, from both sides, every mirror whose host is one of `hosts`.
    pub fn prune_all_by_hosts(self, hosts: &Vec<String>) -> (r: Vec<PruneFrom<Ref>>)
        ensures
            r@ == prune_hosts(self.refs_view(), host_names(hosts@)),
    {
        let ghost refs = self.nomad_refs@;
        let Snapshot { user: _, local_branches: _, nomad_refs } = self;
        let mut rest = nomad_refs;
        let mut prune: Vec<PruneFrom<Ref>> = Vec::new();
        let mut k: usize = 0;
        let n: usize = rest.len();
        assert(refs.subrange(0, 0) =~= Seq::<NomadRef<Ref>>::empty());
        assert(rest@ =~= refs.subrange(0, refs.len() as int));
        while rest.len() > 0
            invariant
                k + rest@.len() == refs.len(),
                refs.len() == n,
                rest@ == refs.subrange(k as int, refs.len() as int),
                prune@ == prune_hosts(refs.subrange(0, k as int), host_names(hosts@)),
            decreases rest@.len(),
        {
            let nomad_ref = rest.remove(0);
            let ghost done = refs.subrange(0, k + 1);
            assert(done.drop_last() =~= refs.subrange(0, k as int));
            assert(done.last() == nomad_ref);
            assert(rest@ =~= refs.subrange(k + 1, refs.len() as int));
            if contains_host(hosts, &nomad_ref.host) {
                prune.push(PruneFrom::LocalAndRemote(nomad_ref));
            }
            k = k + 1;
        }
        assert(refs.subrange(0, k as int) =~= refs);
        prune
    }
}

proof fn lemma_prune_deleted_sources<Ref>(
    refs: Seq<NomadRef<Ref>>,
    branches: Set<Seq<char>>,
    host: Seq<char>,
    remote: Set<(Seq<char>, Seq<char>, Seq<char>)>,
)
    ensures
        forall|i: int|
            0 <= i < prune_deleted(refs, branches, host, remote).len() ==> exists|j: int|
                0 <= j < refs.len() && prune_decision(refs[j], branches, host, remote) == Some(
                    #[trigger] prune_deleted(refs, branches, host, remote)[i],
                ),
    decreases refs.len(),
{
    if refs.len() > 0 {
        let init = refs.drop_last();
        lemma_prune_deleted_sources(init, branches, host, remote);
        let prev = prune_deleted(init, branches, host, remote);
        let r = prune_deleted(refs, branches, host, remote);
        assert forall|i: int| 0 <= i < r.len() implies exists|j: int|
            0 <= j < refs.len() && prune_decision(refs[j], branches, host, remote) == Some(
                #[trigger] r[i],
            ) by {
            if i < prev.len() {
                assert(r[i] == prev[i]);
                let j = choose|j: int|
                    0 <= j < init.len() && prune_decision(init[j], branches, host, remote) == Some(
                        prev[i],
                    );
                assert(init[j] == refs[j]);
            } else {
                assert(prune_decision(refs[refs.len() - 1], branches, host, remote) == Some(r[i]));
            }
        }
    }
}

/// A mirror owned by `host` is pruned only from both sides and only when its branch is gone
/// from the clone; an owned mirror whose branch still exists is kept.
pub proof fn lemma_prune_owned<Ref>(
    snapshot: Snapshot<Ref>,
    host: Seq<char>,
    remote: Set<(Seq<char>, Seq<char>, Seq<char>)>,
)
    ensures
        ({
            let refs = snapshot.refs_view();
            let branches = snapshot.branches_view();
            let r = prune_deleted(refs, branches, host, remote);
            &&& forall|i: int|
                0 <= i < r.len() && prune_target(#[trigger] r[i]).host@ == host ==> r[i] is LocalAndRemote
                    && !branches.contains(prune_target(r[i]).branch.0@)
            &&& forall|i: int, j: int|
                0 <= i < r.len() && 0 <= j < refs.len() && refs[j].host@ == host
                    && branches.contains(refs[j].branch.0@) ==> prune_target(#[trigger] r[i])
                    != #[trigger] refs[j]
        }),
{
    let refs = snapshot.refs_view();
    let branches = snapshot.branches_view();
    lemma_prune_deleted_sources(refs, branches, host, remote);
}

/// A mirror of another host is pruned only locally and only when the remote no longer holds
/// its triple; a foreign mirror that the remote still holds is kept.
pub proof fn lemma_prune_foreign<Ref>(
    snapshot: Snapshot<Ref>,
    host: Seq<char>,
    remote: Set<(Seq<char>, Seq<char>, Seq<char>)>,
)
    ensures
        ({
            let refs = snapshot.refs_view();
            let branches = snapshot.branches_view();
            let r = prune_deleted(refs, branches, host, remote);
            &&& forall|i: int|
                0 <= i < r.len() && prune_target(#[trigger] r[i]).host@ != host ==> r[i] is LocalOnly
                    && !remote.contains(prune_target(r[i]).triple())
            &&& forall|i: int, j: int|
                0 <= i < r.len() && 0 <= j < refs.len() && refs[j].host@ != host
                    && remote.contains(refs[j].triple()) ==> prune_target(#[trigger] r[i])
                    != #[trigger] refs[j]
        }),
{
    let refs = snapshot.refs_view();
    let branches = snapshot.branches_view();
    lemma_prune_deleted_sources(refs, branches, host, remote);
}

fn contains_host(hosts: &Vec<String>, host: &String) -> (r: bool)
    ensures
        r == host_names(hosts@).contains(host@),
{
    let ghost views = hosts@.map_values(|h: String| h@);
    let mut i: usize = 0;
    while i < hosts.len()
        invariant
            i <= hosts@.len(),
            views == hosts@.map_values(|h: String| h@),
            forall|j: int| 0 <= j < i ==> views[j] != host@,
        decreases hosts@.len() - i,
    {
        if hosts[i] == *host {
            assert(views[i as int] == host@);
            assert(views.contains(host@));
            return true;
        }
        i = i + 1;
    }
    assert(!views.contains(host@));
    false
}

} // verus!
