use vstd::prelude::*;

use crate::owners::{controller_owners, get_owners, owner_kind, owner_kind_spec, ResourceKind};
use crate::pod::{ObjectMeta, OwnerReference};

verus! {

/// An object of the owner chain, as fetched from the cluster.
#[derive(Clone, Debug)]
pub struct ResolvedResource {
    pub kind: ResourceKind,
    pub meta: ObjectMeta,
}

/// Walks a pod's controlling owners upward, one fetch at a time.
///
/// The caller asks `next_owner` for the next owner to fetch, fetches it and
/// hands it back through `add_resolved`; once `next_owner` reports that the
/// walk is complete or stopped at an unknown kind, `deletion_order` gives
/// the teardown order. A
/// fetch that fails aborts the walk: the caller drops the resolver.
pub struct OwnerChainResolver {
    /// Namespace in which the owners are fetched.
    pub namespace: String,
    /// Owners still to fetch; the last one is taken first.
    pub pending: Vec<OwnerReference>,
    /// The resolved objects, the pod first.
    pub chain: Vec<ResolvedResource>,
}

/// What the walk asks of its caller next.
#[derive(Clone, Debug)]
pub enum OwnerStep {
    /// Fetch this owner, of this kind, and hand it back with `add_resolved`.
    Fetch(ResourceKind, OwnerReference),
    /// The walk stopped at this owner, whose kind it does not follow; the
    /// owner and everything above it are left alone. This is no error.
    Unrecognized(OwnerReference),
    /// Every controlling owner has been resolved.
    Complete,
}

/// The abstract state of a resolver.
pub struct ChainState {
    pub namespace: Seq<char>,
    pub pending: Seq<OwnerReference>,
    pub chain: Seq<ResolvedResource>,
}

impl View for OwnerChainResolver {
    type V = ChainState;

    open spec fn view(&self) -> ChainState {
        ChainState { namespace: self.namespace@, pending: self.pending@, chain: self.chain@ }
    }
}

/// The state in which the walk from a pod starts: the pod alone in the
/// chain and its controlling owners pending. Owners are fetched in the
/// pod's namespace, `default` when it has none.
pub open spec fn start_state(pod: ObjectMeta) -> ChainState {
    ChainState {
        namespace: match pod.namespace {
            Some(ns) => ns@,
            None => "default"@,
        },
        pending: controller_owners(pod.owner_references),
        chain: seq![ResolvedResource { kind: ResourceKind::Pod, meta: pod }],
    }
}

/// `r` is the object of kind `kind` named `name`.
pub open spec fn resolved_as(r: ResolvedResource, kind: ResourceKind, name: Seq<char>) -> bool {
    r.kind == kind && r.meta.name is Some && r.meta.name->0@ == name
}

/// The chain already holds the object of kind `kind` named `name`.
pub open spec fn is_resolved(chain: Seq<ResolvedResource>, kind: ResourceKind, name: Seq<char>) -> bool {
    exists|i: int| 0 <= i < chain.len() && #[trigger] resolved_as(chain[i], kind, name)
}

/// No object appears twice in the chain.
pub open spec fn unique_chain(chain: Seq<ResolvedResource>) -> bool {
    forall|i: int, j: int|
        0 <= i < j < chain.len() && chain[j].meta.name is Some ==> !resolved_as(
            chain[i],
            chain[j].kind,
            chain[j].meta.name->0@,
        )
}

/// One step of the walk: the most recently added pending owner is taken.
/// If its kind is not recognized, the walk stops there and every owner
/// still pending is dropped. If it is already in the chain, it is passed
/// over. Otherwise it is to be fetched. With nothing pending the walk is
/// complete.
pub open spec fn next_state(s: ChainState) -> (ChainState, OwnerStep)
    decreases s.pending.len(),
{
    if s.pending.len() == 0 {
        (s, OwnerStep::Complete)
    } else {
        let owner = s.pending.last();
        let rest = ChainState { pending: s.pending.drop_last(), ..s };
        match owner_kind_spec(owner.kind@) {
            None => (ChainState { pending: Seq::empty(), ..s }, OwnerStep::Unrecognized(owner)),
            Some(kind) => if is_resolved(s.chain, kind, owner.name@) {
                next_state(rest)
            } else {
                (rest, OwnerStep::Fetch(kind, owner))
            },
        }
    }
}

/// A fetched owner joins the chain, and its own controlling owners become
/// pending, to be taken before those that were pending already. An object
/// that the chain holds already changes nothing.
pub open spec fn fetched_state(s: ChainState, kind: ResourceKind, meta: ObjectMeta) -> ChainState {
    if meta.name is Some && is_resolved(s.chain, kind, meta.name->0@) {
        s
    } else {
        ChainState {
            pending: s.pending + controller_owners(meta.owner_references),
            chain: s.chain.push(ResolvedResource { kind, meta }),
            ..s
        }
    }
}

/// The walk run against a cluster that holds the objects of `cluster`, keyed
/// by kind and name, for at most `fuel` fetches. It ends when the walk is
/// complete or stops at an unknown kind, and early when an owner cannot be
/// fetched or the fuel runs out.
pub open spec fn walk(
    s: ChainState,
    cluster: Map<(ResourceKind, Seq<char>), ObjectMeta>,
    fuel: nat,
) -> ChainState
    decreases fuel,
{
    let (t, step) = next_state(s);
    match step {
        OwnerStep::Fetch(kind, owner) => if fuel > 0 && cluster.contains_key((kind, owner.name@)) {
            walk(fetched_state(t, kind, cluster[(kind, owner.name@)]), cluster, (fuel - 1) as nat)
        } else {
            t
        },
        _ => t,
    }
}

/// The order in which a resolved chain is deleted: the farthest ancestor
/// first, the pod last.
pub open spec fn deletion_order_of(s: ChainState) -> Seq<ResolvedResource> {
    s.chain.reverse()
}

/// Whether `chain` holds the object of kind `kind` named `name`.
fn contains_resolved(chain: &Vec<ResolvedResource>, kind: ResourceKind, name: &String) -> (r: bool)
    ensures
        r == is_resolved(chain@, kind, name@),
{
    let mut i: usize = 0;
    while i < chain.len()
        invariant
            i <= chain.len(),
            forall|j: int| 0 <= j < i ==> !#[trigger] resolved_as(chain@[j], kind, name@),
        decreases chain.len() - i,
    {
        let r = &chain[i];
        if r.kind == kind {
            if let Some(n) = &r.meta.name {
                if *n == *name {
                    assert(resolved_as(chain@[i as int], kind, name@));
                    return true;
                }
            }
        }
        i = i + 1;
    }
    false
}

impl OwnerChainResolver {
    /// Starts the walk from a pod's metadata.
    pub fn new(pod: ObjectMeta) -> (r: OwnerChainResolver)
        ensures
            r@ == start_state(pod),
            unique_chain(r@.chain),
    {
        let namespace = match &pod.namespace {
            Some(ns) => ns.clone(),
            None => String::from_str("default"),
        };
        let pending = get_owners(&pod);
        let mut chain: Vec<ResolvedResource> = Vec::new();
        chain.push(ResolvedResource { kind: ResourceKind::Pod, meta: pod });
        let r = OwnerChainResolver { namespace, pending, chain };
        assert(r@.chain =~= start_state(pod).chain);
        r
    }

    /// The next step of the walk: an owner to fetch, the owner of unknown
    /// kind at which the walk stops, or the end of the walk.
    pub fn next_owner(&mut self) -> (r: OwnerStep)
        ensures
            (final(self)@, r) == next_state(old(self)@),
    {
        loop
            invariant
                next_state(self@) == next_state(old(self)@),
            decreases self.pending.len(),
        {
            let ghost before = self@;
            match self.pending.pop() {
                None => {
                    return OwnerStep::Complete;
                },
                Some(owner) => match owner_kind(&owner.kind) {
                    None => {
                        self.pending.clear();
                        assert(self@ =~= next_state(before).0);
                        return OwnerStep::Unrecognized(owner);
                    },
                    Some(kind) => {
                        assert(self@ =~= (ChainState { pending: before.pending.drop_last(), ..before }));
                        if !contains_resolved(&self.chain, kind, &owner.name) {
                            return OwnerStep::Fetch(kind, owner);
                        }
                    },
                },
            }
        }
    }

    /// Records a fetched owner.
    pub fn add_resolved(&mut self, kind: ResourceKind, meta: ObjectMeta)
        ensures
            final(self)@ == fetched_state(old(self)@, kind, meta),
            unique_chain(old(self)@.chain) ==> unique_chain(final(self)@.chain),
    {
        if let Some(name) = &meta.name {
            if contains_resolved(&self.chain, kind, name) {
                return;
            }
        }
        let ghost old_chain = self.chain@;
        let mut owners = get_owners(&meta);
        self.pending.append(&mut owners);
        self.chain.push(ResolvedResource { kind, meta });
        proof {
            let c = self.chain@;
            if unique_chain(old_chain) {
                assert forall|i: int, j: int|
                    0 <= i < j < c.len() && c[j].meta.name is Some implies !resolved_as(
                    c[i],
                    c[j].kind,
                    c[j].meta.name->0@,
                ) by {
                    if j == c.len() - 1 {
                        if resolved_as(c[i], c[j].kind, c[j].meta.name->0@) {
                            assert(resolved_as(old_chain[i], kind, meta.name->0@));
                        }
                    } else {
                        assert(c[i] == old_chain[i] && c[j] == old_chain[j]);
                    }
                }
            }
        }
    }

    /// The resolved chain in deletion order.
    pub fn deletion_order(self) -> (r: Vec<ResolvedResource>)
        ensures
            r@ == deletion_order_of(self@),
    {
        let ghost chain = self.chain@;
        let mut rest = self.chain;
        let mut order: Vec<ResolvedResource> = Vec::new();
        while rest.len() > 0
            invariant
                rest@ == chain.subrange(0, rest.len() as int),
                order@ == chain.subrange(rest.len() as int, chain.len() as int).reverse(),
                rest.len() <= chain.len(),
            decreases rest.len(),
        {
            let ghost k = rest.len();
            let item = rest.pop().unwrap();
            order.push(item);
            assert(order@ =~= chain.subrange(k - 1, chain.len() as int).reverse());
        }
        assert(chain.subrange(0, chain.len() as int) =~= chain);
        order
    }
}

/// The walk stops, without error, at the first owner whose kind is not
/// recognized: that owner and everything above it are never fetched, every
/// owner still pending is dropped, and the chain resolved so far, and only
/// it, is deleted. The stop is final: another step changes nothing.
pub proof fn lemma_walk_stops_at_unknown_kind(
    s: ChainState,
    cluster: Map<(ResourceKind, Seq<char>), ObjectMeta>,
    fuel: nat,
)
    requires
        s.pending.len() > 0,
        owner_kind_spec(s.pending.last().kind@) is None,
    ensures
        next_state(s) == (
            ChainState { pending: Seq::empty(), ..s },
            OwnerStep::Unrecognized(s.pending.last()),
        ),
        walk(s, cluster, fuel) == (ChainState { pending: Seq::empty(), ..s }),
        deletion_order_of(walk(s, cluster, fuel)) == s.chain.reverse(),
        next_state(walk(s, cluster, fuel)) == (walk(s, cluster, fuel), OwnerStep::Complete),
{
}

/// The walk from `s` ends by itself within `fuel` fetches: it completes or
/// stops at an unknown kind, without running out of fuel and without
/// meeting an owner that the cluster does not hold.
pub open spec fn walk_finishes(
    s: ChainState,
    cluster: Map<(ResourceKind, Seq<char>), ObjectMeta>,
    fuel: nat,
) -> bool
    decreases fuel,
{
    let (t, step) = next_state(s);
    match step {
        OwnerStep::Fetch(kind, owner) => fuel > 0 && cluster.contains_key((kind, owner.name@))
            && walk_finishes(
            fetched_state(t, kind, cluster[(kind, owner.name@)]),
            cluster,
            (fuel - 1) as nat,
        ),
        _ => true,
    }
}

proof fn lemma_next_keeps_chain(s: ChainState)
    ensures
        next_state(s).0.chain == s.chain,
        next_state(s).0.namespace == s.namespace,
        !(next_state(s).1 is Fetch) ==> next_state(s).0.pending.len() == 0,
    decreases s.pending.len(),
{
    if s.pending.len() > 0 {
        lemma_next_keeps_chain(ChainState { pending: s.pending.drop_last(), ..s });
    }
}

proof fn lemma_walk_keeps_prefix(
    s: ChainState,
    cluster: Map<(ResourceKind, Seq<char>), ObjectMeta>,
    fuel: nat,
)
    ensures
        walk(s, cluster, fuel).chain.len() >= s.chain.len(),
        walk(s, cluster, fuel).chain.subrange(0, s.chain.len() as int) == s.chain,
    decreases fuel,
{
    lemma_next_keeps_chain(s);
    let (t, step) = next_state(s);
    match step {
        OwnerStep::Fetch(kind, owner) => {
            if fuel > 0 && cluster.contains_key((kind, owner.name@)) {
                let u = fetched_state(t, kind, cluster[(kind, owner.name@)]);
                lemma_walk_keeps_prefix(u, cluster, (fuel - 1) as nat);
                let w = walk(u, cluster, (fuel - 1) as nat);
                assert(u.chain.subrange(0, s.chain.len() as int) =~= s.chain);
                assert(w.chain.subrange(0, s.chain.len() as int) =~= u.chain.subrange(
                    0,
                    s.chain.len() as int,
                ));
            } else {
                assert(t.chain.subrange(0, s.chain.len() as int) =~= s.chain);
            }
        },
        _ => {
            assert(t.chain.subrange(0, s.chain.len() as int) =~= s.chain);
        },
    }
}

proof fn lemma_finished_walk(
    s: ChainState,
    cluster: Map<(ResourceKind, Seq<char>), ObjectMeta>,
    fuel: nat,
    more: nat,
)
    requires
        walk_finishes(s, cluster, fuel),
    ensures
        walk(s, cluster, fuel).pending.len() == 0,
        walk_finishes(s, cluster, fuel + more),
        walk(s, cluster, fuel + more) == walk(s, cluster, fuel),
    decreases fuel,
{
    lemma_next_keeps_chain(s);
    let (t, step) = next_state(s);
    match step {
        OwnerStep::Fetch(kind, owner) => {
            let u = fetched_state(t, kind, cluster[(kind, owner.name@)]);
            lemma_finished_walk(u, cluster, (fuel - 1) as nat, more);
            assert((fuel + more - 1) as nat == ((fuel - 1) as nat + more) as nat);
        },
        _ => {},
    }
}

/// Resolving a pod's owner chain against the same cluster gives the same
/// deletion order however often it is done: once the walk has finished, a
/// larger fetch budget changes nothing, and walking the finished chain again
/// fetches nothing and changes nothing. The pod is always deleted last.
pub proof fn lemma_walk_repeatable(
    pod: ObjectMeta,
    cluster: Map<(ResourceKind, Seq<char>), ObjectMeta>,
    fuel: nat,
    more: nat,
    again: nat,
)
    requires
        walk_finishes(start_state(pod), cluster, fuel),
    ensures
        walk(start_state(pod), cluster, fuel + more) == walk(start_state(pod), cluster, fuel),
        next_state(walk(start_state(pod), cluster, fuel)) == (
            walk(start_state(pod), cluster, fuel),
            OwnerStep::Complete,
        ),
        walk(walk(start_state(pod), cluster, fuel), cluster, again) == walk(
            start_state(pod),
            cluster,
            fuel,
        ),
        deletion_order_of(walk(start_state(pod), cluster, fuel)).last() == (ResolvedResource {
            kind: ResourceKind::Pod,
            meta: pod,
        }),
{
    let s = start_state(pod);
    let w = walk(s, cluster, fuel);
    lemma_finished_walk(s, cluster, fuel, more);
    lemma_walk_keeps_prefix(s, cluster, fuel);
    assert(w.chain[0] == w.chain.subrange(0, 1)[0]);
    assert(next_state(w).0 == w);
    assert(w.chain.reverse().last() == w.chain[0]);
}

proof fn lemma_skip_resolved(s: ChainState)
    requires
        forall|i: int|
            0 <= i < s.pending.len() ==> #[trigger] owner_kind_spec(s.pending[i].kind@) is Some
                && is_resolved(s.chain, owner_kind_spec(s.pending[i].kind@)->0, s.pending[i].name@),
    ensures
        next_state(s) == (ChainState { pending: Seq::empty(), ..s }, OwnerStep::Complete),
    decreases s.pending.len(),
{
    if s.pending.len() == 0 {
        assert(s.pending =~= Seq::<OwnerReference>::empty());
    } else {
        let rest = ChainState { pending: s.pending.drop_last(), ..s };
        assert(owner_kind_spec(s.pending[s.pending.len() - 1].kind@) is Some);
        assert forall|i: int| 0 <= i < rest.pending.len() implies #[trigger] owner_kind_spec(
            rest.pending[i].kind@,
        ) is Some && is_resolved(
            rest.chain,
            owner_kind_spec(rest.pending[i].kind@)->0,
            rest.pending[i].name@,
        ) by {
            assert(rest.pending[i] == s.pending[i]);
        }
        lemma_skip_resolved(rest);
    }
}

/// A pod controlled by a Job that is controlled by a Deployment, itself
/// without controller, is deleted Deployment first, then the Job, then the
/// pod. This holds however many times the pod lists the Job's reference:
/// an owner already in the chain is not fetched again. Walking the finished
/// chain again changes nothing.
pub proof fn lemma_job_deployment_chain(
    pod: ObjectMeta,
    job_ref: OwnerReference,
    copies: nat,
    job: ObjectMeta,
    deployment: ObjectMeta,
    cluster: Map<(ResourceKind, Seq<char>), ObjectMeta>,
    fuel: nat,
    more: nat,
)
    requires
        copies >= 1,
        controller_owners(pod.owner_references) == Seq::new(copies, |i: int| job_ref),
        job_ref.kind@ == "Job"@,
        cluster.contains_key((ResourceKind::Job, job_ref.name@)),
        cluster[(ResourceKind::Job, job_ref.name@)] == job,
        job.name is Some,
        job.name->0@ == job_ref.name@,
        controller_owners(job.owner_references).len() == 1,
        controller_owners(job.owner_references)[0].kind@ == "Deployment"@,
        cluster.contains_key(
            (ResourceKind::Deployment, controller_owners(job.owner_references)[0].name@),
        ),
        cluster[(ResourceKind::Deployment, controller_owners(job.owner_references)[0].name@)]
            == deployment,
        controller_owners(deployment.owner_references).len() == 0,
        fuel >= 2,
    ensures
        deletion_order_of(walk(start_state(pod), cluster, fuel)) == seq![
            ResolvedResource { kind: ResourceKind::Deployment, meta: deployment },
            ResolvedResource { kind: ResourceKind::Job, meta: job },
            ResolvedResource { kind: ResourceKind::Pod, meta: pod },
        ],
        walk(walk(start_state(pod), cluster, fuel), cluster, more) == walk(
            start_state(pod),
            cluster,
            fuel,
        ),
{
    reveal_strlit("Job");
    reveal_strlit("Deployment");
    reveal_strlit("ReplicaSet");
    assert("Deployment"@.len() != "Job"@.len());
    assert("Deployment"@[0] != "ReplicaSet"@[0]);
    let s0 = start_state(pod);
    let dep_ref = controller_owners(job.owner_references)[0];
    let jobs = Seq::new((copies - 1) as nat, |i: int| job_ref);
    assert(owner_kind_spec(job_ref.kind@) == Some(ResourceKind::Job));
    assert(owner_kind_spec(dep_ref.kind@) == Some(ResourceKind::Deployment));
    assert(!resolved_as(s0.chain[0], ResourceKind::Job, job_ref.name@));
    let s1 = next_state(s0).0;
    assert(next_state(s0).1 == OwnerStep::Fetch(ResourceKind::Job, job_ref));
    assert(s1.pending =~= jobs);
    let s2 = fetched_state(s1, ResourceKind::Job, job);
    assert(!resolved_as(s1.chain[0], ResourceKind::Job, job_ref.name@));
    assert(s2.pending =~= jobs.push(dep_ref));
    assert(!resolved_as(s2.chain[0], ResourceKind::Deployment, dep_ref.name@));
    assert(!resolved_as(s2.chain[1], ResourceKind::Deployment, dep_ref.name@));
    let s3 = next_state(s2).0;
    assert(next_state(s2).1 == OwnerStep::Fetch(ResourceKind::Deployment, dep_ref));
    assert(s3.pending =~= jobs);
    let s4 = fetched_state(s3, ResourceKind::Deployment, deployment);
    if deployment.name is Some {
        assert(!resolved_as(s3.chain[0], ResourceKind::Deployment, deployment.name->0@));
        assert(!resolved_as(s3.chain[1], ResourceKind::Deployment, deployment.name->0@));
    }
    assert(s4.pending =~= jobs);
    assert(resolved_as(s4.chain[1], ResourceKind::Job, job_ref.name@));
    assert forall|i: int| 0 <= i < s4.pending.len() implies #[trigger] owner_kind_spec(
        s4.pending[i].kind@,
    ) is Some && is_resolved(
        s4.chain,
        owner_kind_spec(s4.pending[i].kind@)->0,
        s4.pending[i].name@,
    ) by {
        assert(s4.pending[i] == job_ref);
    }
    lemma_skip_resolved(s4);
    let s5 = ChainState { pending: Seq::empty(), ..s4 };
    assert(walk(s4, cluster, (fuel - 2) as nat) == s5);
    assert(walk(s2, cluster, (fuel - 1) as nat) == s5);
    assert(walk(s0, cluster, fuel) == s5);
    assert(walk(s5, cluster, more) == s5);
    assert(s5.chain.reverse() =~= seq![
        ResolvedResource { kind: ResourceKind::Deployment, meta: deployment },
        ResolvedResource { kind: ResourceKind::Job, meta: job },
        ResolvedResource { kind: ResourceKind::Pod, meta: pod },
    ]);
}

} // verus!
