use vstd::prelude::*;

use crate::annotations::{
    annotation_value, condition_key, condition_of, critical_containers_key, critical_names,
    find_annotation, parse_condition, parse_critical_containers,
};
use crate::clock::now_millis;
use crate::pod::PodSnapshot;
use crate::termination::{pod_eligible, should_be_terminated_at, KillCondition};

verus! {

/// A pod that has asked to be watched, with what its annotations declare.
#[derive(Clone, Debug)]
pub struct PodContainer {
    pub pod: PodSnapshot,
    pub name: String,
    pub namespace: String,
    pub condition: KillCondition,
    pub critical_containers: Vec<String>,
}

/// The pod has a name, a namespace and the critical-containers annotation.
pub open spec fn is_watched(pod: PodSnapshot) -> bool {
    &&& pod.metadata.name is Some
    &&& pod.metadata.namespace is Some
    &&& annotation_value(pod.metadata.annotations@, critical_containers_key()) is Some
}

/// `w` is what the controller makes of the watched pod `pod`.
pub open spec fn watches(pod: PodSnapshot, w: PodContainer) -> bool {
    let anns = pod.metadata.annotations@;
    &&& is_watched(pod)
    &&& w.pod == pod
    &&& w.name == pod.metadata.name->0
    &&& w.namespace == pod.metadata.namespace->0
    &&& w.condition == condition_of(annotation_value(anns, condition_key()))
    &&& w.critical_containers@.map_values(|t: String| t@) == critical_names(
        annotation_value(anns, critical_containers_key())->0@,
    )
}

/// The positions in `pods` of the pods that are watched, in order.
pub open spec fn watched_indices(pods: Seq<PodSnapshot>) -> Seq<int>
    decreases pods.len(),
{
    if pods.len() == 0 {
        Seq::empty()
    } else if is_watched(pods.last()) {
        watched_indices(pods.drop_last()).push(pods.len() - 1)
    } else {
        watched_indices(pods.drop_last())
    }
}

impl PodContainer {
    /// Whether the pod is eligible for teardown at time `now`.
    pub open spec fn eligible_at(&self, crit_deadline: i64, now: i64) -> bool {
        pod_eligible(self.pod.status, self.critical_containers@, self.condition, crit_deadline, now)
    }

    /// Reads a pod's annotations: `None` when the pod lacks a name, a
    /// namespace or the critical-containers annotation.
    pub fn from_pod(pod: PodSnapshot) -> (r: Option<PodContainer>)
        ensures
            r is Some <==> is_watched(pod),
            r matches Some(w) ==> watches(pod, w),
    {
        let name = match &pod.metadata.name {
            None => return None,
            Some(n) => n.clone(),
        };
        let namespace = match &pod.metadata.namespace {
            None => return None,
            Some(ns) => ns.clone(),
        };
        let critical_key = String::from_str("podwatcher/critical-containers");
        let critical = match find_annotation(&pod.metadata.annotations, &critical_key) {
            None => return None,
            Some(v) => v,
        };
        let condition_key = String::from_str("podwatcher/condition");
        let raw_condition = find_annotation(&pod.metadata.annotations, &condition_key);
        let condition = parse_condition(&raw_condition);
        let critical_containers = parse_critical_containers(critical.as_str());
        Some(PodContainer { pod, name, namespace, condition, critical_containers })
    }

    /// Decides eligibility at time `now`.
    pub fn should_be_terminated_at(&self, crit_deadline: i64, now: i64) -> (r: bool)
        ensures
            r == self.eligible_at(crit_deadline, now),
    {
        should_be_terminated_at(
            &self.pod.status,
            &self.critical_containers,
            self.condition,
            crit_deadline,
            now,
        )
    }

    /// Decides eligibility at the current time, read from the wall clock.
    pub fn should_be_terminated(&self, crit_deadline: i64) -> (r: bool)
        ensures
            exists|now: i64| r == self.eligible_at(crit_deadline, now),
    {
        let now = now_millis();
        let r = self.should_be_terminated_at(crit_deadline, now);
        assert(r == self.eligible_at(crit_deadline, now));
        r
    }
}

/// Keeps the pods that ask to be watched, in order, and reads their
/// annotations.
pub fn watched_pods(pods: Vec<PodSnapshot>) -> (r: Vec<PodContainer>)
    ensures
        r.len() == watched_indices(pods@).len(),
        forall|k: int|
            0 <= k < r.len() ==> watches(pods@[#[trigger] watched_indices(pods@)[k]], r@[k]),
{
    let ghost all = pods@;
    let mut rest = pods;
    let mut r: Vec<PodContainer> = Vec::new();
    let mut i: usize = 0;
    let n = rest.len();
    while rest.len() > 0
        invariant
            n == all.len(),
            i + rest.len() == n,
            rest@ == all.subrange(i as int, n as int),
            r.len() == watched_indices(all.subrange(0, i as int)).len(),
            forall|k: int|
                0 <= k < r.len() ==> watches(
                    all[#[trigger] watched_indices(all.subrange(0, i as int))[k]],
                    r@[k],
                ),
            forall|k: int|
                0 <= k < watched_indices(all.subrange(0, i as int)).len() ==> 0
                    <= #[trigger] watched_indices(all.subrange(0, i as int))[k] < i,
        decreases rest.len(),
    {
        let pod = rest.remove(0);
        let ghost before = all.subrange(0, i as int);
        let ghost after = all.subrange(0, i + 1);
        assert(after.drop_last() =~= before);
        assert(after.last() == pod);
        match PodContainer::from_pod(pod) {
            Some(w) => {
                r.push(w);
            },
            None => {},
        }
        i = i + 1;
        assert(rest@ =~= all.subrange(i as int, n as int));
    }
    assert(all.subrange(0, n as int) =~= all);
    r
}

} // verus!
