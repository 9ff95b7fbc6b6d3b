use vstd::prelude::*;

use crate::pod::{ContainerStatus, PodStatus, TerminatedState};

verus! {

/// When a pod becomes eligible for teardown.
#[derive(Clone, Copy, Debug, PartialEq, Eq, Structural)]
pub enum KillCondition {
    /// Once any critical container has exited and its deadline has passed.
    Any,
    /// Once every critical container present on the pod has exited.
    All,
}

/// `name` is one of the declared critical container names.
pub open spec fn is_critical(critical: Seq<String>, name: Seq<char>) -> bool {
    exists|k: int| 0 <= k < critical.len() && #[trigger] critical[k]@ == name
}

/// The container finished at least `deadline` milliseconds before `now`;
/// an exit without a finish time counts as past its deadline.
pub open spec fn past_deadline(t: TerminatedState, deadline: i64, now: i64) -> bool {
    match t.finished_at_ms {
        None => true,
        Some(finished) => finished + deadline <= now,
    }
}

/// Under `Any`, the container has exited and is past its deadline.
pub open spec fn dead_past_deadline(c: ContainerStatus, deadline: i64, now: i64) -> bool {
    match c.terminated {
        None => false,
        Some(t) => past_deadline(t, deadline, now),
    }
}

/// Whether the observed container statuses make a pod eligible for teardown.
///
/// `Any`: some observed critical container has exited and is past its
/// deadline. `All`: every observed critical container has exited, whatever
/// its finish time; declared names that are not observed are left out.
pub open spec fn statuses_eligible(
    statuses: Seq<ContainerStatus>,
    critical: Seq<String>,
    condition: KillCondition,
    deadline: i64,
    now: i64,
) -> bool {
    match condition {
        KillCondition::Any => exists|i: int|
            0 <= i < statuses.len() && is_critical(critical, statuses[i].name@)
                && #[trigger] dead_past_deadline(statuses[i], deadline, now),
        KillCondition::All => forall|i: int|
            0 <= i < statuses.len() && #[trigger] is_critical(critical, statuses[i].name@)
                ==> statuses[i].terminated is Some,
    }
}

/// A pod without a status, or without container statuses (none listed, or
/// an empty list), is never eligible.
pub open spec fn pod_eligible(
    status: Option<PodStatus>,
    critical: Seq<String>,
    condition: KillCondition,
    deadline: i64,
    now: i64,
) -> bool {
    match status {
        None => false,
        Some(st) => match st.container_statuses {
            None => false,
            Some(cs) => cs@.len() > 0 && statuses_eligible(cs@, critical, condition, deadline, now),
        },
    }
}

/// Whether `name` is among `critical`.
pub fn contains_name(critical: &Vec<String>, name: &String) -> (r: bool)
    ensures
        r == is_critical(critical@, name@),
{
    let mut k: usize = 0;
    while k < critical.len()
        invariant
            k <= critical.len(),
            forall|j: int| 0 <= j < k ==> critical@[j]@ != name@,
        decreases critical.len() - k,
    {
        if critical[k] == *name {
            return true;
        }
        k = k + 1;
    }
    false
}

fn finished_past_deadline(t: &TerminatedState, deadline: i64, now: i64) -> (r: bool)
    ensures
        r == past_deadline(*t, deadline, now),
{
    match t.finished_at_ms {
        None => true,
        Some(finished) => (finished as i128) + (deadline as i128) <= now as i128,
    }
}

/// Decides eligibility from a pod's container statuses at time `now`.
pub fn statuses_should_be_terminated(
    statuses: &Vec<ContainerStatus>,
    critical: &Vec<String>,
    condition: KillCondition,
    deadline: i64,
    now: i64,
) -> (r: bool)
    ensures
        r == statuses_eligible(statuses@, critical@, condition, deadline, now),
{
    let mut any_dead = false;
    let mut all_dead = true;
    let mut i: usize = 0;
    while i < statuses.len()
        invariant
            i <= statuses.len(),
            any_dead == exists|j: int|
                0 <= j < i && is_critical(critical@, statuses@[j].name@)
                    && #[trigger] dead_past_deadline(statuses@[j], deadline, now),
            all_dead == forall|j: int|
                0 <= j < i && #[trigger] is_critical(critical@, statuses@[j].name@)
                    ==> statuses@[j].terminated is Some,
        decreases statuses.len() - i,
    {
        let status = &statuses[i];
        if contains_name(critical, &status.name) {
            match &status.terminated {
                Some(t) => {
                    if finished_past_deadline(t, deadline, now) {
                        any_dead = true;
                    } else {
                        assert(!dead_past_deadline(statuses@[i as int], deadline, now));
                    }
                },
                None => {
                    all_dead = false;
                },
            }
        }
        assert(dead_past_deadline(statuses@[i as int], deadline, now) ==> is_critical(
            critical@,
            statuses@[i as int].name@,
        ) ==> any_dead);
        i = i + 1;
    }
    match condition {
        KillCondition::Any => any_dead,
        KillCondition::All => all_dead,
    }
}

/// Decides eligibility from a pod's status at time `now`.
pub fn should_be_terminated_at(
    status: &Option<PodStatus>,
    critical: &Vec<String>,
    condition: KillCondition,
    deadline: i64,
    now: i64,
) -> (r: bool)
    ensures
        r == pod_eligible(*status, critical@, condition, deadline, now),
{
    match status {
        None => false,
        Some(st) => match &st.container_statuses {
            None => false,
            Some(cs) => cs.len() > 0 && statuses_should_be_terminated(
                cs,
                critical,
                condition,
                deadline,
                now,
            ),
        },
    }
}

/// Whatever the kill condition, a pod that reports no status, no container
/// statuses, or an empty list of them, is not eligible.
pub proof fn lemma_no_status_never_eligible(
    critical: Seq<String>,
    condition: KillCondition,
    deadline: i64,
    now: i64,
    pod_ip: Option<String>,
)
    ensures
        !pod_eligible(None, critical, condition, deadline, now),
        !pod_eligible(
            Some(PodStatus { pod_ip, container_statuses: None }),
            critical,
            condition,
            deadline,
            now,
        ),
        forall|empty: Vec<ContainerStatus>|
            empty@.len() == 0 ==> !#[trigger] pod_eligible(
                Some(PodStatus { pod_ip, container_statuses: Some(empty) }),
                critical,
                condition,
                deadline,
                now,
            ),
{
}

/// Under `Any`, a pod is eligible exactly when some observed container with
/// a declared critical name has terminated and is past its deadline.
pub proof fn lemma_any_eligible(
    statuses: Vec<ContainerStatus>,
    pod_ip: Option<String>,
    critical: Seq<String>,
    deadline: i64,
    now: i64,
)
    ensures
        pod_eligible(
            Some(PodStatus { pod_ip, container_statuses: Some(statuses) }),
            critical,
            KillCondition::Any,
            deadline,
            now,
        ) <==> exists|i: int, k: int|
            0 <= i < statuses@.len() && 0 <= k < critical.len() && #[trigger] statuses@[i].name@
                == #[trigger] critical[k]@ && statuses@[i].terminated is Some && past_deadline(
                statuses@[i].terminated->0,
                deadline,
                now,
            ),
{
    let st = statuses@;
    if exists|i: int|
        0 <= i < st.len() && is_critical(critical, st[i].name@)
            && #[trigger] dead_past_deadline(st[i], deadline, now) {
        let i = choose|i: int|
            0 <= i < st.len() && is_critical(critical, st[i].name@)
                && #[trigger] dead_past_deadline(st[i], deadline, now);
        let k = choose|k: int| 0 <= k < critical.len() && #[trigger] critical[k]@ == st[i].name@;
        assert(st[i].name@ == critical[k]@);
    }
    if exists|i: int, k: int|
        0 <= i < st.len() && 0 <= k < critical.len() && #[trigger] st[i].name@
            == #[trigger] critical[k]@ && st[i].terminated is Some && past_deadline(
            st[i].terminated->0,
            deadline,
            now,
        ) {
        let (i, k) = choose|i: int, k: int|
            0 <= i < st.len() && 0 <= k < critical.len() && #[trigger] st[i].name@
                == #[trigger] critical[k]@ && st[i].terminated is Some && past_deadline(
                st[i].terminated->0,
                deadline,
                now,
            );
        assert(is_critical(critical, st[i].name@));
        assert(dead_past_deadline(st[i], deadline, now));
    }
}

/// Under `All`, a pod is eligible exactly when it lists container statuses
/// and every observed container with a declared critical name has
/// terminated, whatever the deadline and the time; a declared name that no
/// observed container has does not block it.
pub proof fn lemma_all_eligible(
    statuses: Vec<ContainerStatus>,
    pod_ip: Option<String>,
    critical: Seq<String>,
    absent: String,
    deadline: i64,
    now: i64,
    other_deadline: i64,
    other_now: i64,
)
    requires
        forall|i: int| 0 <= i < statuses@.len() ==> #[trigger] statuses@[i].name@ != absent@,
    ensures
        ({
            let status = Some(PodStatus { pod_ip, container_statuses: Some(statuses) });
            &&& pod_eligible(status, critical, KillCondition::All, deadline, now) <==> statuses@.len()
                > 0 && forall|i: int, k: int|
                0 <= i < statuses@.len() && 0 <= k < critical.len() && #[trigger] statuses@[i].name@
                    == #[trigger] critical[k]@ ==> statuses@[i].terminated is Some
            &&& pod_eligible(status, critical, KillCondition::All, deadline, now) == pod_eligible(
                status,
                critical,
                KillCondition::All,
                other_deadline,
                other_now,
            )
            &&& pod_eligible(status, critical.push(absent), KillCondition::All, deadline, now)
                == pod_eligible(status, critical, KillCondition::All, deadline, now)
        }),
{
    let st = statuses@;
    if statuses_eligible(st, critical, KillCondition::All, deadline, now) {
        assert forall|i: int, k: int|
            0 <= i < st.len() && 0 <= k < critical.len() && #[trigger] st[i].name@
                == #[trigger] critical[k]@ implies st[i].terminated is Some by {
            assert(is_critical(critical, st[i].name@));
        }
    }
    if forall|i: int, k: int|
        0 <= i < st.len() && 0 <= k < critical.len() && #[trigger] st[i].name@
            == #[trigger] critical[k]@ ==> st[i].terminated is Some {
        assert forall|i: int|
            0 <= i < st.len() && #[trigger] is_critical(critical, st[i].name@) implies st[i].terminated is Some by {
            let k = choose|k: int| 0 <= k < critical.len() && #[trigger] critical[k]@ == st[i].name@;
            assert(st[i].name@ == critical[k]@);
        }
    }
    let more = critical.push(absent);
    assert forall|i: int| 0 <= i < st.len() implies #[trigger] is_critical(more, st[i].name@)
        == is_critical(critical, st[i].name@) by {
        if is_critical(more, st[i].name@) {
            let k = choose|k: int| 0 <= k < more.len() && #[trigger] more[k]@ == st[i].name@;
            assert(k < critical.len());
            assert(critical[k]@ == st[i].name@);
        }
        if is_critical(critical, st[i].name@) {
            let k = choose|k: int| 0 <= k < critical.len() && #[trigger] critical[k]@ == st[i].name@;
            assert(more[k]@ == st[i].name@);
        }
    }
    if statuses_eligible(st, critical, KillCondition::All, deadline, now) {
        assert forall|i: int|
            0 <= i < st.len() && #[trigger] is_critical(more, st[i].name@) implies st[i].terminated is Some by {
            assert(is_critical(critical, st[i].name@));
        }
    }
    if statuses_eligible(st, more, KillCondition::All, deadline, now) {
        assert forall|i: int|
            0 <= i < st.len() && #[trigger] is_critical(critical, st[i].name@) implies st[i].terminated is Some by {
            assert(is_critical(more, st[i].name@));
        }
    }
}

} // verus!
