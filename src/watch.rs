use vstd::prelude::*;

use crate::tracker::{prune_view, record_view, DedupTracker};
use crate::watched::PodContainer;

verus! {

/// How long, in milliseconds, a pod that was handled is not selected again.
pub const SUPPRESSION_WINDOW_MS: i64 = 10_000;

/// Seconds between two ticks of the watch loop.
pub const POLL_INTERVAL_SECS: u64 = 5;

/// The expiry recorded for a pod handled at `now`: the end of the
/// suppression window, or the latest representable time if that is later.
pub open spec fn suppression_expiry_spec(now: i64) -> i64 {
    if now <= i64::MAX - SUPPRESSION_WINDOW_MS {
        (now + SUPPRESSION_WINDOW_MS) as i64
    } else {
        i64::MAX
    }
}

/// The expiry recorded for a pod handled at `now`.
pub fn suppression_expiry(now: i64) -> (r: i64)
    ensures
        r == suppression_expiry_spec(now),
{
    if now <= i64::MAX - SUPPRESSION_WINDOW_MS {
        now + SUPPRESSION_WINDOW_MS
    } else {
        i64::MAX
    }
}

/// The identity of `w` when it is to be torn down at `now`: it has an
/// identity, that identity is not suppressed, and the pod is eligible.
pub open spec fn candidate(
    suppressed: Map<Seq<char>, i64>,
    w: PodContainer,
    crit_deadline: i64,
    now: i64,
) -> Option<String> {
    match w.pod.metadata.uid {
        None => None,
        Some(uid) => if !suppressed.contains_key(uid@) && w.eligible_at(crit_deadline, now) {
            Some(uid)
        } else {
            None
        },
    }
}

/// Decides whether a watched pod is torn down in this tick; returns its
/// identity when it is.
pub fn teardown_candidate(
    tracker: &DedupTracker,
    pod: &PodContainer,
    crit_deadline: i64,
    now: i64,
) -> (r: Option<String>)
    ensures
        r == candidate(tracker@, *pod, crit_deadline, now),
{
    let uid = match &pod.pod.metadata.uid {
        None => return None,
        Some(uid) => uid,
    };
    if tracker.contains(uid) {
        return None;
    }
    if pod.should_be_terminated_at(crit_deadline, now) {
        Some(uid.clone())
    } else {
        None
    }
}

/// Records that the pod `uid` was handled at `now`, whether its teardown
/// succeeded or not, so that it is left alone for the suppression window.
pub fn record_teardown(tracker: &mut DedupTracker, uid: String, now: i64)
    ensures
        final(tracker)@ == record_view(old(tracker)@, uid@, suppression_expiry_spec(now)),
{
    tracker.record(uid, suppression_expiry(now));
}

/// Once a pod's identity is recorded, the pod is not selected; a new entry
/// expires one suppression window after the time it was handled (capped at
/// the latest representable time). The pod stays
/// unselected after every prune up to the expiry of its entry; a prune after
/// that expiry makes it selectable again, as soon as it is eligible.
pub proof fn lemma_suppressed_until_expiry(
    suppressed: Map<Seq<char>, i64>,
    w: PodContainer,
    handled_at: i64,
    prune_at: i64,
    crit_deadline: i64,
    now: i64,
)
    requires
        w.pod.metadata.uid is Some,
    ensures
        ({
            let uid = w.pod.metadata.uid->0;
            let recorded = record_view(suppressed, uid@, suppression_expiry_spec(handled_at));
            let expiry = recorded[uid@];
            let pruned = prune_view(recorded, prune_at);
            &&& candidate(recorded, w, crit_deadline, now) is None
            &&& !suppressed.contains_key(uid@) ==> expiry == suppression_expiry_spec(handled_at)
            &&& !suppressed.contains_key(uid@) && handled_at <= i64::MAX - SUPPRESSION_WINDOW_MS
                ==> expiry == handled_at + SUPPRESSION_WINDOW_MS
            &&& prune_at <= expiry ==> candidate(pruned, w, crit_deadline, now) is None
            &&& expiry < prune_at ==> candidate(pruned, w, crit_deadline, now) == if w.eligible_at(
                crit_deadline,
                now,
            ) {
                Some(uid)
            } else {
                None
            }
        }),
{
}

} // verus!
