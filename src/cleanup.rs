use vstd::prelude::*;

use crate::pod::{PodSnapshot, PodStatus};

verus! {

/// How a pod's service-mesh sidecar is told to shut down before teardown.
#[derive(Debug)]
pub struct CleanupPod {
    /// Name of the sidecar container inside the pod.
    pub istio_container_name: String,
    /// Grace period after the shutdown signal, in milliseconds.
    pub istio_deadline_ms: u32,
}

/// The pod's IP when its status lists a container named `name`; `None`
/// when the pod has no status, no container statuses, or no such container.
pub open spec fn sidecar_ip(status: Option<PodStatus>, name: Seq<char>) -> Option<String> {
    match status {
        None => None,
        Some(st) => match st.container_statuses {
            None => None,
            Some(cs) => if exists|i: int| 0 <= i < cs@.len() && #[trigger] cs@[i].name@ == name {
                st.pod_ip
            } else {
                None
            },
        },
    }
}

/// The local-agent endpoint that asks the sidecar at `ip` to quit.
pub open spec fn shutdown_url_spec(ip: Seq<char>) -> Seq<char> {
    "http://"@ + ip + ":15000/quitquitquit"@
}

/// The endpoint that asks the sidecar at `ip` to quit.
pub fn shutdown_url(ip: &str) -> (r: String)
    ensures
        r@ == shutdown_url_spec(ip@),
{
    let mut url = String::from_str("http://");
    url.append(ip);
    url.append(":15000/quitquitquit");
    url
}

impl CleanupPod {
    pub fn new(istio_container_name: &str, istio_deadline_ms: u32) -> (r: Self)
        ensures
            r.istio_container_name@ == istio_container_name@,
            r.istio_deadline_ms == istio_deadline_ms,
    {
        Self { istio_container_name: String::from_str(istio_container_name), istio_deadline_ms }
    }

    /// The IP at which the pod's sidecar is signalled, if the pod runs one.
    pub fn get_istio_container_ip(&self, pod: &PodSnapshot) -> (r: Option<String>)
        ensures
            r == sidecar_ip(pod.status, self.istio_container_name@),
    {
        let status = match &pod.status {
            None => return None,
            Some(status) => status,
        };
        let statuses = match &status.container_statuses {
            None => return None,
            Some(statuses) => statuses,
        };
        let mut i: usize = 0;
        while i < statuses.len()
            invariant
                i <= statuses.len(),
                pod.status == Some(*status),
                status.container_statuses == Some(*statuses),
                forall|j: int| 0 <= j < i ==> statuses@[j].name@ != self.istio_container_name@,
            decreases statuses.len() - i,
        {
            if statuses[i].name == self.istio_container_name {
                let r = match &status.pod_ip {
                    None => None,
                    Some(ip) => Some(ip.clone()),
                };
                let ghost cs = pod.status->0.container_statuses->0;
                assert(cs@[i as int].name@ == self.istio_container_name@);
                return r;
            }
            i = i + 1;
        }
        None
    }

    /// The endpoint to signal before the pod is torn down; `None` when the
    /// pod runs no sidecar, in which case nothing is signalled and there is
    /// no grace period.
    pub fn sidecar_shutdown_url(&self, pod: &PodSnapshot) -> (r: Option<String>)
        ensures
            r is Some <==> sidecar_ip(pod.status, self.istio_container_name@) is Some,
            r matches Some(url) ==> url@ == shutdown_url_spec(
                sidecar_ip(pod.status, self.istio_container_name@)->0@,
            ),
    {
        match self.get_istio_container_ip(pod) {
            None => None,
            Some(ip) => Some(shutdown_url(ip.as_str())),
        }
    }

    /// How long to wait, in milliseconds, between the shutdown signal and
    /// the deletions: the grace period when the sidecar took the signal,
    /// no wait when the signal failed. The deletions follow either way.
    pub fn grace_after_signal(&self, signalled: bool) -> (r: u32)
        ensures
            r == if signalled {
                self.istio_deadline_ms
            } else {
                0
            },
    {
        if signalled {
            self.istio_deadline_ms
        } else {
            0
        }
    }
}

} // verus!
