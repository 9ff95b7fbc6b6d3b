use vstd::prelude::*;

verus! {

/// A back-reference from an object to one of its owners.
#[derive(Clone, Debug)]
pub struct OwnerReference {
    pub kind: String,
    pub api_version: String,
    pub name: String,
    /// Set on the owner that manages the object's lifecycle.
    pub controller: Option<bool>,
}

/// What the controller reads of an object's metadata.
#[derive(Clone, Debug)]
pub struct ObjectMeta {
    pub name: Option<String>,
    pub namespace: Option<String>,
    pub uid: Option<String>,
    /// Annotation keys and values, in the order the cluster listed them.
    pub annotations: Vec<(String, String)>,
    pub owner_references: Option<Vec<OwnerReference>>,
}

/// What the controller reads of a container that has exited.
#[derive(Clone, Debug)]
pub struct TerminatedState {
    /// When the container finished, in milliseconds since the Unix epoch.
    pub finished_at_ms: Option<i64>,
}

/// One entry of a pod's container statuses.
#[derive(Clone, Debug)]
pub struct ContainerStatus {
    pub name: String,
    /// `Some` when the container's current state is "terminated".
    pub terminated: Option<TerminatedState>,
}

/// The observed status of a pod.
#[derive(Clone, Debug)]
pub struct PodStatus {
    pub pod_ip: Option<String>,
    pub container_statuses: Option<Vec<ContainerStatus>>,
}

/// A snapshot of a pod as listed from the cluster.
#[derive(Clone, Debug)]
pub struct PodSnapshot {
    pub metadata: ObjectMeta,
    pub status: Option<PodStatus>,
}

} // verus!
