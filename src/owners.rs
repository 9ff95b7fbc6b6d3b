use vstd::prelude::*;

use crate::pod::{ObjectMeta, OwnerReference};

verus! {

/// The kinds of object that a teardown can reach: the pod itself and the
/// owner kinds the controller knows how to fetch and delete.
#[derive(Clone, Copy, Debug, PartialEq, Eq, Structural)]
pub enum ResourceKind {
    Pod,
    Job,
    ReplicaSet,
    Deployment,
}

/// The owner kind named by `kind`; `None` for a kind the controller does
/// not follow.
pub open spec fn owner_kind_spec(kind: Seq<char>) -> Option<ResourceKind> {
    if kind == "Job"@ {
        Some(ResourceKind::Job)
    } else if kind == "ReplicaSet"@ {
        Some(ResourceKind::ReplicaSet)
    } else if kind == "Deployment"@ {
        Some(ResourceKind::Deployment)
    } else {
        None
    }
}

/// Recognizes the kind of an owner reference.
pub fn owner_kind(kind: &String) -> (r: Option<ResourceKind>)
    ensures
        r == owner_kind_spec(kind@),
{
    if *kind == String::from_str("Job") {
        Some(ResourceKind::Job)
    } else if *kind == String::from_str("ReplicaSet") {
        Some(ResourceKind::ReplicaSet)
    } else if *kind == String::from_str("Deployment") {
        Some(ResourceKind::Deployment)
    } else {
        None
    }
}

/// The references of `refs` whose controller flag is set, in order.
pub open spec fn controllers(refs: Seq<OwnerReference>) -> Seq<OwnerReference>
    decreases refs.len(),
{
    if refs.len() == 0 {
        refs
    } else if refs.last().controller == Some(true) {
        controllers(refs.drop_last()).push(refs.last())
    } else {
        controllers(refs.drop_last())
    }
}

/// The controlling owners of an object; none when it lists no owners.
pub open spec fn controller_owners(refs: Option<Vec<OwnerReference>>) -> Seq<OwnerReference> {
    match refs {
        None => Seq::empty(),
        Some(v) => controllers(v@),
    }
}

impl OwnerReference {
    /// A copy of this reference.
    pub fn copied(&self) -> (r: OwnerReference)
        ensures
            r == *self,
    {
        OwnerReference {
            kind: self.kind.clone(),
            api_version: self.api_version.clone(),
            name: self.name.clone(),
            controller: self.controller,
        }
    }
}

/// The owner references of `metadata` that are flagged as controller;
/// informational owners are never followed.
pub fn get_owners(metadata: &ObjectMeta) -> (r: Vec<OwnerReference>)
    ensures
        r@ == controller_owners(metadata.owner_references),
{
    let mut owner_refs: Vec<OwnerReference> = Vec::new();
    match &metadata.owner_references {
        None => {},
        Some(refs) => {
            let mut i: usize = 0;
            while i < refs.len()
                invariant
                    i <= refs.len(),
                    owner_refs@ == controllers(refs@.subrange(0, i as int)),
                decreases refs.len() - i,
            {
                assert(refs@.subrange(0, i + 1).drop_last() =~= refs@.subrange(0, i as int));
                let is_controller = match refs[i].controller {
                    Some(c) => c,
                    None => false,
                };
                if is_controller {
                    owner_refs.push(refs[i].copied());
                }
                i = i + 1;
            }
            assert(refs@.subrange(0, refs@.len() as int) =~= refs@);
        },
    }
    owner_refs
}

} // verus!
