use vstd::prelude::*;

use crate::chain::ResolvedResource;
use crate::owners::ResourceKind;

verus! {

/// One deletion to issue against the cluster.
#[derive(Clone, Debug)]
pub struct DeleteRequest {
    pub kind: ResourceKind,
    pub namespace: String,
    pub name: String,
}

/// What the deleter asks of its caller next.
#[derive(Clone, Debug)]
pub enum DeleteStep {
    /// Issue this deletion and report its outcome with `record_result`.
    Delete(DeleteRequest),
    /// The next object lacks a namespace or a name; the sequence stops.
    MissingMetadata(ResourceKind),
    /// Every object of the chain has been deleted.
    Complete,
    /// A deletion failed earlier; nothing more is deleted.
    Aborted,
}

/// Issues the deletions of a resolved chain one at a time, in order, and
/// stops at the first failure.
pub struct CascadingDeleter {
    order: Vec<ResolvedResource>,
    next: usize,
    aborted: bool,
}

/// The abstract state of a deleter: the chain in deletion order, how many
/// of its objects are deleted, and whether the sequence has stopped.
pub struct DeleterState {
    pub order: Seq<ResolvedResource>,
    pub next: nat,
    pub aborted: bool,
}

impl View for CascadingDeleter {
    type V = DeleterState;

    closed spec fn view(&self) -> DeleterState {
        DeleterState { order: self.order@, next: self.next as nat, aborted: self.aborted }
    }
}

/// The deletion of `r`, addressed by the namespace and name of its own
/// metadata; `None` when either is missing.
pub open spec fn request_of(r: ResolvedResource) -> Option<DeleteRequest> {
    match (r.meta.namespace, r.meta.name) {
        (Some(ns), Some(n)) => Some(DeleteRequest { kind: r.kind, namespace: ns, name: n }),
        _ => None,
    }
}

/// The next step of a deleter in state `s`, and the state after it.
pub open spec fn deleter_step(s: DeleterState) -> (DeleterState, DeleteStep) {
    if s.aborted {
        (s, DeleteStep::Aborted)
    } else if s.next >= s.order.len() {
        (s, DeleteStep::Complete)
    } else {
        match request_of(s.order[s.next as int]) {
            Some(req) => (s, DeleteStep::Delete(req)),
            None => (
                DeleterState { aborted: true, ..s },
                DeleteStep::MissingMetadata(s.order[s.next as int].kind),
            ),
        }
    }
}

/// The state after the outcome of the pending deletion is known: a success
/// moves on to the next object, a failure stops the sequence.
pub open spec fn deleter_recorded(s: DeleterState, deleted: bool) -> DeleterState {
    if s.aborted || s.next >= s.order.len() {
        s
    } else if deleted {
        DeleterState { next: s.next + 1, ..s }
    } else {
        DeleterState { aborted: true, ..s }
    }
}

impl CascadingDeleter {
    /// A deleter for a chain given in deletion order.
    pub fn new(order: Vec<ResolvedResource>) -> (r: CascadingDeleter)
        ensures
            r@ == (DeleterState { order: order@, next: 0, aborted: false }),
    {
        CascadingDeleter { order, next: 0, aborted: false }
    }

    /// The next step to take.
    pub fn next_step(&mut self) -> (r: DeleteStep)
        ensures
            (final(self)@, r) == deleter_step(old(self)@),
    {
        if self.aborted {
            return DeleteStep::Aborted;
        }
        if self.next >= self.order.len() {
            return DeleteStep::Complete;
        }
        let target = &self.order[self.next];
        match (&target.meta.namespace, &target.meta.name) {
            (Some(ns), Some(n)) => DeleteStep::Delete(
                DeleteRequest { kind: target.kind, namespace: ns.clone(), name: n.clone() },
            ),
            _ => {
                let kind = target.kind;
                self.aborted = true;
                DeleteStep::MissingMetadata(kind)
            },
        }
    }

    /// Reports whether the deletion asked for by the last step succeeded.
    pub fn record_result(&mut self, deleted: bool)
        ensures
            final(self)@ == deleter_recorded(old(self)@, deleted),
    {
        if self.aborted || self.next >= self.order.len() {
            return;
        }
        if deleted {
            self.next = self.next + 1;
        } else {
            self.aborted = true;
        }
    }
}

} // verus!
