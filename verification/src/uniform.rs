use vstd::prelude::*;

use crate::actor_id::{insert_id, insert_id_vec, no_dup_ids, remove_id, remove_id_vec, ActorID};

verus! {

/// Liveness bookkeeping of a supervisor over homogeneous, on-demand
/// children: children are recorded as they start, removed as they go
/// down — never restarted — and stopped in reverse start order when the
/// supervisor itself shuts down.
#[derive(Debug)]
pub struct UniformSup {
    /// The supervisor this state belongs to.
    pub sup_id: ActorID,
    /// Live children in start order, duplicate-free.
    pub children: Vec<ActorID>,
}

impl UniformSup {
    /// The live-children set holds no id twice.
    pub open spec fn wf(&self) -> bool {
        no_dup_ids(self.children@)
    }

    /// A fresh supervisor state with no children.
    pub fn new(sup_id: ActorID) -> (r: UniformSup)
        ensures
            r.wf(),
            r.sup_id == sup_id,
            r.children@ == Seq::<ActorID>::empty(),
    {
        UniformSup { sup_id, children: Vec::new() }
    }

    /// Records a started child.
    pub fn child_started(&mut self, id: ActorID)
        requires
            old(self).wf(),
        ensures
            final(self).wf(),
            final(self).sup_id == old(self).sup_id,
            final(self).children@ == insert_id(old(self).children@, id),
            final(self).children@.contains(id),
    {
        insert_id_vec(&mut self.children, id);
    }

    /// Records a child's exit: the child is forgotten, not restarted; an
    /// exit of an unknown id changes nothing.
    pub fn child_down(&mut self, id: ActorID)
        requires
            old(self).wf(),
        ensures
            final(self).wf(),
            final(self).sup_id == old(self).sup_id,
            final(self).children@ == remove_id(old(self).children@, id),
            !final(self).children@.contains(id),
    {
        remove_id_vec(&mut self.children, id);
    }

    /// The order in which the supervisor's own shutdown stops the live
    /// children: reverse start order.
    pub fn shutdown_order(&self) -> (r: Vec<ActorID>)
        ensures
            r@.len() == self.children@.len(),
            forall|k: int|
                0 <= k < r@.len() ==> r@[k] == self.children@[self.children@.len() - 1 - k],
    {
        let n = self.children.len();
        let mut out: Vec<ActorID> = Vec::new();
        let mut k: usize = 0;
        while k < n
            invariant
                k <= n,
                n == self.children@.len(),
                out@.len() == k,
                forall|m: int| 0 <= m < k ==> out@[m] == self.children@[n - 1 - m],
            decreases n - k,
        {
            out.push(self.children[n - 1 - k]);
            k += 1;
        }
        out
    }
}

} // verus!
