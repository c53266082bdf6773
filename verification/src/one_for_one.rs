use vstd::prelude::*;

use crate::actor_id::{insert_id, no_dup_ids, remove_id, remove_id_vec, insert_id_vec, ids_contain,
    ActorID};
use crate::exit::Exit;
use crate::frequency::{retained, FrequencyPolicy, FrequencyStats};

verus! {

/// One step a supervisor must take, produced by a restart decider.
#[derive(Debug, PartialEq)]
pub enum Action {
    /// (Re)start the child at the given index.
    Start(usize),
    /// Stop the child at the given index, running under the given id, with
    /// the given reason.
    Stop(usize, ActorID, Exit),
    /// Terminate the supervisor itself with the given reason.
    Exit(Exit),
}

/// The queue of actions that winds a supervisor down: stop every child in
/// reverse start order, each with a shutdown reason chaining `reason`, then
/// exit with `reason` itself.
pub open spec fn shutdown_actions(children: Seq<ActorID>, reason: Exit) -> Seq<Action> {
    Seq::new(
        children.len() + 1,
        |k: int|
            if k < children.len() {
                Action::Stop(
                    (children.len() - 1 - k) as usize,
                    children[children.len() - 1 - k],
                    Exit::Shutdown(Some(Box::new(reason))),
                )
            } else {
                Action::Exit(reason)
            },
    )
}

/// The result of adding every id of `more` to the id set `s`, in order,
/// skipping those already present.
pub open spec fn extend_ids(s: Seq<ActorID>, more: Seq<ActorID>) -> Seq<ActorID>
    decreases more.len(),
{
    if more.len() == 0 {
        s
    } else {
        extend_ids(insert_id(s, more[0]), more.drop_first())
    }
}

/// The one-for-one restart strategy: a crashed child is restarted alone,
/// its siblings untouched, as long as the per-child failure frequency stays
/// within the policy.
#[derive(Clone, Copy, Debug)]
pub struct OneForOne {
    pub frequency_policy: FrequencyPolicy,
}

/// The state machine producing supervisor actions under the one-for-one
/// strategy.
#[derive(Debug)]
pub struct OneForOneDecider {
    /// The supervisor this decider serves.
    pub sup_id: ActorID,
    /// Current child ids, by start index.
    pub children: Vec<ActorID>,
    /// Per-child failure history.
    pub failures: Vec<FrequencyStats>,
    /// Exits that are expected (during shutdown) and must be absorbed.
    pub ignored_exits: Vec<ActorID>,
    /// Actions queued for the supervisor to pull, front first.
    pub pending: Vec<Action>,
}

impl Default for OneForOne {
    /// The default frequency policy.
    fn default() -> (r: Self)
        ensures
            r.frequency_policy.max_failures == 1,
            r.frequency_policy.within == 5000,
    {
        OneForOne { frequency_policy: FrequencyPolicy::default() }
    }
}

impl OneForOne {
    /// A fresh decider for the given supervisor and initial child list: one
    /// empty failure history per child, nothing ignored, nothing pending.
    pub fn new_decider(&self, sup_id: ActorID, children: &[ActorID]) -> (r: OneForOneDecider)
        ensures
            r.wf(),
            r.sup_id == sup_id,
            r.children@ == children@,
            r.failures@.len() == children@.len(),
            forall|k: int|
                0 <= k < children@.len() ==> (#[trigger] r.failures@[k]).max_failures
                    == self.frequency_policy.max_failures && r.failures@[k].within
                    == self.frequency_policy.within && r.failures@[k].failures@
                    == Seq::<u64>::empty(),
            r.ignored_exits@ == Seq::<ActorID>::empty(),
            r.pending@ == Seq::<Action>::empty(),
    {
        let mut failures: Vec<FrequencyStats> = Vec::new();
        let mut i: usize = 0;
        while i < children.len()
            invariant
                i <= children@.len(),
                failures@.len() == i,
                forall|k: int|
                    0 <= k < i ==> (#[trigger] failures@[k]).max_failures
                        == self.frequency_policy.max_failures && failures@[k].within
                        == self.frequency_policy.within && failures@[k].failures@
                        == Seq::<u64>::empty(),
            decreases children@.len() - i,
        {
            failures.push(self.frequency_policy.new_stats());
            i += 1;
        }
        let mut child_vec: Vec<ActorID> = Vec::new();
        let mut j: usize = 0;
        while j < children.len()
            invariant
                j <= children@.len(),
                child_vec@ == children@.take(j as int),
            decreases children@.len() - j,
        {
            child_vec.push(children[j]);
            proof {
                assert(child_vec@ =~= children@.take(j as int + 1));
            }
            j += 1;
        }
        proof {
            assert(children@.take(children@.len() as int) =~= children@);
        }
        OneForOneDecider {
            sup_id,
            children: child_vec,
            failures,
            ignored_exits: Vec::new(),
            pending: Vec::new(),
        }
    }
}

impl OneForOneDecider {
    /// The child list and the failure histories stay index-aligned, and the
    /// ignored-exit set holds no id twice.
    pub open spec fn wf(&self) -> bool {
        &&& self.children@.len() == self.failures@.len()
        &&& no_dup_ids(self.ignored_exits@)
    }

    /// Pulls the next queued action, if any.
    pub fn next_action(&mut self) -> (r: Option<Action>)
        ensures
            final(self).sup_id == old(self).sup_id,
            final(self).children@ == old(self).children@,
            final(self).failures@ == old(self).failures@,
            final(self).ignored_exits@ == old(self).ignored_exits@,
            old(self).pending@.len() == 0 ==> r is None && final(self).pending@ == old(self).pending@,
            old(self).pending@.len() > 0 ==> r == Some(old(self).pending@[0]) && final(self).pending@ == old(self).pending@.drop_first(),
    {
        if self.pending.len() == 0 {
            None
        } else {
            Some(self.pending.remove(0))
        }
    }

    /// Records that the child at `child_idx` is now running under
    /// `actor_id`.
    pub fn child_up(&mut self, _at: u64, child_idx: usize, actor_id: ActorID)
        requires
            old(self).wf(),
            child_idx < old(self).children@.len(),
        ensures
            final(self).wf(),
            final(self).sup_id == old(self).sup_id,
            final(self).children@ == old(self).children@.update(child_idx as int, actor_id),
            final(self).failures@ == old(self).failures@,
            final(self).ignored_exits@ == old(self).ignored_exits@,
            final(self).pending@ == old(self).pending@,
    {
        self.children[child_idx] = actor_id;
    }

    /// Replaces the pending queue with the shutdown sequence for `reason`:
    /// stop every child in reverse order with a shutdown reason chaining
    /// `reason`, then exit with `reason`.
    pub fn initiate_shutdown(&mut self, exit_reason: Exit)
        requires
            old(self).wf(),
        ensures
            final(self).wf(),
            final(self).sup_id == old(self).sup_id,
            final(self).children@ == old(self).children@,
            final(self).failures@ == old(self).failures@,
            final(self).ignored_exits@ == old(self).ignored_exits@,
            final(self).pending@ == shutdown_actions(old(self).children@, exit_reason),
    {
        self.pending.clear();
        let n = self.children.len();
        let mut k: usize = 0;
        while k < n
            invariant
                k <= n,
                n == self.children@.len(),
                self.children@ == old(self).children@,
                self.failures@ == old(self).failures@,
                self.ignored_exits@ == old(self).ignored_exits@,
                self.sup_id == old(self).sup_id,
                self.pending@.len() == k,
                forall|m: int|
                    0 <= m < k ==> #[trigger] self.pending@[m] == Action::Stop(
                        (n - 1 - m) as usize,
                        self.children@[n - 1 - m],
                        Exit::Shutdown(Some(Box::new(exit_reason))),
                    ),
            decreases n - k,
        {
            let idx = n - 1 - k;
            let stop_reason = Exit::shutdown_with_source(exit_reason.clone());
            self.pending.push(Action::Stop(idx, self.children[idx], stop_reason));
            k += 1;
        }
        self.pending.push(Action::Exit(exit_reason));
        proof {
            assert(self.pending@ =~= shutdown_actions(old(self).children@, exit_reason));
        }
    }

    /// Adds every current child id to the ignored-exit set.
    fn ignore_children_exits(&mut self)
        requires
            old(self).wf(),
        ensures
            final(self).wf(),
            final(self).sup_id == old(self).sup_id,
            final(self).children@ == old(self).children@,
            final(self).failures@ == old(self).failures@,
            final(self).pending@ == old(self).pending@,
            final(self).ignored_exits@ == extend_ids(old(self).ignored_exits@, old(self).children@),
    {
        let n = self.children.len();
        let mut i: usize = 0;
        proof {
            assert(self.children@.skip(0) =~= self.children@);
        }
        while i < n
            invariant
                i <= n,
                n == self.children@.len(),
                self.wf(),
                self.children@ == old(self).children@,
                self.failures@ == old(self).failures@,
                self.pending@ == old(self).pending@,
                self.sup_id == old(self).sup_id,
                extend_ids(self.ignored_exits@, self.children@.skip(i as int)) == extend_ids(
                    old(self).ignored_exits@,
                    old(self).children@,
                ),
            decreases n - i,
        {
            proof {
                let more = self.children@.skip(i as int);
                assert(more.len() > 0);
                assert(more[0] == self.children@[i as int]);
                assert(more.drop_first() =~= self.children@.skip(i as int + 1));
            }
            let child = self.children[i];
            insert_id_vec(&mut self.ignored_exits, child);
            i += 1;
        }
        proof {
            assert(self.children@.skip(n as int).len() == 0);
        }
    }

    /// Feeds one actor-down event into the decider.
    ///
    /// The supervisor's own exit initiates shutdown with the given reason.
    /// An exit that was expected is absorbed. A known child within its
    /// failure budget is queued for restart, alone; one over budget turns
    /// the whole tree down. An unknown linked actor's exit also initiates
    /// shutdown.
    pub fn actor_down(&mut self, at: u64, actor_id: ActorID, exit_reason: Exit)
        requires
            old(self).wf(),
        ensures
            final(self).wf(),
            final(self).sup_id == old(self).sup_id,
            final(self).children@ == old(self).children@,
            // The supervisor itself went down: wind everything up.
            actor_id == old(self).sup_id ==> final(self).pending@ == shutdown_actions(
                old(self).children@,
                exit_reason,
            ) && final(self).failures@ == old(self).failures@ && final(self).ignored_exits@ == old(self).ignored_exits@,
            // An expected exit is absorbed without any action.
            actor_id != old(self).sup_id && old(self).ignored_exits@.contains(actor_id) ==> final(self).pending@ == old(self).pending@ && final(self).failures@ == old(self).failures@
                && final(self).ignored_exits@ == remove_id(old(self).ignored_exits@, actor_id),
            // A known child crashed.
            actor_id != old(self).sup_id && !old(self).ignored_exits@.contains(actor_id) && old(self).children@.contains(actor_id) ==> {
                let idx = old(self).children@.index_of_first(actor_id)->Some_0;
                let stats0 = old(self).failures@[idx];
                let recorded = retained(stats0.failures@, at, stats0.within).push(at);
                let exceeded = recorded.len() > stats0.max_failures;
                &&& final(self).failures@.len() == old(self).failures@.len()
                &&& forall|k: int|
                    0 <= k < old(self).failures@.len() && k != idx ==> final(self).failures@[k]
                        == old(self).failures@[k]
                &&& final(self).failures@[idx].failures@ == recorded
                &&& final(self).failures@[idx].max_failures == stats0.max_failures
                &&& final(self).failures@[idx].within == stats0.within
                &&& (!exceeded ==> final(self).pending@ == old(self).pending@.push(
                    Action::Start(idx as usize),
                ) && final(self).ignored_exits@ == old(self).ignored_exits@)
                &&& (exceeded ==> final(self).pending@ == shutdown_actions(
                    old(self).children@,
                    Exit::Shutdown(Some(Box::new(exit_reason))),
                ) && final(self).ignored_exits@ == extend_ids(
                    old(self).ignored_exits@,
                    old(self).children@,
                ))
            },
            // An unknown linked actor exited: initiate shutdown.
            actor_id != old(self).sup_id && !old(self).ignored_exits@.contains(actor_id) && !old(self).children@.contains(actor_id) ==> final(self).pending@ == shutdown_actions(
                old(self).children@,
                exit_reason,
            ) && final(self).failures@ == old(self).failures@ && final(self).ignored_exits@
                == extend_ids(old(self).ignored_exits@, old(self).children@),
    {
        if actor_id == self.sup_id {
            self.initiate_shutdown(exit_reason);
            return;
        }
        if ids_contain(&self.ignored_exits, actor_id) {
            remove_id_vec(&mut self.ignored_exits, actor_id);
            return;
        }
        match first_index_of(&self.children, actor_id) {
            Some(idx) => {
                let exceeded = self.failures[idx].report(at);
                if exceeded {
                    self.ignore_children_exits();
                    self.initiate_shutdown(Exit::shutdown_with_source(exit_reason));
                } else {
                    self.pending.push(Action::Start(idx));
                }
            },
            None => {
                self.ignore_children_exits();
                self.initiate_shutdown(exit_reason);
            },
        }
    }
}

/// The index of the first occurrence of `id` in `v`, if any.
fn first_index_of(v: &Vec<ActorID>, id: ActorID) -> (r: Option<usize>)
    ensures
        match r {
            Some(i) => v@.index_of_first(id) == Some(i as int) && i < v@.len() && v@[i as int]
                == id,
            None => !v@.contains(id),
        },
{
    let mut i: usize = 0;
    while i < v.len()
        invariant
            i <= v@.len(),
            forall|k: int| 0 <= k < i ==> v@[k] != id,
        decreases v@.len() - i,
    {
        if v[i] == id {
            proof {
                v@.index_of_first_ensures(id);
                assert(v@[i as int] == id);
                assert(v@.contains(id));
                match v@.index_of_first(id) {
                    Some(j) => {
                        if j < i as int {
                            assert(v@[j] != id);
                        }
                        assert(j == i as int);
                    },
                    None => {
                        assert(false);
                    },
                }
            }
            return Some(i);
        }
        i += 1;
    }
    proof {
        assert(!v@.contains(id));
    }
    None
}

} // verus!
