use vstd::prelude::*;

use crate::actor_id::{insert_id, insert_id_vec, no_dup_ids, remove_id, remove_id_vec, ActorID};
use crate::exit::{Exit, SpawnError};
use crate::pipe::Pipe;
use crate::runner::{info_matches, sys_msg_step, ActorState, ActorStateV, SysOutcome};
use crate::spawn_opts::{ExitHandlerRef, InitAckTx, SpawnOpts};
use crate::sys_msg::{ActorInfo, CallMsg, Event, SysMsg};

verus! {

/// Default capacity of a system's actor table.
pub const DEFAULT_MAX_ACTORS: usize = 1024;

/// Configuration a system is created with.
#[derive(Clone, Copy, Debug)]
pub struct SystemConfig {
    /// Number of actor slots; allocation fails when all are leased.
    pub max_actors: usize,
}

impl Default for SystemConfig {
    /// The default slot count.
    fn default() -> (r: Self)
        ensures
            r.max_actors == DEFAULT_MAX_ACTORS,
    {
        SystemConfig { max_actors: DEFAULT_MAX_ACTORS }
    }
}

/// One cell of the actor table: the slot's current generation and, while
/// an actor occupies it, that actor's runner state. The generation is
/// bumped whenever the slot is vacated, so identifiers of past incarnations
/// go stale and operations against them act as if the actor did not exist.
pub struct Slot<M> {
    pub generation: u64,
    pub actor: Option<ActorState<M>>,
}

/// The actor system: a table of slots addressed by `ActorID`.
///
/// This is the discrete core of the runtime: every operation is a state
/// transition whose effect is pinned by its contract. The embedding
/// runtime drives the transitions, performs the waiting, and maps
/// notification tokens to concrete channels.
pub struct System<M> {
    pub system_id: usize,
    pub config: SystemConfig,
    pub slots: Vec<Slot<M>>,
}

/// An outward notification produced by a transition, to be delivered by
/// the embedding runtime.
#[derive(Debug, PartialEq)]
pub enum Notification {
    /// A wait-for-exit watcher under this token learns the final reason.
    WaiterNotified(u64, Exit),
    /// An inspection reply under this token.
    InfoReply(u64, ActorInfo),
    /// The actor delivered its init acknowledgement.
    InitAckFired(InitAckTx, ActorID),
    /// The registered exit handler must be run for this actor and reason.
    ExitHandled(ExitHandlerRef, ActorID, Exit),
}

impl<M> System<M> {
    /// The table keeps its configured size, and every occupied slot holds
    /// an actor whose id names this system, that slot and the slot's
    /// current generation, with a well-formed link set.
    pub open spec fn wf(&self) -> bool {
        &&& self.slots@.len() == self.config.max_actors
        &&& forall|i: int|
            0 <= i < self.slots@.len() ==> match (#[trigger] self.slots@[i]).actor {
                Some(a) => a.actor_id == (ActorID {
                    system_id: self.system_id,
                    slot: i as usize,
                    generation: self.slots@[i].generation,
                }) && a.wf(),
                None => true,
            }
    }

    /// True while `id` names the current occupant of its slot.
    pub open spec fn live_at(&self, id: ActorID) -> bool {
        &&& id.system_id == self.system_id
        &&& (id.slot as int) < self.slots@.len()
        &&& match self.slots@[id.slot as int].actor {
            Some(a) => a.actor_id == id,
            None => false,
        }
    }

    /// The state of the live actor under `id`.
    pub open spec fn actor_v(&self, id: ActorID) -> ActorStateV<M>
        recommends
            self.live_at(id),
    {
        self.slots@[id.slot as int].actor->Some_0@
    }

    /// The generation of the slot `id` points into.
    pub open spec fn gen_at(&self, id: ActorID) -> u64
        recommends
            (id.slot as int) < self.slots@.len(),
    {
        self.slots@[id.slot as int].generation
    }

    /// A fresh system: every slot vacant at generation zero.
    pub fn new(system_id: usize, config: SystemConfig) -> (r: System<M>)
        ensures
            r.wf(),
            r.system_id == system_id,
            r.config == config,
            r.slots@.len() == config.max_actors,
            forall|i: int|
                0 <= i < config.max_actors ==> (#[trigger] r.slots@[i]).actor is None
                    && r.slots@[i].generation == 0,
    {
        let mut slots: Vec<Slot<M>> = Vec::new();
        let mut i: usize = 0;
        while i < config.max_actors
            invariant
                i <= config.max_actors,
                slots@.len() == i,
                forall|k: int|
                    0 <= k < i ==> (#[trigger] slots@[k]).actor is None && slots@[k].generation
                        == 0,
            decreases config.max_actors - i,
        {
            slots.push(Slot { generation: 0, actor: None });
            i += 1;
        }
        System { system_id, config, slots }
    }
}

/// The observable value of the slot at index `j`: its generation and the
/// abstract state of its occupant, if any.
pub open spec fn slot_view<M>(s: System<M>, j: int) -> (u64, Option<ActorStateV<M>>) {
    (
        s.slots@[j].generation,
        match s.slots@[j].actor {
            Some(a) => Some(a@),
            None => None,
        },
    )
}

/// True when the two systems hold the same abstract state: same
/// identity, same configuration, same table contents.
pub open spec fn same_system<M>(s0: System<M>, s1: System<M>) -> bool {
    &&& s1.system_id == s0.system_id
    &&& s1.config == s0.config
    &&& s1.slots@.len() == s0.slots@.len()
    &&& forall|j: int| 0 <= j < s0.slots@.len() ==> slot_view(s1, j) == slot_view(s0, j)
}

/// Equal slot views preserve liveness, the actor's abstract state and
/// the generation for every id addressing that slot.
pub proof fn lemma_slot_view_same<M>(s0: System<M>, s1: System<M>, id: ActorID)
    requires
        (id.slot as int) < s0.slots@.len(),
        (id.slot as int) < s1.slots@.len(),
        slot_view(s1, id.slot as int) == slot_view(s0, id.slot as int),
        s1.system_id == s0.system_id,
    ensures
        s1.live_at(id) == s0.live_at(id),
        s0.live_at(id) ==> s1.actor_v(id) == s0.actor_v(id),
        s1.gen_at(id) == s0.gen_at(id),
{
    match s0.slots@[id.slot as int].actor {
        Some(a0) => {
            match s1.slots@[id.slot as int].actor {
                Some(a1) => {
                    assert(a1@ == a0@);
                    assert(a1.actor_id == a1@.actor_id);
                    assert(a0.actor_id == a0@.actor_id);
                },
                None => {
                    assert(slot_view(s1, id.slot as int).1 is None);
                    assert(false);
                },
            }
        },
        None => {
            match s1.slots@[id.slot as int].actor {
                Some(a1) => {
                    assert(slot_view(s1, id.slot as int).1 is Some);
                    assert(false);
                },
                None => {},
            }
        },
    }
}

/// True when `s1` differs from `s0` in at most the slot at index `i`.
pub open spec fn others_unchanged<M>(s0: System<M>, s1: System<M>, i: int) -> bool {
    &&& s1.system_id == s0.system_id
    &&& s1.config == s0.config
    &&& s1.slots@.len() == s0.slots@.len()
    &&& forall|j: int| 0 <= j < s0.slots@.len() && j != i ==> slot_view(s1, j) == slot_view(s0, j)
}

impl<M> System<M> {
    /// Delivers a system message to `to`'s runner queue. Returns `true`
    /// exactly when a live actor is registered under `to`; a vacant slot
    /// or a stale generation drops the message.
    pub fn send_sys_msg(&mut self, to: ActorID, msg: SysMsg) -> (r: bool)
        requires
            old(self).wf(),
        ensures
            final(self).wf(),
            r == old(self).live_at(to),
            !r ==> same_system(*old(self), *final(self)),
            r ==> others_unchanged(*old(self), *final(self), to.slot as int) && final(self).gen_at(
                to,
            ) == old(self).gen_at(to) && final(self).live_at(to) && final(self).actor_v(to) == (
            ActorStateV {
                pending_sys: old(self).actor_v(to).pending_sys.push(msg),
                ..old(self).actor_v(to)
            }),
    {
        if to.system_id != self.system_id {
            return false;
        }
        if to.slot >= self.slots.len() {
            return false;
        }
        let mut delivered = false;
        let slot = &mut self.slots[to.slot];
        match &mut slot.actor {
            Some(a) => {
                if a.actor_id == to {
                    a.pending_sys.push(msg);
                    delivered = true;
                }
            },
            None => {},
        }
        proof {
            if !delivered {
                assert(self.slots@ =~= old(self).slots@);
            }
        }
        delivered
    }

    /// Delivers a user message to `to`'s unbounded queue; against a vacant
    /// slot or a stale generation the message is silently dropped and the
    /// system is unchanged — in particular, no message addressed to a
    /// terminated incarnation is ever delivered.
    pub fn send(&mut self, to: ActorID, message: M)
        requires
            old(self).wf(),
        ensures
            final(self).wf(),
            !old(self).live_at(to) ==> same_system(*old(self), *final(self)),
            old(self).live_at(to) ==> others_unchanged(*old(self), *final(self), to.slot as int)
                && final(self).gen_at(to) == old(self).gen_at(to) && final(self).live_at(to)
                && final(self).actor_v(to) == (ActorStateV {
                pending_msgs: old(self).actor_v(to).pending_msgs.push(message),
                ..old(self).actor_v(to)
            }),
    {
        if to.system_id != self.system_id {
            return;
        }
        if to.slot >= self.slots.len() {
            return;
        }
        let mut delivered = false;
        let slot = &mut self.slots[to.slot];
        match &mut slot.actor {
            Some(a) => {
                if a.actor_id == to {
                    a.pending_msgs.push(message);
                    delivered = true;
                }
            },
            None => {},
        }
        proof {
            if !delivered {
                assert(self.slots@ =~= old(self).slots@);
            }
        }
    }

    /// Sends the exit signal `SigExit(id, reason)` to `id`.
    pub fn exit(&mut self, id: ActorID, reason: Exit)
        requires
            old(self).wf(),
        ensures
            final(self).wf(),
            !old(self).live_at(id) ==> same_system(*old(self), *final(self)),
            old(self).live_at(id) ==> others_unchanged(*old(self), *final(self), id.slot as int)
                && final(self).gen_at(id) == old(self).gen_at(id) && final(self).live_at(id)
                && final(self).actor_v(id) == (ActorStateV {
                pending_sys: old(self).actor_v(id).pending_sys.push(
                    SysMsg::SigExit(id, reason),
                ),
                ..old(self).actor_v(id)
            }),
    {
        let _ = self.send_sys_msg(id, SysMsg::SigExit(id, reason));
    }

    /// Asks to be woken, under `token`, with `id`'s final exit reason.
    /// Against a dead or stale id the request resolves immediately with
    /// `NoActor`; otherwise `None` is returned and the token is woken at
    /// termination.
    pub fn wait(&mut self, id: ActorID, token: u64) -> (r: Option<Exit>)
        requires
            old(self).wf(),
        ensures
            final(self).wf(),
            !old(self).live_at(id) ==> r == Some(Exit::NoActor) && same_system(*old(self), *final(self)),
            old(self).live_at(id) ==> r is None && others_unchanged(
                *old(self),
                *final(self),
                id.slot as int,
            ) && final(self).gen_at(id) == old(self).gen_at(id) && final(self).live_at(id) && final(self).actor_v(id) == (ActorStateV {
                pending_sys: old(self).actor_v(id).pending_sys.push(SysMsg::Wait(token)),
                ..old(self).actor_v(id)
            }),
    {
        if self.send_sys_msg(id, SysMsg::Wait(token)) {
            None
        } else {
            Some(Exit::no_actor())
        }
    }

    /// Links two actors by sending `Link` to both sides; when one side is
    /// dead or stale, the accepting side is compensated with a
    /// `SigExit(other, NoActor)` so it observes the failed link.
    pub fn link(&mut self, left: ActorID, right: ActorID)
        requires
            old(self).wf(),
        ensures
            final(self).wf(),
            !old(self).live_at(left) && !old(self).live_at(right) ==> same_system(*old(self), *final(self)),
            old(self).live_at(left) && old(self).live_at(right) && left != right ==> final(self).actor_v(left) == (ActorStateV {
                pending_sys: old(self).actor_v(left).pending_sys.push(SysMsg::Link(right)),
                ..old(self).actor_v(left)
            }) && final(self).actor_v(right) == (ActorStateV {
                pending_sys: old(self).actor_v(right).pending_sys.push(SysMsg::Link(left)),
                ..old(self).actor_v(right)
            }) && final(self).live_at(left) && final(self).live_at(right) && final(self).gen_at(
                left,
            ) == old(self).gen_at(left) && final(self).gen_at(right) == old(self).gen_at(right)
                && final(self).slots@.len() == old(self).slots@.len() && (forall|j: int|
                0 <= j < old(self).slots@.len() && j != left.slot && j != right.slot ==> slot_view(
                    *final(self),
                    j,
                ) == slot_view(*old(self), j)),
            old(self).live_at(left) && !old(self).live_at(right) ==> others_unchanged(
                *old(self),
                *final(self),
                left.slot as int,
            ) && final(self).live_at(left) && final(self).actor_v(left) == (ActorStateV {
                pending_sys: old(self).actor_v(left).pending_sys.push(SysMsg::Link(right)).push(
                    SysMsg::SigExit(right, Exit::NoActor),
                ),
                ..old(self).actor_v(left)
            }),
            !old(self).live_at(left) && old(self).live_at(right) ==> others_unchanged(
                *old(self),
                *final(self),
                right.slot as int,
            ) && final(self).live_at(right) && final(self).actor_v(right) == (ActorStateV {
                pending_sys: old(self).actor_v(right).pending_sys.push(SysMsg::Link(left)).push(
                    SysMsg::SigExit(left, Exit::NoActor),
                ),
                ..old(self).actor_v(right)
            }),
            old(self).live_at(left) && old(self).live_at(right) && left == right ==> others_unchanged(
                *old(self),
                *final(self),
                left.slot as int,
            ) && final(self).live_at(left) && final(self).actor_v(left) == (ActorStateV {
                pending_sys: old(self).actor_v(left).pending_sys.push(SysMsg::Link(right)).push(
                    SysMsg::Link(left),
                ),
                ..old(self).actor_v(left)
            }),
    {
        let ghost s0 = *self;
        let left_accepted = self.send_sys_msg(left, SysMsg::Link(right));
        let ghost s1 = *self;
        proof {
            if (right.slot as int) < s0.slots@.len() {
                if !left_accepted || right.slot != left.slot {
                    lemma_slot_view_same(s0, s1, right);
                }
            }
            if left_accepted && right.slot == left.slot {
                if s0.live_at(right) {
                    assert(right == left);
                } else if s1.live_at(right) {
                    assert(right == left);
                    assert(false);
                }
            }
        }
        let right_accepted = self.send_sys_msg(right, SysMsg::Link(left));
        let ghost s2 = *self;
        proof {
            if left_accepted {
                if !right_accepted || left.slot != right.slot {
                    lemma_slot_view_same(s1, s2, left);
                }
            }
        }
        if !right_accepted {
            let _ = self.send_sys_msg(left, SysMsg::SigExit(right, Exit::no_actor()));
        }
        if !left_accepted {
            let ghost s3 = *self;
            proof {
                if right_accepted {
                    lemma_slot_view_same(s2, s3, right);
                }
            }
            let _ = self.send_sys_msg(right, SysMsg::SigExit(left, Exit::no_actor()));
        }
    }

    /// An inspection snapshot of the live actor under `id`: `Some` while
    /// the actor is registered, `None` once it is gone or the id is stale.
    pub fn actor_info(&self, id: ActorID) -> (r: Option<ActorInfo>)
        requires
            self.wf(),
        ensures
            match r {
                Some(info) => self.live_at(id) && info_matches(info, self.actor_v(id)),
                None => !self.live_at(id),
            },
    {
        if id.system_id != self.system_id {
            return None;
        }
        if id.slot >= self.slots.len() {
            return None;
        }
        match &self.slots[id.slot].actor {
            Some(a) => {
                if a.actor_id == id {
                    Some(a.info())
                } else {
                    None
                }
            },
            None => None,
        }
    }

    /// A snapshot of all live actor ids, in slot order.
    pub fn all_actors(&self) -> (r: Vec<ActorID>)
        requires
            self.wf(),
        ensures
            forall|id: ActorID| r@.contains(id) == self.live_at(id),
            forall|k1: int, k2: int|
                0 <= k1 < k2 < r@.len() ==> #[trigger] r@[k1].slot < #[trigger] r@[k2].slot,
    {
        let mut out: Vec<ActorID> = Vec::new();
        let mut i: usize = 0;
        while i < self.slots.len()
            invariant
                i <= self.slots@.len(),
                self.wf(),
                forall|k: int|
                    0 <= k < out@.len() ==> self.live_at(#[trigger] out@[k]) && (out@[k].slot as int)
                        < i,
                forall|id: ActorID|
                    self.live_at(id) && (id.slot as int) < i ==> out@.contains(id),
                forall|k1: int, k2: int|
                    0 <= k1 < k2 < out@.len() ==> #[trigger] out@[k1].slot < #[trigger] out@[
                        k2
                    ].slot,
            decreases self.slots@.len() - i,
        {
            match &self.slots[i].actor {
                Some(a) => {
                    let id = a.actor_id;
                    let ghost out0 = out@;
                    proof {
                        assert(id.slot == i);
                    }
                    out.push(id);
                    proof {
                        assert(out@[out@.len() - 1] == id);
                        assert forall|idq: ActorID|
                            self.live_at(idq) && (idq.slot as int) < i + 1 implies out@.contains(
                            idq,
                        ) by {
                            if (idq.slot as int) < i {
                                assert(out0.contains(idq));
                                let w = choose|w: int| 0 <= w < out0.len() && out0[w] == idq;
                                assert(out@[w] == idq);
                            } else {
                                assert(out@[out@.len() - 1] == idq);
                            }
                        }
                    }
                },
                None => {
                    proof {
                        assert forall|idq: ActorID|
                            self.live_at(idq) && (idq.slot as int) < i + 1 implies out@.contains(
                            idq,
                        ) by {
                            if (idq.slot as int) == i {
                                assert(false);
                            }
                        }
                    }
                },
            }
            i += 1;
        }
        proof {
            assert forall|id: ActorID| out@.contains(id) implies self.live_at(id) by {
                let k = choose|k: int| 0 <= k < out@.len() && out@[k] == id;
            }
        }
        out
    }
}

} // verus!

verus! {

/// What spawning with initial link `l` puts at the back of the new
/// actor's own system queue: a self-link request when `l` is the actor
/// itself, nothing when `l` is live (that peer gets the `Link` instead),
/// and a compensating `SigExit(l, NoActor)` when `l` is already gone —
/// so a dead initial link is observed exactly once.
pub open spec fn spawn_link_part<M>(sys: System<M>, new_id: ActorID, l: ActorID) -> Seq<SysMsg> {
    if l == new_id {
        seq![SysMsg::Link(new_id)]
    } else if sys.live_at(l) {
        Seq::empty()
    } else {
        seq![SysMsg::SigExit(l, Exit::NoActor)]
    }
}

/// The new actor's own system queue right after spawning with the given
/// initial links, relative to the pre-spawn system `sys`.
pub open spec fn spawn_self_queue<M>(sys: System<M>, new_id: ActorID, links: Seq<ActorID>) -> Seq<
    SysMsg,
>
    decreases links.len(),
{
    if links.len() == 0 {
        Seq::empty()
    } else {
        spawn_link_part(sys, new_id, links[0]) + spawn_self_queue(sys, new_id, links.drop_first())
    }
}

proof fn lemma_spawn_self_queue_push<M>(
    sys: System<M>,
    new_id: ActorID,
    s: Seq<ActorID>,
    x: ActorID,
)
    ensures
        spawn_self_queue(sys, new_id, s.push(x)) == spawn_self_queue(sys, new_id, s)
            + spawn_link_part(sys, new_id, x),
    decreases s.len(),
{
    if s.len() == 0 {
        assert(s.push(x)[0] == x);
        assert(spawn_self_queue(sys, new_id, s) == Seq::<SysMsg>::empty());
        assert(spawn_self_queue(sys, new_id, s.push(x)) == spawn_link_part(sys, new_id, x)
            + spawn_self_queue(sys, new_id, s.push(x).drop_first()));
        assert(s.push(x).drop_first().len() == 0);
        assert(spawn_self_queue(sys, new_id, s.push(x).drop_first()) == Seq::<SysMsg>::empty());
        assert(spawn_link_part(sys, new_id, x) + Seq::<SysMsg>::empty() =~= Seq::<
            SysMsg,
        >::empty() + spawn_link_part(sys, new_id, x));
    } else {
        assert(s.push(x)[0] == s[0]);
        assert(s.push(x).drop_first() =~= s.drop_first().push(x));
        lemma_spawn_self_queue_push(sys, new_id, s.drop_first(), x);
        assert(spawn_self_queue(sys, new_id, s.push(x)) == spawn_link_part(sys, new_id, s[0]) + (
        spawn_self_queue(sys, new_id, s.drop_first()) + spawn_link_part(sys, new_id, x)));
        assert(spawn_link_part(sys, new_id, s[0]) + (spawn_self_queue(sys, new_id, s.drop_first())
            + spawn_link_part(sys, new_id, x)) =~= (spawn_link_part(sys, new_id, s[0])
            + spawn_self_queue(sys, new_id, s.drop_first())) + spawn_link_part(sys, new_id, x));
    }
}

/// True when spawning with the given initial links pushes a `Link`
/// request into the slot at index `j`: some link id is live there.
pub open spec fn spawn_touches<M>(sys: System<M>, links: Seq<ActorID>, j: int) -> bool {
    exists|k: int|
        0 <= k < links.len() && (#[trigger] links[k]).slot as int == j && sys.live_at(links[k])
}

/// Finds the lowest vacant slot.
fn find_free_slot<M>(slots: &Vec<Slot<M>>) -> (r: Option<usize>)
    ensures
        match r {
            Some(i) => (i as int) < slots@.len() && slots@[i as int].actor is None && (forall|
                j: int,
            |
                0 <= j < i ==> !((#[trigger] slots@[j]).actor is None)),
            None => forall|j: int|
                0 <= j < slots@.len() ==> !((#[trigger] slots@[j]).actor is None),
        },
{
    let mut i: usize = 0;
    while i < slots.len()
        invariant
            i <= slots@.len(),
            forall|j: int| 0 <= j < i ==> !((#[trigger] slots@[j]).actor is None),
        decreases slots@.len() - i,
    {
        match &slots[i].actor {
            None => {
                return Some(i);
            },
            Some(_) => {},
        }
        i += 1;
    }
    None
}

} // verus!

verus! {

impl<M> System<M> {
    /// Spawns an actor: leases the lowest vacant slot, installs the runner
    /// state configured by `opts`, and establishes the initial links
    /// before the id is returned — each live link target receives a
    /// `Link` request, and each dead one is compensated by a
    /// `SigExit(target, NoActor)` in the new actor's own queue. The
    /// init-ack sender is stored, still unfired, in the new actor's
    /// state. Fails with `MaxActorsLimit` exactly when every slot is
    /// occupied.
    pub fn spawn(&mut self, opts: SpawnOpts) -> (r: Result<ActorID, SpawnError>)
        requires
            old(self).wf(),
            opts.wf(),
        ensures
            final(self).wf(),
            match r {
                Result::Err(e) => e is MaxActorsLimit && same_system(*old(self), *final(self)) && (
                forall|j: int|
                    0 <= j < old(self).slots@.len() ==> !((#[trigger] old(self).slots@[j]).actor is None)),
                Result::Ok(id) => {
                    &&& id.system_id == old(self).system_id
                    &&& (id.slot as int) < old(self).slots@.len()
                    &&& old(self).slots@[id.slot as int].actor is None
                    &&& id.generation == old(self).slots@[id.slot as int].generation
                    &&& forall|j: int|
                        0 <= j < id.slot ==> !((#[trigger] old(self).slots@[j]).actor is None)
                    &&& final(self).live_at(id)
                    &&& final(self).gen_at(id) == id.generation
                    &&& final(self).actor_v(id) == (ActorStateV {
                        actor_id: id,
                        links: opts.links_view(),
                        trap_exit: false,
                        msg_inbox: Seq::<M>::empty(),
                        msg_cap: opts.msg_inbox_size_view(),
                        sig_inbox: Seq::empty(),
                        sig_cap: opts.sig_inbox_size_view(),
                        pending_msgs: Seq::<M>::empty(),
                        pending_sys: spawn_self_queue(*old(self), id, opts.links_view()),
                        tasks: Seq::<M>::empty(),
                        waiters: Seq::empty(),
                        init_ack: opts.init_ack_view(),
                        exit_handler: opts.exit_handler_view(),
                    })
                    &&& forall|l: ActorID|
                        #[trigger] opts.links_view().contains(l) && old(self).live_at(l) ==> final(self).live_at(l) && final(self).gen_at(l) == old(self).gen_at(l) && final(self).actor_v(l) == (ActorStateV {
                            pending_sys: old(self).actor_v(l).pending_sys.push(SysMsg::Link(id)),
                            ..old(self).actor_v(l)
                        })
                    &&& forall|j: int|
                        0 <= j < old(self).slots@.len() && j != id.slot && !spawn_touches(
                            *old(self),
                            opts.links_view(),
                            j,
                        ) ==> slot_view(*final(self), j) == slot_view(*old(self), j)
                    &&& final(self).system_id == old(self).system_id
                    &&& final(self).config == old(self).config
                    &&& final(self).slots@.len() == old(self).slots@.len()
                },
            },
    {
        let slot_idx = match find_free_slot(&self.slots) {
            None => {
                return Result::Err(SpawnError::MaxActorsLimit);
            },
            Some(i) => i,
        };
        let generation = self.slots[slot_idx].generation;
        let id = ActorID { system_id: self.system_id, slot: slot_idx, generation };

        let ghost opts0 = opts;
        let mut opts = opts;
        let state_links = opts.links();
        let loop_links = opts.links();
        let msg_cap = opts.msg_inbox_size();
        let sig_cap = opts.sig_inbox_size();
        let init_ack = opts.take_init_ack();
        let exit_handler = opts.take_exit_handler();

        let state: ActorState<M> = ActorState {
            actor_id: id,
            links: state_links,
            trap_exit: false,
            msg_inbox: Pipe::new(msg_cap),
            sig_inbox: Pipe::new(sig_cap),
            pending_msgs: Vec::new(),
            pending_sys: Vec::new(),
            tasks: Vec::new(),
            waiters: Vec::new(),
            init_ack,
            exit_handler,
        };
        self.slots[slot_idx] = Slot { generation, actor: Some(state) };

        let ghost s0 = *old(self);
        proof {
            assert forall|j: int|
                0 <= j < self.slots@.len() implies match (#[trigger] self.slots@[j]).actor {
                Some(a) => a.actor_id == (ActorID {
                    system_id: self.system_id,
                    slot: j as usize,
                    generation: self.slots@[j].generation,
                }) && a.wf(),
                None => true,
            } by {
                if j != slot_idx as int {
                    assert(self.slots@[j] == s0.slots@[j]);
                }
            }
            assert(self.wf());
            assert(self.live_at(id));
            assert(spawn_self_queue(s0, id, loop_links@.take(0)) =~= Seq::<SysMsg>::empty());
        }

        let mut k: usize = 0;
        while k < loop_links.len()
            invariant
                k <= loop_links@.len(),
                loop_links@ == opts0.links_view(),
                no_dup_ids(loop_links@),
                self.wf(),
                self.system_id == s0.system_id,
                self.config == s0.config,
                self.slots@.len() == s0.slots@.len(),
                (id.slot as int) < s0.slots@.len(),
                id.system_id == s0.system_id,
                s0.slots@[id.slot as int].actor is None,
                self.live_at(id),
                self.gen_at(id) == id.generation,
                self.actor_v(id) == (ActorStateV {
                    actor_id: id,
                    links: opts0.links_view(),
                    trap_exit: false,
                    msg_inbox: Seq::<M>::empty(),
                    msg_cap: opts0.msg_inbox_size_view(),
                    sig_inbox: Seq::empty(),
                    sig_cap: opts0.sig_inbox_size_view(),
                    pending_msgs: Seq::<M>::empty(),
                    pending_sys: spawn_self_queue(s0, id, loop_links@.take(k as int)),
                    tasks: Seq::<M>::empty(),
                    waiters: Seq::empty(),
                    init_ack: opts0.init_ack_view(),
                    exit_handler: opts0.exit_handler_view(),
                }),
                forall|l2: ActorID|
                    #[trigger] loop_links@.take(k as int).contains(l2) && s0.live_at(l2)
                        ==> self.live_at(l2) && self.gen_at(l2) == s0.gen_at(l2) && self.actor_v(l2)
                        == (ActorStateV {
                        pending_sys: s0.actor_v(l2).pending_sys.push(SysMsg::Link(id)),
                        ..s0.actor_v(l2)
                    }),
                forall|j: int|
                    0 <= j < s0.slots@.len() && j != id.slot && !spawn_touches(
                        s0,
                        loop_links@.take(k as int),
                        j,
                    ) ==> slot_view(*self, j) == slot_view(s0, j),
            decreases loop_links@.len() - k,
        {
            let l = loop_links[k];
            let ghost s_pre = *self;
            let ghost prefix = loop_links@.take(k as int);
            proof {
                assert(loop_links@.take(k as int + 1) =~= prefix.push(l));
                lemma_spawn_self_queue_push(s0, id, prefix, l);
                // A link processed earlier and live in `s0` occupies a slot
                // other than the new actor's.
                assert forall|l2: ActorID|
                    #[trigger] prefix.contains(l2) && s0.live_at(l2) implies l2.slot
                    != id.slot by {}
            }
            if l.system_id == id.system_id && l.slot == id.slot && l.generation == id.generation {
                let ok = self.send_sys_msg(id, SysMsg::Link(id));
                proof {
                    assert(l == id);
                    assert(spawn_link_part(s0, id, l) =~= seq![SysMsg::Link(id)]);
                    assert(self.actor_v(id).pending_sys =~= spawn_self_queue(
                        s0,
                        id,
                        prefix.push(l),
                    ));
                    assert forall|l2: ActorID|
                        #[trigger] prefix.push(l).contains(l2) && s0.live_at(l2) implies self.live_at(
                        l2,
                    ) && self.gen_at(l2) == s0.gen_at(l2) && self.actor_v(l2) == (ActorStateV {
                        pending_sys: s0.actor_v(l2).pending_sys.push(SysMsg::Link(id)),
                        ..s0.actor_v(l2)
                    }) by {
                        assert(l2 != l);
                        assert(prefix.contains(l2));
                        lemma_slot_view_same(s_pre, *self, l2);
                    }
                    assert forall|j: int|
                        0 <= j < s0.slots@.len() && j != id.slot && !spawn_touches(
                            s0,
                            prefix.push(l),
                            j,
                        ) implies slot_view(*self, j) == slot_view(s0, j) by {
                        assert(!spawn_touches(s0, prefix, j)) by {
                            if spawn_touches(s0, prefix, j) {
                                let w = choose|w: int|
                                    0 <= w < prefix.len() && (#[trigger] prefix[w]).slot as int == j
                                        && s0.live_at(prefix[w]);
                                assert(prefix.push(l)[w] == prefix[w]);
                            }
                        }
                        assert(slot_view(*self, j) == slot_view(s_pre, j));
                    }
                }
            } else {
                proof {
                    assert(l != id);
                    if (l.slot as int) < s0.slots@.len() {
                        if l.slot == id.slot {
                            if s0.live_at(l) {
                                assert(false);
                            }
                            if s_pre.live_at(l) {
                                assert(l == id);
                                assert(false);
                            }
                        } else if spawn_touches(s0, prefix, l.slot as int) {
                            let w = choose|w: int|
                                0 <= w < prefix.len() && (#[trigger] prefix[w]).slot as int
                                    == l.slot as int && s0.live_at(prefix[w]);
                            let lw = prefix[w];
                            assert(prefix.contains(lw));
                            assert(s_pre.live_at(lw));
                            if s0.live_at(l) {
                                assert(l == lw);
                                assert(prefix[w] == loop_links@[w]);
                                assert(loop_links@[k as int] == l);
                                assert(false);
                            }
                            if s_pre.live_at(l) {
                                assert(l == lw);
                                assert(false);
                            }
                        } else {
                            lemma_slot_view_same(s0, s_pre, l);
                        }
                    }
                }
                let ok = self.send_sys_msg(l, SysMsg::Link(id));
                let ghost s_mid = *self;
                if !ok {
                    proof {
                        assert(!s0.live_at(l));
                        assert(same_system(s_pre, s_mid));
                    }
                    let _ = self.send_sys_msg(id, SysMsg::SigExit(l, Exit::no_actor()));
                    proof {
                        lemma_slot_view_same(s_pre, s_mid, id);
                        assert(spawn_link_part(s0, id, l) =~= seq![
                            SysMsg::SigExit(l, Exit::NoActor),
                        ]);
                        assert(self.actor_v(id).pending_sys =~= spawn_self_queue(
                            s0,
                            id,
                            prefix.push(l),
                        ));
                        assert forall|l2: ActorID|
                            #[trigger] prefix.push(l).contains(l2) && s0.live_at(l2) implies self.live_at(
                            l2,
                        ) && self.gen_at(l2) == s0.gen_at(l2) && self.actor_v(l2) == (ActorStateV {
                            pending_sys: s0.actor_v(l2).pending_sys.push(SysMsg::Link(id)),
                            ..s0.actor_v(l2)
                        }) by {
                            assert(l2 != l);
                            assert(prefix.contains(l2));
                            lemma_slot_view_same(s_pre, s_mid, l2);
                            lemma_slot_view_same(s_mid, *self, l2);
                        }
                        assert forall|j: int|
                            0 <= j < s0.slots@.len() && j != id.slot && !spawn_touches(
                                s0,
                                prefix.push(l),
                                j,
                            ) implies slot_view(*self, j) == slot_view(s0, j) by {
                            assert(!spawn_touches(s0, prefix, j)) by {
                                if spawn_touches(s0, prefix, j) {
                                    let w = choose|w: int|
                                        0 <= w < prefix.len() && (#[trigger] prefix[w]).slot as int
                                            == j && s0.live_at(prefix[w]);
                                    assert(prefix.push(l)[w] == prefix[w]);
                                }
                            }
                            assert(slot_view(*self, j) == slot_view(s_mid, j));
                            assert(slot_view(s_mid, j) == slot_view(s_pre, j));
                        }
                    }
                } else {
                    proof {
                        assert(s_pre.live_at(l));
                        assert(s0.live_at(l));
                        assert(spawn_link_part(s0, id, l) =~= Seq::<SysMsg>::empty());
                        lemma_slot_view_same(s_pre, s_mid, id);
                        assert(self.actor_v(id).pending_sys =~= spawn_self_queue(
                            s0,
                            id,
                            prefix.push(l),
                        ));
                        assert(s_pre.actor_v(l) == s0.actor_v(l) && s_pre.gen_at(l) == s0.gen_at(
                            l,
                        )) by {
                            if spawn_touches(s0, prefix, l.slot as int) {
                                let w = choose|w: int|
                                    0 <= w < prefix.len() && (#[trigger] prefix[w]).slot as int
                                        == l.slot as int && s0.live_at(prefix[w]);
                                let lw = prefix[w];
                                assert(prefix.contains(lw));
                                assert(l == lw);
                                assert(prefix[w] == loop_links@[w]);
                                assert(loop_links@[k as int] == l);
                                assert(false);
                            } else {
                                lemma_slot_view_same(s0, s_pre, l);
                            }
                        }
                        assert forall|l2: ActorID|
                            #[trigger] prefix.push(l).contains(l2) && s0.live_at(l2) implies self.live_at(
                            l2,
                        ) && self.gen_at(l2) == s0.gen_at(l2) && self.actor_v(l2) == (ActorStateV {
                            pending_sys: s0.actor_v(l2).pending_sys.push(SysMsg::Link(id)),
                            ..s0.actor_v(l2)
                        }) by {
                            if l2 == l {
                            } else {
                                assert(prefix.contains(l2));
                                assert(l2.slot != l.slot) by {
                                    if l2.slot == l.slot {
                                        assert(l2 == l);
                                    }
                                }
                                lemma_slot_view_same(s_pre, s_mid, l2);
                            }
                        }
                        assert forall|j: int|
                            0 <= j < s0.slots@.len() && j != id.slot && !spawn_touches(
                                s0,
                                prefix.push(l),
                                j,
                            ) implies slot_view(*self, j) == slot_view(s0, j) by {
                            assert(!spawn_touches(s0, prefix, j)) by {
                                if spawn_touches(s0, prefix, j) {
                                    let w = choose|w: int|
                                        0 <= w < prefix.len() && (#[trigger] prefix[w]).slot as int
                                            == j && s0.live_at(prefix[w]);
                                    assert(prefix.push(l)[w] == prefix[w]);
                                }
                            }
                            assert(j != l.slot as int) by {
                                if j == l.slot as int {
                                    assert(prefix.push(l)[prefix.len() as int] == l);
                                    assert(spawn_touches(s0, prefix.push(l), j));
                                }
                            }
                            assert(slot_view(*self, j) == slot_view(s_pre, j));
                        }
                    }
                }
            }
            k += 1;
        }
        proof {
            assert(loop_links@.take(loop_links@.len() as int) =~= loop_links@);
        }
        Result::Ok(id)
    }
}

} // verus!

verus! {

/// Result of one runner scheduling step over a queue.
#[derive(Debug, PartialEq, Eq, Structural, Clone, Copy)]
pub enum QueueStep {
    /// Nothing to do: the actor is gone or the queue is empty.
    Idle,
    /// The bounded inbox is full: the runner would suspend here.
    Blocked,
    /// One element moved.
    Progressed,
}

/// Result of handling the front system message of an actor's queue.
#[derive(Debug, PartialEq)]
pub enum SysStep {
    /// The actor is gone or has no pending system messages.
    Idle,
    /// The signal inbox is full: the runner would suspend, leaving the
    /// message queued.
    Blocked,
    /// The message was handled; the runner keeps running.
    Progressed,
    /// An inspection reply to deliver under the token.
    Reply(u64, ActorInfo),
    /// The runner must terminate with this reason; the driver follows up
    /// with `terminate`.
    ExitDecision(Exit),
}

impl<M> System<M> {
    /// Handles the front message of `id`'s system queue, as
    /// `sys_msg_step` describes; fair selection across the runner's
    /// sources is the driver's business.
    pub fn step_sys(&mut self, id: ActorID) -> (r: SysStep)
        requires
            old(self).wf(),
        ensures
            final(self).wf(),
            ({
                let a0 = old(self).actor_v(id);
                let popped = (ActorStateV { pending_sys: a0.pending_sys.drop_first(), ..a0 });
                let m = a0.pending_sys[0];
                match r {
                    SysStep::Idle => (!old(self).live_at(id) || a0.pending_sys.len() == 0)
                        && same_system(*old(self), *final(self)),
                    SysStep::Blocked => old(self).live_at(id) && a0.pending_sys.len() > 0
                        && same_system(*old(self), *final(self)) && sys_msg_step(
                        popped,
                        popped,
                        m,
                        SysOutcome::Blocked(m),
                    ),
                    SysStep::Progressed => old(self).live_at(id) && a0.pending_sys.len() > 0
                        && others_unchanged(*old(self), *final(self), id.slot as int) && final(self).gen_at(id) == old(self).gen_at(id) && final(self).live_at(id) && sys_msg_step(
                        popped,
                        final(self).actor_v(id),
                        m,
                        SysOutcome::Progressed,
                    ),
                    SysStep::Reply(t, info) => old(self).live_at(id) && a0.pending_sys.len() > 0
                        && others_unchanged(*old(self), *final(self), id.slot as int) && final(self).gen_at(id) == old(self).gen_at(id) && final(self).live_at(id) && sys_msg_step(
                        popped,
                        final(self).actor_v(id),
                        m,
                        SysOutcome::Reply(t, info),
                    ),
                    SysStep::ExitDecision(e) => old(self).live_at(id) && a0.pending_sys.len() > 0
                        && others_unchanged(*old(self), *final(self), id.slot as int) && final(self).gen_at(id) == old(self).gen_at(id) && final(self).live_at(id) && sys_msg_step(
                        popped,
                        final(self).actor_v(id),
                        m,
                        SysOutcome::ExitDecision(e),
                    ),
                }
            }),
    {
        if id.system_id != self.system_id {
            return SysStep::Idle;
        }
        if id.slot >= self.slots.len() {
            return SysStep::Idle;
        }
        let ghost s0 = *self;
        let mut result = SysStep::Idle;
        let slot = &mut self.slots[id.slot];
        match &mut slot.actor {
            Some(a) => {
                if a.actor_id == id {
                    if a.pending_sys.len() > 0 {
                        let m = a.pending_sys.remove(0);
                        let out = a.apply_sys_msg(m);
                        match out {
                            SysOutcome::Progressed => {
                                result = SysStep::Progressed;
                            },
                            SysOutcome::Blocked(mb) => {
                                a.pending_sys.insert(0, mb);
                                proof {
                                    assert(a.pending_sys@ =~= s0.actor_v(id).pending_sys);
                                }
                                result = SysStep::Blocked;
                            },
                            SysOutcome::Reply(t, info) => {
                                result = SysStep::Reply(t, info);
                            },
                            SysOutcome::ExitDecision(e) => {
                                result = SysStep::ExitDecision(e);
                            },
                        }
                    }
                }
            },
            None => {},
        }
        proof {
            match result {
                SysStep::Idle => {
                    assert(same_system(s0, *self));
                },
                SysStep::Blocked => {
                    assert(same_system(s0, *self));
                },
                _ => {},
            }
        }
        result
    }

    /// Forwards the oldest accepted user message into the bounded inbox,
    /// suspending (`Blocked`) while the inbox is full — the unbounded
    /// queue absorbs bursts while the behaviour sees backpressure.
    pub fn step_user(&mut self, id: ActorID) -> (r: QueueStep)
        requires
            old(self).wf(),
        ensures
            final(self).wf(),
            ({
                let a0 = old(self).actor_v(id);
                match r {
                    QueueStep::Idle => (!old(self).live_at(id) || a0.pending_msgs.len() == 0)
                        && same_system(*old(self), *final(self)),
                    QueueStep::Blocked => old(self).live_at(id) && a0.pending_msgs.len() > 0
                        && a0.msg_inbox.len() >= a0.msg_cap && same_system(
                        *old(self),
                        *final(self),
                    ),
                    QueueStep::Progressed => old(self).live_at(id) && a0.pending_msgs.len() > 0
                        && a0.msg_inbox.len() < a0.msg_cap && others_unchanged(
                        *old(self),
                        *final(self),
                        id.slot as int,
                    ) && final(self).gen_at(id) == old(self).gen_at(id) && final(self).live_at(id)
                        && final(self).actor_v(id) == (ActorStateV {
                        pending_msgs: a0.pending_msgs.drop_first(),
                        msg_inbox: a0.msg_inbox.push(a0.pending_msgs[0]),
                        ..a0
                    }),
                }
            }),
    {
        if id.system_id != self.system_id {
            return QueueStep::Idle;
        }
        if id.slot >= self.slots.len() {
            return QueueStep::Idle;
        }
        let ghost s0 = *self;
        let mut result = QueueStep::Idle;
        let slot = &mut self.slots[id.slot];
        match &mut slot.actor {
            Some(a) => {
                if a.actor_id == id {
                    if a.pending_msgs.len() > 0 {
                        let m = a.pending_msgs.remove(0);
                        match a.msg_inbox.send(m) {
                            None => {
                                result = QueueStep::Progressed;
                            },
                            Some(mb) => {
                                a.pending_msgs.insert(0, mb);
                                proof {
                                    assert(a.pending_msgs@ =~= s0.actor_v(id).pending_msgs);
                                }
                                result = QueueStep::Blocked;
                            },
                        }
                    }
                }
            },
            None => {},
        }
        proof {
            match result {
                QueueStep::Progressed => {},
                _ => {
                    assert(same_system(s0, *self));
                },
            }
        }
        result
    }

    /// Delivers the completed attached future at task index `k` into the
    /// bounded inbox; completions are chosen by the driver, which models
    /// the first-ready-wins selection among in-flight futures.
    pub fn step_task(&mut self, id: ActorID, k: usize) -> (r: QueueStep)
        requires
            old(self).wf(),
        ensures
            final(self).wf(),
            ({
                let a0 = old(self).actor_v(id);
                match r {
                    QueueStep::Idle => (!old(self).live_at(id) || a0.tasks.len() <= k)
                        && same_system(*old(self), *final(self)),
                    QueueStep::Blocked => old(self).live_at(id) && k < a0.tasks.len()
                        && a0.msg_inbox.len() >= a0.msg_cap && same_system(
                        *old(self),
                        *final(self),
                    ),
                    QueueStep::Progressed => old(self).live_at(id) && k < a0.tasks.len()
                        && a0.msg_inbox.len() < a0.msg_cap && others_unchanged(
                        *old(self),
                        *final(self),
                        id.slot as int,
                    ) && final(self).gen_at(id) == old(self).gen_at(id) && final(self).live_at(id)
                        && final(self).actor_v(id) == (ActorStateV {
                        tasks: a0.tasks.remove(k as int),
                        msg_inbox: a0.msg_inbox.push(a0.tasks[k as int]),
                        ..a0
                    }),
                }
            }),
    {
        if id.system_id != self.system_id {
            return QueueStep::Idle;
        }
        if id.slot >= self.slots.len() {
            return QueueStep::Idle;
        }
        let ghost s0 = *self;
        let mut result = QueueStep::Idle;
        let slot = &mut self.slots[id.slot];
        match &mut slot.actor {
            Some(a) => {
                if a.actor_id == id {
                    if k < a.tasks.len() {
                        let m = a.tasks.remove(k);
                        match a.msg_inbox.send(m) {
                            None => {
                                result = QueueStep::Progressed;
                            },
                            Some(mb) => {
                                a.tasks.insert(k, mb);
                                proof {
                                    assert(a.tasks@ =~= s0.actor_v(id).tasks);
                                }
                                result = QueueStep::Blocked;
                            },
                        }
                    }
                }
            },
            None => {},
        }
        proof {
            match result {
                QueueStep::Progressed => {},
                _ => {
                    assert(same_system(s0, *self));
                },
            }
        }
        result
    }
}

} // verus!

verus! {

/// Result of a behaviour-issued call.
#[derive(Debug, PartialEq)]
pub enum CallOutcome {
    /// The actor is gone or stale: nothing happened.
    Ignored,
    /// The call was applied.
    Done,
    /// The behaviour asked to exit: the driver follows up with
    /// `terminate`.
    ExitDecision(Exit),
}

impl<M> System<M> {
    /// Sets or clears `id`'s trap-exit flag. Returns `false` against a
    /// dead or stale id.
    pub fn ctx_trap_exit(&mut self, id: ActorID, enabled: bool) -> (r: bool)
        requires
            old(self).wf(),
        ensures
            final(self).wf(),
            r == old(self).live_at(id),
            !r ==> same_system(*old(self), *final(self)),
            r ==> others_unchanged(*old(self), *final(self), id.slot as int) && final(self).gen_at(
                id,
            ) == old(self).gen_at(id) && final(self).live_at(id) && final(self).actor_v(id) == (
            ActorStateV { trap_exit: enabled, ..old(self).actor_v(id) }),
    {
        if id.system_id != self.system_id {
            return false;
        }
        if id.slot >= self.slots.len() {
            return false;
        }
        let ghost s0 = *self;
        let mut applied = false;
        let slot = &mut self.slots[id.slot];
        match &mut slot.actor {
            Some(a) => {
                if a.actor_id == id {
                    a.trap_exit = enabled;
                    applied = true;
                }
            },
            None => {},
        }
        proof {
            if !applied {
                assert(same_system(s0, *self));
            }
        }
        applied
    }

    /// Attaches a completed future's output to `id`'s task set; it enters
    /// the inbox when the driver performs the corresponding `step_task`.
    pub fn ctx_future_to_inbox(&mut self, id: ActorID, m: M) -> (r: bool)
        requires
            old(self).wf(),
        ensures
            final(self).wf(),
            r == old(self).live_at(id),
            !r ==> same_system(*old(self), *final(self)),
            r ==> others_unchanged(*old(self), *final(self), id.slot as int) && final(self).gen_at(
                id,
            ) == old(self).gen_at(id) && final(self).live_at(id) && final(self).actor_v(id) == (
            ActorStateV { tasks: old(self).actor_v(id).tasks.push(m), ..old(self).actor_v(id) }),
    {
        if id.system_id != self.system_id {
            return false;
        }
        if id.slot >= self.slots.len() {
            return false;
        }
        let ghost s0 = *self;
        let mut applied = false;
        let slot = &mut self.slots[id.slot];
        match &mut slot.actor {
            Some(a) => {
                if a.actor_id == id {
                    a.tasks.push(m);
                    applied = true;
                }
            },
            None => {},
        }
        proof {
            if !applied {
                assert(same_system(s0, *self));
            }
        }
        applied
    }

    /// Delivers the init acknowledgement once: the stored sender is
    /// consumed and handed back as a notification; later calls are no-ops.
    pub fn ctx_init_ack(&mut self, id: ActorID) -> (r: Option<Notification>)
        requires
            old(self).wf(),
        ensures
            final(self).wf(),
            !old(self).live_at(id) || old(self).actor_v(id).init_ack is None ==> r is None
                && same_system(*old(self), *final(self)),
            old(self).live_at(id) && old(self).actor_v(id).init_ack is Some ==> r == Some(
                Notification::InitAckFired(old(self).actor_v(id).init_ack->Some_0, id),
            ) && others_unchanged(*old(self), *final(self), id.slot as int) && final(self).gen_at(
                id,
            ) == old(self).gen_at(id) && final(self).live_at(id) && final(self).actor_v(id) == (
            ActorStateV { init_ack: None, ..old(self).actor_v(id) }),
    {
        if id.system_id != self.system_id {
            return None;
        }
        if id.slot >= self.slots.len() {
            return None;
        }
        let ghost s0 = *self;
        let mut result: Option<Notification> = None;
        let slot = &mut self.slots[id.slot];
        match &mut slot.actor {
            Some(a) => {
                if a.actor_id == id {
                    match a.init_ack.take() {
                        Some(tx) => {
                            result = Some(Notification::InitAckFired(tx, id));
                        },
                        None => {},
                    }
                }
            },
            None => {},
        }
        proof {
            if result is None {
                assert(same_system(s0, *self));
            }
        }
        result
    }

    /// The next event for `id`'s behaviour: signals take precedence over
    /// messages; `None` when both inboxes are empty (the behaviour would
    /// suspend) or the actor is gone.
    pub fn ctx_next_event(&mut self, id: ActorID) -> (r: Option<Event<M>>)
        requires
            old(self).wf(),
        ensures
            final(self).wf(),
            ({
                let a0 = old(self).actor_v(id);
                if !old(self).live_at(id) || (a0.sig_inbox.len() == 0 && a0.msg_inbox.len() == 0) {
                    r is None && same_system(*old(self), *final(self))
                } else if a0.sig_inbox.len() > 0 {
                    r == Some(Event::<M>::Signal(a0.sig_inbox[0])) && others_unchanged(
                        *old(self),
                        *final(self),
                        id.slot as int,
                    ) && final(self).gen_at(id) == old(self).gen_at(id) && final(self).live_at(id)
                        && final(self).actor_v(id) == (ActorStateV {
                        sig_inbox: a0.sig_inbox.drop_first(),
                        ..a0
                    })
                } else {
                    r == Some(Event::<M>::Message(a0.msg_inbox[0])) && others_unchanged(
                        *old(self),
                        *final(self),
                        id.slot as int,
                    ) && final(self).gen_at(id) == old(self).gen_at(id) && final(self).live_at(id)
                        && final(self).actor_v(id) == (ActorStateV {
                        msg_inbox: a0.msg_inbox.drop_first(),
                        ..a0
                    })
                }
            }),
    {
        if id.system_id != self.system_id {
            return None;
        }
        if id.slot >= self.slots.len() {
            return None;
        }
        let ghost s0 = *self;
        let mut result: Option<Event<M>> = None;
        let slot = &mut self.slots[id.slot];
        match &mut slot.actor {
            Some(a) => {
                if a.actor_id == id {
                    match a.sig_inbox.recv() {
                        Some(sig) => {
                            result = Some(Event::Signal(sig));
                        },
                        None => {
                            match a.msg_inbox.recv() {
                                Some(m) => {
                                    result = Some(Event::Message(m));
                                },
                                None => {},
                            }
                        },
                    }
                }
            },
            None => {},
        }
        proof {
            if result is None {
                assert(same_system(s0, *self));
            }
        }
        result
    }

    /// The next plain message for `id`'s behaviour, skipping no signals:
    /// `None` when the message inbox is empty or the actor is gone.
    pub fn ctx_next_message(&mut self, id: ActorID) -> (r: Option<M>)
        requires
            old(self).wf(),
        ensures
            final(self).wf(),
            ({
                let a0 = old(self).actor_v(id);
                if !old(self).live_at(id) || a0.msg_inbox.len() == 0 {
                    r is None && same_system(*old(self), *final(self))
                } else {
                    r == Some(a0.msg_inbox[0]) && others_unchanged(
                        *old(self),
                        *final(self),
                        id.slot as int,
                    ) && final(self).gen_at(id) == old(self).gen_at(id) && final(self).live_at(id)
                        && final(self).actor_v(id) == (ActorStateV {
                        msg_inbox: a0.msg_inbox.drop_first(),
                        ..a0
                    })
                }
            }),
    {
        if id.system_id != self.system_id {
            return None;
        }
        if id.slot >= self.slots.len() {
            return None;
        }
        let ghost s0 = *self;
        let mut result: Option<M> = None;
        let slot = &mut self.slots[id.slot];
        match &mut slot.actor {
            Some(a) => {
                if a.actor_id == id {
                    result = a.msg_inbox.recv();
                }
            },
            None => {},
        }
        proof {
            if result is None {
                assert(same_system(s0, *self));
            }
        }
        result
    }
}

} // verus!

verus! {

impl<M> System<M> {
    /// A behaviour-issued link: adds `peer` to `id`'s own link set
    /// (idempotently) and sends `Link(id)` to the peer; when the peer is
    /// already gone, `id` is compensated with a `SigExit(peer, NoActor)`
    /// so the dead link is observed.
    pub fn ctx_link(&mut self, id: ActorID, peer: ActorID) -> (r: bool)
        requires
            old(self).wf(),
        ensures
            final(self).wf(),
            r == old(self).live_at(id),
            !r ==> same_system(*old(self), *final(self)),
            r ==> final(self).live_at(id) && final(self).gen_at(id) == old(self).gen_at(id),
            r && peer == id ==> others_unchanged(*old(self), *final(self), id.slot as int) && final(self).actor_v(id) == (ActorStateV {
                links: insert_id(old(self).actor_v(id).links, peer),
                pending_sys: old(self).actor_v(id).pending_sys.push(SysMsg::Link(id)),
                ..old(self).actor_v(id)
            }),
            r && peer != id && old(self).live_at(peer) ==> final(self).actor_v(id) == (ActorStateV {
                links: insert_id(old(self).actor_v(id).links, peer),
                ..old(self).actor_v(id)
            }) && final(self).live_at(peer) && final(self).gen_at(peer) == old(self).gen_at(peer)
                && final(self).actor_v(peer) == (ActorStateV {
                pending_sys: old(self).actor_v(peer).pending_sys.push(SysMsg::Link(id)),
                ..old(self).actor_v(peer)
            }) && final(self).slots@.len() == old(self).slots@.len() && (forall|j: int|
                0 <= j < old(self).slots@.len() && j != id.slot && j != peer.slot ==> slot_view(
                    *final(self),
                    j,
                ) == slot_view(*old(self), j)) && final(self).system_id == old(self).system_id
                && final(self).config == old(self).config,
            r && peer != id && !old(self).live_at(peer) ==> others_unchanged(
                *old(self),
                *final(self),
                id.slot as int,
            ) && final(self).actor_v(id) == (ActorStateV {
                links: insert_id(old(self).actor_v(id).links, peer),
                pending_sys: old(self).actor_v(id).pending_sys.push(
                    SysMsg::SigExit(peer, Exit::NoActor),
                ),
                ..old(self).actor_v(id)
            }),
    {
        if id.system_id != self.system_id {
            return false;
        }
        if id.slot >= self.slots.len() {
            return false;
        }
        let ghost s0 = *self;
        let mut applied = false;
        let slot = &mut self.slots[id.slot];
        match &mut slot.actor {
            Some(a) => {
                if a.actor_id == id {
                    insert_id_vec(&mut a.links, peer);
                    applied = true;
                }
            },
            None => {},
        }
        if !applied {
            proof {
                assert(same_system(s0, *self));
            }
            return false;
        }
        let ghost s1 = *self;
        proof {
            if peer != id && (peer.slot as int) < s0.slots@.len() {
                if peer.slot == id.slot {
                    if s0.live_at(peer) {
                        assert(peer == id);
                        assert(false);
                    }
                    if s1.live_at(peer) {
                        assert(peer == id);
                        assert(false);
                    }
                } else {
                    lemma_slot_view_same(s0, s1, peer);
                }
            }
        }
        let ok = self.send_sys_msg(peer, SysMsg::Link(id));
        let ghost s2 = *self;
        proof {
            if !ok {
                lemma_slot_view_same(s1, s2, id);
            } else if peer != id {
                assert(peer.slot != id.slot) by {
                    if peer.slot == id.slot {
                        assert(peer == id);
                    }
                }
                lemma_slot_view_same(s1, s2, id);
            }
        }
        if !ok {
            let _ = self.send_sys_msg(id, SysMsg::SigExit(peer, Exit::no_actor()));
        }
        true
    }

    /// A behaviour-issued unlink: removes `peer` from `id`'s own link set
    /// (a no-op when absent) and sends `Unlink(id)` to a live peer.
    pub fn ctx_unlink(&mut self, id: ActorID, peer: ActorID) -> (r: bool)
        requires
            old(self).wf(),
        ensures
            final(self).wf(),
            r == old(self).live_at(id),
            !r ==> same_system(*old(self), *final(self)),
            r ==> final(self).live_at(id) && final(self).gen_at(id) == old(self).gen_at(id),
            r && peer == id ==> others_unchanged(*old(self), *final(self), id.slot as int) && final(self).actor_v(id) == (ActorStateV {
                links: remove_id(old(self).actor_v(id).links, peer),
                pending_sys: old(self).actor_v(id).pending_sys.push(SysMsg::Unlink(id)),
                ..old(self).actor_v(id)
            }),
            r && peer != id && old(self).live_at(peer) ==> final(self).actor_v(id) == (ActorStateV {
                links: remove_id(old(self).actor_v(id).links, peer),
                ..old(self).actor_v(id)
            }) && final(self).live_at(peer) && final(self).gen_at(peer) == old(self).gen_at(peer)
                && final(self).actor_v(peer) == (ActorStateV {
                pending_sys: old(self).actor_v(peer).pending_sys.push(SysMsg::Unlink(id)),
                ..old(self).actor_v(peer)
            }) && final(self).slots@.len() == old(self).slots@.len() && (forall|j: int|
                0 <= j < old(self).slots@.len() && j != id.slot && j != peer.slot ==> slot_view(
                    *final(self),
                    j,
                ) == slot_view(*old(self), j)) && final(self).system_id == old(self).system_id
                && final(self).config == old(self).config,
            r && peer != id && !old(self).live_at(peer) ==> others_unchanged(
                *old(self),
                *final(self),
                id.slot as int,
            ) && final(self).actor_v(id) == (ActorStateV {
                links: remove_id(old(self).actor_v(id).links, peer),
                ..old(self).actor_v(id)
            }),
    {
        if id.system_id != self.system_id {
            return false;
        }
        if id.slot >= self.slots.len() {
            return false;
        }
        let ghost s0 = *self;
        let mut applied = false;
        let slot = &mut self.slots[id.slot];
        match &mut slot.actor {
            Some(a) => {
                if a.actor_id == id {
                    remove_id_vec(&mut a.links, peer);
                    applied = true;
                }
            },
            None => {},
        }
        if !applied {
            proof {
                assert(same_system(s0, *self));
            }
            return false;
        }
        let ghost s1 = *self;
        proof {
            if peer != id && (peer.slot as int) < s0.slots@.len() {
                if peer.slot == id.slot {
                    if s0.live_at(peer) {
                        assert(peer == id);
                        assert(false);
                    }
                    if s1.live_at(peer) {
                        assert(peer == id);
                        assert(false);
                    }
                } else {
                    lemma_slot_view_same(s0, s1, peer);
                }
            }
        }
        let ghost s1b = *self;
        let ok = self.send_sys_msg(peer, SysMsg::Unlink(id));
        proof {
            if !ok {
                lemma_slot_view_same(s1b, *self, id);
            } else if peer != id {
                assert(peer.slot != id.slot) by {
                    if peer.slot == id.slot {
                        assert(peer == id);
                    }
                }
                lemma_slot_view_same(s1b, *self, id);
            }
        }
        true
    }

    /// Dispatches one behaviour call: an exit request surfaces as an
    /// `ExitDecision` for the driver, the others apply the corresponding
    /// context operation.
    pub fn handle_call(&mut self, id: ActorID, call: CallMsg<M>) -> (r: CallOutcome)
        requires
            old(self).wf(),
        ensures
            final(self).wf(),
            !old(self).live_at(id) ==> r is Ignored && same_system(*old(self), *final(self)),
            old(self).live_at(id) ==> match call {
                CallMsg::Exit(e) => r == CallOutcome::ExitDecision(e) && same_system(
                    *old(self),
                    *final(self),
                ),
                CallMsg::TrapExit(b) => r is Done && others_unchanged(
                    *old(self),
                    *final(self),
                    id.slot as int,
                ) && final(self).live_at(id) && final(self).actor_v(id) == (ActorStateV {
                    trap_exit: b,
                    ..old(self).actor_v(id)
                }),
                CallMsg::FutureToInbox(m) => r is Done && others_unchanged(
                    *old(self),
                    *final(self),
                    id.slot as int,
                ) && final(self).live_at(id) && final(self).actor_v(id) == (ActorStateV {
                    tasks: old(self).actor_v(id).tasks.push(m),
                    ..old(self).actor_v(id)
                }),
                CallMsg::Link(peer) => r is Done && final(self).live_at(id),
                CallMsg::Unlink(peer) => r is Done && final(self).live_at(id),
            },
            old(self).live_at(id) ==> match call {
                CallMsg::Link(peer) => {
                    &&& peer == id ==> final(self).actor_v(id) == (ActorStateV {
                        links: insert_id(old(self).actor_v(id).links, peer),
                        pending_sys: old(self).actor_v(id).pending_sys.push(SysMsg::Link(id)),
                        ..old(self).actor_v(id)
                    })
                    &&& peer != id && old(self).live_at(peer) ==> final(self).actor_v(id) == (
                    ActorStateV {
                        links: insert_id(old(self).actor_v(id).links, peer),
                        ..old(self).actor_v(id)
                    }) && final(self).actor_v(peer) == (ActorStateV {
                        pending_sys: old(self).actor_v(peer).pending_sys.push(SysMsg::Link(id)),
                        ..old(self).actor_v(peer)
                    })
                    &&& peer != id && !old(self).live_at(peer) ==> final(self).actor_v(id) == (
                    ActorStateV {
                        links: insert_id(old(self).actor_v(id).links, peer),
                        pending_sys: old(self).actor_v(id).pending_sys.push(
                            SysMsg::SigExit(peer, Exit::NoActor),
                        ),
                        ..old(self).actor_v(id)
                    })
                },
                CallMsg::Unlink(peer) => {
                    &&& peer == id ==> final(self).actor_v(id) == (ActorStateV {
                        links: remove_id(old(self).actor_v(id).links, peer),
                        pending_sys: old(self).actor_v(id).pending_sys.push(SysMsg::Unlink(id)),
                        ..old(self).actor_v(id)
                    })
                    &&& peer != id ==> final(self).actor_v(id) == (ActorStateV {
                        links: remove_id(old(self).actor_v(id).links, peer),
                        ..old(self).actor_v(id)
                    })
                },
                _ => true,
            },
    {
        match call {
            CallMsg::Exit(e) => {
                if id.system_id == self.system_id && id.slot < self.slots.len() {
                    let live = match &self.slots[id.slot].actor {
                        Some(a) => a.actor_id == id,
                        None => false,
                    };
                    if live {
                        return CallOutcome::ExitDecision(e);
                    }
                }
                CallOutcome::Ignored
            },
            CallMsg::Link(peer) => {
                if self.ctx_link(id, peer) {
                    CallOutcome::Done
                } else {
                    CallOutcome::Ignored
                }
            },
            CallMsg::Unlink(peer) => {
                if self.ctx_unlink(id, peer) {
                    CallOutcome::Done
                } else {
                    CallOutcome::Ignored
                }
            },
            CallMsg::TrapExit(b) => {
                if self.ctx_trap_exit(id, b) {
                    CallOutcome::Done
                } else {
                    CallOutcome::Ignored
                }
            },
            CallMsg::FutureToInbox(m) => {
                if self.ctx_future_to_inbox(id, m) {
                    CallOutcome::Done
                } else {
                    CallOutcome::Ignored
                }
            },
        }
    }
}

} // verus!

verus! {

/// The reply a terminating runner sends for a `Link` found during the
/// shutdown drain: a normal exit dissolves the link politely, any other
/// reason propagates as an exit signal.
pub open spec fn shutdown_reply(self_id: ActorID, reason: Exit) -> SysMsg {
    if reason is Normal {
        SysMsg::Unlink(self_id)
    } else {
        SysMsg::SigExit(self_id, reason)
    }
}

/// What handling one drained message sends to the peer `p`.
pub open spec fn drain_reply_part(p: ActorID, m: SysMsg, self_id: ActorID, reason: Exit) -> Seq<
    SysMsg,
> {
    match m {
        SysMsg::Link(q) => if q == p {
            seq![shutdown_reply(self_id, reason)]
        } else {
            Seq::empty()
        },
        _ => Seq::empty(),
    }
}

/// Everything the shutdown drain of `pending` sends to the peer `p`.
pub open spec fn drain_replies_to(
    p: ActorID,
    pending: Seq<SysMsg>,
    self_id: ActorID,
    reason: Exit,
) -> Seq<SysMsg>
    decreases pending.len(),
{
    if pending.len() == 0 {
        Seq::empty()
    } else {
        drain_reply_part(p, pending[0], self_id, reason) + drain_replies_to(
            p,
            pending.drop_first(),
            self_id,
            reason,
        )
    }
}

proof fn lemma_drain_replies_push(
    p: ActorID,
    pending: Seq<SysMsg>,
    m: SysMsg,
    self_id: ActorID,
    reason: Exit,
)
    ensures
        drain_replies_to(p, pending.push(m), self_id, reason) == drain_replies_to(
            p,
            pending,
            self_id,
            reason,
        ) + drain_reply_part(p, m, self_id, reason),
    decreases pending.len(),
{
    if pending.len() == 0 {
        assert(pending.push(m)[0] == m);
        assert(pending.push(m).drop_first().len() == 0);
        assert(drain_replies_to(p, pending.push(m).drop_first(), self_id, reason) == Seq::<
            SysMsg,
        >::empty());
        assert(drain_replies_to(p, pending, self_id, reason) == Seq::<SysMsg>::empty());
        assert(drain_reply_part(p, m, self_id, reason) + Seq::<SysMsg>::empty() =~= Seq::<
            SysMsg,
        >::empty() + drain_reply_part(p, m, self_id, reason));
    } else {
        assert(pending.push(m)[0] == pending[0]);
        assert(pending.push(m).drop_first() =~= pending.drop_first().push(m));
        lemma_drain_replies_push(p, pending.drop_first(), m, self_id, reason);
        assert(drain_reply_part(p, pending[0], self_id, reason) + (drain_replies_to(
            p,
            pending.drop_first(),
            self_id,
            reason,
        ) + drain_reply_part(p, m, self_id, reason)) =~= (drain_reply_part(
            p,
            pending[0],
            self_id,
            reason,
        ) + drain_replies_to(p, pending.drop_first(), self_id, reason)) + drain_reply_part(
            p,
            m,
            self_id,
            reason,
        ));
    }
}

/// The one exit notice a linked peer receives when the actor terminates.
pub open spec fn link_notice_to(
    p: ActorID,
    links: Seq<ActorID>,
    self_id: ActorID,
    reason: Exit,
) -> Seq<SysMsg> {
    if links.contains(p) {
        seq![SysMsg::SigExit(self_id, reason)]
    } else {
        Seq::empty()
    }
}

/// Everything the termination of `self_id` (with link set `links` and
/// drained queue `pending`) appends to the peer `p`'s system queue: at
/// most one exit notice — exactly one when `p` is linked — followed by
/// the drain replies.
pub open spec fn termination_msgs_to(
    p: ActorID,
    links: Seq<ActorID>,
    pending: Seq<SysMsg>,
    self_id: ActorID,
    reason: Exit,
) -> Seq<SysMsg> {
    link_notice_to(p, links, self_id, reason) + drain_replies_to(p, pending, self_id, reason)
}

/// How the notifications `ns` line up with the shutdown drain of
/// `pending`: each drained `Wait` is honored with the final reason, each
/// drained `GetInfo` is still answered with a faithful snapshot, and
/// nothing else is emitted.
pub open spec fn drain_notifs_ok<M>(
    ns: Seq<Notification>,
    pending: Seq<SysMsg>,
    reason: Exit,
    av: ActorStateV<M>,
) -> bool
    decreases pending.len(),
{
    if pending.len() == 0 {
        ns.len() == 0
    } else {
        match pending[0] {
            SysMsg::Wait(w) => ns.len() > 0 && ns[0] == Notification::WaiterNotified(w, reason)
                && drain_notifs_ok(ns.drop_first(), pending.drop_first(), reason, av),
            SysMsg::GetInfo(t) => ns.len() > 0 && (match ns[0] {
                Notification::InfoReply(tt, info) => tt == t && info_matches(info, av),
                _ => false,
            }) && drain_notifs_ok(ns.drop_first(), pending.drop_first(), reason, av),
            _ => drain_notifs_ok(ns, pending.drop_first(), reason, av),
        }
    }
}

proof fn lemma_drain_notifs_push<M>(
    ns: Seq<Notification>,
    pending: Seq<SysMsg>,
    m: SysMsg,
    n_opt: Option<Notification>,
    reason: Exit,
    av: ActorStateV<M>,
)
    requires
        drain_notifs_ok(ns, pending, reason, av),
        match m {
            SysMsg::Wait(w) => n_opt == Some(Notification::WaiterNotified(w, reason)),
            SysMsg::GetInfo(t) => match n_opt {
                Some(n) => match n {
                    Notification::InfoReply(tt, info) => tt == t && info_matches(info, av),
                    _ => false,
                },
                None => false,
            },
            _ => n_opt is None,
        },
    ensures
        drain_notifs_ok(
            match n_opt {
                Some(n) => ns.push(n),
                None => ns,
            },
            pending.push(m),
            reason,
            av,
        ),
    decreases pending.len(),
{
    let ns2 = match n_opt {
        Some(n) => ns.push(n),
        None => ns,
    };
    if pending.len() == 0 {
        assert(ns.len() == 0);
        assert(pending.push(m)[0] == m);
        assert(pending.push(m).drop_first().len() == 0);
        match m {
            SysMsg::Wait(w) => {
                assert(ns2[0] == Notification::WaiterNotified(w, reason));
                assert(ns2.drop_first().len() == 0);
                assert(drain_notifs_ok(
                    ns2.drop_first(),
                    pending.push(m).drop_first(),
                    reason,
                    av,
                ));
                assert(drain_notifs_ok(ns2, pending.push(m), reason, av));
            },
            SysMsg::GetInfo(t) => {
                assert(ns2.drop_first().len() == 0);
                assert(drain_notifs_ok(
                    ns2.drop_first(),
                    pending.push(m).drop_first(),
                    reason,
                    av,
                ));
                assert(drain_notifs_ok(ns2, pending.push(m), reason, av));
            },
            _ => {
                assert(ns2.len() == 0);
                assert(drain_notifs_ok(ns2, pending.push(m).drop_first(), reason, av));
                assert(drain_notifs_ok(ns2, pending.push(m), reason, av));
            },
        }
    } else {
        assert(pending.push(m)[0] == pending[0]);
        assert(pending.push(m).drop_first() =~= pending.drop_first().push(m));
        match pending[0] {
            SysMsg::Wait(w0) => {
                lemma_drain_notifs_push(ns.drop_first(), pending.drop_first(), m, n_opt, reason, av);
                assert(ns.len() > 0);
                assert(ns2[0] == ns[0]);
                assert(ns2.drop_first() =~= match n_opt {
                    Some(n) => ns.drop_first().push(n),
                    None => ns.drop_first(),
                });
                assert(drain_notifs_ok(
                    ns2.drop_first(),
                    pending.push(m).drop_first(),
                    reason,
                    av,
                ));
                assert(drain_notifs_ok(ns2, pending.push(m), reason, av));
            },
            SysMsg::GetInfo(t0) => {
                lemma_drain_notifs_push(ns.drop_first(), pending.drop_first(), m, n_opt, reason, av);
                assert(ns.len() > 0);
                assert(ns2[0] == ns[0]);
                assert(ns2.drop_first() =~= match n_opt {
                    Some(n) => ns.drop_first().push(n),
                    None => ns.drop_first(),
                });
                assert(drain_notifs_ok(
                    ns2.drop_first(),
                    pending.push(m).drop_first(),
                    reason,
                    av,
                ));
                assert(drain_notifs_ok(ns2, pending.push(m), reason, av));
            },
            _ => {
                lemma_drain_notifs_push(ns, pending.drop_first(), m, n_opt, reason, av);
                assert(drain_notifs_ok(ns2, pending.push(m).drop_first(), reason, av));
                assert(drain_notifs_ok(ns2, pending.push(m), reason, av));
            },
        }
    }
}

/// One wake-up per registered waiter, in registration order.
pub open spec fn waiter_notifs(waiters: Seq<u64>, reason: Exit) -> Seq<Notification> {
    Seq::new(waiters.len(), |i: int| Notification::WaiterNotified(waiters[i], reason))
}

} // verus!

verus! {

impl<M> System<M> {
    /// The termination sequence for the actor under `id`, with final
    /// reason `reason`:
    ///
    /// 1. the slot is vacated and its generation bumped, so no further
    ///    message to this incarnation is ever delivered;
    /// 2. every linked peer still alive receives exactly one
    ///    `SigExit(id, reason)`;
    /// 3. the remaining system messages are drained in shutdown mode: a
    ///    `Link` is answered with an `Unlink` (normal exit) or a
    ///    `SigExit` (any other reason), a `Wait` is honored with the
    ///    final reason, a `GetInfo` is still answered, the rest is
    ///    discarded;
    /// 4. every registered waiter is woken with the final reason, and
    ///    the exit handler, if any, is scheduled last.
    ///
    /// Against a dead or stale id nothing happens.
    #[verifier::rlimit(100)]
    pub fn terminate(&mut self, id: ActorID, reason: Exit) -> (r: Vec<Notification>)
        requires
            old(self).wf(),
            old(self).live_at(id) ==> old(self).gen_at(id) < u64::MAX,
        ensures
            final(self).wf(),
            !old(self).live_at(id) ==> r@ == Seq::<Notification>::empty() && same_system(
                *old(self),
                *final(self),
            ),
            old(self).live_at(id) ==> ({
                let a0 = old(self).actor_v(id);
                &&& !final(self).live_at(id)
                &&& final(self).slots@[id.slot as int].actor is None
                &&& final(self).gen_at(id) == old(self).gen_at(id) + 1
                &&& final(self).system_id == old(self).system_id
                &&& final(self).config == old(self).config
                &&& final(self).slots@.len() == old(self).slots@.len()
                &&& forall|p: ActorID|
                    p.slot != id.slot && #[trigger] old(self).live_at(p) ==> final(self).live_at(p)
                        && final(self).gen_at(p) == old(self).gen_at(p) && final(self).actor_v(p)
                        == (ActorStateV {
                        pending_sys: old(self).actor_v(p).pending_sys + termination_msgs_to(
                            p,
                            a0.links,
                            a0.pending_sys,
                            id,
                            reason,
                        ),
                        ..old(self).actor_v(p)
                    })
                &&& forall|j: int|
                    0 <= j < old(self).slots@.len() && j != id.slot && (#[trigger] old(
                        self,
                    ).slots@[j]).actor is None ==> slot_view(*final(self), j) == slot_view(
                        *old(self),
                        j,
                    )
                &&& exists|k: int|
                    0 <= k <= r@.len() && drain_notifs_ok(
                        #[trigger] r@.take(k),
                        a0.pending_sys,
                        reason,
                        a0,
                    ) && r@.skip(k) == waiter_notifs(a0.waiters, reason) + (match a0.exit_handler {
                        Some(h) => seq![Notification::ExitHandled(h, id, reason)],
                        None => Seq::<Notification>::empty(),
                    })
            }),
    {
        if id.system_id != self.system_id {
            return Vec::new();
        }
        if id.slot >= self.slots.len() {
            return Vec::new();
        }
        let live = match &self.slots[id.slot].actor {
            Some(a) => a.actor_id == id,
            None => false,
        };
        if !live {
            return Vec::new();
        }
        let ghost s0 = *old(self);
        let ghost a0 = s0.actor_v(id);

        // Vacate the slot and bump its generation.
        let slot = self.slots.remove(id.slot);
        let generation = slot.generation;
        let mut a = match slot.actor {
            Some(inner) => inner,
            None => {
                proof {
                    assert(false);
                }
                return Vec::new();
            },
        };
        self.slots.insert(id.slot, Slot { generation: generation + 1, actor: None });
        proof {
            s0.slots@.remove_ensures(id.slot as int);
            s0.slots@.remove(id.slot as int).insert_ensures(
                id.slot as int,
                self.slots@[id.slot as int],
            );
            assert forall|j: int|
                0 <= j < self.slots@.len() && j != id.slot implies self.slots@[j]
                == s0.slots@[j] by {
                if j < id.slot as int {
                    assert(self.slots@[j] == s0.slots@.remove(id.slot as int)[j]);
                } else {
                    assert(self.slots@[j] == s0.slots@.remove(id.slot as int)[j - 1]);
                }
            }
            assert(self.wf());
            assert(a@ == a0);
            assert(a.wf());
        }
        let ghost s_freed = *self;
        proof {
            assert forall|p: ActorID|
                p.slot != id.slot && #[trigger] s0.live_at(p) implies self.live_at(p)
                && self.gen_at(p) == s0.gen_at(p) && self.actor_v(p) == s0.actor_v(p) by {
                lemma_slot_view_same(s0, s_freed, p);
            }
        }

        let mut out: Vec<Notification> = Vec::new();

        // Notify every linked peer that is still alive.
        let mut i: usize = 0;
        while i < a.links.len()
            invariant
                i <= a.links@.len(),
                a@ == a0,
                no_dup_ids(a0.links),
                self.wf(),
                self.system_id == s0.system_id,
                self.config == s0.config,
                self.slots@.len() == s0.slots@.len(),
                (id.slot as int) < s0.slots@.len(),
                id.system_id == s0.system_id,
                self.slots@[id.slot as int].actor is None,
                self.slots@[id.slot as int].generation == s0.slots@[id.slot as int].generation
                    + 1,
                out@ == Seq::<Notification>::empty(),
                forall|p: ActorID|
                    p.slot != id.slot && #[trigger] s0.live_at(p) ==> self.live_at(p)
                        && self.gen_at(p) == s0.gen_at(p) && self.actor_v(p) == (ActorStateV {
                        pending_sys: s0.actor_v(p).pending_sys + link_notice_to(
                            p,
                            a0.links.take(i as int),
                            id,
                            reason,
                        ),
                        ..s0.actor_v(p)
                    }),
                forall|j: int|
                    0 <= j < s0.slots@.len() && j != id.slot && (#[trigger] s0.slots@[j]).actor
                        is None ==> slot_view(*self, j) == slot_view(s0, j),
            decreases a.links@.len() - i,
        {
            let p = a.links[i];
            let ghost s_pre = *self;
            proof {
                assert(a0.links.take(i as int + 1) =~= a0.links.take(i as int).push(p));
            }
            let ok = self.send_sys_msg(p, SysMsg::SigExit(id, reason.clone()));
            proof {
                assert forall|q: ActorID|
                    q.slot != id.slot && #[trigger] s0.live_at(q) implies self.live_at(q)
                    && self.gen_at(q) == s0.gen_at(q) && self.actor_v(q) == (ActorStateV {
                    pending_sys: s0.actor_v(q).pending_sys + link_notice_to(
                        q,
                        a0.links.take(i as int + 1),
                        id,
                        reason,
                    ),
                    ..s0.actor_v(q)
                }) by {
                    let prefix = a0.links.take(i as int);
                    let prefix1 = a0.links.take(i as int + 1);
                    if ok {
                        if q == p {
                            // The just-notified peer: the links are
                            // duplicate-free, so this is the first notice.
                            assert(!prefix.contains(p)) by {
                                if prefix.contains(p) {
                                    let w = choose|w: int|
                                        0 <= w < prefix.len() && prefix[w] == p;
                                    assert(a0.links[w] == p);
                                    assert(a0.links[i as int] == p);
                                }
                            }
                            assert(prefix1.contains(p)) by {
                                assert(prefix1[i as int] == p);
                            }
                            assert(s_pre.actor_v(p).pending_sys =~= s0.actor_v(p).pending_sys);
                            assert(self.actor_v(q).pending_sys =~= s0.actor_v(q).pending_sys
                                + link_notice_to(q, prefix1, id, reason));
                        } else {
                            assert(q.slot != p.slot) by {
                                if q.slot == p.slot {
                                    assert(s_pre.live_at(p));
                                    assert(s_pre.live_at(q));
                                    assert(q == p);
                                }
                            }
                            lemma_slot_view_same(s_pre, *self, q);
                            assert(link_notice_to(q, prefix1, id, reason) == link_notice_to(
                                q,
                                prefix,
                                id,
                                reason,
                            )) by {
                                if prefix1.contains(q) && !prefix.contains(q) {
                                    let w = choose|w: int|
                                        0 <= w < prefix1.len() && prefix1[w] == q;
                                    if w < i as int {
                                        assert(prefix[w] == q);
                                    } else {
                                        assert(q == p);
                                    }
                                }
                                if prefix.contains(q) {
                                    let w = choose|w: int|
                                        0 <= w < prefix.len() && prefix[w] == q;
                                    assert(prefix1[w] == q);
                                }
                            }
                        }
                    } else {
                        lemma_slot_view_same(s_pre, *self, q);
                        assert(q != p) by {
                            if q == p {
                                assert(s_pre.live_at(p));
                            }
                        }
                        assert(link_notice_to(q, prefix1, id, reason) == link_notice_to(
                            q,
                            prefix,
                            id,
                            reason,
                        )) by {
                            if prefix1.contains(q) && !prefix.contains(q) {
                                let w = choose|w: int| 0 <= w < prefix1.len() && prefix1[w] == q;
                                if w < i as int {
                                    assert(prefix[w] == q);
                                } else {
                                    assert(q == p);
                                }
                            }
                            if prefix.contains(q) {
                                let w = choose|w: int| 0 <= w < prefix.len() && prefix[w] == q;
                                assert(prefix1[w] == q);
                            }
                        }
                    }
                }
                assert forall|j: int|
                    0 <= j < s0.slots@.len() && j != id.slot && (#[trigger] s0.slots@[j]).actor
                        is None implies slot_view(*self, j) == slot_view(s0, j) by {
                    if ok {
                        assert(p.slot as int != j) by {
                            if p.slot as int == j {
                                assert(s_pre.live_at(p));
                            }
                        }
                    }
                }
                if ok {
                    assert(p.slot != id.slot) by {
                        if p.slot == id.slot {
                            assert(s_pre.live_at(p));
                        }
                    }
                    assert(slot_view(*self, id.slot as int) == slot_view(s_pre, id.slot as int));
                }
                assert(self.slots@[id.slot as int].actor is None) by {
                    if !(self.slots@[id.slot as int].actor is None) {
                        assert(slot_view(*self, id.slot as int).1 is Some);
                        assert(slot_view(s_pre, id.slot as int).1 is None);
                    }
                }
                assert(self.slots@[id.slot as int].generation == s0.slots@[id.slot as int].generation + 1) by {
                    assert(slot_view(*self, id.slot as int).0 == slot_view(s_pre, id.slot as int).0);
                }
            }
            i += 1;
        }
        proof {
            assert(a0.links.take(a0.links.len() as int) =~= a0.links);
            assert forall|p: ActorID|
                p.slot != id.slot && #[trigger] s0.live_at(p) implies self.actor_v(p) == (
            ActorStateV {
                pending_sys: s0.actor_v(p).pending_sys + termination_msgs_to(
                    p,
                    a0.links,
                    a0.pending_sys.take(0),
                    id,
                    reason,
                ),
                ..s0.actor_v(p)
            }) by {
                assert(drain_replies_to(p, a0.pending_sys.take(0), id, reason) == Seq::<
                    SysMsg,
                >::empty());
                assert(s0.actor_v(p).pending_sys + link_notice_to(p, a0.links, id, reason) =~= s0.actor_v(
                    p,
                ).pending_sys + termination_msgs_to(p, a0.links, a0.pending_sys.take(0), id, reason));
            }
            assert(a0.pending_sys.skip(0) =~= a0.pending_sys);
            assert(drain_notifs_ok(out@.take(0), a0.pending_sys.take(0), reason, a0));
        }

        // Drain the remaining system messages in shutdown mode.
        let ghost mut jj: int = 0;
        while a.pending_sys.len() > 0
            invariant
                0 <= jj <= a0.pending_sys.len(),
                a@ == (ActorStateV { pending_sys: a0.pending_sys.skip(jj), ..a0 }),
                self.wf(),
                self.system_id == s0.system_id,
                self.config == s0.config,
                self.slots@.len() == s0.slots@.len(),
                (id.slot as int) < s0.slots@.len(),
                id.system_id == s0.system_id,
                self.slots@[id.slot as int].actor is None,
                self.slots@[id.slot as int].generation == s0.slots@[id.slot as int].generation
                    + 1,
                drain_notifs_ok(out@, a0.pending_sys.take(jj), reason, a0),
                forall|p: ActorID|
                    p.slot != id.slot && #[trigger] s0.live_at(p) ==> self.live_at(p)
                        && self.gen_at(p) == s0.gen_at(p) && self.actor_v(p) == (ActorStateV {
                        pending_sys: s0.actor_v(p).pending_sys + termination_msgs_to(
                            p,
                            a0.links,
                            a0.pending_sys.take(jj),
                            id,
                            reason,
                        ),
                        ..s0.actor_v(p)
                    }),
                forall|j: int|
                    0 <= j < s0.slots@.len() && j != id.slot && (#[trigger] s0.slots@[j]).actor
                        is None ==> slot_view(*self, j) == slot_view(s0, j),
            decreases a.pending_sys@.len(),
        {
            proof {
                assert(a0.pending_sys.skip(jj).len() > 0);
                assert(jj < a0.pending_sys.len());
            }
            let m = a.pending_sys.remove(0);
            let ghost m_spec = a0.pending_sys[jj];
            proof {
                assert(a0.pending_sys.skip(jj)[0] == a0.pending_sys[jj]);
                assert(m == m_spec);
                assert(a.pending_sys@ =~= a0.pending_sys.skip(jj + 1));
                assert(a0.pending_sys.take(jj + 1) =~= a0.pending_sys.take(jj).push(m_spec));
            }
            let ghost s_pre = *self;
            let ghost out_pre = out@;
            match m {
                SysMsg::Link(q) => {
                    let reply = if reason.is_normal() {
                        SysMsg::Unlink(id)
                    } else {
                        SysMsg::SigExit(id, reason.clone())
                    };
                    proof {
                        assert(reply == shutdown_reply(id, reason));
                    }
                    let ok = self.send_sys_msg(q, reply);
                    proof {
                        assert forall|p: ActorID|
                            p.slot != id.slot && #[trigger] s0.live_at(p) implies self.live_at(p)
                            && self.gen_at(p) == s0.gen_at(p) && self.actor_v(p) == (ActorStateV {
                            pending_sys: s0.actor_v(p).pending_sys + termination_msgs_to(
                                p,
                                a0.links,
                                a0.pending_sys.take(jj + 1),
                                id,
                                reason,
                            ),
                            ..s0.actor_v(p)
                        }) by {
                            lemma_drain_replies_push(p, a0.pending_sys.take(jj), m_spec, id, reason);
                            if ok && p == q {
                                assert(self.actor_v(p).pending_sys == s_pre.actor_v(
                                    p,
                                ).pending_sys.push(reply));
                                assert(self.actor_v(p).pending_sys =~= s0.actor_v(p).pending_sys
                                    + termination_msgs_to(
                                    p,
                                    a0.links,
                                    a0.pending_sys.take(jj + 1),
                                    id,
                                    reason,
                                ));
                            } else {
                                if ok {
                                    assert(p.slot != q.slot) by {
                                        if p.slot == q.slot {
                                            assert(s_pre.live_at(q));
                                            assert(s_pre.live_at(p));
                                            assert(p == q);
                                        }
                                    }
                                    lemma_slot_view_same(s_pre, *self, p);
                                } else {
                                    lemma_slot_view_same(s_pre, *self, p);
                                    assert(p != q) by {
                                        if p == q {
                                            assert(s_pre.live_at(p));
                                        }
                                    }
                                }
                                assert(drain_reply_part(p, m_spec, id, reason) == Seq::<
                                    SysMsg,
                                >::empty());
                                assert(s0.actor_v(p).pending_sys + termination_msgs_to(
                                    p,
                                    a0.links,
                                    a0.pending_sys.take(jj + 1),
                                    id,
                                    reason,
                                ) =~= s0.actor_v(p).pending_sys + termination_msgs_to(
                                    p,
                                    a0.links,
                                    a0.pending_sys.take(jj),
                                    id,
                                    reason,
                                ));
                            }
                        }
                        assert forall|j: int|
                            0 <= j < s0.slots@.len() && j != id.slot && (#[trigger] s0.slots@[j]).actor
                                is None implies slot_view(*self, j) == slot_view(s0, j) by {
                            if ok {
                                assert(q.slot as int != j) by {
                                    if q.slot as int == j {
                                        assert(s_pre.live_at(q));
                                    }
                                }
                            }
                        }
                        if ok {
                            assert(q.slot != id.slot) by {
                                if q.slot == id.slot {
                                    assert(s_pre.live_at(q));
                                }
                            }
                            assert(slot_view(*self, id.slot as int) == slot_view(
                                s_pre,
                                id.slot as int,
                            ));
                        }
                        assert(self.slots@[id.slot as int].actor is None) by {
                            if !(self.slots@[id.slot as int].actor is None) {
                                assert(slot_view(*self, id.slot as int).1 is Some);
                                assert(slot_view(s_pre, id.slot as int).1 is None);
                            }
                        }
                        assert(self.slots@[id.slot as int].generation == s0.slots@[id.slot as int].generation + 1) by {
                            assert(slot_view(*self, id.slot as int).0 == slot_view(
                                s_pre,
                                id.slot as int,
                            ).0);
                        }
                        lemma_drain_notifs_push(
                            out_pre,
                            a0.pending_sys.take(jj),
                            m_spec,
                            None,
                            reason,
                            a0,
                        );
                    }
                },
                SysMsg::Wait(w) => {
                    out.push(Notification::WaiterNotified(w, reason.clone()));
                    proof {
                        lemma_drain_notifs_push(
                            out_pre,
                            a0.pending_sys.take(jj),
                            m_spec,
                            Some(Notification::WaiterNotified(w, reason)),
                            reason,
                            a0,
                        );
                        assert forall|p: ActorID|
                            p.slot != id.slot && #[trigger] s0.live_at(p) implies self.actor_v(p)
                            == (ActorStateV {
                            pending_sys: s0.actor_v(p).pending_sys + termination_msgs_to(
                                p,
                                a0.links,
                                a0.pending_sys.take(jj + 1),
                                id,
                                reason,
                            ),
                            ..s0.actor_v(p)
                        }) by {
                            lemma_drain_replies_push(p, a0.pending_sys.take(jj), m_spec, id, reason);
                            assert(s0.actor_v(p).pending_sys + termination_msgs_to(
                                p,
                                a0.links,
                                a0.pending_sys.take(jj + 1),
                                id,
                                reason,
                            ) =~= s0.actor_v(p).pending_sys + termination_msgs_to(
                                p,
                                a0.links,
                                a0.pending_sys.take(jj),
                                id,
                                reason,
                            ));
                        }
                    }
                },
                SysMsg::GetInfo(t) => {
                    let info = a.info();
                    proof {
                        assert(info_matches(info, a0));
                    }
                    out.push(Notification::InfoReply(t, info));
                    proof {
                        lemma_drain_notifs_push(
                            out_pre,
                            a0.pending_sys.take(jj),
                            m_spec,
                            Some(Notification::InfoReply(t, info)),
                            reason,
                            a0,
                        );
                        assert forall|p: ActorID|
                            p.slot != id.slot && #[trigger] s0.live_at(p) implies self.actor_v(p)
                            == (ActorStateV {
                            pending_sys: s0.actor_v(p).pending_sys + termination_msgs_to(
                                p,
                                a0.links,
                                a0.pending_sys.take(jj + 1),
                                id,
                                reason,
                            ),
                            ..s0.actor_v(p)
                        }) by {
                            lemma_drain_replies_push(p, a0.pending_sys.take(jj), m_spec, id, reason);
                            assert(s0.actor_v(p).pending_sys + termination_msgs_to(
                                p,
                                a0.links,
                                a0.pending_sys.take(jj + 1),
                                id,
                                reason,
                            ) =~= s0.actor_v(p).pending_sys + termination_msgs_to(
                                p,
                                a0.links,
                                a0.pending_sys.take(jj),
                                id,
                                reason,
                            ));
                        }
                    }
                },
                SysMsg::Unlink(_) => {
                    proof {
                        lemma_drain_notifs_push(
                            out_pre,
                            a0.pending_sys.take(jj),
                            m_spec,
                            None,
                            reason,
                            a0,
                        );
                        assert forall|p: ActorID|
                            p.slot != id.slot && #[trigger] s0.live_at(p) implies self.actor_v(p)
                            == (ActorStateV {
                            pending_sys: s0.actor_v(p).pending_sys + termination_msgs_to(
                                p,
                                a0.links,
                                a0.pending_sys.take(jj + 1),
                                id,
                                reason,
                            ),
                            ..s0.actor_v(p)
                        }) by {
                            lemma_drain_replies_push(p, a0.pending_sys.take(jj), m_spec, id, reason);
                            assert(s0.actor_v(p).pending_sys + termination_msgs_to(
                                p,
                                a0.links,
                                a0.pending_sys.take(jj + 1),
                                id,
                                reason,
                            ) =~= s0.actor_v(p).pending_sys + termination_msgs_to(
                                p,
                                a0.links,
                                a0.pending_sys.take(jj),
                                id,
                                reason,
                            ));
                        }
                    }
                },
                SysMsg::SigExit(_, _) => {
                    proof {
                        lemma_drain_notifs_push(
                            out_pre,
                            a0.pending_sys.take(jj),
                            m_spec,
                            None,
                            reason,
                            a0,
                        );
                        assert forall|p: ActorID|
                            p.slot != id.slot && #[trigger] s0.live_at(p) implies self.actor_v(p)
                            == (ActorStateV {
                            pending_sys: s0.actor_v(p).pending_sys + termination_msgs_to(
                                p,
                                a0.links,
                                a0.pending_sys.take(jj + 1),
                                id,
                                reason,
                            ),
                            ..s0.actor_v(p)
                        }) by {
                            lemma_drain_replies_push(p, a0.pending_sys.take(jj), m_spec, id, reason);
                            assert(s0.actor_v(p).pending_sys + termination_msgs_to(
                                p,
                                a0.links,
                                a0.pending_sys.take(jj + 1),
                                id,
                                reason,
                            ) =~= s0.actor_v(p).pending_sys + termination_msgs_to(
                                p,
                                a0.links,
                                a0.pending_sys.take(jj),
                                id,
                                reason,
                            ));
                        }
                    }
                },
            }
            proof {
                jj = jj + 1;
            }
        }
        proof {
            assert(jj == a0.pending_sys.len());
            assert(a0.pending_sys.take(jj) =~= a0.pending_sys);
        }
        let ghost dlen = out@.len() as int;
        let ghost out_drain = out@;

        // Wake every registered waiter with the final reason.
        let mut w: usize = 0;
        while w < a.waiters.len()
            invariant
                w <= a.waiters@.len(),
                a.waiters@ == a0.waiters,
                out@ == out_drain + waiter_notifs(a0.waiters.take(w as int), reason),
                dlen == out_drain.len(),
                drain_notifs_ok(out_drain, a0.pending_sys, reason, a0),
                self.wf(),
                self.system_id == s0.system_id,
                self.config == s0.config,
                self.slots@.len() == s0.slots@.len(),
                (id.slot as int) < s0.slots@.len(),
                id.system_id == s0.system_id,
                self.slots@[id.slot as int].actor is None,
                self.slots@[id.slot as int].generation == s0.slots@[id.slot as int].generation
                    + 1,
                forall|p: ActorID|
                    p.slot != id.slot && #[trigger] s0.live_at(p) ==> self.live_at(p)
                        && self.gen_at(p) == s0.gen_at(p) && self.actor_v(p) == (ActorStateV {
                        pending_sys: s0.actor_v(p).pending_sys + termination_msgs_to(
                            p,
                            a0.links,
                            a0.pending_sys,
                            id,
                            reason,
                        ),
                        ..s0.actor_v(p)
                    }),
                forall|j: int|
                    0 <= j < s0.slots@.len() && j != id.slot && (#[trigger] s0.slots@[j]).actor
                        is None ==> slot_view(*self, j) == slot_view(s0, j),
            decreases a.waiters@.len() - w,
        {
            out.push(Notification::WaiterNotified(a.waiters[w], reason.clone()));
            proof {
                assert(out@ =~= out_drain + waiter_notifs(a0.waiters.take(w as int + 1), reason));
            }
            w += 1;
        }
        proof {
            assert(a0.waiters.take(a0.waiters.len() as int) =~= a0.waiters);
        }

        // Schedule the exit handler last.
        match a.exit_handler {
            Some(h) => {
                out.push(Notification::ExitHandled(h, id, reason));
            },
            None => {},
        }
        proof {
            assert(out@.take(dlen) =~= out_drain);
            assert(out@.skip(dlen) =~= waiter_notifs(a0.waiters, reason) + (
            match a0.exit_handler {
                Some(h) => seq![Notification::ExitHandled(h, id, reason)],
                None => Seq::<Notification>::empty(),
            }));
        }
        out
    }
}

} // verus!

verus! {

/// The shutdown drain sends nothing to a peer that has no `Link` request
/// in the drained queue.
proof fn lemma_drain_replies_empty(p: ActorID, pending: Seq<SysMsg>, self_id: ActorID, reason: Exit)
    requires
        forall|k: int| 0 <= k < pending.len() ==> pending[k] != SysMsg::Link(p),
    ensures
        drain_replies_to(p, pending, self_id, reason) == Seq::<SysMsg>::empty(),
    decreases pending.len(),
{
    if pending.len() > 0 {
        assert(pending[0] != SysMsg::Link(p));
        assert(drain_reply_part(p, pending[0], self_id, reason) == Seq::<SysMsg>::empty());
        assert forall|k: int|
            0 <= k < pending.drop_first().len() implies pending.drop_first()[k] != SysMsg::Link(
            p,
        ) by {
            assert(pending.drop_first()[k] == pending[k + 1]);
        }
        lemma_drain_replies_empty(p, pending.drop_first(), self_id, reason);
        assert(drain_reply_part(p, pending[0], self_id, reason) + drain_replies_to(
            p,
            pending.drop_first(),
            self_id,
            reason,
        ) =~= Seq::<SysMsg>::empty());
    }
}

/// A linked peer is notified of the exit exactly once: when `p` stands in
/// the link set of the dying actor and no further `Link(p)` request is
/// drained during shutdown, the whole termination appends exactly the
/// single message `SigExit(self_id, reason)` to `p`'s queue.
pub proof fn lemma_linked_peer_notified_exactly_once(
    p: ActorID,
    links: Seq<ActorID>,
    pending: Seq<SysMsg>,
    self_id: ActorID,
    reason: Exit,
)
    requires
        links.contains(p),
        forall|k: int| 0 <= k < pending.len() ==> pending[k] != SysMsg::Link(p),
    ensures
        termination_msgs_to(p, links, pending, self_id, reason) == seq![
            SysMsg::SigExit(self_id, reason),
        ],
{
    lemma_drain_replies_empty(p, pending, self_id, reason);
    assert(link_notice_to(p, links, self_id, reason) == seq![SysMsg::SigExit(self_id, reason)]);
    assert(seq![SysMsg::SigExit(self_id, reason)] + Seq::<SysMsg>::empty() =~= seq![
        SysMsg::SigExit(self_id, reason),
    ]);
}

/// An identifier whose generation no longer matches its slot is stale and
/// addresses nobody: every delivery against it is dropped (see `send`,
/// which leaves the system unchanged for a non-live target). After
/// `terminate`, the slot's generation has been bumped past the dead
/// incarnation's, so no message sent to the terminated actor's id is ever
/// delivered again.
pub proof fn lemma_stale_id_never_live<M>(s: System<M>, id: ActorID)
    requires
        s.wf(),
        (id.slot as int) < s.slots@.len(),
        s.slots@[id.slot as int].generation != id.generation,
    ensures
        !s.live_at(id),
{
    match s.slots@[id.slot as int].actor {
        Some(a) => {
            assert(a.actor_id.generation == s.slots@[id.slot as int].generation);
        },
        None => {},
    }
}

/// The queue-level round trip: a message sent to an actor with empty
/// queues is the next message its behaviour receives. `send` appends to
/// the unbounded queue, `step_user` forwards its front into the bounded
/// inbox, and `ctx_next_message` pops the inbox front — composing their
/// contracts on empty queues yields the message itself.
pub proof fn lemma_send_round_trip<M>(inbox: Seq<M>, pending: Seq<M>, m: M)
    requires
        inbox.len() == 0,
        pending.len() == 0,
    ensures
        pending.push(m)[0] == m,
        inbox.push(pending.push(m)[0])[0] == m,
        inbox.push(pending.push(m)[0]).drop_first() == inbox,
        pending.push(m).drop_first() == pending,
{
    assert(inbox.push(m).drop_first() =~= inbox);
    assert(pending.push(m).drop_first() =~= pending);
}

} // verus!
