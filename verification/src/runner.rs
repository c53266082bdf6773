use vstd::prelude::*;

use crate::actor_id::{insert_id, insert_id_vec, no_dup_ids, remove_id, remove_id_vec, ActorID,
    ids_contain};
use crate::exit::Exit;
use crate::pipe::Pipe;
use crate::spawn_opts::{ExitHandlerRef, InitAckTx};
use crate::sys_msg::{ActorInfo, Signal, SysMsg};

verus! {

/// Abstract value of one actor's runner state.
pub struct ActorStateV<M> {
    pub actor_id: ActorID,
    pub links: Seq<ActorID>,
    pub trap_exit: bool,
    pub msg_inbox: Seq<M>,
    pub msg_cap: usize,
    pub sig_inbox: Seq<Signal>,
    pub sig_cap: usize,
    pub pending_msgs: Seq<M>,
    pub pending_sys: Seq<SysMsg>,
    pub tasks: Seq<M>,
    pub waiters: Seq<u64>,
    pub init_ack: Option<InitAckTx>,
    pub exit_handler: Option<ExitHandlerRef>,
}

/// The per-actor runner state: the link set and trap-exit flag, the bounded
/// inboxes the behaviour reads from, the unbounded system-side queues the
/// runner drains, attached-future completions, registered waiters, and the
/// pending init-ack and exit-handler handles.
pub struct ActorState<M> {
    pub actor_id: ActorID,
    /// Linked peers, duplicate-free.
    pub links: Vec<ActorID>,
    /// When set, exit signals become `Signal` events instead of
    /// terminating the actor (`Kill` excepted).
    pub trap_exit: bool,
    /// Bounded inbox the behaviour receives messages from.
    pub msg_inbox: Pipe<M>,
    /// Bounded inbox the behaviour receives signals from.
    pub sig_inbox: Pipe<Signal>,
    /// User messages accepted by the system, not yet forwarded into the
    /// bounded inbox.
    pub pending_msgs: Vec<M>,
    /// System messages accepted by the system, not yet handled.
    pub pending_sys: Vec<SysMsg>,
    /// Outputs of attached futures, delivered into the inbox on
    /// completion.
    pub tasks: Vec<M>,
    /// Reply tokens of pending wait-for-exit requests.
    pub waiters: Vec<u64>,
    /// The init-ack sender, until the behaviour consumes it.
    pub init_ack: Option<InitAckTx>,
    /// The exit handler to notify after termination.
    pub exit_handler: Option<ExitHandlerRef>,
}

impl<M> View for ActorState<M> {
    type V = ActorStateV<M>;

    open spec fn view(&self) -> ActorStateV<M> {
        ActorStateV {
            actor_id: self.actor_id,
            links: self.links@,
            trap_exit: self.trap_exit,
            msg_inbox: self.msg_inbox@,
            msg_cap: self.msg_inbox.capacity(),
            sig_inbox: self.sig_inbox@,
            sig_cap: self.sig_inbox.capacity(),
            pending_msgs: self.pending_msgs@,
            pending_sys: self.pending_sys@,
            tasks: self.tasks@,
            waiters: self.waiters@,
            init_ack: self.init_ack,
            exit_handler: self.exit_handler,
        }
    }
}

/// True when `info` is the faithful snapshot of the state `a`. The calls
/// pipe is a one-slot rendezvous that is empty whenever it can be observed,
/// so its depth reports as zero.
pub open spec fn info_matches<M>(info: ActorInfo, a: ActorStateV<M>) -> bool {
    &&& info.actor_id == a.actor_id
    &&& info.m_queue_len.0 == a.msg_inbox.len()
    &&& info.m_queue_len.1 == a.msg_cap
    &&& info.s_queue_len.0 == a.sig_inbox.len()
    &&& info.s_queue_len.1 == a.sig_cap
    &&& info.c_queue_len.0 == 0
    &&& info.c_queue_len.1 == 1
    &&& info.tasks_count == a.tasks.len()
    &&& info.trap_exit == a.trap_exit
    &&& info.links@ == a.links
    &&& info.waits_len == a.waiters.len()
}

/// What handling one system message decided.
#[derive(Debug)]
pub enum SysOutcome {
    /// State updated; the runner keeps running.
    Progressed,
    /// The signal inbox is full: the runner would suspend. The message is
    /// handed back untouched.
    Blocked(SysMsg),
    /// An inspection reply to send under the token.
    Reply(u64, ActorInfo),
    /// The runner must terminate with this reason.
    ExitDecision(Exit),
}

/// How one system message, handled in normal operation, takes the runner
/// state `a0` to `a1` with outcome `r`.
///
/// A `Link`/`Unlink` adjusts the link set. A `Wait` registers its token. A
/// `GetInfo` answers with a snapshot. A `SigExit` is ignored when it speaks
/// of a non-linked foreign actor; `Kill` terminates unconditionally; a
/// trap-exit actor turns the signal into an event (suspending while the
/// signal inbox is full); a normal reason from a peer only dissolves the
/// link; anything else terminates the actor with that reason.
pub open spec fn sys_msg_step<M>(
    a0: ActorStateV<M>,
    a1: ActorStateV<M>,
    msg: SysMsg,
    r: SysOutcome,
) -> bool {
    match msg {
        SysMsg::Link(from) => r is Progressed && a1 == ActorStateV {
            links: insert_id(a0.links, from),
            ..a0
        },
        SysMsg::Unlink(from) => r is Progressed && a1 == ActorStateV {
            links: remove_id(a0.links, from),
            ..a0
        },
        SysMsg::Wait(w) => r is Progressed && a1 == ActorStateV {
            waiters: a0.waiters.push(w),
            ..a0
        },
        SysMsg::GetInfo(t) => a1 == a0 && match r {
            SysOutcome::Reply(tt, info) => tt == t && info_matches(info, a0),
            _ => false,
        },
        SysMsg::SigExit(from, e) => {
            if e is Kill {
                a1 == a0 && r == SysOutcome::ExitDecision(Exit::Kill)
            } else if from != a0.actor_id && !a0.links.contains(from) {
                a1 == a0 && r is Progressed
            } else if a0.trap_exit {
                if a0.sig_inbox.len() >= a0.sig_cap {
                    a1 == a0 && r == SysOutcome::Blocked(SysMsg::SigExit(from, e))
                } else {
                    r is Progressed && a1 == ActorStateV {
                        links: remove_id(a0.links, from),
                        sig_inbox: a0.sig_inbox.push(Signal::Exited(from, e)),
                        ..a0
                    }
                }
            } else if e is Normal && from != a0.actor_id {
                r is Progressed && a1 == ActorStateV { links: remove_id(a0.links, from), ..a0 }
            } else {
                a1 == ActorStateV { links: remove_id(a0.links, from), ..a0 } && match r {
                    SysOutcome::ExitDecision(ex) => ex == e,
                    _ => false,
                }
            }
        },
    }
}

impl<M> ActorState<M> {
    /// The link set is duplicate-free.
    pub open spec fn wf(&self) -> bool {
        no_dup_ids(self.links@)
    }

    /// An inspection snapshot of this state.
    pub fn info(&self) -> (r: ActorInfo)
        ensures
            info_matches(r, self@),
    {
        let m_len = self.msg_inbox.len();
        let s_len = self.sig_inbox.len();
        let mut links: Vec<ActorID> = Vec::new();
        let mut i: usize = 0;
        while i < self.links.len()
            invariant
                i <= self.links@.len(),
                links@ == self.links@.take(i as int),
            decreases self.links@.len() - i,
        {
            links.push(self.links[i]);
            proof {
                assert(links@ =~= self.links@.take(i as int + 1));
            }
            i += 1;
        }
        proof {
            assert(self.links@.take(self.links@.len() as int) =~= self.links@);
        }
        ActorInfo {
            actor_id: self.actor_id,
            m_queue_len: m_len,
            s_queue_len: s_len,
            c_queue_len: (0, 1),
            tasks_count: self.tasks.len(),
            trap_exit: self.trap_exit,
            links,
            waits_len: self.waiters.len(),
        }
    }

    /// Handles one system message in normal operation, as `sys_msg_step`
    /// describes.
    pub fn apply_sys_msg(&mut self, msg: SysMsg) -> (r: SysOutcome)
        requires
            old(self).wf(),
        ensures
            final(self).wf(),
            sys_msg_step(old(self)@, final(self)@, msg, r),
    {
        match msg {
            SysMsg::Link(from) => {
                insert_id_vec(&mut self.links, from);
                SysOutcome::Progressed
            },
            SysMsg::Unlink(from) => {
                remove_id_vec(&mut self.links, from);
                SysOutcome::Progressed
            },
            SysMsg::Wait(w) => {
                self.waiters.push(w);
                SysOutcome::Progressed
            },
            SysMsg::GetInfo(t) => SysOutcome::Reply(t, self.info()),
            SysMsg::SigExit(from, e) => {
                if e.is_kill() {
                    return SysOutcome::ExitDecision(Exit::kill());
                }
                let linked = ids_contain(&self.links, from);
                if from != self.actor_id && !linked {
                    return SysOutcome::Progressed;
                }
                if self.trap_exit {
                    let (s_len, s_cap) = self.sig_inbox.len();
                    if s_len >= s_cap {
                        return SysOutcome::Blocked(SysMsg::SigExit(from, e));
                    }
                    remove_id_vec(&mut self.links, from);
                    let rejected = self.sig_inbox.send(Signal::Exited(from, e));
                    proof {
                        assert(rejected is None);
                    }
                    return SysOutcome::Progressed;
                }
                let normal = e.is_normal();
                remove_id_vec(&mut self.links, from);
                if normal && from != self.actor_id {
                    SysOutcome::Progressed
                } else {
                    SysOutcome::ExitDecision(e)
                }
            },
        }
    }
}

} // verus!
