use vstd::prelude::*;

use crate::actor_id::{insert_id, no_dup_ids, ActorID, ids_contain};

verus! {

/// Handle of the one-shot init-acknowledgement sender given to a spawned
/// actor. The embedding runtime maps the token to the concrete channel; the
/// core only tracks whether the acknowledgement is still pending and to
/// which channel it goes.
#[derive(Clone, Copy, PartialEq, Eq, Structural, Debug)]
pub struct InitAckTx(pub u64);

/// Handle of an exit handler registered for an actor: a callback the
/// embedding runtime invokes with the actor's id and final exit reason
/// after termination, before the slot is recycled.
#[derive(Clone, Copy, PartialEq, Eq, Structural, Debug)]
pub struct ExitHandlerRef(pub u64);

/// Default capacity of the bounded message inbox.
pub const DEFAULT_MSG_INBOX_SIZE: usize = 1024;

/// Default capacity of the bounded signal inbox.
pub const DEFAULT_SIG_INBOX_SIZE: usize = 16;

/// Configuration for spawning one actor: initial link set, inbox
/// capacities, an optional init-ack sender and an optional exit handler.
#[derive(Debug)]
pub struct SpawnOpts {
    links: Vec<ActorID>,
    msg_inbox_size: usize,
    sig_inbox_size: usize,
    init_ack: Option<InitAckTx>,
    exit_handler: Option<ExitHandlerRef>,
}

impl SpawnOpts {
    /// The initial link set, duplicate-free.
    pub closed spec fn links_view(&self) -> Seq<ActorID> {
        self.links@
    }

    pub closed spec fn msg_inbox_size_view(&self) -> usize {
        self.msg_inbox_size
    }

    pub closed spec fn sig_inbox_size_view(&self) -> usize {
        self.sig_inbox_size
    }

    pub closed spec fn init_ack_view(&self) -> Option<InitAckTx> {
        self.init_ack
    }

    pub closed spec fn exit_handler_view(&self) -> Option<ExitHandlerRef> {
        self.exit_handler
    }

    /// Every value built through this type's constructors keeps its link
    /// set duplicate-free.
    pub open spec fn wf(&self) -> bool {
        no_dup_ids(self.links_view())
    }

    /// Fresh options: no links, default inbox sizes, no init-ack sender, no
    /// exit handler.
    pub fn new() -> (r: SpawnOpts)
        ensures
            r.wf(),
            r.links_view() == Seq::<ActorID>::empty(),
            r.msg_inbox_size_view() == DEFAULT_MSG_INBOX_SIZE,
            r.sig_inbox_size_view() == DEFAULT_SIG_INBOX_SIZE,
            r.init_ack_view() is None,
            r.exit_handler_view() is None,
    {
        SpawnOpts {
            links: Vec::new(),
            msg_inbox_size: DEFAULT_MSG_INBOX_SIZE,
            sig_inbox_size: DEFAULT_SIG_INBOX_SIZE,
            init_ack: None,
            exit_handler: None,
        }
    }

    /// Adds `with` to the initial link set; adding a link twice keeps a
    /// single entry.
    pub fn with_link(self, with: ActorID) -> (r: SpawnOpts)
        requires
            self.wf(),
        ensures
            r.wf(),
            r.links_view() == insert_id(self.links_view(), with),
            r.msg_inbox_size_view() == self.msg_inbox_size_view(),
            r.sig_inbox_size_view() == self.sig_inbox_size_view(),
            r.init_ack_view() == self.init_ack_view(),
            r.exit_handler_view() == self.exit_handler_view(),
    {
        let mut s = self;
        if !ids_contain(&s.links, with) {
            s.links.push(with);
            proof {
                assert(s.links@[s.links@.len() - 1] == with);
                assert forall|i: int, j: int| 0 <= i < j < s.links@.len() implies s.links@[i]
                    != s.links@[j] by {
                    if j == s.links@.len() - 1 {
                        assert(s.links@[i] == self.links@[i]);
                        assert(self.links@[i] != with);
                    }
                }
            }
        }
        s
    }

    /// A copy of the initial link set.
    pub fn links(&self) -> (r: Vec<ActorID>)
        ensures
            r@ == self.links_view(),
    {
        let mut out: Vec<ActorID> = Vec::new();
        let mut i: usize = 0;
        while i < self.links.len()
            invariant
                i <= self.links@.len(),
                out@ == self.links@.take(i as int),
            decreases self.links@.len() - i,
        {
            out.push(self.links[i]);
            proof {
                assert(out@ =~= self.links@.take(i as int + 1));
            }
            i += 1;
        }
        proof {
            assert(self.links@.take(self.links@.len() as int) =~= self.links@);
        }
        out
    }

    /// Sets the capacity of the bounded message inbox.
    pub fn with_msg_inbox_size(self, sz: usize) -> (r: SpawnOpts)
        ensures
            r.wf() == self.wf(),
            r.links_view() == self.links_view(),
            r.msg_inbox_size_view() == sz,
            r.sig_inbox_size_view() == self.sig_inbox_size_view(),
            r.init_ack_view() == self.init_ack_view(),
            r.exit_handler_view() == self.exit_handler_view(),
    {
        SpawnOpts { msg_inbox_size: sz, ..self }
    }

    /// The capacity of the bounded message inbox.
    pub fn msg_inbox_size(&self) -> (r: usize)
        ensures
            r == self.msg_inbox_size_view(),
    {
        self.msg_inbox_size
    }

    /// Sets the capacity of the bounded signal inbox.
    pub fn with_sig_inbox_size(self, sz: usize) -> (r: SpawnOpts)
        ensures
            r.wf() == self.wf(),
            r.links_view() == self.links_view(),
            r.msg_inbox_size_view() == self.msg_inbox_size_view(),
            r.sig_inbox_size_view() == sz,
            r.init_ack_view() == self.init_ack_view(),
            r.exit_handler_view() == self.exit_handler_view(),
    {
        SpawnOpts { sig_inbox_size: sz, ..self }
    }

    /// The capacity of the bounded signal inbox.
    pub fn sig_inbox_size(&self) -> (r: usize)
        ensures
            r == self.sig_inbox_size_view(),
    {
        self.sig_inbox_size
    }

    /// Stores the init-ack sender, replacing any previous one.
    pub fn with_init_ack(self, init_ack_tx: InitAckTx) -> (r: SpawnOpts)
        ensures
            r.wf() == self.wf(),
            r.links_view() == self.links_view(),
            r.msg_inbox_size_view() == self.msg_inbox_size_view(),
            r.sig_inbox_size_view() == self.sig_inbox_size_view(),
            r.init_ack_view() == Some(init_ack_tx),
            r.exit_handler_view() == self.exit_handler_view(),
    {
        SpawnOpts { init_ack: Some(init_ack_tx), ..self }
    }

    /// Takes the init-ack sender out, leaving `None` behind.
    pub fn take_init_ack(&mut self) -> (r: Option<InitAckTx>)
        ensures
            r == old(self).init_ack_view(),
            final(self).init_ack_view() is None,
            final(self).wf() == old(self).wf(),
            final(self).links_view() == old(self).links_view(),
            final(self).msg_inbox_size_view() == old(self).msg_inbox_size_view(),
            final(self).sig_inbox_size_view() == old(self).sig_inbox_size_view(),
            final(self).exit_handler_view() == old(self).exit_handler_view(),
    {
        self.init_ack.take()
    }

    /// Stores the exit handler, replacing any previous one.
    pub fn with_exit_handler(self, exit_handler: ExitHandlerRef) -> (r: SpawnOpts)
        ensures
            r.wf() == self.wf(),
            r.links_view() == self.links_view(),
            r.msg_inbox_size_view() == self.msg_inbox_size_view(),
            r.sig_inbox_size_view() == self.sig_inbox_size_view(),
            r.init_ack_view() == self.init_ack_view(),
            r.exit_handler_view() == Some(exit_handler),
    {
        SpawnOpts { exit_handler: Some(exit_handler), ..self }
    }

    /// Takes the exit handler out, leaving `None` behind.
    pub fn take_exit_handler(&mut self) -> (r: Option<ExitHandlerRef>)
        ensures
            r == old(self).exit_handler_view(),
            final(self).exit_handler_view() is None,
            final(self).wf() == old(self).wf(),
            final(self).links_view() == old(self).links_view(),
            final(self).msg_inbox_size_view() == old(self).msg_inbox_size_view(),
            final(self).sig_inbox_size_view() == old(self).sig_inbox_size_view(),
            final(self).init_ack_view() == old(self).init_ack_view(),
    {
        self.exit_handler.take()
    }
}

impl Default for SpawnOpts {
    /// Same value as `SpawnOpts::new`.
    fn default() -> (r: Self)
        ensures
            r.wf(),
            r.links_view() == Seq::<ActorID>::empty(),
            r.msg_inbox_size_view() == DEFAULT_MSG_INBOX_SIZE,
            r.sig_inbox_size_view() == DEFAULT_SIG_INBOX_SIZE,
            r.init_ack_view() is None,
            r.exit_handler_view() is None,
    {
        SpawnOpts::new()
    }
}

} // verus!
