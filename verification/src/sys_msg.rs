use vstd::prelude::*;

use crate::actor_id::ActorID;
use crate::exit::Exit;

verus! {

/// A system-level message addressed to an actor's runner.
///
/// `Wait` and `GetInfo` carry reply tokens: the embedding runtime maps each
/// token to a one-shot reply channel.
#[derive(Debug, PartialEq)]
pub enum SysMsg {
    /// The sender asks to be added to the receiver's link set.
    Link(ActorID),
    /// The sender asks to be removed from the receiver's link set.
    Unlink(ActorID),
    /// An exit signal: the first field is the actor it speaks of, the
    /// second the exit reason.
    SigExit(ActorID, Exit),
    /// Register the reply token to be woken with the final exit reason.
    Wait(u64),
    /// Ask for an inspection snapshot, replied to under the token.
    GetInfo(u64),
}

/// An event a trap-exit actor observes instead of being terminated.
#[derive(Debug, PartialEq)]
pub enum Signal {
    /// The given actor exited with the given reason.
    Exited(ActorID, Exit),
}

/// A request issued by a behaviour to its own runner.
#[derive(Debug)]
pub enum CallMsg<M> {
    /// Terminate with the given reason.
    Exit(Exit),
    /// Link to the given actor.
    Link(ActorID),
    /// Unlink from the given actor.
    Unlink(ActorID),
    /// Set or clear the trap-exit flag.
    TrapExit(bool),
    /// Attach a future; its eventual output is carried here as the message
    /// it resolves to.
    FutureToInbox(M),
}

/// What a behaviour receives from its context.
#[derive(Debug, PartialEq)]
pub enum Event<M> {
    Message(M),
    Signal(Signal),
}

/// Inspection snapshot of one live actor.
#[derive(Debug, PartialEq)]
pub struct ActorInfo {
    pub actor_id: ActorID,
    /// Message-inbox depth and capacity.
    pub m_queue_len: (usize, usize),
    /// Signal-inbox depth and capacity.
    pub s_queue_len: (usize, usize),
    /// Calls-pipe depth and capacity.
    pub c_queue_len: (usize, usize),
    /// Number of attached futures not yet completed.
    pub tasks_count: usize,
    pub trap_exit: bool,
    /// The link set at snapshot time.
    pub links: Vec<ActorID>,
    /// Number of registered wait-for-exit watchers.
    pub waits_len: usize,
}

} // verus!
