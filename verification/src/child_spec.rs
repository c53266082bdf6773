use vstd::prelude::*;

use crate::exit::Exit;

verus! {

/// Default time, in milliseconds, the escalator waits after a polite
/// shutdown request.
pub const DEFAULT_SHUTDOWN_TIMEOUT_MS: u64 = 5000;

/// Default time, in milliseconds, the escalator waits after a kill.
pub const DEFAULT_KILL_TIMEOUT_MS: u64 = 5000;

/// When a supervisor restarts a child.
#[derive(Clone, Copy, Debug)]
pub enum ChildType {
    /// Always restarted.
    Permanent,
    /// Restarted only after a non-normal exit.
    Transient,
    /// Never restarted.
    Temporary,
}

/// The declaration of one supervised child: an identifier, a factory that
/// produces the child when started, a restart kind and a shutdown
/// escalation sequence of (exit reason, timeout in milliseconds) steps.
#[derive(Debug)]
pub struct ChildSpec<ID, P> {
    pub id: ID,
    pub produce: P,
    pub child_type: ChildType,
    pub shutdown: Vec<(Exit, u64)>,
}

impl<ID, P> ChildSpec<ID, P> {
    /// A child spec with the default restart kind (permanent) and the
    /// default shutdown sequence: ask politely, then kill.
    pub fn new(id: ID, produce: P) -> (r: ChildSpec<ID, P>)
        ensures
            r.id == id,
            r.produce == produce,
            r.child_type is Permanent,
            r.shutdown@.len() == 2,
            r.shutdown@[0] == (Exit::Shutdown(None), DEFAULT_SHUTDOWN_TIMEOUT_MS),
            r.shutdown@[1] == (Exit::Kill, DEFAULT_KILL_TIMEOUT_MS),
    {
        let mut shutdown: Vec<(Exit, u64)> = Vec::new();
        shutdown.push((Exit::shutdown(), DEFAULT_SHUTDOWN_TIMEOUT_MS));
        shutdown.push((Exit::kill(), DEFAULT_KILL_TIMEOUT_MS));
        ChildSpec { id, produce, child_type: ChildType::Permanent, shutdown }
    }

    /// Replaces the restart kind.
    pub fn with_child_type(self, restart: ChildType) -> (r: ChildSpec<ID, P>)
        ensures
            r.id == self.id,
            r.produce == self.produce,
            r.child_type == restart,
            r.shutdown@ == self.shutdown@,
    {
        ChildSpec { child_type: restart, ..self }
    }

    /// Replaces the shutdown escalation sequence.
    pub fn with_shutdown(self, shutdown: Vec<(Exit, u64)>) -> (r: ChildSpec<ID, P>)
        ensures
            r.id == self.id,
            r.produce == self.produce,
            r.child_type == self.child_type,
            r.shutdown@ == shutdown@,
    {
        ChildSpec { shutdown, ..self }
    }
}

} // verus!
