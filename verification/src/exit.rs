use vstd::prelude::*;

verus! {

/// The runner-side channel whose failure is being reported.
#[derive(Clone, Copy, PartialEq, Eq, Structural, Debug)]
pub enum ChannelKind {
    Messages,
    SysMsgs,
    Signals,
    Calls,
}

/// A fault inside the actor backend. It surfaces as an
/// `Exit::BackendFailure` and triggers link propagation like any other
/// non-normal exit.
#[derive(Clone, Copy, PartialEq, Eq, Structural, Debug)]
pub enum BackendFailure {
    /// A receiving channel was closed under the runner.
    RxClosed(ChannelKind),
    /// The bounded inbox rejected a message.
    InboxFull(ChannelKind),
    /// The shutdown escalation sequence was exhausted without the child
    /// terminating.
    ShutdownFailed,
}

/// An exit reason.
///
/// `Normal` is the only reason for which `is_normal` holds. `Shutdown` may
/// carry a chained source exit for causality display. `Kill` is the
/// terminal, non-trappable reason: a runner terminates on observing a
/// `SigExit(_, Kill)` without consulting its trap-exit flag.
#[derive(Debug)]
pub enum Exit {
    Normal,
    Shutdown(Option<Box<Exit>>),
    Kill,
    NoActor,
    BackendFailure(BackendFailure),
    Custom(String),
}

/// Structural equality of two exit reasons; custom payloads are compared by
/// their character sequences.
pub open spec fn exit_eq(a: Exit, b: Exit) -> bool
    decreases a,
{
    match a {
        Exit::Normal => b is Normal,
        Exit::Kill => b is Kill,
        Exit::NoActor => b is NoActor,
        Exit::Shutdown(sa) => match b {
            Exit::Shutdown(sb) => match (sa, sb) {
                (None, None) => true,
                (Some(ba), Some(bb)) => exit_eq(*ba, *bb),
                _ => false,
            },
            _ => false,
        },
        Exit::BackendFailure(fa) => match b {
            Exit::BackendFailure(fb) => fa == fb,
            _ => false,
        },
        Exit::Custom(pa) => match b {
            Exit::Custom(pb) => pa@ == pb@,
            _ => false,
        },
    }
}

impl Exit {
    /// The normal (non-faulty) exit reason.
    pub fn normal() -> (r: Exit)
        ensures
            r == Exit::Normal,
    {
        Exit::Normal
    }

    /// A shutdown request without a chained source.
    pub fn shutdown() -> (r: Exit)
        ensures
            r == Exit::Shutdown(None),
    {
        Exit::Shutdown(None)
    }

    /// A shutdown reason chaining the exit that caused it.
    pub fn shutdown_with_source(source: Exit) -> (r: Exit)
        ensures
            r == Exit::Shutdown(Some(Box::new(source))),
    {
        Exit::Shutdown(Some(Box::new(source)))
    }

    /// The non-trappable kill reason.
    pub fn kill() -> (r: Exit)
        ensures
            r == Exit::Kill,
    {
        Exit::Kill
    }

    /// The reason reported for operations against a dead or stale actor id.
    pub fn no_actor() -> (r: Exit)
        ensures
            r == Exit::NoActor,
    {
        Exit::NoActor
    }

    /// A user-supplied exit reason.
    pub fn custom(payload: String) -> (r: Exit)
        ensures
            r == Exit::Custom(payload),
    {
        Exit::Custom(payload)
    }

    pub open spec fn spec_is_normal(&self) -> bool {
        *self is Normal
    }

    /// True exactly for `Normal`.
    #[verifier::when_used_as_spec(spec_is_normal)]
    pub fn is_normal(&self) -> (r: bool)
        ensures
            r == self.spec_is_normal(),
    {
        matches!(self, Exit::Normal)
    }

    pub open spec fn spec_is_kill(&self) -> bool {
        *self is Kill
    }

    /// True exactly for `Kill`.
    #[verifier::when_used_as_spec(spec_is_kill)]
    pub fn is_kill(&self) -> (r: bool)
        ensures
            r == self.spec_is_kill(),
    {
        matches!(self, Exit::Kill)
    }

    /// Decides `exit_eq` on two exit reasons.
    pub fn equals(&self, other: &Exit) -> (r: bool)
        ensures
            r == exit_eq(*self, *other),
        decreases self,
    {
        match self {
            Exit::Normal => match other {
                Exit::Normal => true,
                _ => false,
            },
            Exit::Kill => match other {
                Exit::Kill => true,
                _ => false,
            },
            Exit::NoActor => match other {
                Exit::NoActor => true,
                _ => false,
            },
            Exit::Shutdown(sa) => match other {
                Exit::Shutdown(sb) => match sa {
                    None => match sb {
                        None => true,
                        Some(_) => false,
                    },
                    Some(ba) => match sb {
                        Some(bb) => (&**ba).equals(&**bb),
                        None => false,
                    },
                },
                _ => false,
            },
            Exit::BackendFailure(fa) => match other {
                Exit::BackendFailure(fb) => *fa == *fb,
                _ => false,
            },
            Exit::Custom(pa) => match other {
                Exit::Custom(pb) => *pa == *pb,
                _ => false,
            },
        }
    }
}

impl Clone for Exit {
    /// Clones preserve the exit reason exactly.
    fn clone(&self) -> (r: Self)
        ensures
            r == *self,
        decreases self,
    {
        match self {
            Exit::Normal => Exit::Normal,
            Exit::Kill => Exit::Kill,
            Exit::NoActor => Exit::NoActor,
            Exit::Shutdown(src) => Exit::Shutdown(
                match src {
                    None => None,
                    Some(b) => Some(Box::new((&**b).clone())),
                },
            ),
            Exit::BackendFailure(f) => Exit::BackendFailure(*f),
            Exit::Custom(s) => Exit::Custom(s.clone()),
        }
    }
}

impl PartialEq for Exit {
    fn eq(&self, other: &Self) -> (r: bool) {
        self.equals(other)
    }
}

impl vstd::std_specs::cmp::PartialEqSpecImpl for Exit {
    open spec fn obeys_eq_spec() -> bool {
        true
    }

    open spec fn eq_spec(&self, other: &Self) -> bool {
        exit_eq(*self, *other)
    }
}

/// Why a spawn request was rejected.
#[derive(Debug, PartialEq)]
pub enum SpawnError {
    /// The address pool is exhausted: every slot is leased.
    MaxActorsLimit,
    /// A supervised child failed to start; carries the cause.
    StartChildFailed(Exit),
    /// A supervised child did not acknowledge its start in time.
    StartTimeout,
}

/// Why a system-level channel operation failed.
#[derive(Clone, Copy, PartialEq, Eq, Structural, Debug)]
pub enum SysChannelError {
    /// No live actor under the given id.
    NoActor,
    /// The actor's declared message type differs from the requested one.
    InvalidMessageType,
}

} // verus!
