//! An Erlang/OTP-inspired actor toolkit core: actor identifiers, exit
//! reasons, spawn options, a discrete model of the actor system with links,
//! trap-exit semantics and exit-signal propagation, and the supervision
//! engine (restart decider, child specifications, shutdown escalation).

pub mod actor_id;
pub mod child_spec;
pub mod common;
pub mod escalator;
pub mod exit;
pub mod frequency;
pub mod one_for_one;
pub mod pipe;
pub mod runner;
pub mod spawn_opts;
pub mod sys_msg;
pub mod system;
pub mod uniform;
