use vstd::prelude::*;

use crate::actor_id::ActorID;

verus! {

/// The actor under which a supervised child runs its start procedure; kept
/// as a distinct type so a parent id is not confused with a child id.
#[derive(Clone, Copy, PartialEq, Eq, Structural, Debug)]
pub struct ParentActor(pub ActorID);

} // verus!
