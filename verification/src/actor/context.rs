//! The state that an actor's handlers see.
use vstd::prelude::*;

verus! {

/// Where an actor stands in its life.
#[derive(Clone, Copy, Debug, PartialEq, Eq, Structural)]
pub enum ActorStatus {
    Starting,
    Started,
    Stopping,
    Stopped,
}

/// Identifies an actor.
pub type ActorId = String;

/// The mutable state of one actor that its hooks and handlers may read and
/// change. It lives exactly as long as the actor's loop.
#[derive(Debug)]
pub struct ActorHandlerContext {
    id: ActorId,
    status: ActorStatus,
}

impl ActorHandlerContext {
    /// The id of the actor that the context belongs to.
    pub closed spec fn actor_id(&self) -> Seq<char> {
        self.id@
    }

    /// The status that the context holds.
    pub closed spec fn status(&self) -> ActorStatus {
        self.status
    }

    pub fn new(id: ActorId, status: ActorStatus) -> (ctx: ActorHandlerContext)
        ensures
            ctx.actor_id() == id@,
            ctx.status() == status,
    {
        ActorHandlerContext { id, status }
    }

    pub fn id(&self) -> (id: &ActorId)
        ensures
            id@ == self.actor_id(),
    {
        &self.id
    }

    pub fn get_status(&self) -> (status: &ActorStatus)
        ensures
            *status == self.status(),
    {
        &self.status
    }

    pub fn set_status(&mut self, status: ActorStatus)
        ensures
            final(self).status() == status,
            final(self).actor_id() == old(self).actor_id(),
    {
        self.status = status;
    }
}

} // verus!
