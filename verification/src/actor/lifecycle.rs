//! The lifecycle of an actor: the built-in `Status` and `Stop` messages and the
//! decisions of the loop that drives an actor from `Starting` to `Stopped`.
//!
//! The loop itself awaits the actor's hooks and its mailbox, so it runs in the
//! hosting program. After each piece of awaited work it reports what happened
//! to [`actor_loop`], which updates the status and says what to do next.
use crate::actor::context::{ActorHandlerContext, ActorStatus};
use vstd::prelude::*;

verus! {

/// Asks an actor for its status.
#[derive(Debug)]
pub struct Status {}

/// Asks an actor to stop once the messages before this one have been handled.
#[derive(Debug)]
pub struct Stop {}

impl Status {
    /// Answers with the actor's status and changes nothing.
    pub fn handle(&self, ctx: &mut ActorHandlerContext) -> (status: ActorStatus)
        ensures
            status == old(ctx).status(),
            *final(ctx) == *old(ctx),
    {
        *ctx.get_status()
    }
}

impl Stop {
    /// Marks the actor as stopping; the loop sees the mark when this handler
    /// returns.
    pub fn handle(&self, ctx: &mut ActorHandlerContext) -> (status: ActorStatus)
        ensures
            status == ActorStatus::Stopping,
            final(ctx).status() == ActorStatus::Stopping,
            final(ctx).actor_id() == old(ctx).actor_id(),
    {
        ctx.set_status(ActorStatus::Stopping);
        ActorStatus::Stopping
    }
}

/// What the loop has just finished waiting for.
#[derive(Clone, Copy, Debug, PartialEq, Eq, Structural)]
pub enum LoopEvent {
    /// The actor's `started` hook returned.
    StartedReturned,
    /// An envelope was received and its handler returned.
    MessageHandled,
    /// The mailbox is closed and drained: every reference is gone.
    MailboxClosed,
    /// The actor's `stopped` hook returned.
    StoppedReturned,
}

/// What the loop does next.
#[derive(Clone, Copy, Debug, PartialEq, Eq, Structural)]
pub enum LoopStep {
    /// Call the actor's `started` hook. Every loop begins with this step.
    RunStarted,
    /// Wait for the next envelope and run its handler.
    Receive,
    /// Call the actor's `stopped` hook.
    RunStopped,
    /// Leave the loop and drop the actor and its context.
    Exit,
}

/// The status that the loop leaves in the context after `event`, given the
/// status that the hook or handler left there.
pub open spec fn status_after(status: ActorStatus, event: LoopEvent) -> ActorStatus {
    match event {
        LoopEvent::StartedReturned => if status == ActorStatus::Stopping {
            ActorStatus::Stopping
        } else {
            ActorStatus::Started
        },
        LoopEvent::MessageHandled => status,
        LoopEvent::MailboxClosed => ActorStatus::Stopping,
        LoopEvent::StoppedReturned => ActorStatus::Stopped,
    }
}

/// The step that follows `event`, given the status that the hook or handler
/// left in the context.
pub open spec fn step_after(status: ActorStatus, event: LoopEvent) -> LoopStep {
    match event {
        LoopEvent::StartedReturned => if status == ActorStatus::Stopping {
            LoopStep::Exit
        } else {
            LoopStep::Receive
        },
        LoopEvent::MessageHandled => if status == ActorStatus::Stopping {
            LoopStep::RunStopped
        } else {
            LoopStep::Receive
        },
        LoopEvent::MailboxClosed => LoopStep::RunStopped,
        LoopEvent::StoppedReturned => LoopStep::Exit,
    }
}

/// One decision of the actor loop.
///
/// The loop starts with a fresh context in `Starting` and the step
/// `RunStarted`. A `started` hook that asks to stop ends the loop at once,
/// without `stopped`. Otherwise the actor is `Started` and receives. A handler
/// that leaves `Stopping` behind, or a closed mailbox, leads to the `stopped`
/// hook, after which the actor is `Stopped` and the loop exits.
pub fn actor_loop(ctx: &mut ActorHandlerContext, event: LoopEvent) -> (step: LoopStep)
    ensures
        step == step_after(old(ctx).status(), event),
        final(ctx).status() == status_after(old(ctx).status(), event),
        final(ctx).actor_id() == old(ctx).actor_id(),
{
    let stopping = match ctx.get_status() {
        ActorStatus::Stopping => true,
        _ => false,
    };
    match event {
        LoopEvent::StartedReturned => {
            if stopping {
                LoopStep::Exit
            } else {
                ctx.set_status(ActorStatus::Started);
                LoopStep::Receive
            }
        },
        LoopEvent::MessageHandled => {
            if stopping {
                LoopStep::RunStopped
            } else {
                LoopStep::Receive
            }
        },
        LoopEvent::MailboxClosed => {
            ctx.set_status(ActorStatus::Stopping);
            LoopStep::RunStopped
        },
        LoopEvent::StoppedReturned => {
            ctx.set_status(ActorStatus::Stopped);
            LoopStep::Exit
        },
    }
}

/// One report of the loop: the event, and the status that the hook or handler
/// left in the context when it returned.
pub struct Report {
    pub status: ActorStatus,
    pub event: LoopEvent,
}

/// The step that the loop is at before report `i` of `run`; with `i` the
/// length of `run`, the step that the whole run leads to.
pub open spec fn step_before(run: Seq<Report>, i: int) -> LoopStep {
    if i <= 0 {
        LoopStep::RunStarted
    } else {
        step_after(run[i - 1].status, run[i - 1].event)
    }
}

/// Whether `event` is what can come of `step`.
pub open spec fn answers(step: LoopStep, event: LoopEvent) -> bool {
    match step {
        LoopStep::RunStarted => event == LoopEvent::StartedReturned,
        LoopStep::Receive => event == LoopEvent::MessageHandled || event
            == LoopEvent::MailboxClosed,
        LoopStep::RunStopped => event == LoopEvent::StoppedReturned,
        LoopStep::Exit => false,
    }
}

/// Whether `run` is the reports of one loop from its entry on: every report
/// answers the step that `actor_loop` gave before it. What a hook or handler
/// leaves in the context is up to it.
pub open spec fn is_run(run: Seq<Report>) -> bool {
    forall|i: int| 0 <= i < run.len() ==> answers(#[trigger] step_before(run, i), run[i].event)
}

/// After `Exit` nothing is reported.
proof fn lemma_exit_is_last(run: Seq<Report>, i: int)
    requires
        is_run(run),
        0 <= i <= run.len(),
        step_before(run, i) == LoopStep::Exit,
    ensures
        i == run.len(),
{
    if i < run.len() {
        assert(answers(step_before(run, i), run[i].event));
    }
}

/// The `stopped` hook is the last thing a loop does before it exits.
proof fn lemma_stopped_is_last(run: Seq<Report>, i: int)
    requires
        is_run(run),
        0 <= i <= run.len(),
        step_before(run, i) == LoopStep::RunStopped,
    ensures
        run.len() <= i + 1,
{
    if i < run.len() {
        assert(answers(step_before(run, i), run[i].event));
        lemma_exit_is_last(run, i + 1);
    }
}

/// In every run of the loop the `started` hook is called once, as the first
/// step. The `stopped` hook is called at most once, and only after `started`
/// has returned without asking to stop: where `started` leaves `Stopping`
/// behind, `stopped` is never called.
pub proof fn lemma_hooks_run_once(run: Seq<Report>, i: int, j: int)
    requires
        is_run(run),
        0 <= i <= run.len(),
        0 <= j <= run.len(),
    ensures
        step_before(run, i) == LoopStep::RunStarted <==> i == 0,
        step_before(run, i) == LoopStep::RunStopped && step_before(run, j) == LoopStep::RunStopped
            ==> i == j,
        step_before(run, i) == LoopStep::RunStopped ==> i >= 2 && run[0].event
            == LoopEvent::StartedReturned && run[0].status != ActorStatus::Stopping,
{
    if step_before(run, i) == LoopStep::RunStopped {
        lemma_stopped_is_last(run, i);
        assert(answers(step_before(run, 0), run[0].event));
        if run[0].status == ActorStatus::Stopping {
            lemma_exit_is_last(run, 1);
        }
        if step_before(run, j) == LoopStep::RunStopped {
            lemma_stopped_is_last(run, j);
            if i < j {
                assert(answers(step_before(run, i), run[i].event));
            }
            if j < i {
                assert(answers(step_before(run, j), run[j].event));
            }
        }
    }
}

/// A handler that leaves `Stopping` behind, as the handler of `Stop` does, is
/// followed by the `stopped` hook, and the loop receives no envelope after it.
/// A handler that leaves any other status behind is followed by the next
/// receive.
pub proof fn lemma_stop_ends_receiving(run: Seq<Report>, i: int, j: int)
    requires
        is_run(run),
        0 <= i < j <= run.len(),
        run[i].event == LoopEvent::MessageHandled,
    ensures
        run[i].status == ActorStatus::Stopping ==> step_before(run, i + 1) == LoopStep::RunStopped
            && step_before(run, j) != LoopStep::Receive,
        run[i].status != ActorStatus::Stopping ==> step_before(run, i + 1) == LoopStep::Receive,
{
    if run[i].status == ActorStatus::Stopping {
        lemma_stopped_is_last(run, i + 1);
        if j > i + 1 {
            assert(answers(step_before(run, i + 1), run[i + 1].event));
        }
    }
}

} // verus!
