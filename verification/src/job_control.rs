//! Job control: a cancel flag and the child process of the running job.
//!
//! The controller holds the child as an opaque value of type `C`; killing,
//! polling and waiting on it are done by the caller.
use vstd::prelude::*;

verus! {

/// The error a cancelled job ends with.
pub const CANCELLED_BY_USER: &'static str = "Cancelled by user";

/// The cancel flag of the running job and its child process, if any.
pub struct JobController<C> {
    cancel_requested: bool,
    child: Option<C>,
}

/// What polling the active child answered.
pub enum ChildPoll<S> {
    /// The child exited with this status.
    Exited(S),
    /// The child is still running.
    Running,
    /// Polling failed with this message.
    Failed(String),
}

/// One round of waiting for the active child.
pub enum WaitStep<S> {
    /// Waiting is over with this result.
    Done(Result<S, String>),
    /// The child still runs: sleep, then poll again.
    Sleep,
}

/// One round of waiting took the controller from `before` to `after` with
/// result `r`, given what polling answered: a raised cancel flag ends it with
/// the cancellation error and forgets the child; otherwise no child is an
/// error, a polling failure is reported, an exit forgets the child and
/// returns the status, and a running child means sleeping.
pub open spec fn wait_round<C, S>(
    before: JobController<C>,
    after: JobController<C>,
    poll: Option<ChildPoll<S>>,
    r: WaitStep<S>,
) -> bool {
    &&& after.cancel_flag() == before.cancel_flag()
    &&& if before.cancel_flag() {
        &&& after.active_child() == None::<C>
        &&& r matches WaitStep::Done(Err(e))
        &&& e@ == CANCELLED_BY_USER@
    } else {
        match poll {
            None => {
                &&& after.active_child() == before.active_child()
                &&& r matches WaitStep::Done(Err(e))
                &&& e@ == "No active process to wait on"@
            },
            Some(ChildPoll::Failed(m)) => {
                &&& after.active_child() == before.active_child()
                &&& r matches WaitStep::Done(Err(e))
                &&& e@ == "Failed while waiting for process: "@ + m@
            },
            Some(ChildPoll::Exited(status)) => {
                &&& after.active_child() == None::<C>
                &&& r == WaitStep::Done(Ok::<S, String>(status))
            },
            Some(ChildPoll::Running) => {
                &&& after.active_child() == before.active_child()
                &&& r is Sleep
            },
        }
    }
}

impl<C> JobController<C> {
    /// Whether cancellation was requested.
    pub closed spec fn cancel_flag(&self) -> bool {
        self.cancel_requested
    }

    /// The child process of the running job.
    pub closed spec fn active_child(&self) -> Option<C> {
        self.child
    }

    /// A controller with no cancellation and no child.
    pub fn new() -> (r: Self)
        ensures
            !r.cancel_flag(),
            r.active_child() == None::<C>,
    {
        JobController { cancel_requested: false, child: None }
    }

    /// Starts a job: clears the cancel flag and forgets any child.
    pub fn begin_job(&mut self)
        ensures
            !final(self).cancel_flag(),
            final(self).active_child() == None::<C>,
    {
        self.cancel_requested = false;
        self.child = None;
    }

    /// Whether cancellation was requested.
    pub fn is_cancelled(&self) -> (r: bool)
        ensures
            r == self.cancel_flag(),
    {
        self.cancel_requested
    }

    /// Makes `child` the job's active child.
    pub fn set_child(&mut self, child: C)
        ensures
            final(self).cancel_flag() == old(self).cancel_flag(),
            final(self).active_child() == Some(child),
    {
        self.child = Some(child);
    }

    /// Forgets the active child.
    pub fn clear_child(&mut self)
        ensures
            final(self).cancel_flag() == old(self).cancel_flag(),
            final(self).active_child() == None::<C>,
    {
        self.child = None;
    }

    /// Hands back the active child, leaving none; the cancel flag is kept.
    pub fn take_child(&mut self) -> (taken: Option<C>)
        ensures
            final(self).cancel_flag() == old(self).cancel_flag(),
            final(self).active_child() == None::<C>,
            taken == old(self).active_child(),
    {
        self.child.take()
    }

    /// Requests cancellation and hands back the active child, which the caller
    /// kills and reaps.
    pub fn cancel(&mut self) -> (taken: Option<C>)
        ensures
            final(self).cancel_flag(),
            final(self).active_child() == None::<C>,
            taken == old(self).active_child(),
    {
        self.cancel_requested = true;
        self.child.take()
    }

    /// One round of waiting for the active child, given what polling it
    /// answered (`None` when there was no child to poll). Cancellation wins;
    /// an exit or a cancellation forgets the child.
    pub fn wait_step<S>(&mut self, poll: Option<ChildPoll<S>>) -> (r: WaitStep<S>)
        ensures
            wait_round(*old(self), *final(self), poll, r),
    {
        if self.cancel_requested {
            self.child = None;
            return WaitStep::Done(Err(String::from_str(CANCELLED_BY_USER)));
        }
        match poll {
            None => WaitStep::Done(Err(String::from_str("No active process to wait on"))),
            Some(ChildPoll::Failed(m)) => {
                let mut e = String::from_str("Failed while waiting for process: ");
                e.append(m.as_str());
                WaitStep::Done(Err(e))
            },
            Some(ChildPoll::Exited(status)) => {
                self.child = None;
                WaitStep::Done(Ok(status))
            },
            Some(ChildPoll::Running) => WaitStep::Sleep,
        }
    }
}

impl<C> Default for JobController<C> {
    /// A controller with no cancellation and no child.
    fn default() -> (r: Self)
        ensures
            !r.cancel_flag(),
            r.active_child() == None::<C>,
    {
        JobController::new()
    }
}

/// Once cancellation is requested, every round of waiting ends with the
/// cancellation error and forgets the child, whatever polling answered: a
/// controller just cancelled (flag raised, no child) stops the next wait.
pub proof fn law_cancelled_wait_stops<C, S>(
    cancelled: JobController<C>,
    stepped: JobController<C>,
    poll: Option<ChildPoll<S>>,
    r: WaitStep<S>,
)
    requires
        cancelled.cancel_flag(),
        wait_round(cancelled, stepped, poll, r),
    ensures
        stepped.cancel_flag(),
        stepped.active_child() == None::<C>,
        r matches WaitStep::Done(Err(e)) && e@ == CANCELLED_BY_USER@,
{
}

/// A job that was begun and then given a child finishes waiting with the
/// child's exit status when polling reports an exit.
pub proof fn law_begun_job_reports_exit<C, S>(
    begun: JobController<C>,
    stepped: JobController<C>,
    status: S,
    r: WaitStep<S>,
)
    requires
        !begun.cancel_flag(),
        wait_round(begun, stepped, Some(ChildPoll::Exited(status)), r),
    ensures
        r == WaitStep::Done(Ok::<S, String>(status)),
        stepped.active_child() == None::<C>,
        !stepped.cancel_flag(),
{
}

} // verus!
