//! Decisions of the worker that drives a context from an inbound channel
//! of operations and a stream of completion events.
//!
//! The worker owns the context. While new operations may still arrive or
//! operations are pending, it submits the batch once more than the
//! low-water mark of operations are batched, and then waits: for
//! completions only, when the context is full or the inbound channel is
//! closed; otherwise for whichever comes first, a new operation or a
//! completion.
use vstd::prelude::*;
use crate::raw::Iocontext;

verus! {

/// What the worker does next.
#[derive(Clone, Copy, Debug, PartialEq, Eq, Structural)]
pub enum WorkerStep {
    /// No operation can arrive and none is pending: stop.
    Finish,
    /// Submit the batch first when `submit` holds; then wait for a
    /// completion, or, when `accept` holds, for either a new operation or a
    /// completion.
    Wait { submit: bool, accept: bool },
}

/// The worker's step for the given state of the context.
pub open spec fn step_spec(lowwater: nat, closed: bool, batched: nat, pending: nat, full: bool) -> WorkerStep {
    if closed && pending == 0 {
        WorkerStep::Finish
    } else {
        WorkerStep::Wait { submit: batched > lowwater, accept: !closed && !full }
    }
}

/// The worker's policy: the number of batched operations above which it
/// submits without waiting for a flush.
pub struct ChanWorker {
    lowwater: usize,
}

impl ChanWorker {
    pub closed spec fn lowwater_spec(&self) -> nat {
        self.lowwater as nat
    }

    /// A worker for a context of `max` operations that submits once more
    /// than `lowwater` are batched.
    pub fn new(lowwater: usize, max: usize) -> (r: ChanWorker)
        requires
            0 < lowwater < max,
        ensures
            r.lowwater_spec() == lowwater,
    {
        ChanWorker { lowwater }
    }

    pub fn lowwater(&self) -> (r: usize)
        ensures
            r == self.lowwater_spec(),
    {
        self.lowwater
    }

    /// The next step, given the context and whether the inbound channel
    /// is closed.
    pub fn step<T, Wb, Rb>(&self, ctx: &Iocontext<T, Wb, Rb>, closed: bool) -> (r: WorkerStep)
        requires
            ctx.wf(),
        ensures
            r == step_spec(
                self.lowwater_spec(),
                closed,
                ctx.batched_spec(),
                ctx.pending_spec(),
                ctx.full_spec(),
            ),
    {
        if closed && ctx.pending() == 0 {
            WorkerStep::Finish
        } else {
            WorkerStep::Wait { submit: ctx.batched() > self.lowwater, accept: !closed && !ctx.full() }
        }
    }
}

} // verus!
