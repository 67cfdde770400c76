//! Shutting the export pipeline down.
//!
//! Shutting down has two phases: the pipeline is told to drain what it has
//! buffered, and then the caller waits for that, up to a time limit. This
//! module decides what is to be done; the caller does it and reports back.
//! A second shutdown does nothing: what was flushed is not flushed again.
use vstd::prelude::*;

verus! {

/// How far the shutdown has come.
#[derive(Clone, Copy, Debug, PartialEq, Eq, Structural)]
pub enum ShutdownState {
    /// Spans are being exported; no shutdown was asked for.
    Running,
    /// The pipeline was told to drain and has not finished yet.
    Draining,
    /// The pipeline has stopped.
    Stopped,
}

/// What the caller is to do after asking for a shutdown.
#[derive(Clone, Copy, Debug, PartialEq, Eq, Structural)]
pub enum ShutdownAction {
    /// Flush the buffered spans and wait for it, up to the time limit.
    Flush,
    /// Nothing: a shutdown was asked for before.
    Nothing,
}

/// How a flush ended.
#[derive(Clone, Copy, Debug, PartialEq, Eq, Structural)]
pub enum FlushOutcome {
    Completed,
    TimedOut,
}

/// What a finished shutdown amounts to. None of these is fatal.
#[derive(Clone, Copy, Debug, PartialEq, Eq, Structural)]
pub enum ShutdownReport {
    /// Every buffered span was exported.
    Flushed,
    /// The time limit passed; the spans still buffered are lost.
    SpansLost,
    /// No flush was under way, so nothing was finished.
    NotDraining,
}

/// The state after a shutdown was asked for in `state`.
pub open spec fn after_shutdown(state: ShutdownState) -> ShutdownState {
    match state {
        ShutdownState::Running => ShutdownState::Draining,
        other => other,
    }
}

/// What is to be done when a shutdown is asked for in `state`.
pub open spec fn action_in(state: ShutdownState) -> ShutdownAction {
    match state {
        ShutdownState::Running => ShutdownAction::Flush,
        _ => ShutdownAction::Nothing,
    }
}

/// The state after a flush ended in `state`.
pub open spec fn after_flush(state: ShutdownState) -> ShutdownState {
    match state {
        ShutdownState::Draining => ShutdownState::Stopped,
        other => other,
    }
}

/// What a flush that ended with `outcome` in `state` amounts to.
pub open spec fn report_in(state: ShutdownState, outcome: FlushOutcome) -> ShutdownReport {
    match state {
        ShutdownState::Draining => match outcome {
            FlushOutcome::Completed => ShutdownReport::Flushed,
            FlushOutcome::TimedOut => ShutdownReport::SpansLost,
        },
        _ => ShutdownReport::NotDraining,
    }
}

/// The handle by which the export pipeline is shut down.
#[derive(Debug)]
pub struct TracerShutdown {
    state: ShutdownState,
}

impl TracerShutdown {
    /// How far the shutdown has come.
    pub closed spec fn spec_state(&self) -> ShutdownState {
        self.state
    }

    /// The handle of a pipeline that is running.
    pub fn new() -> (handle: TracerShutdown)
        ensures
            handle.spec_state() == ShutdownState::Running,
    {
        TracerShutdown { state: ShutdownState::Running }
    }

    /// How far the shutdown has come.
    pub fn state(&self) -> (state: ShutdownState)
        ensures
            state == self.spec_state(),
    {
        self.state
    }

    /// Asks for the shutdown. The first call tells the caller to flush; every
    /// later call tells it to do nothing and changes nothing.
    pub fn shutdown(&mut self) -> (action: ShutdownAction)
        ensures
            action == action_in(old(self).spec_state()),
            final(self).spec_state() == after_shutdown(old(self).spec_state()),
    {
        match self.state {
            ShutdownState::Running => {
                self.state = ShutdownState::Draining;
                ShutdownAction::Flush
            },
            _ => ShutdownAction::Nothing,
        }
    }

    /// Takes note that the flush has ended, in time or not. A flush that ran
    /// out of time is reported and the pipeline counts as stopped all the same.
    pub fn finish(&mut self, outcome: FlushOutcome) -> (report: ShutdownReport)
        ensures
            report == report_in(old(self).spec_state(), outcome),
            final(self).spec_state() == after_flush(old(self).spec_state()),
    {
        match self.state {
            ShutdownState::Draining => {
                self.state = ShutdownState::Stopped;
                match outcome {
                    FlushOutcome::Completed => ShutdownReport::Flushed,
                    FlushOutcome::TimedOut => ShutdownReport::SpansLost,
                }
            },
            _ => ShutdownReport::NotDraining,
        }
    }
}

/// Shutting down twice is safe: whatever the state, a shutdown asked for again
/// flushes nothing and leaves the state as the first one left it.
pub proof fn lemma_shutdown_twice(state: ShutdownState)
    ensures
        action_in(after_shutdown(state)) == ShutdownAction::Nothing,
        after_shutdown(after_shutdown(state)) == after_shutdown(state),
{
}

/// Once a flush has ended, no shutdown flushes again, and no later end of a
/// flush is taken for a real one.
pub proof fn lemma_no_second_flush(state: ShutdownState, outcome: FlushOutcome)
    ensures
        action_in(after_flush(after_shutdown(state))) == ShutdownAction::Nothing,
        report_in(after_flush(after_shutdown(state)), outcome) == ShutdownReport::NotDraining,
{
}

} // verus!
