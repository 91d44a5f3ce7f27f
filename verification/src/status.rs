//! What a task reports to its supervisor, and what becomes of a failure.

use vstd::prelude::*;

use crate::error::Error;

verus! {

/// The task that reports.
#[derive(Debug, Clone, Copy, PartialEq, Eq, Structural)]
pub enum Component {
    Bridge,
    Upstream,
    Downstream,
}

/// The work during which a failure arose.
#[derive(Debug, Clone, Copy, PartialEq, Eq, Structural)]
pub enum Stream {
    /// Templates and previous-hash announcements from upstream.
    Template,
    /// Share submissions from downstream.
    Submission,
}

/// What a task says of itself.
#[derive(Debug, Clone, PartialEq)]
pub enum State {
    /// The task cannot go on.
    Shutdown(Error),
    /// The task goes on; the text is for the reader only.
    Healthy(String),
}

/// A report, with the task it comes from.
#[derive(Debug, Clone, PartialEq)]
pub struct Status {
    pub component: Component,
    pub state: State,
}

/// What a task does with the outcome of a step.
#[derive(Debug, Clone, PartialEq)]
pub enum Handled<T> {
    /// The step gave a value: go on with it.
    Value(T),
    /// The step failed for one client: refuse that request and go on.
    Rejected(Error),
    /// The step failed for the task: send the report and stop.
    Fatal(Status),
}

/// What the supervisor does with a report.
#[derive(Debug, Clone, Copy, PartialEq, Eq, Structural)]
pub enum Verdict {
    /// Nothing changes.
    Continue,
    /// No more work goes to the task named; the process may end.
    Stop(Component),
}

/// Whether a failure ends the task during whose work it arose: a closed
/// channel always does, and so does every failure while a template or a
/// previous-hash announcement is handled. Any other failure of a submission
/// is that client's alone.
pub open spec fn is_fatal(error: Error, stream: Stream) -> bool {
    error is ChannelClosed || stream == Stream::Template
}

/// Sorts the outcome of a step into a value to go on with, a request to
/// refuse, or a report that ends the task.
pub fn handle_result<T>(res: Result<T, Error>, component: Component, stream: Stream) -> (out:
    Handled<T>)
    ensures
        out == match res {
            Ok(value) => Handled::Value(value),
            Err(error) => if is_fatal(error, stream) {
                Handled::Fatal(Status { component, state: State::Shutdown(error) })
            } else {
                Handled::Rejected(error)
            },
        },
{
    match res {
        Ok(value) => Handled::Value(value),
        Err(error) => {
            let closed = match error {
                Error::ChannelClosed { .. } => true,
                _ => false,
            };
            let template = match stream {
                Stream::Template => true,
                Stream::Submission => false,
            };
            if closed || template {
                Handled::Fatal(Status { component, state: State::Shutdown(error) })
            } else {
                Handled::Rejected(error)
            }
        },
    }
}

/// The supervisor's rule: a report of shutdown stops the task that sent it,
/// a report of health changes nothing.
pub fn supervise(status: &Status) -> (verdict: Verdict)
    ensures
        verdict == match status.state {
            State::Shutdown(_) => Verdict::Stop(status.component),
            State::Healthy(_) => Verdict::Continue,
        },
{
    match status.state {
        State::Shutdown(_) => Verdict::Stop(status.component),
        State::Healthy(_) => Verdict::Continue,
    }
}

} // verus!
