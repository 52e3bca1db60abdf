use super::events::WindowEvent;
use vstd::prelude::*;

verus! {

/// The life cycle of the engine's window.
#[derive(Clone, Copy, PartialEq, Eq, Debug, Structural)]
pub enum Status {
    /// The window should be opened on the next run.
    Opening,
    /// The window is open.
    Open,
    /// The window is open and will be closed on the next run.
    Closing,
    /// The window is closed (or could not be opened).
    Closed,
}

/// How far along its life cycle a window is; a window only ever moves
/// forward.
pub open spec fn status_rank(status: Status) -> nat {
    match status {
        Status::Opening => 0,
        Status::Open => 1,
        Status::Closing => 2,
        Status::Closed => 3,
    }
}

/// What the events loop asks of the window system on a run.
#[derive(Clone, Copy, PartialEq, Eq, Debug, Structural)]
pub enum RunAction {
    /// Build the window.
    Open,
    /// Update the window's title and poll its events.
    Poll,
    /// Nothing.
    Idle,
}

/// What the window system answered during a run.
#[derive(Clone, Debug)]
pub enum RunOutcome {
    /// The window was (or was not) built.
    Opened(bool),
    /// These events were polled, in order.
    Polled(Vec<WindowEvent>),
    /// Nothing was asked.
    Idle,
}

/// The work a run does for a window in `status`.
pub fn run_action(status: Status) -> (action: RunAction)
    ensures
        action == (match status {
            Status::Opening => RunAction::Open,
            Status::Open | Status::Closing => RunAction::Poll,
            Status::Closed => RunAction::Idle,
        }),
{
    match status {
        Status::Opening => RunAction::Open,
        Status::Open | Status::Closing => RunAction::Poll,
        Status::Closed => RunAction::Idle,
    }
}

/// Status after trying to build the window: open on success, closed on
/// failure.
pub fn opened(success: bool) -> (status: Status)
    ensures
        status == (if success {
            Status::Open
        } else {
            Status::Closed
        }),
{
    if success {
        Status::Open
    } else {
        Status::Closed
    }
}

/// Status after one polled event: a closing request starts closing the window
/// when the loop closes on request; any other event changes nothing.
pub open spec fn spec_on_event(status: Status, close_on_request: bool, event: WindowEvent) -> Status {
    if event == WindowEvent::CloseRequested && close_on_request {
        Status::Closing
    } else {
        status
    }
}

/// Status after one polled event.
pub fn on_event(status: Status, close_on_request: bool, event: WindowEvent) -> (next: Status)
    ensures
        next == spec_on_event(status, close_on_request, event),
{
    if event == WindowEvent::CloseRequested && close_on_request {
        Status::Closing
    } else {
        status
    }
}

/// Status after polling events in order.
pub open spec fn spec_poll(status: Status, close_on_request: bool, events: Seq<WindowEvent>) -> Status
    decreases events.len(),
{
    if events.len() == 0 {
        status
    } else {
        spec_on_event(spec_poll(status, close_on_request, events.drop_last()), close_on_request, events.last())
    }
}

/// Status at the end of a polling run: a window that was already closing
/// when the run began is closed now.
pub fn finish_poll(status: Status, was_closing: bool) -> (next: Status)
    ensures
        next == (if was_closing {
            Status::Closed
        } else {
            status
        }),
{
    if was_closing {
        Status::Closed
    } else {
        status
    }
}

/// Status after one run of the events loop.
pub open spec fn spec_run(status: Status, close_on_request: bool, outcome: RunOutcome) -> Status {
    match status {
        Status::Opening => match outcome {
            RunOutcome::Opened(success) => if success {
                Status::Open
            } else {
                Status::Closed
            },
            _ => status,
        },
        Status::Open | Status::Closing => match outcome {
            RunOutcome::Polled(events) => if status == Status::Closing {
                Status::Closed
            } else {
                spec_poll(status, close_on_request, events@)
            },
            _ => status,
        },
        Status::Closed => status,
    }
}

/// Status after one run of the events loop, given what the window system
/// answered to `run_action(status)`. An answer to a question that was not
/// asked changes nothing.
pub fn run(status: Status, close_on_request: bool, outcome: &RunOutcome) -> (next: Status)
    ensures
        next == spec_run(status, close_on_request, *outcome),
{
    match status {
        Status::Opening => match outcome {
            RunOutcome::Opened(success) => opened(*success),
            _ => status,
        },
        Status::Open | Status::Closing => match outcome {
            RunOutcome::Polled(events) => {
                let was_closing = status == Status::Closing;
                let mut current = status;
                let mut i: usize = 0;
                while i < events.len()
                    invariant
                        i <= events@.len(),
                        current == spec_poll(status, close_on_request, events@.take(i as int)),
                    decreases events@.len() - i,
                {
                    proof {
                        assert(events@.take(i + 1).drop_last() =~= events@.take(i as int));
                    }
                    current = on_event(current, close_on_request, events[i]);
                    i = i + 1;
                }
                proof {
                    assert(events@.take(events@.len() as int) =~= events@);
                }
                finish_poll(current, was_closing)
            },
            _ => status,
        },
        Status::Closed => status,
    }
}

/// Polling never moves a window backward.
proof fn lemma_poll_monotone(status: Status, close_on_request: bool, events: Seq<WindowEvent>)
    requires
        status == Status::Open || status == Status::Closing,
    ensures
        status_rank(status) <= status_rank(spec_poll(status, close_on_request, events)),
        spec_poll(status, close_on_request, events) == Status::Open || spec_poll(
            status,
            close_on_request,
            events,
        ) == Status::Closing,
        spec_poll(status, close_on_request, events) == Status::Closing <==> (status == Status::Closing
            || (close_on_request && events.contains(WindowEvent::CloseRequested))),
    decreases events.len(),
{
    if events.len() > 0 {
        lemma_poll_monotone(status, close_on_request, events.drop_last());
        assert(events =~= events.drop_last().push(events.last()));
        if events.contains(WindowEvent::CloseRequested) && events.last() != WindowEvent::CloseRequested {
            let k: int = choose|k: int| 0 <= k < events.len() && events[k] == WindowEvent::CloseRequested;
            assert(events.drop_last()[k] == WindowEvent::CloseRequested);
        }
        if events.drop_last().contains(WindowEvent::CloseRequested) {
            let k: int = choose|k: int| 0 <= k < events.drop_last().len() && events.drop_last()[k] == WindowEvent::CloseRequested;
            assert(events[k] == WindowEvent::CloseRequested);
        }
    }
}

/// A run of the events loop never moves the window backward in its life
/// cycle: an open window is never opened again and a closed one never
/// reopens.
pub proof fn lemma_run_never_reopens(status: Status, close_on_request: bool, outcome: RunOutcome)
    ensures
        status_rank(status) <= status_rank(spec_run(status, close_on_request, outcome)),
{
    if status == Status::Open {
        if let RunOutcome::Polled(events) = outcome {
            lemma_poll_monotone(status, close_on_request, events@);
        }
    }
}

/// Whether a window in `status` exists in the window system: from its
/// opening until it is closed.
pub open spec fn window_live(status: Status) -> bool {
    status == Status::Open || status == Status::Closing
}

/// The window exists after a run exactly when it was open, or was just
/// opened successfully, or was closing and was not polled: a failed opening
/// leaves no window, and a closing window is gone after it is polled.
pub proof fn lemma_run_liveness(status: Status, close_on_request: bool, outcome: RunOutcome)
    ensures
        window_live(spec_run(status, close_on_request, outcome)) == (status == Status::Open || (status
            == Status::Opening && outcome == RunOutcome::Opened(true)) || (status == Status::Closing
            && !(outcome is Polled))),
{
    if status == Status::Open {
        if let RunOutcome::Polled(events) = outcome {
            lemma_poll_monotone(status, close_on_request, events@);
        }
    }
    if status == Status::Opening {
        if let RunOutcome::Opened(b) = outcome {
            if b {
                assert(outcome == RunOutcome::Opened(true));
            }
        }
    }
}

/// A closed window stays closed whatever happens.
pub proof fn lemma_closed_is_final(close_on_request: bool, outcome: RunOutcome)
    ensures
        spec_run(Status::Closed, close_on_request, outcome) == Status::Closed,
{
}

/// A window that is closing is closed by the next run that polls it; a
/// window that is open starts closing exactly when a closing request is
/// polled and the loop closes on request.
pub proof fn lemma_run_from_closing_closes(close_on_request: bool, events: Vec<WindowEvent>)
    ensures
        spec_run(Status::Closing, close_on_request, RunOutcome::Polled(events)) == Status::Closed,
        spec_run(Status::Open, close_on_request, RunOutcome::Polled(events)) == (if close_on_request
            && events@.contains(WindowEvent::CloseRequested) {
            Status::Closing
        } else {
            Status::Open
        }),
{
    lemma_poll_monotone(Status::Open, close_on_request, events@);
}

} // verus!
