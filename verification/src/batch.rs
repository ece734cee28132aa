//! The batching window of the database workers: records are collected for a
//! fixed time, then written together.
//!
//! A worker runs the window in a loop: while the window is open it waits for
//! the next record (or for the window to close), hands what it got to
//! `BatchWindow::step`, and obeys the step's answer; when the window ends it
//! writes what `BatchWindow::finish` returns, and opens the next window.
use vstd::prelude::*;

verus! {

/// How long the private message worker collects before writing.
pub const PRIVATE_WINDOW_MS: u64 = 20000;

/// How long the group creation, group message and friend request workers
/// collect before writing.
pub const WORKER_WINDOW_MS: u64 = 15000;

/// How long group messages are collected before they are fanned out.
pub const FORWARD_WINDOW_MS: u64 = 20000;

/// What a worker observed while waiting inside a window.
pub enum WindowEvent<T> {
    /// A record arrived.
    Received(T),
    /// The channel was closed: no record will ever arrive.
    Closed,
    /// The window's time ran out.
    Elapsed,
}

/// What a worker does when its channel is closed.
#[derive(Clone, Copy, Debug, PartialEq, Eq, Structural)]
pub enum CloseRule {
    /// Stop at once, discarding the open window.
    Stop,
    /// End the window: write what was collected and go on.
    EndWindow,
    /// Keep waiting until the window's time runs out.
    KeepWaiting,
}

/// What the worker does next.
#[derive(Clone, Copy, Debug, PartialEq, Eq, Structural)]
pub enum WindowStep {
    /// Wait for the next record in this window.
    Continue,
    /// Close the window and write it.
    EndWindow,
    /// Stop the worker without writing.
    Stop,
}

/// When its channel closes, the private message worker stops at once.
pub const PRIVATE_CLOSE_RULE: CloseRule = CloseRule::Stop;

/// When its channel closes, the group message worker stops at once.
pub const GROUP_MESSAGE_CLOSE_RULE: CloseRule = CloseRule::Stop;

/// When its channel closes, the friend request worker stops at once.
pub const REQUEST_CLOSE_RULE: CloseRule = CloseRule::Stop;

/// When its channel closes, the group creation worker writes its window and
/// opens the next.
pub const GROUP_CREATION_CLOSE_RULE: CloseRule = CloseRule::EndWindow;

/// When its channel closes, the group message collector keeps waiting until
/// its window's time runs out.
pub const FORWARD_CLOSE_RULE: CloseRule = CloseRule::KeepWaiting;

/// The records collected in the current window, in arrival order.
pub struct BatchWindow<T> {
    rows: Vec<T>,
}

impl<T> View for BatchWindow<T> {
    type V = Seq<T>;

    closed spec fn view(&self) -> Seq<T> {
        self.rows@
    }
}

/// How long a window of `limit_ms` still has after `elapsed_ms`: `None` once
/// it is over.
pub fn window_remaining(limit_ms: u64, elapsed_ms: u64) -> (res: Option<u64>)
    ensures
        res == (if elapsed_ms < limit_ms {
            Some((limit_ms - elapsed_ms) as u64)
        } else {
            None
        }),
{
    if elapsed_ms < limit_ms {
        Some(limit_ms - elapsed_ms)
    } else {
        None
    }
}

/// The answer to an event, under the worker's close rule.
pub open spec fn step_answer<T>(event: WindowEvent<T>, rule: CloseRule) -> WindowStep {
    match event {
        WindowEvent::Received(_) => WindowStep::Continue,
        WindowEvent::Elapsed => WindowStep::EndWindow,
        WindowEvent::Closed => match rule {
            CloseRule::Stop => WindowStep::Stop,
            CloseRule::EndWindow => WindowStep::EndWindow,
            CloseRule::KeepWaiting => WindowStep::Continue,
        },
    }
}

/// The window's records after an event: a received record is appended, other
/// events change nothing.
pub open spec fn after_event<T>(rows: Seq<T>, event: WindowEvent<T>) -> Seq<T> {
    match event {
        WindowEvent::Received(r) => rows.push(r),
        _ => rows,
    }
}

impl<T> BatchWindow<T> {
    /// An empty window.
    pub fn new() -> (w: Self)
        ensures
            w@ == Seq::<T>::empty(),
    {
        BatchWindow { rows: Vec::new() }
    }

    /// Takes in one event and says what to do next.
    pub fn step(&mut self, event: WindowEvent<T>, rule: CloseRule) -> (res: WindowStep)
        ensures
            final(self)@ == after_event(old(self)@, event),
            res == step_answer(event, rule),
    {
        match event {
            WindowEvent::Received(r) => {
                self.rows.push(r);
                WindowStep::Continue
            },
            WindowEvent::Elapsed => WindowStep::EndWindow,
            WindowEvent::Closed => match rule {
                CloseRule::Stop => WindowStep::Stop,
                CloseRule::EndWindow => WindowStep::EndWindow,
                CloseRule::KeepWaiting => WindowStep::Continue,
            },
        }
    }

    /// Ends the window: the records to write, in arrival order, or `None`
    /// when nothing arrived (nothing is written then).
    pub fn finish(self) -> (res: Option<Vec<T>>)
        ensures
            res is None <==> self@.len() == 0,
            res matches Some(rows) ==> rows@ == self@,
    {
        if self.rows.len() == 0 {
            None
        } else {
            Some(self.rows)
        }
    }
}

/// What the window writes after a run of events: the events' records, in
/// the order they arrived.
pub open spec fn received<T>(events: Seq<WindowEvent<T>>) -> Seq<T>
    decreases events.len(),
{
    if events.len() == 0 {
        Seq::empty()
    } else {
        after_event(received(events.drop_last()), events.last())
    }
}

/// Feeding a window, from empty, the events of a run that stopped nowhere
/// leaves in it exactly the records received, in arrival order; so a
/// window's write holds every record of that window once and nothing else.
pub proof fn lemma_window_collects_in_order<T>(events: Seq<WindowEvent<T>>, states: Seq<Seq<T>>)
    requires
        states.len() == events.len() + 1,
        states[0] == Seq::<T>::empty(),
        forall|i: int|
            0 <= i < events.len() ==> #[trigger] states[i + 1] == after_event(
                states[i],
                events[i],
            ),
    ensures
        states.last() == received(events),
    decreases events.len(),
{
    if events.len() > 0 {
        let n = events.len() - 1;
        lemma_window_collects_in_order(events.drop_last(), states.drop_last());
        assert(states[n + 1] == after_event(states[n], events[n]));
    }
}

} // verus!
