//! What a worker tells the progress display.

use vstd::prelude::*;

verus! {

/// One message from a worker.
pub enum ProgressEvent {
    /// `bytes` more bytes were written to the target.
    Delta { target: usize, bytes: u64 },
    /// The worker of the target has ended. `summary` is its terminal status line;
    /// `error` is the line that reports the failure, if it ended on one.
    Terminal { target: usize, error: Option<String>, summary: String },
}

/// A progress event with its lines as text.
pub enum EventView {
    Delta { target: usize, bytes: u64 },
    Terminal { target: usize, error: Option<Seq<char>>, summary: Seq<char> },
}

impl EventView {
    /// The target that the event is about.
    pub open spec fn target(self) -> usize {
        match self {
            EventView::Delta { target, .. } => target,
            EventView::Terminal { target, .. } => target,
        }
    }
}

impl View for ProgressEvent {
    type V = EventView;

    open spec fn view(&self) -> EventView {
        match *self {
            ProgressEvent::Delta { target, bytes } => EventView::Delta { target, bytes },
            ProgressEvent::Terminal { target, error, summary } => EventView::Terminal {
                target,
                error: match error {
                    Some(line) => Some(line@),
                    None => None,
                },
                summary: summary@,
            },
        }
    }
}

impl ProgressEvent {
    /// The target that the event is about.
    pub fn target(&self) -> (target: usize)
        ensures
            target == self@.target(),
    {
        match self {
            ProgressEvent::Delta { target, .. } => *target,
            ProgressEvent::Terminal { target, .. } => *target,
        }
    }
}

/// A byte counter after `bytes` more bytes. It stops at `u64::MAX`.
pub open spec fn counted(written: u64, bytes: u64) -> u64 {
    if written + bytes > u64::MAX {
        u64::MAX
    } else {
        (written + bytes) as u64
    }
}

/// Adds `bytes` to a byte counter, stopping at `u64::MAX`.
pub fn count(written: u64, bytes: u64) -> (sum: u64)
    ensures
        sum == counted(written, bytes),
{
    if bytes > u64::MAX - written {
        u64::MAX
    } else {
        written + bytes
    }
}

/// The view of an event that may be absent.
pub open spec fn shown(event: Option<ProgressEvent>) -> Option<EventView> {
    match event {
        Some(e) => Some(e@),
        None => None,
    }
}

} // verus!
