//! The decisions of the push surface.
//!
//! Each streaming client gets a greeting and then a poll loop: at every
//! tick it asks the cache whether it is empty, pops one entry if not, and
//! forwards it to the client. Clients share the cache as a work queue, so
//! an entry popped for one client is not sent to another. The loop stops
//! when a send fails or the client goes away.
use vstd::prelude::*;
use crate::cli::Interval;
use crate::event::Data;

verus! {

/// How long the loop sleeps between polls, in nanoseconds: 10 ms.
pub const POLL_NANOS: u32 = 10_000_000;

/// How long the loop sleeps between polls.
pub open spec fn poll_interval() -> Interval {
    Interval { secs: 0, nanos: POLL_NANOS }
}

fn sleep_action() -> (r: PushAction)
    ensures
        r == PushAction::Sleep(poll_interval()),
{
    PushAction::Sleep(Interval { secs: 0, nanos: POLL_NANOS })
}

#[derive(PartialEq, Eq, Structural, Clone, Copy, Debug)]
pub enum PushState {
    Running,
    Stopped,
}

/// What happened after the last action.
#[derive(PartialEq, Eq, Debug)]
pub enum PushEvent {
    /// The sleep is over.
    Tick,
    /// The cache answered whether it is empty.
    Empty(bool),
    /// The cache answered a pop.
    Popped(Option<(String, Data)>),
    /// A message was handed to the client, or could not be.
    Sent(bool),
    /// The client went away.
    Closed,
}

/// What the push loop does next.
#[derive(PartialEq, Eq, Debug)]
pub enum PushAction {
    /// Send the connection greeting.
    Greet,
    AskEmpty,
    AskPop,
    /// Send this entry to the client.
    Forward(String, Data),
    Sleep(Interval),
    Stop,
}

/// The next state and action after `e` in state `s`.
pub open spec fn push_step(s: PushState, e: PushEvent) -> (PushState, PushAction) {
    match s {
        PushState::Stopped => (PushState::Stopped, PushAction::Stop),
        PushState::Running => match e {
            PushEvent::Tick => (PushState::Running, PushAction::AskEmpty),
            PushEvent::Empty(empty) => if empty {
                (PushState::Running, PushAction::Sleep(poll_interval()))
            } else {
                (PushState::Running, PushAction::AskPop)
            },
            PushEvent::Popped(entry) => match entry {
                Some(p) => (PushState::Running, PushAction::Forward(p.0, p.1)),
                None => (PushState::Running, PushAction::Sleep(poll_interval())),
            },
            PushEvent::Sent(ok) => if ok {
                (PushState::Running, PushAction::Sleep(poll_interval()))
            } else {
                (PushState::Stopped, PushAction::Stop)
            },
            PushEvent::Closed => (PushState::Stopped, PushAction::Stop),
        },
    }
}

impl PushState {
    /// A new client: greet it first.
    pub fn start() -> (r: (PushState, PushAction))
        ensures
            r == (PushState::Running, PushAction::Greet),
    {
        (PushState::Running, PushAction::Greet)
    }

    /// The next state and action after `e`.
    pub fn step(self, e: PushEvent) -> (r: (PushState, PushAction))
        ensures
            r == push_step(self, e),
    {
        match self {
            PushState::Stopped => (PushState::Stopped, PushAction::Stop),
            PushState::Running => match e {
                PushEvent::Tick => (PushState::Running, PushAction::AskEmpty),
                PushEvent::Empty(empty) => {
                    if empty {
                        (PushState::Running, sleep_action())
                    } else {
                        (PushState::Running, PushAction::AskPop)
                    }
                },
                PushEvent::Popped(entry) => match entry {
                    Some((path, data)) => (PushState::Running, PushAction::Forward(path, data)),
                    None => (PushState::Running, sleep_action()),
                },
                PushEvent::Sent(ok) => {
                    if ok {
                        (PushState::Running, sleep_action())
                    } else {
                        (PushState::Stopped, PushAction::Stop)
                    }
                },
                PushEvent::Closed => (PushState::Stopped, PushAction::Stop),
            },
        }
    }
}

} // verus!
