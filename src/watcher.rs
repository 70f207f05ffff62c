//! The decisions of the directory watcher.
//!
//! The watcher waits for the root's change signal (`Idle`), then reads and
//! decodes one buffer of records and re-arms the signal (`Draining`). A
//! timeout keeps it waiting; any failure of the OS calls stops it for good.
use vstd::prelude::*;
use crate::event::push_char;

verus! {

/// The wait result: the change signal fired.
pub const WAIT_OBJECT_0: u32 = 0;

/// The wait result: the wait timed out.
pub const WAIT_TIMEOUT: u32 = 0x102;

#[derive(PartialEq, Eq, Structural, Clone, Copy, Debug)]
pub enum WatcherState {
    Idle,
    Draining,
    Stopped,
}

/// What the OS reported for the last action.
#[derive(PartialEq, Eq, Structural, Clone, Copy, Debug)]
pub enum WatchEvent {
    /// The wait returned this code.
    Waited(u32),
    /// The buffer was read (or the read failed); on success its records
    /// have been decoded and published.
    ReadDone(bool),
    /// The change signal was re-armed (or re-arming failed).
    Rearmed(bool),
    /// Shutdown was asked for.
    Cancelled,
}

#[derive(PartialEq, Eq, Structural, Clone, Copy, Debug)]
pub enum WatchError {
    WaitFailed(u32),
    ReadFailed,
    RearmFailed,
    OutOfOrder,
}

/// What the watcher does next.
#[derive(PartialEq, Eq, Structural, Clone, Copy, Debug)]
pub enum WatchAction {
    Wait,
    Read,
    Rearm,
    Exit,
    Fail(WatchError),
}

/// The next state and action after `event` in state `s`.
pub open spec fn watch_step(s: WatcherState, event: WatchEvent) -> (WatcherState, WatchAction) {
    match (s, event) {
        (_, WatchEvent::Cancelled) => (WatcherState::Stopped, WatchAction::Exit),
        (WatcherState::Stopped, _) => (WatcherState::Stopped, WatchAction::Exit),
        (WatcherState::Idle, WatchEvent::Waited(code)) => if code == WAIT_OBJECT_0 {
            (WatcherState::Draining, WatchAction::Read)
        } else if code == WAIT_TIMEOUT {
            (WatcherState::Idle, WatchAction::Wait)
        } else {
            (WatcherState::Stopped, WatchAction::Fail(WatchError::WaitFailed(code)))
        },
        (WatcherState::Draining, WatchEvent::ReadDone(ok)) => if ok {
            (WatcherState::Draining, WatchAction::Rearm)
        } else {
            (WatcherState::Stopped, WatchAction::Fail(WatchError::ReadFailed))
        },
        (WatcherState::Draining, WatchEvent::Rearmed(ok)) => if ok {
            (WatcherState::Idle, WatchAction::Wait)
        } else {
            (WatcherState::Stopped, WatchAction::Fail(WatchError::RearmFailed))
        },
        _ => (WatcherState::Stopped, WatchAction::Fail(WatchError::OutOfOrder)),
    }
}

impl WatcherState {
    /// The state a watcher starts in, with the action it starts with.
    pub fn start() -> (r: (WatcherState, WatchAction))
        ensures
            r == (WatcherState::Idle, WatchAction::Wait),
    {
        (WatcherState::Idle, WatchAction::Wait)
    }

    /// The next state and action after `event`.
    pub fn step(self, event: WatchEvent) -> (r: (WatcherState, WatchAction))
        ensures
            r == watch_step(self, event),
    {
        match (self, event) {
            (_, WatchEvent::Cancelled) => (WatcherState::Stopped, WatchAction::Exit),
            (WatcherState::Stopped, _) => (WatcherState::Stopped, WatchAction::Exit),
            (WatcherState::Idle, WatchEvent::Waited(code)) => {
                if code == WAIT_OBJECT_0 {
                    (WatcherState::Draining, WatchAction::Read)
                } else if code == WAIT_TIMEOUT {
                    (WatcherState::Idle, WatchAction::Wait)
                } else {
                    (WatcherState::Stopped, WatchAction::Fail(WatchError::WaitFailed(code)))
                }
            },
            (WatcherState::Draining, WatchEvent::ReadDone(ok)) => {
                if ok {
                    (WatcherState::Draining, WatchAction::Rearm)
                } else {
                    (WatcherState::Stopped, WatchAction::Fail(WatchError::ReadFailed))
                }
            },
            (WatcherState::Draining, WatchEvent::Rearmed(ok)) => {
                if ok {
                    (WatcherState::Idle, WatchAction::Wait)
                } else {
                    (WatcherState::Stopped, WatchAction::Fail(WatchError::RearmFailed))
                }
            },
            _ => (WatcherState::Stopped, WatchAction::Fail(WatchError::OutOfOrder)),
        }
    }
}

/// Whether `c` separates path components.
pub open spec fn is_separator(c: char) -> bool {
    c == '\\' || c == '/'
}

/// The absolute path of the entry `name`, relative to `root`: a separator
/// is put between them unless `root` already ends with one.
pub open spec fn joined(root: Seq<char>, name: Seq<char>) -> Seq<char> {
    if root.len() > 0 && is_separator(root.last()) {
        root + name
    } else {
        root.push('\\') + name
    }
}

/// Joins the watched root and a relative entry name.
pub fn join_path(root: &str, name: &str) -> (r: String)
    ensures
        r@ == joined(root@, name@),
{
    let mut s = root.to_owned();
    let n = root.unicode_len();
    if n == 0 || !(root.get_char(n - 1) == '\\' || root.get_char(n - 1) == '/') {
        push_char(&mut s, '\\');
    }
    let ghost base = s@;
    let m = name.unicode_len();
    let mut i: usize = 0;
    while i < m
        invariant
            m == name@.len(),
            i <= m,
            s@ =~= base + name@.take(i as int),
        decreases m - i,
    {
        push_char(&mut s, name.get_char(i));
        i = i + 1;
    }
    assert(name@.take(m as int) =~= name@);
    s
}

} // verus!
